//! The product API: which HTTP requests a product request takes, and what becomes of the replies.

use crate::json::{text_field, Json, Object, Tree};
use crate::json_text::{
    alike, json_parse, json_pretty, lemma_alike_fields, nests, parse, plain, pretty,
    reads_back, NESTING,
};
use crate::product_values::{
    optional_string, optional_text, required_string, required_text, ProductError, ProductFault,
};
use crate::url_text::{opt_view, pair_views};
use vstd::prelude::*;
use vstd::string::*;

verus! {

/// The address of the product API unless another one is set.
pub const DEFAULT_API_BASE_URL: &'static str = "https://api.ombhrum.com";

/// The stored account session as it was found.
pub ghost enum SessionView {
    Absent,
    Stored(Tree),
    Broken(Seq<char>),
}

/// The stored account session as it was found.
#[derive(Debug, PartialEq, Eq)]
pub enum Session {
    Absent,
    Stored(Json),
    Broken(String),
}

impl View for Session {
    type V = SessionView;

    open spec fn view(&self) -> SessionView {
        match self {
            Session::Absent => SessionView::Absent,
            Session::Stored(value) => SessionView::Stored(value@),
            Session::Broken(error) => SessionView::Broken(error@),
        }
    }
}

/// What reading the session file gave.
#[derive(Debug, PartialEq, Eq)]
pub enum SessionFile {
    Missing,
    Unreadable(String),
    Text(String),
}

/// The session in a text that was read.
pub open spec fn session_in(parsed: Result<Tree, Seq<char>>) -> SessionView {
    match parsed {
        Ok(value) => SessionView::Stored(value),
        Err(error) => SessionView::Broken(error),
    }
}

/// The session in a file.
pub open spec fn session_of(file: SessionFile) -> SessionView {
    match file {
        SessionFile::Missing => SessionView::Absent,
        SessionFile::Unreadable(error) => SessionView::Broken(error@),
        SessionFile::Text(raw) => session_in(json_parse(raw@)),
    }
}

/// Takes the session out of what reading its file gave.
pub fn load_session(file: SessionFile) -> (out: Session)
    ensures
        out@ == session_of(file),
{
    match file {
        SessionFile::Missing => Session::Absent,
        SessionFile::Unreadable(error) => Session::Broken(error),
        SessionFile::Text(raw) => match parse(raw.as_str()) {
            Ok(value) => Session::Stored(value),
            Err(error) => Session::Broken(error),
        },
    }
}

/// The text of a session for its file. Unless the session nests deeper than reading accepts,
/// loading it gives the session back, up to numbers that are not whole. Whatever is loaded has
/// every text of the session, and requests are sent with the same token.
pub fn session_text(session: &Json) -> (out: String)
    ensures
        out@ == json_pretty(session@),
        reads_back(out@, session@),
        plain(session@, NESTING as nat) ==> session_in(json_parse(out@)) == SessionView::Stored(
            session@,
        ),
        nests(session@, NESTING as nat) ==> session_in(json_parse(out@)) is Stored,
        session_in(json_parse(out@)) matches SessionView::Stored(found) ==> alike(found, session@)
            && forall|name: Seq<char>| #[trigger]
            text_field(found, name) == text_field(session@, name),
        nests(session@, NESTING as nat) ==> forall|command: Tree| #[trigger]
            authorization(command, session_in(json_parse(out@))) == authorization(
                command,
                SessionView::Stored(session@),
            ),
{
    let out = pretty(session);
    proof {
        if let Ok(found) = json_parse(out@) {
            assert forall|name: Seq<char>| #[trigger]
                text_field(found, name) == text_field(session@, name) by {
                lemma_alike_fields(found, session@, name);
            }
        }
    }
    out
}

/// How a request is sent.
#[derive(Debug, Clone, Copy, PartialEq, Eq, Structural)]
pub enum Method {
    Get,
    Post,
}

/// A request to the product API.
pub ghost struct HttpView {
    pub method: Method,
    pub path: Seq<char>,
    pub query: Seq<(Seq<char>, Seq<char>)>,
    pub body: Tree,
    pub token: Option<Seq<char>>,
}

/// A request to the product API.
#[derive(Debug, PartialEq, Eq)]
pub struct HttpRequest {
    pub method: Method,
    pub path: String,
    pub query: Vec<(String, String)>,
    pub body: Json,
    pub token: Option<String>,
}

impl View for HttpRequest {
    type V = HttpView;

    open spec fn view(&self) -> HttpView {
        HttpView {
            method: self.method,
            path: self.path@,
            query: pair_views(self.query@),
            body: self.body@,
            token: opt_view(self.token),
        }
    }
}

/// A mini-app on its way into the sandbox.
pub ghost struct PublishView {
    pub token: Option<Seq<char>>,
    pub title: Seq<char>,
    pub source_html: Seq<char>,
    pub subtitle: Seq<char>,
    pub prompt: Seq<char>,
    pub permissions: Tree,
    pub version: Seq<char>,
    pub submit_review: bool,
}

/// A mini-app on its way into the sandbox.
#[derive(Debug, PartialEq, Eq)]
pub struct Publish {
    pub token: Option<String>,
    pub title: String,
    pub source_html: String,
    pub subtitle: String,
    pub prompt: String,
    pub permissions: Json,
    pub version: String,
    pub submit_review: bool,
}

impl View for Publish {
    type V = PublishView;

    open spec fn view(&self) -> PublishView {
        PublishView {
            token: opt_view(self.token),
            title: self.title@,
            source_html: self.source_html@,
            subtitle: self.subtitle@,
            prompt: self.prompt@,
            permissions: self.permissions@,
            version: self.version@,
            submit_review: self.submit_review,
        }
    }
}

/// What is done with a reply.
pub ghost enum ThenView {
    Pass,
    Status { provider: Seq<char>, stored: bool },
    Login { provider: Seq<char>, typed: bool, require_token: bool },
    AlipayStart { platform: Seq<char> },
    AlipayPoll,
    Created(PublishView),
    Updated { token: Option<Seq<char>>, miniapp_id: Seq<char>, submit_review: bool },
    Reviewed { authenticated: bool, miniapp_id: Seq<char>, updated: Tree },
}

/// What is done with a reply.
#[allow(inconsistent_fields)]
#[derive(Debug, PartialEq, Eq)]
pub enum Then {
    Pass,
    /// Tell whether the token was accepted; a refused one that came from the session file is
    /// forgotten.
    Status { provider: String, stored: bool },
    /// Store the session of a login.
    Login { provider: String, typed: bool, require_token: bool },
    AlipayStart { platform: String },
    AlipayPoll,
    /// A mini-app was created: send its first version.
    Created(Publish),
    /// A version was stored: submit it for review if that was asked.
    Updated { token: Option<String>, miniapp_id: String, submit_review: bool },
    Reviewed { authenticated: bool, miniapp_id: String, updated: Json },
}

impl View for Then {
    type V = ThenView;

    open spec fn view(&self) -> ThenView {
        match self {
            Then::Pass => ThenView::Pass,
            Then::Status { provider, stored } => ThenView::Status {
                provider: provider@,
                stored: *stored,
            },
            Then::Login { provider, typed, require_token } => ThenView::Login {
                provider: provider@,
                typed: *typed,
                require_token: *require_token,
            },
            Then::AlipayStart { platform } => ThenView::AlipayStart { platform: platform@ },
            Then::AlipayPoll => ThenView::AlipayPoll,
            Then::Created(publish) => ThenView::Created(publish@),
            Then::Updated { token, miniapp_id, submit_review } => ThenView::Updated {
                token: opt_view(*token),
                miniapp_id: miniapp_id@,
                submit_review: *submit_review,
            },
            Then::Reviewed { authenticated, miniapp_id, updated } => ThenView::Reviewed {
                authenticated: *authenticated,
                miniapp_id: miniapp_id@,
                updated: updated@,
            },
        }
    }
}

/// What a product request takes next.
pub ghost enum PlanView {
    Done(Result<Tree, ProductFault>),
    Save { session: Tree, response: Tree },
    Remove { response: Tree },
    Send { http: HttpView, then: ThenView },
}

/// What a product request takes next.
#[derive(Debug, PartialEq, Eq)]
pub enum Plan {
    /// The request is answered.
    Done(Result<Json, ProductError>),
    /// Store the session, then answer.
    Save { session: Json, response: Json },
    /// Forget the session, then answer.
    Remove { response: Json },
    /// Send this, then hand the reply to [`resume`].
    Send { http: HttpRequest, then: Then },
}

impl View for Plan {
    type V = PlanView;

    open spec fn view(&self) -> PlanView {
        match self {
            Plan::Done(Ok(value)) => PlanView::Done(Ok(value@)),
            Plan::Done(Err(error)) => PlanView::Done(Err(error@)),
            Plan::Save { session, response } => PlanView::Save {
                session: session@,
                response: response@,
            },
            Plan::Remove { response } => PlanView::Remove { response: response@ },
            Plan::Send { http, then } => PlanView::Send { http: http@, then: then@ },
        }
    }
}

/// Sends a query.
pub open spec fn get_plan(
    path: Seq<char>,
    query: Seq<(Seq<char>, Seq<char>)>,
    token: Option<Seq<char>>,
    then: ThenView,
) -> PlanView {
    PlanView::Send {
        http: HttpView { method: Method::Get, path, query, body: Tree::Null, token },
        then,
    }
}

/// Sends a body.
pub open spec fn post_plan(
    path: Seq<char>,
    body: Map<Seq<char>, Tree>,
    token: Option<Seq<char>>,
    then: ThenView,
) -> PlanView {
    PlanView::Send {
        http: HttpView {
            method: Method::Post,
            path,
            query: Seq::empty(),
            body: Tree::Object(body),
            token,
        },
        then,
    }
}

/// Refuses.
pub open spec fn fail_plan(fault: ProductFault) -> PlanView {
    PlanView::Done(Err(fault))
}

pub(crate) fn get_json(path: &str, query: Vec<(String, String)>, token: Option<String>, then: Then) -> (out:
    Plan)
    ensures
        out@ == get_plan(path@, pair_views(query@), opt_view(token), then@),
{
    Plan::Send {
        http: HttpRequest {
            method: Method::Get,
            path: path.to_owned(),
            query,
            body: Json::Null,
            token,
        },
        then,
    }
}

pub(crate) fn post_json(path: &str, body: Object, token: Option<String>, then: Then) -> (out: Plan)
    ensures
        out@ == post_plan(path@, body@, opt_view(token), then@),
{
    let query: Vec<(String, String)> = Vec::new();
    proof {
        assert(pair_views(query@) =~= Seq::<(Seq<char>, Seq<char>)>::empty());
    }
    Plan::Send {
        http: HttpRequest {
            method: Method::Post,
            path: path.to_owned(),
            query,
            body: Json::Object(body),
            token,
        },
        then,
    }
}

/// The token that a request is sent with: its own, or that of the session.
pub open spec fn authorization(command: Tree, session: SessionView) -> Result<
    Seq<char>,
    ProductFault,
> {
    match optional_text(command, "token"@) {
        Some(token) => Ok(token),
        None => match session {
            SessionView::Absent => Err(ProductFault::NotLoggedIn),
            SessionView::Broken(error) => Err(ProductFault::Session(error)),
            SessionView::Stored(value) => required_text(value, "token"@),
        },
    }
}

/// The token that a request is sent with, where an anonymous request is fine too.
pub open spec fn optional_authorization(command: Tree, session: SessionView) -> Result<
    Option<Seq<char>>,
    ProductFault,
> {
    match optional_text(command, "token"@) {
        Some(token) => Ok(Some(token)),
        None => match session {
            SessionView::Absent => Ok(None),
            SessionView::Broken(error) => Err(ProductFault::Session(error)),
            SessionView::Stored(value) => match text_field(value, "token"@) {
                Some(token) => if token.len() > 0 {
                    Ok(Some(token))
                } else {
                    Ok(None)
                },
                None => Ok(None),
            },
        },
    }
}

/// The token that a request is sent with: its own, or that of the session.
pub fn authorization_token(command: &Json, session: &Session) -> (out: Result<
    String,
    ProductError,
>)
    ensures
        match out {
            Ok(token) => authorization(command@, session@) == Ok::<Seq<char>, ProductFault>(
                token@,
            ),
            Err(error) => authorization(command@, session@) == Err::<Seq<char>, ProductFault>(
                error@,
            ),
        },
{
    match optional_string(command, "token") {
        Some(token) => Ok(token),
        None => match session {
            Session::Absent => Err(ProductError::NotLoggedIn),
            Session::Broken(error) => Err(ProductError::Session(error.clone())),
            Session::Stored(value) => required_string(value, "token"),
        },
    }
}

/// The token that a request is sent with, where an anonymous request is fine too.
pub fn optional_authorization_token(command: &Json, session: &Session) -> (out: Result<
    Option<String>,
    ProductError,
>)
    ensures
        match out {
            Ok(token) => optional_authorization(command@, session@) == Ok::<
                Option<Seq<char>>,
                ProductFault,
            >(opt_view(token)),
            Err(error) => optional_authorization(command@, session@) == Err::<
                Option<Seq<char>>,
                ProductFault,
            >(error@),
        },
{
    match optional_string(command, "token") {
        Some(token) => Ok(Some(token)),
        None => match session {
            Session::Absent => Ok(None),
            Session::Broken(error) => Err(ProductError::Session(error.clone())),
            Session::Stored(value) => match value.text_field("token") {
                Some(token) => if token.is_empty() {
                    Ok(None)
                } else {
                    Ok(Some(token.to_owned()))
                },
                None => Ok(None),
            },
        },
    }
}

/// A query that only an account may send.
pub open spec fn authorized_get_plan(
    command: Tree,
    session: SessionView,
    path: Seq<char>,
    query: Seq<(Seq<char>, Seq<char>)>,
) -> PlanView {
    match authorization(command, session) {
        Ok(token) => get_plan(path, query, Some(token), ThenView::Pass),
        Err(fault) => fail_plan(fault),
    }
}

/// A body that only an account may send.
pub open spec fn authorized_post_plan(
    command: Tree,
    session: SessionView,
    path: Seq<char>,
    body: Map<Seq<char>, Tree>,
) -> PlanView {
    match authorization(command, session) {
        Ok(token) => post_plan(path, body, Some(token), ThenView::Pass),
        Err(fault) => fail_plan(fault),
    }
}

pub(crate) fn authorized_get(
    command: &Json,
    session: &Session,
    path: &str,
    query: Vec<(String, String)>,
) -> (out: Plan)
    ensures
        out@ == authorized_get_plan(command@, session@, path@, pair_views(query@)),
{
    match authorization_token(command, session) {
        Ok(token) => get_json(path, query, Some(token), Then::Pass),
        Err(error) => Plan::Done(Err(error)),
    }
}

pub(crate) fn authorized_post(command: &Json, session: &Session, path: &str, body: Object) -> (out: Plan)
    ensures
        out@ == authorized_post_plan(command@, session@, path@, body@),
{
    match authorization_token(command, session) {
        Ok(token) => post_json(path, body, Some(token), Then::Pass),
        Err(error) => Plan::Done(Err(error)),
    }
}

/// The body of the texts that a request must have: each pair is the name in the body and the name
/// in the request. The first text that is missing is the fault.
pub open spec fn required_body(request: Tree, names: Seq<(Seq<char>, Seq<char>)>) -> Result<
    Map<Seq<char>, Tree>,
    ProductFault,
>
    decreases names.len(),
{
    if names.len() == 0 {
        Ok(Map::empty())
    } else {
        match required_body(request, names.drop_last()) {
            Ok(before) => match required_text(request, names.last().1) {
                Ok(t) => Ok(before.insert(names.last().0, Tree::Text(t))),
                Err(fault) => Err(fault),
            },
            Err(fault) => Err(fault),
        }
    }
}

/// The characters of pairs of string slices.
pub open spec fn name_pairs(names: Seq<(&'static str, &'static str)>) -> Seq<
    (Seq<char>, Seq<char>),
> {
    Seq::new(names.len(), |i: int| (names[i].0@, names[i].1@))
}

proof fn lemma_required_fails(request: Tree, names: Seq<(Seq<char>, Seq<char>)>, n: int)
    requires
        0 <= n <= names.len(),
        required_body(request, names.take(n)) is Err,
    ensures
        required_body(request, names) == required_body(request, names.take(n)),
    decreases names.len(),
{
    if n < names.len() {
        assert(names.drop_last().take(n) =~= names.take(n));
        lemma_required_fails(request, names.drop_last(), n);
    } else {
        assert(names.take(n) =~= names);
    }
}

pub(crate) fn required_fields(request: &Json, names: Vec<(&'static str, &'static str)>) -> (out: Result<
    Object,
    ProductError,
>)
    ensures
        match out {
            Ok(body) => required_body(request@, name_pairs(names@)) == Ok::<
                Map<Seq<char>, Tree>,
                ProductFault,
            >(body@),
            Err(error) => required_body(request@, name_pairs(names@)) == Err::<
                Map<Seq<char>, Tree>,
                ProductFault,
            >(error@),
        },
{
    let ghost all = name_pairs(names@);
    let mut out = Object::new();
    let mut i: usize = 0;
    while i < names.len()
        invariant
            i <= names@.len(),
            all == name_pairs(names@),
            required_body(request@, all.take(i as int)) == Ok::<
                Map<Seq<char>, Tree>,
                ProductFault,
            >(out@),
        decreases names@.len() - i,
    {
        proof {
            assert(all.take(i + 1).drop_last() =~= all.take(i as int));
        }
        match required_string(request, names[i].1) {
            Ok(t) => {
                out = out.with_text(names[i].0, t.as_str());
            },
            Err(error) => {
                proof {
                    lemma_required_fails(request@, all, i + 1);
                }
                return Err(error);
            },
        }
        i = i + 1;
    }
    proof {
        assert(all.take(names@.len() as int) =~= all);
    }
    Ok(out)
}

/// Sends the texts that a request must have.
pub open spec fn required_plan(
    request: Tree,
    path: Seq<char>,
    names: Seq<(Seq<char>, Seq<char>)>,
    then: ThenView,
) -> PlanView {
    match required_body(request, names) {
        Ok(body) => post_plan(path, body, None, then),
        Err(fault) => fail_plan(fault),
    }
}

pub(crate) fn post_required(
    request: &Json,
    path: &str,
    names: Vec<(&'static str, &'static str)>,
    then: Then,
) -> (out: Plan)
    ensures
        out@ == required_plan(request@, path@, name_pairs(names@), then@),
{
    match required_fields(request, names) {
        Ok(body) => post_json(path, body, None, then),
        Err(error) => Plan::Done(Err(error)),
    }
}

} // verus!
