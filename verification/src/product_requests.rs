//! The requests of the product API, one by one, and what becomes of their replies.

use crate::json::{
    appended, field, field_or_null, fields_of, flag_field, text_field, text_or_null, trees,
    unsigned_of, Json, Object, Tree,
};
use crate::json_text::{alike, json_parse, lemma_alike_fields, nests, reads_back, NESTING};
use crate::product::{
    authorization, authorized_get, authorized_get_plan, authorized_post, authorized_post_plan,
    fail_plan, get_json, get_plan, name_pairs, optional_authorization,
    optional_authorization_token, post_json, post_plan, post_required, required_body,
    required_fields, required_plan, session_in, Plan, PlanView, Publish, PublishView, Session, SessionView,
    Then, ThenView,
};
use crate::product_values::{
    copy_optional_fields, identifier_text, is_safe_identifier, optional_string, optional_text,
    required_identifier, required_string, required_text, safe_path_identifier, str_texts,
    with_optional_fields, ProductError, ProductFault,
};
use crate::text::{decimal, decimal_text, same, trimmed};
use crate::url_text::{opt_view, pair_views};
use vstd::prelude::*;
use vstd::string::*;

verus! {

/// Nobody is logged in.
pub open spec fn logged_out_status() -> Map<Seq<char>, Tree> {
    map![
        "@type"@ => Tree::Text("mahayana.auth.status"@),
        "loggedIn"@ => Tree::Bool(false),
        "provider"@ => Tree::Text("alipay"@),
    ]
}

/// The provider that a session names, or the official one.
pub open spec fn session_provider(session: SessionView) -> Seq<char> {
    match session {
        SessionView::Stored(value) => match text_field(value, "provider"@) {
            Some(provider) => provider,
            None => "official"@,
        },
        _ => "official"@,
    }
}

/// The token in a session, unless it is empty.
pub open spec fn stored_token(session: SessionView) -> Option<Seq<char>> {
    match session {
        SessionView::Stored(value) => match text_field(value, "token"@) {
            Some(token) => if token.len() > 0 {
                Some(token)
            } else {
                None
            },
            None => None,
        },
        _ => None,
    }
}

/// Asks who is logged in, with the request's token or else the session's.
pub open spec fn auth_status_plan(request: Tree, session: SessionView) -> PlanView {
    if session is Broken {
        fail_plan(ProductFault::Session(session->Broken_0))
    } else {
        let own = optional_text(request, "token"@);
        let token = if own is Some {
            own
        } else {
            stored_token(session)
        };
        match token {
            Some(token) => get_plan(
                "/api/auth/user-info"@,
                Seq::empty(),
                Some(token),
                ThenView::Status { provider: session_provider(session), stored: own is None },
            ),
            None => PlanView::Done(Ok(Tree::Object(logged_out_status()))),
        }
    }
}

fn no_query() -> (out: Vec<(String, String)>)
    ensures
        pair_views(out@) == Seq::<(Seq<char>, Seq<char>)>::empty(),
{
    let out: Vec<(String, String)> = Vec::new();
    proof {
        assert(pair_views(out@) =~= Seq::<(Seq<char>, Seq<char>)>::empty());
    }
    out
}

fn one_pair(name: &str, value: &str) -> (out: Vec<(String, String)>)
    ensures
        pair_views(out@) == seq![(name@, value@)],
{
    let out: Vec<(String, String)> = vec![(name.to_owned(), value.to_owned())];
    proof {
        assert(pair_views(out@) =~= seq![(name@, value@)]);
    }
    out
}

pub(crate) fn logged_out() -> (out: Object)
    ensures
        out@ == logged_out_status(),
{
    Object::new().with_text("@type", "mahayana.auth.status").with("loggedIn", Json::Bool(false)).with_text(
        "provider",
        "alipay",
    )
}

fn auth_status(request: &Json, session: &Session) -> (out: Plan)
    ensures
        out@ == auth_status_plan(request@, session@),
{
    let own = optional_string(request, "token");
    let stored = own.is_none();
    let (found, provider) = match session {
        Session::Broken(error) => {
            return Plan::Done(Err(ProductError::Session(error.clone())));
        },
        Session::Absent => (None, "official".to_owned()),
        Session::Stored(value) => {
            let found = match value.text_field("token") {
                Some(token) => if token.is_empty() {
                    None
                } else {
                    Some(token.to_owned())
                },
                None => None,
            };
            let provider = match value.text_field("provider") {
                Some(provider) => provider.to_owned(),
                None => "official".to_owned(),
            };
            (found, provider)
        },
    };
    let token = match own {
        Some(token) => Some(token),
        None => found,
    };
    match token {
        Some(token) => get_json(
            "/api/auth/user-info",
            no_query(),
            Some(token),
            Then::Status { provider, stored },
        ),
        None => Plan::Done(Ok(Json::Object(logged_out()))),
    }
}

/// The text in a request's field, or else that in its user.
pub open spec fn own_or_users(request: Tree, user: Tree, name: Seq<char>) -> Option<Seq<char>> {
    match optional_text(request, name) {
        Some(t) => Some(t),
        None => text_field(user, name),
    }
}

/// The provider that a request names, or the application.
pub open spec fn sync_provider(request: Tree) -> Seq<char> {
    match optional_text(request, "provider"@) {
        Some(provider) => provider,
        None => "app"@,
    }
}

/// The session that an application hands over.
pub open spec fn synced_session(request: Tree, token: Seq<char>) -> Tree {
    let user = field_or_null(request, "user"@);
    Tree::Object(
        map![
            "token"@ => Tree::Text(token),
            "provider"@ => Tree::Text(sync_provider(request)),
            "user"@ => user,
            "username"@ => text_or_null(own_or_users(request, user, "username"@)),
            "email"@ => text_or_null(own_or_users(request, user, "email"@)),
        ],
    )
}

/// The answer to a session that was handed over; it does not repeat the token.
pub open spec fn synced_response(request: Tree) -> Tree {
    Tree::Object(
        map![
            "@type"@ => Tree::Text("mahayana.auth.session"@),
            "loggedIn"@ => Tree::Bool(true),
            "sessionStored"@ => Tree::Bool(true),
            "provider"@ => Tree::Text(sync_provider(request)),
        ],
    )
}

/// Stores the session that an application hands over.
pub open spec fn sync_session_plan(request: Tree) -> PlanView {
    match required_text(request, "token"@) {
        Ok(token) => PlanView::Save {
            session: synced_session(request, token),
            response: synced_response(request),
        },
        Err(fault) => fail_plan(fault),
    }
}

fn text_of_own_or_users(request: &Json, user: &Json, name: &str) -> (out: Json)
    ensures
        out@ == text_or_null(own_or_users(request@, user@, name@)),
{
    match optional_string(request, name) {
        Some(t) => Json::Text(t),
        None => Json::text_or_null(user.text_field(name)),
    }
}

fn sync_session(request: &Json) -> (out: Plan)
    ensures
        out@ == sync_session_plan(request@),
{
    let token = match required_string(request, "token") {
        Ok(token) => token,
        Err(error) => {
            return Plan::Done(Err(error));
        },
    };
    let user = request.field_or_null("user");
    let username = text_of_own_or_users(request, &user, "username");
    let email = text_of_own_or_users(request, &user, "email");
    let provider = match optional_string(request, "provider") {
        Some(provider) => provider,
        None => "app".to_owned(),
    };
    let session = Object::new().with_text("token", token.as_str()).with_text(
        "provider",
        provider.as_str(),
    ).with("user", user).with("username", username).with("email", email);
    let response = Object::new().with_text("@type", "mahayana.auth.session").with(
        "loggedIn",
        Json::Bool(true),
    ).with("sessionStored", Json::Bool(true)).with_text("provider", provider.as_str());
    Plan::Save { session: Json::Object(session), response: Json::Object(response) }
}

/// The answer that gives a session back.
pub open spec fn restored(session: Tree) -> Tree {
    Tree::Object(
        fields_of(session).insert("@type"@, Tree::Text("mahayana.auth.session"@)).insert(
            "loggedIn"@,
            Tree::Bool(true),
        ).insert("sessionStored"@, Tree::Bool(true)),
    )
}

/// Gives the stored session back.
pub open spec fn restore_session_plan(session: SessionView) -> PlanView {
    match session {
        SessionView::Absent => fail_plan(ProductFault::NotLoggedIn),
        SessionView::Broken(error) => fail_plan(ProductFault::Session(error)),
        SessionView::Stored(value) => match required_text(value, "token"@) {
            Ok(_) => PlanView::Done(Ok(restored(value))),
            Err(fault) => fail_plan(fault),
        },
    }
}

fn restore_session(session: &Session) -> (out: Plan)
    ensures
        out@ == restore_session_plan(session@),
{
    match session {
        Session::Absent => Plan::Done(Err(ProductError::NotLoggedIn)),
        Session::Broken(error) => Plan::Done(Err(ProductError::Session(error.clone()))),
        Session::Stored(value) => match required_string(value, "token") {
            Ok(_) => Plan::Done(
                Ok(
                    Json::Object(
                        value.fields().with_text("@type", "mahayana.auth.session").with(
                            "loggedIn",
                            Json::Bool(true),
                        ).with("sessionStored", Json::Bool(true)),
                    ),
                ),
            ),
            Err(error) => Plan::Done(Err(error)),
        },
    }
}

/// A session that an application hands over is given back to the command line: same token, same
/// account, and the mark that it is stored. Its token is the one that later requests are sent
/// with, and the answer to the application has no field for it.
pub proof fn lemma_synced_session_is_restored(request: Tree)
    requires
        required_text(request, "token"@) is Ok,
    ensures
        ({
            let token = required_text(request, "token"@)->Ok_0;
            let session = synced_session(request, token);
            &&& sync_session_plan(request) == (PlanView::Save {
                session,
                response: synced_response(request),
            })
            &&& restore_session_plan(SessionView::Stored(session)) == PlanView::Done(
                Ok(restored(session)),
            )
            &&& text_field(restored(session), "token"@) == Some(token)
            &&& field(restored(session), "user"@) == Some(field_or_null(request, "user"@))
            &&& authorization(Tree::Null, SessionView::Stored(session)) == Ok::<
                Seq<char>,
                ProductFault,
            >(token)
            &&& field(synced_response(request), "token"@) is None
        }),
{
    let token = required_text(request, "token"@)->Ok_0;
    let session = synced_session(request, token);
    crate::text::lemma_trimmed_twice(text_field(request, "token"@)->0);
    reveal_strlit("token");
    reveal_strlit("provider");
    reveal_strlit("user");
    reveal_strlit("username");
    reveal_strlit("email");
    reveal_strlit("@type");
    reveal_strlit("loggedIn");
    reveal_strlit("sessionStored");
    assert("token"@.len() == 5 && "provider"@.len() == 8 && "user"@.len() == 4 && "username"@.len()
        == 8 && "email"@.len() == 5);
    assert("token"@[0] != "email"@[0] && "token"@[0] != "@type"@[0]);
    assert("provider"@[0] != "username"@[0]);
    let fields = session->Object_0;
    assert(fields["token"@] == Tree::Text(token));
    assert(required_text(session, "token"@) == Ok::<Seq<char>, ProductFault>(token));
}

/// What an application hands over is stored and read back, unless its account nests so deep that
/// reading refuses the session. Whoever reads the stored text has the application's token and its
/// account.
pub proof fn lemma_synced_session_is_read_back(request: Tree, text: Seq<char>)
    requires
        required_text(request, "token"@) is Ok,
        nests(field_or_null(request, "user"@), (NESTING - 1) as nat),
        reads_back(text, synced_session(request, required_text(request, "token"@)->Ok_0)),
    ensures
        ({
            let token = required_text(request, "token"@)->Ok_0;
            let found = session_in(json_parse(text));
            &&& found is Stored
            &&& authorization(Tree::Null, found) == Ok::<Seq<char>, ProductFault>(token)
            &&& restore_session_plan(found) matches PlanView::Done(Ok(given)) && text_field(
                given,
                "token"@,
            ) == Some(token) && alike(
                field_or_null(given, "user"@),
                field_or_null(request, "user"@),
            )
        }),
{
    let token = required_text(request, "token"@)->Ok_0;
    let session = synced_session(request, token);
    lemma_synced_session_is_restored(request);
    let fields = session->Object_0;
    assert forall|name: Seq<char>| #[trigger] fields.contains_key(name) implies nests(
        fields[name],
        (NESTING - 1) as nat,
    ) by {
        assert(fields[name] is Text || fields[name] is Null || fields[name] == field_or_null(
            request,
            "user"@,
        ));
    }
    assert(nests(session, NESTING as nat));
    let found = json_parse(text)->Ok_0;
    lemma_alike_fields(found, session, "token"@);
    reveal_strlit("token");
    reveal_strlit("user");
    reveal_strlit("username");
    reveal_strlit("email");
    reveal_strlit("@type");
    reveal_strlit("loggedIn");
    reveal_strlit("sessionStored");
    assert("token"@.len() == 5 && "user"@.len() == 4 && "username"@.len() == 8 && "email"@.len()
        == 5 && "@type"@.len() == 5 && "loggedIn"@.len() == 8 && "sessionStored"@.len() == 13);
    assert("token"@[0] != "@type"@[0]);
    assert(fields["user"@] == field_or_null(request, "user"@));
    assert(alike(found->Object_0["user"@], fields["user"@]));
}

/// A session that was stored and read back, which may have changed numbers that are not whole, is
/// used with the same token as before.
pub proof fn lemma_read_back_session_is_used(session: Tree, found: Tree, request: Tree)
    requires
        alike(found, session),
    ensures
        stored_token(SessionView::Stored(found)) == stored_token(SessionView::Stored(session)),
        authorization(request, SessionView::Stored(found)) == authorization(
            request,
            SessionView::Stored(session),
        ),
{
    lemma_alike_fields(found, session, "token"@);
}

/// Once nobody is logged in, a request without a token of its own is refused, and the status says
/// so without asking anybody.
pub proof fn lemma_logged_out(request: Tree, session: SessionView)
    requires
        optional_text(request, "token"@) is None,
    ensures
        product_plan("mahayana.auth.logout"@, request, session) is Remove,
        authorization(request, SessionView::Absent) == Err::<Seq<char>, ProductFault>(
            ProductFault::NotLoggedIn,
        ),
        product_plan("mahayana.auth.status"@, request, SessionView::Absent) == PlanView::Done(
            Ok(Tree::Object(logged_out_status())),
        ),
{
    reveal_strlit("mahayana.auth.logout");
    reveal_strlit("mahayana.auth.status");
    reveal_strlit("mahayana.auth.session.sync");
    reveal_strlit("mahayana.auth.session.restore");
    reveal_strlit("mahayana.auth.password.login");
    reveal_strlit("mahayana.auth.register");
    reveal_strlit("mahayana.auth.verification.send");
    reveal_strlit("mahayana.auth.password.forgot");
    reveal_strlit("mahayana.auth.password.reset");
    reveal_strlit("mahayana.auth.alipay.start");
    reveal_strlit("mahayana.auth.alipay.complete");
    reveal_strlit("mahayana.auth.alipay.poll");
    reveal_strlit("mahayana.auth.alipay.sdk.start");
    reveal_strlit("mahayana.auth.alipay.sdk.complete");
    reveal_strlit("mahayana.auth.alipay.register");
    reveal_strlit("mahayana.auth.apple.complete");
    reveal_strlit("mahayana.auth.firebase.phone.complete");
    let kind = "mahayana.auth.logout"@;
    assert(kind.len() == 20);
    assert("mahayana.auth.status"@.len() == 20 && kind[14] != "mahayana.auth.status"@[14]);
    assert("mahayana.auth.register"@.len() == 22);
}

/// Publishing a mini-app needs no login.
pub proof fn lemma_publishing_needs_no_login(request: Tree)
    requires
        required_text(request, "title"@) is Ok,
        required_text(request, "sourceHtml"@) is Ok,
    ensures
        sandbox_publish_plan(request, SessionView::Absent) matches PlanView::Send { http, .. }
            && http.path == "/api/miniapps/dev/create"@ && http.token == optional_text(
            request,
            "token"@,
        ),
{
}

/// The names that a login with a password takes.
pub open spec fn password_login_plan(request: Tree) -> PlanView {
    required_plan(
        request,
        "/api/auth/login"@,
        seq![("username"@, "username"@), ("password"@, "password"@)],
        ThenView::Login { provider: "password"@, typed: true, require_token: true },
    )
}

fn password_login(request: &Json) -> (out: Plan)
    ensures
        out@ == password_login_plan(request@),
{
    let names = vec![("username", "username"), ("password", "password")];
    proof {
        assert(name_pairs(names@) =~= seq![("username"@, "username"@), ("password"@, "password"@)]);
    }
    post_required(
        request,
        "/api/auth/login",
        names,
        Then::Login { provider: "password".to_owned(), typed: true, require_token: true },
    )
}

/// What a registration takes.
pub open spec fn register_plan(request: Tree) -> PlanView {
    required_plan(
        request,
        "/api/auth/register"@,
        seq![
            ("username"@, "username"@),
            ("email"@, "email"@),
            ("password"@, "password"@),
            ("verificationCode"@, "verificationCode"@),
        ],
        ThenView::Pass,
    )
}

fn register(request: &Json) -> (out: Plan)
    ensures
        out@ == register_plan(request@),
{
    let names = vec![
        ("username", "username"),
        ("email", "email"),
        ("password", "password"),
        ("verificationCode", "verificationCode"),
    ];
    proof {
        assert(name_pairs(names@) =~= seq![
            ("username"@, "username"@),
            ("email"@, "email"@),
            ("password"@, "password"@),
            ("verificationCode"@, "verificationCode"@),
        ]);
    }
    post_required(request, "/api/auth/register", names, Then::Pass)
}

/// What sending a verification code takes.
pub open spec fn verification_send_plan(request: Tree) -> PlanView {
    required_plan(
        request,
        "/api/auth/send-verification-code"@,
        seq![("email"@, "email"@), ("type"@, "type"@)],
        ThenView::Pass,
    )
}

fn verification_send(request: &Json) -> (out: Plan)
    ensures
        out@ == verification_send_plan(request@),
{
    let names = vec![("email", "email"), ("type", "type")];
    proof {
        assert(name_pairs(names@) =~= seq![("email"@, "email"@), ("type"@, "type"@)]);
    }
    post_required(request, "/api/auth/send-verification-code", names, Then::Pass)
}

/// What a forgotten password takes.
pub open spec fn password_forgot_plan(request: Tree) -> PlanView {
    required_plan(
        request,
        "/api/auth/forgot-password"@,
        seq![("email"@, "email"@)],
        ThenView::Pass,
    )
}

fn password_forgot(request: &Json) -> (out: Plan)
    ensures
        out@ == password_forgot_plan(request@),
{
    let names = vec![("email", "email")];
    proof {
        assert(name_pairs(names@) =~= seq![("email"@, "email"@)]);
    }
    post_required(request, "/api/auth/forgot-password", names, Then::Pass)
}

/// What resetting a password takes.
pub open spec fn password_reset_plan(request: Tree) -> PlanView {
    required_plan(
        request,
        "/api/auth/reset-password"@,
        seq![
            ("email"@, "email"@),
            ("token"@, "resetToken"@),
            ("newPassword"@, "newPassword"@),
        ],
        ThenView::Pass,
    )
}

fn password_reset(request: &Json) -> (out: Plan)
    ensures
        out@ == password_reset_plan(request@),
{
    let names = vec![("email", "email"), ("token", "resetToken"), ("newPassword", "newPassword")];
    proof {
        assert(name_pairs(names@) =~= seq![
            ("email"@, "email"@),
            ("token"@, "resetToken"@),
            ("newPassword"@, "newPassword"@),
        ]);
    }
    post_required(request, "/api/auth/reset-password", names, Then::Pass)
}

/// The platform that a login is started on, or the command line.
pub open spec fn login_platform(request: Tree) -> Seq<char> {
    match optional_text(request, "platform"@) {
        Some(platform) => platform,
        None => "cli"@,
    }
}

/// Asks for the address of an Alipay login.
pub open spec fn alipay_start_plan(request: Tree) -> PlanView {
    get_plan(
        "/api/auth/alipay/login-url"@,
        seq![("platform"@, login_platform(request))],
        None,
        ThenView::AlipayStart { platform: login_platform(request) },
    )
}

fn alipay_start(request: &Json) -> (out: Plan)
    ensures
        out@ == alipay_start_plan(request@),
{
    let platform = match optional_string(request, "platform") {
        Some(platform) => platform,
        None => "cli".to_owned(),
    };
    get_json(
        "/api/auth/alipay/login-url",
        one_pair("platform", platform.as_str()),
        None,
        Then::AlipayStart { platform },
    )
}

/// The authorization code of a request, with one more text where the request has it.
pub open spec fn auth_code_body(request: Tree, name: Seq<char>, from: Seq<char>) -> Result<
    Map<Seq<char>, Tree>,
    ProductFault,
> {
    match required_text(request, "authCode"@) {
        Ok(code) => Ok(
            match optional_text(request, from) {
                Some(t) => map!["auth_code"@ => Tree::Text(code), name => Tree::Text(t)],
                None => map!["auth_code"@ => Tree::Text(code)],
            },
        ),
        Err(fault) => Err(fault),
    }
}

/// Completes an Alipay login with its code.
pub open spec fn auth_code_plan(
    request: Tree,
    path: Seq<char>,
    name: Seq<char>,
    from: Seq<char>,
    then: ThenView,
) -> PlanView {
    match auth_code_body(request, name, from) {
        Ok(body) => post_plan(path, body, None, then),
        Err(fault) => fail_plan(fault),
    }
}

fn post_auth_code(request: &Json, path: &str, name: &str, from: &str, then: Then) -> (out: Plan)
    ensures
        out@ == auth_code_plan(request@, path@, name@, from@, then@),
{
    match required_string(request, "authCode") {
        Ok(code) => {
            let body = Object::new().with_text("auth_code", code.as_str());
            match optional_string(request, from) {
                Some(t) => post_json(path, body.with_text(name, t.as_str()), None, then),
                None => post_json(path, body, None, then),
            }
        },
        Err(error) => Plan::Done(Err(error)),
    }
}

/// A login through Alipay.
pub open spec fn alipay_login(typed: bool) -> ThenView {
    ThenView::Login { provider: "alipay"@, typed, require_token: false }
}

fn then_alipay(typed: bool) -> (out: Then)
    ensures
        out@ == alipay_login(typed),
{
    Then::Login { provider: "alipay".to_owned(), typed, require_token: false }
}

/// Asks whether an Alipay login is complete.
pub open spec fn alipay_poll_plan(request: Tree) -> PlanView {
    match required_text(request, "state"@) {
        Ok(state) => get_plan(
            "/api/auth/alipay/cli-session"@,
            seq![("state"@, state)],
            None,
            ThenView::AlipayPoll,
        ),
        Err(fault) => fail_plan(fault),
    }
}

fn alipay_poll(request: &Json) -> (out: Plan)
    ensures
        out@ == alipay_poll_plan(request@),
{
    match required_string(request, "state") {
        Ok(state) => get_json(
            "/api/auth/alipay/cli-session",
            one_pair("state", state.as_str()),
            None,
            Then::AlipayPoll,
        ),
        Err(error) => Plan::Done(Err(error)),
    }
}

/// The texts that an Alipay registration may have.
pub open spec fn alipay_register_names() -> Seq<Seq<char>> {
    seq![
        "alipaySubjectType"@,
        "username"@,
        "password"@,
        "nickname"@,
        "avatar"@,
        "email"@,
        "alipayNickname"@,
        "alipayAvatar"@,
    ]
}

/// Registers an account for an Alipay user.
pub open spec fn alipay_register_plan(request: Tree) -> PlanView {
    match required_text(request, "alipayProviderSubject"@) {
        Ok(subject) => {
            let body = with_optional_fields(
                map!["alipayProviderSubject"@ => Tree::Text(subject)],
                request,
                alipay_register_names(),
            );
            post_plan(
                "/api/auth/alipay/register"@,
                if flag_field(request, "oneClick"@) == Some(true) {
                    body.insert("oneClick"@, Tree::Bool(true))
                } else {
                    body
                },
                None,
                alipay_login(true),
            )
        },
        Err(fault) => fail_plan(fault),
    }
}

fn alipay_register(request: &Json) -> (out: Plan)
    ensures
        out@ == alipay_register_plan(request@),
{
    let subject = match required_string(request, "alipayProviderSubject") {
        Ok(subject) => subject,
        Err(error) => {
            return Plan::Done(Err(error));
        },
    };
    let names = vec![
        "alipaySubjectType",
        "username",
        "password",
        "nickname",
        "avatar",
        "email",
        "alipayNickname",
        "alipayAvatar",
    ];
    proof {
        assert(str_texts(names@) =~= alipay_register_names());
    }
    let body = copy_optional_fields(
        request,
        Object::new().with_text("alipayProviderSubject", subject.as_str()),
        &names,
    );
    let body = match request.flag_field("oneClick") {
        Some(true) => body.with("oneClick", Json::Bool(true)),
        _ => body,
    };
    post_json("/api/auth/alipay/register", body, None, then_alipay(true))
}

/// Completes a login with Apple.
pub open spec fn apple_complete_plan(request: Tree) -> PlanView {
    match required_body(
        request,
        seq![
            ("identityToken"@, "identityToken"@),
            ("authorizationCode"@, "authorizationCode"@),
        ],
    ) {
        Ok(body) => post_plan(
            "/api/auth/apple-login"@,
            with_optional_fields(
                body,
                request,
                seq!["email"@, "givenName"@, "familyName"@],
            ),
            None,
            ThenView::Login { provider: "apple"@, typed: true, require_token: false },
        ),
        Err(fault) => fail_plan(fault),
    }
}

fn apple_complete(request: &Json) -> (out: Plan)
    ensures
        out@ == apple_complete_plan(request@),
{
    let required = vec![
        ("identityToken", "identityToken"),
        ("authorizationCode", "authorizationCode"),
    ];
    let optional = vec!["email", "givenName", "familyName"];
    proof {
        assert(name_pairs(required@) =~= seq![
            ("identityToken"@, "identityToken"@),
            ("authorizationCode"@, "authorizationCode"@),
        ]);
        assert(str_texts(optional@) =~= seq!["email"@, "givenName"@, "familyName"@]);
    }
    match required_fields(request, required) {
        Ok(body) => post_json(
            "/api/auth/apple-login",
            copy_optional_fields(request, body, &optional),
            None,
            Then::Login { provider: "apple".to_owned(), typed: true, require_token: false },
        ),
        Err(error) => Plan::Done(Err(error)),
    }
}

/// Completes a login with a telephone number.
pub open spec fn firebase_phone_plan(request: Tree) -> PlanView {
    match required_body(
        request,
        seq![
            ("idToken"@, "idToken"@),
            ("phoneNumber"@, "phoneNumber"@),
            ("firebaseUid"@, "firebaseUid"@),
        ],
    ) {
        Ok(body) => post_plan(
            "/api/auth/firebase-phone-login"@,
            body.insert(
                "isNewUser"@,
                Tree::Bool(flag_field(request, "isNewUser"@) == Some(true)),
            ),
            None,
            ThenView::Login { provider: "firebase-phone"@, typed: true, require_token: false },
        ),
        Err(fault) => fail_plan(fault),
    }
}

fn firebase_phone_complete(request: &Json) -> (out: Plan)
    ensures
        out@ == firebase_phone_plan(request@),
{
    let names = vec![
        ("idToken", "idToken"),
        ("phoneNumber", "phoneNumber"),
        ("firebaseUid", "firebaseUid"),
    ];
    proof {
        assert(name_pairs(names@) =~= seq![
            ("idToken"@, "idToken"@),
            ("phoneNumber"@, "phoneNumber"@),
            ("firebaseUid"@, "firebaseUid"@),
        ]);
    }
    let new_user = match request.flag_field("isNewUser") {
        Some(flag) => flag,
        None => false,
    };
    match required_fields(request, names) {
        Ok(body) => post_json(
            "/api/auth/firebase-phone-login",
            body.with("isNewUser", Json::Bool(new_user)),
            None,
            Then::Login {
                provider: "firebase-phone".to_owned(),
                typed: true,
                require_token: false,
            },
        ),
        Err(error) => Plan::Done(Err(error)),
    }
}

/// Forgets the session.
pub open spec fn logout_plan() -> PlanView {
    PlanView::Remove {
        response: Tree::Object(
            map![
                "@type"@ => Tree::Text("mahayana.auth.loggedOut"@),
                "loggedIn"@ => Tree::Bool(false),
                "provider"@ => Tree::Text("alipay"@),
            ],
        ),
    }
}

fn logout() -> (out: Plan)
    ensures
        out@ == logout_plan(),
{
    Plan::Remove {
        response: Json::Object(
            Object::new().with_text("@type", "mahayana.auth.loggedOut").with(
                "loggedIn",
                Json::Bool(false),
            ).with_text("provider", "alipay"),
        ),
    }
}

/// Looks for users.
pub open spec fn contacts_search_plan(request: Tree, session: SessionView) -> PlanView {
    match required_text(request, "query"@) {
        Ok(query) => authorized_get_plan(
            request,
            session,
            "/api/social/users/search"@,
            seq![("q"@, query)],
        ),
        Err(fault) => fail_plan(fault),
    }
}

fn contacts_search(request: &Json, session: &Session) -> (out: Plan)
    ensures
        out@ == contacts_search_plan(request@, session@),
{
    match required_string(request, "query") {
        Ok(query) => authorized_get(
            request,
            session,
            "/api/social/users/search",
            one_pair("q", query.as_str()),
        ),
        Err(error) => Plan::Done(Err(error)),
    }
}

/// Asks a user to become a contact.
pub open spec fn contacts_add_plan(request: Tree, session: SessionView) -> PlanView {
    match required_text(request, "contact"@) {
        Ok(contact) => authorized_post_plan(
            request,
            session,
            "/api/social/friend-requests"@,
            match optional_text(request, "message"@) {
                Some(message) => map![
                    "targetUserId"@ => Tree::Text(contact),
                    "message"@ => Tree::Text(message),
                ],
                None => map!["targetUserId"@ => Tree::Text(contact)],
            },
        ),
        Err(fault) => fail_plan(fault),
    }
}

fn contacts_add(request: &Json, session: &Session) -> (out: Plan)
    ensures
        out@ == contacts_add_plan(request@, session@),
{
    match required_string(request, "contact") {
        Ok(contact) => {
            let body = Object::new().with_text("targetUserId", contact.as_str());
            let body = match optional_string(request, "message") {
                Some(message) => body.with_text("message", message.as_str()),
                None => body,
            };
            authorized_post(request, session, "/api/social/friend-requests", body)
        },
        Err(error) => Plan::Done(Err(error)),
    }
}

/// Accepts a contact.
pub open spec fn contacts_accept_plan(request: Tree, session: SessionView) -> PlanView {
    match identifier_text(request, "requestId"@) {
        Some(id) => authorized_post_plan(
            request,
            session,
            "/api/social/friend-requests/"@ + id + "/accept"@,
            Map::empty(),
        ),
        None => fail_plan(ProductFault::InvalidParameter("requestId"@)),
    }
}

fn contacts_accept(request: &Json, session: &Session) -> (out: Plan)
    ensures
        out@ == contacts_accept_plan(request@, session@),
{
    match required_identifier(request, "requestId") {
        Ok(id) => {
            let path = "/api/social/friend-requests/".to_owned().concat(id.as_str()).concat(
                "/accept",
            );
            authorized_post(request, session, path.as_str(), Object::new())
        },
        Err(error) => Plan::Done(Err(error)),
    }
}

/// The number of messages that is asked for: fifty if not given, and from one to two hundred.
pub open spec fn messages_limit(request: Tree) -> u64 {
    let asked = match field(request, "limit"@) {
        Some(value) => match unsigned_of(value) {
            Some(n) => n,
            None => 50,
        },
        None => 50,
    };
    if asked < 1 {
        1
    } else if asked > 200 {
        200
    } else {
        asked
    }
}

/// Lists the messages with a contact.
pub open spec fn messages_list_plan(request: Tree, session: SessionView) -> PlanView {
    match required_text(request, "contact"@) {
        Ok(contact) => authorized_get_plan(
            request,
            session,
            "/api/social/messages"@,
            seq![
                ("contactId"@, contact),
                ("limit"@, decimal(messages_limit(request) as nat)),
            ],
        ),
        Err(fault) => fail_plan(fault),
    }
}

fn messages_list(request: &Json, session: &Session) -> (out: Plan)
    ensures
        out@ == messages_list_plan(request@, session@),
{
    let contact = match required_string(request, "contact") {
        Ok(contact) => contact,
        Err(error) => {
            return Plan::Done(Err(error));
        },
    };
    let asked: u64 = match request.get("limit") {
        Some(value) => match value.as_unsigned() {
            Some(n) => n,
            None => 50,
        },
        None => 50,
    };
    let limit: u64 = if asked < 1 {
        1
    } else if asked > 200 {
        200
    } else {
        asked
    };
    let query: Vec<(String, String)> = vec![
        ("contactId".to_owned(), contact),
        ("limit".to_owned(), decimal_text(limit)),
    ];
    proof {
        assert(pair_views(query@) =~= seq![
            ("contactId"@, contact@),
            ("limit"@, decimal(limit as nat)),
        ]);
    }
    authorized_get(request, session, "/api/social/messages", query)
}

/// Sends a message to a contact.
pub open spec fn messages_send_plan(request: Tree, session: SessionView) -> PlanView {
    match required_body(request, seq![("contactId"@, "contact"@), ("text"@, "text"@)]) {
        Ok(body) => authorized_post_plan(
            request,
            session,
            "/api/social/messages"@,
            match optional_text(request, "clientRequestId"@) {
                Some(id) => body.insert("clientRequestId"@, Tree::Text(id)),
                None => body,
            },
        ),
        Err(fault) => fail_plan(fault),
    }
}

fn messages_send(request: &Json, session: &Session) -> (out: Plan)
    ensures
        out@ == messages_send_plan(request@, session@),
{
    let names = vec![("contactId", "contact"), ("text", "text")];
    proof {
        assert(name_pairs(names@) =~= seq![("contactId"@, "contact"@), ("text"@, "text"@)]);
    }
    match required_fields(request, names) {
        Ok(body) => {
            let body = match optional_string(request, "clientRequestId") {
                Some(id) => body.with_text("clientRequestId", id.as_str()),
                None => body,
            };
            authorized_post(request, session, "/api/social/messages", body)
        },
        Err(error) => Plan::Done(Err(error)),
    }
}

/// Lists the mini-apps.
pub open spec fn miniapp_registry_plan(request: Tree, session: SessionView) -> PlanView {
    match optional_authorization(request, session) {
        Ok(token) => get_plan("/api/miniapps/registry"@, Seq::empty(), token, ThenView::Pass),
        Err(fault) => fail_plan(fault),
    }
}

fn miniapp_registry(request: &Json, session: &Session) -> (out: Plan)
    ensures
        out@ == miniapp_registry_plan(request@, session@),
{
    match optional_authorization_token(request, session) {
        Ok(token) => get_json("/api/miniapps/registry", no_query(), token, Then::Pass),
        Err(error) => Plan::Done(Err(error)),
    }
}

/// The permissions that a mini-app asks for: those of the request if it lists any, or the usual
/// ones.
pub open spec fn asked_permissions(request: Tree) -> Tree {
    match field(request, "permissions"@) {
        Some(value) => if value is Array {
            value
        } else {
            Tree::Array(seq![Tree::Text("app.context"@), Tree::Text("bot.chat"@)])
        },
        None => Tree::Array(seq![Tree::Text("app.context"@), Tree::Text("bot.chat"@)]),
    }
}

/// A text of the request, or another one in its place.
pub open spec fn text_or(request: Tree, name: Seq<char>, other: Seq<char>) -> Seq<char> {
    match optional_text(request, name) {
        Some(t) => t,
        None => other,
    }
}

/// The mini-app that a request publishes.
pub open spec fn publish_of(request: Tree, token: Option<Seq<char>>) -> Result<
    PublishView,
    ProductFault,
> {
    match (required_text(request, "title"@), required_text(request, "sourceHtml"@)) {
        (Ok(title), Ok(source_html)) => Ok(
            PublishView {
                token,
                title,
                source_html,
                subtitle: text_or(
                    request,
                    "subtitle"@,
                    "大乘 CLI 生成的个人沙箱小程序"@,
                ),
                prompt: text_or(request, "prompt"@, title),
                permissions: asked_permissions(request),
                version: text_or(request, "version"@, "0.0.1"@),
                submit_review: flag_field(request, "submitReview"@) == Some(true),
            },
        ),
        (Err(fault), _) => Err(fault),
        (Ok(_), Err(fault)) => Err(fault),
    }
}

/// Publishes a mini-app: first it is created. A login is not needed.
pub open spec fn sandbox_publish_plan(request: Tree, session: SessionView) -> PlanView {
    match optional_authorization(request, session) {
        Ok(token) => match publish_of(request, token) {
            Ok(publish) => post_plan(
                "/api/miniapps/dev/create"@,
                map![
                    "title"@ => Tree::Text(publish.title),
                    "subtitle"@ => Tree::Text(publish.subtitle),
                    "prompt"@ => Tree::Text(publish.prompt),
                    "permissions"@ => publish.permissions,
                ],
                token,
                ThenView::Created(publish),
            ),
            Err(fault) => fail_plan(fault),
        },
        Err(fault) => fail_plan(fault),
    }
}

fn string_or(request: &Json, name: &str, other: &str) -> (out: String)
    ensures
        out@ == text_or(request@, name@, other@),
{
    match optional_string(request, name) {
        Some(t) => t,
        None => other.to_owned(),
    }
}

fn permissions_of(request: &Json) -> (out: Json)
    ensures
        out@ == asked_permissions(request@),
{
    match request.get("permissions") {
        Some(value) => match value {
            Json::Array(_) => {
                return value.copy();
            },
            _ => {},
        },
        None => {},
    }
    let usual = appended(appended(Vec::new(), Json::text("app.context")), Json::text("bot.chat"));
    proof {
        assert(trees(usual@) =~= seq![Tree::Text("app.context"@), Tree::Text("bot.chat"@)]);
    }
    Json::Array(usual)
}

fn copy_token(token: &Option<String>) -> (out: Option<String>)
    ensures
        opt_view(out) == opt_view(*token),
{
    match token {
        Some(token) => Some(token.clone()),
        None => None,
    }
}

fn miniapp_sandbox_publish(request: &Json, session: &Session) -> (out: Plan)
    ensures
        out@ == sandbox_publish_plan(request@, session@),
{
    let token = match optional_authorization_token(request, session) {
        Ok(token) => token,
        Err(error) => {
            return Plan::Done(Err(error));
        },
    };
    let title = match required_string(request, "title") {
        Ok(title) => title,
        Err(error) => {
            return Plan::Done(Err(error));
        },
    };
    let source_html = match required_string(request, "sourceHtml") {
        Ok(source_html) => source_html,
        Err(error) => {
            return Plan::Done(Err(error));
        },
    };
    let submit_review = match request.flag_field("submitReview") {
        Some(flag) => flag,
        None => false,
    };
    let publish = Publish {
        token: copy_token(&token),
        source_html,
        subtitle: string_or(request, "subtitle", "大乘 CLI 生成的个人沙箱小程序"),
        prompt: string_or(request, "prompt", title.as_str()),
        permissions: permissions_of(request),
        version: string_or(request, "version", "0.0.1"),
        submit_review,
        title,
    };
    let body = Object::new().with_text("title", publish.title.as_str()).with_text(
        "subtitle",
        publish.subtitle.as_str(),
    ).with_text("prompt", publish.prompt.as_str()).with("permissions", publish.permissions.copy());
    post_json("/api/miniapps/dev/create", body, token, Then::Created(publish))
}

/// Submits a mini-app for review.
pub open spec fn submit_review_plan(request: Tree, session: SessionView) -> PlanView {
    match optional_authorization(request, session) {
        Ok(token) => match required_text(request, "miniAppId"@) {
            Ok(id) => if is_safe_identifier(trimmed(id)) {
                post_plan(
                    "/api/miniapps/"@ + trimmed(id) + "/submit-review"@,
                    Map::empty(),
                    token,
                    ThenView::Pass,
                )
            } else {
                fail_plan(ProductFault::InvalidParameter("miniAppId"@))
            },
            Err(fault) => fail_plan(fault),
        },
        Err(fault) => fail_plan(fault),
    }
}

fn miniapp_submit_review(request: &Json, session: &Session) -> (out: Plan)
    ensures
        out@ == submit_review_plan(request@, session@),
{
    let token = match optional_authorization_token(request, session) {
        Ok(token) => token,
        Err(error) => {
            return Plan::Done(Err(error));
        },
    };
    let id = match required_string(request, "miniAppId") {
        Ok(id) => id,
        Err(error) => {
            return Plan::Done(Err(error));
        },
    };
    match safe_path_identifier(id.as_str(), "miniAppId") {
        Ok(id) => {
            let path = "/api/miniapps/".to_owned().concat(id.as_str()).concat("/submit-review");
            post_json(path.as_str(), Object::new(), token, Then::Pass)
        },
        Err(error) => Plan::Done(Err(error)),
    }
}

/// What an account request takes.
pub open spec fn auth_plan(kind: Seq<char>, request: Tree, session: SessionView) -> Option<
    PlanView,
> {
    if kind == "mahayana.auth.status"@ {
        Some(auth_status_plan(request, session))
    } else if kind == "mahayana.auth.session.sync"@ {
        Some(sync_session_plan(request))
    } else if kind == "mahayana.auth.session.restore"@ {
        Some(restore_session_plan(session))
    } else if kind == "mahayana.auth.password.login"@ {
        Some(password_login_plan(request))
    } else if kind == "mahayana.auth.register"@ {
        Some(register_plan(request))
    } else if kind == "mahayana.auth.verification.send"@ {
        Some(verification_send_plan(request))
    } else if kind == "mahayana.auth.password.forgot"@ {
        Some(password_forgot_plan(request))
    } else if kind == "mahayana.auth.password.reset"@ {
        Some(password_reset_plan(request))
    } else if kind == "mahayana.auth.alipay.start"@ {
        Some(alipay_start_plan(request))
    } else if kind == "mahayana.auth.alipay.complete"@ {
        Some(
            auth_code_plan(
                request,
                "/api/auth/alipay/login"@,
                "state"@,
                "state"@,
                alipay_login(true),
            ),
        )
    } else if kind == "mahayana.auth.alipay.poll"@ {
        Some(alipay_poll_plan(request))
    } else if kind == "mahayana.auth.alipay.sdk.start"@ {
        Some(get_plan("/api/auth/alipay/auth-string"@, Seq::empty(), None, ThenView::Pass))
    } else if kind == "mahayana.auth.alipay.sdk.complete"@ {
        Some(
            auth_code_plan(
                request,
                "/api/auth/alipay/sdk-login"@,
                "target_id"@,
                "targetId"@,
                alipay_login(false),
            ),
        )
    } else if kind == "mahayana.auth.alipay.register"@ {
        Some(alipay_register_plan(request))
    } else if kind == "mahayana.auth.apple.complete"@ {
        Some(apple_complete_plan(request))
    } else if kind == "mahayana.auth.firebase.phone.complete"@ {
        Some(firebase_phone_plan(request))
    } else if kind == "mahayana.auth.logout"@ {
        Some(logout_plan())
    } else {
        None
    }
}

/// What a product request takes; of an unknown kind it is refused.
pub open spec fn product_plan(kind: Seq<char>, request: Tree, session: SessionView) -> PlanView {
    match auth_plan(kind, request, session) {
        Some(plan) => plan,
        None => if kind == "mahayana.contacts.list"@ {
            authorized_get_plan(request, session, "/api/social/friends"@, Seq::empty())
        } else if kind == "mahayana.contacts.search"@ {
            contacts_search_plan(request, session)
        } else if kind == "mahayana.contacts.add"@ {
            contacts_add_plan(request, session)
        } else if kind == "mahayana.contacts.requests"@ {
            authorized_get_plan(
                request,
                session,
                "/api/social/friend-requests/incoming"@,
                Seq::empty(),
            )
        } else if kind == "mahayana.contacts.accept"@ {
            contacts_accept_plan(request, session)
        } else if kind == "mahayana.messages.list"@ {
            messages_list_plan(request, session)
        } else if kind == "mahayana.messages.send"@ {
            messages_send_plan(request, session)
        } else if kind == "mahayana.miniapps.registry"@ {
            miniapp_registry_plan(request, session)
        } else if kind == "mahayana.miniapp.sandbox.publish"@ {
            sandbox_publish_plan(request, session)
        } else if kind == "mahayana.miniapp.review.submit"@ {
            submit_review_plan(request, session)
        } else {
            fail_plan(ProductFault::UnsupportedRequest(kind))
        },
    }
}

fn execute_auth(kind: &str, request: &Json, session: &Session) -> (out: Option<Plan>)
    ensures
        match out {
            Some(plan) => auth_plan(kind@, request@, session@) == Some(plan@),
            None => auth_plan(kind@, request@, session@) is None,
        },
{
    if same(kind, "mahayana.auth.status") {
        Some(auth_status(request, session))
    } else if same(kind, "mahayana.auth.session.sync") {
        Some(sync_session(request))
    } else if same(kind, "mahayana.auth.session.restore") {
        Some(restore_session(session))
    } else if same(kind, "mahayana.auth.password.login") {
        Some(password_login(request))
    } else if same(kind, "mahayana.auth.register") {
        Some(register(request))
    } else if same(kind, "mahayana.auth.verification.send") {
        Some(verification_send(request))
    } else if same(kind, "mahayana.auth.password.forgot") {
        Some(password_forgot(request))
    } else if same(kind, "mahayana.auth.password.reset") {
        Some(password_reset(request))
    } else if same(kind, "mahayana.auth.alipay.start") {
        Some(alipay_start(request))
    } else if same(kind, "mahayana.auth.alipay.complete") {
        Some(
            post_auth_code(request, "/api/auth/alipay/login", "state", "state", then_alipay(true)),
        )
    } else if same(kind, "mahayana.auth.alipay.poll") {
        Some(alipay_poll(request))
    } else if same(kind, "mahayana.auth.alipay.sdk.start") {
        Some(get_json("/api/auth/alipay/auth-string", no_query(), None, Then::Pass))
    } else if same(kind, "mahayana.auth.alipay.sdk.complete") {
        Some(
            post_auth_code(
                request,
                "/api/auth/alipay/sdk-login",
                "target_id",
                "targetId",
                then_alipay(false),
            ),
        )
    } else if same(kind, "mahayana.auth.alipay.register") {
        Some(alipay_register(request))
    } else if same(kind, "mahayana.auth.apple.complete") {
        Some(apple_complete(request))
    } else if same(kind, "mahayana.auth.firebase.phone.complete") {
        Some(firebase_phone_complete(request))
    } else if same(kind, "mahayana.auth.logout") {
        Some(logout())
    } else {
        None
    }
}

/// Decides what a product request takes.
pub(crate) fn execute(kind: &str, request: &Json, session: &Session) -> (out: Plan)
    ensures
        out@ == product_plan(kind@, request@, session@),
{
    match execute_auth(kind, request, session) {
        Some(plan) => {
            return plan;
        },
        None => {},
    }
    if same(kind, "mahayana.contacts.list") {
        authorized_get(request, session, "/api/social/friends", no_query())
    } else if same(kind, "mahayana.contacts.search") {
        contacts_search(request, session)
    } else if same(kind, "mahayana.contacts.add") {
        contacts_add(request, session)
    } else if same(kind, "mahayana.contacts.requests") {
        authorized_get(request, session, "/api/social/friend-requests/incoming", no_query())
    } else if same(kind, "mahayana.contacts.accept") {
        contacts_accept(request, session)
    } else if same(kind, "mahayana.messages.list") {
        messages_list(request, session)
    } else if same(kind, "mahayana.messages.send") {
        messages_send(request, session)
    } else if same(kind, "mahayana.miniapps.registry") {
        miniapp_registry(request, session)
    } else if same(kind, "mahayana.miniapp.sandbox.publish") {
        miniapp_sandbox_publish(request, session)
    } else if same(kind, "mahayana.miniapp.review.submit") {
        miniapp_submit_review(request, session)
    } else {
        Plan::Done(Err(ProductError::UnsupportedRequest(kind.to_owned())))
    }
}

} // verus!
