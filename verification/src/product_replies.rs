//! What becomes of the replies of the product API.

use crate::json::{
    field, field_or_null, fields_of, inner_text, text_field, Json, Object, Tree,
};
use crate::json_text::{json_parse, lemma_field_nests, nests, parse, NESTING};
use crate::product::{
    authorization, fail_plan, post_json, post_plan, Plan, PlanView, Publish, PublishView,
    SessionView, Then, ThenView,
};
use crate::product_requests::{logged_out, logged_out_status};
use crate::product_values::{
    is_safe_identifier, safe_path_identifier, ProductError, ProductFault,
};
use crate::text::{is_blank, trimmed};
use vstd::prelude::*;
use vstd::string::*;

verus! {

/// A reply, or why there is none.
pub open spec fn reply_view(reply: Result<Json, ProductError>) -> Result<Tree, ProductFault> {
    match reply {
        Ok(value) => Ok(value@),
        Err(error) => Err(error@),
    }
}

/// The session of a login that came with a token.
pub open spec fn login_session(response: Tree, token: Seq<char>, provider: Seq<char>) -> Tree {
    Tree::Object(
        map![
            "token"@ => Tree::Text(token),
            "provider"@ => Tree::Text(provider),
            "user"@ => field_or_null(response, "user"@),
            "username"@ => field_or_null(response, "username"@),
            "email"@ => field_or_null(response, "email"@),
        ],
    )
}

/// The reply to a login, marked with its provider and with whether a session is stored.
pub open spec fn typed_response(response: Tree, provider: Seq<char>) -> Tree {
    Tree::Object(
        fields_of(response).insert("@type"@, Tree::Text("mahayana.auth.session"@)).insert(
            "provider"@,
            Tree::Text(provider),
        ).insert("sessionStored"@, Tree::Bool(text_field(response, "token"@) is Some)),
    )
}

/// The answer to a login.
pub open spec fn login_outcome(
    response: Tree,
    provider: Seq<char>,
    typed: bool,
    require_token: bool,
) -> Result<Tree, ProductFault> {
    if !typed {
        Ok(response)
    } else if require_token && text_field(response, "token"@) is None {
        Err(ProductFault::Response("login response did not include a session token"@))
    } else {
        Ok(typed_response(response, provider))
    }
}

/// Marks the reply to a login.
pub fn typed_session(response: &Json, provider: &str, require_token: bool) -> (out: Result<
    Json,
    ProductError,
>)
    ensures
        reply_view(out) == login_outcome(response@, provider@, true, require_token),
{
    let stored = response.text_field("token").is_some();
    if require_token && !stored {
        return Err(
            ProductError::Response("login response did not include a session token".to_owned()),
        );
    }
    Ok(
        Json::Object(
            response.fields().with_text("@type", "mahayana.auth.session").with_text(
                "provider",
                provider,
            ).with("sessionStored", Json::Bool(stored)),
        ),
    )
}

/// The session to store of a reply that carries a token.
pub fn login_session_of(response: &Json, provider: &str) -> (out: Option<Json>)
    ensures
        match (out, text_field(response@, "token"@)) {
            (Some(session), Some(token)) => session@ == login_session(
                response@,
                token,
                provider@,
            ),
            (None, None) => true,
            _ => false,
        },
{
    match response.text_field("token") {
        Some(token) => Some(
            Json::Object(
                Object::new().with_text("token", token).with_text("provider", provider).with(
                    "user",
                    response.field_or_null("user"),
                ).with("username", response.field_or_null("username")).with(
                    "email",
                    response.field_or_null("email"),
                ),
            ),
        ),
        None => None,
    }
}

/// What a login's reply takes: a token is stored before the request is answered.
pub open spec fn login_plan(
    response: Tree,
    provider: Seq<char>,
    typed: bool,
    require_token: bool,
) -> PlanView {
    match text_field(response, "token"@) {
        Some(token) => PlanView::Save {
            session: login_session(response, token, provider),
            response: if typed {
                typed_response(response, provider)
            } else {
                response
            },
        },
        None => PlanView::Done(login_outcome(response, provider, typed, require_token)),
    }
}

fn finish_login(response: Json, provider: &str, typed: bool, require_token: bool) -> (out: Plan)
    ensures
        out@ == login_plan(response@, provider@, typed, require_token),
{
    let session = login_session_of(&response, provider);
    let outcome = if typed {
        typed_session(&response, provider, require_token)
    } else {
        Ok(response)
    };
    match session {
        Some(session) => match outcome {
            Ok(response) => Plan::Save { session, response },
            Err(error) => Plan::Done(Err(error)),
        },
        None => Plan::Done(outcome),
    }
}

/// Who is logged in.
pub open spec fn logged_in_status(provider: Seq<char>, user: Tree) -> Tree {
    Tree::Object(
        map![
            "@type"@ => Tree::Text("mahayana.auth.status"@),
            "loggedIn"@ => Tree::Bool(true),
            "provider"@ => Tree::Text(provider),
            "user"@ => user,
        ],
    )
}

/// The token is no longer accepted.
pub open spec fn expired_status() -> Tree {
    Tree::Object(logged_out_status().insert("expired"@, Tree::Bool(true)))
}

/// What the reply about a token takes: a refused one that was stored is forgotten.
pub open spec fn status_plan(
    reply: Result<Tree, ProductFault>,
    provider: Seq<char>,
    stored: bool,
) -> PlanView {
    match reply {
        Ok(user) => PlanView::Done(Ok(logged_in_status(provider, user))),
        Err(ProductFault::HttpStatus { status, message }) => if status == 401 {
            if stored {
                PlanView::Remove { response: expired_status() }
            } else {
                PlanView::Done(Ok(expired_status()))
            }
        } else {
            fail_plan(ProductFault::HttpStatus { status, message })
        },
        Err(fault) => fail_plan(fault),
    }
}

fn finish_status(reply: Result<Json, ProductError>, provider: String, stored: bool) -> (out: Plan)
    ensures
        out@ == status_plan(reply_view(reply), provider@, stored),
{
    match reply {
        Ok(user) => Plan::Done(
            Ok(
                Json::Object(
                    Object::new().with_text("@type", "mahayana.auth.status").with(
                        "loggedIn",
                        Json::Bool(true),
                    ).with_text("provider", provider.as_str()).with("user", user),
                ),
            ),
        ),
        Err(ProductError::HttpStatus { status, message }) => if status == 401 {
            let response = Json::Object(logged_out().with("expired", Json::Bool(true)));
            if stored {
                Plan::Remove { response }
            } else {
                Plan::Done(Ok(response))
            }
        } else {
            Plan::Done(Err(ProductError::HttpStatus { status, message }))
        },
        Err(error) => Plan::Done(Err(error)),
    }
}

/// The address of an Alipay login.
pub open spec fn alipay_authorization(response: Tree, platform: Seq<char>) -> Tree {
    Tree::Object(
        map![
            "@type"@ => Tree::Text("mahayana.auth.alipay.authorization"@),
            "provider"@ => Tree::Text("alipay"@),
            "loginUrl"@ => match field(response, "authUrl"@) {
                Some(url) => url,
                None => field_or_null(response, "loginUrl"@),
            },
            "state"@ => field_or_null(response, "state"@),
            "appId"@ => field_or_null(response, "appId"@),
            "platform"@ => match field(response, "platform"@) {
                Some(named) => named,
                None => Tree::Text(platform),
            },
        ],
    )
}

fn finish_alipay_start(response: &Json, platform: &str) -> (out: Json)
    ensures
        out@ == alipay_authorization(response@, platform@),
{
    let url = match response.get("authUrl") {
        Some(url) => url.copy(),
        None => response.field_or_null("loginUrl"),
    };
    let named = match response.get("platform") {
        Some(named) => named.copy(),
        None => Json::text(platform),
    };
    Json::Object(
        Object::new().with_text("@type", "mahayana.auth.alipay.authorization").with_text(
            "provider",
            "alipay",
        ).with("loginUrl", url).with("state", response.field_or_null("state")).with(
            "appId",
            response.field_or_null("appId"),
        ).with("platform", named),
    )
}

/// The identifier that the sandbox gave to a new mini-app.
pub open spec fn created_id(created: Tree) -> Result<Seq<char>, ProductFault> {
    match inner_text(created, "miniApp"@, "miniAppId"@) {
        Some(id) => if is_safe_identifier(trimmed(id)) {
            Ok(trimmed(id))
        } else {
            Err(ProductFault::InvalidParameter("miniAppId"@))
        },
        None => Err(ProductFault::Response("sandbox create response has no miniAppId"@)),
    }
}

/// Sends the first version of a mini-app that was created.
pub open spec fn version_plan(created: Tree, publish: PublishView) -> PlanView {
    match created_id(created) {
        Ok(id) => post_plan(
            "/api/miniapps/dev/"@ + id + "/version"@,
            map![
                "title"@ => Tree::Text(publish.title),
                "subtitle"@ => Tree::Text(publish.subtitle),
                "prompt"@ => Tree::Text(publish.prompt),
                "sourceHtml"@ => Tree::Text(publish.source_html),
                "permissions"@ => publish.permissions,
                "version"@ => Tree::Text(publish.version),
            ],
            publish.token,
            ThenView::Updated {
                token: publish.token,
                miniapp_id: id,
                submit_review: publish.submit_review,
            },
        ),
        Err(fault) => fail_plan(fault),
    }
}

fn send_version(created: &Json, publish: Publish) -> (out: Plan)
    ensures
        out@ == version_plan(created@, publish@),
{
    let id = match created.inner_text("miniApp", "miniAppId") {
        Some(id) => id,
        None => {
            return Plan::Done(
                Err(
                    ProductError::Response("sandbox create response has no miniAppId".to_owned()),
                ),
            );
        },
    };
    let id = match safe_path_identifier(id, "miniAppId") {
        Ok(id) => id,
        Err(error) => {
            return Plan::Done(Err(error));
        },
    };
    let body = Object::new().with_text("title", publish.title.as_str()).with_text(
        "subtitle",
        publish.subtitle.as_str(),
    ).with_text("prompt", publish.prompt.as_str()).with_text(
        "sourceHtml",
        publish.source_html.as_str(),
    ).with("permissions", publish.permissions).with_text("version", publish.version.as_str());
    let path = "/api/miniapps/dev/".to_owned().concat(id.as_str()).concat("/version");
    let token = match &publish.token {
        Some(token) => Some(token.clone()),
        None => None,
    };
    post_json(
        path.as_str(),
        body,
        token,
        Then::Updated {
            token: publish.token,
            miniapp_id: id,
            submit_review: publish.submit_review,
        },
    )
}

/// The answer to a mini-app that was published.
pub open spec fn published(
    authenticated: bool,
    miniapp_id: Seq<char>,
    updated: Tree,
    review: Tree,
) -> Tree {
    Tree::Object(
        map![
            "@type"@ => Tree::Text("mahayana.miniapp.published"@),
            "success"@ => Tree::Bool(true),
            "authenticated"@ => Tree::Bool(authenticated),
            "miniAppId"@ => Tree::Text(miniapp_id),
            "miniApp"@ => field_or_null(updated, "miniApp"@),
            "bot"@ => field_or_null(updated, "bot"@),
            "scan"@ => field_or_null(updated, "scan"@),
            "review"@ => review,
        ],
    )
}

fn published_response(authenticated: bool, miniapp_id: &str, updated: &Json, review: Json) -> (out:
    Json)
    ensures
        out@ == published(authenticated, miniapp_id@, updated@, review@),
{
    Json::Object(
        Object::new().with_text("@type", "mahayana.miniapp.published").with(
            "success",
            Json::Bool(true),
        ).with("authenticated", Json::Bool(authenticated)).with_text("miniAppId", miniapp_id).with(
            "miniApp",
            updated.field_or_null("miniApp"),
        ).with("bot", updated.field_or_null("bot")).with("scan", updated.field_or_null("scan")).with(
            "review",
            review,
        ),
    )
}

/// What a reply takes next.
pub open spec fn resumed(then: ThenView, reply: Result<Tree, ProductFault>) -> PlanView {
    match then {
        ThenView::Pass => PlanView::Done(reply),
        ThenView::Status { provider, stored } => status_plan(reply, provider, stored),
        _ => match reply {
            Err(fault) => fail_plan(fault),
            Ok(response) => match then {
                ThenView::Login { provider, typed, require_token } => login_plan(
                    response,
                    provider,
                    typed,
                    require_token,
                ),
                ThenView::AlipayStart { platform } => PlanView::Done(
                    Ok(alipay_authorization(response, platform)),
                ),
                ThenView::AlipayPoll => if text_field(response, "status"@) == Some("complete"@) {
                    login_plan(response, "alipay"@, false, false)
                } else {
                    PlanView::Done(Ok(response))
                },
                ThenView::Created(publish) => version_plan(response, publish),
                ThenView::Updated { token, miniapp_id, submit_review } => if submit_review {
                    post_plan(
                        "/api/miniapps/"@ + miniapp_id + "/submit-review"@,
                        Map::empty(),
                        token,
                        ThenView::Reviewed {
                            authenticated: token is Some,
                            miniapp_id,
                            updated: response,
                        },
                    )
                } else {
                    PlanView::Done(
                        Ok(published(token is Some, miniapp_id, response, Tree::Null)),
                    )
                },
                ThenView::Reviewed { authenticated, miniapp_id, updated } => PlanView::Done(
                    Ok(published(authenticated, miniapp_id, updated, response)),
                ),
                _ => PlanView::Done(Ok(response)),
            },
        },
    }
}

/// Decides what a reply takes next.
pub fn resume(then: Then, reply: Result<Json, ProductError>) -> (out: Plan)
    ensures
        out@ == resumed(then@, reply_view(reply)),
{
    match then {
        Then::Pass => {
            return Plan::Done(reply);
        },
        Then::Status { provider, stored } => {
            return finish_status(reply, provider, stored);
        },
        _ => {},
    }
    let response = match reply {
        Ok(response) => response,
        Err(error) => {
            return Plan::Done(Err(error));
        },
    };
    match then {
        Then::Login { provider, typed, require_token } => finish_login(
            response,
            provider.as_str(),
            typed,
            require_token,
        ),
        Then::AlipayStart { platform } => Plan::Done(
            Ok(finish_alipay_start(&response, platform.as_str())),
        ),
        Then::AlipayPoll => if response.field_is("status", "complete") {
            finish_login(response, "alipay", false, false)
        } else {
            Plan::Done(Ok(response))
        },
        Then::Created(publish) => send_version(&response, publish),
        Then::Updated { token, miniapp_id, submit_review } => if submit_review {
            let path = "/api/miniapps/".to_owned().concat(miniapp_id.as_str()).concat(
                "/submit-review",
            );
            let authenticated = token.is_some();
            post_json(
                path.as_str(),
                Object::new(),
                token,
                Then::Reviewed { authenticated, miniapp_id, updated: response },
            )
        } else {
            Plan::Done(
                Ok(
                    published_response(
                        token.is_some(),
                        miniapp_id.as_str(),
                        &response,
                        Json::Null,
                    ),
                ),
            )
        },
        Then::Reviewed { authenticated, miniapp_id, updated } => Plan::Done(
            Ok(published_response(authenticated, miniapp_id.as_str(), &updated, response)),
        ),
        _ => Plan::Done(Ok(response)),
    }
}

/// A reply of the product API.
#[derive(Debug, PartialEq, Eq)]
pub enum HttpReply {
    /// A success with its JSON body, or why the body cannot be read.
    Success(Result<Json, String>),
    /// A failure with its body, if that could be read.
    Status { status: u16, body: Option<String> },
    /// No reply came.
    Transport(String),
}

/// The message in the body of a failure: its error or else its message, if that is a text, or
/// else the body itself.
pub open spec fn status_message(parsed: Result<Tree, Seq<char>>, body: Seq<char>) -> Seq<char> {
    match parsed {
        Ok(value) => {
            let said = match field(value, "error"@) {
                Some(error) => Some(error),
                None => field(value, "message"@),
            };
            match said {
                Some(Tree::Text(message)) => message,
                _ => body,
            }
        },
        Err(_) => body,
    }
}

/// The message in the body of a failure that was read as JSON.
pub fn message_in(parsed: &Json, body: &str) -> (out: String)
    ensures
        out@ == status_message(Ok(parsed@), body@),
{
    let said = match parsed.get("error") {
        Some(error) => Some(error),
        None => parsed.get("message"),
    };
    match said {
        Some(value) => match value.as_text() {
            Some(message) => message.to_owned(),
            None => body.to_owned(),
        },
        None => body.to_owned(),
    }
}

/// What a reply says.
pub open spec fn decoded(reply: HttpReply) -> Result<Tree, ProductFault> {
    match reply {
        HttpReply::Success(Ok(value)) => Ok(value@),
        HttpReply::Success(Err(error)) => Err(ProductFault::Response(error@)),
        HttpReply::Status { status, body } => {
            let text = match body {
                Some(text) => text@,
                None => "request failed"@,
            };
            Err(
                ProductFault::HttpStatus {
                    status,
                    message: status_message(json_parse(text), text),
                },
            )
        },
        HttpReply::Transport(error) => Err(ProductFault::Transport(error@)),
    }
}

/// Decides what a reply says.
pub fn decode_response(reply: HttpReply) -> (out: Result<Json, ProductError>)
    ensures
        reply_view(out) == decoded(reply),
{
    match reply {
        HttpReply::Success(Ok(value)) => Ok(value),
        HttpReply::Success(Err(error)) => Err(ProductError::Response(error)),
        HttpReply::Status { status, body } => {
            let text = match body {
                Some(text) => text,
                None => "request failed".to_owned(),
            };
            let message = match parse(text.as_str()) {
                Ok(value) => message_in(&value, text.as_str()),
                Err(_) => text,
            };
            Err(ProductError::HttpStatus { status, message })
        },
        HttpReply::Transport(error) => Err(ProductError::Transport(error)),
    }
}

/// A token that is refused is forgotten if it was stored, and only then.
pub proof fn lemma_refused_token_is_forgotten(message: Seq<char>, provider: Seq<char>, stored: bool)
    ensures
        resumed(
            ThenView::Status { provider, stored },
            Err(ProductFault::HttpStatus { status: 401, message }),
        ) is Remove == stored,
{
}

/// The session of a login that came with a token is stored, and later requests are sent with that
/// token. Where reading accepted the reply, it accepts the stored session.
pub proof fn lemma_login_session_is_used(
    response: Tree,
    provider: Seq<char>,
    typed: bool,
    require_token: bool,
)
    requires
        text_field(response, "token"@) matches Some(token) && !is_blank(token),
    ensures
        ({
            let token = text_field(response, "token"@)->0;
            let session = login_session(response, token, provider);
            let then = ThenView::Login { provider, typed, require_token };
            &&& resumed(then, Ok(response)) matches PlanView::Save { session: stored, .. }
                && stored == session
            &&& authorization(Tree::Null, SessionView::Stored(session)) == Ok::<
                Seq<char>,
                ProductFault,
            >(trimmed(token))
            &&& nests(response, NESTING as nat) ==> nests(session, NESTING as nat)
        }),
{
    let token = text_field(response, "token"@)->0;
    let session = login_session(response, token, provider);
    if nests(response, NESTING as nat) {
        lemma_field_nests(response, "user"@, NESTING as nat);
        lemma_field_nests(response, "username"@, NESTING as nat);
        lemma_field_nests(response, "email"@, NESTING as nat);
        let fields = session->Object_0;
        assert forall|name: Seq<char>| #[trigger] fields.contains_key(name) implies nests(
            fields[name],
            (NESTING - 1) as nat,
        ) by {
            assert(fields[name] is Text || fields[name] == field_or_null(response, "user"@)
                || fields[name] == field_or_null(response, "username"@) || fields[name]
                == field_or_null(response, "email"@));
        }
    }
    reveal_strlit("token");
    reveal_strlit("provider");
    reveal_strlit("user");
    reveal_strlit("username");
    reveal_strlit("email");
    assert("token"@.len() == 5 && "provider"@.len() == 8 && "user"@.len() == 4 && "username"@.len()
        == 8 && "email"@.len() == 5);
    assert("token"@[0] != "email"@[0]);
    assert(session->Object_0["token"@] == Tree::Text(token));
}

/// Every path that publishing a mini-app sends to holds the identifier as one component.
pub proof fn lemma_published_path_is_safe(created: Tree, publish: PublishView)
    requires
        created_id(created) is Ok,
    ensures
        is_safe_identifier(created_id(created)->Ok_0),
        !created_id(created)->Ok_0.contains('/'),
        created_id(created)->Ok_0 != ".."@,
{
    crate::product_values::lemma_safe_identifier(created_id(created)->Ok_0);
}

} // verus!
