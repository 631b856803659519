//! What the requests of the product API come to: where each is sent, and what of it.

use crate::json::{field, flag_field, inner_text, text_field, Tree};
use crate::json_text::json_parse;
use crate::product::{
    authorization, optional_authorization, required_body, session_of, Method, PlanView,
    PublishView, SessionFile, SessionView, ThenView,
};
use crate::product_client::{header_views, request_address};
use crate::product_replies::{resumed, status_message};
use crate::product_requests::{alipay_register_names, auth_plan, product_plan};
use crate::product_values::{
    is_safe_identifier, optional_text, required_text, with_optional_fields, ProductFault,
};
use crate::text::{decimal, is_blank, trimmed};
use vstd::prelude::*;
use vstd::string::*;

verus! {

/// The request has a text under this name that is not blank, and `t` is that text without the
/// white space around it.
pub open spec fn says(request: Tree, name: Seq<char>, t: Seq<char>) -> bool {
    text_field(request, name) matches Some(raw) && !is_blank(raw) && t == trimmed(raw)
}

/// The request has no text under this name, or a blank one.
pub open spec fn lacks(request: Tree, name: Seq<char>) -> bool {
    text_field(request, name) is None || is_blank(text_field(request, name)->0)
}

/// What is sent: a body of texts under their names.
pub open spec fn posts(plan: PlanView, path: Seq<char>, token: Option<Seq<char>>) -> bool {
    plan matches PlanView::Send { http, .. } && http.method == Method::Post && http.path == path
        && http.token == token && http.query.len() == 0 && http.body is Object
}

/// What is asked for.
pub open spec fn gets(plan: PlanView, path: Seq<char>, token: Option<Seq<char>>) -> bool {
    plan matches PlanView::Send { http, .. } && http.method == Method::Get && http.path == path
        && http.token == token
}

/// What is sent in the body under a name.
pub open spec fn sends(plan: PlanView, name: Seq<char>, t: Seq<char>) -> bool {
    plan matches PlanView::Send { http, .. } && text_field(http.body, name) == Some(t)
}

/// Nothing is sent in the body under a name.
pub open spec fn omits(plan: PlanView, name: Seq<char>) -> bool {
    plan matches PlanView::Send { http, .. } && field(http.body, name) is None
}

/// The reply is the answer.
pub open spec fn passes(plan: PlanView) -> bool {
    plan matches PlanView::Send { then, .. } && then == ThenView::Pass
}

/// The request is refused for a parameter.
pub open spec fn misses(plan: PlanView, name: Seq<char>) -> bool {
    plan == PlanView::Done(Err(ProductFault::InvalidParameter(name)))
}

proof fn lemma_auth_kinds()
    ensures
        "mahayana.auth.status"@.len() == 20,
        "mahayana.auth.logout"@.len() == 20,
        "mahayana.auth.register"@.len() == 22,
        "mahayana.auth.alipay.poll"@.len() == 25,
        "mahayana.auth.session.sync"@.len() == 26,
        "mahayana.auth.alipay.start"@.len() == 26,
        "mahayana.auth.password.login"@.len() == 28,
        "mahayana.auth.password.reset"@.len() == 28,
        "mahayana.auth.apple.complete"@.len() == 28,
        "mahayana.auth.session.restore"@.len() == 29,
        "mahayana.auth.password.forgot"@.len() == 29,
        "mahayana.auth.alipay.complete"@.len() == 29,
        "mahayana.auth.alipay.register"@.len() == 29,
        "mahayana.auth.alipay.sdk.start"@.len() == 30,
        "mahayana.auth.verification.send"@.len() == 31,
        "mahayana.auth.alipay.sdk.complete"@.len() == 33,
        "mahayana.auth.firebase.phone.complete"@.len() == 37,
        "mahayana.auth.status"@[14] == 's',
        "mahayana.auth.logout"@[14] == 'l',
        "mahayana.auth.session.sync"@[14] == 's',
        "mahayana.auth.alipay.start"@[14] == 'a',
        "mahayana.auth.password.login"@[23] == 'l',
        "mahayana.auth.password.reset"@[23] == 'r',
        "mahayana.auth.apple.complete"@[23] == 'p',
        "mahayana.auth.session.restore"@[14] == 's',
        "mahayana.auth.password.forgot"@[14] == 'p',
        "mahayana.auth.alipay.complete"@[14] == 'a',
        "mahayana.auth.alipay.register"@[14] == 'a',
        "mahayana.auth.alipay.complete"@[21] == 'c',
        "mahayana.auth.alipay.register"@[21] == 'r',
{
    reveal_strlit("mahayana.auth.status");
    reveal_strlit("mahayana.auth.logout");
    reveal_strlit("mahayana.auth.register");
    reveal_strlit("mahayana.auth.alipay.poll");
    reveal_strlit("mahayana.auth.session.sync");
    reveal_strlit("mahayana.auth.alipay.start");
    reveal_strlit("mahayana.auth.password.login");
    reveal_strlit("mahayana.auth.password.reset");
    reveal_strlit("mahayana.auth.apple.complete");
    reveal_strlit("mahayana.auth.session.restore");
    reveal_strlit("mahayana.auth.password.forgot");
    reveal_strlit("mahayana.auth.alipay.complete");
    reveal_strlit("mahayana.auth.alipay.register");
    reveal_strlit("mahayana.auth.alipay.sdk.start");
    reveal_strlit("mahayana.auth.verification.send");
    reveal_strlit("mahayana.auth.alipay.sdk.complete");
    reveal_strlit("mahayana.auth.firebase.phone.complete");
}

/// A kind of request that does not concern the account.
proof fn lemma_other_kind(kind: Seq<char>, request: Tree, session: SessionView)
    requires
        kind.len() > 9,
        kind[9] != 'a',
    ensures
        auth_plan(kind, request, session) is None,
{
    reveal_strlit("mahayana.auth.status");
    reveal_strlit("mahayana.auth.logout");
    reveal_strlit("mahayana.auth.register");
    reveal_strlit("mahayana.auth.alipay.poll");
    reveal_strlit("mahayana.auth.session.sync");
    reveal_strlit("mahayana.auth.alipay.start");
    reveal_strlit("mahayana.auth.password.login");
    reveal_strlit("mahayana.auth.password.reset");
    reveal_strlit("mahayana.auth.apple.complete");
    reveal_strlit("mahayana.auth.session.restore");
    reveal_strlit("mahayana.auth.password.forgot");
    reveal_strlit("mahayana.auth.alipay.complete");
    reveal_strlit("mahayana.auth.alipay.register");
    reveal_strlit("mahayana.auth.alipay.sdk.start");
    reveal_strlit("mahayana.auth.verification.send");
    reveal_strlit("mahayana.auth.alipay.sdk.complete");
    reveal_strlit("mahayana.auth.firebase.phone.complete");
}

proof fn lemma_kinds()
    ensures
        "mahayana.contacts.list"@.len() == 22,
        "mahayana.contacts.search"@.len() == 24,
        "mahayana.contacts.add"@.len() == 21,
        "mahayana.contacts.requests"@.len() == 26,
        "mahayana.contacts.accept"@.len() == 24,
        "mahayana.messages.list"@.len() == 22,
        "mahayana.messages.send"@.len() == 22,
        "mahayana.miniapps.registry"@.len() == 26,
        "mahayana.miniapp.sandbox.publish"@.len() == 32,
        "mahayana.miniapp.review.submit"@.len() == 30,
        "mahayana.contacts.list"@[9] == 'c',
        "mahayana.contacts.search"@[9] == 'c',
        "mahayana.contacts.add"@[9] == 'c',
        "mahayana.contacts.requests"@[9] == 'c',
        "mahayana.contacts.accept"@[9] == 'c',
        "mahayana.messages.list"@[9] == 'm',
        "mahayana.messages.send"@[9] == 'm',
        "mahayana.miniapps.registry"@[9] == 'm',
        "mahayana.miniapp.sandbox.publish"@[9] == 'm',
        "mahayana.miniapp.review.submit"@[9] == 'm',
        "mahayana.contacts.search"@[18] == 's',
        "mahayana.contacts.accept"@[18] == 'a',
        "mahayana.messages.list"@[18] == 'l',
        "mahayana.messages.send"@[18] == 's',
{
    reveal_strlit("mahayana.contacts.list");
    reveal_strlit("mahayana.contacts.search");
    reveal_strlit("mahayana.contacts.add");
    reveal_strlit("mahayana.contacts.requests");
    reveal_strlit("mahayana.contacts.accept");
    reveal_strlit("mahayana.messages.list");
    reveal_strlit("mahayana.messages.send");
    reveal_strlit("mahayana.miniapps.registry");
    reveal_strlit("mahayana.miniapp.sandbox.publish");
    reveal_strlit("mahayana.miniapp.review.submit");
}

/// A body of texts that a request must have, one by one: each is sent under the first name of its
/// pair if the request has it under the second, and the first that it has not is the fault.
proof fn lemma_body(request: Tree, names: Seq<(Seq<char>, Seq<char>)>, i: int)
    requires
        0 <= i < names.len(),
        forall|j: int, k: int|
            0 <= j < k < names.len() ==> (#[trigger] names[j]).0 != (#[trigger] names[k]).0,
    ensures
        (forall|j: int|
            0 <= j < names.len() ==> required_text(request, (#[trigger] names[j]).1) is Ok) ==> {
            &&& required_body(request, names) is Ok
            &&& required_body(request, names)->Ok_0.contains_key(names[i].0)
            &&& required_body(request, names)->Ok_0[names[i].0] == Tree::Text(
                required_text(request, names[i].1)->Ok_0,
            )
        },
        (forall|j: int|
            0 <= j < i ==> required_text(request, (#[trigger] names[j]).1) is Ok)
            && required_text(request, names[i].1) is Err ==> required_body(request, names) == Err::<
            Map<Seq<char>, Tree>,
            ProductFault,
        >(ProductFault::InvalidParameter(names[i].1)),
        forall|name: Seq<char>|
            required_body(request, names) is Ok && #[trigger] required_body(
                request,
                names,
            )->Ok_0.contains_key(name) ==> exists|j: int|
                0 <= j < names.len() && (#[trigger] names[j]).0 == name,
    decreases names.len(),
{
    let front = names.drop_last();
    assert forall|j: int, k: int| 0 <= j < k < front.len() implies (#[trigger] front[j]).0 != (
    #[trigger] front[k]).0 by {
        assert(names[j].0 != names[k].0);
    }
    if front.len() > 0 {
        let inner = if i < front.len() {
            i
        } else {
            0
        };
        lemma_body(request, front, inner);
        assert(front[inner] == names[inner]);
        if forall|j: int|
            0 <= j < names.len() ==> required_text(request, (#[trigger] names[j]).1) is Ok {
            assert forall|j: int| 0 <= j < front.len() implies required_text(
                request,
                (#[trigger] front[j]).1,
            ) is Ok by {
                assert(front[j] == names[j]);
            }
            assert(required_text(request, names[names.len() - 1].1) is Ok);
            if i < front.len() {
                assert(names[i].0 != names[names.len() - 1].0);
            }
        }
        if i < front.len() && (forall|j: int|
            0 <= j < i ==> required_text(request, (#[trigger] names[j]).1) is Ok) {
            assert forall|j: int| 0 <= j < inner implies required_text(
                request,
                (#[trigger] front[j]).1,
            ) is Ok by {
                assert(front[j] == names[j]);
            }
        }
        if i == front.len() && (forall|j: int|
            0 <= j < i ==> required_text(request, (#[trigger] names[j]).1) is Ok) {
            assert forall|j: int| 0 <= j < front.len() implies required_text(
                request,
                (#[trigger] front[j]).1,
            ) is Ok by {
                assert(front[j] == names[j]);
            }
        }
        assert forall|name: Seq<char>|
            required_body(request, names) is Ok && #[trigger] required_body(
                request,
                names,
            )->Ok_0.contains_key(name) implies exists|j: int|
            0 <= j < names.len() && (#[trigger] names[j]).0 == name by {
            if name == names.last().0 {
                assert(names[names.len() - 1].0 == name);
            } else {
                assert(required_body(request, front)->Ok_0.contains_key(name));
                let j = choose|j: int| 0 <= j < front.len() && (#[trigger] front[j]).0 == name;
                assert(names[j].0 == name);
            }
        }
    } else {
        assert(front =~= Seq::<(Seq<char>, Seq<char>)>::empty());
        assert(required_body(request, front) == Ok::<Map<Seq<char>, Tree>, ProductFault>(
            Map::empty(),
        ));
        assert(names[0] == names.last());
    }
}

/// A message goes to the contact that it is for: the contact is sent as the contact and the text
/// as the text, both without white space around them, by the account that is logged in.
pub proof fn lemma_message_goes_to_its_contact(
    request: Tree,
    session: SessionView,
    contact: Seq<char>,
    text: Seq<char>,
    token: Seq<char>,
)
    requires
        says(request, "contact"@, contact),
        says(request, "text"@, text),
        authorization(request, session) == Ok::<Seq<char>, ProductFault>(token),
    ensures
        ({
            let plan = product_plan("mahayana.messages.send"@, request, session);
            &&& posts(plan, "/api/social/messages"@, Some(token))
            &&& sends(plan, "contactId"@, contact)
            &&& sends(plan, "text"@, text)
            &&& forall|id: Seq<char>| says(request, "clientRequestId"@, id) ==> #[trigger] sends(
                plan,
                "clientRequestId"@,
                id,
            )
            &&& lacks(request, "clientRequestId"@) ==> omits(plan, "clientRequestId"@)
            &&& passes(plan)
        }),
{
    lemma_kinds();
    lemma_other_kind("mahayana.messages.send"@, request, session);
    reveal_strlit("contactId");
    reveal_strlit("text");
    reveal_strlit("clientRequestId");
    assert("contactId"@.len() == 9 && "text"@.len() == 4 && "clientRequestId"@.len() == 15);
    let names = seq![("contactId"@, "contact"@), ("text"@, "text"@)];
    assert(names[0].0 != names[1].0);
    lemma_body(request, names, 0);
    lemma_body(request, names, 1);
}

/// A message without a contact, and one without a text, is refused for what it lacks.
pub proof fn lemma_incomplete_message_is_refused(request: Tree, session: SessionView)
    ensures
        lacks(request, "contact"@) ==> misses(
            product_plan("mahayana.messages.send"@, request, session),
            "contact"@,
        ),
        !lacks(request, "contact"@) && lacks(request, "text"@) ==> misses(
            product_plan("mahayana.messages.send"@, request, session),
            "text"@,
        ),
{
    lemma_kinds();
    lemma_other_kind("mahayana.messages.send"@, request, session);
    reveal_strlit("contactId");
    reveal_strlit("text");
    assert("contactId"@.len() == 9 && "text"@.len() == 4);
    let names = seq![("contactId"@, "contact"@), ("text"@, "text"@)];
    assert(names[0].0 != names[1].0);
    lemma_body(request, names, 0);
    lemma_body(request, names, 1);
}

/// The messages with a contact are asked for by that contact, as many as the request says, from
/// one to two hundred, and fifty where it does not say.
pub proof fn lemma_messages_of_a_contact(
    request: Tree,
    session: SessionView,
    contact: Seq<char>,
    token: Seq<char>,
    limit: u64,
)
    requires
        says(request, "contact"@, contact),
        authorization(request, session) == Ok::<Seq<char>, ProductFault>(token),
        1 <= limit <= 200,
        match field(request, "limit"@) {
            Some(Tree::Int(n)) => limit == if n < 1 {
                1
            } else if n > 200 {
                200
            } else {
                n
            } && 0 <= n <= u64::MAX,
            _ => limit == 50,
        },
    ensures
        ({
            let plan = product_plan("mahayana.messages.list"@, request, session);
            &&& gets(plan, "/api/social/messages"@, Some(token))
            &&& plan->Send_http.query == seq![
                ("contactId"@, contact),
                ("limit"@, decimal(limit as nat)),
            ]
            &&& passes(plan)
        }),
{
    lemma_kinds();
    lemma_other_kind("mahayana.messages.list"@, request, session);
}

/// Contacts: the list and the requests are asked for, users are looked for by the query, a user is
/// asked with the message if there is one, and a request is accepted under its own identifier.
pub proof fn lemma_contacts_are_handled(
    request: Tree,
    session: SessionView,
    token: Seq<char>,
    t: Seq<char>,
)
    requires
        authorization(request, session) == Ok::<Seq<char>, ProductFault>(token),
    ensures
        ({
            let list = product_plan("mahayana.contacts.list"@, request, session);
            let requests = product_plan("mahayana.contacts.requests"@, request, session);
            let search = product_plan("mahayana.contacts.search"@, request, session);
            let add = product_plan("mahayana.contacts.add"@, request, session);
            let accept = product_plan("mahayana.contacts.accept"@, request, session);
            &&& gets(list, "/api/social/friends"@, Some(token)) && passes(list)
            &&& list->Send_http.query.len() == 0
            &&& gets(requests, "/api/social/friend-requests/incoming"@, Some(token)) && passes(
                requests,
            )
            &&& requests->Send_http.query.len() == 0
            &&& says(request, "query"@, t) ==> gets(
                search,
                "/api/social/users/search"@,
                Some(token),
            ) && search->Send_http.query == seq![("q"@, t)] && passes(search)
            &&& lacks(request, "query"@) ==> misses(search, "query"@)
            &&& says(request, "contact"@, t) ==> posts(
                add,
                "/api/social/friend-requests"@,
                Some(token),
            ) && sends(add, "targetUserId"@, t) && passes(add) && (lacks(request, "message"@)
                ==> omits(add, "message"@)) && (forall|m: Seq<char>|
                says(request, "message"@, m) ==> #[trigger] sends(add, "message"@, m))
            &&& lacks(request, "contact"@) ==> misses(add, "contact"@)
            &&& says(request, "requestId"@, t) || (field(request, "requestId"@) matches Some(
                Tree::Int(n),
            ) && n >= 0 && t == decimal(n as nat)) ==> posts(
                accept,
                "/api/social/friend-requests/"@ + t + "/accept"@,
                Some(token),
            ) && passes(accept)
        }),
{
    lemma_kinds();
    lemma_other_kind("mahayana.contacts.list"@, request, session);
    lemma_other_kind("mahayana.contacts.requests"@, request, session);
    lemma_other_kind("mahayana.contacts.search"@, request, session);
    lemma_other_kind("mahayana.contacts.add"@, request, session);
    lemma_other_kind("mahayana.contacts.accept"@, request, session);
    reveal_strlit("targetUserId");
    reveal_strlit("message");
    assert("targetUserId"@.len() == 12 && "message"@.len() == 7);
}

/// A request that only an account may send is not sent without one: nobody is logged in, or the
/// session cannot be read.
pub proof fn lemma_accounts_only(request: Tree, session: SessionView, kind: Seq<char>)
    requires
        lacks(request, "token"@),
        session is Absent || session is Broken,
        kind == "mahayana.contacts.list"@ || kind == "mahayana.contacts.requests"@ || kind
            == "mahayana.contacts.search"@ || kind == "mahayana.contacts.add"@ || kind
            == "mahayana.contacts.accept"@ || kind == "mahayana.messages.list"@ || kind
            == "mahayana.messages.send"@,
    ensures
        product_plan(kind, request, session) matches PlanView::Done(Err(_)),
        kind == "mahayana.contacts.list"@ && session is Absent ==> product_plan(
            kind,
            request,
            session,
        ) == PlanView::Done(Err(ProductFault::NotLoggedIn)),
        kind == "mahayana.contacts.list"@ && session is Broken ==> product_plan(
            kind,
            request,
            session,
        ) == PlanView::Done(Err(ProductFault::Session(session->Broken_0))),
{
    lemma_kinds();
    lemma_other_kind(kind, request, session);
}

/// A request is sent with its own token where it has one, and else with that of the session.
pub proof fn lemma_token_of_a_request(request: Tree, session: SessionView, token: Seq<char>)
    ensures
        says(request, "token"@, token) ==> authorization(request, session) == Ok::<
            Seq<char>,
            ProductFault,
        >(token) && optional_authorization(request, session) == Ok::<
            Option<Seq<char>>,
            ProductFault,
        >(Some(token)),
        lacks(request, "token"@) && session is Stored && says(
            session->Stored_0,
            "token"@,
            token,
        ) ==> authorization(request, session) == Ok::<Seq<char>, ProductFault>(token),
        lacks(request, "token"@) && session is Stored && lacks(session->Stored_0, "token"@)
            ==> authorization(request, session) is Err,
        lacks(request, "token"@) && session is Stored && text_field(session->Stored_0, "token"@)
            == Some(token) && token.len() > 0 ==> optional_authorization(request, session) == Ok::<
            Option<Seq<char>>,
            ProductFault,
        >(Some(token)),
        lacks(request, "token"@) && session is Absent ==> optional_authorization(request, session)
            == Ok::<Option<Seq<char>>, ProductFault>(None),
        lacks(request, "token"@) && session is Broken ==> optional_authorization(request, session)
            is Err,
{
}

/// A login with a password sends the name and the password, each as what it is, and needs a token
/// in the reply.
pub proof fn lemma_password_login(
    request: Tree,
    session: SessionView,
    username: Seq<char>,
    password: Seq<char>,
)
    requires
        says(request, "username"@, username),
        says(request, "password"@, password),
    ensures
        ({
            let plan = product_plan("mahayana.auth.password.login"@, request, session);
            &&& posts(plan, "/api/auth/login"@, None)
            &&& sends(plan, "username"@, username)
            &&& sends(plan, "password"@, password)
            &&& plan->Send_then == (ThenView::Login {
                provider: "password"@,
                typed: true,
                require_token: true,
            })
        }),
{
    lemma_auth_kinds();
    reveal_strlit("username");
    reveal_strlit("password");
    assert("username"@[0] != "password"@[0]);
    let names = seq![("username"@, "username"@), ("password"@, "password"@)];
    assert(names[0].0 != names[1].0);
    lemma_body(request, names, 0);
    lemma_body(request, names, 1);
}

/// A registration sends the name, the address, the password and the code, each as what it is.
pub proof fn lemma_registration(
    request: Tree,
    session: SessionView,
    username: Seq<char>,
    email: Seq<char>,
    password: Seq<char>,
    code: Seq<char>,
)
    requires
        says(request, "username"@, username),
        says(request, "email"@, email),
        says(request, "password"@, password),
        says(request, "verificationCode"@, code),
    ensures
        ({
            let plan = product_plan("mahayana.auth.register"@, request, session);
            &&& posts(plan, "/api/auth/register"@, None)
            &&& sends(plan, "username"@, username)
            &&& sends(plan, "email"@, email)
            &&& sends(plan, "password"@, password)
            &&& sends(plan, "verificationCode"@, code)
            &&& passes(plan)
        }),
{
    lemma_auth_kinds();
    reveal_strlit("username");
    reveal_strlit("email");
    reveal_strlit("password");
    reveal_strlit("verificationCode");
    assert("username"@.len() == 8 && "email"@.len() == 5 && "password"@.len() == 8
        && "verificationCode"@.len() == 16 && "username"@[0] != "password"@[0]);
    let names = seq![
        ("username"@, "username"@),
        ("email"@, "email"@),
        ("password"@, "password"@),
        ("verificationCode"@, "verificationCode"@),
    ];
    lemma_body(request, names, 0);
    lemma_body(request, names, 1);
    lemma_body(request, names, 2);
    lemma_body(request, names, 3);
}

/// Verification codes, forgotten passwords and new ones: each text is sent as what it is. A new
/// password is set with the token of the reset, not with that of a session.
pub proof fn lemma_password_recovery(
    request: Tree,
    session: SessionView,
    email: Seq<char>,
    purpose: Seq<char>,
    reset: Seq<char>,
    password: Seq<char>,
)
    requires
        says(request, "email"@, email),
        says(request, "type"@, purpose),
        says(request, "resetToken"@, reset),
        says(request, "newPassword"@, password),
    ensures
        ({
            let code = product_plan("mahayana.auth.verification.send"@, request, session);
            let forgot = product_plan("mahayana.auth.password.forgot"@, request, session);
            let new = product_plan("mahayana.auth.password.reset"@, request, session);
            &&& posts(code, "/api/auth/send-verification-code"@, None) && passes(code)
            &&& sends(code, "email"@, email) && sends(code, "type"@, purpose)
            &&& posts(forgot, "/api/auth/forgot-password"@, None) && passes(forgot)
            &&& sends(forgot, "email"@, email)
            &&& posts(new, "/api/auth/reset-password"@, None) && passes(new)
            &&& sends(new, "email"@, email) && sends(new, "token"@, reset) && sends(
                new,
                "newPassword"@,
                password,
            )
        }),
{
    lemma_auth_kinds();
    reveal_strlit("email");
    reveal_strlit("type");
    reveal_strlit("token");
    reveal_strlit("newPassword");
    assert("email"@.len() == 5 && "type"@.len() == 4 && "token"@.len() == 5 && "newPassword"@.len()
        == 11 && "email"@[0] != "token"@[0]);
    let a = seq![("email"@, "email"@), ("type"@, "type"@)];
    lemma_body(request, a, 0);
    lemma_body(request, a, 1);
    let b = seq![("email"@, "email"@)];
    lemma_body(request, b, 0);
    let c = seq![("email"@, "email"@), ("token"@, "resetToken"@), ("newPassword"@, "newPassword"@)];
    lemma_body(request, c, 0);
    lemma_body(request, c, 1);
    lemma_body(request, c, 2);
}

/// A login through Alipay is started for the platform of the request, or for the command line, and
/// is asked about under its state; its code is sent as the code, with the state or the target that
/// the request has.
pub proof fn lemma_alipay_login(
    request: Tree,
    session: SessionView,
    t: Seq<char>,
    code: Seq<char>,
)
    ensures
        ({
            let start = product_plan("mahayana.auth.alipay.start"@, request, session);
            let poll = product_plan("mahayana.auth.alipay.poll"@, request, session);
            let sdk = product_plan("mahayana.auth.alipay.sdk.start"@, request, session);
            let page = product_plan("mahayana.auth.alipay.complete"@, request, session);
            let app = product_plan("mahayana.auth.alipay.sdk.complete"@, request, session);
            &&& gets(start, "/api/auth/alipay/login-url"@, None)
            &&& says(request, "platform"@, t) ==> start->Send_http.query == seq![("platform"@, t)]
                && start->Send_then == (ThenView::AlipayStart { platform: t })
            &&& lacks(request, "platform"@) ==> start->Send_http.query == seq![
                ("platform"@, "cli"@),
            ] && start->Send_then == (ThenView::AlipayStart { platform: "cli"@ })
            &&& says(request, "state"@, t) ==> gets(poll, "/api/auth/alipay/cli-session"@, None)
                && poll->Send_http.query == seq![("state"@, t)] && poll->Send_then
                == ThenView::AlipayPoll
            &&& lacks(request, "state"@) ==> misses(poll, "state"@)
            &&& gets(sdk, "/api/auth/alipay/auth-string"@, None) && passes(sdk)
            &&& says(request, "authCode"@, code) ==> posts(page, "/api/auth/alipay/login"@, None)
                && posts(app, "/api/auth/alipay/sdk-login"@, None) && sends(
                page,
                "auth_code"@,
                code,
            ) && sends(app, "auth_code"@, code) && (says(request, "state"@, t) ==> sends(
                page,
                "state"@,
                t,
            )) && (lacks(request, "state"@) ==> omits(page, "state"@)) && (says(
                request,
                "targetId"@,
                t,
            ) ==> sends(app, "target_id"@, t)) && (lacks(request, "targetId"@) ==> omits(
                app,
                "target_id"@,
            )) && page->Send_then == (ThenView::Login {
                provider: "alipay"@,
                typed: true,
                require_token: false,
            }) && app->Send_then == (ThenView::Login {
                provider: "alipay"@,
                typed: false,
                require_token: false,
            })
            &&& lacks(request, "authCode"@) ==> misses(page, "authCode"@) && misses(
                app,
                "authCode"@,
            )
        }),
{
    lemma_auth_kinds();
    reveal_strlit("auth_code");
    reveal_strlit("state");
    reveal_strlit("target_id");
    assert("auth_code"@.len() == 9 && "state"@.len() == 5 && "target_id"@.len() == 9
        && "auth_code"@[0] != "target_id"@[0]);
}

/// A login with Apple and one with a telephone number send what they were given, each text as what
/// it is, and say whose login it is.
pub proof fn lemma_other_logins(
    request: Tree,
    session: SessionView,
    identity: Seq<char>,
    code: Seq<char>,
    token: Seq<char>,
    phone: Seq<char>,
    uid: Seq<char>,
    email: Seq<char>,
)
    requires
        says(request, "identityToken"@, identity),
        says(request, "authorizationCode"@, code),
        says(request, "idToken"@, token),
        says(request, "phoneNumber"@, phone),
        says(request, "firebaseUid"@, uid),
    ensures
        ({
            let apple = product_plan("mahayana.auth.apple.complete"@, request, session);
            let by_phone = product_plan("mahayana.auth.firebase.phone.complete"@, request, session);
            &&& posts(apple, "/api/auth/apple-login"@, None)
            &&& sends(apple, "identityToken"@, identity)
            &&& sends(apple, "authorizationCode"@, code)
            &&& apple->Send_then == (ThenView::Login {
                provider: "apple"@,
                typed: true,
                require_token: false,
            })
            &&& posts(by_phone, "/api/auth/firebase-phone-login"@, None)
            &&& sends(by_phone, "idToken"@, token)
            &&& sends(by_phone, "phoneNumber"@, phone)
            &&& sends(by_phone, "firebaseUid"@, uid)
            &&& flag_field(by_phone->Send_http.body, "isNewUser"@) == Some(
                flag_field(request, "isNewUser"@) == Some(true),
            )
            &&& by_phone->Send_then == (ThenView::Login {
                provider: "firebase-phone"@,
                typed: true,
                require_token: false,
            })
        }),
{
    lemma_auth_kinds();
    reveal_strlit("identityToken");
    reveal_strlit("authorizationCode");
    reveal_strlit("idToken");
    reveal_strlit("phoneNumber");
    reveal_strlit("firebaseUid");
    reveal_strlit("isNewUser");
    reveal_strlit("email");
    reveal_strlit("givenName");
    reveal_strlit("familyName");
    assert("identityToken"@.len() == 13 && "authorizationCode"@.len() == 17 && "idToken"@.len() == 7
        && "phoneNumber"@.len() == 11 && "firebaseUid"@.len() == 11 && "isNewUser"@.len() == 9
        && "phoneNumber"@[0] != "firebaseUid"@[0] && "email"@.len() == 5 && "givenName"@.len() == 9
        && "familyName"@.len() == 10);
    let a = seq![
        ("identityToken"@, "identityToken"@),
        ("authorizationCode"@, "authorizationCode"@),
    ];
    lemma_body(request, a, 0);
    lemma_body(request, a, 1);
    let body = required_body(request, a)->Ok_0;
    let extra = seq!["email"@, "givenName"@, "familyName"@];
    lemma_extra_fields(body, request, extra, "identityToken"@);
    lemma_extra_fields(body, request, extra, "authorizationCode"@);
    let b = seq![
        ("idToken"@, "idToken"@),
        ("phoneNumber"@, "phoneNumber"@),
        ("firebaseUid"@, "firebaseUid"@),
    ];
    lemma_body(request, b, 0);
    lemma_body(request, b, 1);
    lemma_body(request, b, 2);
}

/// Optional texts are added under their own names, and nothing else changes.
pub proof fn lemma_extra_fields(
    body: Map<Seq<char>, Tree>,
    request: Tree,
    names: Seq<Seq<char>>,
    name: Seq<char>,
)
    ensures
        ({
            let after = with_optional_fields(body, request, names);
            &&& !names.contains(name) ==> (after.contains_key(name) <==> body.contains_key(name))
                && (body.contains_key(name) ==> after[name] == body[name])
            &&& names.contains(name) && optional_text(request, name) is Some ==> after.contains_key(
                name,
            ) && after[name] == Tree::Text(optional_text(request, name)->0)
            &&& names.contains(name) && optional_text(request, name) is None ==> (
            after.contains_key(name) <==> body.contains_key(name)) && (body.contains_key(name)
                ==> after[name] == body[name])
        }),
    decreases names.len(),
{
    if names.len() > 0 {
        let front = names.drop_last();
        lemma_extra_fields(body, request, front, name);
        if names.contains(name) && name != names.last() {
            let k = choose|k: int| 0 <= k < names.len() && names[k] == name;
            assert(front[k] == name);
        }
        if front.contains(name) {
            let k = choose|k: int| 0 <= k < front.len() && front[k] == name;
            assert(names[k] == name);
        }
        if name == names.last() {
            assert(names[names.len() - 1] == name);
        }
    }
}

/// An account is registered for the user of Alipay that the request names, with the texts that it
/// has, each under its own name.
pub proof fn lemma_alipay_registration(
    request: Tree,
    session: SessionView,
    subject: Seq<char>,
    name: Seq<char>,
    t: Seq<char>,
)
    requires
        says(request, "alipayProviderSubject"@, subject),
        name == "alipaySubjectType"@ || name == "username"@ || name == "password"@ || name
            == "nickname"@ || name == "avatar"@ || name == "email"@ || name == "alipayNickname"@
            || name == "alipayAvatar"@,
    ensures
        ({
            let plan = product_plan("mahayana.auth.alipay.register"@, request, session);
            &&& posts(plan, "/api/auth/alipay/register"@, None)
            &&& sends(plan, "alipayProviderSubject"@, subject)
            &&& says(request, name, t) ==> sends(plan, name, t)
            &&& lacks(request, name) ==> omits(plan, name)
            &&& flag_field(request, "oneClick"@) == Some(true) <==> flag_field(
                plan->Send_http.body,
                "oneClick"@,
            ) == Some(true)
            &&& plan->Send_then == (ThenView::Login {
                provider: "alipay"@,
                typed: true,
                require_token: false,
            })
        }),
{
    lemma_auth_kinds();
    let names = alipay_register_names();
    reveal_strlit("alipayProviderSubject");
    reveal_strlit("oneClick");
    reveal_strlit("alipaySubjectType");
    reveal_strlit("username");
    reveal_strlit("password");
    reveal_strlit("nickname");
    reveal_strlit("avatar");
    reveal_strlit("email");
    reveal_strlit("alipayNickname");
    reveal_strlit("alipayAvatar");
    assert("alipayProviderSubject"@.len() == 21 && "oneClick"@.len() == 8
        && "alipaySubjectType"@.len() == 17 && "username"@.len() == 8 && "password"@.len() == 8
        && "nickname"@.len() == 8 && "avatar"@.len() == 6 && "email"@.len() == 5
        && "alipayNickname"@.len() == 14 && "alipayAvatar"@.len() == 12);
    assert("oneClick"@[0] == 'o' && "username"@[0] == 'u' && "password"@[0] == 'p' && "nickname"@[0]
        == 'n');
    assert(names[0] == "alipaySubjectType"@ && names[1] == "username"@ && names[2] == "password"@
        && names[3] == "nickname"@ && names[4] == "avatar"@ && names[5] == "email"@ && names[6]
        == "alipayNickname"@ && names[7] == "alipayAvatar"@ && names.len() == 8);
    assert(names.contains(name));
    let first = map!["alipayProviderSubject"@ => Tree::Text(subject)];
    lemma_extra_fields(first, request, names, name);
    lemma_extra_fields(first, request, names, "alipayProviderSubject"@);
    lemma_extra_fields(first, request, names, "oneClick"@);
}

/// The session that an application hands over is stored with its token, its provider and its
/// account, and the answer says so without the token.
pub proof fn lemma_session_is_handed_over(
    request: Tree,
    session: SessionView,
    token: Seq<char>,
    t: Seq<char>,
)
    requires
        says(request, "token"@, token),
    ensures
        product_plan("mahayana.auth.session.sync"@, request, session) matches PlanView::Save {
            session: stored,
            response,
        } && {
            &&& text_field(stored, "token"@) == Some(token)
            &&& says(request, "provider"@, t) ==> text_field(stored, "provider"@) == Some(t)
                && text_field(response, "provider"@) == Some(t)
            &&& lacks(request, "provider"@) ==> text_field(stored, "provider"@) == Some("app"@)
                && text_field(response, "provider"@) == Some("app"@)
            &&& field(request, "user"@) matches Some(user) ==> field(stored, "user"@) == Some(user)
            &&& says(request, "username"@, t) ==> text_field(stored, "username"@) == Some(t)
            &&& says(request, "email"@, t) ==> text_field(stored, "email"@) == Some(t)
            &&& flag_field(response, "loggedIn"@) == Some(true)
            &&& flag_field(response, "sessionStored"@) == Some(true)
            &&& text_field(response, "@type"@) == Some("mahayana.auth.session"@)
            &&& field(response, "token"@) is None
        },
        product_plan("mahayana.auth.session.sync"@, Tree::Null, session) == PlanView::Done(
            Err(ProductFault::InvalidParameter("token"@)),
        ),
{
    lemma_auth_kinds();
    reveal_strlit("token");
    reveal_strlit("provider");
    reveal_strlit("user");
    reveal_strlit("username");
    reveal_strlit("email");
    reveal_strlit("@type");
    reveal_strlit("loggedIn");
    reveal_strlit("sessionStored");
    assert("token"@.len() == 5 && "provider"@.len() == 8 && "user"@.len() == 4 && "username"@.len()
        == 8 && "email"@.len() == 5 && "@type"@.len() == 5 && "loggedIn"@.len() == 8
        && "sessionStored"@.len() == 13);
    assert("token"@[0] == 't' && "email"@[0] == 'e' && "@type"@[0] == '@' && "provider"@[0] == 'p'
        && "username"@[0] == 'u' && "loggedIn"@[0] == 'l');
}

/// A stored session is given back whole, with the mark that it is stored; without one, or with one
/// that has no token, it is refused.
pub proof fn lemma_session_is_given_back(request: Tree, value: Tree, token: Seq<char>, name: Seq<char>)
    requires
        says(value, "token"@, token),
        name != "@type"@,
        name != "loggedIn"@,
        name != "sessionStored"@,
    ensures
        product_plan(
            "mahayana.auth.session.restore"@,
            request,
            SessionView::Stored(value),
        ) matches PlanView::Done(Ok(given)) && {
            &&& field(given, name) == field(value, name)
            &&& flag_field(given, "loggedIn"@) == Some(true)
            &&& flag_field(given, "sessionStored"@) == Some(true)
            &&& text_field(given, "@type"@) == Some("mahayana.auth.session"@)
        },
        product_plan("mahayana.auth.session.restore"@, request, SessionView::Absent)
            == PlanView::Done(Err(ProductFault::NotLoggedIn)),
{
    lemma_auth_kinds();
    reveal_strlit("@type");
    reveal_strlit("loggedIn");
    reveal_strlit("sessionStored");
    assert("@type"@.len() == 5 && "loggedIn"@.len() == 8 && "sessionStored"@.len() == 13);
}

/// Who is logged in is asked with the request's token, or else with the session's; the answer says
/// whose session it is. A token of the session that is refused is forgotten with it.
pub proof fn lemma_status_is_asked(
    request: Tree,
    session: SessionView,
    token: Seq<char>,
    user: Tree,
    message: Seq<char>,
)
    requires
        !(session is Broken),
        says(request, "token"@, token) || (lacks(request, "token"@) && session is Stored
            && text_field(session->Stored_0, "token"@) == Some(token) && token.len() > 0),
    ensures
        ({
            let plan = product_plan("mahayana.auth.status"@, request, session);
            let own = says(request, "token"@, token);
            let provider = if session is Stored && text_field(session->Stored_0, "provider"@) is Some {
                text_field(session->Stored_0, "provider"@)->0
            } else {
                "official"@
            };
            &&& gets(plan, "/api/auth/user-info"@, Some(token))
            &&& plan->Send_http.query.len() == 0
            &&& resumed(plan->Send_then, Ok(user)) matches PlanView::Done(Ok(status)) && flag_field(
                status,
                "loggedIn"@,
            ) == Some(true) && field(status, "user"@) == Some(user) && text_field(
                status,
                "provider"@,
            ) == Some(provider)
            &&& ({
                let refused = resumed(
                    plan->Send_then,
                    Err(ProductFault::HttpStatus { status: 401, message }),
                );
                let status = if own {
                    refused->Done_0->Ok_0
                } else {
                    refused->Remove_response
                };
                &&& own ==> refused is Done && refused->Done_0 is Ok
                &&& !own ==> refused is Remove
                &&& flag_field(status, "loggedIn"@) == Some(false)
                &&& flag_field(status, "expired"@) == Some(true)
                &&& field(status, "user"@) is None
            })
        }),
{
    lemma_auth_kinds();
    reveal_strlit("@type");
    reveal_strlit("loggedIn");
    reveal_strlit("provider");
    reveal_strlit("user");
    reveal_strlit("expired");
    assert("@type"@.len() == 5 && "loggedIn"@.len() == 8 && "provider"@.len() == 8 && "user"@.len()
        == 4 && "expired"@.len() == 7 && "loggedIn"@[0] != "provider"@[0]);
}

/// Any other failure of asking is told, and forgets nothing.
pub proof fn lemma_status_fails(provider: Seq<char>, stored: bool, fault: ProductFault)
    requires
        !(fault matches ProductFault::HttpStatus { status, .. } && status == 401),
    ensures
        resumed(ThenView::Status { provider, stored }, Err(fault)) == PlanView::Done(Err(fault)),
{
}

/// Logging out forgets the session, whatever the request and the session are, and says that nobody
/// is logged in.
pub proof fn lemma_logout_forgets(request: Tree, session: SessionView)
    ensures
        product_plan("mahayana.auth.logout"@, request, session) matches PlanView::Remove { response }
            && flag_field(response, "loggedIn"@) == Some(false) && text_field(response, "@type"@)
            == Some("mahayana.auth.loggedOut"@) && field(response, "token"@) is None,
{
    lemma_auth_kinds();
    reveal_strlit("@type");
    reveal_strlit("loggedIn");
    reveal_strlit("provider");
    reveal_strlit("token");
    assert("@type"@.len() == 5 && "loggedIn"@.len() == 8 && "provider"@.len() == 8 && "token"@.len()
        == 5 && "loggedIn"@[0] != "provider"@[0] && "token"@[0] != "@type"@[0]);
}

/// The reply to a login with a token stores a session with that token, whose login it is and the
/// account of the reply. A reply without a token stores nothing, and is a failure where a token was
/// needed.
pub proof fn lemma_login_reply(
    response: Tree,
    provider: Seq<char>,
    typed: bool,
    require_token: bool,
    name: Seq<char>,
)
    requires
        name == "user"@ || name == "username"@ || name == "email"@,
    ensures
        ({
            let plan = resumed(
                ThenView::Login { provider, typed, require_token },
                Ok(response),
            );
            &&& text_field(response, "token"@) matches Some(token) ==> {
                &&& plan matches PlanView::Save { session, response: answer }
                &&& text_field(session, "token"@) == Some(token)
                &&& text_field(session, "provider"@) == Some(provider)
                &&& field(session, name) == match field(response, name) {
                    Some(value) => Some(value),
                    None => Some(Tree::Null),
                }
                &&& !typed ==> answer == response
                &&& typed ==> flag_field(answer, "sessionStored"@) == Some(true) && text_field(
                    answer,
                    "provider"@,
                ) == Some(provider) && text_field(answer, "@type"@) == Some(
                    "mahayana.auth.session"@,
                ) && text_field(answer, "token"@) == Some(token)
            }
            &&& text_field(response, "token"@) is None ==> {
                &&& plan is Done
                &&& typed && require_token ==> plan == PlanView::Done(
                    Err(
                        ProductFault::Response(
                            "login response did not include a session token"@,
                        ),
                    ),
                )
                &&& typed && !require_token ==> plan->Done_0 is Ok && flag_field(
                    plan->Done_0->Ok_0,
                    "sessionStored"@,
                ) == Some(false)
                &&& !typed ==> plan == PlanView::Done(Ok::<Tree, ProductFault>(response))
            }
        }),
{
    reveal_strlit("token");
    reveal_strlit("provider");
    reveal_strlit("user");
    reveal_strlit("username");
    reveal_strlit("email");
    reveal_strlit("@type");
    reveal_strlit("sessionStored");
    assert("token"@.len() == 5 && "provider"@.len() == 8 && "user"@.len() == 4 && "username"@.len()
        == 8 && "email"@.len() == 5 && "@type"@.len() == 5 && "sessionStored"@.len() == 13);
    assert("token"@[0] == 't' && "email"@[0] == 'e' && "@type"@[0] == '@' && "provider"@[0] == 'p'
        && "username"@[0] == 'u');
}

/// An Alipay login that is complete is stored as one; one that is not is passed on as it is. The
/// address of a login is the one that the reply gives, under either of its names.
pub proof fn lemma_alipay_replies(response: Tree, platform: Seq<char>, token: Seq<char>)
    ensures
        text_field(response, "status"@) != Some("complete"@) ==> resumed(
            ThenView::AlipayPoll,
            Ok(response),
        ) == PlanView::Done(Ok::<Tree, ProductFault>(response)),
        text_field(response, "status"@) == Some("complete"@) && text_field(response, "token"@)
            == Some(token) ==> (resumed(ThenView::AlipayPoll, Ok(response)) matches PlanView::Save {
            session,
            response: answer,
        } && text_field(session, "token"@) == Some(token) && text_field(session, "provider"@)
            == Some("alipay"@) && answer == response),
        resumed(ThenView::AlipayStart { platform }, Ok(response)) matches PlanView::Done(Ok(answer))
            && {
            &&& field(response, "authUrl"@) matches Some(url) ==> field(answer, "loginUrl"@) == Some(
                url,
            )
            &&& field(response, "authUrl"@) is None && field(response, "loginUrl"@) is Some
                ==> field(answer, "loginUrl"@) == field(response, "loginUrl"@)
            &&& field(response, "state"@) is Some ==> field(answer, "state"@) == field(
                response,
                "state"@,
            )
            &&& field(response, "appId"@) is Some ==> field(answer, "appId"@) == field(
                response,
                "appId"@,
            )
            &&& field(response, "platform"@) is Some ==> field(answer, "platform"@) == field(
                response,
                "platform"@,
            )
            &&& field(response, "platform"@) is None ==> text_field(answer, "platform"@) == Some(
                platform,
            )
            &&& text_field(answer, "provider"@) == Some("alipay"@)
            &&& text_field(answer, "@type"@) == Some("mahayana.auth.alipay.authorization"@)
        },
{
    lemma_login_reply(response, "alipay"@, false, false, "user"@);
    reveal_strlit("@type");
    reveal_strlit("provider");
    reveal_strlit("loginUrl");
    reveal_strlit("state");
    reveal_strlit("appId");
    reveal_strlit("platform");
    assert("@type"@.len() == 5 && "provider"@.len() == 8 && "loginUrl"@.len() == 8 && "state"@.len()
        == 5 && "appId"@.len() == 5 && "platform"@.len() == 8);
    assert("@type"@[0] == '@' && "state"@[0] == 's' && "appId"@[0] == 'a' && "provider"@[1] == 'r'
        && "loginUrl"@[1] == 'o' && "platform"@[1] == 'l');
}

/// A mini-app is created under its title, with the texts that its request has or else the usual
/// ones, and whoever is logged in owns it; then its page is sent as its first version.
pub proof fn lemma_miniapp_is_created(
    request: Tree,
    session: SessionView,
    token: Option<Seq<char>>,
    title: Seq<char>,
    html: Seq<char>,
    t: Seq<char>,
)
    requires
        says(request, "title"@, title),
        says(request, "sourceHtml"@, html),
        optional_authorization(request, session) == Ok::<Option<Seq<char>>, ProductFault>(token),
    ensures
        ({
            let plan = product_plan("mahayana.miniapp.sandbox.publish"@, request, session);
            &&& posts(plan, "/api/miniapps/dev/create"@, token)
            &&& sends(plan, "title"@, title)
            &&& says(request, "subtitle"@, t) ==> sends(plan, "subtitle"@, t)
            &&& says(request, "prompt"@, t) ==> sends(plan, "prompt"@, t)
            &&& lacks(request, "prompt"@) ==> sends(plan, "prompt"@, title)
            &&& field(request, "permissions"@) matches Some(Tree::Array(items)) ==> field(
                plan->Send_http.body,
                "permissions"@,
            ) == Some(Tree::Array(items))
            &&& plan->Send_then matches ThenView::Created(publish) && {
                &&& publish.token == token
                &&& publish.title == title
                &&& publish.source_html == html
                &&& sends(plan, "subtitle"@, publish.subtitle)
                &&& sends(plan, "prompt"@, publish.prompt)
                &&& field(plan->Send_http.body, "permissions"@) == Some(publish.permissions)
                &&& says(request, "version"@, t) ==> publish.version == t
                &&& lacks(request, "version"@) ==> publish.version == "0.0.1"@
                &&& publish.submit_review <==> flag_field(request, "submitReview"@) == Some(true)
            }
        }),
{
    lemma_kinds();
    lemma_other_kind("mahayana.miniapp.sandbox.publish"@, request, session);
    reveal_strlit("title");
    reveal_strlit("subtitle");
    reveal_strlit("prompt");
    reveal_strlit("permissions");
    assert("title"@.len() == 5 && "subtitle"@.len() == 8 && "prompt"@.len() == 6
        && "permissions"@.len() == 11);
}

/// The first version of a mini-app goes to the mini-app that was created, with its page and with
/// everything that it was created with, by the same owner; then it is submitted for review where
/// that was asked for, and the answer tells which mini-app it is and what the server said.
pub proof fn lemma_miniapp_is_published(
    publish: PublishView,
    created: Tree,
    id: Seq<char>,
    updated: Tree,
    review: Tree,
    name: Seq<char>,
)
    requires
        inner_text(created, "miniApp"@, "miniAppId"@) == Some(id),
        is_safe_identifier(id),
        trimmed(id) == id,
        name == "miniApp"@ || name == "bot"@ || name == "scan"@,
        field(updated, name) is Some,
    ensures
        ({
            let version = resumed(ThenView::Created(publish), Ok(created));
            let next = resumed(version->Send_then, Ok(updated));
            let answer = if publish.submit_review {
                resumed(next->Send_then, Ok(review))
            } else {
                next
            };
            &&& posts(version, "/api/miniapps/dev/"@ + id + "/version"@, publish.token)
            &&& sends(version, "title"@, publish.title)
            &&& sends(version, "subtitle"@, publish.subtitle)
            &&& sends(version, "prompt"@, publish.prompt)
            &&& sends(version, "sourceHtml"@, publish.source_html)
            &&& sends(version, "version"@, publish.version)
            &&& field(version->Send_http.body, "permissions"@) == Some(publish.permissions)
            &&& publish.submit_review ==> posts(
                next,
                "/api/miniapps/"@ + id + "/submit-review"@,
                publish.token,
            )
            &&& answer matches PlanView::Done(Ok(told)) && {
                &&& text_field(told, "miniAppId"@) == Some(id)
                &&& flag_field(told, "success"@) == Some(true)
                &&& flag_field(told, "authenticated"@) == Some(publish.token is Some)
                &&& field(told, name) == field(updated, name)
                &&& field(told, "review"@) == Some(
                    if publish.submit_review {
                        review
                    } else {
                        Tree::Null
                    },
                )
                &&& text_field(told, "@type"@) == Some("mahayana.miniapp.published"@)
            }
        }),
{
    reveal_strlit("title");
    reveal_strlit("subtitle");
    reveal_strlit("prompt");
    reveal_strlit("sourceHtml");
    reveal_strlit("permissions");
    reveal_strlit("version");
    assert("title"@.len() == 5 && "subtitle"@.len() == 8 && "prompt"@.len() == 6
        && "sourceHtml"@.len() == 10 && "permissions"@.len() == 11 && "version"@.len() == 7);
    reveal_strlit("@type");
    reveal_strlit("success");
    reveal_strlit("authenticated");
    reveal_strlit("miniAppId");
    reveal_strlit("miniApp");
    reveal_strlit("bot");
    reveal_strlit("scan");
    reveal_strlit("review");
    assert("@type"@.len() == 5 && "success"@.len() == 7 && "authenticated"@.len() == 13
        && "miniAppId"@.len() == 9 && "miniApp"@.len() == 7 && "bot"@.len() == 3 && "scan"@.len()
        == 4 && "review"@.len() == 6 && "success"@[0] != "miniApp"@[0]);
}

/// A step of publishing that fails ends it with the failure.
pub proof fn lemma_publishing_stops_at_a_failure(then: ThenView, fault: ProductFault)
    requires
        !(then is Status),
    ensures
        resumed(then, Err(fault)) == PlanView::Done(Err::<Tree, ProductFault>(fault)),
{
}

/// The registry is open to everybody, and a review is asked for under the identifier of the
/// mini-app, which must be safe in a path.
pub proof fn lemma_registry_and_review(
    request: Tree,
    session: SessionView,
    token: Option<Seq<char>>,
    id: Seq<char>,
)
    requires
        optional_authorization(request, session) == Ok::<Option<Seq<char>>, ProductFault>(token),
        says(request, "miniAppId"@, id),
        trimmed(id) == id,
    ensures
        gets(
            product_plan("mahayana.miniapps.registry"@, request, session),
            "/api/miniapps/registry"@,
            token,
        ),
        passes(product_plan("mahayana.miniapps.registry"@, request, session)),
        is_safe_identifier(id) ==> posts(
            product_plan("mahayana.miniapp.review.submit"@, request, session),
            "/api/miniapps/"@ + id + "/submit-review"@,
            token,
        ),
        !is_safe_identifier(id) ==> misses(
            product_plan("mahayana.miniapp.review.submit"@, request, session),
            "miniAppId"@,
        ),
{
    lemma_kinds();
    lemma_other_kind("mahayana.miniapps.registry"@, request, session);
    lemma_other_kind("mahayana.miniapp.review.submit"@, request, session);
}

/// A kind of request that is none of the product's is refused by its name, and nothing is sent.
pub proof fn lemma_unknown_request_is_refused(kind: Seq<char>, request: Tree, session: SessionView)
    requires
        !"mahayana."@.is_prefix_of(kind),
    ensures
        product_plan(kind, request, session) == PlanView::Done(
            Err(ProductFault::UnsupportedRequest(kind)),
        ),
{
    reveal_strlit("mahayana.");
    if auth_plan(kind, request, session) is Some || product_plan(kind, request, session)
        != PlanView::Done(Err(ProductFault::UnsupportedRequest(kind))) {
        reveal_strlit("mahayana.auth.status");
        reveal_strlit("mahayana.auth.logout");
        reveal_strlit("mahayana.auth.register");
        reveal_strlit("mahayana.auth.alipay.poll");
        reveal_strlit("mahayana.auth.session.sync");
        reveal_strlit("mahayana.auth.alipay.start");
        reveal_strlit("mahayana.auth.password.login");
        reveal_strlit("mahayana.auth.password.reset");
        reveal_strlit("mahayana.auth.apple.complete");
        reveal_strlit("mahayana.auth.session.restore");
        reveal_strlit("mahayana.auth.password.forgot");
        reveal_strlit("mahayana.auth.alipay.complete");
        reveal_strlit("mahayana.auth.alipay.register");
        reveal_strlit("mahayana.auth.alipay.sdk.start");
        reveal_strlit("mahayana.auth.verification.send");
        reveal_strlit("mahayana.auth.alipay.sdk.complete");
        reveal_strlit("mahayana.auth.firebase.phone.complete");
        reveal_strlit("mahayana.contacts.list");
        reveal_strlit("mahayana.contacts.search");
        reveal_strlit("mahayana.contacts.add");
        reveal_strlit("mahayana.contacts.requests");
        reveal_strlit("mahayana.contacts.accept");
        reveal_strlit("mahayana.messages.list");
        reveal_strlit("mahayana.messages.send");
        reveal_strlit("mahayana.miniapps.registry");
        reveal_strlit("mahayana.miniapp.sandbox.publish");
        reveal_strlit("mahayana.miniapp.review.submit");
        assert(kind.subrange(0, 9) =~= "mahayana."@);
    }
}

/// A request carries its token as a bearer of it and only where it has one, and says that its body
/// is JSON where it has a body.
pub proof fn lemma_headers(method: Method, token: Option<Seq<char>>, value: Seq<char>)
    ensures
        header_views(method, token).contains(("Accept"@, "application/json"@)),
        header_views(method, token).contains(("Content-Type"@, "application/json"@)) <==> method
            == Method::Post,
        header_views(method, token).contains(("Authorization"@, value)) <==> (token is Some && value
            == "Bearer "@ + token->0),
{
    reveal_strlit("Accept");
    reveal_strlit("Content-Type");
    reveal_strlit("Authorization");
    assert("Accept"@.len() == 6 && "Content-Type"@.len() == 12 && "Authorization"@.len() == 13);
    let all = header_views(method, token);
    assert(all[0] == ("Accept"@, "application/json"@));
    if method == Method::Post {
        assert(all[1] == ("Content-Type"@, "application/json"@));
    }
    if token is Some {
        assert(all.last() == ("Authorization"@, "Bearer "@ + token->0));
        assert(all[all.len() - 1] == all.last());
    }
}

/// A login with Apple hands on the address and the names that were given with it, each as what it
/// is, and leaves out those that were not.
pub proof fn lemma_apple_login_tells_who_it_is(
    request: Tree,
    session: SessionView,
    identity: Seq<char>,
    code: Seq<char>,
    name: Seq<char>,
    t: Seq<char>,
)
    requires
        says(request, "identityToken"@, identity),
        says(request, "authorizationCode"@, code),
        name == "email"@ || name == "givenName"@ || name == "familyName"@,
    ensures
        ({
            let apple = product_plan("mahayana.auth.apple.complete"@, request, session);
            &&& says(request, name, t) ==> sends(apple, name, t)
            &&& optional_text(request, name) is None ==> omits(apple, name)
        }),
{
    lemma_auth_kinds();
    reveal_strlit("identityToken");
    reveal_strlit("authorizationCode");
    reveal_strlit("email");
    reveal_strlit("givenName");
    reveal_strlit("familyName");
    assert("identityToken"@.len() == 13 && "authorizationCode"@.len() == 17 && "email"@.len() == 5
        && "givenName"@.len() == 9 && "familyName"@.len() == 10);
    let a = seq![
        ("identityToken"@, "identityToken"@),
        ("authorizationCode"@, "authorizationCode"@),
    ];
    lemma_body(request, a, 0);
    lemma_body(request, a, 1);
    let body = required_body(request, a)->Ok_0;
    let extra = seq!["email"@, "givenName"@, "familyName"@];
    assert(extra[0] == "email"@ && extra[1] == "givenName"@ && extra[2] == "familyName"@);
    assert(extra.contains(name));
    lemma_extra_fields(body, request, extra, name);
}

/// A request goes to its own path below the address of the API, so that requests with different
/// paths go to different places.
pub proof fn lemma_requests_go_below_the_address(base: Seq<char>, a: Seq<char>, b: Seq<char>)
    ensures
        base.is_prefix_of(request_address(base, a)),
        a.is_suffix_of(request_address(base, a)),
        request_address(base, a).len() == base.len() + a.len(),
        a != b ==> request_address(base, a) != request_address(base, b),
{
    let at = request_address(base, a);
    assert(at.subrange(0, base.len() as int) =~= base);
    assert(at.subrange(at.len() - a.len(), at.len() as int) =~= a);
    assert(request_address(base, b).skip(base.len() as int) =~= b);
    assert(at.skip(base.len() as int) =~= a);
}

/// What a refused request is told to have failed for is what the reply says under its error, or
/// else under its message; where neither is a text, it is the reply itself.
pub proof fn lemma_reason_of_a_refusal(reply: Tree, body: Seq<char>, why: Seq<char>)
    ensures
        text_field(reply, "error"@) == Some(why) ==> status_message(Ok(reply), body) == why,
        field(reply, "error"@) is None && text_field(reply, "message"@) == Some(why)
            ==> status_message(Ok(reply), body) == why,
        field(reply, "error"@) is None && text_field(reply, "message"@) is None ==> status_message(
            Ok(reply),
            body,
        ) == body,
        status_message(Err(why), body) == body,
{
}

/// A session that was stored is the one that is read; without a file there is none, and a file that
/// cannot be read is told as broken.
pub proof fn lemma_stored_session_is_read(raw: String, error: String, session: Tree)
    ensures
        session_of(SessionFile::Missing) == SessionView::Absent,
        session_of(SessionFile::Unreadable(error)) == SessionView::Broken(error@),
        json_parse(raw@) == Ok::<Tree, Seq<char>>(session) ==> session_of(SessionFile::Text(raw))
            == SessionView::Stored(session),
        json_parse(raw@) is Err ==> session_of(SessionFile::Text(raw)) is Broken,
{
}

} // verus!
