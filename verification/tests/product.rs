use mahayana::json::Json;
use mahayana::json_text::{compact, parse, pretty};
use mahayana::product::{
    load_session, session_text, HttpRequest, Method, Plan, Session, SessionFile, Then,
};
use mahayana::product_client::{
    default_mahayana_home, request_headers, HomeFacts, MahayanaProductClient, Platform,
};
use mahayana::product_replies::{decode_response, message_in, resume, typed_session, HttpReply};
use mahayana::product_values::{redact_secrets, safe_path_identifier, ProductError};

fn json(text: &str) -> Json {
    parse(text).expect("json")
}

fn client() -> MahayanaProductClient {
    MahayanaProductClient::new("https://api.example.test".into(), "/tmp/session.json".into())
}

fn stored(text: &str) -> Session {
    load_session(SessionFile::Text(text.into()))
}

#[test]
fn redaction_removes_nested_account_tokens() {
    let value = json(
        r#"{"token": "secret", "nested": {"accessToken": "also-secret", "name": "kept"}}"#,
    );
    let output = redact_secrets(&value);
    assert_eq!(output.text_field("token"), Some("[stored by Mahayana]"));
    assert_eq!(
        output.inner_text("nested", "accessToken"),
        Some("[stored by Mahayana]")
    );
    assert_eq!(output.inner_text("nested", "name"), Some("kept"));
}

#[test]
fn redaction_reaches_arrays_and_is_done_once() {
    let value = json(r#"[{"apiKey": 7, "list": [{"refreshToken": null}]}, 3, "token"]"#);
    let once = redact_secrets(&value);
    assert_eq!(
        once,
        json(
            r#"[{"apiKey": "[stored by Mahayana]", "list": [{"refreshToken": "[stored by Mahayana]"}]}, 3, "token"]"#
        )
    );
    assert_eq!(redact_secrets(&once), once);
}

#[test]
fn path_identifiers_allow_product_ids_but_reject_traversal() {
    assert_eq!(
        safe_path_identifier("sandbox.test-1", "miniAppId").as_deref(),
        Ok("sandbox.test-1")
    );
    assert_eq!(
        safe_path_identifier("../admin", "miniAppId"),
        Err(ProductError::InvalidParameter("miniAppId"))
    );
    assert_eq!(
        safe_path_identifier("app/submit", "miniAppId"),
        Err(ProductError::InvalidParameter("miniAppId"))
    );
}

#[test]
fn path_identifiers_have_a_length_and_a_first_character() {
    let long = "a".repeat(80);
    assert_eq!(safe_path_identifier(&long, "id"), Ok(long.clone()));
    assert!(safe_path_identifier(&"a".repeat(81), "id").is_err());
    assert!(safe_path_identifier(".hidden", "id").is_err());
    assert!(safe_path_identifier("a..b", "id").is_err());
    assert!(safe_path_identifier("", "id").is_err());
    assert_eq!(safe_path_identifier("  a_b ", "id").as_deref(), Ok("a_b"));
    assert!(safe_path_identifier("图", "id").is_err());
}

#[test]
fn app_session_sync_is_available_to_cli_and_redacts_the_token() {
    let client = client();
    let plan = client.execute(
        "mahayana.auth.session.sync",
        &json(
            r#"{"token": "app-session-token", "provider": "alipay",
                "user": {"username": "tester", "email": "tester@example.test"}}"#,
        ),
        &Session::Absent,
    );
    let Plan::Save { session, response } = plan else {
        panic!("expected a session to save")
    };
    assert_eq!(
        response,
        json(
            r#"{"@type": "mahayana.auth.session", "loggedIn": true, "sessionStored": true,
                "provider": "alipay"}"#
        )
    );
    let session = load_session(SessionFile::Text(session_text(&session)));
    assert_eq!(client.session_token(&session).unwrap(), "app-session-token");
    assert_eq!(
        client.execute("mahayana.auth.session.restore", &json("{}"), &session),
        Plan::Done(Ok(json(
            r#"{"@type": "mahayana.auth.session", "loggedIn": true, "sessionStored": true,
                "token": "app-session-token", "provider": "alipay",
                "user": {"username": "tester", "email": "tester@example.test"},
                "username": "tester", "email": "tester@example.test"}"#
        )))
    );
    let Session::Stored(value) = &session else {
        panic!("expected a stored session")
    };
    assert_eq!(
        redact_secrets(value).text_field("token"),
        Some("[stored by Mahayana]")
    );
}

#[test]
fn sessions_that_cannot_be_read_are_reported() {
    let client = client();
    assert_eq!(
        client.session_token(&Session::Absent),
        Err(ProductError::NotLoggedIn)
    );
    let broken = load_session(SessionFile::Text("{".into()));
    let Session::Broken(message) = &broken else {
        panic!("expected a broken session")
    };
    assert_eq!(message, "EOF while parsing an object at line 1 column 1");
    assert_eq!(
        client.execute("mahayana.contacts.list", &json("{}"), &broken),
        Plan::Done(Err(ProductError::Session(message.clone())))
    );
    assert_eq!(
        load_session(SessionFile::Unreadable("denied".into())),
        Session::Broken("denied".into())
    );
    assert_eq!(load_session(SessionFile::Missing), Session::Absent);
    assert_eq!(
        client.execute("mahayana.auth.session.restore", &json("{}"), &stored(r#"{"token": " "}"#)),
        Plan::Done(Err(ProductError::InvalidParameter("token")))
    );
}

#[test]
fn a_stored_session_keeps_its_token_beside_any_number() {
    for number in [
        "1.5",
        "0.1",
        "-2.5e-7",
        "1e300",
        "1.7976931348623157e308",
        "1.7976931348623155e308",
        "12345678901234567890123",
    ] {
        let session = json(&format!(r#"{{"token": "t", "score": {number}, "n": 7}}"#));
        let loaded = load_session(SessionFile::Text(session_text(&session)));
        assert_eq!(client().session_token(&loaded).unwrap(), "t");
        let Session::Stored(value) = &loaded else {
            panic!("expected a stored session")
        };
        assert_eq!(value.get("n"), Some(&Json::Unsigned(7)));
    }
}

#[test]
fn a_synced_account_is_read_back_unless_it_nests_too_deep() {
    let read_back = |levels: usize| {
        let user = format!("{}1e300{}", "[".repeat(levels), "]".repeat(levels));
        let request = json(&format!(r#"{{"token": " t ", "user": {user}}}"#));
        let plan = client().execute("mahayana.auth.session.sync", &request, &Session::Absent);
        let Plan::Save { session, .. } = plan else {
            panic!("expected a session")
        };
        load_session(SessionFile::Text(session_text(&session)))
    };
    let session = read_back(126);
    assert_eq!(client().session_token(&session).unwrap(), "t");
    let mut deep = Json::Null;
    for _ in 0..128 {
        deep = Json::Array(vec![deep]);
    }
    assert!(matches!(
        load_session(SessionFile::Text(session_text(&deep))),
        Session::Broken(_)
    ));
}

#[test]
fn contacts_are_listed_with_the_stored_token() {
    let plan = client().execute(
        "mahayana.contacts.list",
        &json("{}"),
        &stored(r#"{"token": "abc"}"#),
    );
    let Plan::Send { http, then } = plan else {
        panic!("expected a request")
    };
    assert_eq!(http.method, Method::Get);
    assert_eq!(then, Then::Pass);
    assert_eq!(http.token.as_deref(), Some("abc"));
    assert_eq!(
        client().request_url(&http).unwrap(),
        "https://api.example.test/api/social/friends?"
    );
    assert_eq!(
        request_headers(&http),
        vec![
            ("Accept".to_string(), "application/json".to_string()),
            ("Authorization".to_string(), "Bearer abc".to_string()),
        ]
    );
}

#[test]
fn queries_are_encoded_into_the_address() {
    let plan = client().execute(
        "mahayana.contacts.search",
        &json(r#"{"query": " 南无 & co ", "token": "t"}"#),
        &Session::Absent,
    );
    let Plan::Send { http, .. } = plan else {
        panic!("expected a request")
    };
    assert_eq!(
        client().request_url(&http).unwrap(),
        "https://api.example.test/api/social/users/search?q=%E5%8D%97%E6%97%A0+%26+co"
    );
}

#[test]
fn the_address_of_a_post_is_taken_as_it_is() {
    let http = HttpRequest {
        method: Method::Post,
        path: format!("/{}", "a".repeat(0x200_0000)),
        query: Vec::new(),
        body: Json::Null,
        token: None,
    };
    let url = client().request_url(&http).unwrap();
    assert_eq!(url.len(), "https://api.example.test".len() + 0x200_0001);
}

#[test]
fn an_address_that_is_no_url_is_a_configuration_error() {
    let client = MahayanaProductClient::new("nowhere///".into(), "s".into());
    assert_eq!(client.api_base_url(), "nowhere");
    assert_eq!(client.session_path(), "s");
    let plan = client.execute("mahayana.auth.alipay.sdk.start", &json("{}"), &Session::Absent);
    let Plan::Send { http, .. } = plan else {
        panic!("expected a request")
    };
    assert_eq!(
        client.request_url(&http),
        Err(ProductError::Configuration("relative URL without a base".into()))
    );
}

#[test]
fn message_limits_are_clamped() {
    for (limit, expected) in [("0", "1"), ("7", "7"), ("900", "200"), ("-3", "50"), ("1.5", "50")] {
        let request = json(&format!(r#"{{"contact": "c", "token": "t", "limit": {limit}}}"#));
        let plan = client().execute("mahayana.messages.list", &request, &Session::Absent);
        let Plan::Send { http, .. } = plan else {
            panic!("expected a request")
        };
        assert_eq!(http.query[1], ("limit".to_string(), expected.to_string()));
    }
}

#[test]
fn friend_requests_are_accepted_by_text_or_number() {
    for (id, path) in [
        ("\" 12 \"", "/api/social/friend-requests/12/accept"),
        ("34", "/api/social/friend-requests/34/accept"),
        ("-5", "/api/social/friend-requests/-5/accept"),
        ("1.25", "/api/social/friend-requests/1.25/accept"),
    ] {
        let request = json(&format!(r#"{{"requestId": {id}, "token": "t"}}"#));
        let plan = client().execute("mahayana.contacts.accept", &request, &Session::Absent);
        let Plan::Send { http, .. } = plan else {
            panic!("expected a request")
        };
        assert_eq!(http.path, path);
        assert_eq!(http.method, Method::Post);
    }
    assert_eq!(
        client().execute(
            "mahayana.contacts.accept",
            &json(r#"{"requestId": true, "token": "t"}"#),
            &Session::Absent
        ),
        Plan::Done(Err(ProductError::InvalidParameter("requestId")))
    );
}

#[test]
fn a_login_stores_its_session_before_it_is_answered() {
    let plan = client().execute(
        "mahayana.auth.password.login",
        &json(r#"{"username": "u", "password": "p"}"#),
        &Session::Absent,
    );
    let Plan::Send { http, then } = plan else {
        panic!("expected a request")
    };
    assert_eq!(http.path, "/api/auth/login");
    assert_eq!(http.body, json(r#"{"username": "u", "password": "p"}"#));
    assert_eq!(http.token, None);
    let reply = json(r#"{"token": "t", "user": {"id": 1}, "extra": [1]}"#);
    assert_eq!(
        resume(then, Ok(reply)),
        Plan::Save {
            session: json(
                r#"{"token": "t", "provider": "password", "user": {"id": 1}, "username": null,
                    "email": null}"#
            ),
            response: json(
                r#"{"token": "t", "user": {"id": 1}, "extra": [1], "provider": "password",
                    "@type": "mahayana.auth.session", "sessionStored": true}"#
            ),
        }
    );
    let without = Then::Login {
        provider: "password".into(),
        typed: true,
        require_token: true,
    };
    assert_eq!(
        resume(without, Ok(json("{}"))),
        Plan::Done(Err(ProductError::Response(
            "login response did not include a session token".into()
        )))
    );
}

#[test]
fn missing_parameters_are_named_in_order() {
    let plan = client().execute(
        "mahayana.auth.register",
        &json(r#"{"username": "u", "password": "p"}"#),
        &Session::Absent,
    );
    assert_eq!(
        plan,
        Plan::Done(Err(ProductError::InvalidParameter("email")))
    );
}

#[test]
fn typed_sessions_need_a_token_only_where_it_is_required() {
    assert_eq!(
        typed_session(&json("[]"), "apple", false),
        Ok(json(
            r#"{"@type": "mahayana.auth.session", "provider": "apple", "sessionStored": false}"#
        ))
    );
    assert!(typed_session(&json("[]"), "apple", true).is_err());
}

#[test]
fn a_refused_token_is_forgotten_only_if_it_was_stored() {
    let expired = json(
        r#"{"@type": "mahayana.auth.status", "loggedIn": false, "provider": "alipay",
            "expired": true}"#,
    );
    let refusal = || ProductError::HttpStatus {
        status: 401,
        message: "no".into(),
    };
    let status = |stored| Then::Status {
        provider: "alipay".into(),
        stored,
    };
    assert_eq!(
        resume(status(true), Err(refusal())),
        Plan::Remove {
            response: json(&compact(&expired))
        }
    );
    assert_eq!(resume(status(false), Err(refusal())), Plan::Done(Ok(expired)));
    assert_eq!(
        resume(status(true), Err(ProductError::Transport("x".into()))),
        Plan::Done(Err(ProductError::Transport("x".into())))
    );
    assert_eq!(
        resume(status(true), Ok(json(r#"{"id": 1}"#))),
        Plan::Done(Ok(json(
            r#"{"@type": "mahayana.auth.status", "loggedIn": true, "provider": "alipay",
                "user": {"id": 1}}"#
        )))
    );
}

#[test]
fn status_without_a_token_asks_nobody() {
    assert_eq!(
        client().execute("mahayana.auth.status", &json("{}"), &stored(r#"{"token": ""}"#)),
        Plan::Done(Ok(json(
            r#"{"@type": "mahayana.auth.status", "loggedIn": false, "provider": "alipay"}"#
        )))
    );
    let plan = client().execute(
        "mahayana.auth.status",
        &json("{}"),
        &stored(r#"{"token": "t"}"#),
    );
    let Plan::Send { then, .. } = plan else {
        panic!("expected a request")
    };
    assert_eq!(
        then,
        Then::Status {
            provider: "official".into(),
            stored: true
        }
    );
}

#[test]
fn a_miniapp_is_created_versioned_and_reviewed() {
    let plan = client().execute(
        "mahayana.miniapp.sandbox.publish",
        &json(
            r#"{"title": "背诵", "sourceHtml": "<html></html>", "permissions": "all",
                "submitReview": true}"#,
        ),
        &Session::Absent,
    );
    let Plan::Send { http, then } = plan else {
        panic!("expected a request")
    };
    assert_eq!(http.path, "/api/miniapps/dev/create");
    assert_eq!(
        http.body,
        json(
            r#"{"title": "背诵", "subtitle": "大乘 CLI 生成的个人沙箱小程序", "prompt": "背诵",
                "permissions": ["app.context", "bot.chat"]}"#
        )
    );
    let plan = resume(then, Ok(json(r#"{"miniApp": {"miniAppId": "app-1"}}"#)));
    let Plan::Send { http, then } = plan else {
        panic!("expected a request")
    };
    assert_eq!(http.path, "/api/miniapps/dev/app-1/version");
    assert_eq!(http.body.text_field("version"), Some("0.0.1"));
    assert_eq!(http.body.text_field("sourceHtml"), Some("<html></html>"));
    let plan = resume(then, Ok(json(r#"{"miniApp": 1, "bot": 2}"#)));
    let Plan::Send { http, then } = plan else {
        panic!("expected a request")
    };
    assert_eq!(http.path, "/api/miniapps/app-1/submit-review");
    assert_eq!(
        resume(then, Ok(json(r#"{"queued": true}"#))),
        Plan::Done(Ok(json(
            r#"{"@type": "mahayana.miniapp.published", "success": true, "authenticated": false,
                "miniAppId": "app-1", "miniApp": 1, "bot": 2, "scan": null,
                "review": {"queued": true}}"#
        )))
    );
}

#[test]
fn a_sandbox_that_names_no_app_or_an_unsafe_one_ends_the_publication() {
    let publish = || {
        let plan = client().execute(
            "mahayana.miniapp.sandbox.publish",
            &json(r#"{"title": "t", "sourceHtml": "h", "token": "x"}"#),
            &Session::Absent,
        );
        let Plan::Send { then, .. } = plan else {
            panic!("expected a request")
        };
        then
    };
    assert_eq!(
        resume(publish(), Ok(json("{}"))),
        Plan::Done(Err(ProductError::Response(
            "sandbox create response has no miniAppId".into()
        )))
    );
    assert_eq!(
        resume(publish(), Ok(json(r#"{"miniApp": {"miniAppId": "../x"}}"#))),
        Plan::Done(Err(ProductError::InvalidParameter("miniAppId")))
    );
    let plan = resume(publish(), Ok(json(r#"{"miniApp": {"miniAppId": "ok"}}"#)));
    let Plan::Send { then, .. } = plan else {
        panic!("expected a request")
    };
    assert_eq!(
        resume(then, Ok(json(r#"{"scan": "clean"}"#))),
        Plan::Done(Ok(json(
            r#"{"@type": "mahayana.miniapp.published", "success": true, "authenticated": true,
                "miniAppId": "ok", "miniApp": null, "bot": null, "scan": "clean", "review": null}"#
        )))
    );
}

#[test]
fn alipay_logins_start_poll_and_register() {
    let plan = client().execute("mahayana.auth.alipay.start", &json("{}"), &Session::Absent);
    let Plan::Send { http, then } = plan else {
        panic!("expected a request")
    };
    assert_eq!(
        client().request_url(&http).unwrap(),
        "https://api.example.test/api/auth/alipay/login-url?platform=cli"
    );
    assert_eq!(
        resume(then, Ok(json(r#"{"loginUrl": "u", "state": "s"}"#))),
        Plan::Done(Ok(json(
            r#"{"@type": "mahayana.auth.alipay.authorization", "provider": "alipay",
                "loginUrl": "u", "state": "s", "appId": null, "platform": "cli"}"#
        )))
    );
    assert_eq!(
        resume(Then::AlipayPoll, Ok(json(r#"{"status": "pending", "token": "t"}"#))),
        Plan::Done(Ok(json(r#"{"status": "pending", "token": "t"}"#)))
    );
    let plan = resume(Then::AlipayPoll, Ok(json(r#"{"status": "complete", "token": "t"}"#)));
    let Plan::Save { session, response } = plan else {
        panic!("expected a session")
    };
    assert_eq!(session.text_field("provider"), Some("alipay"));
    assert_eq!(response, json(r#"{"status": "complete", "token": "t"}"#));
    let plan = client().execute(
        "mahayana.auth.alipay.register",
        &json(r#"{"alipayProviderSubject": "s", "email": " e ", "nickname": " ", "oneClick": true}"#),
        &Session::Absent,
    );
    let Plan::Send { http, .. } = plan else {
        panic!("expected a request")
    };
    assert_eq!(
        http.body,
        json(r#"{"alipayProviderSubject": "s", "email": "e", "oneClick": true}"#)
    );
}

#[test]
fn unknown_requests_are_refused() {
    let plan = client().execute("mahayana.unknown", &json("{}"), &Session::Absent);
    assert_eq!(
        plan,
        Plan::Done(Err(ProductError::UnsupportedRequest("mahayana.unknown".into())))
    );
    assert_eq!(
        client().execute("mahayana.auth.logout", &json("{}"), &Session::Absent),
        Plan::Remove {
            response: json(
                r#"{"@type": "mahayana.auth.loggedOut", "loggedIn": false, "provider": "alipay"}"#
            )
        }
    );
}

#[test]
fn replies_say_what_went_wrong() {
    assert_eq!(
        decode_response(HttpReply::Success(Ok(json("[1]")))),
        Ok(json("[1]"))
    );
    assert_eq!(
        decode_response(HttpReply::Success(Err("bad".into()))),
        Err(ProductError::Response("bad".into()))
    );
    assert_eq!(
        decode_response(HttpReply::Transport("down".into())),
        Err(ProductError::Transport("down".into()))
    );
    let status = |body: &str| {
        decode_response(HttpReply::Status {
            status: 500,
            body: Some(body.into()),
        })
    };
    let message = |text: &str| {
        Err(ProductError::HttpStatus {
            status: 500,
            message: text.into(),
        })
    };
    assert_eq!(status(r#"{"error": "e", "message": "m"}"#), message("e"));
    assert_eq!(status(r#"{"message": "m"}"#), message("m"));
    assert_eq!(
        status(r#"{"error": 1, "message": "m"}"#),
        message(r#"{"error": 1, "message": "m"}"#)
    );
    assert_eq!(status("plain"), message("plain"));
    assert_eq!(
        decode_response(HttpReply::Status {
            status: 404,
            body: None
        }),
        Err(ProductError::HttpStatus {
            status: 404,
            message: "request failed".into()
        })
    );
    assert_eq!(message_in(&json(r#"{"message": "m"}"#), "body"), "m");
}

#[test]
fn errors_read_as_sentences() {
    assert_eq!(
        ProductError::InvalidParameter("title").to_text(),
        "request parameter title is invalid"
    );
    assert_eq!(
        ProductError::HttpStatus {
            status: 503,
            message: "busy".into()
        }
        .to_text(),
        "Mahayana product API returned HTTP 503: busy"
    );
    assert_eq!(
        ProductError::NotLoggedIn.to_text(),
        "请先登录大乘软件账号：mahayana login（支持支付宝或官方账号）"
    );
}

#[test]
fn the_data_directory_follows_the_platform() {
    let facts = |platform, own: Option<&str>, home: Option<&str>, data: Option<&str>| HomeFacts {
        platform,
        mahayana_home: own.map(str::to_string),
        home: home.map(str::to_string),
        app_data: data.map(str::to_string),
    };
    assert_eq!(
        default_mahayana_home(facts(Platform::Other, Some("/data"), Some("/home/a"), None)),
        vec!["/data"]
    );
    assert_eq!(
        default_mahayana_home(facts(Platform::Other, Some(""), Some("/home/a"), None)),
        vec!["/home/a", ".mahayana"]
    );
    assert_eq!(
        default_mahayana_home(facts(Platform::Macos, None, Some("/Users/a"), None)),
        vec![
            "/Users/a",
            "Library",
            "Group Containers",
            "group.com.ombhrum.fabushi.share",
            "mahayana"
        ]
    );
    assert_eq!(
        default_mahayana_home(facts(Platform::Windows, None, Some("h"), Some("d"))),
        vec!["d", "Fabushi", "Mahayana"]
    );
    assert_eq!(
        default_mahayana_home(facts(Platform::Windows, None, None, None)),
        vec![".mahayana"]
    );
}

#[test]
fn the_client_takes_the_address_that_is_set() {
    let set = MahayanaProductClient::with_setting(Some("http://localhost/".into()), "s".into());
    assert_eq!(set.api_base_url(), "http://localhost");
    let unset = MahayanaProductClient::with_setting(Some("  ".into()), "s".into());
    assert_eq!(unset.api_base_url(), "https://api.ombhrum.com");
    assert_eq!(
        MahayanaProductClient::with_setting(None, "s".into()),
        unset
    );
}

#[test]
fn printed_values_are_read_back() {
    let value = json(r#"{"b": [1, -2, "x\n\"", null, true], "a": {}}"#);
    assert_eq!(compact(&value), r#"{"a":{},"b":[1,-2,"x\n\"",null,true]}"#);
    assert_eq!(
        pretty(&json(r#"{"b": [1], "a": {}}"#)),
        "{\n  \"a\": {},\n  \"b\": [\n    1\n  ]\n}"
    );
    assert_eq!(parse(&compact(&value)).unwrap(), value);
    assert_eq!(parse(&pretty(&value)).unwrap(), value);
    assert_eq!(compact(&json("1.50")), "1.5");
    assert_eq!(json("18446744073709551615"), Json::Unsigned(u64::MAX));
    assert_eq!(json("-1"), Json::Negative(-1));
    assert_eq!(json(r#"{"a": 1, "a": 2}"#), json(r#"{"a": 2}"#));
}

#[test]
fn values_are_handed_over_and_taken_back() {
    let value: serde_json::Value =
        serde_json::from_str(r#"{"f": -1.5, "n": [-1, 2, {}], "t": "x", "b": false, "z": null}"#)
            .expect("value");
    let taken = mahayana::json_text::from_serde(&value);
    assert_eq!(taken.text_field("t"), Some("x"));
    assert_eq!(mahayana::json_text::to_serde(&taken.clone()), value);
    assert_eq!(compact(&redact_secrets(&taken)), value.to_string());
}

#[test]
fn a_login_is_used_by_later_requests() {
    let login = Then::Login {
        provider: "alipay".into(),
        typed: false,
        require_token: false,
    };
    let Plan::Save { session, .. } = resume(login, Ok(json(r#"{"token": " t "}"#))) else {
        panic!("expected a session")
    };
    let session = Session::Stored(session);
    assert_eq!(client().session_token(&session).as_deref(), Ok("t"));
    let plan = client().execute("mahayana.contacts.requests", &json("{}"), &session);
    let Plan::Send { http, .. } = plan else {
        panic!("expected a request")
    };
    assert_eq!(http.token.as_deref(), Some("t"));
    assert_eq!(
        client().execute("mahayana.contacts.requests", &json("{}"), &Session::Absent),
        Plan::Done(Err(ProductError::NotLoggedIn))
    );
}

#[test]
fn values_nest_as_deep_as_reading_accepts() {
    let nested = |n: usize| format!("{}{}", "[".repeat(n), "]".repeat(n));
    let deep = json(&nested(127));
    assert_eq!(parse(&compact(&deep)).unwrap(), deep);
    assert!(parse(&nested(128)).is_err());
}
