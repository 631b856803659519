use mahayana::json::Json;
use mahayana::json_text::parse;
use mahayana::model::{
    ApprovalDecision, ApprovalId, Conversation, ConversationId, MessageId, MessageRole,
    OperationId, PeerKind, RuntimeEvent, RuntimeVersions,
};
use mahayana::web::{
    browser_conversations, ensure_browser_conversation, fetch_failure, fetch_request,
    interpret_body, miniapp_prompt, FetchFailure, MahayanaWebRuntime, RuntimeCommand,
    RuntimeResponse, WebConfig, WebInference,
};

fn json(text: &str) -> Json {
    parse(text).expect("json")
}

fn assistant() -> Conversation {
    Conversation {
        id: ConversationId("codex:agent:assistant".into()),
        title: "Codex".into(),
        peer: PeerKind::Other(Json::Null),
        pinned: true,
        unread_count: 0,
        updated_at_ms: 0,
    }
}

fn config(token: Option<&str>) -> WebConfig {
    WebConfig {
        model: "m".into(),
        responses_base_url: "https://example.test/v1//".into(),
        product_session_token: token.map(str::to_string),
    }
}

fn versions() -> RuntimeVersions {
    RuntimeVersions {
        runtime_abi: 1,
        conversation_schema: 2,
        model_runtime: 3,
    }
}

fn runtime() -> MahayanaWebRuntime {
    let mut runtime = MahayanaWebRuntime::new(config(Some("t")), versions())
        .ok()
        .expect("runtime");
    let Some(RuntimeEvent::Ready { status }) = runtime.receive() else {
        panic!("expected to be ready")
    };
    assert_eq!(status.providers, vec!["codex", "miniapp"]);
    assert_eq!(runtime.receive(), None);
    runtime
}

fn execute(
    runtime: &mut MahayanaWebRuntime,
    command: RuntimeCommand,
) -> Result<(RuntimeResponse, Option<WebInference>), String> {
    runtime.execute(command, assistant(), 9)
}

fn send(id: &str, text: &str, client_message_id: Option<&str>) -> RuntimeCommand {
    RuntimeCommand::SendMessage {
        conversation_id: ConversationId(id.into()),
        text: text.into(),
        client_message_id: client_message_id.map(|id| MessageId(id.into())),
    }
}

fn history(runtime: &mut MahayanaWebRuntime, id: &str, limit: Option<u32>) -> Vec<String> {
    let command = RuntimeCommand::ConversationHistory {
        conversation_id: ConversationId(id.into()),
        limit,
    };
    let Ok((RuntimeResponse::History { data }, None)) = execute(runtime, command) else {
        panic!("expected a history")
    };
    data.into_iter().map(|message| message.text).collect()
}

#[test]
fn web_contact_list_has_codex_and_official_miniapps() {
    let conversations = browser_conversations(assistant());
    assert_eq!(conversations.len(), 5);
    assert_eq!(conversations[0].id.as_str(), "codex:agent:assistant");
    assert!(
        conversations
            .iter()
            .any(|item| item.id.as_str() == "miniapp:official.flashcards")
    );
}

#[test]
fn settings_are_checked_when_the_runtime_is_made() {
    let mut plain = config(None);
    plain.responses_base_url = "http://example.test".into();
    assert_eq!(
        MahayanaWebRuntime::new(plain, versions()).err(),
        Some("Responses endpoint must use HTTPS".to_string())
    );
    assert_eq!(
        MahayanaWebRuntime::new(config(Some("a\nb")), versions()).err(),
        Some("Mahayana product session is invalid".to_string())
    );
    assert!(MahayanaWebRuntime::new(config(None), versions()).is_ok());
}

#[test]
fn only_known_conversations_are_available() {
    assert_eq!(
        ensure_browser_conversation(&ConversationId("miniapp:official.assistant".into())),
        Ok(())
    );
    assert_eq!(
        ensure_browser_conversation(&ConversationId("miniapp:none".into())),
        Err("conversation is not available in WebAssembly".to_string())
    );
    assert_eq!(
        execute(&mut runtime(), send("telegram:1", "hi", None)).err(),
        Some("conversation is not available in WebAssembly".to_string())
    );
}

#[test]
fn messages_need_a_text_and_a_session() {
    assert_eq!(
        execute(&mut runtime(), send("codex:agent:assistant", " \n", None)).err(),
        Some("message text must not be empty".to_string())
    );
    let mut anonymous = MahayanaWebRuntime::new(config(Some(" ")), versions())
        .ok()
        .expect("runtime");
    assert_eq!(
        execute(&mut anonymous, send("codex:agent:assistant", "hi", None)).err(),
        Some("请先使用支付宝登录；浏览器不会回退到云端 Agent".to_string())
    );
}

#[test]
fn a_message_is_sent_answered_and_remembered() {
    let mut runtime = runtime();
    let id = "codex:agent:assistant";
    let (response, inference) = execute(&mut runtime, send(id, "hi", None)).expect("accepted");
    let operation_id = OperationId("operation:web:1".into());
    assert_eq!(
        response,
        RuntimeResponse::Accepted {
            operation_id: operation_id.clone()
        }
    );
    let inference = inference.expect("inference");
    assert_eq!(inference.endpoint, "https://example.test/v1/responses");
    assert_eq!(inference.authorization, "Bearer t");
    assert_eq!(
        inference.body,
        r#"{"input":[{"content":"hi","role":"user"}],"model":"m","stream":false}"#
    );
    runtime.finish_inference(
        operation_id.clone(),
        ConversationId(id.into()),
        Ok("yo".into()),
        11,
    );
    let Some(RuntimeEvent::MessageDelta { delta, .. }) = runtime.receive() else {
        panic!("expected a delta")
    };
    assert_eq!(delta, "yo");
    let Some(RuntimeEvent::MessageCompleted { message, .. }) = runtime.receive() else {
        panic!("expected a message")
    };
    assert_eq!(message.id, MessageId("message:web:3".into()));
    assert_eq!(message.role, MessageRole::Assistant);
    assert_eq!(message.created_at_ms, 11);
    assert_eq!(
        message.metadata,
        json(
            r#"{"agentBackend": "dacheng-responses-web-wasm", "nativeProcess": false,
                "nativeGit": false}"#
        )
    );
    assert_eq!(
        runtime.receive(),
        Some(RuntimeEvent::OperationCompleted { operation_id })
    );
    assert_eq!(history(&mut runtime, id, None), vec!["hi", "yo"]);
    assert_eq!(history(&mut runtime, id, Some(0)), vec!["yo"]);
    let (_, inference) = execute(&mut runtime, send(id, "more", Some("mine"))).expect("accepted");
    assert_eq!(
        inference.expect("inference").body,
        r#"{"input":[{"content":"hi","role":"user"},{"content":"yo","role":"assistant"},{"content":"more","role":"user"}],"model":"m","stream":false}"#
    );
}

#[test]
fn an_interrupted_operation_stays_silent() {
    let mut runtime = runtime();
    let id = "miniapp:official.flashcards";
    execute(&mut runtime, send(id, "hi", Some("mine"))).expect("accepted");
    let operation_id = OperationId("operation:web:1".into());
    let interrupt = || RuntimeCommand::Interrupt {
        operation_id: OperationId("operation:web:1".into()),
    };
    assert_eq!(
        execute(&mut runtime, interrupt()),
        Ok((
            RuntimeResponse::Interrupted {
                operation_id: operation_id.clone()
            },
            None
        ))
    );
    assert_eq!(
        execute(&mut runtime, interrupt()).err(),
        Some("operation was not found".to_string())
    );
    runtime.finish_inference(operation_id, ConversationId(id.into()), Ok("late".into()), 1);
    assert_eq!(runtime.receive(), None);
    assert_eq!(history(&mut runtime, id, None), vec!["hi"]);
}

#[test]
fn failures_and_miniapps_are_told_apart() {
    let mut runtime = runtime();
    let id = "miniapp:official.flashcards";
    for number in ["1", "3"] {
        let (response, _) = execute(&mut runtime, send(id, "hi", None)).expect("accepted");
        assert_eq!(
            response,
            RuntimeResponse::Accepted {
                operation_id: OperationId(format!("operation:web:{number}"))
            }
        );
    }
    runtime.finish_inference(
        OperationId("operation:web:1".into()),
        ConversationId(id.into()),
        Err("down".into()),
        1,
    );
    assert_eq!(
        runtime.receive(),
        Some(RuntimeEvent::OperationFailed {
            operation_id: OperationId("operation:web:1".into()),
            code: "model_inference_failed".into(),
            message: "down".into(),
        })
    );
    runtime.finish_inference(
        OperationId("operation:web:3".into()),
        ConversationId(id.into()),
        Ok("yo".into()),
        1,
    );
    runtime.receive();
    let Some(RuntimeEvent::MessageCompleted { message, .. }) = runtime.receive() else {
        panic!("expected a message")
    };
    assert_eq!(message.role, MessageRole::MiniApp);
}

#[test]
fn there_is_never_an_approval_to_resolve() {
    assert_eq!(
        execute(
            &mut runtime(),
            RuntimeCommand::ResolveApproval {
                approval_id: ApprovalId("a".into()),
                decision: ApprovalDecision::Accept,
                payload: Json::Null,
            }
        )
        .err(),
        Some("approval was not found: a".to_string())
    );
    let Ok((RuntimeResponse::Conversations { data }, None)) =
        execute(&mut runtime(), RuntimeCommand::ListConversations)
    else {
        panic!("expected conversations")
    };
    assert_eq!(data.len(), 5);
    let Ok((RuntimeResponse::Status(status), None)) =
        execute(&mut runtime(), RuntimeCommand::Status)
    else {
        panic!("expected a status")
    };
    assert_eq!(status.model, "m");
    assert!(!status.remote_agent_enabled);
}

#[test]
fn miniapps_speak_in_their_role() {
    assert_eq!(
        miniapp_prompt(&ConversationId("miniapp:official.flashcards".into()), "开始"),
        "你正在通过大乘与小程序“法流背诵卡”（official.flashcards）对话。请严格依据该小程序职责回答。\n小程序说明：帮助用户复习和制作佛经背诵卡。\n\n用户消息：\n开始"
    );
    assert_eq!(miniapp_prompt(&ConversationId("miniapp:none".into()), "x"), "x");
    assert_eq!(
        miniapp_prompt(&ConversationId("codex:agent:assistant".into()), "x"),
        "x"
    );
}

#[test]
fn replies_of_the_model_are_read() {
    assert_eq!(interpret_body(r#"{"output_text": "hi"}"#), Ok("hi".to_string()));
    assert_eq!(
        interpret_body("{}"),
        Err("Responses endpoint returned no assistant output text".to_string())
    );
    assert_eq!(
        interpret_body("<html>"),
        Err("Responses endpoint returned invalid JSON".to_string())
    );
    assert_eq!(
        fetch_failure(FetchFailure::Status(503)),
        "Responses endpoint returned HTTP 503"
    );
    assert_eq!(
        fetch_request(&config(None), Vec::new()),
        Err("Mahayana product session is required".to_string())
    );
    let mut ready = config(Some("t"));
    ready.responses_base_url = "https://example.test/responses".into();
    assert_eq!(
        fetch_request(&ready, Vec::new()).expect("request").endpoint,
        "https://example.test/responses"
    );
}
