use mahayana::agent::{
    time_stamp, AgentError, AgentEvent, AgentMessageRequest, ApprovalResolution,
    StartThreadRequest, UnavailableAgentBackend,
};
use mahayana::codex_backend::CodexAgentBackend;
use mahayana::codex_config::{
    AskForApproval, CodexAgentConfig, SandboxMode, SessionSource, WireApi,
};
use mahayana::codex_tools::{
    bounded_response, check_readable, check_workspace_path, choose_provider, dynamic_tool_error,
    execute_dynamic_tool, finish_history, finish_listing, finish_read, finish_write,
    list_conversations, mahayana_dynamic_tools, outside_error, relative_workspace_path,
    workspace_root, workspace_step, EntryKind, ProviderContacts, ToolCall, ToolResponse, ToolStep,
    WorkspaceEntry, WorkspaceStep,
};
use mahayana::codex_turns::{
    approval_response, asked, reject_server_request, turn_result, ApprovalResponseKind, CodexTurns,
    Effect, RequestId, ServerAction, ServerEvent, ServerRequest, TurnStatus,
};
use mahayana::json::Json;
use mahayana::json_text::parse;
use mahayana::miniapp::{
    agent_error, ConversationError, MiniAppConversationProvider, MiniAppDefinition,
    SendMessageRequest,
};
use mahayana::model::{
    AgentThreadId, ApprovalDecision, ApprovalId, Conversation, ConversationId, Message, MessageId,
    MessageRole, OperationId, PeerKind, RuntimeEvent,
};
use mahayana::model_reply::extract_output_text;
use mahayana::path::PathStyle;
use mahayana::responses_agent::{
    interpret_response, redacted_http_error, InferenceFailure, ResponsesAgentBackend,
    ResponsesAgentConfig,
};

fn json(text: &str) -> Json {
    parse(text).expect("json")
}

fn codex_config() -> CodexAgentConfig {
    CodexAgentConfig {
        codex_home: "/tmp/mahayana-test".into(),
        cwd: "/tmp".into(),
        workspace_roots: Vec::new(),
        model: "deepseek-chat".into(),
        responses_base_url: "https://example.test/v1".into(),
        product_session_token: None,
        sandbox_mode: SandboxMode::ReadOnly,
        approval_policy: AskForApproval::OnRequest,
        codex_executable_path: None,
        conversation_providers: Vec::new(),
    }
}

#[test]
fn maps_product_approval_decisions_to_app_server_responses() {
    assert_eq!(
        approval_response(
            ApprovalResponseKind::CommandExecution,
            ApprovalDecision::AcceptForSession,
        ),
        json(r#"{"decision": "acceptForSession"}"#)
    );
    assert_eq!(
        approval_response(ApprovalResponseKind::LegacyExec, ApprovalDecision::Cancel),
        json(r#"{"decision": "abort"}"#)
    );
}

#[test]
fn permissions_are_granted_for_a_turn_or_a_session() {
    let kind = || ApprovalResponseKind::Permissions {
        requested: json(r#"{"network": true}"#),
    };
    assert_eq!(
        approval_response(kind(), ApprovalDecision::Accept),
        json(r#"{"permissions": {"network": true}, "scope": "turn"}"#)
    );
    assert_eq!(
        approval_response(kind(), ApprovalDecision::AcceptForSession),
        json(r#"{"permissions": {"network": true}, "scope": "session"}"#)
    );
    assert_eq!(
        approval_response(kind(), ApprovalDecision::Decline),
        json(r#"{"permissions": {}, "scope": "turn"}"#)
    );
    assert_eq!(
        approval_response(ApprovalResponseKind::FileChange, ApprovalDecision::Decline),
        json(r#"{"decision": "decline"}"#)
    );
    assert_eq!(
        approval_response(
            ApprovalResponseKind::LegacyPatch,
            ApprovalDecision::AcceptForSession
        ),
        json(r#"{"decision": "approved_for_session"}"#)
    );
}

#[test]
fn accepts_anonymous_product_session_for_first_party_allowance() {
    let config = codex_config();
    assert!(config.validate().is_ok());
}

#[test]
fn rejects_non_https_provider_and_header_injection() {
    let mut config = codex_config();
    config.responses_base_url = "http://example.test/v1".into();
    config.product_session_token = Some("secret".into());
    assert!(config.validate().is_err());
    config.responses_base_url = "https://example.test/v1".into();
    config.product_session_token = Some("secret\nInjected: yes".into());
    assert!(config.validate().is_err());
}

#[test]
fn starting_checks_the_settings_first() {
    let mut config = codex_config();
    config.model = " ".into();
    assert_eq!(
        CodexAgentBackend::start(config).err(),
        Some(AgentError::Backend(
            "Dacheng DeepSeek model configuration is incomplete".into()
        ))
    );
    let mut config = codex_config();
    config.product_session_token = Some(" ".into());
    config.model = " ".into();
    assert_eq!(
        CodexAgentBackend::start(config).err(),
        Some(AgentError::Unavailable(
            "Mahayana product session is invalid".into()
        ))
    );
    let agent = CodexAgentBackend::start(codex_config()).ok().expect("agent");
    assert_eq!(agent.name(), "codex-app-server-in-process");
    assert_eq!(agent.plan.provider_id, "dacheng-deepseek");
    assert_eq!(agent.plan.provider_override, "model_providers.dacheng-deepseek");
    assert_eq!(agent.plan.provider.stream_idle_timeout_ms, 300_000);
    assert_eq!(agent.plan.provider.wire_api, WireApi::Responses);
    assert_eq!(agent.plan.session_source, SessionSource::Exec);
    assert!(agent.plan.ignore_user_config);
    assert!(!agent.plan.strict_config);
}

#[test]
fn threads_and_turns_are_numbered() {
    let mut agent = CodexAgentBackend::start(codex_config()).ok().expect("agent");
    let thread = agent.start_thread(StartThreadRequest {
        conversation_id: ConversationId("c".into()),
    });
    assert_eq!(thread.request_id, RequestId::Integer(1));
    assert_eq!(thread.model, "deepseek-chat");
    assert_eq!(thread.dynamic_tools.tools.len(), 5);
    assert_eq!(
        thread.dynamic_tools.description,
        "操作 App 内置大乘 Runtime 的本地工作区与联系人会话。"
    );
    let request = AgentMessageRequest {
        thread_id: AgentThreadId("thread".into()),
        conversation_id: ConversationId("c".into()),
        operation_id: OperationId("o".into()),
        text: "hi".into(),
        client_message_id: Some("m".into()),
    };
    let turn = agent.send_message(&request);
    assert_eq!(turn.request_id, RequestId::Integer(2));
    assert_eq!(turn.thread_id, "thread");
    assert_eq!(turn.client_user_message_id.as_deref(), Some("m"));
    agent.turn_started(request, "turn".into());
    assert_eq!(
        agent.turns.find("thread", Some("turn")),
        Some(OperationId("o".into()))
    );
    assert_eq!(agent.turns.find("thread", Some("next")), None);
}

fn turns() -> CodexTurns {
    let mut turns = CodexTurns::new();
    turns.begin(
        OperationId("op".into()),
        "thread".into(),
        "turn".into(),
        ConversationId("c".into()),
    );
    turns
}

fn handle(turns: &mut CodexTurns, event: ServerEvent) -> Effect {
    turns.handle_event(event, ApprovalId("a".into()), MessageId("m".into()), 7)
}

fn delta(text: &str) -> ServerEvent {
    ServerEvent::AgentMessageDelta {
        thread_id: "thread".into(),
        turn_id: "turn".into(),
        delta: text.into(),
    }
}

fn completed(status: TurnStatus, error: Option<&str>) -> ServerEvent {
    ServerEvent::TurnCompleted {
        thread_id: "thread".into(),
        turn_id: "turn".into(),
        status,
        error: error.map(str::to_string),
    }
}

#[test]
fn deltas_add_up_to_the_message() {
    let mut turns = turns();
    assert_eq!(
        handle(&mut turns, delta("a")),
        Effect::Emit {
            operation_id: OperationId("op".into()),
            event: AgentEvent::MessageDelta { delta: "a".into() }
        }
    );
    handle(&mut turns, delta("b"));
    assert_eq!(
        handle(&mut turns, completed(TurnStatus::InProgress, None)),
        Effect::Nothing
    );
    let effect = handle(&mut turns, completed(TurnStatus::Completed, None));
    let Effect::Deliver { operation_id, message } = effect else {
        panic!("expected a message")
    };
    assert_eq!(operation_id, OperationId("op".into()));
    assert_eq!(message.text, "ab");
    assert_eq!(message.created_at_ms, 7);
    assert_eq!(
        message.metadata,
        json(r#"{"codexThreadId": "thread", "codexTurnId": "turn", "embedded": true}"#)
    );
    assert_eq!(
        handle(&mut turns, completed(TurnStatus::Completed, None)),
        Effect::Nothing
    );
}

#[test]
fn the_complete_text_replaces_the_deltas() {
    let mut turns = turns();
    handle(&mut turns, delta("partial"));
    let item = |text: Option<&str>| ServerEvent::ItemCompleted {
        thread_id: "thread".into(),
        turn_id: "turn".into(),
        text: text.map(str::to_string),
    };
    assert_eq!(handle(&mut turns, item(Some("whole"))), Effect::Nothing);
    assert_eq!(handle(&mut turns, item(None)), Effect::Nothing);
    let Effect::Deliver { message, .. } = handle(&mut turns, completed(TurnStatus::Completed, None))
    else {
        panic!("expected a message")
    };
    assert_eq!(message.text, "whole");
}

#[test]
fn turns_fail_with_their_reason() {
    let failed = |message: &str| Effect::Fail {
        operations: vec![OperationId("op".into())],
        message: message.into(),
    };
    assert_eq!(
        handle(&mut turns(), completed(TurnStatus::Interrupted, None)),
        failed("Codex turn was interrupted")
    );
    assert_eq!(
        handle(&mut turns(), completed(TurnStatus::Failed, Some("quota"))),
        failed("quota")
    );
    assert_eq!(
        handle(&mut turns(), completed(TurnStatus::Failed, None)),
        failed("Codex turn failed")
    );
    assert_eq!(
        handle(&mut turns(), ServerEvent::Lagged { skipped: 12 }),
        failed("in-process Codex event stream lagged by 12 events")
    );
    assert_eq!(
        turns().stream_closed(),
        failed("in-process Codex event stream closed")
    );
    assert_eq!(
        turns().handling_failed(&AgentError::EventConsumerClosed),
        failed("agent event consumer is closed")
    );
    let error = |will_retry| ServerEvent::Error {
        thread_id: "thread".into(),
        turn_id: "turn".into(),
        message: "lost".into(),
        will_retry,
    };
    assert_eq!(handle(&mut turns(), error(true)), Effect::Nothing);
    assert_eq!(handle(&mut turns(), error(false)), failed("lost"));
    assert_eq!(handle(&mut turns(), ServerEvent::Other), Effect::Nothing);
}

#[test]
fn a_question_that_reaches_nobody_is_refused() {
    assert_eq!(asked(RequestId::Integer(4), Ok(())), None);
    assert_eq!(
        asked(RequestId::Integer(4), Err(AgentError::EventConsumerClosed)),
        Some(reject_server_request(
            RequestId::Integer(4),
            "agent event consumer is closed".into()
        ))
    );
}

#[test]
fn approvals_are_asked_and_answered_once() {
    let mut turns = turns();
    let request = ServerEvent::Request(ServerRequest::ExecCommandApproval {
        request_id: RequestId::Integer(9),
        conversation_id: "thread".into(),
        details: json(r#"{"command": "ls"}"#),
    });
    assert_eq!(
        handle(&mut turns, request),
        Effect::Serve(ServerAction::Ask {
            request_id: RequestId::Integer(9),
            operation_id: OperationId("op".into()),
            event: AgentEvent::ApprovalRequested {
                approval_id: ApprovalId("a".into()),
                title: "Codex 请求执行命令".into(),
                details: json(r#"{"command": "ls"}"#),
            },
        })
    );
    let resolution = || ApprovalResolution {
        approval_id: ApprovalId("a".into()),
        decision: ApprovalDecision::Accept,
        payload: Json::Null,
    };
    assert_eq!(
        turns.resolve_approval(resolution()),
        Ok((RequestId::Integer(9), json(r#"{"decision": "approved"}"#)))
    );
    assert_eq!(
        turns.resolve_approval(resolution()),
        Err(AgentError::ApprovalNotFound(ApprovalId("a".into())))
    );
}

#[test]
fn requests_without_a_turn_are_refused() {
    let mut turns = turns();
    let request = ServerEvent::Request(ServerRequest::FileChangeRequestApproval {
        request_id: RequestId::Text("r".into()),
        thread_id: "thread".into(),
        turn_id: "other".into(),
        details: Json::Null,
    });
    assert_eq!(
        handle(&mut turns, request),
        Effect::Serve(ServerAction::Reject {
            request_id: RequestId::Text("r".into()),
            code: -32601,
            message: "agent backend failed: approval has no active Codex turn".into(),
        })
    );
    let request = ServerEvent::Request(ServerRequest::Other {
        request_id: RequestId::Integer(3),
    });
    assert_eq!(
        handle(&mut turns, request),
        Effect::Serve(ServerAction::Reject {
            request_id: RequestId::Integer(3),
            code: -32601,
            message: "this embedded Mahayana surface does not support the requested interaction"
                .into(),
        })
    );
}

#[test]
fn only_active_operations_are_interrupted() {
    let mut turns = turns();
    let request = turns.interrupt(&OperationId("op".into())).expect("request");
    assert_eq!(request.request_id, RequestId::Integer(1));
    assert_eq!(request.thread_id, "thread");
    assert_eq!(
        turns.interrupt(&OperationId("none".into())),
        Err(AgentError::OperationNotFound(OperationId("none".into())))
    );
    assert_eq!(turn_result(Some(Ok(()))), Ok(()));
    assert_eq!(
        turn_result(None),
        Err(AgentError::Backend("Codex turn dispatcher stopped".into()))
    );
}

fn call(tool: &str, arguments: &str) -> ToolStep {
    execute_dynamic_tool(PathStyle::Posix, &ToolCall {
        namespace: Some("mahayana".into()),
        tool: tool.into(),
        arguments: json(arguments),
    })
}

fn refused(message: &str) -> ToolStep {
    ToolStep::Reply(dynamic_tool_error(message))
}

#[test]
fn tools_are_planned_from_their_arguments() {
    assert_eq!(
        dynamic_tool_error("x"),
        ToolResponse {
            text: r#"{"error":"x"}"#.into(),
            success: false
        }
    );
    assert_eq!(
        execute_dynamic_tool(PathStyle::Posix, &ToolCall {
            namespace: None,
            tool: "list_conversations".into(),
            arguments: Json::Null,
        }),
        refused("不支持的工具命名空间")
    );
    assert_eq!(call("list_conversations", "{}"), ToolStep::ListConversations);
    assert_eq!(call("list_workspace_files", "{}"), ToolStep::ListFiles);
    assert_eq!(call("shell", "{}"), refused("不支持的大乘工具"));
    assert_eq!(
        call("conversation_history", r#"{"conversationId": "c", "limit": 1000}"#),
        ToolStep::History {
            conversation_id: ConversationId("c".into()),
            limit: 100
        }
    );
    assert_eq!(
        call("conversation_history", r#"{"conversationId": " "}"#),
        refused("conversationId 不能为空")
    );
    assert_eq!(
        call("read_workspace_file", r#"{"path": " notes/a.md "}"#),
        ToolStep::ReadFile {
            path: "notes/a.md".into()
        }
    );
    assert_eq!(call("read_workspace_file", "{}"), refused("path 不能为空"));
    assert_eq!(
        call("write_workspace_file", r#"{"path": "a", "contents": "南无"}"#),
        ToolStep::WriteFile {
            path: "a".into(),
            contents: "南无".into(),
            bytes: 6
        }
    );
    assert_eq!(
        call("write_workspace_file", r#"{"path": "a", "contents": 1}"#),
        refused("contents 必须是字符串")
    );
}

#[test]
fn workspace_paths_stay_inside() {
    let unsafe_path = "工作区路径必须是安全的相对路径，不能包含 .、.. 或绝对路径";
    let posix = |path| relative_workspace_path(PathStyle::Posix, path);
    let windows = |path| relative_workspace_path(PathStyle::Windows, path);
    for path in ["../a", "a/../b", "/etc/passwd", ".", "./a"] {
        assert_eq!(posix(path), Err(unsafe_path.to_string()));
        assert_eq!(windows(path), Err(unsafe_path.to_string()));
    }
    for path in [r"..\a", r"a\..\b", r"\a", r"C:\a", "c:a", r"\\srv\share\a", r"\\?\C:\a"] {
        assert_eq!(posix(path), Ok(path.to_string()));
        assert_eq!(windows(path), Err(unsafe_path.to_string()));
    }
    assert_eq!(posix("  "), Err("工作区路径不能为空".to_string()));
    for path in ["a", "a/b.txt", "a//b", "a/./b", "..a"] {
        assert_eq!(posix(path), Ok(path.to_string()));
        assert_eq!(windows(path), Ok(path.to_string()));
    }
    let check = |root, path| check_workspace_path(PathStyle::Posix, root, path);
    assert_eq!(check("/w", "/w/a"), Ok(()));
    assert_eq!(check("/w", "/w"), Ok(()));
    assert_eq!(
        check("/w", "/work/a"),
        Err("工作区路径越过了应用沙箱边界".to_string())
    );
    let check = |root, path| check_workspace_path(PathStyle::Windows, root, path);
    assert_eq!(check(r"\\?\C:\w", r"\\?\c:\w\a.txt"), Ok(()));
    assert_eq!(
        check(r"\\?\C:\w", r"\\?\C:\work\a.txt"),
        Err(outside_error())
    );
    assert_eq!(workspace_root(&vec!["/r".to_string()], "/cwd"), "/r");
    assert_eq!(workspace_root(&Vec::new(), "/cwd"), "/cwd");
}

#[test]
fn no_link_is_followed_to_a_place_that_is_not_there() {
    assert_eq!(workspace_step(true, false, true), WorkspaceStep::ResolveFile);
    assert_eq!(workspace_step(true, true, false), WorkspaceStep::ResolveFile);
    assert_eq!(workspace_step(false, true, true), WorkspaceStep::ResolveFile);
    assert_eq!(workspace_step(false, false, false), WorkspaceStep::ResolveParent);
    assert_eq!(workspace_step(false, false, true), WorkspaceStep::Refuse);
    assert_eq!(outside_error(), "工作区路径越过了应用沙箱边界");
}

#[test]
fn tool_answers_are_bounded() {
    assert!(bounded_response("x".repeat(32_000)).success);
    assert!(!bounded_response("x".repeat(32_001)).success);
    assert!(!bounded_response("佛".repeat(10_667)).success);
    assert_eq!(check_readable(true, 512 * 1024), Ok(()));
    assert!(check_readable(true, 512 * 1024 + 1).is_err());
    assert_eq!(check_readable(false, 1), Err("目标不是普通文件".to_string()));
    assert_eq!(
        call(
            "write_workspace_file",
            &format!(r#"{{"path": "a", "contents": "{}"}}"#, "x".repeat(512 * 1024 + 1))
        ),
        refused("单个工作区文本文件不能超过 512 KiB")
    );
}

#[test]
fn tool_results_are_answered_as_json() {
    assert_eq!(
        finish_read("a", Ok("text".into())).text,
        r#"{"contents":"text","path":"a"}"#
    );
    assert_eq!(
        finish_write("a", 4, Ok(())).text,
        r#"{"bytesWritten":4,"path":"a"}"#
    );
    assert_eq!(finish_read("a", Err("no".into())), dynamic_tool_error("no"));
    assert_eq!(finish_history(Ok(json("[]"))).text, "[]");
    let entries = |n: usize| {
        (0..n)
            .map(|i| WorkspaceEntry {
                name: format!("f{:03}", n - i),
                kind: if i == 0 { EntryKind::Directory } else { EntryKind::File },
            })
            .collect::<Vec<_>>()
    };
    assert_eq!(
        finish_listing(Ok(entries(2))).text,
        r#"{"files":[{"kind":"file","name":"f001"},{"kind":"directory","name":"f002"}]}"#
    );
    let many = parse(&finish_listing(Ok(entries(201))).text).expect("json");
    let files = many.items_field("files").expect("files");
    assert_eq!(files.len(), 200);
    assert_eq!(files[0].text_field("name"), Some("f002"));
}

fn contact(id: &str, updated_at_ms: i64) -> Conversation {
    Conversation {
        id: ConversationId(id.into()),
        title: id.into(),
        peer: PeerKind::Other(Json::Null),
        pinned: false,
        unread_count: 0,
        updated_at_ms,
    }
}

#[test]
fn contacts_come_latest_first_and_then_by_id() {
    let contacts = list_conversations(vec![
        ProviderContacts {
            key: "one".into(),
            contacts: Ok(vec![contact("b", 1), contact("z", 5)]),
        },
        ProviderContacts {
            key: "two".into(),
            contacts: Ok(vec![contact("a", 1)]),
        },
    ])
    .expect("contacts");
    let ids: Vec<_> = contacts.iter().map(|item| item.id.as_str()).collect();
    assert_eq!(ids, vec!["z", "a", "b"]);
    assert_eq!(
        list_conversations(vec![
            ProviderContacts {
                key: "one".into(),
                contacts: Err("offline".into()),
            },
            ProviderContacts {
                key: "two".into(),
                contacts: Err("later".into()),
            },
        ]),
        Err(dynamic_tool_error("one 联系人读取失败：offline"))
    );
    let keys = vec!["codex".to_string(), "miniapp".to_string()];
    assert_eq!(choose_provider(&keys, Ok("miniapp".into())), Ok(1));
    assert_eq!(
        choose_provider(&keys, Ok("telegram".into())),
        Err(dynamic_tool_error("该会话不属于当前大乘 Runtime"))
    );
    assert_eq!(
        choose_provider(&keys, Err("bad id".into())),
        Err(dynamic_tool_error("bad id"))
    );
}

#[test]
fn the_agent_is_offered_five_tools() {
    let namespace = mahayana_dynamic_tools();
    assert_eq!(namespace.name, "mahayana");
    let names: Vec<_> = namespace.tools.iter().map(|tool| tool.name.as_str()).collect();
    assert_eq!(
        names,
        vec![
            "list_conversations",
            "conversation_history",
            "read_workspace_file",
            "write_workspace_file",
            "list_workspace_files"
        ]
    );
    assert_eq!(
        namespace.tools[3].input_schema,
        json(
            r#"{"type": "object", "properties": {
                    "path": {"type": "string", "description": "工作区内的相对路径"},
                    "contents": {"type": "string", "description": "完整文件内容"}
                }, "required": ["path", "contents"], "additionalProperties": false}"#
        )
    );
}

#[test]
fn extracts_responses_and_compatible_chat_payloads() {
    let responses = json(
        r#"{"output": [{"content": [
            {"type": "output_text", "text": "南无"},
            {"type": "output_text", "text": "阿弥陀佛"}
        ]}]}"#,
    );
    assert_eq!(
        extract_output_text(&responses).as_deref(),
        Some("南无阿弥陀佛")
    );
    let chat = json(r#"{"choices": [{"message": {"content": "善哉"}}]}"#);
    assert_eq!(extract_output_text(&chat).as_deref(), Some("善哉"));
}

#[test]
fn output_text_comes_before_everything_else() {
    assert_eq!(
        extract_output_text(&json(r#"{"output_text": "", "choices": [{"message": {"content": "x"}}]}"#)),
        None
    );
    assert_eq!(
        extract_output_text(&json(r#"{"output": [], "choices": {"0": {"message": {"content": "x"}}}}"#))
            .as_deref(),
        Some("x")
    );
    assert_eq!(extract_output_text(&json("[]")), None);
}

#[test]
fn config_rejects_non_https_and_header_injection() {
    let mut config = ResponsesAgentConfig {
        model: "deepseek-chat".into(),
        responses_base_url: "http://example.test/v1".into(),
        product_session_token: "secret".into(),
    };
    assert!(config.validate().is_err());
    config.responses_base_url = "https://example.test/v1".into();
    config.product_session_token = "secret\nInjected: yes".into();
    assert!(config.validate().is_err());
}

fn responses_agent() -> ResponsesAgentBackend {
    ResponsesAgentBackend::new(ResponsesAgentConfig {
        model: "m".into(),
        responses_base_url: "https://example.test/v1/".into(),
        product_session_token: "t".into(),
    })
    .ok()
    .expect("agent")
}

fn message_request(text: &str) -> AgentMessageRequest {
    AgentMessageRequest {
        thread_id: AgentThreadId("thread".into()),
        conversation_id: ConversationId("c".into()),
        operation_id: OperationId("op".into()),
        text: text.into(),
        client_message_id: None,
    }
}

#[test]
fn threads_remember_both_sides() {
    let mut agent = responses_agent();
    assert_eq!(
        agent.begin(&message_request("hi")).err(),
        Some(AgentError::ThreadNotFound(AgentThreadId("thread".into())))
    );
    agent.start_thread(AgentThreadId("thread".into()));
    let inference = agent.begin(&message_request("hi")).expect("inference");
    assert_eq!(inference.endpoint, "https://example.test/v1/responses");
    assert_eq!(inference.authorization, "Bearer t");
    assert_eq!(
        inference.body,
        json(r#"{"model": "m", "input": [{"role": "user", "content": "hi"}], "stream": false}"#)
    );
    let events = agent
        .finish(&message_request("hi"), Ok("yo".into()), MessageId("m1".into()), 5)
        .expect("events");
    assert_eq!(events[0], AgentEvent::MessageDelta { delta: "yo".into() });
    let AgentEvent::MessageCompleted { message } = &events[1] else {
        panic!("expected a message")
    };
    assert_eq!(message.text, "yo");
    assert_eq!(message.role, MessageRole::Assistant);
    let inference = agent.begin(&message_request("more")).expect("inference");
    assert_eq!(
        inference.body.items_field("input").expect("input").len(),
        3
    );
}

#[test]
fn interrupted_operations_deliver_nothing() {
    let mut agent = responses_agent();
    agent.start_thread(AgentThreadId("thread".into()));
    assert_eq!(
        agent.interrupt(&OperationId("op".into())),
        Err(AgentError::OperationNotFound(OperationId("op".into())))
    );
    agent.begin(&message_request("hi")).expect("inference");
    assert_eq!(agent.interrupt(&OperationId("op".into())), Ok(()));
    assert_eq!(
        agent.finish(&message_request("hi"), Ok("yo".into()), MessageId("m".into()), 0),
        Err(AgentError::Backend("operation interrupted".into()))
    );
    assert_eq!(
        agent.interrupt(&OperationId("op".into())),
        Err(AgentError::OperationNotFound(OperationId("op".into())))
    );
    assert_eq!(
        agent.resolve_approval(ApprovalResolution {
            approval_id: ApprovalId("a".into()),
            decision: ApprovalDecision::Accept,
            payload: Json::Null,
        }),
        Err(AgentError::ApprovalNotFound(ApprovalId("a".into())))
    );
}

#[test]
fn endpoint_errors_are_reported_without_details() {
    assert_eq!(
        interpret_response(&json(r#"{"error": {"message": "quota"}}"#)),
        Err(AgentError::Backend("quota".into()))
    );
    assert_eq!(
        interpret_response(&json(r#"{"error": null}"#)),
        Err(AgentError::Backend("Responses endpoint returned an error".into()))
    );
    assert_eq!(
        interpret_response(&json("{}")),
        Err(AgentError::Backend(
            "Responses endpoint returned no assistant output text".into()
        ))
    );
    assert_eq!(
        redacted_http_error(InferenceFailure::Status(502)).to_text(),
        "agent backend failed: Responses endpoint returned HTTP 502"
    );
    assert_eq!(
        redacted_http_error(InferenceFailure::Transport("dns".into())),
        AgentError::Backend("Responses transport failed: dns".into())
    );
}

#[test]
fn an_unavailable_agent_only_gives_its_reason() {
    let agent = UnavailableAgentBackend::new("no agent in this build".into());
    let refusal = || AgentError::Unavailable("no agent in this build".into());
    assert_eq!(
        agent.start_thread(StartThreadRequest {
            conversation_id: ConversationId("c".into())
        }),
        Err(refusal())
    );
    assert_eq!(agent.send_message(message_request("hi")), Err(refusal()));
    assert_eq!(agent.interrupt(&OperationId("o".into())), Err(refusal()));
    assert_eq!(agent.name(), "unavailable");
    assert_eq!(
        refusal().to_text(),
        "agent backend is unavailable: no agent in this build"
    );
    assert_eq!(time_stamp(None), 0);
    assert_eq!(time_stamp(Some(12)), 12);
    assert_eq!(time_stamp(Some(u128::MAX)), i64::MAX);
}

fn flashcards() -> MiniAppDefinition {
    MiniAppDefinition {
        app_id: "official.flashcards".into(),
        title: "法流背诵卡".into(),
        instructions: "帮助复习佛经背诵卡。".into(),
        pinned: true,
    }
}

#[test]
fn miniapp_is_a_first_class_conversation() {
    let mut provider = MiniAppConversationProvider::new(vec![flashcards()])
        .ok()
        .expect("provider");
    let conversations = provider.list_conversations();
    assert_eq!(conversations[0].id.as_str(), "miniapp:official.flashcards");

    let id = conversations[0].id.clone();
    assert_eq!(provider.thread_id(&id), Ok(None));
    let thread = AgentThreadId(format!("thread:{}", id.as_str()));
    provider.thread_started(&id, thread.clone());
    assert_eq!(provider.thread_id(&id), Ok(Some(thread.clone())));
    let (request, bridge) = provider
        .send_message(
            SendMessageRequest {
                conversation_id: id.clone(),
                operation_id: OperationId("operation:test".into()),
                text: "开始复习".into(),
                client_message_id: None,
            },
            thread,
            MessageId("user-message".into()),
            1,
        )
        .expect("send");
    assert_eq!(
        request.text,
        "你正在通过大乘与小程序“法流背诵卡”（official.flashcards）对话。请严格依据该小程序的职责和能力回答，不要冒充其他联系人。\n小程序说明：帮助复习佛经背诵卡。\n\n用户消息：\n开始复习"
    );
    let emitted = provider.emit(
        &bridge,
        AgentEvent::MessageCompleted {
            message: Message {
                id: MessageId("message".into()),
                conversation_id: request.conversation_id,
                role: MessageRole::Assistant,
                text: "小程序答复".into(),
                created_at_ms: 2,
                metadata: Json::Null,
            },
        },
    );
    let RuntimeEvent::MessageCompleted { message, .. } = &emitted else {
        panic!("expected completed message")
    };
    assert_eq!(message.role, MessageRole::MiniApp);
    assert_eq!(message.text, "小程序答复");
    assert_eq!(
        message.metadata,
        json(r#"{"miniAppId": "official.flashcards", "agent": null}"#)
    );

    let history = provider.history(&id, 10).expect("history");
    assert_eq!(history.len(), 2);
    let last = provider.history(&id, 1).expect("history");
    assert_eq!(last[0].text, "小程序答复");
    assert_eq!(provider.history(&id, 0).expect("history").len(), 0);
}

#[test]
fn miniapps_need_an_id_a_title_and_to_be_one_of_a_kind() {
    let mut untitled = flashcards();
    untitled.title = " ".into();
    assert_eq!(
        MiniAppConversationProvider::new(vec![untitled]).err(),
        Some(ConversationError::Provider(
            "mini-app id and title must not be empty".into()
        ))
    );
    assert_eq!(
        MiniAppConversationProvider::new(vec![flashcards(), flashcards()]).err(),
        Some(ConversationError::Provider("duplicate mini-app conversation".into()))
    );
    let provider = MiniAppConversationProvider::new(vec![flashcards()])
        .ok()
        .expect("provider");
    let unknown = ConversationId("miniapp:none".into());
    assert_eq!(
        provider.history(&unknown, 5),
        Err(ConversationError::ConversationNotFound(unknown.clone()))
    );
    assert_eq!(
        agent_error(&AgentError::Backend("x".into())),
        ConversationError::Provider("agent backend failed: x".into())
    );
}

#[test]
fn approvals_of_a_miniapp_name_it() {
    let mut provider = MiniAppConversationProvider::new(vec![flashcards()])
        .ok()
        .expect("provider");
    let (_, bridge) = provider
        .send_message(
            SendMessageRequest {
                conversation_id: ConversationId("miniapp:official.flashcards".into()),
                operation_id: OperationId("o".into()),
                text: "hi".into(),
                client_message_id: None,
            },
            AgentThreadId("t".into()),
            MessageId("m".into()),
            1,
        )
        .expect("send");
    let asked = |details: &str| AgentEvent::ApprovalRequested {
        approval_id: ApprovalId("a".into()),
        title: "t".into(),
        details: json(details),
    };
    let RuntimeEvent::ApprovalRequested { details, .. } = provider.emit(&bridge, asked(r#"{"x": 1}"#))
    else {
        panic!("expected an approval")
    };
    assert_eq!(details, json(r#"{"x": 1, "miniAppId": "official.flashcards"}"#));
    let RuntimeEvent::ApprovalRequested { details, .. } = provider.emit(&bridge, asked("[1]")) else {
        panic!("expected an approval")
    };
    assert_eq!(details, json("[1]"));
}
