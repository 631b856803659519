use mahayana::cli::{
    alipay_authorization, alipay_login_step, bare_request, check_login, install_remote,
    password_login_request, read_password, register_request, run, runtime_config, send_request,
    tool_arguments, AlipayAuthorization, CliCommand, CliPlan, PasswordSource, PluginCommand,
    PollStep, POLL_ATTEMPTS,
};
use mahayana::cli_stream::{
    approval_decision, approval_prompt, approval_request, creation_error, format_usage_summary,
    interrupt_request, print_conversations, print_history, received_event, unwrap_ffi,
    AnswerStream, StreamStep,
};
use mahayana::json::Json;
use mahayana::json_text::parse;
use mahayana::mcp_server::{
    finish_call, json_line, progress_lines, serve_mcp, CallOutcome, ContentResource, McpFacts,
    McpStep, Progress,
};
use mahayana::official::{
    choose_plugin, help_text, infer_plugin_id, plan_command, resource_uri, state_path, take_option,
    unknown_plugin_error, OfficialCommand,
};
use mahayana::path::PathStyle;
use mahayana::plugin_dev::RemoteRepository;
use mahayana::text_map::TextMap;

fn json(text: &str) -> Json {
    parse(text).expect("json")
}

fn words(words: &[&str]) -> Vec<String> {
    words.iter().map(|word| word.to_string()).collect()
}

fn login(args: &[&str]) -> Result<CliPlan, String> {
    run(Some(CliCommand::Login { args: words(args) }))
}

#[test]
fn logins_are_planned() {
    assert_eq!(login(&[]), Ok(CliPlan::AlipayLogin));
    assert_eq!(login(&["alipay", "x"]), Ok(CliPlan::AlipayLogin));
    assert_eq!(
        login(&["password", "u"]),
        Ok(CliPlan::PasswordLogin {
            username: "u".into(),
            password: PasswordSource::Prompt
        })
    );
    assert_eq!(
        login(&["password", "u", "--password-stdin"]),
        Ok(CliPlan::PasswordLogin {
            username: "u".into(),
            password: PasswordSource::Stdin
        })
    );
    assert_eq!(
        login(&["password", "u", "secret"]),
        Err("密码不能放在命令参数中；请省略密码或使用 --password-stdin".to_string())
    );
    assert_eq!(
        login(&["password", " "]),
        Err("用法：mahayana login password <用户名> [--password-stdin]".to_string())
    );
    assert_eq!(
        login(&["wechat"]),
        Err(
            "未知登录方式：wechat。使用 mahayana login alipay 或 mahayana login password <用户名>"
                .to_string()
        )
    );
    assert_eq!(read_password(" p \n").as_deref(), Ok("p"));
    assert_eq!(read_password("\n"), Err("密码不能为空".to_string()));
    assert_eq!(
        password_login_request("u", "p"),
        json(r#"{"username": "u", "password": "p"}"#)
    );
    assert_eq!(check_login(&json(r#"{"sessionStored": true}"#)), Ok(()));
    assert_eq!(
        check_login(&json("{}")),
        Err("官方登录没有返回可保存的软件会话".to_string())
    );
}

#[test]
fn registrations_need_three_words() {
    let register = |args: &[&str]| run(Some(CliCommand::Register { args: words(args) }));
    assert_eq!(
        register(&["u", "e"]),
        Err("用法：mahayana register <用户名> <邮箱> <验证码> [--password-stdin]".to_string())
    );
    assert_eq!(
        register(&["u", "e", "c"]),
        Ok(CliPlan::Register {
            username: "u".into(),
            email: "e".into(),
            code: "c".into(),
            password: PasswordSource::Prompt
        })
    );
    assert_eq!(
        register_request("u", "e", "c", "p"),
        json(r#"{"username": "u", "email": "e", "verificationCode": "c", "password": "p"}"#)
    );
    let send_code = |email: &str| {
        run(Some(CliCommand::SendCode {
            email: email.into(),
        }))
    };
    assert_eq!(
        send_code("e"),
        Ok(CliPlan::Product {
            request_type: "mahayana.auth.verification.send".into(),
            request: json(r#"{"email": "e", "type": "register"}"#)
        })
    );
    assert_eq!(
        send_code(" "),
        Err("用法：mahayana send-code <邮箱>".to_string())
    );
}

#[test]
fn commands_are_planned() {
    assert_eq!(
        run(None),
        Ok(CliPlan::Chat {
            conversation_id: None
        })
    );
    assert_eq!(
        run(Some(CliCommand::History {
            conversation_id: "c".into()
        })),
        Ok(CliPlan::RuntimeHistory {
            request: json(
                r#"{"@type": "mahayana.conversation.history", "conversationId": "c", "limit": 100}"#
            )
        })
    );
    assert_eq!(
        run(Some(CliCommand::Send {
            conversation_id: "c".into(),
            text: words(&["a", "b"])
        })),
        Ok(CliPlan::Send {
            conversation_id: "c".into(),
            text: "a b".into()
        })
    );
    let miniapp = |args: &[&str]| run(Some(CliCommand::Miniapp { args: words(args) }));
    assert_eq!(
        miniapp(&["chat", "id", "hi", "there"]),
        Ok(CliPlan::Send {
            conversation_id: "miniapp:id".into(),
            text: "hi there".into()
        })
    );
    assert_eq!(miniapp(&["chat", "id"]), Err("小程序消息不能为空".to_string()));
    assert_eq!(
        miniapp(&["chat"]),
        Err("用法：mahayana miniapp chat <miniapp-id> <消息>".to_string())
    );
    assert_eq!(
        miniapp(&["other"]),
        Err("用法：mahayana miniapp registry|chat".to_string())
    );
    assert_eq!(
        miniapp(&["registry"]),
        Ok(CliPlan::Product {
            request_type: "mahayana.miniapps.registry".into(),
            request: json("{}")
        })
    );
    assert_eq!(
        bare_request("mahayana.runtime.status"),
        json(r#"{"@type": "mahayana.runtime.status"}"#)
    );
    assert_eq!(
        send_request("c", "t"),
        json(r#"{"@type": "mahayana.conversation.send", "conversationId": "c", "text": "t"}"#)
    );
    assert_eq!(
        runtime_config(None),
        json(r#"{"codexExecutablePath": null, "hostPlatform": "cli"}"#)
    );
}

fn plugin(command: PluginCommand) -> Result<CliPlan, String> {
    run(Some(CliCommand::Plugin { command }))
}

#[test]
fn plugin_commands_are_planned() {
    let codex = |args: &[&str]| Ok(CliPlan::Codex { args: words(args) });
    assert_eq!(
        plugin(PluginCommand::List {
            marketplace: Some("m".into()),
            available: true,
            json: false
        }),
        codex(&["list", "--marketplace", "m", "--json", "--available"])
    );
    assert_eq!(
        plugin(PluginCommand::Uninstall {
            plugin: "p".into(),
            marketplace: None,
            json: true
        }),
        codex(&["remove", "p", "--json"])
    );
    let install = |name: &str, marketplace: Option<&str>| {
        plugin(PluginCommand::Install {
            plugin: name.into(),
            marketplace: marketplace.map(str::to_string),
            json: false,
            allow_local: true,
        })
    };
    assert_eq!(install("p", None), codex(&["add", "p"]));
    assert_eq!(
        install("o/r", Some("m")),
        codex(&["add", "o/r", "--marketplace", "m"])
    );
    assert_eq!(
        install("o/r", None),
        Ok(CliPlan::InstallRemote {
            source: "o/r".into(),
            json: false,
            allow_local: true
        })
    );
    let call = |arguments: Option<&str>| {
        plugin(PluginCommand::Run {
            plugin_id: "p".into(),
            command: "c".into(),
            json: arguments.map(str::to_string),
        })
    };
    assert_eq!(
        call(Some(r#"{ "b": 1, "a": 2 }"#)),
        Ok(CliPlan::Send {
            conversation_id: "miniapp:p".into(),
            text: r#"/c {"a":2,"b":1}"#.into()
        })
    );
    assert_eq!(
        call(None),
        Ok(CliPlan::Send {
            conversation_id: "miniapp:p".into(),
            text: "/c {}".into()
        })
    );
    assert_eq!(
        call(Some("[]")),
        Err("--json 必须是 MCP Tool 参数对象".to_string())
    );
    assert_eq!(
        call(Some("x")),
        Err("--json 必须是合法 JSON：expected value at line 1 column 1".to_string())
    );
    assert_eq!(tool_arguments(None), Ok(json("{}")));
}

#[test]
fn local_runtimes_must_be_allowed() {
    let remote = |has_local_runtimes| RemoteRepository {
        marketplace: "m".into(),
        plugins: words(&["a", "b"]),
        has_local_runtimes,
    };
    assert_eq!(
        install_remote(&remote(false), "o/r", true, false),
        Ok(vec![
            words(&["marketplace", "add", "o/r", "--json"]),
            words(&["add", "a", "--marketplace", "m", "--json"]),
            words(&["add", "b", "--marketplace", "m", "--json"]),
        ])
    );
    assert_eq!(
        install_remote(&remote(true), "o/r", false, false),
        Err(
            "仓库包含本地 CLI/stdio runtime；请审查源码后使用 --allow-local 单独授权".to_string()
        )
    );
    assert!(install_remote(&remote(true), "o/r", false, true).is_ok());
}

#[test]
fn an_alipay_login_is_asked_about_until_it_ends() {
    assert_eq!(
        alipay_authorization(&json(r#"{"loginUrl": "u", "state": "s"}"#)),
        Ok(AlipayAuthorization {
            url: "u".into(),
            state: "s".into()
        })
    );
    assert_eq!(
        alipay_authorization(&json("{}")),
        Err("登录服务没有返回支付宝授权地址".to_string())
    );
    assert_eq!(
        alipay_authorization(&json(r#"{"loginUrl": "u"}"#)),
        Err("登录服务没有返回会话状态".to_string())
    );
    let step = |asked, text: &str| alipay_login_step(asked, &json(text));
    assert_eq!(step(0, r#"{"status": "complete"}"#), PollStep::Complete);
    assert_eq!(step(0, r#"{"status": "pending"}"#), PollStep::Again);
    assert_eq!(
        step(0, r#"{"status": "expired", "token": "t"}"#),
        PollStep::Failed(
            r#"支付宝登录未完成：{"status":"expired","token":"[stored by Mahayana]"}"#.into()
        )
    );
    assert_eq!(
        step(POLL_ATTEMPTS - 1, "{}"),
        PollStep::Failed("支付宝登录等待超时，请重试".into())
    );
}

#[test]
fn replies_of_the_runtime_are_unwrapped() {
    assert_eq!(
        unwrap_ffi(&json(r#"{"ok": true, "data": [1]}"#)),
        Ok(json("[1]"))
    );
    assert_eq!(unwrap_ffi(&json(r#"{"ok": true}"#)), Ok(Json::Null));
    assert_eq!(
        unwrap_ffi(&json(r#"{"message": "no"}"#)),
        Err("no".to_string())
    );
    assert_eq!(unwrap_ffi(&json("{}")), Err("Runtime 调用失败".to_string()));
    assert_eq!(
        received_event(&json(r#"{"ok": true, "data": null}"#)),
        Ok(None)
    );
    assert_eq!(
        received_event(&json(r#"{"ok": true, "data": {"a": 1}}"#)),
        Ok(Some(json(r#"{"a": 1}"#)))
    );
    assert_eq!(creation_error(&json("{}")), "本地 Runtime 创建失败");
}

#[test]
fn an_answer_is_streamed() {
    let mut stream = AnswerStream::new(&json(r#"{"operationId": "o"}"#)).expect("stream");
    let mut step = |text: &str| stream.step(&json(text));
    assert_eq!(
        step(r#"{"@type": "mahayana.message.delta", "operationId": "x", "delta": "no"}"#),
        StreamStep::Continue
    );
    assert_eq!(
        step(r#"{"@type": "mahayana.message.delta", "operationId": "o", "delta": "yes"}"#),
        StreamStep::Delta("yes".into())
    );
    assert_eq!(
        step(
            r#"{"@type": "mahayana.message.completed", "operationId": "o",
                "message": {"role": "user", "text": "mine"}}"#
        ),
        StreamStep::Continue
    );
    assert_eq!(
        step(r#"{"@type": "mahayana.approval.requested", "operationId": "o"}"#),
        StreamStep::Approve
    );
    assert_eq!(
        step(
            r#"{"@type": "mahayana.model.usage.updated", "operationId": "o",
                "usage": {"last": {"totalTokens": 10, "inputTokens": 4, "outputTokens": 6}}}"#
        ),
        StreamStep::Continue
    );
    assert_eq!(
        step(
            r#"{"@type": "mahayana.message.completed", "operationId": "o",
                "message": {"role": "assistant", "text": "whole"}}"#
        ),
        StreamStep::Line
    );
    assert_eq!(
        step(r#"{"@type": "mahayana.operation.failed", "operationId": "o"}"#),
        StreamStep::Failed("操作失败".into())
    );
    assert_eq!(
        step(r#"{"@type": "mahayana.operation.completed", "operationId": "o"}"#),
        StreamStep::Done {
            text: "whole".into(),
            usage: Some(
                "本次模型用量：10 tokens（输入 4，缓存输入 0，输出 6，推理 0）".into()
            )
        }
    );
    assert_eq!(
        AnswerStream::new(&json("{}")),
        Err("Runtime 没有返回操作编号".to_string())
    );
    assert_eq!(format_usage_summary(&json(r#"{"usage": {}}"#)), None);
}

#[test]
fn approvals_are_put_to_the_user() {
    let prompt = approval_prompt(&json(r#"{"approvalId": "a", "details": {"x": [1, "y"]}}"#))
        .expect("prompt");
    assert_eq!(prompt.approval_id, "a");
    assert_eq!(
        prompt.text,
        "\n审批请求：Codex 操作\n{\"x\":[1,\"y\"]}"
    );
    assert_eq!(
        approval_prompt(&json("{}")),
        Err("审批事件缺少编号".to_string())
    );
    for (answer, decision) in [
        (" Y\n", "accept"),
        ("yes", "accept"),
        ("a", "acceptForSession"),
        ("Always", "acceptForSession"),
        ("cancel", "cancel"),
        ("", "decline"),
        ("sure", "decline"),
    ] {
        assert_eq!(approval_decision(answer), decision);
    }
    assert_eq!(
        approval_request("a", "accept"),
        json(r#"{"approvalId": "a", "decision": "accept"}"#)
    );
    assert_eq!(interrupt_request("o"), json(r#"{"operationId": "o"}"#));
}

#[test]
fn lists_are_printed_in_columns() {
    assert_eq!(
        print_conversations(&json(
            r#"{"data": [{"title": "法流", "pinned": true, "id": "x"}, {}]}"#
        )),
        Ok(vec![
            format!(" 1. ★ {:<24} x", "法流"),
            format!(" 2.   {:<24} ", "未命名"),
        ])
    );
    assert_eq!(
        print_conversations(&json("{}")),
        Err("Runtime 没有返回联系人列表".to_string())
    );
    assert_eq!(
        print_history(&json(r#"{"data": [{"role": "user", "text": "hi"}, {}]}"#)),
        Ok(words(&["[user] hi", "[unknown] "]))
    );
    assert_eq!(
        print_history(&json("[]")),
        Err("Runtime 没有返回消息历史".to_string())
    );
}

#[test]
fn options_are_taken_out() {
    let mut args = words(&["a", "--json={\"x\":\"=\"}", "b"]);
    assert_eq!(take_option(&mut args, "--json").as_deref(), Some("{\"x\":\"=\"}"));
    assert_eq!(args, words(&["a", "b"]));
    let mut args = words(&["--plugin", "p", "c"]);
    assert_eq!(take_option(&mut args, "--plugin").as_deref(), Some("p"));
    assert_eq!(args, words(&["c"]));
    let mut args = words(&["c", "--plugin"]);
    assert_eq!(take_option(&mut args, "--plugin"), None);
    assert_eq!(args, words(&["c"]));
    let mut args = words(&["--plugin-id", "p"]);
    assert_eq!(take_option(&mut args, "--plugin"), None);
    assert_eq!(args.len(), 2);
}

#[test]
fn the_plugin_is_found_in_its_order() {
    let ids = words(&["alpha", "beta"]);
    let choose = |args: &[&str], environment: Option<&str>| {
        choose_plugin(
            PathStyle::Posix,
            words(args),
            environment.map(str::to_string),
            &ids,
        )
    };
    assert_eq!(
        choose(&["exe", "x", "--plugin-id=p"], Some("e")),
        Ok(("p".to_string(), words(&["x"])))
    );
    assert_eq!(
        choose(&["exe"], Some("e")),
        Ok(("e".to_string(), Vec::new()))
    );
    assert_eq!(
        choose(&["/bin/beta-mcp.exe", "help"], None),
        Ok(("beta".to_string(), words(&["help"])))
    );
    assert_eq!(
        choose(&["exe"], None),
        Err("--plugin is required; expected one of alpha, beta".to_string())
    );
    let infer = |style, executable| infer_plugin_id(style, executable, &ids);
    assert_eq!(infer(PathStyle::Posix, "alphabet").as_deref(), Some("alpha"));
    assert_eq!(infer(PathStyle::Posix, r"C:\tools\beta.exe"), None);
    assert_eq!(infer(PathStyle::Windows, r"C:\tools\beta.exe").as_deref(), Some("beta"));
    assert_eq!(unknown_plugin_error("x"), "unknown official plugin: x");
}

#[test]
fn official_commands_are_planned() {
    let mut commands: TextMap<String> = TextMap::new();
    commands.insert("s".into(), "study".into());
    let plan = |args: &[&str]| plan_command(words(args), &commands);
    assert_eq!(plan(&[]), Ok(OfficialCommand::Help));
    assert_eq!(plan(&["-h"]), Ok(OfficialCommand::Help));
    assert_eq!(plan(&["mcp"]), Ok(OfficialCommand::Serve));
    assert_eq!(plan(&["--dump-manifest"]), Ok(OfficialCommand::DumpManifest));
    assert_eq!(
        plan(&["s", "a", "b"]),
        Ok(OfficialCommand::Call {
            tool: "study".into(),
            arguments: json(r#"{"input": "a b"}"#)
        })
    );
    assert_eq!(
        plan(&["t", "--json", "[1]"]),
        Ok(OfficialCommand::Call {
            tool: "t".into(),
            arguments: json("[1]")
        })
    );
    assert_eq!(
        plan(&["t", "--json", "{"]),
        Err("invalid --json: EOF while parsing an object at line 1 column 1".to_string())
    );
    assert_eq!(
        help_text("T", "p", &words(&["a", "b"])),
        "T local CLI/MCP\n\nUsage:\n  fabushi-plugin-cli --plugin p --dump-manifest\n  fabushi-plugin-cli --plugin p <command> [--json '{...}']\n  fabushi-plugin-cli --plugin p mcp-serve\n\nCommands: a, b"
    );
    assert_eq!(
        state_path(None, None, Ok("/w".into()), "p"),
        Ok(words(&["/w", ".mahayana-state", "plugins", "p", "state.json"]))
    );
    assert_eq!(
        state_path(Some("/s".into()), Some("/h".into()), Ok("/w".into()), "p"),
        Ok(words(&["/s", "plugins", "p", "state.json"]))
    );
    assert_eq!(
        state_path(Some("/s".into()), None, Err("gone".into()), "p"),
        Err("gone".to_string())
    );
}

fn facts() -> McpFacts {
    McpFacts {
        plugin_id: "p".into(),
        title: "题".into(),
        version: "1.0.0".into(),
        protocol_version: "2025-06-18".into(),
        tools: vec![json(r#"{"name": "home"}"#), json(r#"{"name": "chat"}"#)],
        home: Ok("<html></html>".into()),
        resources: Ok(vec![ContentResource {
            uri: "md://a".into(),
            text: "# A".into(),
        }]),
    }
}

fn served(line: &str) -> McpStep {
    serve_mcp(&facts(), line)
}

fn replied(text: &str) -> McpStep {
    McpStep::Reply(json(text))
}

#[test]
fn requests_are_answered_under_their_id() {
    assert_eq!(
        served(r#"{"id": 1, "method": "ping"}"#),
        replied(r#"{"jsonrpc": "2.0", "id": 1, "result": {}}"#)
    );
    assert_eq!(served(r#"{"method": "ping"}"#), McpStep::Ignore);
    assert_eq!(
        served(r#"{"id": "x"}"#),
        replied(
            r#"{"jsonrpc": "2.0", "id": "x", "error": {"code": -32600, "message": "invalid request"}}"#
        )
    );
    assert_eq!(
        served("{"),
        replied(
            r#"{"jsonrpc": "2.0", "id": null, "error": {"code": -32700,
                "message": "EOF while parsing an object at line 1 column 1"}}"#
        )
    );
    assert_eq!(
        served(r#"{"id": 1, "method": "x"}"#),
        replied(
            r#"{"jsonrpc": "2.0", "id": 1, "error": {"code": -32601, "message": "method not found: x"}}"#
        )
    );
    assert_eq!(
        served(r#"{"id": 1, "method": "initialize"}"#),
        replied(
            r#"{"jsonrpc": "2.0", "id": 1, "result": {"protocolVersion": "2025-06-18",
                "capabilities": {"tools": {"listChanged": false},
                    "resources": {"subscribe": false, "listChanged": false}},
                "serverInfo": {"name": "fabushi-p", "version": "1.0.0"}}}"#
        )
    );
}

#[test]
fn tools_and_pages_are_listed_and_read() {
    assert_eq!(
        served(r#"{"id": 1, "method": "tools/list"}"#),
        replied(
            r#"{"jsonrpc": "2.0", "id": 1, "result": {"tools": [
                {"name": "home", "_meta": {"ui/resourceUri": "ui://fabushi/p/home-v1.html"}},
                {"name": "chat"}]}}"#
        )
    );
    assert_eq!(
        served(r#"{"id": 1, "method": "resources/list"}"#),
        replied(
            r#"{"jsonrpc": "2.0", "id": 1, "result": {"resources": [
                {"uri": "ui://fabushi/p/home-v1.html", "name": "题首页",
                    "mimeType": "text/html;profile=mcp-app"},
                {"uri": "md://a", "name": "小程序内容", "mimeType": "text/markdown"}]}}"#
        )
    );
    assert_eq!(
        served(&format!(
            r#"{{"id": 1, "method": "resources/read", "params": {{"uri": "{}"}}}}"#,
            resource_uri("p")
        )),
        replied(
            r#"{"jsonrpc": "2.0", "id": 1, "result": {"contents": [
                {"uri": "ui://fabushi/p/home-v1.html", "mimeType": "text/html;profile=mcp-app",
                    "text": "<html></html>"}]}}"#
        )
    );
    assert_eq!(
        served(r#"{"id": 1, "method": "resources/read", "params": {"uri": "md://a"}}"#),
        replied(
            r##"{"jsonrpc": "2.0", "id": 1, "result": {"contents": [
                {"uri": "md://a", "mimeType": "text/markdown", "text": "# A"}]}}"##
        )
    );
    assert_eq!(
        served(r#"{"id": 1, "method": "resources/read", "params": {"uri": "md://b"}}"#),
        replied(
            r#"{"jsonrpc": "2.0", "id": 1, "error": {"code": -32002,
                "message": "resource not found: md://b"}}"#
        )
    );
    assert_eq!(
        served(r#"{"id": 1, "method": "resources/read"}"#),
        replied(
            r#"{"jsonrpc": "2.0", "id": 1, "error": {"code": -32602,
                "message": "resources/read requires params.uri"}}"#
        )
    );
    let mut broken = facts();
    broken.resources = Err("lost".into());
    assert_eq!(
        serve_mcp(&broken, r#"{"id": 1, "method": "resources/list"}"#),
        McpStep::Abort("lost".into())
    );
}

#[test]
fn tools_are_called_with_progress() {
    assert_eq!(
        served(
            r#"{"id": 7, "method": "tools/call",
                "params": {"name": "chat", "_meta": {"progressToken": "t"}}}"#
        ),
        McpStep::Call {
            id: json("7"),
            name: "chat".into(),
            arguments: json("{}"),
            progress_token: Some(json("\"t\"")),
        }
    );
    assert_eq!(
        served(r#"{"id": 7, "method": "tools/call", "params": {}}"#),
        replied(
            r#"{"jsonrpc": "2.0", "id": 7, "error": {"code": -32602,
                "message": "tools/call requires params.name"}}"#
        )
    );
    let progress = vec![Progress {
        progress: json("1"),
        total: json("2"),
        message: json("\"half\""),
    }];
    assert_eq!(progress_lines(&None, &progress), Vec::new());
    assert_eq!(
        progress_lines(&Some(json("\"t\"")), &progress),
        vec![json(
            r#"{"jsonrpc": "2.0", "method": "notifications/progress", "params":
                {"progressToken": "t", "progress": 1, "total": 2, "message": "half"}}"#
        )]
    );
    assert_eq!(
        finish_call(json("7"), CallOutcome::Refused("no".into())),
        json(r#"{"jsonrpc": "2.0", "id": 7, "error": {"code": -32602, "message": "no"}}"#)
    );
    assert_eq!(
        finish_call(json("7"), CallOutcome::HostFailed("disk".into())),
        json(r#"{"jsonrpc": "2.0", "id": 7, "error": {"code": -32000, "message": "disk"}}"#)
    );
    assert_eq!(
        json_line(&finish_call(json("7"), CallOutcome::Done(json("[]")))),
        "{\"id\":7,\"jsonrpc\":\"2.0\",\"result\":[]}\n"
    );
}
