//! What the command line comes to: what each command asks for, and what is shown of an answer.

use crate::cli::{
    authorization_in, command_plan, is_stored, login_plan, option_arguments, password_login_tree,
    plugin_plan, poll_step, register_plan, register_tree, remote_install, runtime_tree, send_tree, CliCommand,
    PasswordSource, PlanView, PluginCommand,
};
use crate::cli_stream::{
    approval_answer, approval_text, contact_row, contact_rows, decision_for, history_line,
    history_lines, interruption, streamed, unwrapped, usage_summary, StreamStepView, StreamView,
};
use crate::json::{
    field, flag_field, inner_field, inner_text, items_field, text_field, Tree,
};
use crate::json_text::{json_compact, json_parse};
use crate::miniapp_html::{
    inspection, is_document, is_remote_script, last_occurrence, loads_remote_script, past_white,
    value_start,
};
use crate::official::{
    after_equals, chosen_plugin, command_of, first_option, id_in_name, is_option, state_parts,
    taken, CommandView,
};
use crate::path::PathStyle;
use crate::plugin_dev::is_github_source;
use crate::product::SessionView;
use crate::product_client::base_for;
use crate::product_laws::{lemma_password_login, lemma_registration, posts, sends};
use crate::product_requests::product_plan;
use crate::product_values::redacted;
use crate::text::{
    ascii_lower, ascii_lowered, decimal, first_occurrence, is_blank, is_white, joined, occurs,
    occurs_at, right_aligned, signed_decimal, texts, trimmed,
};
use crate::text_laws::{lemma_trimming, lemma_white_space};
use crate::url_text::opt_view;
use vstd::prelude::*;
use vstd::string::*;

verus! {

/// A login on the command line sends the name and the password that were given, each as what it
/// is, and so does a registration with its address and code.
pub proof fn lemma_login_sends_what_was_given(
    username: Seq<char>,
    password: Seq<char>,
    email: Seq<char>,
    code: Seq<char>,
    session: SessionView,
)
    requires
        !is_blank(username) && trimmed(username) == username,
        !is_blank(password) && trimmed(password) == password,
        !is_blank(email) && trimmed(email) == email,
        !is_blank(code) && trimmed(code) == code,
    ensures
        ({
            let login = product_plan(
                "mahayana.auth.password.login"@,
                password_login_tree(username, password),
                session,
            );
            let new = product_plan(
                "mahayana.auth.register"@,
                register_tree(username, email, code, password),
                session,
            );
            &&& posts(login, "/api/auth/login"@, None)
            &&& sends(login, "username"@, username) && sends(login, "password"@, password)
            &&& posts(new, "/api/auth/register"@, None)
            &&& sends(new, "username"@, username) && sends(new, "email"@, email)
            &&& sends(new, "password"@, password) && sends(new, "verificationCode"@, code)
        }),
{
    reveal_strlit("username");
    reveal_strlit("email");
    reveal_strlit("password");
    reveal_strlit("verificationCode");
    assert("username"@.len() == 8 && "email"@.len() == 5 && "password"@.len() == 8
        && "verificationCode"@.len() == 16 && "username"@[0] != "password"@[0]);
    lemma_password_login(password_login_tree(username, password), session, username, password);
    lemma_registration(
        register_tree(username, email, code, password),
        session,
        username,
        email,
        password,
        code,
    );
}

/// The ways to log in: through Alipay unless another is named, and with a password for the user
/// who is named. A password never stands among the arguments.
pub proof fn lemma_ways_to_log_in(args: Seq<Seq<char>>, user: Seq<char>, word: Seq<char>)
    ensures
        login_plan(Seq::empty()) == Ok::<PlanView, Seq<char>>(PlanView::AlipayLogin),
        login_plan(seq!["alipay"@] + args) == Ok::<PlanView, Seq<char>>(PlanView::AlipayLogin),
        !is_blank(user) ==> login_plan(seq!["password"@, user]) == Ok::<PlanView, Seq<char>>(
            PlanView::PasswordLogin { username: user, password: PasswordSource::Prompt },
        ),
        !is_blank(user) ==> login_plan(seq!["password"@, user, "--password-stdin"@]) == Ok::<
            PlanView,
            Seq<char>,
        >(PlanView::PasswordLogin { username: user, password: PasswordSource::Stdin }),
        is_blank(user) ==> login_plan(seq!["password"@, user] + args) is Err,
        word != "--password-stdin"@ ==> login_plan(seq!["password"@, user, word] + args) is Err,
        word != "alipay"@ && word != "password"@ ==> login_plan(seq![word] + args) is Err,
{
    reveal_strlit("alipay");
    reveal_strlit("password");
    assert("alipay"@.len() == 6 && "password"@.len() == 8);
    assert((seq!["alipay"@] + args)[0] == "alipay"@);
    assert((seq!["password"@, user] + args)[0] == "password"@);
    assert((seq!["password"@, user] + args)[1] == user);
    assert((seq!["password"@, user, word] + args)[0] == "password"@);
    assert((seq!["password"@, user, word] + args)[1] == user);
    assert((seq!["password"@, user, word] + args)[2] == word);
    assert((seq![word] + args)[0] == word);
}

/// A registration takes the name, the address and the code in this order; with fewer arguments it
/// is refused.
pub proof fn lemma_registration_arguments(
    user: Seq<char>,
    email: Seq<char>,
    code: Seq<char>,
    word: Seq<char>,
    args: Seq<Seq<char>>,
)
    ensures
        register_plan(seq![user, email, code]) == Ok::<PlanView, Seq<char>>(
            PlanView::Register {
                username: user,
                email,
                code,
                password: PasswordSource::Prompt,
            },
        ),
        register_plan(seq![user, email, code, "--password-stdin"@]) == Ok::<PlanView, Seq<char>>(
            PlanView::Register { username: user, email, code, password: PasswordSource::Stdin },
        ),
        word != "--password-stdin"@ ==> register_plan(seq![user, email, code, word]) is Err,
        args.len() < 3 ==> register_plan(args) is Err,
{
}

/// A message on the command line goes to the conversation that it names, with its words and one
/// space between each two; a conversation is opened and its history asked for by its own name.
pub proof fn lemma_conversation_commands(
    conversation: String,
    words: Vec<String>,
    chosen: Option<String>,
)
    ensures
        command_plan(Some(CliCommand::Send { conversation_id: conversation, text: words })) == Ok::<
            PlanView,
            Seq<char>,
        >(PlanView::Send { conversation_id: conversation@, text: joined(texts(words@), " "@) }),
        command_plan(Some(CliCommand::Chat { conversation_id: chosen })) == Ok::<
            PlanView,
            Seq<char>,
        >(PlanView::Chat { conversation_id: opt_view(chosen) }),
        command_plan(None) == Ok::<PlanView, Seq<char>>(PlanView::Chat { conversation_id: None }),
        command_plan(Some(CliCommand::History { conversation_id: conversation })) matches Ok(
            PlanView::RuntimeHistory { request },
        ) && text_field(request, "conversationId"@) == Some(conversation@) && text_field(
            request,
            "@type"@,
        ) == Some("mahayana.conversation.history"@) && field(request, "limit"@) == Some(
            Tree::Int(100),
        ),
        text_field(send_tree(conversation@, joined(texts(words@), " "@)), "conversationId"@) == Some(
            conversation@,
        ),
        text_field(send_tree(conversation@, joined(texts(words@), " "@)), "text"@) == Some(
            joined(texts(words@), " "@),
        ),
        text_field(send_tree(conversation@, joined(texts(words@), " "@)), "@type"@) == Some(
            "mahayana.conversation.send"@,
        ),
{
    reveal_strlit("@type");
    reveal_strlit("conversationId");
    reveal_strlit("limit");
    reveal_strlit("text");
    assert("@type"@.len() == 5 && "conversationId"@.len() == 14 && "limit"@.len() == 5
        && "text"@.len() == 4 && "@type"@[0] != "limit"@[0]);
}

/// Words that are joined stand one after the other, with one separator between each two.
pub proof fn lemma_joined_words(words: Seq<Seq<char>>, last: Seq<char>, sep: Seq<char>)
    ensures
        joined(Seq::<Seq<char>>::empty(), sep).len() == 0,
        joined(seq![last], sep) == last,
        words.len() > 0 ==> joined(words.push(last), sep) == joined(words, sep) + sep + last,
{
    assert(words.push(last).drop_last() =~= words);
}

/// The account and the runtime are asked for what the command names.
pub proof fn lemma_account_commands(
    email: String,
    query: String,
    sku: String,
    key: Option<String>,
)
    ensures
        command_plan(Some(CliCommand::Logout)) matches Ok(PlanView::Product { request_type, .. })
            && request_type == "mahayana.auth.logout"@,
        command_plan(Some(CliCommand::Auth)) matches Ok(PlanView::Product { request_type, .. })
            && request_type == "mahayana.auth.status"@,
        command_plan(Some(CliCommand::Status)) == Ok::<PlanView, Seq<char>>(
            PlanView::RuntimeStatus,
        ),
        command_plan(Some(CliCommand::Contacts)) == Ok::<PlanView, Seq<char>>(
            PlanView::RuntimeContacts,
        ),
        command_plan(Some(CliCommand::Usage)) == Ok::<PlanView, Seq<char>>(PlanView::Usage),
        !is_blank(email@) ==> (command_plan(
            Some(CliCommand::SendCode { email }),
        ) matches Ok(PlanView::Product { request_type, request }) && request_type
            == "mahayana.auth.verification.send"@ && text_field(request, "email"@) == Some(email@)
            && text_field(request, "type"@) == Some("register"@)),
        is_blank(email@) ==> command_plan(Some(CliCommand::SendCode { email })) is Err,
        command_plan(Some(CliCommand::MarketplaceBrowse)) == Ok::<PlanView, Seq<char>>(
            PlanView::Browse { query: None },
        ),
        command_plan(Some(CliCommand::MarketplaceSearch { query })) == Ok::<PlanView, Seq<char>>(
            PlanView::Browse { query: Some(query@) },
        ),
        command_plan(Some(CliCommand::WalletBalance)) == Ok::<PlanView, Seq<char>>(
            PlanView::WalletBalance,
        ),
        command_plan(Some(CliCommand::WalletHistory)) == Ok::<PlanView, Seq<char>>(
            PlanView::WalletHistory,
        ),
        command_plan(
            Some(CliCommand::WalletTopUp { sku, idempotency_key: key }),
        ) == Ok::<PlanView, Seq<char>>(
            PlanView::WalletTopUp { sku: sku@, idempotency_key: opt_view(key) },
        ),
        command_plan(Some(CliCommand::PurchasesList)) == Ok::<PlanView, Seq<char>>(
            PlanView::PurchasesList,
        ),
        command_plan(Some(CliCommand::PurchasesRestore)) == Ok::<PlanView, Seq<char>>(
            PlanView::PurchasesRestore,
        ),
{
    reveal_strlit("email");
    reveal_strlit("type");
    assert("email"@.len() == 5 && "type"@.len() == 4);
}

/// A mini-app is talked to in its own conversation, with the words behind its name.
pub proof fn lemma_miniapp_commands(args: Vec<String>, app: Seq<char>, words: Seq<Seq<char>>)
    ensures
        texts(args@) == seq!["chat"@, app] + words && !is_blank(joined(words, " "@)) ==> command_plan(
            Some(CliCommand::Miniapp { args }),
        ) == Ok::<PlanView, Seq<char>>(
            PlanView::Send { conversation_id: "miniapp:"@ + app, text: joined(words, " "@) },
        ),
        texts(args@) == seq!["chat"@, app] + words && is_blank(joined(words, " "@)) ==> command_plan(
            Some(CliCommand::Miniapp { args }),
        ) is Err,
        texts(args@) == seq!["registry"@] + words ==> (command_plan(
            Some(CliCommand::Miniapp { args }),
        ) matches Ok(PlanView::Product { request_type, .. }) && request_type
            == "mahayana.miniapps.registry"@),
        args@.len() == 0 ==> command_plan(Some(CliCommand::Miniapp { args })) is Err,
{
    reveal_strlit("chat");
    reveal_strlit("registry");
    assert("chat"@.len() == 4 && "registry"@.len() == 8);
    let all = texts(args@);
    if all == seq!["chat"@, app] + words {
        assert(all[0] == "chat"@ && all[1] == app);
        assert(all.skip(2) =~= words);
    }
    if all == seq!["registry"@] + words {
        assert(all[0] == "registry"@);
    }
    assert(all.len() == args@.len());
}

/// A plugin command is carried out on the plugin that it names: it is added or removed in the
/// marketplace that is named, opened as its conversation, and run with the arguments that are
/// given.
pub proof fn lemma_plugin_commands(
    plugin: String,
    marketplace: Option<String>,
    json: bool,
    allow_local: bool,
    name: Seq<char>,
    command: String,
    arguments: Option<String>,
    value: Tree,
)
    ensures
        ({
            let add = plugin_plan(
                PluginCommand::Install { plugin, marketplace, json, allow_local },
            );
            let update = plugin_plan(
                PluginCommand::Update { plugin, marketplace, json },
            );
            let remove = plugin_plan(
                PluginCommand::Uninstall { plugin, marketplace, json },
            );
            let run = plugin_plan(
                PluginCommand::Run { plugin_id: plugin, command, json: arguments },
            );
            let named = opt_view(marketplace) == Some(name);
            &&& marketplace is None && is_github_source(plugin@) ==> add == Ok::<
                PlanView,
                Seq<char>,
            >(PlanView::InstallRemote { source: plugin@, json, allow_local })
            &&& named && !json ==> add == Ok::<PlanView, Seq<char>>(
                PlanView::Codex { args: seq!["add"@, plugin@, "--marketplace"@, name] },
            ) && update == add && remove == Ok::<PlanView, Seq<char>>(
                PlanView::Codex { args: seq!["remove"@, plugin@, "--marketplace"@, name] },
            )
            &&& named && json ==> add == Ok::<PlanView, Seq<char>>(
                PlanView::Codex { args: seq!["add"@, plugin@, "--marketplace"@, name, "--json"@] },
            ) && update == add
            &&& marketplace is None && !json ==> update == Ok::<PlanView, Seq<char>>(
                PlanView::Codex { args: seq!["add"@, plugin@] },
            ) && remove == Ok::<PlanView, Seq<char>>(
                PlanView::Codex { args: seq!["remove"@, plugin@] },
            )
            &&& plugin_plan(PluginCommand::Open { plugin_id: plugin }) == Ok::<
                PlanView,
                Seq<char>,
            >(PlanView::Chat { conversation_id: Some("miniapp:"@ + plugin@) })
            &&& plugin_plan(PluginCommand::Info { plugin_id: plugin }) == Ok::<
                PlanView,
                Seq<char>,
            >(PlanView::Browse { query: Some(plugin@) })
            &&& arguments is None ==> run == Ok::<PlanView, Seq<char>>(
                PlanView::Send {
                    conversation_id: "miniapp:"@ + plugin@,
                    text: "/"@ + command@ + " "@ + json_compact(Tree::Object(Map::empty())),
                },
            )
            &&& arguments is Some && json_parse(arguments->0@) == Ok::<Tree, Seq<char>>(value)
                && value is Object ==> run == Ok::<PlanView, Seq<char>>(
                PlanView::Send {
                    conversation_id: "miniapp:"@ + plugin@,
                    text: "/"@ + command@ + " "@ + json_compact(value),
                },
            )
            &&& arguments is Some && json_parse(arguments->0@) == Ok::<Tree, Seq<char>>(value)
                && !(value is Object) ==> run is Err
            &&& arguments is Some && json_parse(arguments->0@) is Err ==> run is Err
        }),
{
    assert(seq!["add"@, plugin@].push("--marketplace"@).push(name) =~= seq![
        "add"@,
        plugin@,
        "--marketplace"@,
        name,
    ]);
    assert(seq!["add"@, plugin@].push("--marketplace"@).push(name).push("--json"@) =~= seq![
        "add"@,
        plugin@,
        "--marketplace"@,
        name,
        "--json"@,
    ]);
    assert(seq!["remove"@, plugin@].push("--marketplace"@).push(name) =~= seq![
        "remove"@,
        plugin@,
        "--marketplace"@,
        name,
    ]);
}

/// Plugins are made, checked, packed and published where and as the command says, and those that
/// are available are listed as JSON.
pub proof fn lemma_plugin_files(
    name: String,
    place: String,
    other: Option<String>,
    version: String,
    marketplace: Option<String>,
)
    ensures
        plugin_plan(
            PluginCommand::Init { name, repository: place, title: other },
        ) == Ok::<PlanView, Seq<char>>(
            PlanView::PluginInit { name: name@, repository: place@, title: opt_view(other) },
        ),
        plugin_plan(PluginCommand::Validate { path: place }) == Ok::<
            PlanView,
            Seq<char>,
        >(PlanView::Validate { path: place@ }),
        plugin_plan(PluginCommand::Pack { path: place, output: other }) == Ok::<
            PlanView,
            Seq<char>,
        >(PlanView::Pack { path: place@, output: opt_view(other) }),
        plugin_plan(
            PluginCommand::Publish { path: place, plugin_id: name, version },
        ) == Ok::<PlanView, Seq<char>>(
            PlanView::Publish { path: place@, plugin_id: name@, version: version@ },
        ),
        marketplace is None ==> plugin_plan(
            PluginCommand::List { marketplace, available: true, json: false },
        ) == Ok::<PlanView, Seq<char>>(
            PlanView::Codex { args: seq!["list"@, "--json"@, "--available"@] },
        ),
        marketplace is None ==> plugin_plan(
            PluginCommand::List { marketplace, available: false, json: false },
        ) == Ok::<PlanView, Seq<char>>(PlanView::Codex { args: seq!["list"@] }),
        marketplace is Some ==> plugin_plan(
            PluginCommand::List { marketplace, available: false, json: true },
        ) == Ok::<PlanView, Seq<char>>(
            PlanView::Codex {
                args: seq!["list"@, "--marketplace"@, marketplace->0@, "--json"@],
            },
        ),
{
    assert(seq!["list"@].push("--json"@).push("--available"@) =~= seq![
        "list"@,
        "--json"@,
        "--available"@,
    ]);
    if marketplace is Some {
        assert(seq!["list"@].push("--marketplace"@).push(marketplace->0@).push("--json"@) =~= seq![
            "list"@,
            "--marketplace"@,
            marketplace->0@,
            "--json"@,
        ]);
    }
}

/// A repository is installed as its marketplace first, and then every plugin that it offers, each
/// from that marketplace and in its order.
pub proof fn lemma_repository_is_installed(
    marketplace: Seq<char>,
    plugins: Seq<Seq<char>>,
    local: bool,
    source: Seq<char>,
    i: int,
)
    requires
        0 <= i < plugins.len(),
    ensures
        remote_install((marketplace, plugins, local), source, false, true) matches Ok(
            commands,
        ) && {
            &&& commands.len() == plugins.len() + 1
            &&& commands[0] == seq!["marketplace"@, "add"@, source]
            &&& commands[i + 1] == seq!["add"@, plugins[i], "--marketplace"@, marketplace]
        },
        remote_install((marketplace, plugins, false), source, true, false) matches Ok(
            commands,
        ) && {
            &&& commands.len() == plugins.len() + 1
            &&& commands[0] == seq!["marketplace"@, "add"@, source, "--json"@]
            &&& commands[i + 1] == seq!["add"@, plugins[i], "--marketplace"@, marketplace, "--json"@]
        },
        remote_install((marketplace, plugins, true), source, false, false) is Err,
{
    assert(seq!["add"@, plugins[i]].push("--marketplace"@).push(marketplace) =~= seq![
        "add"@,
        plugins[i],
        "--marketplace"@,
        marketplace,
    ]);
    assert(seq!["add"@, plugins[i]].push("--marketplace"@).push(marketplace).push("--json"@)
        =~= seq!["add"@, plugins[i], "--marketplace"@, marketplace, "--json"@]);
    assert(seq!["marketplace"@, "add"@, source].push("--json"@) =~= seq![
        "marketplace"@,
        "add"@,
        source,
        "--json"@,
    ]);
}

/// A login through Alipay is over once it is complete, and fails once it has expired, failed, or
/// was asked about often enough; else it is asked about again. What is shown of a failure holds no
/// secret.
pub proof fn lemma_alipay_login_ends(asked: u32, response: Tree)
    ensures
        text_field(response, "status"@) == Some("complete"@) ==> poll_step(asked, response) == Ok::<
            bool,
            Seq<char>,
        >(true),
        text_field(response, "status"@) == Some("expired"@) || text_field(response, "status"@)
            == Some("failed"@) ==> poll_step(asked, response) == Err::<bool, Seq<char>>(
            "支付宝登录未完成："@ + json_compact(redacted(response)),
        ),
        ({
            let status = text_field(response, "status"@);
            status != Some("complete"@) && status != Some("expired"@) && status != Some("failed"@)
        }) ==> poll_step(asked, response) == if asked < 149 {
            Ok::<bool, Seq<char>>(false)
        } else {
            Err("支付宝登录等待超时，请重试"@)
        },
{
    reveal_strlit("complete");
    reveal_strlit("expired");
    reveal_strlit("failed");
    assert("complete"@.len() == 8 && "expired"@.len() == 7 && "failed"@.len() == 6);
}

/// The runtime is configured with the executable that it is given, and as that of a command line.
pub proof fn lemma_runtime_configuration(path: Seq<char>)
    ensures
        text_field(runtime_tree(Some(path)), "codexExecutablePath"@) == Some(path),
        field(runtime_tree(None), "codexExecutablePath"@) == Some(Tree::Null),
        text_field(runtime_tree(Some(path)), "hostPlatform"@) == Some("cli"@),
{
    reveal_strlit("codexExecutablePath");
    reveal_strlit("hostPlatform");
    assert("codexExecutablePath"@.len() == 19 && "hostPlatform"@.len() == 12);
}

/// A reply of the runtime that went well is its data; any other is its message.
pub proof fn lemma_runtime_replies(response: Tree)
    ensures
        flag_field(response, "ok"@) == Some(true) && field(response, "data"@) is Some
            ==> unwrapped(response) == Ok::<Tree, Seq<char>>(field(response, "data"@)->0),
        flag_field(response, "ok"@) != Some(true) ==> unwrapped(response) is Err,
        flag_field(response, "ok"@) != Some(true) && text_field(response, "message"@) is Some
            ==> unwrapped(response) == Err::<Tree, Seq<char>>(text_field(response, "message"@)->0),
{
}

proof fn lemma_event_kinds()
    ensures
        "mahayana.message.delta"@.len() == 22,
        "mahayana.message.completed"@.len() == 26,
        "mahayana.approval.requested"@.len() == 27,
        "mahayana.model.usage.updated"@.len() == 28,
        "mahayana.operation.completed"@.len() == 28,
        "mahayana.operation.failed"@.len() == 25,
        "mahayana.model.usage.updated"@[9] == 'm',
        "mahayana.operation.completed"@[9] == 'o',
{
    reveal_strlit("mahayana.message.delta");
    reveal_strlit("mahayana.message.completed");
    reveal_strlit("mahayana.approval.requested");
    reveal_strlit("mahayana.model.usage.updated");
    reveal_strlit("mahayana.operation.completed");
    reveal_strlit("mahayana.operation.failed");
}

/// An event of an operation, of a kind.
pub open spec fn is_event(event: Tree, kind: Seq<char>, operation: Seq<char>) -> bool {
    text_field(event, "@type"@) == Some(kind) && text_field(event, "operationId"@) == Some(operation)
}

/// The pieces of an answer are shown as they come and make up the answer together; the message of
/// the answer takes their place, and a message of the user does not. Once the operation is complete
/// the answer is what was put together, with the usage that was told last.
pub proof fn lemma_answer_is_shown(stream: StreamView, event: Tree, t: Seq<char>)
    ensures
        is_event(event, "mahayana.message.delta"@, stream.operation_id) && text_field(
            event,
            "delta"@,
        ) == Some(t) ==> streamed(stream, event).0.assistant == stream.assistant + t && streamed(
            stream,
            event,
        ).0.usage == stream.usage && streamed(stream, event).1 == StreamStepView::Delta(t),
        is_event(event, "mahayana.message.completed"@, stream.operation_id) && inner_text(
            event,
            "message"@,
            "role"@,
        ) != Some("user"@) && inner_text(event, "message"@, "text"@) == Some(t) ==> streamed(
            stream,
            event,
        ).0.assistant == t && streamed(stream, event).1 == StreamStepView::Line,
        is_event(event, "mahayana.message.completed"@, stream.operation_id) && inner_text(
            event,
            "message"@,
            "role"@,
        ) == Some("user"@) ==> streamed(stream, event) == (stream, StreamStepView::Continue),
        is_event(event, "mahayana.operation.completed"@, stream.operation_id) ==> streamed(
            stream,
            event,
        ).1 == (StreamStepView::Done { text: stream.assistant, usage: stream.usage }),
        is_event(event, "mahayana.operation.failed"@, stream.operation_id) && text_field(
            event,
            "message"@,
        ) == Some(t) ==> streamed(stream, event).1 == StreamStepView::Failed(t),
        is_event(event, "mahayana.operation.failed"@, stream.operation_id) ==> streamed(
            stream,
            event,
        ).1 is Failed,
        is_event(event, "mahayana.approval.requested"@, stream.operation_id) ==> streamed(
            stream,
            event,
        ) == (stream, StreamStepView::Approve),
        is_event(event, "mahayana.model.usage.updated"@, stream.operation_id) ==> streamed(
            stream,
            event,
        ).0.usage == usage_summary(event) && streamed(stream, event).0.assistant
            == stream.assistant && streamed(stream, event).1 == StreamStepView::Continue,
{
    lemma_event_kinds();
}

/// Two pieces of an answer and its end give both pieces, one after the other.
pub proof fn lemma_pieces_make_the_answer(
    stream: StreamView,
    first: Tree,
    second: Tree,
    end: Tree,
    a: Seq<char>,
    b: Seq<char>,
)
    requires
        is_event(first, "mahayana.message.delta"@, stream.operation_id),
        text_field(first, "delta"@) == Some(a),
        is_event(second, "mahayana.message.delta"@, stream.operation_id),
        text_field(second, "delta"@) == Some(b),
        is_event(end, "mahayana.operation.completed"@, stream.operation_id),
    ensures
        streamed(streamed(streamed(stream, first).0, second).0, end).1 == (StreamStepView::Done {
            text: stream.assistant + a + b,
            usage: stream.usage,
        }),
{
    lemma_event_kinds();
}

/// The usage of a model is told from the last reply: all tokens, and then those of the input, the
/// cached input, the output and the reasoning, each as what it is.
pub proof fn lemma_usage_is_told(
    event: Tree,
    last: Tree,
    total: i64,
    input: i64,
    cached: i64,
    output: i64,
    reasoning: i64,
)
    requires
        inner_field(event, "usage"@, "last"@) == Some(last),
        field(last, "totalTokens"@) == Some(Tree::Int(total as int)),
        field(last, "inputTokens"@) == Some(Tree::Int(input as int)),
        field(last, "cachedInputTokens"@) == Some(Tree::Int(cached as int)),
        field(last, "outputTokens"@) == Some(Tree::Int(output as int)),
        field(last, "reasoningOutputTokens"@) == Some(Tree::Int(reasoning as int)),
    ensures
        usage_summary(event) == Some(
            "本次模型用量："@ + signed_decimal(total as int) + " tokens（输入 "@
                + signed_decimal(input as int) + "，缓存输入 "@ + signed_decimal(cached as int)
                + "，输出 "@ + signed_decimal(output as int) + "，推理 "@ + signed_decimal(
                reasoning as int,
            ) + "）"@,
        ),
{
}

/// Without a number of all tokens there is no usage to tell.
pub proof fn lemma_no_usage(event: Tree)
    requires
        field(event, "usage"@) is None,
    ensures
        usage_summary(event) is None,
{
}

/// An approval is granted only by a word that grants it, whatever its case and the white space
/// around it; anything else declines it, but for the words that cancel.
pub proof fn lemma_words_of_decisions(answer: Seq<char>)
    ensures
        ({
            let word = ascii_lowered(trimmed(answer));
            let decision = decision_for(answer);
            &&& decision == "accept"@ <==> (word == "y"@ || word == "yes"@)
            &&& decision == "acceptForSession"@ <==> (word == "a"@ || word == "always"@)
            &&& decision == "cancel"@ <==> (word == "c"@ || word == "cancel"@)
            &&& decision == "decline"@ <==> (word != "y"@ && word != "yes"@ && word != "a"@ && word
                != "always"@ && word != "c"@ && word != "cancel"@)
        }),
{
    reveal_strlit("accept");
    reveal_strlit("acceptForSession");
    reveal_strlit("cancel");
    reveal_strlit("decline");
    reveal_strlit("y");
    reveal_strlit("yes");
    reveal_strlit("a");
    reveal_strlit("always");
    reveal_strlit("c");
    assert("accept"@.len() == 6 && "acceptForSession"@.len() == 16 && "cancel"@.len() == 6
        && "decline"@.len() == 7 && "accept"@[0] != "cancel"@[0]);
    assert("y"@.len() == 1 && "yes"@.len() == 3 && "a"@.len() == 1 && "always"@.len() == 6
        && "c"@.len() == 1);
    assert("y"@[0] == 'y' && "a"@[0] == 'a' && "c"@[0] == 'c' && "always"@[0] == 'a'
        && "cancel"@[0] == 'c');
}

/// An approval is answered under its own identifier with the decision, an operation is interrupted
/// under its own, and the question is shown with its title and its details.
pub proof fn lemma_approvals_on_the_command_line(
    id: Seq<char>,
    decision: Seq<char>,
    event: Tree,
    title: Seq<char>,
    details: Tree,
)
    ensures
        text_field(approval_answer(id, decision), "approvalId"@) == Some(id),
        text_field(approval_answer(id, decision), "decision"@) == Some(decision),
        text_field(interruption(id), "operationId"@) == Some(id),
        text_field(event, "title"@) == Some(title) && field(event, "details"@) == Some(details)
            ==> approval_text(event) == "\n审批请求："@ + title + "\n"@ + json_compact(details),
{
    reveal_strlit("approvalId");
    reveal_strlit("decision");
    assert("approvalId"@.len() == 10 && "decision"@.len() == 8);
}

/// A line of a history says who wrote it and what; a row of the contacts ends with the
/// conversation's name and marks the pinned ones.
pub proof fn lemma_rows_and_lines(
    message: Tree,
    role: Seq<char>,
    text: Seq<char>,
    conversation: Tree,
    id: Seq<char>,
    number: nat,
)
    ensures
        text_field(message, "role"@) == Some(role) && text_field(message, "text"@) == Some(text)
            ==> history_line(message) == "["@ + role + "] "@ + text,
        text_field(conversation, "id"@) == Some(id) ==> id.is_suffix_of(
            contact_row(number, conversation),
        ),
        flag_field(conversation, "pinned"@) == Some(true) ==> contact_row(
            number,
            conversation,
        ).contains('★'),
{
    reveal_strlit("★");
    let row = contact_row(number, conversation);
    if text_field(conversation, "id"@) == Some(id) {
        assert(row.subrange(row.len() - id.len(), row.len() as int) =~= id);
    }
    if flag_field(conversation, "pinned"@) == Some(true) {
        let front = right_aligned(decimal(number), 2) + ". "@;
        assert(row[front.len() as int] == "★"@[0]);
    }
}

/// The value of an option is what stands behind its equals sign or the next argument, and the
/// arguments around it are left in their order.
pub proof fn lemma_option_is_taken(
    before: Seq<Seq<char>>,
    name: Seq<char>,
    value: Seq<char>,
    rest: Seq<Seq<char>>,
)
    requires
        !name.contains('='),
        forall|i: int| 0 <= i < before.len() ==> !is_option(#[trigger] before[i], name),
    ensures
        taken(before + seq![name + "="@ + value] + rest, name) == (Some(value), before + rest),
        taken(before + seq![name, value] + rest, name) == (Some(value), before + rest),
        taken(before + seq![name], name) == (None::<Seq<char>>, before),
        taken(before, name) == (None::<Seq<char>>, before),
{
    reveal_strlit("=");
    let n = before.len() as int;
    let equal = name + "="@ + value;
    let a = before + seq![equal] + rest;
    assert((name + "="@).is_prefix_of(equal)) by {
        assert(equal.take((name + "="@).len() as int) =~= name + "="@);
    }
    assert(a.take(n) =~= before);
    lemma_first(a, name, before);
    lemma_after_equals(name, value);
    assert(equal[name.len() as int] == '=');
    assert(a.remove(n) =~= before + rest);
    let b = before + seq![name, value] + rest;
    assert(b.take(n) =~= before);
    lemma_first(b, name, before);
    assert(b.remove(n)[n] == value);
    assert(b.remove(n).remove(n) =~= before + rest);
    let c = before + seq![name];
    assert(c.take(n) =~= before);
    lemma_first(c, name, before);
    assert(c.remove(n) =~= before);
    assert forall|at: int| !first_option(before, name, at) by {
        if first_option(before, name, at) {
            assert(!is_option(before[at], name));
        }
    }
}

proof fn lemma_first(all: Seq<Seq<char>>, name: Seq<char>, before: Seq<Seq<char>>)
    requires
        before.len() < all.len(),
        before == all.take(before.len() as int),
        is_option(all[before.len() as int], name),
        forall|i: int| 0 <= i < before.len() ==> !is_option(#[trigger] before[i], name),
    ensures
        first_option(all, name, before.len() as int),
        (choose|at: int| first_option(all, name, at)) == before.len(),
{
    let n = before.len() as int;
    assert forall|j: int| 0 <= j < n implies !is_option(#[trigger] all[j], name) by {
        assert(all[j] == before[j]);
        assert(!is_option(before[j], name));
    }
    assert(first_option(all, name, n));
    let at = choose|at: int| first_option(all, name, at);
    if at < n {
        assert(!is_option(all[at], name));
    }
}

proof fn lemma_after_equals(name: Seq<char>, value: Seq<char>)
    requires
        !name.contains('='),
    ensures
        after_equals(name + "="@ + value) == value,
    decreases name.len(),
{
    reveal_strlit("=");
    let whole = name + "="@ + value;
    if name.len() == 0 {
        assert(whole.drop_first() =~= value);
    } else {
        assert(name[0] != '=');
        let rest = name.drop_first();
        assert(!rest.contains('=')) by {
            if rest.contains('=') {
                let k = choose|k: int| 0 <= k < rest.len() && rest[k] == '=';
                assert(name[k + 1] == '=');
            }
        }
        lemma_after_equals(rest, value);
        assert(whole.drop_first() =~= rest + "="@ + value);
    }
}

/// The plugin of a command line is the one that the environment names where the arguments name
/// none, and the arguments come first.
pub proof fn lemma_plugin_of_a_command_line(
    style: PathStyle,
    executable: Seq<char>,
    args: Seq<Seq<char>>,
    id: Seq<char>,
    environment: Option<Seq<char>>,
    ids: Seq<Seq<char>>,
)
    requires
        forall|i: int| 0 <= i < args.len() ==> !is_option(#[trigger] args[i], "--plugin"@),
        forall|i: int| 0 <= i < args.len() ==> !is_option(#[trigger] args[i], "--plugin-id"@),
    ensures
        chosen_plugin(style, seq![executable, "--plugin"@, id] + args, environment, ids) == Ok::<
            (Seq<char>, Seq<Seq<char>>),
            Seq<char>,
        >((id, args)),
        environment matches Some(named) ==> chosen_plugin(
            style,
            seq![executable] + args,
            environment,
            ids,
        ) == Ok::<(Seq<char>, Seq<Seq<char>>), Seq<char>>((named, args)),
        ids.len() == 0 ==> chosen_plugin(style, seq![executable] + args, None, ids) is Err,
{
    reveal_strlit("--plugin");
    reveal_strlit("--plugin-id");
    assert(!"--plugin"@.contains('='));
    assert(!"--plugin-id"@.contains('='));
    let none = Seq::<Seq<char>>::empty();
    lemma_option_is_taken(none, "--plugin"@, id, args);
    assert((seq![executable, "--plugin"@, id] + args).drop_first() =~= none + seq!["--plugin"@, id]
        + args);
    assert(none + args =~= args);
    lemma_option_is_taken(args, "--plugin"@, id, args);
    lemma_option_is_taken(args, "--plugin-id"@, id, args);
    assert((seq![executable] + args).drop_first() =~= args);
}

/// The executable of a plugin is named after the first of the plugins that its name starts with.
pub proof fn lemma_name_of_a_plugin(ids: Seq<Seq<char>>, name: Seq<char>, i: int)
    requires
        0 <= i < ids.len(),
        ids[i].is_prefix_of(name),
        forall|j: int| 0 <= j < i ==> !(#[trigger] ids[j]).is_prefix_of(name),
    ensures
        id_in_name(ids, name) == Some(ids[i]),
    decreases i,
{
    if i > 0 {
        assert(!ids[0].is_prefix_of(name));
        let rest = ids.drop_first();
        assert(rest[i - 1] == ids[i]);
        assert forall|j: int| 0 <= j < i - 1 implies !(#[trigger] rest[j]).is_prefix_of(name) by {
            assert(!ids[j + 1].is_prefix_of(name));
        }
        lemma_name_of_a_plugin(rest, name, i - 1);
    }
}

/// A command of an official mini-app calls the tool that it stands for, with the JSON that is
/// given, with its words as the input, or with nothing.
pub proof fn lemma_official_commands(
    command: Seq<char>,
    words: Seq<Seq<char>>,
    source: Seq<char>,
    commands: Map<Seq<char>, Seq<char>>,
    value: Tree,
)
    requires
        command != "--dump-manifest"@ && command != "dump-manifest"@ && command != "mcp-serve"@
            && command != "mcp"@ && command != "help"@ && command != "--help"@ && command != "-h"@,
        forall|i: int| 0 <= i < words.len() ==> !is_option(#[trigger] words[i], "--json"@),
    ensures
        ({
            let tool = if commands.contains_key(command) {
                commands[command]
            } else {
                command
            };
            &&& json_parse(source) == Ok::<Tree, Seq<char>>(value) ==> command_of(
                seq![command] + words + seq!["--json"@, source],
                commands,
            ) == Ok::<CommandView, Seq<char>>(CommandView::Call { tool, arguments: value })
            &&& json_parse(source) is Err ==> command_of(
                seq![command] + words + seq!["--json"@, source],
                commands,
            ) is Err
            &&& words.len() > 0 ==> (command_of(seq![command] + words, commands) matches Ok(
                CommandView::Call { tool: called, arguments },
            ) && called == tool && text_field(arguments, "input"@) == Some(joined(words, " "@)))
            &&& words.len() == 0 ==> command_of(seq![command] + words, commands) == Ok::<
                CommandView,
                Seq<char>,
            >(CommandView::Call { tool, arguments: Tree::Object(Map::empty()) })
        }),
{
    reveal_strlit("--json");
    assert(!"--json"@.contains('='));
    let none = Seq::<Seq<char>>::empty();
    lemma_option_is_taken(words, "--json"@, source, none);
    let with = seq![command] + words + seq!["--json"@, source];
    assert(with[0] == command);
    assert(with.drop_first() =~= words + seq!["--json"@, source] + none);
    let bare = seq![command] + words;
    assert(bare[0] == command);
    assert(bare.drop_first() =~= words);
}

/// The words that are no tools: they show the manifest, serve, or help.
pub proof fn lemma_words_that_are_no_tools(
    rest: Seq<Seq<char>>,
    commands: Map<Seq<char>, Seq<char>>,
)
    ensures
        command_of(seq!["--dump-manifest"@] + rest, commands) == Ok::<CommandView, Seq<char>>(
            CommandView::DumpManifest,
        ),
        command_of(seq!["dump-manifest"@] + rest, commands) == Ok::<CommandView, Seq<char>>(
            CommandView::DumpManifest,
        ),
        command_of(seq!["mcp-serve"@] + rest, commands) == Ok::<CommandView, Seq<char>>(
            CommandView::Serve,
        ),
        command_of(seq!["mcp"@] + rest, commands) == Ok::<CommandView, Seq<char>>(
            CommandView::Serve,
        ),
        command_of(seq!["help"@] + rest, commands) == Ok::<CommandView, Seq<char>>(
            CommandView::Help,
        ),
        command_of(seq!["--help"@] + rest, commands) == Ok::<CommandView, Seq<char>>(
            CommandView::Help,
        ),
        command_of(seq!["-h"@] + rest, commands) == Ok::<CommandView, Seq<char>>(CommandView::Help),
        command_of(Seq::empty(), commands) == Ok::<CommandView, Seq<char>>(CommandView::Help),
{
    reveal_strlit("--dump-manifest");
    reveal_strlit("dump-manifest");
    reveal_strlit("mcp-serve");
    reveal_strlit("mcp");
    reveal_strlit("help");
    reveal_strlit("--help");
    reveal_strlit("-h");
    assert("--dump-manifest"@.len() == 15 && "dump-manifest"@.len() == 13 && "mcp-serve"@.len() == 9
        && "mcp"@.len() == 3 && "help"@.len() == 4 && "--help"@.len() == 6 && "-h"@.len() == 2);
}

/// The state of each plugin is kept in its own place, below the directory that is named first.
pub proof fn lemma_state_of_a_plugin(
    dir: Option<Seq<char>>,
    home: Option<Seq<char>>,
    cwd: Seq<char>,
    a: Seq<char>,
    b: Seq<char>,
)
    ensures
        dir is Some ==> state_parts(dir, home, cwd, a) == seq![dir->0, "plugins"@, a, "state.json"@],
        dir is None && home is Some ==> state_parts(dir, home, cwd, a) == seq![
            home->0,
            "plugins"@,
            a,
            "state.json"@,
        ],
        dir is None && home is None ==> state_parts(dir, home, cwd, a) == seq![
            cwd,
            ".mahayana-state"@,
            "plugins"@,
            a,
            "state.json"@,
        ],
        a != b ==> state_parts(dir, home, cwd, a) != state_parts(dir, home, cwd, b),
{
    let x = state_parts(dir, home, cwd, a);
    let y = state_parts(dir, home, cwd, b);
    assert(x[x.len() - 2] == a && y[y.len() - 2] == b);
    if dir is Some {
        assert(x =~= seq![dir->0, "plugins"@, a, "state.json"@]);
    } else if home is Some {
        assert(x =~= seq![home->0, "plugins"@, a, "state.json"@]);
    } else {
        assert(x =~= seq![cwd, ".mahayana-state"@, "plugins"@, a, "state.json"@]);
    }
}

/// A page passes exactly where it loads no script from elsewhere, and what is wrong is told exactly
/// where it does not pass.
pub proof fn lemma_pages_that_pass(html: Seq<char>, tag: int, at: int)
    ensures
        flag_field(inspection(html), "passed"@) == Some(!loads_remote_script(html)),
        items_field(inspection(html), "errors"@) matches Some(errors) && (errors.len()
            == 0 <==> flag_field(inspection(html), "passed"@) == Some(true)),
        is_remote_script(ascii_lowered(html), tag, at) ==> flag_field(inspection(html), "passed"@)
            == Some(false),
{
    reveal_strlit("passed");
    reveal_strlit("errors");
    assert("passed"@[0] != "errors"@[0]);
}

/// The rows of the contacts are numbered from one, and every contact and every message is shown.
pub proof fn lemma_everything_is_shown(response: Tree, items: Seq<Tree>, i: int)
    requires
        items_field(response, "data"@) == Some(items),
        0 <= i < items.len(),
    ensures
        contact_rows(response) matches Some(rows) && rows.len() == items.len() && rows[i]
            == contact_row((i + 1) as nat, items[i]),
        history_lines(response) matches Some(lines) && lines.len() == items.len() && lines[i]
            == history_line(items[i]),
        contact_rows(Tree::Null) is None && history_lines(Tree::Null) is None,
{
}

/// The address that is opened for a login through Alipay is the one that was given, and so is the
/// state that it is asked about under; a login is stored only where its answer says so.
pub proof fn lemma_alipay_is_opened(answer: Tree, url: Seq<char>, state: Seq<char>)
    ensures
        text_field(answer, "loginUrl"@) == Some(url) && text_field(answer, "state"@) == Some(state)
            ==> authorization_in(answer) == Ok::<(Seq<char>, Seq<char>), Seq<char>>((url, state)),
        text_field(answer, "loginUrl"@) is None || text_field(answer, "state"@) is None
            ==> authorization_in(answer) is Err,
        is_stored(answer) <==> flag_field(answer, "sessionStored"@) == Some(true),
{
}

/// The product API is asked where the setting says, without slashes at the end, and at its usual
/// address where it says nothing.
pub proof fn lemma_address_of_the_product(setting: Seq<char>)
    ensures
        base_for(None) == "https://api.ombhrum.com"@,
        is_blank(setting) ==> base_for(Some(setting)) == base_for(None),
        !is_blank(setting) && setting.last() != '/' ==> base_for(Some(setting)) == setting,
        !is_blank(setting) ==> base_for(Some(setting.push('/'))) == base_for(Some(setting)),
{
    reveal_strlit("https://api.ombhrum.com");
    assert(setting.push('/').drop_last() =~= setting);
    if !is_blank(setting) {
        lemma_trimming(setting);
        lemma_trimming(setting.push('/'));
        lemma_white_space('/');
        let longer = setting.push('/');
        if is_blank(longer) {
            assert(is_white(longer[setting.len() as int]));
        }
    }
}

/// A page that holds a script from elsewhere is found out, wherever the script stands in it.
pub proof fn lemma_remote_script_is_found(before: Seq<char>, after: Seq<char>)
    ensures
        loads_remote_script(before + "<script src=\"https://"@ + after),
        loads_remote_script(before + "<script src='http://"@ + after),
        loads_remote_script(before + "<script src=//"@ + after),
{
    lemma_script_at(before, "<script src=\"https://"@, after, "https://"@, 13);
    lemma_script_at(before, "<script src='http://"@, after, "http://"@, 13);
    lemma_script_at(before, "<script src=//"@, after, "//"@, 12);
}

proof fn lemma_script_at(
    before: Seq<char>,
    tag: Seq<char>,
    after: Seq<char>,
    host: Seq<char>,
    start: int,
)
    requires
        (tag == "<script src=\"https://"@ && host == "https://"@ && start == 13) || (tag
            == "<script src='http://"@ && host == "http://"@ && start == 13) || (tag
            == "<script src=//"@ && host == "//"@ && start == 12),
    ensures
        loads_remote_script(before + tag + after),
{
    reveal_strlit("<script src=\"https://");
    reveal_strlit("<script src='http://");
    reveal_strlit("<script src=//");
    reveal_strlit("https://");
    reveal_strlit("http://");
    reveal_strlit("//");
    reveal_strlit("<script");
    reveal_strlit("src");
    let page = before + tag + after;
    let s = ascii_lowered(page);
    let n = before.len() as int;
    assert forall|i: int| 0 <= i < tag.len() implies s[n + i] == tag[i] by {
        assert(page[n + i] == tag[i]);
    }
    assert(s.subrange(n, n + 7) =~= "<script"@);
    assert(occurs_at(s, "<script"@, n));
    assert(s.subrange(n + 8, n + 11) =~= "src"@);
    assert(occurs_at(s, "src"@, n + 8));
    lemma_white_space(s[n + 11]);
    lemma_white_space(s[n + 12]);
    assert(past_white(s, n + 11) == n + 11);
    assert(past_white(s, n + 12) == n + 12);
    assert(value_start(s, n + 8, "src"@) == Some(n + start));
    assert(s.subrange(n + start, n + start + host.len()) =~= host);
    assert(occurs_at(s, host, n + start));
    assert(is_remote_script(s, n, n + 8));
}

/// A page is found in a text that holds one: from the first mark of its start to its last end.
pub proof fn lemma_page_is_found(before: Seq<char>, inner: Seq<char>, after: Seq<char>)
    requires
        !occurs(ascii_lowered(before + "<html"@ + inner + "</html>"@ + after), "<!doctype html"@),
        !before.contains('<'),
        !after.contains('<'),
    ensures
        is_document(
            before + "<html"@ + inner + "</html>"@ + after,
            before.len() as int,
            (before.len() + 5 + inner.len() + 7) as int,
        ),
{
    let source = before + "<html"@ + inner + "</html>"@ + after;
    assert(before + "<html"@ + (inner + "</html>"@ + after) =~= source);
    lemma_start_stands_first(before, inner + "</html>"@ + after);
    lemma_end_stands_last(before + "<html"@ + inner, after);
    assert("<html"@.len() == 5 && "</html>"@.len() == 7) by {
        reveal_strlit("<html");
        reveal_strlit("</html>");
    }
}

proof fn lemma_start_stands_first(before: Seq<char>, after: Seq<char>)
    requires
        !before.contains('<'),
    ensures
        first_occurrence(
            ascii_lowered(before + "<html"@ + after),
            "<html"@,
            0,
            before.len() as int,
        ),
{
    reveal_strlit("<html");
    let source = before + "<html"@ + after;
    let n = before.len() as int;
    lemma_piece_stands(before, "<html"@, after);
    assert forall|j: int| 0 <= j < n implies !occurs_at(ascii_lowered(source), "<html"@, j) by {
        if occurs_at(ascii_lowered(source), "<html"@, j) {
            lemma_first_of_a_piece(source, "<html"@, j);
            assert(source[j] == before[j]);
        }
    }
}

proof fn lemma_end_stands_last(before: Seq<char>, after: Seq<char>)
    requires
        !after.contains('<'),
    ensures
        last_occurrence(
            ascii_lowered(before + "</html>"@ + after),
            "</html>"@,
            before.len() as int,
        ),
{
    reveal_strlit("</html>");
    let source = before + "</html>"@ + after;
    let n = before.len() as int;
    lemma_piece_stands(before, "</html>"@, after);
    assert forall|j: int| n < j implies !occurs_at(ascii_lowered(source), "</html>"@, j) by {
        if occurs_at(ascii_lowered(source), "</html>"@, j) {
            lemma_first_of_a_piece(source, "</html>"@, j);
            if j < n + 7 {
                assert(source[j] == "</html>"@[j - n]);
            } else {
                assert(source[j] == after[j - n - 7]);
            }
        }
    }
}

proof fn lemma_piece_stands(before: Seq<char>, piece: Seq<char>, after: Seq<char>)
    requires
        forall|i: int| 0 <= i < piece.len() ==> !('A' <= #[trigger] piece[i] <= 'Z'),
    ensures
        occurs_at(ascii_lowered(before + piece + after), piece, before.len() as int),
{
    let s = ascii_lowered(before + piece + after);
    let n = before.len() as int;
    assert forall|i: int| 0 <= i < piece.len() implies s.subrange(n, n + piece.len())[i]
        == piece[i] by {
        assert((before + piece + after)[n + i] == piece[i]);
    }
    assert(s.subrange(n, n + piece.len()) =~= piece);
}

proof fn lemma_first_of_a_piece(source: Seq<char>, piece: Seq<char>, at: int)
    requires
        occurs_at(ascii_lowered(source), piece, at),
        piece.len() > 0,
        piece[0] == '<',
    ensures
        0 <= at < source.len(),
        source[at] == '<',
{
    let s = ascii_lowered(source);
    assert(s.subrange(at, at + piece.len())[0] == s[at]);
    assert(s[at] == ascii_lower(source[at]));
}

/// The arguments of a tool are the object that is given, no arguments where nothing is given, and
/// nothing else is taken.
pub proof fn lemma_arguments_of_a_tool(source: Seq<char>, fields: Map<Seq<char>, Tree>)
    ensures
        option_arguments(None) == Ok::<Tree, Seq<char>>(Tree::Object(Map::empty())),
        json_parse(source) == Ok::<Tree, Seq<char>>(Tree::Object(fields)) ==> option_arguments(
            Some(source),
        ) == Ok::<Tree, Seq<char>>(Tree::Object(fields)),
        option_arguments(Some(source)) is Ok <==> (json_parse(source) is Ok && json_parse(
            source,
        )->Ok_0 is Object),
        json_parse(source) matches Err(error) ==> option_arguments(Some(source)) == Err::<
            Tree,
            Seq<char>,
        >("--json 必须是合法 JSON："@ + error),
{
}

} // verus!
