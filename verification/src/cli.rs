//! The command line: what each command takes.

use crate::json::{flag_field, json_result, text_field, text_or_null, Json, Object, Tree};
use crate::json_text::{compact, json_compact, json_parse, parse};
use crate::plugin_dev::{is_github_source, looks_like_github_source, RemoteRepository};
use crate::product_values::{redact_secrets, redacted};
use crate::text::{blank, is_blank, join, joined, same, texts, trim, trimmed};
use crate::url_text::opt_view;
use vstd::prelude::*;
use vstd::string::*;

verus! {

/// A command of the command line.
#[allow(inconsistent_fields)]
#[derive(Debug, PartialEq, Eq)]
pub enum CliCommand {
    Login { args: Vec<String> },
    Register { args: Vec<String> },
    SendCode { email: String },
    Logout,
    Auth,
    Usage,
    Status,
    Contacts,
    History { conversation_id: String },
    Send { conversation_id: String, text: Vec<String> },
    Chat { conversation_id: Option<String> },
    Miniapp { args: Vec<String> },
    MarketplaceBrowse,
    MarketplaceSearch { query: String },
    Plugin { command: PluginCommand },
    WalletBalance,
    WalletHistory,
    WalletTopUp { sku: String, idempotency_key: Option<String> },
    PurchasesList,
    PurchasesRestore,
}

/// A command about plugins.
#[allow(inconsistent_fields)]
#[derive(Debug, PartialEq, Eq)]
pub enum PluginCommand {
    Init { name: String, repository: String, title: Option<String> },
    List { marketplace: Option<String>, available: bool, json: bool },
    Info { plugin_id: String },
    Install { plugin: String, marketplace: Option<String>, json: bool, allow_local: bool },
    Update { plugin: String, marketplace: Option<String>, json: bool },
    Uninstall { plugin: String, marketplace: Option<String>, json: bool },
    Open { plugin_id: String },
    Run { plugin_id: String, command: String, json: Option<String> },
    Validate { path: String },
    Pack { path: String, output: Option<String> },
    Publish { path: String, plugin_id: String, version: String },
}

/// Where a password is read.
#[derive(Debug, Clone, Copy, PartialEq, Eq, Structural)]
pub enum PasswordSource {
    Prompt,
    Stdin,
}

/// The most bytes of a plugin archive.
pub const ARCHIVE_LIMIT: u64 = 52_428_800;

/// What a command takes.
#[allow(inconsistent_fields)]
pub ghost enum PlanView {
    Product { request_type: Seq<char>, request: Tree },
    AlipayLogin,
    PasswordLogin { username: Seq<char>, password: PasswordSource },
    Register {
        username: Seq<char>,
        email: Seq<char>,
        code: Seq<char>,
        password: PasswordSource,
    },
    Usage,
    RuntimeStatus,
    RuntimeContacts,
    RuntimeHistory { request: Tree },
    Send { conversation_id: Seq<char>, text: Seq<char> },
    Chat { conversation_id: Option<Seq<char>> },
    Browse { query: Option<Seq<char>> },
    PluginInit { name: Seq<char>, repository: Seq<char>, title: Option<Seq<char>> },
    Codex { args: Seq<Seq<char>> },
    InstallRemote { source: Seq<char>, json: bool, allow_local: bool },
    Validate { path: Seq<char> },
    Pack { path: Seq<char>, output: Option<Seq<char>> },
    Publish { path: Seq<char>, plugin_id: Seq<char>, version: Seq<char> },
    WalletBalance,
    WalletHistory,
    WalletTopUp { sku: Seq<char>, idempotency_key: Option<Seq<char>> },
    PurchasesList,
    PurchasesRestore,
}

/// What a command takes.
#[allow(inconsistent_fields)]
#[derive(Debug, PartialEq, Eq)]
pub enum CliPlan {
    /// Execute a product request and show its answer without secrets.
    Product { request_type: String, request: Json },
    AlipayLogin,
    PasswordLogin { username: String, password: PasswordSource },
    Register { username: String, email: String, code: String, password: PasswordSource },
    Usage,
    RuntimeStatus,
    RuntimeContacts,
    RuntimeHistory { request: Json },
    Send { conversation_id: String, text: String },
    Chat { conversation_id: Option<String> },
    Browse { query: Option<String> },
    PluginInit { name: String, repository: String, title: Option<String> },
    /// Run the plugin command with these arguments.
    Codex { args: Vec<String> },
    /// Clone and check the repository, then go on with [`install_remote`].
    InstallRemote { source: String, json: bool, allow_local: bool },
    Validate { path: String },
    Pack { path: String, output: Option<String> },
    Publish { path: String, plugin_id: String, version: String },
    WalletBalance,
    WalletHistory,
    WalletTopUp { sku: String, idempotency_key: Option<String> },
    PurchasesList,
    PurchasesRestore,
}

impl View for CliPlan {
    type V = PlanView;

    open spec fn view(&self) -> PlanView {
        match self {
            CliPlan::Product { request_type, request } => PlanView::Product {
                request_type: request_type@,
                request: request@,
            },
            CliPlan::AlipayLogin => PlanView::AlipayLogin,
            CliPlan::PasswordLogin { username, password } => PlanView::PasswordLogin {
                username: username@,
                password: *password,
            },
            CliPlan::Register { username, email, code, password } => PlanView::Register {
                username: username@,
                email: email@,
                code: code@,
                password: *password,
            },
            CliPlan::Usage => PlanView::Usage,
            CliPlan::RuntimeStatus => PlanView::RuntimeStatus,
            CliPlan::RuntimeContacts => PlanView::RuntimeContacts,
            CliPlan::RuntimeHistory { request } => PlanView::RuntimeHistory { request: request@ },
            CliPlan::Send { conversation_id, text } => PlanView::Send {
                conversation_id: conversation_id@,
                text: text@,
            },
            CliPlan::Chat { conversation_id } => PlanView::Chat {
                conversation_id: opt_view(*conversation_id),
            },
            CliPlan::Browse { query } => PlanView::Browse { query: opt_view(*query) },
            CliPlan::PluginInit { name, repository, title } => PlanView::PluginInit {
                name: name@,
                repository: repository@,
                title: opt_view(*title),
            },
            CliPlan::Codex { args } => PlanView::Codex { args: texts(args@) },
            CliPlan::InstallRemote { source, json, allow_local } => PlanView::InstallRemote {
                source: source@,
                json: *json,
                allow_local: *allow_local,
            },
            CliPlan::Validate { path } => PlanView::Validate { path: path@ },
            CliPlan::Pack { path, output } => PlanView::Pack {
                path: path@,
                output: opt_view(*output),
            },
            CliPlan::Publish { path, plugin_id, version } => PlanView::Publish {
                path: path@,
                plugin_id: plugin_id@,
                version: version@,
            },
            CliPlan::WalletBalance => PlanView::WalletBalance,
            CliPlan::WalletHistory => PlanView::WalletHistory,
            CliPlan::WalletTopUp { sku, idempotency_key } => PlanView::WalletTopUp {
                sku: sku@,
                idempotency_key: opt_view(*idempotency_key),
            },
            CliPlan::PurchasesList => PlanView::PurchasesList,
            CliPlan::PurchasesRestore => PlanView::PurchasesRestore,
        }
    }
}

/// A plan, or why there is none.
pub open spec fn plan_result(out: Result<CliPlan, String>) -> Result<PlanView, Seq<char>> {
    match out {
        Ok(plan) => Ok(plan@),
        Err(message) => Err(message@),
    }
}

/// Where a password is read when the command line says `mode` about it.
pub open spec fn password_source(mode: Option<Seq<char>>) -> Result<PasswordSource, Seq<char>> {
    match mode {
        Some(word) => if word == "--password-stdin"@ {
            Ok(PasswordSource::Stdin)
        } else {
            Err("密码不能放在命令参数中；请省略密码或使用 --password-stdin"@)
        },
        None => Ok(PasswordSource::Prompt),
    }
}

fn password_mode(mode: Option<&String>) -> (out: Result<PasswordSource, String>)
    ensures
        match out {
            Ok(source) => password_source(
                match mode {
                    Some(word) => Some(word@),
                    None => None,
                },
            ) == Ok::<PasswordSource, Seq<char>>(source),
            Err(message) => password_source(
                match mode {
                    Some(word) => Some(word@),
                    None => None,
                },
            ) == Err::<PasswordSource, Seq<char>>(message@),
        },
{
    match mode {
        Some(word) => if same(word.as_str(), "--password-stdin") {
            Ok(PasswordSource::Stdin)
        } else {
            Err("密码不能放在命令参数中；请省略密码或使用 --password-stdin".to_owned())
        },
        None => Ok(PasswordSource::Prompt),
    }
}

/// Takes the password out of what was read.
pub fn read_password(line: &str) -> (out: Result<String, String>)
    ensures
        match out {
            Ok(password) => password@ == trimmed(line@) && !is_blank(line@),
            Err(message) => is_blank(line@) && message@ == "密码不能为空"@,
        },
{
    let password = trim(line);
    if password.as_str().is_empty() {
        Err("密码不能为空".to_owned())
    } else {
        Ok(password)
    }
}

/// The argument at a position.
pub open spec fn arg_at(args: Seq<Seq<char>>, i: int) -> Option<Seq<char>> {
    if 0 <= i < args.len() {
        Some(args[i])
    } else {
        None
    }
}

fn arg(args: &Vec<String>, i: usize) -> (out: Option<&String>)
    ensures
        match out {
            Some(word) => arg_at(texts(args@), i as int) == Some(word@),
            None => arg_at(texts(args@), i as int) is None,
        },
{
    if i < args.len() {
        Some(&args[i])
    } else {
        None
    }
}

/// What a login takes.
pub open spec fn login_plan(args: Seq<Seq<char>>) -> Result<PlanView, Seq<char>> {
    match arg_at(args, 0) {
        None => Ok(PlanView::AlipayLogin),
        Some(word) => if word == "alipay"@ {
            Ok(PlanView::AlipayLogin)
        } else if word == "password"@ {
            match arg_at(args, 1) {
                Some(username) => if is_blank(username) {
                    Err("用法：mahayana login password <用户名> [--password-stdin]"@)
                } else {
                    match password_source(arg_at(args, 2)) {
                        Ok(password) => Ok(PlanView::PasswordLogin { username, password }),
                        Err(message) => Err(message),
                    }
                },
                None => Err("用法：mahayana login password <用户名> [--password-stdin]"@),
            }
        } else {
            Err(
                "未知登录方式："@ + word
                    + "。使用 mahayana login alipay 或 mahayana login password <用户名>"@,
            )
        },
    }
}

fn login(args: &Vec<String>) -> (out: Result<CliPlan, String>)
    ensures
        plan_result(out) == login_plan(texts(args@)),
{
    let word = match arg(args, 0) {
        Some(word) => word,
        None => {
            return Ok(CliPlan::AlipayLogin);
        },
    };
    if same(word.as_str(), "alipay") {
        return Ok(CliPlan::AlipayLogin);
    }
    if !same(word.as_str(), "password") {
        return Err(
            "未知登录方式：".to_owned().concat(word.as_str()).concat(
                "。使用 mahayana login alipay 或 mahayana login password <用户名>",
            ),
        );
    }
    match arg(args, 1) {
        Some(username) => {
            if blank(username.as_str()) {
                return Err(
                    "用法：mahayana login password <用户名> [--password-stdin]".to_owned(),
                );
            }
            match password_mode(arg(args, 2)) {
                Ok(password) => Ok(
                    CliPlan::PasswordLogin { username: username.clone(), password },
                ),
                Err(message) => Err(message),
            }
        },
        None => Err("用法：mahayana login password <用户名> [--password-stdin]".to_owned()),
    }
}

/// What a registration takes.
pub open spec fn register_plan(args: Seq<Seq<char>>) -> Result<PlanView, Seq<char>> {
    if args.len() < 3 {
        Err("用法：mahayana register <用户名> <邮箱> <验证码> [--password-stdin]"@)
    } else {
        match password_source(arg_at(args, 3)) {
            Ok(password) => Ok(
                PlanView::Register { username: args[0], email: args[1], code: args[2], password },
            ),
            Err(message) => Err(message),
        }
    }
}

fn register(args: &Vec<String>) -> (out: Result<CliPlan, String>)
    ensures
        plan_result(out) == register_plan(texts(args@)),
{
    proof {
        assert(texts(args@).len() == args@.len());
    }
    if args.len() < 3 {
        return Err(
            "用法：mahayana register <用户名> <邮箱> <验证码> [--password-stdin]".to_owned(),
        );
    }
    match password_mode(arg(args, 3)) {
        Ok(password) => Ok(
            CliPlan::Register {
                username: args[0].clone(),
                email: args[1].clone(),
                code: args[2].clone(),
                password,
            },
        ),
        Err(message) => Err(message),
    }
}

/// The request of a login with a password.
pub open spec fn password_login_tree(username: Seq<char>, password: Seq<char>) -> Tree {
    Tree::Object(map!["username"@ => Tree::Text(username), "password"@ => Tree::Text(password)])
}

/// The request of a login with a password.
pub fn password_login_request(username: &str, password: &str) -> (out: Json)
    ensures
        out@ == password_login_tree(username@, password@),
{
    Json::Object(Object::new().with_text("username", username).with_text("password", password))
}

/// The answer says that a session was stored.
pub open spec fn is_stored(response: Tree) -> bool {
    flag_field(response, "sessionStored"@) == Some(true)
}

/// Checks that a login stored its session.
pub fn check_login(response: &Json) -> (out: Result<(), String>)
    ensures
        match out {
            Ok(_) => is_stored(response@),
            Err(message) => !is_stored(response@) && message@
                == "官方登录没有返回可保存的软件会话"@,
        },
{
    let stored = match response.flag_field("sessionStored") {
        Some(flag) => flag,
        None => false,
    };
    if stored {
        Ok(())
    } else {
        Err("官方登录没有返回可保存的软件会话".to_owned())
    }
}

/// The request of a registration.
pub open spec fn register_tree(
    username: Seq<char>,
    email: Seq<char>,
    code: Seq<char>,
    password: Seq<char>,
) -> Tree {
    Tree::Object(
        map![
            "username"@ => Tree::Text(username),
            "email"@ => Tree::Text(email),
            "verificationCode"@ => Tree::Text(code),
            "password"@ => Tree::Text(password),
        ],
    )
}

/// The request of a registration.
pub fn register_request(username: &str, email: &str, code: &str, password: &str) -> (out: Json)
    ensures
        out@ == register_tree(username@, email@, code@, password@),
{
    Json::Object(
        Object::new().with_text("username", username).with_text("email", email).with_text(
            "verificationCode",
            code,
        ).with_text("password", password),
    )
}

/// What asking for a verification code takes.
pub open spec fn send_code_plan(email: Seq<char>) -> Result<PlanView, Seq<char>> {
    if is_blank(email) {
        Err("用法：mahayana send-code <邮箱>"@)
    } else {
        Ok(
            PlanView::Product {
                request_type: "mahayana.auth.verification.send"@,
                request: Tree::Object(
                    map!["email"@ => Tree::Text(email), "type"@ => Tree::Text("register"@)],
                ),
            },
        )
    }
}

fn send_verification_code(email: &str) -> (out: Result<CliPlan, String>)
    ensures
        plan_result(out) == send_code_plan(email@),
{
    if blank(email) {
        return Err("用法：mahayana send-code <邮箱>".to_owned());
    }
    Ok(
        CliPlan::Product {
            request_type: "mahayana.auth.verification.send".to_owned(),
            request: Json::Object(
                Object::new().with_text("email", email).with_text("type", "register"),
            ),
        },
    )
}

/// A product request without parameters.
pub open spec fn bare_product(request_type: Seq<char>) -> PlanView {
    PlanView::Product { request_type, request: Tree::Object(Map::empty()) }
}

fn product(request_type: &str) -> (out: CliPlan)
    ensures
        out@ == bare_product(request_type@),
{
    CliPlan::Product {
        request_type: request_type.to_owned(),
        request: Json::Object(Object::new()),
    }
}

/// What a mini-app command takes.
pub open spec fn miniapp_plan(args: Seq<Seq<char>>) -> Result<PlanView, Seq<char>> {
    match arg_at(args, 0) {
        Some(word) => if word == "registry"@ {
            Ok(bare_product("mahayana.miniapps.registry"@))
        } else if word == "chat"@ {
            match arg_at(args, 1) {
                Some(id) => {
                    let message = joined(args.skip(2), " "@);
                    if is_blank(message) {
                        Err("小程序消息不能为空"@)
                    } else {
                        Ok(PlanView::Send { conversation_id: "miniapp:"@ + id, text: message })
                    }
                },
                None => Err("用法：mahayana miniapp chat <miniapp-id> <消息>"@),
            }
        } else {
            Err("用法：mahayana miniapp registry|chat"@)
        },
        None => Err("用法：mahayana miniapp registry|chat"@),
    }
}

fn words_from(args: &Vec<String>, from: usize) -> (out: Vec<String>)
    requires
        from <= args@.len(),
    ensures
        texts(out@) == texts(args@).skip(from as int),
{
    let mut out: Vec<String> = Vec::new();
    let mut i: usize = from;
    while i < args.len()
        invariant
            from <= i <= args@.len(),
            texts(out@) =~= texts(args@).subrange(from as int, i as int),
        decreases args@.len() - i,
    {
        let ghost before = out@;
        out.push(args[i].clone());
        proof {
            assert(texts(out@) =~= texts(before).push(args@[i as int]@));
        }
        i = i + 1;
    }
    proof {
        assert(texts(out@) =~= texts(args@).skip(from as int));
    }
    out
}

fn miniapp_command(args: &Vec<String>) -> (out: Result<CliPlan, String>)
    ensures
        plan_result(out) == miniapp_plan(texts(args@)),
{
    let word = match arg(args, 0) {
        Some(word) => word,
        None => {
            return Err("用法：mahayana miniapp registry|chat".to_owned());
        },
    };
    if same(word.as_str(), "registry") {
        return Ok(product("mahayana.miniapps.registry"));
    }
    if !same(word.as_str(), "chat") {
        return Err("用法：mahayana miniapp registry|chat".to_owned());
    }
    match arg(args, 1) {
        Some(id) => {
            let message = join(&words_from(args, 2), " ");
            if blank(message.as_str()) {
                return Err("小程序消息不能为空".to_owned());
            }
            Ok(
                CliPlan::Send {
                    conversation_id: "miniapp:".to_owned().concat(id.as_str()),
                    text: message,
                },
            )
        },
        None => Err("用法：mahayana miniapp chat <miniapp-id> <消息>".to_owned()),
    }
}

/// Arguments with a marketplace, where one is given.
pub open spec fn in_marketplace(args: Seq<Seq<char>>, marketplace: Option<Seq<char>>) -> Seq<
    Seq<char>,
> {
    match marketplace {
        Some(name) => args.push("--marketplace"@).push(name),
        None => args,
    }
}

/// Arguments with a flag, where it is set.
pub open spec fn with_flag(args: Seq<Seq<char>>, flag: bool, word: Seq<char>) -> Seq<Seq<char>> {
    if flag {
        args.push(word)
    } else {
        args
    }
}

/// The arguments that handle one plugin.
pub open spec fn plugin_args(
    verb: Seq<char>,
    plugin: Seq<char>,
    marketplace: Option<Seq<char>>,
    json: bool,
) -> Seq<Seq<char>> {
    with_flag(in_marketplace(seq![verb, plugin], marketplace), json, "--json"@)
}

/// The arguments that list plugins; available ones are always listed as JSON.
pub open spec fn list_args(marketplace: Option<Seq<char>>, available: bool, json: bool) -> Seq<
    Seq<char>,
> {
    with_flag(
        with_flag(in_marketplace(seq!["list"@], marketplace), json || available, "--json"@),
        available,
        "--available"@,
    )
}

fn push_word(args: Vec<String>, word: String) -> (out: Vec<String>)
    ensures
        texts(out@) == texts(args@).push(word@),
{
    let ghost before = args@;
    let mut out: Vec<String> = args;
    out.push(word);
    proof {
        assert(texts(out@) =~= texts(before).push(word@));
    }
    out
}

fn no_words() -> (out: Vec<String>)
    ensures
        texts(out@) == Seq::<Seq<char>>::empty(),
{
    let out: Vec<String> = Vec::new();
    proof {
        assert(texts(out@) =~= Seq::<Seq<char>>::empty());
    }
    out
}

fn add_marketplace(args: Vec<String>, marketplace: Option<String>) -> (out: Vec<String>)
    ensures
        texts(out@) == in_marketplace(texts(args@), opt_view(marketplace)),
{
    match marketplace {
        Some(name) => push_word(push_word(args, "--marketplace".to_owned()), name),
        None => args,
    }
}

fn add_flag(args: Vec<String>, flag: bool, word: &str) -> (out: Vec<String>)
    ensures
        texts(out@) == with_flag(texts(args@), flag, word@),
{
    if flag {
        push_word(args, word.to_owned())
    } else {
        args
    }
}

fn plugin_words(verb: &str, plugin: String, marketplace: Option<String>, json: bool) -> (out: Vec<
    String,
>)
    ensures
        texts(out@) == plugin_args(verb@, plugin@, opt_view(marketplace), json),
{
    let words = push_word(push_word(no_words(), verb.to_owned()), plugin);
    add_flag(add_marketplace(words, marketplace), json, "--json")
}

/// The arguments of a tool that is run: an object, or nothing.
pub open spec fn run_arguments(parsed: Option<Result<Tree, Seq<char>>>) -> Result<Tree, Seq<char>> {
    match parsed {
        None => Ok(Tree::Object(Map::empty())),
        Some(Ok(value)) => if value is Object {
            Ok(value)
        } else {
            Err("--json 必须是 MCP Tool 参数对象"@)
        },
        Some(Err(error)) => Err("--json 必须是合法 JSON："@ + error),
    }
}

/// The arguments that an option gives to a tool.
pub open spec fn option_arguments(json: Option<Seq<char>>) -> Result<Tree, Seq<char>> {
    run_arguments(
        match json {
            Some(source) => Some(json_parse(source)),
            None => None,
        },
    )
}

/// Takes the arguments of a tool that were read as JSON.
pub fn tool_arguments(parsed: Option<Result<Json, String>>) -> (out: Result<Json, String>)
    ensures
        json_result(out) == run_arguments(
            match parsed {
                Some(Ok(value)) => Some(Ok(value@)),
                Some(Err(error)) => Some(Err(error@)),
                None => None,
            },
        ),
{
    match parsed {
        None => Ok(Json::Object(Object::new())),
        Some(Ok(value)) => {
            if value.as_object().is_none() {
                return Err("--json 必须是 MCP Tool 参数对象".to_owned());
            }
            Ok(value)
        },
        Some(Err(error)) => Err("--json 必须是合法 JSON：".to_owned().concat(error.as_str())),
    }
}

/// What a plugin command takes.
pub open spec fn plugin_plan(command: PluginCommand) -> Result<PlanView, Seq<char>> {
    match command {
        PluginCommand::Init { name, repository, title } => Ok(
            PlanView::PluginInit {
                name: name@,
                repository: repository@,
                title: opt_view(title),
            },
        ),
        PluginCommand::List { marketplace, available, json } => Ok(
            PlanView::Codex { args: list_args(opt_view(marketplace), available, json) },
        ),
        PluginCommand::Info { plugin_id } => Ok(PlanView::Browse { query: Some(plugin_id@) }),
        PluginCommand::Install { plugin, marketplace, json, allow_local } => if marketplace is None
            && is_github_source(plugin@) {
            Ok(PlanView::InstallRemote { source: plugin@, json, allow_local })
        } else {
            Ok(
                PlanView::Codex {
                    args: plugin_args("add"@, plugin@, opt_view(marketplace), json),
                },
            )
        },
        PluginCommand::Update { plugin, marketplace, json } => Ok(
            PlanView::Codex { args: plugin_args("add"@, plugin@, opt_view(marketplace), json) },
        ),
        PluginCommand::Uninstall { plugin, marketplace, json } => Ok(
            PlanView::Codex {
                args: plugin_args("remove"@, plugin@, opt_view(marketplace), json),
            },
        ),
        PluginCommand::Open { plugin_id } => Ok(
            PlanView::Chat { conversation_id: Some("miniapp:"@ + plugin_id@) },
        ),
        PluginCommand::Run { plugin_id, command, json } => match option_arguments(
            opt_view(json),
        ) {
            Ok(arguments) => Ok(
                PlanView::Send {
                    conversation_id: "miniapp:"@ + plugin_id@,
                    text: "/"@ + command@ + " "@ + json_compact(arguments),
                },
            ),
            Err(message) => Err(message),
        },
        PluginCommand::Validate { path } => Ok(PlanView::Validate { path: path@ }),
        PluginCommand::Pack { path, output } => Ok(
            PlanView::Pack { path: path@, output: opt_view(output) },
        ),
        PluginCommand::Publish { path, plugin_id, version } => Ok(
            PlanView::Publish { path: path@, plugin_id: plugin_id@, version: version@ },
        ),
    }
}

/// Decides what a plugin command takes.
pub fn plugin_command(command: PluginCommand) -> (out: Result<CliPlan, String>)
    ensures
        plan_result(out) == plugin_plan(command),
{
    match command {
        PluginCommand::Init { name, repository, title } => Ok(
            CliPlan::PluginInit { name, repository, title },
        ),
        PluginCommand::List { marketplace, available, json } => {
            let words = push_word(no_words(), "list".to_owned());
            let words = add_flag(
                add_marketplace(words, marketplace),
                json || available,
                "--json",
            );
            Ok(CliPlan::Codex { args: add_flag(words, available, "--available") })
        },
        PluginCommand::Info { plugin_id } => Ok(CliPlan::Browse { query: Some(plugin_id) }),
        PluginCommand::Install { plugin, marketplace, json, allow_local } => {
            if marketplace.is_none() && looks_like_github_source(plugin.as_str()) {
                return Ok(CliPlan::InstallRemote { source: plugin, json, allow_local });
            }
            Ok(CliPlan::Codex { args: plugin_words("add", plugin, marketplace, json) })
        },
        PluginCommand::Update { plugin, marketplace, json } => Ok(
            CliPlan::Codex { args: plugin_words("add", plugin, marketplace, json) },
        ),
        PluginCommand::Uninstall { plugin, marketplace, json } => Ok(
            CliPlan::Codex { args: plugin_words("remove", plugin, marketplace, json) },
        ),
        PluginCommand::Open { plugin_id } => Ok(
            CliPlan::Chat {
                conversation_id: Some("miniapp:".to_owned().concat(plugin_id.as_str())),
            },
        ),
        PluginCommand::Run { plugin_id, command, json } => {
            let parsed = match json {
                Some(source) => Some(parse(source.as_str())),
                None => None,
            };
            match tool_arguments(parsed) {
                Ok(arguments) => Ok(
                    CliPlan::Send {
                        conversation_id: "miniapp:".to_owned().concat(plugin_id.as_str()),
                        text: "/".to_owned().concat(command.as_str()).concat(" ").concat(
                            compact(&arguments).as_str(),
                        ),
                    },
                ),
                Err(message) => Err(message),
            }
        },
        PluginCommand::Validate { path } => Ok(CliPlan::Validate { path }),
        PluginCommand::Pack { path, output } => Ok(CliPlan::Pack { path, output }),
        PluginCommand::Publish { path, plugin_id, version } => Ok(
            CliPlan::Publish { path, plugin_id, version },
        ),
    }
}

/// The characters of lists of words.
pub open spec fn word_lists(lists: Seq<Vec<String>>) -> Seq<Seq<Seq<char>>> {
    Seq::new(lists.len(), |i: int| texts(lists[i]@))
}

/// The plugin commands that install a repository: its marketplace, and then each plugin.
pub open spec fn remote_args(
    source: Seq<char>,
    marketplace: Seq<char>,
    plugins: Seq<Seq<char>>,
    json: bool,
) -> Seq<Seq<Seq<char>>> {
    seq![with_flag(seq!["marketplace"@, "add"@, source], json, "--json"@)] + Seq::new(
        plugins.len(),
        |i: int| plugin_args("add"@, plugins[i], Some(marketplace), json),
    )
}

/// What a repository offers: its marketplace, its plugins, and whether it brings local runtimes.
pub open spec fn remote_view(remote: RemoteRepository) -> (Seq<char>, Seq<Seq<char>>, bool) {
    (remote.marketplace@, texts(remote.plugins@), remote.has_local_runtimes)
}

/// The plugin commands that install a repository that was checked, or why it is not installed:
/// local runtimes must be allowed.
pub open spec fn remote_install(
    remote: (Seq<char>, Seq<Seq<char>>, bool),
    source: Seq<char>,
    json: bool,
    allow_local: bool,
) -> Result<Seq<Seq<Seq<char>>>, Seq<char>> {
    if remote.2 && !allow_local {
        Err("仓库包含本地 CLI/stdio runtime；请审查源码后使用 --allow-local 单独授权"@)
    } else {
        Ok(remote_args(source, remote.0, remote.1, json))
    }
}

/// Decides the plugin commands that install a repository that was checked.
pub fn install_remote(remote: &RemoteRepository, source: &str, json: bool, allow_local: bool) -> (out:
    Result<Vec<Vec<String>>, String>)
    ensures
        remote_install(remote_view(*remote), source@, json, allow_local) == match out {
            Ok(lists) => Ok::<Seq<Seq<Seq<char>>>, Seq<char>>(word_lists(lists@)),
            Err(message) => Err(message@),
        },
{
    if remote.has_local_runtimes && !allow_local {
        return Err(
            "仓库包含本地 CLI/stdio runtime；请审查源码后使用 --allow-local 单独授权".to_owned(),
        );
    }
    let words = push_word(
        push_word(push_word(no_words(), "marketplace".to_owned()), "add".to_owned()),
        source.to_owned(),
    );
    let first = add_flag(words, json, "--json");
    proof {
        assert(texts(first@) == with_flag(seq!["marketplace"@, "add"@, source@], json, "--json"@));
    }
    let mut lists: Vec<Vec<String>> = Vec::new();
    lists.push(first);
    let mut i: usize = 0;
    while i < remote.plugins.len()
        invariant
            i <= remote.plugins@.len(),
            word_lists(lists@) =~= seq![
                with_flag(seq!["marketplace"@, "add"@, source@], json, "--json"@),
            ] + Seq::new(
                i as nat,
                |j: int|
                    plugin_args(
                        "add"@,
                        texts(remote.plugins@)[j],
                        Some(remote.marketplace@),
                        json,
                    ),
            ),
        decreases remote.plugins@.len() - i,
    {
        let ghost before = lists@;
        let words = plugin_words(
            "add",
            remote.plugins[i].clone(),
            Some(remote.marketplace.clone()),
            json,
        );
        lists.push(words);
        proof {
            assert(word_lists(lists@) =~= word_lists(before).push(texts(words@)));
        }
        i = i + 1;
    }
    Ok(lists)
}

/// The request for the history of a conversation.
pub open spec fn history_request(conversation_id: Seq<char>) -> Tree {
    Tree::Object(
        map![
            "@type"@ => Tree::Text("mahayana.conversation.history"@),
            "conversationId"@ => Tree::Text(conversation_id),
            "limit"@ => Tree::Int(100),
        ],
    )
}

/// The request that sends a message.
pub open spec fn send_tree(conversation_id: Seq<char>, text: Seq<char>) -> Tree {
    Tree::Object(
        map![
            "@type"@ => Tree::Text("mahayana.conversation.send"@),
            "conversationId"@ => Tree::Text(conversation_id),
            "text"@ => Tree::Text(text),
        ],
    )
}

/// The request that sends a message.
pub fn send_request(conversation_id: &str, text: &str) -> (out: Json)
    ensures
        out@ == send_tree(conversation_id@, text@),
{
    Json::Object(
        Object::new().with_text("@type", "mahayana.conversation.send").with_text(
            "conversationId",
            conversation_id,
        ).with_text("text", text),
    )
}

/// A request that has nothing but its kind.
pub fn bare_request(kind: &str) -> (out: Json)
    ensures
        out@ == Tree::Object(map!["@type"@ => Tree::Text(kind@)]),
{
    Json::Object(Object::new().with_text("@type", kind))
}

/// The configuration of the runtime.
pub open spec fn runtime_tree(codex_executable_path: Option<Seq<char>>) -> Tree {
    Tree::Object(
        map![
            "codexExecutablePath"@ => text_or_null(codex_executable_path),
            "hostPlatform"@ => Tree::Text("cli"@),
        ],
    )
}

/// The settings that the runtime is created with.
pub fn runtime_config(codex_executable_path: Option<&str>) -> (out: Json)
    ensures
        out@ == runtime_tree(
            match codex_executable_path {
                Some(path) => Some(path@),
                None => None,
            },
        ),
{
    Json::Object(
        Object::new().with(
            "codexExecutablePath",
            Json::text_or_null(codex_executable_path),
        ).with_text("hostPlatform", "cli"),
    )
}

/// What a command takes; without a command there is a chat.
pub open spec fn command_plan(command: Option<CliCommand>) -> Result<PlanView, Seq<char>> {
    match command {
        None => Ok(PlanView::Chat { conversation_id: None }),
        Some(CliCommand::Login { args }) => login_plan(texts(args@)),
        Some(CliCommand::Register { args }) => register_plan(texts(args@)),
        Some(CliCommand::SendCode { email }) => send_code_plan(email@),
        Some(CliCommand::Logout) => Ok(bare_product("mahayana.auth.logout"@)),
        Some(CliCommand::Auth) => Ok(bare_product("mahayana.auth.status"@)),
        Some(CliCommand::Usage) => Ok(PlanView::Usage),
        Some(CliCommand::Status) => Ok(PlanView::RuntimeStatus),
        Some(CliCommand::Contacts) => Ok(PlanView::RuntimeContacts),
        Some(CliCommand::History { conversation_id }) => Ok(
            PlanView::RuntimeHistory { request: history_request(conversation_id@) },
        ),
        Some(CliCommand::Send { conversation_id, text }) => Ok(
            PlanView::Send {
                conversation_id: conversation_id@,
                text: joined(texts(text@), " "@),
            },
        ),
        Some(CliCommand::Chat { conversation_id }) => Ok(
            PlanView::Chat { conversation_id: opt_view(conversation_id) },
        ),
        Some(CliCommand::Miniapp { args }) => miniapp_plan(texts(args@)),
        Some(CliCommand::MarketplaceBrowse) => Ok(PlanView::Browse { query: None }),
        Some(CliCommand::MarketplaceSearch { query }) => Ok(
            PlanView::Browse { query: Some(query@) },
        ),
        Some(CliCommand::Plugin { command }) => plugin_plan(command),
        Some(CliCommand::WalletBalance) => Ok(PlanView::WalletBalance),
        Some(CliCommand::WalletHistory) => Ok(PlanView::WalletHistory),
        Some(CliCommand::WalletTopUp { sku, idempotency_key }) => Ok(
            PlanView::WalletTopUp { sku: sku@, idempotency_key: opt_view(idempotency_key) },
        ),
        Some(CliCommand::PurchasesList) => Ok(PlanView::PurchasesList),
        Some(CliCommand::PurchasesRestore) => Ok(PlanView::PurchasesRestore),
    }
}

/// Decides what a command takes.
pub fn run(command: Option<CliCommand>) -> (out: Result<CliPlan, String>)
    ensures
        plan_result(out) == command_plan(command),
{
    let command = match command {
        Some(command) => command,
        None => {
            return Ok(CliPlan::Chat { conversation_id: None });
        },
    };
    match command {
        CliCommand::Login { args } => login(&args),
        CliCommand::Register { args } => register(&args),
        CliCommand::SendCode { email } => send_verification_code(email.as_str()),
        CliCommand::Logout => Ok(product("mahayana.auth.logout")),
        CliCommand::Auth => Ok(product("mahayana.auth.status")),
        CliCommand::Usage => Ok(CliPlan::Usage),
        CliCommand::Status => Ok(CliPlan::RuntimeStatus),
        CliCommand::Contacts => Ok(CliPlan::RuntimeContacts),
        CliCommand::History { conversation_id } => Ok(
            CliPlan::RuntimeHistory {
                request: Json::Object(
                    Object::new().with_text("@type", "mahayana.conversation.history").with_text(
                        "conversationId",
                        conversation_id.as_str(),
                    ).with("limit", Json::Unsigned(100)),
                ),
            },
        ),
        CliCommand::Send { conversation_id, text } => Ok(
            CliPlan::Send { conversation_id, text: join(&text, " ") },
        ),
        CliCommand::Chat { conversation_id } => Ok(CliPlan::Chat { conversation_id }),
        CliCommand::Miniapp { args } => miniapp_command(&args),
        CliCommand::MarketplaceBrowse => Ok(CliPlan::Browse { query: None }),
        CliCommand::MarketplaceSearch { query } => Ok(CliPlan::Browse { query: Some(query) }),
        CliCommand::Plugin { command } => plugin_command(command),
        CliCommand::WalletBalance => Ok(CliPlan::WalletBalance),
        CliCommand::WalletHistory => Ok(CliPlan::WalletHistory),
        CliCommand::WalletTopUp { sku, idempotency_key } => Ok(
            CliPlan::WalletTopUp { sku, idempotency_key },
        ),
        CliCommand::PurchasesList => Ok(CliPlan::PurchasesList),
        CliCommand::PurchasesRestore => Ok(CliPlan::PurchasesRestore),
    }
}

/// Where an Alipay login goes on.
#[derive(Debug, PartialEq, Eq)]
pub struct AlipayAuthorization {
    pub url: String,
    pub state: String,
}

/// The address and the state of an Alipay login, or what is missing.
pub open spec fn authorization_in(authorization: Tree) -> Result<
    (Seq<char>, Seq<char>),
    Seq<char>,
> {
    match (text_field(authorization, "loginUrl"@), text_field(authorization, "state"@)) {
        (Some(url), Some(state)) => Ok((url, state)),
        (None, _) => Err("登录服务没有返回支付宝授权地址"@),
        (Some(_), None) => Err("登录服务没有返回会话状态"@),
    }
}

/// Takes the address and the state out of an authorization.
pub fn alipay_authorization(authorization: &Json) -> (out: Result<AlipayAuthorization, String>)
    ensures
        match out {
            Ok(found) => authorization_in(authorization@) == Ok::<(Seq<char>, Seq<char>), Seq<char>>(
                (found.url@, found.state@),
            ),
            Err(message) => authorization_in(authorization@) == Err::<
                (Seq<char>, Seq<char>),
                Seq<char>,
            >(message@),
        },
{
    let url = match authorization.text_field("loginUrl") {
        Some(url) => url.to_owned(),
        None => {
            return Err("登录服务没有返回支付宝授权地址".to_owned());
        },
    };
    match authorization.text_field("state") {
        Some(state) => Ok(AlipayAuthorization { url, state: state.to_owned() }),
        None => Err("登录服务没有返回会话状态".to_owned()),
    }
}

/// How often a login is asked about.
pub const POLL_ATTEMPTS: u32 = 150;

/// The pause before a login is asked about, in seconds.
pub const POLL_SECONDS: u64 = 2;

/// How a login stands.
#[derive(Debug, PartialEq, Eq)]
pub enum PollStep {
    Again,
    Complete,
    Failed(String),
}

/// How a login stands, as a reply says after `asked` earlier ones.
pub open spec fn poll_step(asked: u32, response: Tree) -> Result<bool, Seq<char>> {
    let status = text_field(response, "status"@);
    if status == Some("complete"@) {
        Ok(true)
    } else if status == Some("expired"@) || status == Some("failed"@) {
        Err("支付宝登录未完成："@ + json_compact(redacted(response)))
    } else if asked + 1 >= POLL_ATTEMPTS {
        Err("支付宝登录等待超时，请重试"@)
    } else {
        Ok(false)
    }
}

/// Decides how a login stands from the reply that came after `asked` earlier ones. What a failure
/// shows of the reply holds no secret.
pub fn alipay_login_step(asked: u32, response: &Json) -> (out: PollStep)
    ensures
        match out {
            PollStep::Complete => poll_step(asked, response@) == Ok::<bool, Seq<char>>(true),
            PollStep::Again => poll_step(asked, response@) == Ok::<bool, Seq<char>>(false),
            PollStep::Failed(message) => poll_step(asked, response@) == Err::<bool, Seq<char>>(
                message@,
            ),
        },
{
    if response.field_is("status", "complete") {
        return PollStep::Complete;
    }
    if response.field_is("status", "expired") || response.field_is("status", "failed") {
        return PollStep::Failed(
            "支付宝登录未完成：".to_owned().concat(compact(&redact_secrets(response)).as_str()),
        );
    }
    if asked >= POLL_ATTEMPTS - 1 {
        return PollStep::Failed("支付宝登录等待超时，请重试".to_owned());
    }
    PollStep::Again
}

} // verus!
