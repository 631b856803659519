//! The tool server of a plugin: what it answers to each line that it reads.

use crate::json::{
    appended, field, inner_field, inner_text, items_field, text_field, trees, Json, Object, Tree,
};
use crate::json_text::{compact, json_compact, json_parse, parse};
use crate::official::{home_uri, resource_uri};
use crate::text::same;
use vstd::prelude::*;
use vstd::string::*;

verus! {

/// The line is not JSON.
pub const PARSE_ERROR: i64 = -32700;

/// The line is no request.
pub const INVALID_REQUEST: i64 = -32600;

/// There is no such method.
pub const METHOD_NOT_FOUND: i64 = -32601;

/// The parameters do not fit.
pub const INVALID_PARAMS: i64 = -32602;

/// There is no such resource.
pub const RESOURCE_NOT_FOUND: i64 = -32002;

/// The server itself failed.
pub const SERVER_ERROR: i64 = -32000;

/// A content page of a plugin.
#[derive(Debug, PartialEq, Eq)]
pub struct ContentResource {
    pub uri: String,
    pub text: String,
}

/// What the server knows of its plugin.
#[derive(Debug, PartialEq, Eq)]
pub struct McpFacts {
    pub plugin_id: String,
    pub title: String,
    pub version: String,
    pub protocol_version: String,
    pub tools: Vec<Json>,
    pub home: Result<String, String>,
    pub resources: Result<Vec<ContentResource>, String>,
}

/// The answer to a request.
pub open spec fn rpc_result(id: Tree, result: Tree) -> Tree {
    Tree::Object(
        map!["jsonrpc"@ => Tree::Text("2.0"@), "id"@ => id, "result"@ => result],
    )
}

/// The answer to a request that failed.
pub open spec fn rpc_error(id: Tree, code: i64, message: Seq<char>) -> Tree {
    Tree::Object(
        map![
            "jsonrpc"@ => Tree::Text("2.0"@),
            "id"@ => id,
            "error"@ => Tree::Object(
                map!["code"@ => Tree::Int(code as int), "message"@ => Tree::Text(message)],
            ),
        ],
    )
}

/// The answer to a request.
pub fn result_reply(id: Json, result: Json) -> (out: Json)
    ensures
        out@ == rpc_result(id@, result@),
{
    Json::Object(Object::new().with_text("jsonrpc", "2.0").with("id", id).with("result", result))
}

/// The answer to a request that failed.
pub fn error_reply(id: Json, code: i64, message: &str) -> (out: Json)
    ensures
        out@ == rpc_error(id@, code, message@),
{
    let error = Object::new().with("code", Json::whole(code)).with_text("message", message);
    Json::Object(
        Object::new().with_text("jsonrpc", "2.0").with("id", id).with("error", Json::Object(error)),
    )
}

/// What the server does about a line.
pub ghost enum McpStepView {
    Ignore,
    Reply(Tree),
    Call { id: Tree, name: Seq<char>, arguments: Tree, progress_token: Option<Tree> },
    Abort(Seq<char>),
}

/// What the server does about a line.
#[derive(Debug, PartialEq, Eq)]
pub enum McpStep {
    /// A notification takes no answer.
    Ignore,
    Reply(Json),
    /// Call the tool, then answer with [`finish_call`].
    Call { id: Json, name: String, arguments: Json, progress_token: Option<Json> },
    /// Stop serving.
    Abort(String),
}

/// The tree of an optional value.
pub open spec fn opt_tree(value: Option<Json>) -> Option<Tree> {
    match value {
        Some(value) => Some(value@),
        None => None,
    }
}

impl View for McpStep {
    type V = McpStepView;

    open spec fn view(&self) -> McpStepView {
        match self {
            McpStep::Ignore => McpStepView::Ignore,
            McpStep::Reply(value) => McpStepView::Reply(value@),
            McpStep::Call { id, name, arguments, progress_token } => McpStepView::Call {
                id: id@,
                name: name@,
                arguments: arguments@,
                progress_token: opt_tree(*progress_token),
            },
            McpStep::Abort(message) => McpStepView::Abort(message@),
        }
    }
}

/// What the server says about itself.
pub open spec fn initialize_result(facts: McpFacts) -> Tree {
    Tree::Object(
        map![
            "protocolVersion"@ => Tree::Text(facts.protocol_version@),
            "capabilities"@ => Tree::Object(
                map![
                    "tools"@ => Tree::Object(map!["listChanged"@ => Tree::Bool(false)]),
                    "resources"@ => Tree::Object(
                        map![
                            "subscribe"@ => Tree::Bool(false),
                            "listChanged"@ => Tree::Bool(false),
                        ],
                    ),
                ],
            ),
            "serverInfo"@ => Tree::Object(
                map![
                    "name"@ => Tree::Text("fabushi-"@ + facts.plugin_id@),
                    "version"@ => Tree::Text(facts.version@),
                ],
            ),
        ],
    )
}

fn initialize(facts: &McpFacts) -> (out: Json)
    ensures
        out@ == initialize_result(*facts),
{
    let name = "fabushi-".to_owned().concat(facts.plugin_id.as_str());
    let tools = Object::new().with("listChanged", Json::Bool(false));
    let resources = Object::new().with("subscribe", Json::Bool(false)).with(
        "listChanged",
        Json::Bool(false),
    );
    let capabilities = Object::new().with("tools", Json::Object(tools)).with(
        "resources",
        Json::Object(resources),
    );
    let info = Object::new().with_text("name", name.as_str()).with_text(
        "version",
        facts.version.as_str(),
    );
    Json::Object(
        Object::new().with_text("protocolVersion", facts.protocol_version.as_str()).with(
            "capabilities",
            Json::Object(capabilities),
        ).with("serverInfo", Json::Object(info)),
    )
}

/// A tool as it is listed: the one that shows the home page says where it is.
pub open spec fn listed_tool(tool: Tree, plugin_id: Seq<char>) -> Tree {
    match tool {
        Tree::Object(fields) => if text_field(tool, "name"@) == Some("home"@) {
            Tree::Object(
                fields.insert(
                    "_meta"@,
                    Tree::Object(map!["ui/resourceUri"@ => Tree::Text(home_uri(plugin_id))]),
                ),
            )
        } else {
            tool
        },
        _ => tool,
    }
}

/// The tools as they are listed.
pub open spec fn tools_result(tools: Seq<Tree>, plugin_id: Seq<char>) -> Tree {
    Tree::Object(
        map![
            "tools"@ => Tree::Array(
                Seq::new(tools.len(), |i: int| listed_tool(tools[i], plugin_id)),
            ),
        ],
    )
}

fn list_tool(tool: &Json, plugin_id: &str) -> (out: Json)
    ensures
        out@ == listed_tool(tool@, plugin_id@),
{
    if tool.field_is("name", "home") {
        match tool {
            Json::Object(object) => {
                let uri = resource_uri(plugin_id);
                let meta = Object::new().with_text("ui/resourceUri", uri.as_str());
                return Json::Object(object.copy().with("_meta", Json::Object(meta)));
            },
            _ => {},
        }
    }
    tool.copy()
}

fn list_tools(facts: &McpFacts) -> (out: Json)
    ensures
        out@ == tools_result(trees(facts.tools@), facts.plugin_id@),
{
    let mut tools: Vec<Json> = Vec::new();
    let mut i: usize = 0;
    while i < facts.tools.len()
        invariant
            i <= facts.tools@.len(),
            trees(tools@) =~= Seq::new(
                i as nat,
                |j: int| listed_tool(trees(facts.tools@)[j], facts.plugin_id@),
            ),
        decreases facts.tools@.len() - i,
    {
        tools = appended(tools, list_tool(&facts.tools[i], facts.plugin_id.as_str()));
        i = i + 1;
    }
    Json::Object(Object::new().with("tools", Json::Array(tools)))
}

/// A content page as it is listed.
pub open spec fn listed_resource(resource: ContentResource) -> Tree {
    Tree::Object(
        map![
            "uri"@ => Tree::Text(resource.uri@),
            "name"@ => Tree::Text("小程序内容"@),
            "mimeType"@ => Tree::Text("text/markdown"@),
        ],
    )
}

/// The home page as it is listed.
pub open spec fn listed_home(facts: McpFacts) -> Tree {
    Tree::Object(
        map![
            "uri"@ => Tree::Text(home_uri(facts.plugin_id@)),
            "name"@ => Tree::Text(facts.title@ + "首页"@),
            "mimeType"@ => Tree::Text("text/html;profile=mcp-app"@),
        ],
    )
}

/// The pages as they are listed: the home page, and then the content.
pub open spec fn resources_result(facts: McpFacts, resources: Seq<ContentResource>) -> Tree {
    Tree::Object(
        map![
            "resources"@ => Tree::Array(
                seq![listed_home(facts)] + Seq::new(
                    resources.len(),
                    |i: int| listed_resource(resources[i]),
                ),
            ),
        ],
    )
}

fn list_resources(facts: &McpFacts, resources: &Vec<ContentResource>) -> (out: Json)
    ensures
        out@ == resources_result(*facts, resources@),
{
    let uri = resource_uri(facts.plugin_id.as_str());
    let name = facts.title.clone().concat("首页");
    let home = Object::new().with_text("uri", uri.as_str()).with_text("name", name.as_str()).with_text(
        "mimeType",
        "text/html;profile=mcp-app",
    );
    let mut items = appended(Vec::new(), Json::Object(home));
    let mut i: usize = 0;
    while i < resources.len()
        invariant
            i <= resources@.len(),
            trees(items@) =~= seq![listed_home(*facts)] + Seq::new(
                i as nat,
                |j: int| listed_resource(resources@[j]),
            ),
        decreases resources@.len() - i,
    {
        let item = Object::new().with_text("uri", resources[i].uri.as_str()).with_text(
            "name",
            "小程序内容",
        ).with_text("mimeType", "text/markdown");
        items = appended(items, Json::Object(item));
        i = i + 1;
    }
    Json::Object(Object::new().with("resources", Json::Array(items)))
}

/// The content of a page.
pub open spec fn page_content(uri: Seq<char>, mime_type: Seq<char>, text: Seq<char>) -> Tree {
    Tree::Object(
        map![
            "uri"@ => Tree::Text(uri),
            "mimeType"@ => Tree::Text(mime_type),
            "text"@ => Tree::Text(text),
        ],
    )
}

/// A page as it is read.
pub open spec fn read_result(uri: Seq<char>, mime_type: Seq<char>, text: Seq<char>) -> Tree {
    Tree::Object(
        map!["contents"@ => Tree::Array(seq![page_content(uri, mime_type, text)])],
    )
}

fn page(uri: &str, mime_type: &str, text: &str) -> (out: Json)
    ensures
        out@ == read_result(uri@, mime_type@, text@),
{
    let content = Object::new().with_text("uri", uri).with_text("mimeType", mime_type).with_text(
        "text",
        text,
    );
    let contents = appended(Vec::new(), Json::Object(content));
    proof {
        assert(trees(contents@) =~= seq![page_content(uri@, mime_type@, text@)]);
    }
    Json::Object(Object::new().with("contents", Json::Array(contents)))
}

/// The text of the first page with this address.
pub open spec fn page_text(resources: Seq<ContentResource>, uri: Seq<char>) -> Option<Seq<char>>
    decreases resources.len(),
{
    if resources.len() == 0 {
        None
    } else if resources[0].uri@ == uri {
        Some(resources[0].text@)
    } else {
        page_text(resources.drop_first(), uri)
    }
}

/// An error of the server: its code and its message.
pub struct RpcError {
    pub code: i64,
    pub message: String,
}

/// An outcome: a result, or a code and a message.
pub open spec fn rpc_view(outcome: Result<Json, RpcError>) -> Result<Tree, (i64, Seq<char>)> {
    match outcome {
        Ok(value) => Ok(value@),
        Err(error) => Err((error.code, error.message@)),
    }
}

/// What reading a page gives.
pub open spec fn read_outcome(facts: McpFacts, request: Tree) -> Result<Tree, (i64, Seq<char>)> {
    match inner_text(request, "params"@, "uri"@) {
        None => Err((INVALID_PARAMS, "resources/read requires params.uri"@)),
        Some(uri) => if uri == home_uri(facts.plugin_id@) {
            match facts.home {
                Ok(html) => Ok(read_result(uri, "text/html;profile=mcp-app"@, html@)),
                Err(error) => Err((SERVER_ERROR, error@)),
            }
        } else {
            match facts.resources {
                Ok(resources) => match page_text(resources@, uri) {
                    Some(text) => Ok(read_result(uri, "text/markdown"@, text)),
                    None => Err((RESOURCE_NOT_FOUND, "resource not found: "@ + uri)),
                },
                Err(error) => Err((SERVER_ERROR, error@)),
            }
        },
    }
}

fn find_page(resources: &Vec<ContentResource>, uri: &str) -> (out: Option<String>)
    ensures
        match out {
            Some(text) => page_text(resources@, uri@) == Some(text@),
            None => page_text(resources@, uri@) is None,
        },
{
    let mut i: usize = 0;
    proof {
        assert(resources@.skip(0) =~= resources@);
    }
    while i < resources.len()
        invariant
            i <= resources@.len(),
            page_text(resources@, uri@) == page_text(resources@.skip(i as int), uri@),
        decreases resources@.len() - i,
    {
        proof {
            assert(resources@.skip(i as int).drop_first() =~= resources@.skip(i + 1));
        }
        if same(resources[i].uri.as_str(), uri) {
            return Some(resources[i].text.clone());
        }
        i = i + 1;
    }
    None
}

/// Reads a page.
pub fn read_resource(facts: &McpFacts, request: &Json) -> (out: Result<Json, RpcError>)
    ensures
        rpc_view(out) == read_outcome(*facts, request@),
{
    let uri = match request.inner_text("params", "uri") {
        Some(uri) => uri,
        None => {
            return Err(
                RpcError {
                    code: INVALID_PARAMS,
                    message: "resources/read requires params.uri".to_owned(),
                },
            );
        },
    };
    if same(uri, resource_uri(facts.plugin_id.as_str()).as_str()) {
        return match &facts.home {
            Ok(html) => Ok(page(uri, "text/html;profile=mcp-app", html.as_str())),
            Err(error) => Err(RpcError { code: SERVER_ERROR, message: error.clone() }),
        };
    }
    match &facts.resources {
        Ok(resources) => match find_page(resources, uri) {
            Some(text) => Ok(page(uri, "text/markdown", text.as_str())),
            None => Err(
                RpcError {
                    code: RESOURCE_NOT_FOUND,
                    message: "resource not found: ".to_owned().concat(uri),
                },
            ),
        },
        Err(error) => Err(RpcError { code: SERVER_ERROR, message: error.clone() }),
    }
}

/// The answer to a request from its outcome.
pub open spec fn reply_of(id: Tree, outcome: Result<Tree, (i64, Seq<char>)>) -> Tree {
    match outcome {
        Ok(result) => rpc_result(id, result),
        Err((code, message)) => rpc_error(id, code, message),
    }
}

/// The answer to a request from its outcome.
pub fn reply(id: Json, outcome: Result<Json, RpcError>) -> (out: Json)
    ensures
        out@ == reply_of(id@, rpc_view(outcome)),
{
    match outcome {
        Ok(result) => result_reply(id, result),
        Err(error) => error_reply(id, error.code, error.message.as_str()),
    }
}

/// The call of a tool that a request asks for.
pub open spec fn call_step(id: Tree, request: Tree) -> McpStepView {
    match inner_text(request, "params"@, "name"@) {
        Some(name) => McpStepView::Call {
            id,
            name,
            arguments: match inner_field(request, "params"@, "arguments"@) {
                Some(arguments) => arguments,
                None => Tree::Object(Map::empty()),
            },
            progress_token: match inner_field(request, "params"@, "_meta"@) {
                Some(meta) => field(meta, "progressToken"@),
                None => None,
            },
        },
        None => McpStepView::Reply(
            rpc_error(id, INVALID_PARAMS, "tools/call requires params.name"@),
        ),
    }
}

fn call_mcp_tool(id: Json, request: &Json) -> (out: McpStep)
    ensures
        out@ == call_step(id@, request@),
{
    let name = match request.inner_text("params", "name") {
        Some(name) => name,
        None => {
            return McpStep::Reply(
                error_reply(id, INVALID_PARAMS, "tools/call requires params.name"),
            );
        },
    };
    let arguments = match request.inner_field("params", "arguments") {
        Some(arguments) => arguments.copy(),
        None => Json::Object(Object::new()),
    };
    let progress_token = match request.inner_field("params", "_meta") {
        Some(meta) => match meta.get("progressToken") {
            Some(token) => Some(token.copy()),
            None => None,
        },
        None => None,
    };
    McpStep::Call { id, name: name.to_owned(), arguments, progress_token }
}

/// What the server does about a request.
pub open spec fn request_step(facts: McpFacts, request: Tree) -> McpStepView {
    match text_field(request, "method"@) {
        None => McpStepView::Reply(
            rpc_error(
                match field(request, "id"@) {
                    Some(id) => id,
                    None => Tree::Null,
                },
                INVALID_REQUEST,
                "invalid request"@,
            ),
        ),
        Some(method) => match field(request, "id"@) {
            None => McpStepView::Ignore,
            Some(id) => if method == "initialize"@ {
                McpStepView::Reply(rpc_result(id, initialize_result(facts)))
            } else if method == "ping"@ {
                McpStepView::Reply(rpc_result(id, Tree::Object(Map::empty())))
            } else if method == "tools/list"@ {
                McpStepView::Reply(
                    rpc_result(id, tools_result(trees(facts.tools@), facts.plugin_id@)),
                )
            } else if method == "tools/call"@ {
                call_step(id, request)
            } else if method == "resources/list"@ {
                match facts.resources {
                    Ok(resources) => McpStepView::Reply(
                        rpc_result(id, resources_result(facts, resources@)),
                    ),
                    Err(error) => McpStepView::Abort(error@),
                }
            } else if method == "resources/read"@ {
                McpStepView::Reply(reply_of(id, read_outcome(facts, request)))
            } else {
                McpStepView::Reply(
                    rpc_error(id, METHOD_NOT_FOUND, "method not found: "@ + method),
                )
            },
        },
    }
}

/// Decides about a request.
pub fn handle_request(facts: &McpFacts, request: &Json) -> (out: McpStep)
    ensures
        out@ == request_step(*facts, request@),
{
    let method = match request.text_field("method") {
        Some(method) => method,
        None => {
            return McpStep::Reply(
                error_reply(request.field_or_null("id"), INVALID_REQUEST, "invalid request"),
            );
        },
    };
    let id = match request.get("id") {
        Some(id) => id.copy(),
        None => {
            return McpStep::Ignore;
        },
    };
    if same(method, "initialize") {
        McpStep::Reply(result_reply(id, initialize(facts)))
    } else if same(method, "ping") {
        McpStep::Reply(result_reply(id, Json::Object(Object::new())))
    } else if same(method, "tools/list") {
        McpStep::Reply(result_reply(id, list_tools(facts)))
    } else if same(method, "tools/call") {
        call_mcp_tool(id, request)
    } else if same(method, "resources/list") {
        match &facts.resources {
            Ok(resources) => McpStep::Reply(result_reply(id, list_resources(facts, resources))),
            Err(error) => McpStep::Abort(error.clone()),
        }
    } else if same(method, "resources/read") {
        McpStep::Reply(reply(id, read_resource(facts, request)))
    } else {
        McpStep::Reply(
            error_reply(
                id,
                METHOD_NOT_FOUND,
                "method not found: ".to_owned().concat(method).as_str(),
            ),
        )
    }
}

/// What the server does about a line that was read as JSON or was not.
pub open spec fn line_step(facts: McpFacts, parsed: Result<Tree, Seq<char>>) -> McpStepView {
    match parsed {
        Ok(request) => request_step(facts, request),
        Err(error) => McpStepView::Reply(rpc_error(Tree::Null, PARSE_ERROR, error)),
    }
}

/// Decides about a line.
pub fn serve_mcp(facts: &McpFacts, line: &str) -> (out: McpStep)
    ensures
        out@ == line_step(*facts, json_parse(line@)),
{
    match parse(line) {
        Ok(request) => handle_request(facts, &request),
        Err(error) => McpStep::Reply(error_reply(Json::Null, PARSE_ERROR, error.as_str())),
    }
}

/// The text of a line that the server writes.
pub fn json_line(value: &Json) -> (out: String)
    ensures
        out@ == json_compact(value@) + "\n"@,
{
    compact(value).concat("\n")
}

/// How far a call of a tool has come.
#[derive(Debug, PartialEq, Eq)]
pub struct Progress {
    pub progress: Json,
    pub total: Json,
    pub message: Json,
}

/// The notice about how far a call has come.
pub open spec fn progress_notice(token: Tree, progress: Progress) -> Tree {
    Tree::Object(
        map![
            "jsonrpc"@ => Tree::Text("2.0"@),
            "method"@ => Tree::Text("notifications/progress"@),
            "params"@ => Tree::Object(
                map![
                    "progressToken"@ => token,
                    "progress"@ => progress.progress@,
                    "total"@ => progress.total@,
                    "message"@ => progress.message@,
                ],
            ),
        ],
    )
}

/// The notices about how far a call has come; without a token there are none.
pub open spec fn progress_notices(token: Option<Tree>, progress: Seq<Progress>) -> Seq<Tree> {
    match token {
        Some(token) => Seq::new(progress.len(), |i: int| progress_notice(token, progress[i])),
        None => Seq::empty(),
    }
}

/// The notices about how far a call has come.
pub fn progress_lines(token: &Option<Json>, progress: &Vec<Progress>) -> (out: Vec<Json>)
    ensures
        trees(out@) == progress_notices(opt_tree(*token), progress@),
{
    let mut out: Vec<Json> = Vec::new();
    match token {
        Some(token) => {
            let mut i: usize = 0;
            while i < progress.len()
                invariant
                    i <= progress@.len(),
                    trees(out@) =~= Seq::new(
                        i as nat,
                        |j: int| progress_notice(token@, progress@[j]),
                    ),
                decreases progress@.len() - i,
            {
                let item = &progress[i];
                let params = Object::new().with("progressToken", token.copy()).with(
                    "progress",
                    item.progress.copy(),
                ).with("total", item.total.copy()).with("message", item.message.copy());
                let notice = Object::new().with_text("jsonrpc", "2.0").with_text(
                    "method",
                    "notifications/progress",
                ).with("params", Json::Object(params));
                out = appended(out, Json::Object(notice));
                i = i + 1;
            }
        },
        None => {
            proof {
                assert(trees(out@) =~= Seq::<Tree>::empty());
            }
        },
    }
    out
}

/// How calling a tool went: refused by the tool, not delivered or not stored by the host, or done.
#[derive(Debug, PartialEq, Eq)]
pub enum CallOutcome {
    Refused(String),
    HostFailed(String),
    Done(Json),
}

/// The outcome of a call.
pub open spec fn call_result(outcome: CallOutcome) -> Result<Tree, (i64, Seq<char>)> {
    match outcome {
        CallOutcome::Refused(error) => Err((INVALID_PARAMS, error@)),
        CallOutcome::HostFailed(error) => Err((SERVER_ERROR, error@)),
        CallOutcome::Done(result) => Ok(result@),
    }
}

/// Answers a call from how it went.
pub fn finish_call(id: Json, outcome: CallOutcome) -> (out: Json)
    ensures
        out@ == reply_of(id@, call_result(outcome)),
{
    match outcome {
        CallOutcome::Refused(error) => error_reply(id, INVALID_PARAMS, error.as_str()),
        CallOutcome::HostFailed(error) => error_reply(id, SERVER_ERROR, error.as_str()),
        CallOutcome::Done(result) => result_reply(id, result),
    }
}

/// A request that is answered at all is answered under its own identifier, and a notification is
/// never answered.
pub proof fn lemma_answers_carry_the_id(facts: McpFacts, request: Tree)
    ensures
        ({
            let step = request_step(facts, request);
            let id = match field(request, "id"@) {
                Some(id) => id,
                None => Tree::Null,
            };
            &&& step matches McpStepView::Reply(answer) ==> field(answer, "id"@) == Some(id)
            &&& step matches McpStepView::Call { id: asked, .. } ==> asked == id
            &&& text_field(request, "method"@) is Some && field(request, "id"@) is None ==> step
                == McpStepView::Ignore
        }),
{
    reveal_strlit("jsonrpc");
    reveal_strlit("id");
    reveal_strlit("result");
    reveal_strlit("error");
    assert("jsonrpc"@.len() == 7 && "id"@.len() == 2 && "result"@.len() == 6 && "error"@.len() == 5);
}

/// A request for a method, under an identifier.
pub open spec fn asks_for(request: Tree, method: Seq<char>, id: Tree) -> bool {
    text_field(request, "method"@) == Some(method) && field(request, "id"@) == Some(id)
}

proof fn lemma_methods_differ()
    ensures
        "initialize"@.len() == 10,
        "ping"@.len() == 4,
        "tools/list"@.len() == 10,
        "tools/call"@.len() == 10,
        "resources/list"@.len() == 14,
        "resources/read"@.len() == 14,
        "initialize"@[0] == 'i',
        "tools/list"@[0] == 't',
        "tools/call"@[0] == 't',
        "tools/list"@[6] == 'l',
        "tools/call"@[6] == 'c',
        "resources/list"@[10] == 'l',
        "resources/read"@[10] == 'r',
{
    reveal_strlit("initialize");
    reveal_strlit("ping");
    reveal_strlit("tools/list");
    reveal_strlit("tools/call");
    reveal_strlit("resources/list");
    reveal_strlit("resources/read");
}

proof fn lemma_answer_parts(id: Tree, result: Tree, code: i64, message: Seq<char>)
    ensures
        field(rpc_result(id, result), "id"@) == Some(id),
        field(rpc_result(id, result), "result"@) == Some(result),
        field(rpc_result(id, result), "error"@) is None,
        text_field(rpc_result(id, result), "jsonrpc"@) == Some("2.0"@),
        field(rpc_error(id, code, message), "id"@) == Some(id),
        field(rpc_error(id, code, message), "result"@) is None,
        inner_field(rpc_error(id, code, message), "error"@, "code"@) == Some(Tree::Int(code as int)),
        inner_text(rpc_error(id, code, message), "error"@, "message"@) == Some(message),
        text_field(rpc_error(id, code, message), "jsonrpc"@) == Some("2.0"@),
{
    reveal_strlit("jsonrpc");
    reveal_strlit("id");
    reveal_strlit("result");
    reveal_strlit("error");
    reveal_strlit("code");
    reveal_strlit("message");
    assert("jsonrpc"@.len() == 7 && "id"@.len() == 2 && "result"@.len() == 6 && "error"@.len() == 5
        && "code"@.len() == 4 && "message"@.len() == 7);
    let fields = rpc_error(id, code, message)->Object_0;
    let inner = fields["error"@]->Object_0;
    assert(inner["message"@] == Tree::Text(message));
    assert(inner["code"@] == Tree::Int(code as int));
}

/// A call of a tool reaches the tool as it was asked for: the same name, and the same arguments
/// whatever they are. Only where there are none is the tool called with an empty object. Its
/// progress is told where the request says under which token.
pub proof fn lemma_tool_is_called_as_asked(facts: McpFacts, request: Tree, id: Tree, name: Seq<char>)
    requires
        asks_for(request, "tools/call"@, id),
        inner_text(request, "params"@, "name"@) == Some(name),
    ensures
        request_step(facts, request) matches McpStepView::Call {
            id: asked,
            name: called,
            arguments,
            progress_token,
        } && {
            &&& asked == id
            &&& called == name
            &&& inner_field(request, "params"@, "arguments"@) matches Some(given) ==> arguments
                == given
            &&& inner_field(request, "params"@, "arguments"@) is None ==> arguments == Tree::Object(
                Map::empty(),
            )
            &&& inner_field(request, "params"@, "_meta"@) matches Some(meta) ==> progress_token
                == field(meta, "progressToken"@)
            &&& inner_field(request, "params"@, "_meta"@) is None ==> progress_token is None
        },
{
    lemma_methods_differ();
}

/// A call that names no tool is answered with an error about its parameters.
pub proof fn lemma_nameless_call_is_refused(facts: McpFacts, request: Tree, id: Tree)
    requires
        asks_for(request, "tools/call"@, id),
        inner_text(request, "params"@, "name"@) is None,
    ensures
        request_step(facts, request) matches McpStepView::Reply(
            answer,
        ) && {
            &&& field(answer, "id"@) == Some(id)
            &&& inner_field(answer, "error"@, "code"@) == Some(Tree::Int(-32602))
            &&& inner_text(answer, "error"@, "message"@) == Some("tools/call requires params.name"@)
        },
{
    lemma_methods_differ();
    lemma_answer_parts(id, Tree::Null, INVALID_PARAMS, "tools/call requires params.name"@);
}

/// What a tool gave is the result of its call. A call that the tool refused and one that the host
/// could not serve are errors, each with its own code and the reason.
pub proof fn lemma_call_is_answered_with_its_outcome(id: Tree, outcome: CallOutcome)
    ensures
        ({
            let answer = reply_of(id, call_result(outcome));
            &&& field(answer, "id"@) == Some(id)
            &&& outcome matches CallOutcome::Done(result) ==> field(answer, "result"@) == Some(
                result@,
            ) && field(answer, "error"@) is None
            &&& outcome matches CallOutcome::Refused(error) ==> inner_field(
                answer,
                "error"@,
                "code"@,
            ) == Some(Tree::Int(-32602)) && inner_text(answer, "error"@, "message"@) == Some(error@)
            &&& outcome matches CallOutcome::HostFailed(error) ==> inner_field(
                answer,
                "error"@,
                "code"@,
            ) == Some(Tree::Int(-32000)) && inner_text(answer, "error"@, "message"@) == Some(error@)
        }),
{
    match outcome {
        CallOutcome::Done(result) => {
            lemma_answer_parts(id, result@, 0, Seq::empty());
        },
        CallOutcome::Refused(error) => {
            lemma_answer_parts(id, Tree::Null, INVALID_PARAMS, error@);
        },
        CallOutcome::HostFailed(error) => {
            lemma_answer_parts(id, Tree::Null, SERVER_ERROR, error@);
        },
    }
}

/// Every tool is listed, in its order, with every field that it has; the one that shows the home
/// page also says where that page is.
pub proof fn lemma_tools_are_listed(facts: McpFacts, request: Tree, id: Tree, i: int)
    requires
        asks_for(request, "tools/list"@, id),
        0 <= i < facts.tools@.len(),
    ensures
        request_step(facts, request) matches McpStepView::Reply(
            answer,
        ) && {
            let result = field(answer, "result"@);
            let tool = trees(facts.tools@)[i];
            &&& field(answer, "id"@) == Some(id)
            &&& result is Some
            &&& items_field(result->0, "tools"@) matches Some(listed)
            &&& listed.len() == facts.tools@.len()
            &&& text_field(tool, "name"@) != Some("home"@) ==> listed[i] == tool
            &&& text_field(tool, "name"@) == Some("home"@) ==> inner_text(
                listed[i],
                "_meta"@,
                "ui/resourceUri"@,
            ) == Some("ui://fabushi/"@ + facts.plugin_id@ + "/home-v1.html"@)
            &&& forall|name: Seq<char>|
                name != "_meta"@ ==> #[trigger] field(listed[i], name) == field(tool, name)
        },
{
    lemma_methods_differ();
    let result = tools_result(trees(facts.tools@), facts.plugin_id@);
    lemma_answer_parts(id, result, 0, Seq::empty());
    assert(trees(facts.tools@).len() == facts.tools@.len());
    assert(result->Object_0["tools"@] is Array);
}

/// Every page is listed, the home page first and then the content in its order, and every listed
/// address can be read: the home page gives the page, and content gives the text of the first page
/// with the address.
pub proof fn lemma_listed_pages_can_be_read(
    facts: McpFacts,
    resources: Vec<ContentResource>,
    listing: Tree,
    reading: Tree,
    id: Tree,
    i: int,
)
    requires
        asks_for(listing, "resources/list"@, id),
        asks_for(reading, "resources/read"@, id),
        facts.resources == Ok::<Vec<ContentResource>, String>(resources),
        0 <= i < resources@.len(),
        resources@[i].uri@ != "ui://fabushi/"@ + facts.plugin_id@ + "/home-v1.html"@,
        forall|j: int| 0 <= j < i ==> (#[trigger] resources@[j]).uri@ != resources@[i].uri@,
        inner_text(reading, "params"@, "uri"@) == Some(resources@[i].uri@),
    ensures
        request_step(facts, listing) matches McpStepView::Reply(
            answer,
        ) && {
            &&& field(answer, "id"@) == Some(id)
            &&& field(answer, "result"@) matches Some(result)
            &&& items_field(result, "resources"@) matches Some(listed)
            &&& listed.len() == resources@.len() + 1
            &&& text_field(listed[0], "uri"@) == Some(
                "ui://fabushi/"@ + facts.plugin_id@ + "/home-v1.html"@,
            )
            &&& text_field(listed[0], "name"@) == Some(facts.title@ + "首页"@)
            &&& text_field(listed[i + 1], "uri"@) == Some(resources@[i].uri@)
            &&& text_field(listed[i + 1], "mimeType"@) == Some("text/markdown"@)
        },
        request_step(facts, reading) matches McpStepView::Reply(
            answer,
        ) && {
            &&& field(answer, "id"@) == Some(id)
            &&& field(answer, "result"@) matches Some(result)
            &&& items_field(result, "contents"@) matches Some(contents)
            &&& contents.len() == 1
            &&& text_field(contents[0], "uri"@) == Some(resources@[i].uri@)
            &&& text_field(contents[0], "mimeType"@) == Some("text/markdown"@)
            &&& text_field(contents[0], "text"@) == Some(resources@[i].text@)
        },
{
    lemma_methods_differ();
    reveal_strlit("uri");
    reveal_strlit("name");
    reveal_strlit("mimeType");
    reveal_strlit("text");
    assert("uri"@.len() == 3 && "name"@.len() == 4 && "mimeType"@.len() == 8 && "text"@.len() == 4);
    assert("text"@[0] != "name"@[0]);
    lemma_answer_parts(id, resources_result(facts, resources@), 0, Seq::empty());
    let uri = resources@[i].uri@;
    lemma_first_page(resources@, i);
    lemma_answer_parts(
        id,
        read_result(uri, "text/markdown"@, resources@[i].text@),
        0,
        Seq::empty(),
    );
    let listed = seq![listed_home(facts)] + Seq::new(
        resources@.len(),
        |k: int| listed_resource(resources@[k]),
    );
    assert(resources_result(facts, resources@)->Object_0["resources"@] == Tree::Array(listed));
    assert(listed[i + 1] == listed_resource(resources@[i]));
    assert(listed[0] == listed_home(facts));
}

proof fn lemma_first_page(resources: Seq<ContentResource>, i: int)
    requires
        0 <= i < resources.len(),
        forall|j: int| 0 <= j < i ==> (#[trigger] resources[j]).uri@ != resources[i].uri@,
    ensures
        page_text(resources, resources[i].uri@) == Some(resources[i].text@),
    decreases i,
{
    if i > 0 {
        assert(resources[0].uri@ != resources[i].uri@);
        let rest = resources.drop_first();
        assert(rest[i - 1] == resources[i]);
        assert forall|j: int| 0 <= j < i - 1 implies (#[trigger] rest[j]).uri@ != rest[i
            - 1].uri@ by {
            assert(resources[j + 1].uri@ != resources[i].uri@);
        }
        lemma_first_page(rest, i - 1);
    }
}

proof fn lemma_no_page(resources: Seq<ContentResource>, uri: Seq<char>)
    requires
        forall|j: int| 0 <= j < resources.len() ==> (#[trigger] resources[j]).uri@ != uri,
    ensures
        page_text(resources, uri) is None,
    decreases resources.len(),
{
    if resources.len() > 0 {
        assert(resources[0].uri@ != uri);
        let rest = resources.drop_first();
        assert forall|j: int| 0 <= j < rest.len() implies (#[trigger] rest[j]).uri@ != uri by {
            assert(resources[j + 1].uri@ != uri);
        }
        lemma_no_page(rest, uri);
    }
}

/// The home page is read under its address; an address that no page has is not found; and reading
/// needs an address.
pub proof fn lemma_reading_other_pages(
    facts: McpFacts,
    html: String,
    resources: Vec<ContentResource>,
    request: Tree,
    id: Tree,
)
    requires
        asks_for(request, "resources/read"@, id),
        facts.home == Ok::<String, String>(html),
        facts.resources == Ok::<Vec<ContentResource>, String>(resources),
    ensures
        ({
            let home = "ui://fabushi/"@ + facts.plugin_id@ + "/home-v1.html"@;
            let uri = inner_text(request, "params"@, "uri"@);
            let step = request_step(facts, request);
            &&& step matches McpStepView::Reply(answer) && field(answer, "id"@) == Some(id)
            &&& uri == Some(home) ==> {
                &&& field(step->Reply_0, "result"@) matches Some(result)
                &&& items_field(result, "contents"@) matches Some(contents)
                &&& contents.len() == 1
                &&& text_field(contents[0], "uri"@) == Some(home)
                &&& text_field(contents[0], "mimeType"@) == Some("text/html;profile=mcp-app"@)
                &&& text_field(contents[0], "text"@) == Some(html@)
            }
            &&& uri is None ==> inner_field(step->Reply_0, "error"@, "code"@) == Some(
                Tree::Int(-32602),
            )
            &&& (uri is Some && uri != Some(home) && forall|j: int|
                0 <= j < resources@.len() ==> (#[trigger] resources@[j]).uri@ != uri->0) ==> {
                &&& inner_field(step->Reply_0, "error"@, "code"@) == Some(Tree::Int(-32002))
                &&& inner_text(step->Reply_0, "error"@, "message"@) == Some(
                    "resource not found: "@ + uri->0,
                )
            }
        }),
{
    lemma_methods_differ();
    reveal_strlit("uri");
    reveal_strlit("mimeType");
    reveal_strlit("text");
    assert("uri"@.len() == 3 && "mimeType"@.len() == 8 && "text"@.len() == 4);
    let home = "ui://fabushi/"@ + facts.plugin_id@ + "/home-v1.html"@;
    lemma_answer_parts(
        id,
        read_result(home, "text/html;profile=mcp-app"@, html@),
        INVALID_PARAMS,
        "resources/read requires params.uri"@,
    );
    match inner_text(request, "params"@, "uri"@) {
        Some(uri) => {
            lemma_answer_parts(
                id,
                match page_text(resources@, uri) {
                    Some(text) => read_result(uri, "text/markdown"@, text),
                    None => Tree::Null,
                },
                RESOURCE_NOT_FOUND,
                "resource not found: "@ + uri,
            );
            if forall|j: int| 0 <= j < resources@.len() ==> (#[trigger] resources@[j]).uri@ != uri {
                lemma_no_page(resources@, uri);
            }
        },
        None => {},
    }
}

/// The server introduces itself with the version of the protocol that it was given, under the name
/// of its plugin; a ping is answered with nothing; and a method that there is not is refused by
/// name.
pub proof fn lemma_other_methods(facts: McpFacts, request: Tree, method: Seq<char>, id: Tree)
    requires
        asks_for(request, method, id),
        method != "tools/list"@,
        method != "tools/call"@,
        method != "resources/list"@,
        method != "resources/read"@,
    ensures
        method == "initialize"@ ==> (request_step(facts, request) matches McpStepView::Reply(
            answer,
        ) && {
            &&& field(answer, "id"@) == Some(id)
            &&& inner_text(answer, "result"@, "protocolVersion"@) == Some(facts.protocol_version@)
            &&& inner_field(answer, "result"@, "serverInfo"@) matches Some(info)
            &&& text_field(info, "name"@) == Some("fabushi-"@ + facts.plugin_id@)
            &&& text_field(info, "version"@) == Some(facts.version@)
            &&& inner_field(answer, "result"@, "capabilities"@) matches Some(can)
            &&& field(can, "tools"@) is Some
            &&& field(can, "resources"@) is Some
        }),
        method == "ping"@ ==> (request_step(facts, request) matches McpStepView::Reply(answer)
            && field(answer, "id"@) == Some(id) && field(answer, "result"@) == Some(
            Tree::Object(Map::empty()),
        )),
        method != "initialize"@ && method != "ping"@ ==> (request_step(
            facts,
            request,
        ) matches McpStepView::Reply(answer) && field(answer, "id"@) == Some(id) && inner_field(
            answer,
            "error"@,
            "code"@,
        ) == Some(Tree::Int(-32601)) && inner_text(answer, "error"@, "message"@) == Some(
            "method not found: "@ + method,
        )),
{
    lemma_methods_differ();
    lemma_answer_parts(
        id,
        initialize_result(facts),
        METHOD_NOT_FOUND,
        "method not found: "@ + method,
    );
    lemma_answer_parts(id, Tree::Object(Map::empty()), 0, Seq::empty());
    reveal_strlit("protocolVersion");
    reveal_strlit("capabilities");
    reveal_strlit("serverInfo");
    reveal_strlit("name");
    reveal_strlit("version");
    reveal_strlit("tools");
    reveal_strlit("resources");
    assert("protocolVersion"@.len() == 15 && "capabilities"@.len() == 12 && "serverInfo"@.len()
        == 10 && "name"@.len() == 4 && "version"@.len() == 7 && "tools"@.len() == 5
        && "resources"@.len() == 9);
    let fields = initialize_result(facts)->Object_0;
    assert(fields["protocolVersion"@] == Tree::Text(facts.protocol_version@));
    let info = fields["serverInfo"@]->Object_0;
    assert(info["name"@] == Tree::Text("fabushi-"@ + facts.plugin_id@));
    assert(info["version"@] == Tree::Text(facts.version@));
    let can = fields["capabilities"@]->Object_0;
    assert(can.contains_key("tools"@) && can.contains_key("resources"@));
}

/// A line that is not JSON is answered without an identifier, and with the reason; a request that
/// names no method is invalid.
pub proof fn lemma_bad_lines_are_answered(facts: McpFacts, error: Seq<char>, request: Tree)
    requires
        text_field(request, "method"@) is None,
    ensures
        line_step(facts, Err(error)) matches McpStepView::Reply(answer) && field(answer, "id"@)
            == Some(Tree::Null) && inner_field(answer, "error"@, "code"@) == Some(Tree::Int(-32700))
            && inner_text(answer, "error"@, "message"@) == Some(error),
        line_step(facts, Ok(request)) matches McpStepView::Reply(answer) && inner_field(
            answer,
            "error"@,
            "code"@,
        ) == Some(Tree::Int(-32600)) && inner_text(answer, "error"@, "message"@) == Some(
            "invalid request"@,
        ),
{
    lemma_answer_parts(Tree::Null, Tree::Null, PARSE_ERROR, error);
    lemma_answer_parts(
        match field(request, "id"@) {
            Some(id) => id,
            None => Tree::Null,
        },
        Tree::Null,
        INVALID_REQUEST,
        "invalid request"@,
    );
}

/// Every step of a call is told, in its order, with what the tool said about it and under the
/// token of the request; without a token nothing is told.
pub proof fn lemma_progress_is_told(token: Tree, progress: Seq<Progress>, i: int)
    requires
        0 <= i < progress.len(),
    ensures
        progress_notices(None, progress).len() == 0,
        progress_notices(Some(token), progress).len() == progress.len(),
        ({
            let notice = progress_notices(Some(token), progress)[i];
            &&& text_field(notice, "method"@) == Some("notifications/progress"@)
            &&& field(notice, "id"@) is None
            &&& inner_field(notice, "params"@, "progressToken"@) == Some(token)
            &&& inner_field(notice, "params"@, "progress"@) == Some(progress[i].progress@)
            &&& inner_field(notice, "params"@, "total"@) == Some(progress[i].total@)
            &&& inner_field(notice, "params"@, "message"@) == Some(progress[i].message@)
        }),
{
    reveal_strlit("jsonrpc");
    reveal_strlit("method");
    reveal_strlit("params");
    reveal_strlit("id");
    reveal_strlit("progressToken");
    reveal_strlit("progress");
    reveal_strlit("total");
    reveal_strlit("message");
    assert("jsonrpc"@.len() == 7 && "method"@.len() == 6 && "params"@.len() == 6 && "id"@.len()
        == 2 && "progressToken"@.len() == 13 && "progress"@.len() == 8 && "total"@.len() == 5
        && "message"@.len() == 7);
    assert("method"@[0] != "params"@[0]);
    let notice = progress_notices(Some(token), progress)[i];
    assert(notice == progress_notice(token, progress[i]));
    let params = notice->Object_0["params"@]->Object_0;
    assert(params["progressToken"@] == token);
    assert(params["progress"@] == progress[i].progress@);
    assert(params["total"@] == progress[i].total@);
    assert(params["message"@] == progress[i].message@);
}

/// Every answer and every notice says which version of the protocol it is in, and an answer tells
/// either a result or an error.
pub proof fn lemma_answers_are_marked(
    facts: McpFacts,
    request: Tree,
    token: Tree,
    progress: Seq<Progress>,
    i: int,
)
    requires
        0 <= i < progress.len(),
    ensures
        request_step(facts, request) matches McpStepView::Reply(answer) ==> {
            &&& text_field(answer, "jsonrpc"@) == Some("2.0"@)
            &&& field(answer, "result"@) is Some <==> field(answer, "error"@) is None
        },
        text_field(progress_notices(Some(token), progress)[i], "jsonrpc"@) == Some("2.0"@),
{
    reveal_strlit("jsonrpc");
    reveal_strlit("id");
    reveal_strlit("result");
    reveal_strlit("error");
    reveal_strlit("method");
    reveal_strlit("params");
    assert("jsonrpc"@.len() == 7 && "id"@.len() == 2 && "result"@.len() == 6 && "error"@.len() == 5
        && "method"@.len() == 6 && "params"@.len() == 6);
}

} // verus!
