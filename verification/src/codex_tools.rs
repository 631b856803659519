//! Tools that the agent may call in the application: its contacts and its workspace.

use crate::json::{
    appended, field, text_field, trees, unsigned_of, Json, Object, Tree,
};
use crate::json_text::{compact, json_compact};
use crate::model::{Conversation, ConversationId};
use crate::order::{
    arrange, arranged, compare, is_arranged, lemma_precedes_asymmetric, lemma_precedes_total,
    lemma_precedes_transitive, precedes, Listed, Rank,
};
use crate::path::{
    components, has_only_names, inner_parts, lead, lies_under, only_names, path_pieces, under,
    PathStyle,
};
use crate::path_join::{is_settled, joined_path, lemma_joined_components, lemma_leads_down};
use crate::text::{
    blank, byte_len, bytes_within, is_blank, same, text_result, texts, trim, trimmed,
};
use crate::url_text::opt_view;
use vstd::prelude::*;
use vstd::string::*;

verus! {

/// A call of a tool.
#[derive(Debug, PartialEq, Eq)]
pub struct ToolCall {
    pub namespace: Option<String>,
    pub tool: String,
    pub arguments: Json,
}

/// What a tool answers: one text, and whether it succeeded.
pub ghost struct ResponseView {
    pub text: Seq<char>,
    pub success: bool,
}

/// What a tool answers: one text, and whether it succeeded.
#[derive(Debug, PartialEq, Eq)]
pub struct ToolResponse {
    pub text: String,
    pub success: bool,
}

impl View for ToolResponse {
    type V = ResponseView;

    open spec fn view(&self) -> ResponseView {
        ResponseView { text: self.text@, success: self.success }
    }
}

/// The most bytes that a tool answers with.
pub const RESPONSE_LIMIT: u32 = 32_000;

/// The most bytes of a workspace file.
pub const FILE_LIMIT: u32 = 524_288;

/// The most entries of a workspace listing.
pub const LISTING_LIMIT: usize = 200;

/// The answer of a tool that failed.
pub open spec fn error_response(message: Seq<char>) -> ResponseView {
    ResponseView {
        text: json_compact(Tree::Object(map!["error"@ => Tree::Text(message)])),
        success: false,
    }
}

/// The answer of a tool that succeeded with a text, unless it is too long.
pub open spec fn text_response(text: Seq<char>) -> ResponseView {
    if byte_len(text) <= RESPONSE_LIMIT {
        ResponseView { text, success: true }
    } else {
        error_response("会话数据超过单次 Codex 上下文上限，请缩小查询范围"@)
    }
}

/// Answers for a tool that failed.
pub fn dynamic_tool_error(message: &str) -> (out: ToolResponse)
    ensures
        out@ == error_response(message@),
{
    ToolResponse {
        text: compact(&Json::Object(Object::new().with_text("error", message))),
        success: false,
    }
}

/// Answers for a tool that succeeded with a text.
pub fn bounded_response(text: String) -> (out: ToolResponse)
    ensures
        out@ == text_response(text@),
{
    match bytes_within(text.as_str(), RESPONSE_LIMIT) {
        Some(_) => ToolResponse { text, success: true },
        None => dynamic_tool_error("会话数据超过单次 Codex 上下文上限，请缩小查询范围"),
    }
}

/// Answers for a tool that succeeded with a value.
pub fn dynamic_tool_success(value: &Json) -> (out: ToolResponse)
    ensures
        out@ == text_response(json_compact(value@)),
{
    bounded_response(compact(value))
}

/// The text in an argument, unless it is blank.
pub open spec fn required_argument(arguments: Tree, name: Seq<char>) -> Option<Seq<char>> {
    match text_field(arguments, name) {
        Some(t) => if is_blank(t) {
            None
        } else {
            Some(t)
        },
        None => None,
    }
}

/// The text in an argument, unless it is blank.
pub fn required_string_argument<'a>(arguments: &'a Json, name: &str) -> (out: Option<&'a str>)
    ensures
        match out {
            Some(t) => required_argument(arguments@, name@) == Some(t@),
            None => required_argument(arguments@, name@) is None,
        },
{
    match arguments.text_field(name) {
        Some(t) => if blank(t) {
            None
        } else {
            Some(t)
        },
        None => None,
    }
}

/// The path in the workspace that a text names, or why it names none: only ordinary names may lead
/// to it.
pub open spec fn workspace_path(style: PathStyle, raw: Seq<char>) -> Result<Seq<char>, Seq<char>> {
    if is_blank(raw) {
        Err("工作区路径不能为空"@)
    } else if !only_names(style, trimmed(raw)) {
        Err("工作区路径必须是安全的相对路径，不能包含 .、.. 或绝对路径"@)
    } else {
        Ok(trimmed(raw))
    }
}

/// The path in the workspace that a text names.
pub fn relative_workspace_path(style: PathStyle, raw: &str) -> (out: Result<String, String>)
    ensures
        text_result(out) == workspace_path(style, raw@),
{
    let path = trim(raw);
    if path.as_str().is_empty() {
        return Err("工作区路径不能为空".to_owned());
    }
    if !has_only_names(style, path.as_str()) {
        return Err(
            "工作区路径必须是安全的相对路径，不能包含 .、.. 或绝对路径".to_owned(),
        );
    }
    Ok(path)
}

/// A path that the workspace accepts stays below the directory that it is joined to: it adds only
/// ordinary names.
pub proof fn lemma_workspace_path_stays_inside(style: PathStyle, raw: Seq<char>, root: Seq<char>)
    requires
        workspace_path(style, raw) is Ok,
        root.len() > 0,
        is_settled(style, root),
    ensures
        ({
            let path = workspace_path(style, raw)->Ok_0;
            let whole = joined_path(style, root, path);
            &&& under(style, whole, root)
            &&& components(style, whole) == components(style, root) + components(style, path)
            &&& forall|i: int|
                components(style, root).len() <= i < components(style, whole).len() ==> (
                #[trigger] components(style, whole)[i]) is Name
        }),
{
    let path = workspace_path(style, raw)->Ok_0;
    let whole = joined_path(style, root, path);
    assert forall|i: int| 0 <= i < components(style, path).len() implies {
        let part = #[trigger] components(style, path)[i];
        part is Here || part is Name
    } by {}
    lemma_joined_components(style, root, path);
    lemma_leads_down(style, path);
    let inner = inner_parts(path_pieces(style, path), false);
    assert(lead(style, path).len() == 0) by {
        if lead(style, path).len() > 0 {
            assert(components(style, path)[0] == lead(style, path)[0]);
        }
    }
    assert(components(style, path) =~= inner);
    assert forall|i: int|
        components(style, root).len() <= i < components(style, whole).len() implies (
    #[trigger] components(style, whole)[i]) is Name by {
        assert(components(style, whole)[i] == components(style, path)[i - components(
            style,
            root,
        ).len()]);
    }
}

/// The directory of the workspace: its first root, or else the working directory.
pub open spec fn workspace_dir(roots: Seq<Seq<char>>, cwd: Seq<char>) -> Seq<char> {
    if roots.len() > 0 {
        roots[0]
    } else {
        cwd
    }
}

/// The directory of the workspace, before links are followed.
pub fn workspace_root(roots: &Vec<String>, cwd: &str) -> (out: String)
    ensures
        out@ == workspace_dir(texts(roots@), cwd@),
{
    if roots.len() > 0 {
        roots[0].clone()
    } else {
        cwd.to_owned()
    }
}

/// What is told where the workspace cannot be reached.
pub open spec fn unreachable_root(root: Seq<char>, error: Seq<char>) -> Seq<char> {
    "无法访问大乘工作区 "@ + root + "："@ + error
}

/// What is told where a workspace file cannot be reached.
pub open spec fn unreachable_file(relative: Seq<char>, error: Seq<char>) -> Seq<char> {
    "无法访问工作区文件 "@ + relative + "："@ + error
}

/// What is told where the directory of a new workspace file cannot be reached.
pub open spec fn unreachable_parent(relative: Seq<char>, error: Seq<char>) -> Seq<char> {
    "工作区父目录不存在 "@ + relative + "："@ + error
}

/// The workspace directory cannot be reached.
pub fn workspace_root_error(root: &str, error: &str) -> (out: String)
    ensures
        out@ == unreachable_root(root@, error@),
{
    "无法访问大乘工作区 ".to_owned().concat(root).concat("：").concat(error)
}

/// A workspace file cannot be reached.
pub fn workspace_file_error(relative: &str, error: &str) -> (out: String)
    ensures
        out@ == unreachable_file(relative@, error@),
{
    "无法访问工作区文件 ".to_owned().concat(relative).concat("：").concat(error)
}

/// The directory of a new workspace file cannot be reached.
pub fn workspace_parent_error(relative: &str, error: &str) -> (out: String)
    ensures
        out@ == unreachable_parent(relative@, error@),
{
    "工作区父目录不存在 ".to_owned().concat(relative).concat("：").concat(error)
}

/// How the place of a workspace file is found.
#[derive(Debug, Clone, Copy, PartialEq, Eq, Structural)]
pub enum WorkspaceStep {
    /// The file itself, with its links followed.
    ResolveFile,
    /// The directory of a file that is not there yet, with its links followed.
    ResolveParent,
    /// Writing would follow a link to a place that nothing has checked.
    Refuse,
}

/// How the place of a workspace file is found.
pub open spec fn step_for(must_exist: bool, present: bool, is_link: bool) -> WorkspaceStep {
    if must_exist || present {
        WorkspaceStep::ResolveFile
    } else if is_link {
        WorkspaceStep::Refuse
    } else {
        WorkspaceStep::ResolveParent
    }
}

/// Decides how the place of a workspace file is found. `present` says whether anything is there once
/// links are followed, `is_link` whether a link is there.
pub fn workspace_step(must_exist: bool, present: bool, is_link: bool) -> (out: WorkspaceStep)
    ensures
        out == step_for(must_exist, present, is_link),
{
    if must_exist || present {
        WorkspaceStep::ResolveFile
    } else if is_link {
        WorkspaceStep::Refuse
    } else {
        WorkspaceStep::ResolveParent
    }
}

/// A path leads out of the workspace.
pub fn outside_error() -> (out: String)
    ensures
        out@ == "工作区路径越过了应用沙箱边界"@,
{
    "工作区路径越过了应用沙箱边界".to_owned()
}

/// Checks that a path, with its links followed, is in the workspace.
pub fn check_workspace_path(style: PathStyle, root: &str, path: &str) -> (out: Result<(), String>)
    ensures
        match out {
            Ok(_) => under(style, path@, root@),
            Err(message) => !under(style, path@, root@) && message@
                == "工作区路径越过了应用沙箱边界"@,
        },
{
    if lies_under(style, path, root) {
        Ok(())
    } else {
        Err(outside_error())
    }
}

/// Why a file is not read.
pub open spec fn file_fault(is_file: bool, len: u64) -> Option<Seq<char>> {
    if !is_file {
        Some("目标不是普通文件"@)
    } else if len > FILE_LIMIT {
        Some("单个工作区文本文件不能超过 512 KiB"@)
    } else {
        None
    }
}

/// Checks that a file can be read as a whole.
pub fn check_readable(is_file: bool, len: u64) -> (out: Result<(), String>)
    ensures
        match out {
            Ok(_) => file_fault(is_file, len) is None,
            Err(message) => file_fault(is_file, len) == Some(message@),
        },
{
    if !is_file {
        Err("目标不是普通文件".to_owned())
    } else if len > FILE_LIMIT as u64 {
        Err("单个工作区文本文件不能超过 512 KiB".to_owned())
    } else {
        Ok(())
    }
}

/// What running a tool takes.
pub ghost enum StepView {
    Reply(ResponseView),
    ListConversations,
    History { conversation_id: Seq<char>, limit: u32 },
    ReadFile { path: Seq<char> },
    WriteFile { path: Seq<char>, contents: Seq<char>, bytes: nat },
    ListFiles,
}

/// What running a tool takes: the answer right away, or work of the host and then the function
/// that turns its outcome into the answer.
#[derive(Debug, PartialEq, Eq)]
pub enum ToolStep {
    Reply(ToolResponse),
    ListConversations,
    History { conversation_id: ConversationId, limit: u32 },
    ReadFile { path: String },
    WriteFile { path: String, contents: String, bytes: u32 },
    ListFiles,
}

impl View for ToolStep {
    type V = StepView;

    open spec fn view(&self) -> StepView {
        match self {
            ToolStep::Reply(response) => StepView::Reply(response@),
            ToolStep::ListConversations => StepView::ListConversations,
            ToolStep::History { conversation_id, limit } => StepView::History {
                conversation_id: conversation_id@,
                limit: *limit,
            },
            ToolStep::ReadFile { path } => StepView::ReadFile { path: path@ },
            ToolStep::WriteFile { path, contents, bytes } => StepView::WriteFile {
                path: path@,
                contents: contents@,
                bytes: *bytes as nat,
            },
            ToolStep::ListFiles => StepView::ListFiles,
        }
    }
}

/// The number of messages that is asked for: fifty if not given, and from one to a hundred.
pub open spec fn history_limit(arguments: Tree) -> u32 {
    let asked = match field(arguments, "limit"@) {
        Some(value) => match unsigned_of(value) {
            Some(n) => n,
            None => 50,
        },
        None => 50,
    };
    if asked < 1 {
        1
    } else if asked > 100 {
        100
    } else {
        asked as u32
    }
}

/// What a call of a tool takes.
pub open spec fn tool_step(
    style: PathStyle,
    namespace: Option<Seq<char>>,
    tool: Seq<char>,
    arguments: Tree,
) -> StepView {
    if namespace != Some("mahayana"@) {
        StepView::Reply(error_response("不支持的工具命名空间"@))
    } else if tool == "list_conversations"@ {
        StepView::ListConversations
    } else if tool == "conversation_history"@ {
        match required_argument(arguments, "conversationId"@) {
            Some(id) => StepView::History { conversation_id: id, limit: history_limit(arguments) },
            None => StepView::Reply(error_response("conversationId 不能为空"@)),
        }
    } else if tool == "read_workspace_file"@ {
        match required_argument(arguments, "path"@) {
            Some(raw) => match workspace_path(style, raw) {
                Ok(path) => StepView::ReadFile { path },
                Err(message) => StepView::Reply(error_response(message)),
            },
            None => StepView::Reply(error_response("path 不能为空"@)),
        }
    } else if tool == "write_workspace_file"@ {
        match (required_argument(arguments, "path"@), text_field(arguments, "contents"@)) {
            (Some(raw), Some(contents)) => if byte_len(contents) > FILE_LIMIT {
                StepView::Reply(error_response("单个工作区文本文件不能超过 512 KiB"@))
            } else {
                match workspace_path(style, raw) {
                    Ok(path) => StepView::WriteFile { path, contents, bytes: byte_len(contents) },
                    Err(message) => StepView::Reply(error_response(message)),
                }
            },
            (None, _) => StepView::Reply(error_response("path 不能为空"@)),
            (Some(_), None) => StepView::Reply(error_response("contents 必须是字符串"@)),
        }
    } else if tool == "list_workspace_files"@ {
        StepView::ListFiles
    } else {
        StepView::Reply(error_response("不支持的大乘工具"@))
    }
}

fn refuse(message: &str) -> (out: ToolStep)
    ensures
        out@ == StepView::Reply(error_response(message@)),
{
    ToolStep::Reply(dynamic_tool_error(message))
}

fn plan_history(arguments: &Json) -> (out: ToolStep)
    ensures
        out@ == match required_argument(arguments@, "conversationId"@) {
            Some(id) => StepView::History { conversation_id: id, limit: history_limit(arguments@) },
            None => StepView::Reply(error_response("conversationId 不能为空"@)),
        },
{
    match required_string_argument(arguments, "conversationId") {
        Some(id) => {
            let asked: u64 = match arguments.get("limit") {
                Some(value) => match value.as_unsigned() {
                    Some(n) => n,
                    None => 50,
                },
                None => 50,
            };
            let limit: u32 = if asked < 1 {
                1
            } else if asked > 100 {
                100
            } else {
                asked as u32
            };
            ToolStep::History { conversation_id: ConversationId(id.to_owned()), limit }
        },
        None => refuse("conversationId 不能为空"),
    }
}

fn plan_read(style: PathStyle, arguments: &Json) -> (out: ToolStep)
    ensures
        out@ == match required_argument(arguments@, "path"@) {
            Some(raw) => match workspace_path(style, raw) {
                Ok(path) => StepView::ReadFile { path },
                Err(message) => StepView::Reply(error_response(message)),
            },
            None => StepView::Reply(error_response("path 不能为空"@)),
        },
{
    match required_string_argument(arguments, "path") {
        Some(raw) => match relative_workspace_path(style, raw) {
            Ok(path) => ToolStep::ReadFile { path },
            Err(message) => refuse(message.as_str()),
        },
        None => refuse("path 不能为空"),
    }
}

fn plan_write(style: PathStyle, arguments: &Json) -> (out: ToolStep)
    ensures
        out@ == match (required_argument(arguments@, "path"@), text_field(
            arguments@,
            "contents"@,
        )) {
            (Some(raw), Some(contents)) => if byte_len(contents) > FILE_LIMIT {
                StepView::Reply(error_response("单个工作区文本文件不能超过 512 KiB"@))
            } else {
                match workspace_path(style, raw) {
                    Ok(path) => StepView::WriteFile { path, contents, bytes: byte_len(contents) },
                    Err(message) => StepView::Reply(error_response(message)),
                }
            },
            (None, _) => StepView::Reply(error_response("path 不能为空"@)),
            (Some(_), None) => StepView::Reply(error_response("contents 必须是字符串"@)),
        },
{
    let raw = match required_string_argument(arguments, "path") {
        Some(raw) => raw,
        None => {
            return refuse("path 不能为空");
        },
    };
    let contents = match arguments.text_field("contents") {
        Some(contents) => contents,
        None => {
            return refuse("contents 必须是字符串");
        },
    };
    match bytes_within(contents, FILE_LIMIT) {
        Some(bytes) => match relative_workspace_path(style, raw) {
            Ok(path) => ToolStep::WriteFile { path, contents: contents.to_owned(), bytes },
            Err(message) => refuse(message.as_str()),
        },
        None => refuse("单个工作区文本文件不能超过 512 KiB"),
    }
}

/// Decides what a call of a tool takes. Its paths are read by the rules of the system.
pub fn execute_dynamic_tool(style: PathStyle, call: &ToolCall) -> (out: ToolStep)
    ensures
        out@ == tool_step(style, opt_view(call.namespace), call.tool@, call.arguments@),
{
    let ours = match &call.namespace {
        Some(namespace) => same(namespace.as_str(), "mahayana"),
        None => false,
    };
    if !ours {
        return refuse("不支持的工具命名空间");
    }
    let tool = call.tool.as_str();
    if same(tool, "list_conversations") {
        ToolStep::ListConversations
    } else if same(tool, "conversation_history") {
        plan_history(&call.arguments)
    } else if same(tool, "read_workspace_file") {
        plan_read(style, &call.arguments)
    } else if same(tool, "write_workspace_file") {
        plan_write(style, &call.arguments)
    } else if same(tool, "list_workspace_files") {
        ToolStep::ListFiles
    } else {
        refuse("不支持的大乘工具")
    }
}

/// The position of a key among the providers' keys.
pub open spec fn provider_at(keys: Seq<Seq<char>>, key: Seq<char>, at: int) -> bool {
    0 <= at < keys.len() && keys[at] == key && forall|j: int| 0 <= j < at ==> keys[j] != key
}

/// Finds the provider of a conversation by the key that belongs to it, or the answer where there
/// is none.
pub fn choose_provider(keys: &Vec<String>, key: Result<String, String>) -> (out: Result<
    usize,
    ToolResponse,
>)
    ensures
        match out {
            Ok(at) => key matches Ok(key) && provider_at(texts(keys@), key@, at as int),
            Err(response) => match key {
                Ok(key) => !texts(keys@).contains(key@) && response@ == error_response(
                    "该会话不属于当前大乘 Runtime"@,
                ),
                Err(message) => response@ == error_response(message@),
            },
        },
{
    let wanted = match &key {
        Ok(key) => key.clone(),
        Err(message) => {
            return Err(dynamic_tool_error(message.as_str()));
        },
    };
    let mut i: usize = 0;
    while i < keys.len()
        invariant
            i <= keys@.len(),
            key matches Ok(k) && k@ == wanted@,
            forall|j: int| 0 <= j < i ==> #[trigger] texts(keys@)[j] != wanted@,
        decreases keys@.len() - i,
    {
        if same(keys[i].as_str(), wanted.as_str()) {
            proof {
                assert(provider_at(texts(keys@), wanted@, i as int));
            }
            return Ok(i);
        }
        proof {
            assert(texts(keys@)[i as int] != wanted@);
        }
        i = i + 1;
    }
    Err(dynamic_tool_error("该会话不属于当前大乘 Runtime"))
}

/// The answer of a tool from what the host's work gave.
pub open spec fn finished(value: Result<Tree, Seq<char>>) -> ResponseView {
    match value {
        Ok(tree) => text_response(json_compact(tree)),
        Err(message) => error_response(message),
    }
}

/// Answers with the messages of a conversation, or why they cannot be read.
pub fn finish_history(messages: Result<Json, String>) -> (out: ToolResponse)
    ensures
        out@ == finished(
            match messages {
                Ok(value) => Ok(value@),
                Err(message) => Err(message@),
            },
        ),
{
    match messages {
        Ok(value) => dynamic_tool_success(&value),
        Err(message) => dynamic_tool_error(message.as_str()),
    }
}

/// Answers with the contents of a workspace file, or why it cannot be read.
pub fn finish_read(path: &str, contents: Result<String, String>) -> (out: ToolResponse)
    ensures
        out@ == finished(
            match contents {
                Ok(text) => Ok(file_tree(path@, text@)),
                Err(message) => Err(message@),
            },
        ),
{
    match contents {
        Ok(text) => dynamic_tool_success(
            &Json::Object(
                Object::new().with_text("path", path).with_text("contents", text.as_str()),
            ),
        ),
        Err(message) => dynamic_tool_error(message.as_str()),
    }
}

/// Answers with the size of a workspace file that was written, or why it was not.
pub fn finish_write(path: &str, bytes: u32, written: Result<(), String>) -> (out: ToolResponse)
    ensures
        out@ == finished(
            match written {
                Ok(_) => Ok(written_tree(path@, bytes)),
                Err(message) => Err(message@),
            },
        ),
{
    match written {
        Ok(_) => dynamic_tool_success(
            &Json::Object(
                Object::new().with_text("path", path).with(
                    "bytesWritten",
                    Json::Unsigned(bytes as u64),
                ),
            ),
        ),
        Err(message) => dynamic_tool_error(message.as_str()),
    }
}

/// What a workspace entry is.
#[derive(Debug, Clone, Copy, PartialEq, Eq, Structural)]
pub enum EntryKind {
    File,
    Directory,
    Other,
}

/// An entry of the workspace.
#[derive(Debug, PartialEq, Eq)]
pub struct WorkspaceEntry {
    pub name: String,
    pub kind: EntryKind,
}

impl Listed for WorkspaceEntry {
    open spec fn goes_before(&self, other: &Self) -> bool {
        precedes(self.name@, other.name@)
    }

    proof fn asymmetric(a: &Self, b: &Self) {
        lemma_precedes_asymmetric(a.name@, b.name@);
    }

    proof fn transitive(a: &Self, b: &Self, c: &Self) {
        lemma_not_before(a.name@, b.name@, c.name@);
    }

    fn is_before(&self, other: &Self) -> (yes: bool) {
        match compare(self.name.as_str(), other.name.as_str()) {
            Rank::Before => true,
            Rank::Same => {
                proof {
                    if precedes(self.name@, other.name@) {
                        lemma_precedes_asymmetric(self.name@, other.name@);
                    }
                }
                false
            },
            Rank::After => {
                proof {
                    lemma_precedes_asymmetric(other.name@, self.name@);
                }
                false
            },
        }
    }
}

proof fn lemma_not_before(a: Seq<char>, b: Seq<char>, c: Seq<char>)
    requires
        !precedes(b, a),
        !precedes(c, b),
    ensures
        !precedes(c, a),
{
    lemma_precedes_total(a, b);
    lemma_precedes_total(b, c);
    if precedes(c, a) {
        if a == b {
        } else if b == c {
        } else {
            lemma_precedes_transitive(a, b, c);
            lemma_precedes_asymmetric(a, c);
        }
    }
}

/// The word for a kind of entry.
pub open spec fn kind_word(kind: EntryKind) -> Seq<char> {
    match kind {
        EntryKind::File => "file"@,
        EntryKind::Directory => "directory"@,
        EntryKind::Other => "other"@,
    }
}

/// How an entry is listed.
pub open spec fn entry_tree(entry: WorkspaceEntry) -> Tree {
    Tree::Object(
        map!["name"@ => Tree::Text(entry.name@), "kind"@ => Tree::Text(kind_word(entry.kind))],
    )
}

/// A file that was read.
pub open spec fn file_tree(path: Seq<char>, contents: Seq<char>) -> Tree {
    Tree::Object(map!["path"@ => Tree::Text(path), "contents"@ => Tree::Text(contents)])
}

/// A file that was written.
pub open spec fn written_tree(path: Seq<char>, bytes: u32) -> Tree {
    Tree::Object(map!["path"@ => Tree::Text(path), "bytesWritten"@ => Tree::Int(bytes as int)])
}

/// How entries are listed: no more than the limit, and those in the order of their names.
pub open spec fn listing(entries: Seq<WorkspaceEntry>) -> Tree {
    let kept = arranged(
        if entries.len() > LISTING_LIMIT {
            entries.take(LISTING_LIMIT as int)
        } else {
            entries
        },
    );
    Tree::Object(
        map!["files"@ => Tree::Array(Seq::new(kept.len(), |i: int| entry_tree(kept[i])))],
    )
}

/// Answers with the entries of the workspace as the host found them, or why it found none.
pub fn finish_listing(entries: Result<Vec<WorkspaceEntry>, String>) -> (out: ToolResponse)
    ensures
        out@ == finished(
            match entries {
                Ok(entries) => Ok(listing(entries@)),
                Err(message) => Err(message@),
            },
        ),
{
    let mut entries = match entries {
        Ok(entries) => entries,
        Err(message) => {
            return dynamic_tool_error(message.as_str());
        },
    };
    let ghost all = entries@;
    if entries.len() > LISTING_LIMIT {
        entries.truncate(LISTING_LIMIT);
    }
    let ghost few = entries@;
    let entries = arrange(entries);
    let mut files: Vec<Json> = Vec::new();
    let mut i: usize = 0;
    while i < entries.len()
        invariant
            i <= entries@.len(),
            trees(files@) =~= Seq::new(i as nat, |j: int| entry_tree(entries@[j])),
        decreases entries@.len() - i,
    {
        let word = match entries[i].kind {
            EntryKind::File => "file",
            EntryKind::Directory => "directory",
            EntryKind::Other => "other",
        };
        let entry = Object::new().with_text("name", entries[i].name.as_str()).with_text(
            "kind",
            word,
        );
        files = appended(files, Json::Object(entry));
        i = i + 1;
    }
    proof {
        assert(few =~= if all.len() > LISTING_LIMIT {
            all.take(LISTING_LIMIT as int)
        } else {
            all
        });
        assert(trees(files@) =~= Seq::new(
            entries@.len(),
            |j: int| entry_tree(arranged(few)[j]),
        ));
    }
    dynamic_tool_success(&Json::Object(Object::new().with("files", Json::Array(files))))
}

impl Listed for Conversation {
    open spec fn goes_before(&self, other: &Self) -> bool {
        ||| self.updated_at_ms > other.updated_at_ms
        ||| self.updated_at_ms == other.updated_at_ms && precedes(self.id@, other.id@)
    }

    proof fn asymmetric(a: &Self, b: &Self) {
        if a.updated_at_ms == b.updated_at_ms {
            lemma_precedes_asymmetric(a.id@, b.id@);
        }
    }

    proof fn transitive(a: &Self, b: &Self, c: &Self) {
        if a.updated_at_ms == c.updated_at_ms {
            lemma_not_before(a.id@, b.id@, c.id@);
        }
    }

    fn is_before(&self, other: &Self) -> (yes: bool) {
        if self.updated_at_ms > other.updated_at_ms {
            return true;
        }
        if self.updated_at_ms < other.updated_at_ms {
            return false;
        }
        match compare(self.id.as_str(), other.id.as_str()) {
            Rank::Before => true,
            Rank::Same => {
                proof {
                    if precedes(self.id@, other.id@) {
                        lemma_precedes_asymmetric(self.id@, other.id@);
                    }
                }
                false
            },
            Rank::After => {
                proof {
                    lemma_precedes_asymmetric(other.id@, self.id@);
                }
                false
            },
        }
    }
}

/// What a provider of conversations gave when it was asked for its contacts.
#[derive(Debug, PartialEq, Eq)]
pub struct ProviderContacts {
    pub key: String,
    pub contacts: Result<Vec<Conversation>, String>,
}

/// All contacts in the order of the providers, or the answer for the first provider that failed.
pub open spec fn gathered(providers: Seq<ProviderContacts>) -> Result<
    Seq<Conversation>,
    ResponseView,
>
    decreases providers.len(),
{
    if providers.len() == 0 {
        Ok(Seq::empty())
    } else {
        match gathered(providers.drop_last()) {
            Ok(before) => match providers.last().contacts {
                Ok(items) => Ok(before + items@),
                Err(message) => Err(
                    error_response(
                        providers.last().key@ + " 联系人读取失败："@ + message@,
                    ),
                ),
            },
            Err(response) => Err(response),
        }
    }
}

proof fn lemma_gathered_fails(providers: Seq<ProviderContacts>, n: int)
    requires
        0 <= n <= providers.len(),
        gathered(providers.take(n)) is Err,
    ensures
        gathered(providers) == gathered(providers.take(n)),
    decreases providers.len(),
{
    if n < providers.len() {
        assert(providers.drop_last().take(n) =~= providers.take(n));
        lemma_gathered_fails(providers.drop_last(), n);
    } else {
        assert(providers.take(n) =~= providers);
    }
}

/// Puts the contacts of all providers together, the latest first and then by identifier, or gives
/// the answer for the first provider that failed.
pub fn list_conversations(providers: Vec<ProviderContacts>) -> (out: Result<
    Vec<Conversation>,
    ToolResponse,
>)
    ensures
        match out {
            Ok(contacts) => gathered(providers@) matches Ok(all) && contacts@ == arranged(all)
                && is_arranged(contacts@),
            Err(response) => gathered(providers@) == Err::<Seq<Conversation>, ResponseView>(
                response@,
            ),
        },
{
    let ghost given = providers@;
    let mut rest: Vec<ProviderContacts> = providers;
    let mut all: Vec<Conversation> = Vec::new();
    let ghost mut done: int = 0;
    while rest.len() > 0
        invariant
            given == providers@,
            0 <= done <= given.len(),
            rest@ =~= given.skip(done),
            gathered(given.take(done)) == Ok::<Seq<Conversation>, ResponseView>(all@),
        decreases rest@.len(),
    {
        let ghost before = rest@;
        let provider = rest.remove(0);
        proof {
            assert(given[done] == provider);
            assert(given.take(done + 1).drop_last() =~= given.take(done));
            assert(given.take(done + 1).last() == provider);
            assert(rest@ =~= given.skip(done + 1));
        }
        match provider.contacts {
            Ok(items) => {
                let mut items = items;
                all.append(&mut items);
            },
            Err(message) => {
                let text = provider.key.concat(" 联系人读取失败：").concat(message.as_str());
                let response = dynamic_tool_error(text.as_str());
                proof {
                    lemma_gathered_fails(given, done + 1);
                }
                return Err(response);
            },
        }
        proof {
            done = done + 1;
        }
    }
    proof {
        assert(given.take(done) =~= given);
    }
    Ok(arrange(all))
}

/// A tool that the agent is offered.
pub ghost struct ToolSpecView {
    pub name: Seq<char>,
    pub description: Seq<char>,
    pub input_schema: Tree,
    pub defer_loading: bool,
}

/// A tool that the agent is offered.
#[derive(Debug, PartialEq, Eq)]
pub struct ToolSpec {
    pub name: String,
    pub description: String,
    pub input_schema: Json,
    pub defer_loading: bool,
}

impl View for ToolSpec {
    type V = ToolSpecView;

    open spec fn view(&self) -> ToolSpecView {
        ToolSpecView {
            name: self.name@,
            description: self.description@,
            input_schema: self.input_schema@,
            defer_loading: self.defer_loading,
        }
    }
}

/// A group of tools under a common name.
#[derive(Debug, PartialEq, Eq)]
pub struct ToolNamespace {
    pub name: String,
    pub description: String,
    pub tools: Vec<ToolSpec>,
}

/// The schema of an object that has exactly these properties.
pub open spec fn closed_schema(properties: Map<Seq<char>, Tree>) -> Map<Seq<char>, Tree> {
    map![
        "type"@ => Tree::Text("object"@),
        "properties"@ => Tree::Object(properties),
        "additionalProperties"@ => Tree::Bool(false),
    ]
}

/// The schema of a text, with a description.
pub open spec fn text_schema(description: Seq<char>) -> Tree {
    Tree::Object(
        map!["type"@ => Tree::Text("string"@), "description"@ => Tree::Text(description)],
    )
}

/// The tools that the agent is offered.
pub open spec fn offered_tools() -> Seq<ToolSpecView> {
    seq![
        ToolSpecView {
            name: "list_conversations"@,
            description: "列出当前大乘 Runtime 中可供 Codex 接入的联系人会话。"@,
            input_schema: Tree::Object(closed_schema(Map::empty())),
            defer_loading: false,
        },
        ToolSpecView {
            name: "conversation_history"@,
            description: "读取一个 Telegram 或法布施联系人会话的最近历史。"@,
            input_schema: Tree::Object(
                closed_schema(
                    map![
                        "conversationId"@ => Tree::Object(map!["type"@ => Tree::Text("string"@)]),
                        "limit"@ => Tree::Object(
                            map![
                                "type"@ => Tree::Text("integer"@),
                                "minimum"@ => Tree::Int(1),
                                "maximum"@ => Tree::Int(100),
                            ],
                        ),
                    ],
                ).insert("required"@, Tree::Array(seq![Tree::Text("conversationId"@)])),
            ),
            defer_loading: false,
        },
        ToolSpecView {
            name: "read_workspace_file"@,
            description: "读取 App 私有大乘工作区内的 UTF-8 文本文件。"@,
            input_schema: Tree::Object(
                closed_schema(map!["path"@ => text_schema("工作区内的相对路径"@)]).insert(
                    "required"@,
                    Tree::Array(seq![Tree::Text("path"@)]),
                ),
            ),
            defer_loading: false,
        },
        ToolSpecView {
            name: "write_workspace_file"@,
            description: "创建或覆盖 App 私有大乘工作区内的 UTF-8 文本文件。"@,
            input_schema: Tree::Object(
                closed_schema(
                    map![
                        "path"@ => text_schema("工作区内的相对路径"@),
                        "contents"@ => text_schema("完整文件内容"@),
                    ],
                ).insert(
                    "required"@,
                    Tree::Array(seq![Tree::Text("path"@), Tree::Text("contents"@)]),
                ),
            ),
            defer_loading: false,
        },
        ToolSpecView {
            name: "list_workspace_files"@,
            description: "列出 App 私有大乘工作区根目录中的文件。"@,
            input_schema: Tree::Object(closed_schema(Map::empty())),
            defer_loading: false,
        },
    ]
}

fn schema(properties: Object) -> (out: Object)
    ensures
        out@ == closed_schema(properties@),
{
    Object::new().with_text("type", "object").with("properties", Json::Object(properties)).with(
        "additionalProperties",
        Json::Bool(false),
    )
}

fn text_property(description: &str) -> (out: Json)
    ensures
        out@ == text_schema(description@),
{
    Json::Object(
        Object::new().with_text("type", "string").with_text("description", description),
    )
}

fn tool(name: &str, description: &str, input_schema: Object) -> (out: ToolSpec)
    ensures
        out@ == (ToolSpecView {
            name: name@,
            description: description@,
            input_schema: Tree::Object(input_schema@),
            defer_loading: false,
        }),
{
    ToolSpec {
        name: name.to_owned(),
        description: description.to_owned(),
        input_schema: Json::Object(input_schema),
        defer_loading: false,
    }
}

/// The tools that the agent is offered.
pub fn mahayana_dynamic_tools() -> (out: ToolNamespace)
    ensures
        out.name@ == "mahayana"@,
        out.description@ == "操作 App 内置大乘 Runtime 的本地工作区与联系人会话。"@,
        Seq::new(out.tools@.len(), |i: int| out.tools@[i]@) == offered_tools(),
{
    let limit = Object::new().with_text("type", "integer").with("minimum", Json::Unsigned(1)).with(
        "maximum",
        Json::Unsigned(100),
    );
    let history = schema(
        Object::new().with(
            "conversationId",
            Json::Object(Object::new().with_text("type", "string")),
        ).with("limit", Json::Object(limit)),
    ).with("required", Json::Array(appended(Vec::new(), Json::text("conversationId"))));
    let read = schema(Object::new().with("path", text_property("工作区内的相对路径"))).with(
        "required",
        Json::Array(appended(Vec::new(), Json::text("path"))),
    );
    let both = appended(appended(Vec::new(), Json::text("path")), Json::text("contents"));
    proof {
        assert(trees(both@) =~= seq![Tree::Text("path"@), Tree::Text("contents"@)]);
    }
    let write = schema(
        Object::new().with("path", text_property("工作区内的相对路径")).with(
            "contents",
            text_property("完整文件内容"),
        ),
    ).with("required", Json::Array(both));
    proof {
        assert(trees(Seq::<Json>::empty()) =~= Seq::<Tree>::empty());
    }
    let mut tools: Vec<ToolSpec> = Vec::new();
    tools.push(
        tool(
            "list_conversations",
            "列出当前大乘 Runtime 中可供 Codex 接入的联系人会话。",
            schema(Object::new()),
        ),
    );
    tools.push(
        tool(
            "conversation_history",
            "读取一个 Telegram 或法布施联系人会话的最近历史。",
            history,
        ),
    );
    tools.push(
        tool(
            "read_workspace_file",
            "读取 App 私有大乘工作区内的 UTF-8 文本文件。",
            read,
        ),
    );
    tools.push(
        tool(
            "write_workspace_file",
            "创建或覆盖 App 私有大乘工作区内的 UTF-8 文本文件。",
            write,
        ),
    );
    tools.push(
        tool(
            "list_workspace_files",
            "列出 App 私有大乘工作区根目录中的文件。",
            schema(Object::new()),
        ),
    );
    proof {
        assert(Seq::new(tools@.len(), |i: int| tools@[i]@) =~= offered_tools());
    }
    ToolNamespace {
        name: "mahayana".to_owned(),
        description: "操作 App 内置大乘 Runtime 的本地工作区与联系人会话。".to_owned(),
        tools,
    }
}

} // verus!
