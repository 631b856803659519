//! What the command line shows of a runtime: streamed answers, approvals and lists.

use crate::json::{
    field, field_or_null, flag_field, inner_text, items_field, json_result, signed_of, text_field,
    tree, trees, Json, Object, Tree,
};
use crate::json_text::{compact, json_compact};
use crate::text::{
    align_left, align_right, ascii_lowered, decimal, decimal_text, left_aligned, lower,
    right_aligned, same, signed_decimal, signed_decimal_text, texts, trim, trimmed,
};
use crate::url_text::opt_view;
use vstd::prelude::*;
use vstd::string::*;

verus! {

/// What a call of the runtime gave.
pub open spec fn unwrapped(response: Tree) -> Result<Tree, Seq<char>> {
    if flag_field(response, "ok"@) == Some(true) {
        Ok(field_or_null(response, "data"@))
    } else {
        Err(
            match text_field(response, "message"@) {
                Some(message) => message,
                None => "Runtime 调用失败"@,
            },
        )
    }
}

/// Takes the data out of a reply of the runtime.
pub fn unwrap_ffi(response: &Json) -> (out: Result<Json, String>)
    ensures
        json_result(out) == unwrapped(response@),
{
    let ok = match response.flag_field("ok") {
        Some(flag) => flag,
        None => false,
    };
    if ok {
        return Ok(response.field_or_null("data"));
    }
    match response.text_field("message") {
        Some(message) => Err(message.to_owned()),
        None => Err("Runtime 调用失败".to_owned()),
    }
}

/// Takes an event out of a reply of the runtime; null stands for none.
pub fn received_event(response: &Json) -> (out: Result<Option<Json>, String>)
    ensures
        match out {
            Ok(Some(event)) => unwrapped(response@) == Ok::<Tree, Seq<char>>(event@) && !(
            event@ is Null),
            Ok(None) => unwrapped(response@) == Ok::<Tree, Seq<char>>(Tree::Null),
            Err(message) => unwrapped(response@) == Err::<Tree, Seq<char>>(message@),
        },
{
    match unwrap_ffi(response) {
        Ok(data) => if data.is_null() {
            Ok(None)
        } else {
            Ok(Some(data))
        },
        Err(message) => Err(message),
    }
}

/// Why the runtime was not created.
pub fn creation_error(error: &Json) -> (out: String)
    ensures
        out@ == match text_field(error@, "message"@) {
            Some(message) => message,
            None => "本地 Runtime 创建失败"@,
        },
{
    match error.text_field("message") {
        Some(message) => message.to_owned(),
        None => "本地 Runtime 创建失败".to_owned(),
    }
}

/// A number in a field, or zero.
pub open spec fn count_field(value: Tree, name: Seq<char>) -> i64 {
    match field(value, name) {
        Some(number) => match signed_of(number) {
            Some(n) => n,
            None => 0,
        },
        None => 0,
    }
}

fn count(value: &Json, name: &str) -> (out: i64)
    ensures
        out == count_field(value@, name@),
{
    match value.get(name) {
        Some(number) => match number.as_signed() {
            Some(n) => n,
            None => 0,
        },
        None => 0,
    }
}

/// The last usage in an event, with its total.
pub open spec fn last_usage(event: Tree) -> Option<(Tree, i64)> {
    match field(event, "usage"@) {
        Some(usage) => match field(usage, "last"@) {
            Some(last) => match field(last, "totalTokens"@) {
                Some(total) => match signed_of(total) {
                    Some(n) => Some((last, n)),
                    None => None,
                },
                None => None,
            },
            None => None,
        },
        None => None,
    }
}

/// How a usage reads.
pub open spec fn usage_text(last: Tree, total: i64) -> Seq<char> {
    "本次模型用量："@ + signed_decimal(total as int) + " tokens（输入 "@ + signed_decimal(
        count_field(last, "inputTokens"@) as int,
    ) + "，缓存输入 "@ + signed_decimal(count_field(last, "cachedInputTokens"@) as int)
        + "，输出 "@ + signed_decimal(count_field(last, "outputTokens"@) as int) + "，推理 "@
        + signed_decimal(count_field(last, "reasoningOutputTokens"@) as int) + "）"@
}

/// How the usage in an event reads.
pub open spec fn usage_summary(event: Tree) -> Option<Seq<char>> {
    match last_usage(event) {
        Some((last, total)) => Some(usage_text(last, total)),
        None => None,
    }
}

/// How the usage in an event reads.
pub fn format_usage_summary(event: &Json) -> (out: Option<String>)
    ensures
        opt_view(out) == usage_summary(event@),
{
    let usage = match event.get("usage") {
        Some(usage) => usage,
        None => {
            return None;
        },
    };
    let last = match usage.get("last") {
        Some(last) => last,
        None => {
            return None;
        },
    };
    let total: i64 = match last.get("totalTokens") {
        Some(total) => match total.as_signed() {
            Some(n) => n,
            None => {
                return None;
            },
        },
        None => {
            return None;
        },
    };
    Some(
        "本次模型用量：".to_owned().concat(signed_decimal_text(total).as_str()).concat(
            " tokens（输入 ",
        ).concat(signed_decimal_text(count(last, "inputTokens")).as_str()).concat(
            "，缓存输入 ",
        ).concat(signed_decimal_text(count(last, "cachedInputTokens")).as_str()).concat(
            "，输出 ",
        ).concat(signed_decimal_text(count(last, "outputTokens")).as_str()).concat(
            "，推理 ",
        ).concat(signed_decimal_text(count(last, "reasoningOutputTokens")).as_str()).concat(
            "）",
        ),
    )
}

/// An answer that is being streamed.
pub ghost struct StreamView {
    pub operation_id: Seq<char>,
    pub assistant: Seq<char>,
    pub usage: Option<Seq<char>>,
}

/// An answer that is being streamed.
#[derive(Debug, PartialEq, Eq)]
pub struct AnswerStream {
    operation_id: String,
    assistant: String,
    usage: Option<String>,
}

impl View for AnswerStream {
    type V = StreamView;

    closed spec fn view(&self) -> StreamView {
        StreamView {
            operation_id: self.operation_id@,
            assistant: self.assistant@,
            usage: opt_view(self.usage),
        }
    }
}

/// What an event of a stream asks for.
pub ghost enum StreamStepView {
    Continue,
    Delta(Seq<char>),
    Line,
    Approve,
    Done { text: Seq<char>, usage: Option<Seq<char>> },
    Failed(Seq<char>),
}

/// What an event of a stream asks for.
#[derive(Debug, PartialEq, Eq)]
pub enum StreamStep {
    Continue,
    /// Show more of the answer.
    Delta(String),
    /// End the line of the answer.
    Line,
    /// Ask the user about the approval in the event.
    Approve,
    /// The answer is complete.
    Done { text: String, usage: Option<String> },
    /// The operation failed.
    Failed(String),
}

impl View for StreamStep {
    type V = StreamStepView;

    open spec fn view(&self) -> StreamStepView {
        match self {
            StreamStep::Continue => StreamStepView::Continue,
            StreamStep::Delta(delta) => StreamStepView::Delta(delta@),
            StreamStep::Line => StreamStepView::Line,
            StreamStep::Approve => StreamStepView::Approve,
            StreamStep::Done { text, usage } => StreamStepView::Done {
                text: text@,
                usage: opt_view(*usage),
            },
            StreamStep::Failed(message) => StreamStepView::Failed(message@),
        }
    }
}

/// The text in a field, or nothing.
pub open spec fn text_or_empty(value: Tree, name: Seq<char>) -> Seq<char> {
    match text_field(value, name) {
        Some(t) => t,
        None => Seq::empty(),
    }
}

/// The message of the event is not one of the user.
pub open spec fn is_answer(event: Tree) -> bool {
    inner_text(event, "message"@, "role"@) != Some("user"@)
}

/// What an event does to a stream, and what it asks for. Events of other operations are skipped.
pub open spec fn streamed(stream: StreamView, event: Tree) -> (StreamView, StreamStepView) {
    let kind = text_field(event, "@type"@);
    if text_field(event, "operationId"@) != Some(stream.operation_id) {
        (stream, StreamStepView::Continue)
    } else if kind == Some("mahayana.message.delta"@) {
        let delta = text_or_empty(event, "delta"@);
        (
            StreamView { assistant: stream.assistant + delta, ..stream },
            StreamStepView::Delta(delta),
        )
    } else if kind == Some("mahayana.message.completed"@) {
        if is_answer(event) {
            (
                match inner_text(event, "message"@, "text"@) {
                    Some(text) => StreamView { assistant: text, ..stream },
                    None => stream,
                },
                StreamStepView::Line,
            )
        } else {
            (stream, StreamStepView::Continue)
        }
    } else if kind == Some("mahayana.approval.requested"@) {
        (stream, StreamStepView::Approve)
    } else if kind == Some("mahayana.model.usage.updated"@) {
        (StreamView { usage: usage_summary(event), ..stream }, StreamStepView::Continue)
    } else if kind == Some("mahayana.operation.completed"@) {
        (
            stream,
            StreamStepView::Done { text: stream.assistant, usage: stream.usage },
        )
    } else if kind == Some("mahayana.operation.failed"@) {
        (
            stream,
            StreamStepView::Failed(
                match text_field(event, "message"@) {
                    Some(message) => message,
                    None => "操作失败"@,
                },
            ),
        )
    } else {
        (stream, StreamStepView::Continue)
    }
}

fn copy_text(value: &Option<String>) -> (out: Option<String>)
    ensures
        opt_view(out) == opt_view(*value),
{
    match value {
        Some(t) => Some(t.clone()),
        None => None,
    }
}

impl AnswerStream {
    /// The stream of an operation that the runtime accepted.
    pub fn new(accepted: &Json) -> (out: Result<AnswerStream, String>)
        ensures
            match out {
                Ok(stream) => text_field(accepted@, "operationId"@) == Some(
                    stream@.operation_id,
                ) && stream@.assistant == Seq::<char>::empty() && stream@.usage is None,
                Err(message) => text_field(accepted@, "operationId"@) is None && message@
                    == "Runtime 没有返回操作编号"@,
            },
    {
        match accepted.text_field("operationId") {
            Some(id) => {
                let stream = AnswerStream {
                    operation_id: id.to_owned(),
                    assistant: String::new(),
                    usage: None,
                };
                proof {
                    assert(stream.assistant@ =~= Seq::<char>::empty());
                }
                Ok(stream)
            },
            None => Err("Runtime 没有返回操作编号".to_owned()),
        }
    }

    /// Takes an event of the runtime.
    pub fn step(&mut self, event: &Json) -> (out: StreamStep)
        ensures
            (final(self)@, out@) == streamed(old(self)@, event@),
    {
        if !event.field_is("operationId", self.operation_id.as_str()) {
            return StreamStep::Continue;
        }
        if event.field_is("@type", "mahayana.message.delta") {
            let delta = match event.text_field("delta") {
                Some(delta) => delta.to_owned(),
                None => {
                    let none: String = String::new();
                    proof {
                        assert(none@ =~= Seq::<char>::empty());
                    }
                    none
                },
            };
            self.assistant.append(delta.as_str());
            StreamStep::Delta(delta)
        } else if event.field_is("@type", "mahayana.message.completed") {
            let users = match event.inner_text("message", "role") {
                Some(role) => same(role, "user"),
                None => false,
            };
            if users {
                return StreamStep::Continue;
            }
            match event.inner_text("message", "text") {
                Some(text) => {
                    self.assistant = text.to_owned();
                },
                None => {},
            }
            StreamStep::Line
        } else if event.field_is("@type", "mahayana.approval.requested") {
            StreamStep::Approve
        } else if event.field_is("@type", "mahayana.model.usage.updated") {
            self.usage = format_usage_summary(event);
            StreamStep::Continue
        } else if event.field_is("@type", "mahayana.operation.completed") {
            StreamStep::Done { text: self.assistant.clone(), usage: copy_text(&self.usage) }
        } else if event.field_is("@type", "mahayana.operation.failed") {
            match event.text_field("message") {
                Some(message) => StreamStep::Failed(message.to_owned()),
                None => StreamStep::Failed("操作失败".to_owned()),
            }
        } else {
            StreamStep::Continue
        }
    }
}

/// An event of another operation changes nothing and shows nothing.
pub proof fn lemma_other_operations_are_skipped(stream: StreamView, event: Tree)
    requires
        text_field(event, "operationId"@) != Some(stream.operation_id),
    ensures
        streamed(stream, event) == (stream, StreamStepView::Continue),
{
}

/// A stream stays with its operation, whatever arrives.
pub proof fn lemma_stream_keeps_its_operation(stream: StreamView, event: Tree)
    ensures
        streamed(stream, event).0.operation_id == stream.operation_id,
{
}

/// What the user is asked about an approval.
#[derive(Debug, PartialEq, Eq)]
pub struct ApprovalPrompt {
    pub approval_id: String,
    pub text: String,
}

/// How an approval reads.
pub open spec fn approval_text(event: Tree) -> Seq<char> {
    "\n审批请求："@ + (match text_field(event, "title"@) {
        Some(title) => title,
        None => "Codex 操作"@,
    }) + "\n"@ + json_compact(field_or_null(event, "details"@))
}

/// What the user is asked about the approval in an event.
pub fn approval_prompt(event: &Json) -> (out: Result<ApprovalPrompt, String>)
    ensures
        match out {
            Ok(prompt) => text_field(event@, "approvalId"@) == Some(prompt.approval_id@)
                && prompt.text@ == approval_text(event@),
            Err(message) => text_field(event@, "approvalId"@) is None && message@
                == "审批事件缺少编号"@,
        },
{
    let approval_id = match event.text_field("approvalId") {
        Some(id) => id.to_owned(),
        None => {
            return Err("审批事件缺少编号".to_owned());
        },
    };
    let title = match event.text_field("title") {
        Some(title) => title,
        None => "Codex 操作",
    };
    let text = "\n审批请求：".to_owned().concat(title).concat("\n").concat(
        compact(&event.field_or_null("details")).as_str(),
    );
    Ok(ApprovalPrompt { approval_id, text })
}

/// The decision that an answer stands for: anything that is not understood declines.
pub open spec fn decision_for(answer: Seq<char>) -> Seq<char> {
    let word = ascii_lowered(trimmed(answer));
    if word == "y"@ || word == "yes"@ {
        "accept"@
    } else if word == "a"@ || word == "always"@ {
        "acceptForSession"@
    } else if word == "c"@ || word == "cancel"@ {
        "cancel"@
    } else {
        "decline"@
    }
}

/// The request that answers an approval.
pub open spec fn approval_answer(approval_id: Seq<char>, decision: Seq<char>) -> Tree {
    Tree::Object(
        map!["approvalId"@ => Tree::Text(approval_id), "decision"@ => Tree::Text(decision)],
    )
}

/// The request that interrupts an operation.
pub open spec fn interruption(operation_id: Seq<char>) -> Tree {
    Tree::Object(map!["operationId"@ => Tree::Text(operation_id)])
}

/// The decision that an answer stands for.
pub fn approval_decision(answer: &str) -> (out: &'static str)
    ensures
        out@ == decision_for(answer@),
{
    let word = lower(trim(answer).as_str());
    let word = word.as_str();
    if same(word, "y") || same(word, "yes") {
        "accept"
    } else if same(word, "a") || same(word, "always") {
        "acceptForSession"
    } else if same(word, "c") || same(word, "cancel") {
        "cancel"
    } else {
        "decline"
    }
}

/// The request that resolves an approval.
pub fn approval_request(approval_id: &str, decision: &str) -> (out: Json)
    ensures
        out@ == approval_answer(approval_id@, decision@),
{
    Json::Object(
        Object::new().with_text("approvalId", approval_id).with_text("decision", decision),
    )
}

/// The request that interrupts an operation.
pub fn interrupt_request(operation_id: &str) -> (out: Json)
    ensures
        out@ == interruption(operation_id@),
{
    Json::Object(Object::new().with_text("operationId", operation_id))
}

/// A line of the contact list: number, mark of a pinned contact, title and identifier.
pub open spec fn contact_row(number: nat, conversation: Tree) -> Seq<char> {
    right_aligned(decimal(number), 2) + ". "@ + (if flag_field(conversation, "pinned"@) == Some(
        true,
    ) {
        "★"@
    } else {
        " "@
    }) + " "@ + left_aligned(
        match text_field(conversation, "title"@) {
            Some(title) => title,
            None => "未命名"@,
        },
        24,
    ) + " "@ + text_or_empty(conversation, "id"@)
}

fn row_of(number: u64, conversation: &Json) -> (out: String)
    ensures
        out@ == contact_row(number as nat, conversation@),
{
    let pinned = match conversation.flag_field("pinned") {
        Some(flag) => flag,
        None => false,
    };
    let marker = if pinned {
        "★"
    } else {
        " "
    };
    let title = match conversation.text_field("title") {
        Some(title) => title,
        None => "未命名",
    };
    let row = align_right(decimal_text(number).as_str(), 2).concat(". ").concat(marker).concat(
        " ",
    ).concat(align_left(title, 24).as_str()).concat(" ");
    match conversation.text_field("id") {
        Some(id) => row.concat(id),
        None => {
            proof {
                assert(row@ + Seq::<char>::empty() =~= row@);
            }
            row
        },
    }
}

/// The lines of a contact list.
pub fn conversation_rows(conversations: &Vec<Json>) -> (out: Vec<String>)
    ensures
        texts(out@) == Seq::new(
            conversations@.len(),
            |i: int| contact_row((i + 1) as nat, tree(conversations@[i])),
        ),
{
    let mut out: Vec<String> = Vec::new();
    let mut i: usize = 0;
    while i < conversations.len()
        invariant
            i <= conversations@.len(),
            texts(out@) =~= Seq::new(
                i as nat,
                |j: int| contact_row((j + 1) as nat, tree(conversations@[j])),
            ),
        decreases conversations@.len() - i,
    {
        let ghost before = out@;
        let row = row_of(i as u64 + 1, &conversations[i]);
        out.push(row);
        proof {
            assert(texts(out@) =~= texts(before).push(row@));
        }
        i = i + 1;
    }
    out
}

/// The rows of a contact list, numbered from one.
pub open spec fn contact_rows(response: Tree) -> Option<Seq<Seq<char>>> {
    match items_field(response, "data"@) {
        Some(items) => Some(
            Seq::new(items.len(), |i: int| contact_row((i + 1) as nat, items[i])),
        ),
        None => None,
    }
}

/// The lines of the contact list in a reply of the runtime.
pub fn print_conversations(response: &Json) -> (out: Result<Vec<String>, String>)
    ensures
        match out {
            Ok(rows) => contact_rows(response@) == Some(texts(rows@)),
            Err(message) => contact_rows(response@) is None && message@
                == "Runtime 没有返回联系人列表"@,
        },
{
    match response.items_field("data") {
        Some(conversations) => {
            let rows = conversation_rows(conversations);
            proof {
                let items = trees(conversations@);
                assert(texts(rows@) =~= Seq::new(
                    items.len(),
                    |i: int| contact_row((i + 1) as nat, items[i]),
                ));
            }
            Ok(rows)
        },
        None => Err("Runtime 没有返回联系人列表".to_owned()),
    }
}

/// A line of a history: who said what.
pub open spec fn history_line(message: Tree) -> Seq<char> {
    "["@ + (match text_field(message, "role"@) {
        Some(role) => role,
        None => "unknown"@,
    }) + "] "@ + text_or_empty(message, "text"@)
}

/// The lines of a history.
pub open spec fn history_lines(response: Tree) -> Option<Seq<Seq<char>>> {
    match items_field(response, "data"@) {
        Some(items) => Some(Seq::new(items.len(), |i: int| history_line(items[i]))),
        None => None,
    }
}

/// The lines of the history in a reply of the runtime.
pub fn print_history(response: &Json) -> (out: Result<Vec<String>, String>)
    ensures
        match out {
            Ok(lines) => history_lines(response@) == Some(texts(lines@)),
            Err(message) => history_lines(response@) is None && message@
                == "Runtime 没有返回消息历史"@,
        },
{
    let messages = match response.items_field("data") {
        Some(messages) => messages,
        None => {
            return Err("Runtime 没有返回消息历史".to_owned());
        },
    };
    let mut out: Vec<String> = Vec::new();
    let mut i: usize = 0;
    let ghost items = trees(messages@);
    while i < messages.len()
        invariant
            i <= messages@.len(),
            items == trees(messages@),
            texts(out@) =~= Seq::new(i as nat, |j: int| history_line(items[j])),
        decreases messages@.len() - i,
    {
        let ghost before = out@;
        let role = match messages[i].text_field("role") {
            Some(role) => role,
            None => "unknown",
        };
        let start = "[".to_owned().concat(role).concat("] ");
        let line = match messages[i].text_field("text") {
            Some(text) => start.concat(text),
            None => {
                proof {
                    assert(start@ + Seq::<char>::empty() =~= start@);
                }
                start
            },
        };
        out.push(line);
        proof {
            assert(texts(out@) =~= texts(before).push(line@));
        }
        i = i + 1;
    }
    proof {
        assert(texts(out@) =~= Seq::new(items.len(), |j: int| history_line(items[j])));
    }
    Ok(out)
}

} // verus!
