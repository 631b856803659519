//! The turns that an agent works on, and the approvals that it waits for.

use crate::agent::{fault_text, AgentError, AgentEvent, AgentEventView, AgentFault, ApprovalResolution};
use crate::json::{Json, Object, Tree};
use crate::model::{
    ApprovalDecision, ApprovalId, ConversationId, Message, MessageId, MessageRole, MessageView,
    OperationId,
};
use crate::text::{decimal, decimal_text, same};
use crate::text_map::TextMap;
use crate::url_text::opt_view;
use vstd::prelude::*;
use vstd::string::*;

verus! {

/// The identifier of a request between the agent and its host.
pub ghost enum RequestView {
    Integer(i64),
    Text(Seq<char>),
}

/// The identifier of a request between the agent and its host.
#[derive(Debug, PartialEq, Eq)]
pub enum RequestId {
    Integer(i64),
    Text(String),
}

impl View for RequestId {
    type V = RequestView;

    open spec fn view(&self) -> RequestView {
        match self {
            RequestId::Integer(n) => RequestView::Integer(*n),
            RequestId::Text(t) => RequestView::Text(t@),
        }
    }
}

impl Clone for RequestId {
    fn clone(&self) -> (out: RequestId)
        ensures
            out@ == self@,
    {
        match self {
            RequestId::Integer(n) => RequestId::Integer(*n),
            RequestId::Text(t) => RequestId::Text(t.clone()),
        }
    }
}

/// A turn of the agent for an operation, with the text that it has produced.
pub ghost struct OperationView {
    pub thread_id: Seq<char>,
    pub turn_id: Seq<char>,
    pub conversation_id: Seq<char>,
    pub assistant_text: Seq<char>,
}

/// A turn of the agent for an operation, with the text that it has produced.
#[derive(Debug, PartialEq, Eq)]
pub struct ActiveOperation {
    pub thread_id: String,
    pub turn_id: String,
    pub conversation_id: ConversationId,
    pub assistant_text: String,
}

impl View for ActiveOperation {
    type V = OperationView;

    open spec fn view(&self) -> OperationView {
        OperationView {
            thread_id: self.thread_id@,
            turn_id: self.turn_id@,
            conversation_id: self.conversation_id@,
            assistant_text: self.assistant_text@,
        }
    }
}

/// How an approval is answered.
pub ghost enum ApprovalKindView {
    CommandExecution,
    FileChange,
    Permissions { requested: Tree },
    LegacyExec,
    LegacyPatch,
}

/// How an approval is answered.
#[derive(Debug, PartialEq, Eq)]
pub enum ApprovalResponseKind {
    CommandExecution,
    FileChange,
    Permissions { requested: Json },
    LegacyExec,
    LegacyPatch,
}

impl View for ApprovalResponseKind {
    type V = ApprovalKindView;

    open spec fn view(&self) -> ApprovalKindView {
        match self {
            ApprovalResponseKind::CommandExecution => ApprovalKindView::CommandExecution,
            ApprovalResponseKind::FileChange => ApprovalKindView::FileChange,
            ApprovalResponseKind::Permissions { requested } => ApprovalKindView::Permissions {
                requested: requested@,
            },
            ApprovalResponseKind::LegacyExec => ApprovalKindView::LegacyExec,
            ApprovalResponseKind::LegacyPatch => ApprovalKindView::LegacyPatch,
        }
    }
}

/// A request that waits for its approval.
pub ghost struct PendingView {
    pub request_id: RequestView,
    pub response_kind: ApprovalKindView,
}

/// A request that waits for its approval.
#[derive(Debug, PartialEq, Eq)]
pub struct PendingApproval {
    pub request_id: RequestId,
    pub response_kind: ApprovalResponseKind,
}

impl View for PendingApproval {
    type V = PendingView;

    open spec fn view(&self) -> PendingView {
        PendingView { request_id: self.request_id@, response_kind: self.response_kind@ }
    }
}

/// The word for a decision in the present protocol.
pub open spec fn decision_word(decision: ApprovalDecision) -> Seq<char> {
    match decision {
        ApprovalDecision::Accept => "accept"@,
        ApprovalDecision::AcceptForSession => "acceptForSession"@,
        ApprovalDecision::Decline => "decline"@,
        ApprovalDecision::Cancel => "cancel"@,
    }
}

/// The word for a decision in the older protocol.
pub open spec fn legacy_word(decision: ApprovalDecision) -> Seq<char> {
    match decision {
        ApprovalDecision::Accept => "approved"@,
        ApprovalDecision::AcceptForSession => "approved_for_session"@,
        ApprovalDecision::Decline => "denied"@,
        ApprovalDecision::Cancel => "abort"@,
    }
}

/// What a decision answers to a request.
pub open spec fn approval_tree(kind: ApprovalKindView, decision: ApprovalDecision) -> Tree {
    match kind {
        ApprovalKindView::CommandExecution | ApprovalKindView::FileChange => Tree::Object(
            map!["decision"@ => Tree::Text(decision_word(decision))],
        ),
        ApprovalKindView::Permissions { requested } => match decision {
            ApprovalDecision::Accept => Tree::Object(
                map!["permissions"@ => requested, "scope"@ => Tree::Text("turn"@)],
            ),
            ApprovalDecision::AcceptForSession => Tree::Object(
                map!["permissions"@ => requested, "scope"@ => Tree::Text("session"@)],
            ),
            _ => Tree::Object(
                map!["permissions"@ => Tree::Object(Map::empty()), "scope"@ => Tree::Text("turn"@)],
            ),
        },
        ApprovalKindView::LegacyExec | ApprovalKindView::LegacyPatch => Tree::Object(
            map!["decision"@ => Tree::Text(legacy_word(decision))],
        ),
    }
}

/// The answer to a request for approval.
pub fn approval_response(kind: ApprovalResponseKind, decision: ApprovalDecision) -> (out: Json)
    ensures
        out@ == approval_tree(kind@, decision),
{
    match kind {
        ApprovalResponseKind::CommandExecution | ApprovalResponseKind::FileChange => {
            let word = match decision {
                ApprovalDecision::Accept => "accept",
                ApprovalDecision::AcceptForSession => "acceptForSession",
                ApprovalDecision::Decline => "decline",
                ApprovalDecision::Cancel => "cancel",
            };
            Json::Object(Object::new().with_text("decision", word))
        },
        ApprovalResponseKind::Permissions { requested } => match decision {
            ApprovalDecision::Accept => Json::Object(
                Object::new().with("permissions", requested).with_text("scope", "turn"),
            ),
            ApprovalDecision::AcceptForSession => Json::Object(
                Object::new().with("permissions", requested).with_text("scope", "session"),
            ),
            ApprovalDecision::Decline | ApprovalDecision::Cancel => Json::Object(
                Object::new().with("permissions", Json::Object(Object::new())).with_text(
                    "scope",
                    "turn",
                ),
            ),
        },
        ApprovalResponseKind::LegacyExec | ApprovalResponseKind::LegacyPatch => {
            let word = match decision {
                ApprovalDecision::Accept => "approved",
                ApprovalDecision::AcceptForSession => "approved_for_session",
                ApprovalDecision::Decline => "denied",
                ApprovalDecision::Cancel => "abort",
            };
            Json::Object(Object::new().with_text("decision", word))
        },
    }
}

/// The turns and approvals of an agent.
pub ghost struct TurnsView {
    pub next_request_id: i64,
    pub operations: Map<Seq<char>, OperationView>,
    pub approvals: Map<Seq<char>, PendingView>,
}

/// The turns and approvals of an agent.
pub struct CodexTurns {
    next_request_id: i64,
    operations: TextMap<ActiveOperation>,
    approvals: TextMap<PendingApproval>,
}

impl View for CodexTurns {
    type V = TurnsView;

    closed spec fn view(&self) -> TurnsView {
        TurnsView {
            next_request_id: self.next_request_id,
            operations: self.operations.deep(),
            approvals: self.approvals.deep(),
        }
    }
}

/// The operation is that of a thread and, where one is given, of a turn.
pub open spec fn is_turn(
    operation: OperationView,
    thread_id: Seq<char>,
    turn_id: Option<Seq<char>>,
) -> bool {
    &&& operation.thread_id == thread_id
    &&& turn_id matches Some(turn) ==> operation.turn_id == turn
}

/// `found` is an operation of the thread and turn, or there is none.
pub open spec fn is_found(
    operations: Map<Seq<char>, OperationView>,
    thread_id: Seq<char>,
    turn_id: Option<Seq<char>>,
    found: Option<Seq<char>>,
) -> bool {
    match found {
        Some(id) => operations.contains_key(id) && is_turn(operations[id], thread_id, turn_id),
        None => forall|id: Seq<char>| #[trigger]
            operations.contains_key(id) ==> !is_turn(operations[id], thread_id, turn_id),
    }
}

/// The characters of an optional string slice.
pub open spec fn str_view(value: Option<&str>) -> Option<Seq<char>> {
    match value {
        Some(t) => Some(t@),
        None => None,
    }
}

/// The characters of an optional operation identifier.
pub open spec fn id_view(value: Option<OperationId>) -> Option<Seq<char>> {
    match value {
        Some(id) => Some(id@),
        None => None,
    }
}

/// What the host does with a request of the agent.
#[derive(Debug, PartialEq, Eq)]
pub enum ServerAction {
    /// Run the tool and answer with its response.
    CallTool { request_id: RequestId, call: crate::codex_tools::ToolCall },
    /// Hand the event to the operation's consumer, or refuse the request if that fails; else the
    /// answer follows with the approval.
    Ask { request_id: RequestId, operation_id: OperationId, event: AgentEvent },
    /// Answer with an error.
    Reject { request_id: RequestId, code: i64, message: String },
}

/// The state with the turn of an operation that begins and has said nothing yet.
pub open spec fn begun_turn(
    turns: TurnsView,
    id: Seq<char>,
    thread_id: Seq<char>,
    turn_id: Seq<char>,
    conversation_id: Seq<char>,
) -> TurnsView {
    TurnsView {
        operations: turns.operations.insert(
            id,
            OperationView { thread_id, turn_id, conversation_id, assistant_text: Seq::empty() },
        ),
        ..turns
    }
}

/// The thread and the turn that an operation is worked on in.
pub open spec fn turn_of(turns: TurnsView, id: Seq<char>) -> Option<(Seq<char>, Seq<char>)> {
    if turns.operations.contains_key(id) {
        Some((turns.operations[id].thread_id, turns.operations[id].turn_id))
    } else {
        None
    }
}

/// The code of the error that refuses a request.
pub const REFUSED: i64 = -32601;

impl CodexTurns {
    /// No turn yet; the first request is number one.
    pub fn new() -> (out: CodexTurns)
        ensures
            out@ == (TurnsView {
                next_request_id: 1,
                operations: Map::empty(),
                approvals: Map::empty(),
            }),
    {
        let out = CodexTurns {
            next_request_id: 1,
            operations: TextMap::new(),
            approvals: TextMap::new(),
        };
        proof {
            assert(out.operations.deep() =~= Map::<Seq<char>, OperationView>::empty());
            assert(out.approvals.deep() =~= Map::<Seq<char>, PendingView>::empty());
        }
        out
    }

    /// Takes the next request number; the numbers wrap around.
    pub fn request_id(&mut self) -> (out: RequestId)
        ensures
            out@ == RequestView::Integer(old(self)@.next_request_id),
            final(self)@ == (TurnsView {
                next_request_id: old(self)@.next_request_id.wrapping_add(1),
                ..old(self)@
            }),
    {
        let id: i64 = self.next_request_id;
        self.next_request_id = id.wrapping_add(1);
        RequestId::Integer(id)
    }

    /// Finds the operation of a thread and turn.
    pub fn find(&self, thread_id: &str, turn_id: Option<&str>) -> (out: Option<OperationId>)
        ensures
            is_found(self@.operations, thread_id@, str_view(turn_id), id_view(out)),
    {
        let n: usize = self.operations.len();
        let mut i: usize = 0;
        while i < n
            invariant
                i <= n,
                n == self.operations.keys().len(),
                forall|key: Seq<char>| #[trigger]
                    self.operations@.contains_key(key) <==> self.operations.keys().contains(key),
                forall|j: int|
                    0 <= j < i ==> !is_turn(
                        self@.operations[#[trigger] self.operations.keys()[j]],
                        thread_id@,
                        str_view(turn_id),
                    ),
            decreases n - i,
        {
            let operation = self.operations.value_at(i);
            let fits = same(operation.thread_id.as_str(), thread_id) && match turn_id {
                Some(turn) => same(operation.turn_id.as_str(), turn),
                None => true,
            };
            if fits {
                return Some(OperationId(self.operations.key_at(i).clone()));
            }
            i = i + 1;
        }
        proof {
            assert forall|id: Seq<char>| #[trigger]
                self@.operations.contains_key(id) implies !is_turn(
                self@.operations[id],
                thread_id@,
                str_view(turn_id),
            ) by {
                assert(self.operations.keys().contains(id));
                let j = choose|j: int|
                    0 <= j < self.operations.keys().len() && self.operations.keys()[j] == id;
                assert(self.operations.keys()[j] == id);
            }
        }
        None
    }

    /// Begins the turn of an operation.
    pub fn begin(
        &mut self,
        operation_id: OperationId,
        thread_id: String,
        turn_id: String,
        conversation_id: ConversationId,
    )
        ensures
            final(self)@ == begun_turn(
                old(self)@,
                operation_id@,
                thread_id@,
                turn_id@,
                conversation_id@,
            ),
    {
        let operation = ActiveOperation {
            thread_id,
            turn_id,
            conversation_id,
            assistant_text: String::new(),
        };
        let ghost before = self.operations.deep();
        self.operations.insert(operation_id.0, operation);
        proof {
            assert(operation@.assistant_text =~= Seq::<char>::empty());
            assert(self.operations.deep() =~= before.insert(operation_id@, operation@));
        }
    }

    fn take(&mut self, operation_id: &OperationId) -> (out: Option<ActiveOperation>)
        ensures
            final(self)@ == (TurnsView {
                operations: old(self)@.operations.remove(operation_id@),
                ..old(self)@
            }),
            match out {
                Some(operation) => old(self)@.operations.contains_key(operation_id@)
                    && operation@ == old(self)@.operations[operation_id@],
                None => !old(self)@.operations.contains_key(operation_id@),
            },
    {
        let ghost before = self.operations.deep();
        let out = self.operations.remove(operation_id.as_str());
        proof {
            assert(self.operations.deep() =~= before.remove(operation_id@));
        }
        out
    }

    fn put(&mut self, operation_id: &OperationId, operation: ActiveOperation)
        ensures
            final(self)@ == (TurnsView {
                operations: old(self)@.operations.insert(operation_id@, operation@),
                ..old(self)@
            }),
    {
        let ghost before = self.operations.deep();
        self.operations.insert(operation_id.0.clone(), operation);
        proof {
            assert(self.operations.deep() =~= before.insert(operation_id@, operation@));
        }
    }
}

/// A request of the agent to its host.
#[derive(Debug, PartialEq, Eq)]
pub enum ServerRequest {
    DynamicToolCall { request_id: RequestId, call: crate::codex_tools::ToolCall },
    CommandExecutionRequestApproval {
        request_id: RequestId,
        thread_id: String,
        turn_id: String,
        details: Json,
    },
    FileChangeRequestApproval {
        request_id: RequestId,
        thread_id: String,
        turn_id: String,
        details: Json,
    },
    PermissionsRequestApproval {
        request_id: RequestId,
        thread_id: String,
        turn_id: String,
        requested: Json,
        details: Json,
    },
    ExecCommandApproval { request_id: RequestId, conversation_id: String, details: Json },
    ApplyPatchApproval { request_id: RequestId, conversation_id: String, details: Json },
    Other { request_id: RequestId },
}

/// What a request for approval asks.
pub ghost struct Question {
    pub request_id: RequestView,
    pub kind: ApprovalKindView,
    pub thread_id: Seq<char>,
    pub turn_id: Option<Seq<char>>,
    pub title: Seq<char>,
    pub details: Tree,
}

/// The question in a request of the agent.
pub open spec fn question(request: ServerRequest) -> Option<Question> {
    match request {
        ServerRequest::CommandExecutionRequestApproval {
            request_id,
            thread_id,
            turn_id,
            details,
        } => Some(
            Question {
                request_id: request_id@,
                kind: ApprovalKindView::CommandExecution,
                thread_id: thread_id@,
                turn_id: Some(turn_id@),
                title: "Codex 请求执行命令"@,
                details: details@,
            },
        ),
        ServerRequest::FileChangeRequestApproval { request_id, thread_id, turn_id, details } =>
            Some(
            Question {
                request_id: request_id@,
                kind: ApprovalKindView::FileChange,
                thread_id: thread_id@,
                turn_id: Some(turn_id@),
                title: "Codex 请求修改文件"@,
                details: details@,
            },
        ),
        ServerRequest::PermissionsRequestApproval {
            request_id,
            thread_id,
            turn_id,
            requested,
            details,
        } => Some(
            Question {
                request_id: request_id@,
                kind: ApprovalKindView::Permissions { requested: requested@ },
                thread_id: thread_id@,
                turn_id: Some(turn_id@),
                title: "Codex 请求扩展权限"@,
                details: details@,
            },
        ),
        ServerRequest::ExecCommandApproval { request_id, conversation_id, details } => Some(
            Question {
                request_id: request_id@,
                kind: ApprovalKindView::LegacyExec,
                thread_id: conversation_id@,
                turn_id: None,
                title: "Codex 请求执行命令"@,
                details: details@,
            },
        ),
        ServerRequest::ApplyPatchApproval { request_id, conversation_id, details } => Some(
            Question {
                request_id: request_id@,
                kind: ApprovalKindView::LegacyPatch,
                thread_id: conversation_id@,
                turn_id: None,
                title: "Codex 请求应用补丁"@,
                details: details@,
            },
        ),
        _ => None,
    }
}

/// The state with a question waiting under `approval`.
pub open spec fn waiting(turns: TurnsView, approval: Seq<char>, asked: Question) -> TurnsView {
    TurnsView {
        approvals: turns.approvals.insert(
            approval,
            PendingView { request_id: asked.request_id, response_kind: asked.kind },
        ),
        ..turns
    }
}

/// The event that puts a question to the consumer.
pub open spec fn question_event(approval: Seq<char>, asked: Question) -> AgentEventView {
    AgentEventView::ApprovalRequested {
        approval_id: approval,
        title: asked.title,
        details: asked.details,
    }
}

/// A question of an active turn waits for its approval and goes to the consumer; any other is
/// refused and leaves no trace.
pub open spec fn is_asked(
    before: TurnsView,
    after: TurnsView,
    approval: Seq<char>,
    asked: Question,
    action: ServerAction,
) -> bool {
    match action {
        ServerAction::Ask { request_id, operation_id, event } => {
            &&& request_id@ == asked.request_id
            &&& is_found(before.operations, asked.thread_id, asked.turn_id, Some(operation_id@))
            &&& event@ == question_event(approval, asked)
            &&& after == waiting(before, approval, asked)
        },
        ServerAction::Reject { request_id, code, message } => {
            &&& request_id@ == asked.request_id
            &&& code == REFUSED
            &&& message@ == fault_text(AgentFault::Backend("approval has no active Codex turn"@))
            &&& is_found(before.operations, asked.thread_id, asked.turn_id, None)
            &&& after == before
        },
        ServerAction::CallTool { .. } => false,
    }
}

/// Refuses a request.
pub fn reject_server_request(request_id: RequestId, message: String) -> (out: ServerAction)
    ensures
        out matches ServerAction::Reject { request_id: r, code, message: m } && r@ == request_id@
            && code == REFUSED && m@ == message@,
{
    ServerAction::Reject { request_id, code: REFUSED, message }
}

/// Decides what becomes of a question once its event was handed on, or was not: a question that
/// reaches nobody is refused with the error's text.
pub fn asked(request_id: RequestId, emitted: Result<(), AgentError>) -> (out: Option<ServerAction>)
    ensures
        match emitted {
            Ok(_) => out is None,
            Err(error) => out matches Some(ServerAction::Reject { request_id: r, code, message })
                && r@ == request_id@ && code == REFUSED && message@ == fault_text(error@),
        },
{
    match emitted {
        Ok(_) => None,
        Err(error) => Some(reject_server_request(request_id, error.to_text())),
    }
}

/// How a turn stands.
#[derive(Debug, Clone, Copy, PartialEq, Eq, Structural)]
pub enum TurnStatus {
    InProgress,
    Completed,
    Interrupted,
    Failed,
}

/// What happens at the agent.
#[derive(Debug, PartialEq, Eq)]
pub enum ServerEvent {
    Lagged { skipped: u64 },
    Request(ServerRequest),
    AgentMessageDelta { thread_id: String, turn_id: String, delta: String },
    /// An item is complete; a message of the agent comes with its text.
    ItemCompleted { thread_id: String, turn_id: String, text: Option<String> },
    TurnCompleted {
        thread_id: String,
        turn_id: String,
        status: TurnStatus,
        error: Option<String>,
    },
    Error { thread_id: String, turn_id: String, message: String, will_retry: bool },
    Other,
}

/// What the host does about an event.
#[allow(inconsistent_fields)]
#[derive(Debug, PartialEq, Eq)]
pub enum Effect {
    Nothing,
    Serve(ServerAction),
    /// Hand the event to the operation's consumer; if that fails, every operation fails.
    Emit { operation_id: OperationId, event: AgentEvent },
    /// Hand the message to the consumer and end the operation with how that went.
    Deliver { operation_id: OperationId, message: Message },
    /// End these operations with this failure.
    Fail { operations: Vec<OperationId>, message: String },
}

/// The message that a finished turn delivers.
pub open spec fn finished_message(
    operation: OperationView,
    message_id: Seq<char>,
    now: i64,
) -> MessageView {
    MessageView {
        id: message_id,
        conversation_id: operation.conversation_id,
        role: MessageRole::Assistant,
        text: operation.assistant_text,
        created_at_ms: now,
        metadata: Tree::Object(
            map![
                "codexThreadId"@ => Tree::Text(operation.thread_id),
                "codexTurnId"@ => Tree::Text(operation.turn_id),
                "embedded"@ => Tree::Bool(true),
            ],
        ),
    }
}

/// Why a turn that did not complete failed.
pub open spec fn turn_failure(status: TurnStatus, error: Option<Seq<char>>) -> Seq<char> {
    match status {
        TurnStatus::Interrupted => "Codex turn was interrupted"@,
        _ => match error {
            Some(message) => message,
            None => "Codex turn failed"@,
        },
    }
}

/// The state without an operation.
pub open spec fn ended(turns: TurnsView, id: Seq<char>) -> TurnsView {
    TurnsView { operations: turns.operations.remove(id), ..turns }
}

/// The state with the text of an operation replaced.
pub open spec fn with_text(turns: TurnsView, id: Seq<char>, text: Seq<char>) -> TurnsView {
    TurnsView {
        operations: turns.operations.insert(
            id,
            OperationView { assistant_text: text, ..turns.operations[id] },
        ),
        ..turns
    }
}

/// The characters of operation identifiers.
pub open spec fn operation_ids(ids: Seq<OperationId>) -> Seq<Seq<char>> {
    Seq::new(ids.len(), |i: int| ids[i]@)
}

/// Text of a turn that somebody works on is added to its message and handed on.
pub open spec fn is_delta(
    before: TurnsView,
    after: TurnsView,
    thread_id: Seq<char>,
    turn_id: Seq<char>,
    delta: Seq<char>,
    effect: Effect,
) -> bool {
    match effect {
        Effect::Emit { operation_id, event } => {
            &&& is_found(before.operations, thread_id, Some(turn_id), Some(operation_id@))
            &&& event@ == (AgentEventView::MessageDelta { delta })
            &&& after == with_text(
                before,
                operation_id@,
                before.operations[operation_id@].assistant_text + delta,
            )
        },
        Effect::Nothing => {
            &&& is_found(before.operations, thread_id, Some(turn_id), None)
            &&& after == before
        },
        _ => false,
    }
}

/// The complete text of a message takes the place of what was put together.
pub open spec fn is_replaced(
    before: TurnsView,
    after: TurnsView,
    thread_id: Seq<char>,
    turn_id: Seq<char>,
    text: Seq<char>,
) -> bool {
    ||| is_found(before.operations, thread_id, Some(turn_id), None) && after == before
    ||| exists|id: Seq<char>| #[trigger]
        is_found(before.operations, thread_id, Some(turn_id), Some(id)) && after == with_text(
            before,
            id,
            text,
        )
}

/// A turn that is over ends its operation: with its message, or with a failure.
pub open spec fn is_completed(
    before: TurnsView,
    after: TurnsView,
    thread_id: Seq<char>,
    turn_id: Seq<char>,
    status: TurnStatus,
    error: Option<Seq<char>>,
    message_id: Seq<char>,
    now: i64,
    effect: Effect,
) -> bool {
    match effect {
        Effect::Deliver { operation_id, message } => {
            &&& status == TurnStatus::Completed
            &&& is_found(before.operations, thread_id, Some(turn_id), Some(operation_id@))
            &&& message@ == finished_message(before.operations[operation_id@], message_id, now)
            &&& after == ended(before, operation_id@)
        },
        Effect::Fail { operations, message } => {
            &&& status == TurnStatus::Interrupted || status == TurnStatus::Failed
            &&& operations@.len() == 1
            &&& is_found(before.operations, thread_id, Some(turn_id), Some(operations@[0]@))
            &&& message@ == turn_failure(status, error)
            &&& after == ended(before, operations@[0]@)
        },
        Effect::Nothing => {
            &&& status == TurnStatus::InProgress || is_found(
                before.operations,
                thread_id,
                Some(turn_id),
                None,
            )
            &&& after == before
        },
        _ => false,
    }
}

/// A failed turn ends its operation with the failure.
pub open spec fn is_failed(
    before: TurnsView,
    after: TurnsView,
    thread_id: Seq<char>,
    turn_id: Seq<char>,
    message: Seq<char>,
    effect: Effect,
) -> bool {
    match effect {
        Effect::Fail { operations, message: m } => {
            &&& operations@.len() == 1
            &&& is_found(before.operations, thread_id, Some(turn_id), Some(operations@[0]@))
            &&& m@ == message
            &&& after == ended(before, operations@[0]@)
        },
        Effect::Nothing => {
            &&& is_found(before.operations, thread_id, Some(turn_id), None)
            &&& after == before
        },
        _ => false,
    }
}

/// Every operation ends with the same failure.
pub open spec fn is_all_failed(
    before: TurnsView,
    after: TurnsView,
    message: Seq<char>,
    effect: Effect,
) -> bool {
    &&& after == (TurnsView { operations: Map::empty(), ..before })
    &&& effect matches Effect::Fail { operations, message: m }
    &&& m@ == message
    &&& operation_ids(operations@).no_duplicates()
    &&& forall|id: Seq<char>| #[trigger]
        operation_ids(operations@).contains(id) <==> before.operations.contains_key(id)
}

/// What an event at the agent does.
pub open spec fn is_handled(
    before: TurnsView,
    after: TurnsView,
    event: ServerEvent,
    approval_id: Seq<char>,
    message_id: Seq<char>,
    now: i64,
    effect: Effect,
) -> bool {
    match event {
        ServerEvent::Lagged { skipped } => is_all_failed(
            before,
            after,
            "in-process Codex event stream lagged by "@ + decimal(skipped as nat) + " events"@,
            effect,
        ),
        ServerEvent::Request(request) => {
            &&& effect matches Effect::Serve(action)
            &&& is_served(before, after, request, approval_id, action)
        },
        ServerEvent::AgentMessageDelta { thread_id, turn_id, delta } => is_delta(
            before,
            after,
            thread_id@,
            turn_id@,
            delta@,
            effect,
        ),
        ServerEvent::ItemCompleted { thread_id, turn_id, text } => {
            &&& effect == Effect::Nothing
            &&& match text {
                Some(text) => is_replaced(before, after, thread_id@, turn_id@, text@),
                None => after == before,
            }
        },
        ServerEvent::TurnCompleted { thread_id, turn_id, status, error } => is_completed(
            before,
            after,
            thread_id@,
            turn_id@,
            status,
            opt_view(error),
            message_id,
            now,
            effect,
        ),
        ServerEvent::Error { thread_id, turn_id, message, will_retry } => if will_retry {
            effect == Effect::Nothing && after == before
        } else {
            is_failed(before, after, thread_id@, turn_id@, message@, effect)
        },
        ServerEvent::Other => effect == Effect::Nothing && after == before,
    }
}

/// What a request of the agent does: a tool is called, a question is asked, anything else is
/// refused.
pub open spec fn is_served(
    before: TurnsView,
    after: TurnsView,
    request: ServerRequest,
    approval_id: Seq<char>,
    action: ServerAction,
) -> bool {
    match question(request) {
        Some(asked) => is_asked(before, after, approval_id, asked, action),
        None => {
            &&& after == before
            &&& match request {
                ServerRequest::DynamicToolCall { request_id, call } => action
                    == (ServerAction::CallTool { request_id, call }),
                ServerRequest::Other { request_id } => {
                    &&& action matches ServerAction::Reject { request_id: r, code, message }
                    &&& r == request_id
                    &&& code == REFUSED
                    &&& message@
                        == "this embedded Mahayana surface does not support the requested interaction"@
                },
                _ => true,
            }
        },
    }
}

impl CodexTurns {
    /// Puts a question to the consumer of the turn that it belongs to.
    pub fn remember_approval(
        &mut self,
        request_id: RequestId,
        response_kind: ApprovalResponseKind,
        thread_id: &str,
        turn_id: Option<&str>,
        title: &str,
        details: Json,
        approval_id: ApprovalId,
    ) -> (out: Result<(OperationId, AgentEvent), AgentError>)
        ensures
            ({
                let asked = Question {
                    request_id: request_id@,
                    kind: response_kind@,
                    thread_id: thread_id@,
                    turn_id: str_view(turn_id),
                    title: title@,
                    details: details@,
                };
                match out {
                    Ok((operation_id, event)) => {
                        &&& is_found(
                            old(self)@.operations,
                            thread_id@,
                            str_view(turn_id),
                            Some(operation_id@),
                        )
                        &&& event@ == question_event(approval_id@, asked)
                        &&& final(self)@ == waiting(old(self)@, approval_id@, asked)
                    },
                    Err(error) => {
                        &&& is_found(old(self)@.operations, thread_id@, str_view(turn_id), None)
                        &&& error@ == AgentFault::Backend("approval has no active Codex turn"@)
                        &&& final(self)@ == old(self)@
                    },
                }
            }),
    {
        match self.find(thread_id, turn_id) {
            Some(operation_id) => {
                let ghost before = self.approvals.deep();
                let pending = PendingApproval { request_id, response_kind };
                self.approvals.insert(approval_id.0.clone(), pending);
                proof {
                    assert(self.approvals.deep() =~= before.insert(approval_id@, pending@));
                }
                Ok(
                    (
                        operation_id,
                        AgentEvent::ApprovalRequested {
                            approval_id,
                            title: title.to_owned(),
                            details,
                        },
                    ),
                )
            },
            None => Err(AgentError::Backend("approval has no active Codex turn".to_owned())),
        }
    }

    /// Puts a question to the consumer of its turn, or refuses it.
    pub fn remember_or_reject(
        &mut self,
        request_id: RequestId,
        response_kind: ApprovalResponseKind,
        thread_id: &str,
        turn_id: Option<&str>,
        title: &str,
        details: Json,
        approval_id: ApprovalId,
    ) -> (out: ServerAction)
        ensures
            is_asked(
                old(self)@,
                final(self)@,
                approval_id@,
                Question {
                    request_id: request_id@,
                    kind: response_kind@,
                    thread_id: thread_id@,
                    turn_id: str_view(turn_id),
                    title: title@,
                    details: details@,
                },
                out,
            ),
    {
        match self.remember_approval(
            request_id.clone(),
            response_kind,
            thread_id,
            turn_id,
            title,
            details,
            approval_id,
        ) {
            Ok((operation_id, event)) => ServerAction::Ask { request_id, operation_id, event },
            Err(error) => reject_server_request(request_id, error.to_text()),
        }
    }

    /// Decides about a request of the agent. `approval_id` is a fresh identifier for the case that
    /// the request is a question.
    pub fn handle_server_request(
        &mut self,
        request: ServerRequest,
        approval_id: ApprovalId,
    ) -> (out: ServerAction)
        ensures
            is_served(old(self)@, final(self)@, request, approval_id@, out),
    {
        match request {
            ServerRequest::DynamicToolCall { request_id, call } => ServerAction::CallTool {
                request_id,
                call,
            },
            ServerRequest::CommandExecutionRequestApproval {
                request_id,
                thread_id,
                turn_id,
                details,
            } => self.remember_or_reject(
                request_id,
                ApprovalResponseKind::CommandExecution,
                thread_id.as_str(),
                Some(turn_id.as_str()),
                "Codex 请求执行命令",
                details,
                approval_id,
            ),
            ServerRequest::FileChangeRequestApproval { request_id, thread_id, turn_id, details } =>
                self.remember_or_reject(
                request_id,
                ApprovalResponseKind::FileChange,
                thread_id.as_str(),
                Some(turn_id.as_str()),
                "Codex 请求修改文件",
                details,
                approval_id,
            ),
            ServerRequest::PermissionsRequestApproval {
                request_id,
                thread_id,
                turn_id,
                requested,
                details,
            } => self.remember_or_reject(
                request_id,
                ApprovalResponseKind::Permissions { requested },
                thread_id.as_str(),
                Some(turn_id.as_str()),
                "Codex 请求扩展权限",
                details,
                approval_id,
            ),
            ServerRequest::ExecCommandApproval { request_id, conversation_id, details } =>
                self.remember_or_reject(
                request_id,
                ApprovalResponseKind::LegacyExec,
                conversation_id.as_str(),
                None,
                "Codex 请求执行命令",
                details,
                approval_id,
            ),
            ServerRequest::ApplyPatchApproval { request_id, conversation_id, details } =>
                self.remember_or_reject(
                request_id,
                ApprovalResponseKind::LegacyPatch,
                conversation_id.as_str(),
                None,
                "Codex 请求应用补丁",
                details,
                approval_id,
            ),
            ServerRequest::Other { request_id } => ServerAction::Reject {
                request_id,
                code: REFUSED,
                message: "this embedded Mahayana surface does not support the requested interaction".to_owned(),
            },
        }
    }

    /// Adds text to the turn's message and hands it on; a turn that nobody works on is skipped.
    pub fn update_delta(&mut self, thread_id: &str, turn_id: &str, delta: String) -> (out: Effect)
        ensures
            is_delta(old(self)@, final(self)@, thread_id@, turn_id@, delta@, out),
    {
        match self.find(thread_id, Some(turn_id)) {
            Some(operation_id) => {
                let ghost before = self@;
                match self.take(&operation_id) {
                    Some(operation) => {
                        let text = operation.assistant_text.concat(delta.as_str());
                        self.put(
                            &operation_id,
                            ActiveOperation {
                                thread_id: operation.thread_id,
                                turn_id: operation.turn_id,
                                conversation_id: operation.conversation_id,
                                assistant_text: text,
                            },
                        );
                        proof {
                            assert(self@.operations =~= with_text(
                                before,
                                operation_id@,
                                before.operations[operation_id@].assistant_text + delta@,
                            ).operations);
                        }
                        Effect::Emit { operation_id, event: AgentEvent::MessageDelta { delta } }
                    },
                    None => Effect::Nothing,
                }
            },
            None => Effect::Nothing,
        }
    }

    /// Replaces the turn's message by the complete one.
    pub fn replace_completed_text(&mut self, thread_id: &str, turn_id: &str, text: String) -> (out:
        Option<OperationId>)
        ensures
            is_found(old(self)@.operations, thread_id@, Some(turn_id@), id_view(out)),
            match out {
                Some(operation_id) => final(self)@ == with_text(
                    old(self)@,
                    operation_id@,
                    text@,
                ),
                None => final(self)@ == old(self)@,
            },
    {
        match self.find(thread_id, Some(turn_id)) {
            Some(operation_id) => {
                let ghost before = self@;
                match self.take(&operation_id) {
                    Some(operation) => {
                        self.put(
                            &operation_id,
                            ActiveOperation {
                                thread_id: operation.thread_id,
                                turn_id: operation.turn_id,
                                conversation_id: operation.conversation_id,
                                assistant_text: text,
                            },
                        );
                        proof {
                            assert(self@.operations =~= with_text(
                                before,
                                operation_id@,
                                text@,
                            ).operations);
                        }
                        Some(operation_id)
                    },
                    None => None,
                }
            },
            None => None,
        }
    }

    /// Takes the operation of a thread and turn out.
    pub fn take_operation(&mut self, thread_id: &str, turn_id: &str) -> (out: Option<
        (OperationId, ActiveOperation),
    >)
        ensures
            match out {
                Some((operation_id, operation)) => {
                    &&& is_found(
                        old(self)@.operations,
                        thread_id@,
                        Some(turn_id@),
                        Some(operation_id@),
                    )
                    &&& operation@ == old(self)@.operations[operation_id@]
                    &&& final(self)@ == ended(old(self)@, operation_id@)
                },
                None => {
                    &&& is_found(old(self)@.operations, thread_id@, Some(turn_id@), None)
                    &&& final(self)@ == old(self)@
                },
            },
    {
        match self.find(thread_id, Some(turn_id)) {
            Some(operation_id) => match self.take(&operation_id) {
                Some(operation) => Some((operation_id, operation)),
                None => None,
            },
            None => None,
        }
    }

    /// Ends a turn that is over. `message_id` and `now` go into the message that a completed turn
    /// delivers.
    pub fn complete_turn(
        &mut self,
        thread_id: &str,
        turn_id: &str,
        status: TurnStatus,
        error: Option<String>,
        message_id: MessageId,
        now: i64,
    ) -> (out: Effect)
        ensures
            is_completed(
                old(self)@,
                final(self)@,
                thread_id@,
                turn_id@,
                status,
                opt_view(error),
                message_id@,
                now,
                out,
            ),
    {
        match status {
            TurnStatus::InProgress => {
                return Effect::Nothing;
            },
            _ => {},
        }
        match self.take_operation(thread_id, turn_id) {
            Some((operation_id, operation)) => match status {
                TurnStatus::Completed => {
                    let metadata = Object::new().with_text("codexThreadId", thread_id).with_text(
                        "codexTurnId",
                        turn_id,
                    ).with("embedded", Json::Bool(true));
                    Effect::Deliver {
                        operation_id,
                        message: Message {
                            id: message_id,
                            conversation_id: operation.conversation_id,
                            role: MessageRole::Assistant,
                            text: operation.assistant_text,
                            created_at_ms: now,
                            metadata: Json::Object(metadata),
                        },
                    }
                },
                TurnStatus::Interrupted => Effect::Fail {
                    operations: vec![operation_id],
                    message: "Codex turn was interrupted".to_owned(),
                },
                _ => {
                    let message = match error {
                        Some(message) => message,
                        None => "Codex turn failed".to_owned(),
                    };
                    Effect::Fail { operations: vec![operation_id], message }
                },
            },
            None => Effect::Nothing,
        }
    }

    /// Ends a turn with a failure.
    pub fn fail_turn(&mut self, thread_id: &str, turn_id: &str, message: String) -> (out: Effect)
        ensures
            is_failed(old(self)@, final(self)@, thread_id@, turn_id@, message@, out),
    {
        match self.take_operation(thread_id, turn_id) {
            Some((operation_id, _)) => Effect::Fail { operations: vec![operation_id], message },
            None => Effect::Nothing,
        }
    }

    /// Ends every turn with the same failure.
    pub fn fail_all(&mut self, message: &str) -> (out: Effect)
        ensures
            is_all_failed(old(self)@, final(self)@, message@, out),
    {
        let n: usize = self.operations.len();
        let mut operations: Vec<OperationId> = Vec::new();
        let mut i: usize = 0;
        while i < n
            invariant
                i <= n,
                n == self.operations.keys().len(),
                operation_ids(operations@) =~= self.operations.keys().take(i as int),
            decreases n - i,
        {
            let ghost before = operations@;
            operations.push(OperationId(self.operations.key_at(i).clone()));
            proof {
                assert(operation_ids(operations@) =~= operation_ids(before).push(
                    self.operations.keys()[i as int],
                ));
            }
            i = i + 1;
        }
        proof {
            assert(self.operations.keys().take(n as int) =~= self.operations.keys());
            assert forall|id: Seq<char>| #[trigger]
                operation_ids(operations@).contains(id) <==> self@.operations.contains_key(id) by {
                assert(self.operations@.contains_key(id) <==> self.operations.keys().contains(id));
            }
        }
        self.operations = TextMap::new();
        proof {
            assert(self.operations.deep() =~= Map::<Seq<char>, OperationView>::empty());
        }
        Effect::Fail { operations, message: message.to_owned() }
    }

    /// Decides about an event at the agent. `approval_id`, `message_id` and `now` are a fresh
    /// identifier for a question, one for a delivered message, and its time.
    pub fn handle_event(
        &mut self,
        event: ServerEvent,
        approval_id: ApprovalId,
        message_id: MessageId,
        now: i64,
    ) -> (out: Effect)
        ensures
            is_handled(
                old(self)@,
                final(self)@,
                event,
                approval_id@,
                message_id@,
                now,
                out,
            ),
    {
        match event {
            ServerEvent::Lagged { skipped } => {
                let message = "in-process Codex event stream lagged by ".to_owned().concat(
                    decimal_text(skipped).as_str(),
                ).concat(" events");
                self.fail_all(message.as_str())
            },
            ServerEvent::Request(request) => Effect::Serve(
                self.handle_server_request(request, approval_id),
            ),
            ServerEvent::AgentMessageDelta { thread_id, turn_id, delta } => self.update_delta(
                thread_id.as_str(),
                turn_id.as_str(),
                delta,
            ),
            ServerEvent::ItemCompleted { thread_id, turn_id, text } => {
                match text {
                    Some(text) => {
                        let ghost before = self@;
                        let found = self.replace_completed_text(
                            thread_id.as_str(),
                            turn_id.as_str(),
                            text,
                        );
                        proof {
                            if found is Some {
                                assert(is_found(
                                    before.operations,
                                    thread_id@,
                                    Some(turn_id@),
                                    Some(found->0@),
                                ));
                            }
                        }
                    },
                    None => {},
                }
                Effect::Nothing
            },
            ServerEvent::TurnCompleted { thread_id, turn_id, status, error } => self.complete_turn(
                thread_id.as_str(),
                turn_id.as_str(),
                status,
                error,
                message_id,
                now,
            ),
            ServerEvent::Error { thread_id, turn_id, message, will_retry } => {
                if will_retry {
                    Effect::Nothing
                } else {
                    self.fail_turn(thread_id.as_str(), turn_id.as_str(), message)
                }
            },
            ServerEvent::Other => Effect::Nothing,
        }
    }

    /// Ends every operation because an event could not be handled.
    pub fn handling_failed(&mut self, error: &AgentError) -> (out: Effect)
        ensures
            is_all_failed(old(self)@, final(self)@, fault_text(error@), out),
    {
        self.fail_all(error.to_text().as_str())
    }

    /// Ends every operation because no more events come.
    pub fn stream_closed(&mut self) -> (out: Effect)
        ensures
            is_all_failed(
                old(self)@,
                final(self)@,
                "in-process Codex event stream closed"@,
                out,
            ),
    {
        self.fail_all("in-process Codex event stream closed")
    }

    /// Asks the agent to interrupt the turn of an operation, under the next request number.
    pub fn interrupt(&mut self, operation_id: &OperationId) -> (out: Result<
        TurnInterrupt,
        AgentError,
    >)
        ensures
            match out {
                Ok(request) => {
                    &&& turn_of(old(self)@, operation_id@) == Some(
                        (request.thread_id@, request.turn_id@),
                    )
                    &&& request.request_id@ == RequestView::Integer(old(self)@.next_request_id)
                    &&& final(self)@ == (TurnsView {
                        next_request_id: old(self)@.next_request_id.wrapping_add(1),
                        ..old(self)@
                    })
                },
                Err(error) => {
                    &&& turn_of(old(self)@, operation_id@) is None
                    &&& error@ == AgentFault::OperationNotFound(operation_id@)
                    &&& final(self)@ == old(self)@
                },
            },
    {
        let (thread_id, turn_id) = match self.operations.get(operation_id.as_str()) {
            Some(operation) => (operation.thread_id.clone(), operation.turn_id.clone()),
            None => {
                return Err(AgentError::OperationNotFound(operation_id.clone()));
            },
        };
        let request_id = self.request_id();
        Ok(TurnInterrupt { request_id, thread_id, turn_id })
    }

    /// Takes an approval out and gives the answer to its request.
    pub fn resolve_approval(&mut self, resolution: ApprovalResolution) -> (out: Result<
        (RequestId, Json),
        AgentError,
    >)
        ensures
            match out {
                Ok((request_id, response)) => {
                    &&& answer_of(old(self)@, resolution.approval_id@, resolution.decision) == Some(
                        (request_id@, response@),
                    )
                    &&& final(self)@ == resolved(old(self)@, resolution.approval_id@)
                },
                Err(error) => {
                    &&& answer_of(old(self)@, resolution.approval_id@, resolution.decision) is None
                    &&& error@ == AgentFault::ApprovalNotFound(resolution.approval_id@)
                    &&& final(self)@ == old(self)@
                },
            },
    {
        let ghost before = self.approvals.deep();
        let pending = self.approvals.remove(resolution.approval_id.as_str());
        proof {
            assert(self.approvals.deep() =~= before.remove(resolution.approval_id@));
            if !before.contains_key(resolution.approval_id@) {
                assert(before.remove(resolution.approval_id@) =~= before);
            }
        }
        match pending {
            Some(pending) => Ok(
                (pending.request_id, approval_response(pending.response_kind, resolution.decision)),
            ),
            None => Err(AgentError::ApprovalNotFound(resolution.approval_id)),
        }
    }
}

/// The request that waits for an approval, and what a decision answers to it.
pub open spec fn answer_of(turns: TurnsView, approval: Seq<char>, decision: ApprovalDecision) -> Option<
    (RequestView, Tree),
> {
    if turns.approvals.contains_key(approval) {
        let pending = turns.approvals[approval];
        Some((pending.request_id, approval_tree(pending.response_kind, decision)))
    } else {
        None
    }
}

/// The state without an approval.
pub open spec fn resolved(turns: TurnsView, approval: Seq<char>) -> TurnsView {
    TurnsView { approvals: turns.approvals.remove(approval), ..turns }
}

/// Asks the agent to interrupt a turn.
#[derive(Debug, PartialEq, Eq)]
pub struct TurnInterrupt {
    pub request_id: RequestId,
    pub thread_id: String,
    pub turn_id: String,
}

/// How an operation ended: as its turn said, or because nobody was left to say.
pub open spec fn turn_fault(ending: Option<Result<(), Seq<char>>>) -> Option<AgentFault> {
    match ending {
        Some(Ok(_)) => None,
        Some(Err(message)) => Some(AgentFault::Backend(message)),
        None => Some(AgentFault::Backend("Codex turn dispatcher stopped"@)),
    }
}

/// The result of an operation from how its turn ended; `None` where nobody was left to say.
pub fn turn_result(ending: Option<Result<(), String>>) -> (out: Result<(), AgentError>)
    ensures
        ({
            let fault = turn_fault(
                match ending {
                    Some(Ok(_)) => Some(Ok(())),
                    Some(Err(message)) => Some(Err(message@)),
                    None => None,
                },
            );
            match out {
                Ok(_) => fault is None,
                Err(error) => fault == Some(error@),
            }
        }),
{
    match ending {
        Some(Ok(_)) => Ok(()),
        Some(Err(message)) => Err(AgentError::Backend(message)),
        None => Err(AgentError::Backend("Codex turn dispatcher stopped".to_owned())),
    }
}

/// An approval is answered once: after it is resolved it is not found, until a new question takes
/// its identifier.
pub proof fn lemma_resolved_once(turns: TurnsView, approval: Seq<char>)
    ensures
        !resolved(turns, approval).approvals.contains_key(approval),
        forall|other: Seq<char>|
            other != approval ==> (#[trigger] resolved(turns, approval).approvals.contains_key(other)
                <==> turns.approvals.contains_key(other)),
{
}

/// A question that is asked waits under its identifier, and resolving it restores what was there.
pub proof fn lemma_asked_then_resolved(turns: TurnsView, approval: Seq<char>, asked: Question)
    requires
        !turns.approvals.contains_key(approval),
    ensures
        waiting(turns, approval, asked).approvals.contains_key(approval),
        waiting(turns, approval, asked).approvals[approval].response_kind == asked.kind,
        resolved(waiting(turns, approval, asked), approval) == turns,
{
    assert(resolved(waiting(turns, approval, asked), approval).approvals =~= turns.approvals);
}

/// An operation that ended is worked on no more, and no other operation is touched by its end.
pub proof fn lemma_ended(turns: TurnsView, id: Seq<char>)
    ensures
        !ended(turns, id).operations.contains_key(id),
        ended(turns, id).approvals == turns.approvals,
        forall|other: Seq<char>|
            other != id && #[trigger] turns.operations.contains_key(other) ==> ended(
                turns,
                id,
            ).operations.contains_key(other) && ended(turns, id).operations[other]
                == turns.operations[other],
{
}

/// Request numbers that follow each other differ.
pub proof fn lemma_request_ids_differ(id: i64)
    ensures
        RequestView::Integer(id.wrapping_add(1)) != RequestView::Integer(id),
{
}

/// Pieces of text that arrive one after the other make up the message together.
pub proof fn lemma_deltas_add_up(turns: TurnsView, id: Seq<char>, a: Seq<char>, b: Seq<char>)
    requires
        turns.operations.contains_key(id),
    ensures
        ({
            let start = turns.operations[id].assistant_text;
            let once = with_text(turns, id, start + a);
            let twice = with_text(once, id, once.operations[id].assistant_text + b);
            twice.operations[id].assistant_text == start + (a + b)
        }),
{
    let start = turns.operations[id].assistant_text;
    assert(start + a + b =~= start + (a + b));
}

} // verus!
