//! Conversations, messages, commands and events, as every shell of the runtime speaks of them.

use crate::json::{Json, Tree};
use vstd::prelude::*;

verus! {

/// The identifier of a conversation.
#[derive(Debug, PartialEq, Eq)]
pub struct ConversationId(pub String);

impl View for ConversationId {
    type V = Seq<char>;

    open spec fn view(&self) -> Seq<char> {
        self.0@
    }
}

impl ConversationId {
    /// The identifier as text.
    pub fn as_str(&self) -> (out: &str)
        ensures
            out@ == self@,
    {
        self.0.as_str()
    }
}

impl Clone for ConversationId {
    fn clone(&self) -> (out: ConversationId)
        ensures
            out@ == self@,
    {
        ConversationId(self.0.clone())
    }
}

/// The identifier of a thread of an agent.
#[derive(Debug, PartialEq, Eq)]
pub struct AgentThreadId(pub String);

impl View for AgentThreadId {
    type V = Seq<char>;

    open spec fn view(&self) -> Seq<char> {
        self.0@
    }
}

impl AgentThreadId {
    /// The identifier as text.
    pub fn as_str(&self) -> (out: &str)
        ensures
            out@ == self@,
    {
        self.0.as_str()
    }
}

impl Clone for AgentThreadId {
    fn clone(&self) -> (out: AgentThreadId)
        ensures
            out@ == self@,
    {
        AgentThreadId(self.0.clone())
    }
}

/// The identifier of a running operation.
#[derive(Debug, PartialEq, Eq)]
pub struct OperationId(pub String);

impl View for OperationId {
    type V = Seq<char>;

    open spec fn view(&self) -> Seq<char> {
        self.0@
    }
}

impl OperationId {
    /// The identifier as text.
    pub fn as_str(&self) -> (out: &str)
        ensures
            out@ == self@,
    {
        self.0.as_str()
    }
}

impl Clone for OperationId {
    fn clone(&self) -> (out: OperationId)
        ensures
            out@ == self@,
    {
        OperationId(self.0.clone())
    }
}

/// The identifier of a request for approval.
#[derive(Debug, PartialEq, Eq)]
pub struct ApprovalId(pub String);

impl View for ApprovalId {
    type V = Seq<char>;

    open spec fn view(&self) -> Seq<char> {
        self.0@
    }
}

impl ApprovalId {
    /// The identifier as text.
    pub fn as_str(&self) -> (out: &str)
        ensures
            out@ == self@,
    {
        self.0.as_str()
    }
}

impl Clone for ApprovalId {
    fn clone(&self) -> (out: ApprovalId)
        ensures
            out@ == self@,
    {
        ApprovalId(self.0.clone())
    }
}

/// The identifier of a message.
#[derive(Debug, PartialEq, Eq)]
pub struct MessageId(pub String);

impl View for MessageId {
    type V = Seq<char>;

    open spec fn view(&self) -> Seq<char> {
        self.0@
    }
}

impl MessageId {
    /// The identifier as text.
    pub fn as_str(&self) -> (out: &str)
        ensures
            out@ == self@,
    {
        self.0.as_str()
    }
}

impl Clone for MessageId {
    fn clone(&self) -> (out: MessageId)
        ensures
            out@ == self@,
    {
        MessageId(self.0.clone())
    }
}

/// Who wrote a message.
#[derive(Debug, Clone, Copy, PartialEq, Eq, Structural)]
pub enum MessageRole {
    User,
    Assistant,
    MiniApp,
}

/// What a message says and where it belongs.
pub ghost struct MessageView {
    pub id: Seq<char>,
    pub conversation_id: Seq<char>,
    pub role: MessageRole,
    pub text: Seq<char>,
    pub created_at_ms: i64,
    pub metadata: Tree,
}

/// A message of a conversation.
#[derive(Debug, PartialEq, Eq)]
pub struct Message {
    pub id: MessageId,
    pub conversation_id: ConversationId,
    pub role: MessageRole,
    pub text: String,
    pub created_at_ms: i64,
    pub metadata: Json,
}

impl View for Message {
    type V = MessageView;

    open spec fn view(&self) -> MessageView {
        MessageView {
            id: self.id@,
            conversation_id: self.conversation_id@,
            role: self.role,
            text: self.text@,
            created_at_ms: self.created_at_ms,
            metadata: self.metadata@,
        }
    }
}

impl Clone for Message {
    fn clone(&self) -> (out: Message)
        ensures
            out@ == self@,
    {
        Message {
            id: self.id.clone(),
            conversation_id: self.conversation_id.clone(),
            role: self.role,
            text: self.text.clone(),
            created_at_ms: self.created_at_ms,
            metadata: self.metadata.clone(),
        }
    }
}

/// What messages say, in their order.
pub open spec fn message_views(messages: Seq<Message>) -> Seq<MessageView> {
    Seq::new(messages.len(), |i: int| messages[i]@)
}

/// The last `limit` values.
pub open spec fn latest<T>(all: Seq<T>, limit: nat) -> Seq<T> {
    if all.len() > limit {
        all.skip(all.len() - limit)
    } else {
        all
    }
}

/// Copies the last messages, `limit` of them at most.
pub fn latest_messages(messages: &Vec<Message>, limit: usize) -> (out: Vec<Message>)
    ensures
        message_views(out@) == latest(message_views(messages@), limit as nat),
{
    let start: usize = if messages.len() > limit {
        messages.len() - limit
    } else {
        0
    };
    let mut out: Vec<Message> = Vec::new();
    let mut i: usize = start;
    while i < messages.len()
        invariant
            start <= i <= messages@.len(),
            out@.len() == i - start,
            forall|j: int| 0 <= j < out@.len() ==> (#[trigger] out@[j])@ == messages@[start + j]@,
        decreases messages@.len() - i,
    {
        out.push(messages[i].clone());
        i = i + 1;
    }
    proof {
        assert(message_views(out@) =~= latest(message_views(messages@), limit as nat));
    }
    out
}

/// The other side of a conversation.
pub ghost enum PeerView {
    MiniApp { app_id: Seq<char> },
    Other(Tree),
}

/// The other side of a conversation: a mini-app, or a peer that only its host can describe.
#[derive(Debug, PartialEq, Eq)]
pub enum PeerKind {
    MiniApp { app_id: String },
    Other(Json),
}

impl View for PeerKind {
    type V = PeerView;

    open spec fn view(&self) -> PeerView {
        match self {
            PeerKind::MiniApp { app_id } => PeerView::MiniApp { app_id: app_id@ },
            PeerKind::Other(details) => PeerView::Other(details@),
        }
    }
}

/// An entry of the contact list.
pub ghost struct ConversationView {
    pub id: Seq<char>,
    pub title: Seq<char>,
    pub peer: PeerView,
    pub pinned: bool,
    pub unread_count: u32,
    pub updated_at_ms: i64,
}

/// An entry of the contact list.
#[derive(Debug, PartialEq, Eq)]
pub struct Conversation {
    pub id: ConversationId,
    pub title: String,
    pub peer: PeerKind,
    pub pinned: bool,
    pub unread_count: u32,
    pub updated_at_ms: i64,
}

impl View for Conversation {
    type V = ConversationView;

    open spec fn view(&self) -> ConversationView {
        ConversationView {
            id: self.id@,
            title: self.title@,
            peer: self.peer@,
            pinned: self.pinned,
            unread_count: self.unread_count,
            updated_at_ms: self.updated_at_ms,
        }
    }
}

/// The contact list entries, in their order.
pub open spec fn conversation_views(conversations: Seq<Conversation>) -> Seq<ConversationView> {
    Seq::new(conversations.len(), |i: int| conversations[i]@)
}

/// The answer to a request for approval.
#[derive(Debug, Clone, Copy, PartialEq, Eq, Structural)]
pub enum ApprovalDecision {
    Accept,
    AcceptForSession,
    Decline,
    Cancel,
}

/// What a runtime tells about itself.
#[derive(Debug, PartialEq, Eq)]
pub struct RuntimeStatus {
    pub versions: RuntimeVersions,
    pub build_profile: BuildProfile,
    pub model_provider: ModelProviderMode,
    pub model: String,
    pub remote_agent_enabled: bool,
    pub telemetry_enabled: bool,
    pub providers: Vec<String>,
}

/// The versions of what a runtime speaks.
#[derive(Debug, Clone, Copy, PartialEq, Eq, Structural)]
pub struct RuntimeVersions {
    pub runtime_abi: u32,
    pub conversation_schema: u32,
    pub model_runtime: u32,
}

/// The platform that a runtime was built for.
#[derive(Debug, Clone, Copy, PartialEq, Eq, Structural)]
pub enum BuildProfile {
    WebWasm,
}

/// Who serves the model.
#[derive(Debug, Clone, Copy, PartialEq, Eq, Structural)]
pub enum ModelProviderMode {
    FirstPartyDacheng,
}

/// What a runtime tells about itself.
pub ghost struct StatusView {
    pub versions: RuntimeVersions,
    pub build_profile: BuildProfile,
    pub model_provider: ModelProviderMode,
    pub model: Seq<char>,
    pub remote_agent_enabled: bool,
    pub telemetry_enabled: bool,
    pub providers: Seq<Seq<char>>,
}

impl View for RuntimeStatus {
    type V = StatusView;

    open spec fn view(&self) -> StatusView {
        StatusView {
            versions: self.versions,
            build_profile: self.build_profile,
            model_provider: self.model_provider,
            model: self.model@,
            remote_agent_enabled: self.remote_agent_enabled,
            telemetry_enabled: self.telemetry_enabled,
            providers: crate::text::texts(self.providers@),
        }
    }
}

/// What happens in a runtime.
#[allow(inconsistent_fields)]
pub ghost enum EventView {
    Ready { status: StatusView },
    MessageDelta { operation_id: Seq<char>, conversation_id: Seq<char>, delta: Seq<char> },
    MessageCompleted { operation_id: Seq<char>, message: MessageView },
    ApprovalRequested {
        operation_id: Seq<char>,
        approval_id: Seq<char>,
        title: Seq<char>,
        details: Tree,
    },
    OperationCompleted { operation_id: Seq<char> },
    OperationFailed { operation_id: Seq<char>, code: Seq<char>, message: Seq<char> },
}

/// What happens in a runtime.
#[allow(inconsistent_fields)]
#[derive(Debug, PartialEq, Eq)]
pub enum RuntimeEvent {
    Ready { status: RuntimeStatus },
    MessageDelta { operation_id: OperationId, conversation_id: ConversationId, delta: String },
    MessageCompleted { operation_id: OperationId, message: Message },
    ApprovalRequested {
        operation_id: OperationId,
        approval_id: ApprovalId,
        title: String,
        details: Json,
    },
    OperationCompleted { operation_id: OperationId },
    OperationFailed { operation_id: OperationId, code: String, message: String },
}

impl View for RuntimeEvent {
    type V = EventView;

    open spec fn view(&self) -> EventView {
        match self {
            RuntimeEvent::Ready { status } => EventView::Ready { status: status@ },
            RuntimeEvent::MessageDelta { operation_id, conversation_id, delta } =>
                EventView::MessageDelta {
                operation_id: operation_id@,
                conversation_id: conversation_id@,
                delta: delta@,
            },
            RuntimeEvent::MessageCompleted { operation_id, message } =>
                EventView::MessageCompleted { operation_id: operation_id@, message: message@ },
            RuntimeEvent::ApprovalRequested { operation_id, approval_id, title, details } =>
                EventView::ApprovalRequested {
                operation_id: operation_id@,
                approval_id: approval_id@,
                title: title@,
                details: details@,
            },
            RuntimeEvent::OperationCompleted { operation_id } => EventView::OperationCompleted {
                operation_id: operation_id@,
            },
            RuntimeEvent::OperationFailed { operation_id, code, message } =>
                EventView::OperationFailed {
                operation_id: operation_id@,
                code: code@,
                message: message@,
            },
        }
    }
}

/// The events, in their order.
pub open spec fn event_views(events: Seq<RuntimeEvent>) -> Seq<EventView> {
    Seq::new(events.len(), |i: int| events[i]@)
}

} // verus!
