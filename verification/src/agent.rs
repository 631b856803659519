//! What an agent engine is asked and what it answers.

use crate::json::{Json, Tree};
use crate::model::{
    AgentThreadId, ApprovalDecision, ApprovalId, ConversationId, Message, MessageView, OperationId,
};
use vstd::prelude::*;
use vstd::string::*;

verus! {

/// Opens a thread for a conversation.
#[derive(Debug, PartialEq, Eq)]
pub struct StartThreadRequest {
    pub conversation_id: ConversationId,
}

/// Sends a message into a thread.
#[derive(Debug, PartialEq, Eq)]
pub struct AgentMessageRequest {
    pub thread_id: AgentThreadId,
    pub conversation_id: ConversationId,
    pub operation_id: OperationId,
    pub text: String,
    pub client_message_id: Option<String>,
}

/// Answers a request for approval.
#[derive(Debug, PartialEq, Eq)]
pub struct ApprovalResolution {
    pub approval_id: ApprovalId,
    pub decision: ApprovalDecision,
    pub payload: Json,
}

/// What an agent emits while it works.
pub ghost enum AgentEventView {
    MessageDelta { delta: Seq<char> },
    MessageCompleted { message: MessageView },
    ApprovalRequested { approval_id: Seq<char>, title: Seq<char>, details: Tree },
}

/// What an agent emits while it works.
#[derive(Debug, PartialEq, Eq)]
pub enum AgentEvent {
    MessageDelta { delta: String },
    MessageCompleted { message: Message },
    ApprovalRequested { approval_id: ApprovalId, title: String, details: Json },
}

impl View for AgentEvent {
    type V = AgentEventView;

    open spec fn view(&self) -> AgentEventView {
        match self {
            AgentEvent::MessageDelta { delta } => AgentEventView::MessageDelta { delta: delta@ },
            AgentEvent::MessageCompleted { message } => AgentEventView::MessageCompleted {
                message: message@,
            },
            AgentEvent::ApprovalRequested { approval_id, title, details } =>
                AgentEventView::ApprovalRequested {
                approval_id: approval_id@,
                title: title@,
                details: details@,
            },
        }
    }
}

/// Why an agent refuses or fails.
pub ghost enum AgentFault {
    Unavailable(Seq<char>),
    ThreadNotFound(Seq<char>),
    OperationNotFound(Seq<char>),
    ApprovalNotFound(Seq<char>),
    Backend(Seq<char>),
    EventConsumerClosed,
}

/// Why an agent refuses or fails.
#[derive(Debug, PartialEq, Eq)]
pub enum AgentError {
    Unavailable(String),
    ThreadNotFound(AgentThreadId),
    OperationNotFound(OperationId),
    ApprovalNotFound(ApprovalId),
    Backend(String),
    EventConsumerClosed,
}

impl View for AgentError {
    type V = AgentFault;

    open spec fn view(&self) -> AgentFault {
        match self {
            AgentError::Unavailable(reason) => AgentFault::Unavailable(reason@),
            AgentError::ThreadNotFound(id) => AgentFault::ThreadNotFound(id@),
            AgentError::OperationNotFound(id) => AgentFault::OperationNotFound(id@),
            AgentError::ApprovalNotFound(id) => AgentFault::ApprovalNotFound(id@),
            AgentError::Backend(reason) => AgentFault::Backend(reason@),
            AgentError::EventConsumerClosed => AgentFault::EventConsumerClosed,
        }
    }
}

/// How a fault reads.
pub open spec fn fault_text(fault: AgentFault) -> Seq<char> {
    match fault {
        AgentFault::Unavailable(reason) => "agent backend is unavailable: "@ + reason,
        AgentFault::ThreadNotFound(id) => "agent thread was not found: "@ + id,
        AgentFault::OperationNotFound(id) => "agent operation was not found: "@ + id,
        AgentFault::ApprovalNotFound(id) => "agent approval was not found: "@ + id,
        AgentFault::Backend(reason) => "agent backend failed: "@ + reason,
        AgentFault::EventConsumerClosed => "agent event consumer is closed"@,
    }
}

impl AgentError {
    /// How the error reads.
    pub fn to_text(&self) -> (out: String)
        ensures
            out@ == fault_text(self@),
    {
        match self {
            AgentError::Unavailable(reason) => "agent backend is unavailable: ".to_owned().concat(
                reason.as_str(),
            ),
            AgentError::ThreadNotFound(id) => "agent thread was not found: ".to_owned().concat(
                id.as_str(),
            ),
            AgentError::OperationNotFound(id) => "agent operation was not found: ".to_owned().concat(
                id.as_str(),
            ),
            AgentError::ApprovalNotFound(id) => "agent approval was not found: ".to_owned().concat(
                id.as_str(),
            ),
            AgentError::Backend(reason) => "agent backend failed: ".to_owned().concat(
                reason.as_str(),
            ),
            AgentError::EventConsumerClosed => "agent event consumer is closed".to_owned(),
        }
    }
}

/// The agent of a build that has none: it answers every request with the reason, and asks no
/// other agent.
pub struct UnavailableAgentBackend {
    reason: String,
}

impl UnavailableAgentBackend {
    /// Why there is no agent.
    pub closed spec fn why(&self) -> Seq<char> {
        self.reason@
    }

    /// The agent that answers with `reason`.
    pub fn new(reason: String) -> (out: UnavailableAgentBackend)
        ensures
            out.why() == reason@,
    {
        UnavailableAgentBackend { reason }
    }

    fn error(&self) -> (out: AgentError)
        ensures
            out@ == AgentFault::Unavailable(self.why()),
    {
        AgentError::Unavailable(self.reason.clone())
    }

    /// Refuses to open a thread.
    pub fn start_thread(&self, _request: StartThreadRequest) -> (out: Result<
        AgentThreadId,
        AgentError,
    >)
        ensures
            out matches Err(error) && error@ == AgentFault::Unavailable(self.why()),
    {
        Err(self.error())
    }

    /// Refuses a message.
    pub fn send_message(&self, _request: AgentMessageRequest) -> (out: Result<(), AgentError>)
        ensures
            out matches Err(error) && error@ == AgentFault::Unavailable(self.why()),
    {
        Err(self.error())
    }

    /// Refuses to interrupt.
    pub fn interrupt(&self, _operation_id: &OperationId) -> (out: Result<(), AgentError>)
        ensures
            out matches Err(error) && error@ == AgentFault::Unavailable(self.why()),
    {
        Err(self.error())
    }

    /// Refuses an approval.
    pub fn resolve_approval(&self, _resolution: ApprovalResolution) -> (out: Result<
        (),
        AgentError,
    >)
        ensures
            out matches Err(error) && error@ == AgentFault::Unavailable(self.why()),
    {
        Err(self.error())
    }

    /// The backend's name.
    pub fn name(&self) -> (out: &'static str)
        ensures
            out@ == "unavailable"@,
    {
        "unavailable"
    }
}

/// Milliseconds since the epoch as a time stamp: times before it count as the epoch, and times
/// that do not fit as the last one that does.
pub open spec fn stamp(elapsed: Option<u128>) -> i64 {
    match elapsed {
        Some(millis) => if millis <= i64::MAX {
            millis as i64
        } else {
            i64::MAX
        },
        None => 0,
    }
}

/// The time stamp of a reading of the clock, which is `None` before the epoch.
pub fn time_stamp(elapsed: Option<u128>) -> (out: i64)
    ensures
        out == stamp(elapsed),
{
    match elapsed {
        Some(millis) => if millis <= i64::MAX as u128 {
            millis as i64
        } else {
            i64::MAX
        },
        None => 0,
    }
}

} // verus!
