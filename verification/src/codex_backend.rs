//! The agent as its host drives it: how it starts, and the requests that open threads and turns.

use crate::agent::{AgentError, AgentMessageRequest, StartThreadRequest};
use crate::codex_config::{
    codex_config_fault, plan_matches, plan_start, AskForApproval, CodexAgentConfig, StartPlan,
};
use crate::codex_tools::{mahayana_dynamic_tools, offered_tools, ToolNamespace};
use crate::codex_turns::{begun_turn, CodexTurns, RequestId, RequestView, TurnsView};
use crate::text::texts;
use crate::url_text::opt_view;
use vstd::prelude::*;

verus! {

/// Opens a thread.
#[derive(Debug, PartialEq, Eq)]
pub struct ThreadStart {
    pub request_id: RequestId,
    pub model: String,
    pub model_provider: String,
    pub cwd: String,
    pub workspace_roots: Vec<String>,
    pub approval_policy: AskForApproval,
    pub ephemeral: bool,
    pub dynamic_tools: ToolNamespace,
}

/// Opens a turn with a message of the user.
#[derive(Debug, PartialEq, Eq)]
pub struct TurnStart {
    pub request_id: RequestId,
    pub thread_id: String,
    pub client_user_message_id: Option<String>,
    pub text: String,
    pub cwd: String,
    pub workspace_roots: Vec<String>,
}

/// The request opens a thread as an agent was started: with its model, directories, policy and
/// tools.
pub open spec fn opens_thread(start: ThreadStart, plan: StartPlan, number: i64) -> bool {
    &&& start.request_id@ == RequestView::Integer(number)
    &&& start.model@ == plan.model@
    &&& start.model_provider@ == plan.provider_id@
    &&& start.cwd@ == plan.cwd@
    &&& texts(start.workspace_roots@) == texts(plan.workspace_roots@)
    &&& start.approval_policy == plan.approval_policy
    &&& !start.ephemeral
    &&& start.dynamic_tools.name@ == "mahayana"@
    &&& start.dynamic_tools.description@
        == "操作 App 内置大乘 Runtime 的本地工作区与联系人会话。"@
    &&& Seq::new(start.dynamic_tools.tools@.len(), |i: int| start.dynamic_tools.tools@[i]@)
        == offered_tools()
}

/// The request opens a turn for a message, where the agent was started.
pub open spec fn opens_turn(
    start: TurnStart,
    request: AgentMessageRequest,
    plan: StartPlan,
    number: i64,
) -> bool {
    &&& start.request_id@ == RequestView::Integer(number)
    &&& start.thread_id@ == request.thread_id@
    &&& opt_view(start.client_user_message_id) == opt_view(request.client_message_id)
    &&& start.text@ == request.text@
    &&& start.cwd@ == plan.cwd@
    &&& texts(start.workspace_roots@) == texts(plan.workspace_roots@)
}

/// The state after one request number was taken.
pub open spec fn numbered(turns: TurnsView) -> TurnsView {
    TurnsView { next_request_id: turns.next_request_id.wrapping_add(1), ..turns }
}

fn copy_texts(items: &Vec<String>) -> (out: Vec<String>)
    ensures
        texts(out@) == texts(items@),
{
    let mut out: Vec<String> = Vec::new();
    let mut i: usize = 0;
    while i < items.len()
        invariant
            i <= items@.len(),
            texts(out@) =~= texts(items@).take(i as int),
        decreases items@.len() - i,
    {
        let ghost before = out@;
        out.push(items[i].clone());
        proof {
            assert(texts(out@) =~= texts(before).push(items@[i as int]@));
        }
        i = i + 1;
    }
    out
}

/// An agent: how it was started, and its turns and approvals.
pub struct CodexAgentBackend {
    pub plan: StartPlan,
    pub turns: CodexTurns,
}

impl CodexAgentBackend {
    /// Starts an agent that has no turn yet; settings that do not validate start none.
    pub fn start(settings: CodexAgentConfig) -> (out: Result<CodexAgentBackend, AgentError>)
        ensures
            match out {
                Ok(agent) => {
                    &&& codex_config_fault(settings) is None
                    &&& plan_matches(agent.plan, settings)
                    &&& agent.turns@ == (TurnsView {
                        next_request_id: 1,
                        operations: Map::empty(),
                        approvals: Map::empty(),
                    })
                },
                Err(error) => codex_config_fault(settings) == Some(error@),
            },
    {
        match plan_start(settings) {
            Ok(plan) => Ok(CodexAgentBackend { plan, turns: CodexTurns::new() }),
            Err(error) => Err(error),
        }
    }

    /// Opens a thread with the settings that the agent was started with.
    pub fn start_thread(&mut self, _request: StartThreadRequest) -> (out: ThreadStart)
        ensures
            final(self).plan == old(self).plan,
            final(self).turns@ == numbered(old(self).turns@),
            opens_thread(out, old(self).plan, old(self).turns@.next_request_id),
    {
        ThreadStart {
            request_id: self.turns.request_id(),
            model: self.plan.model.clone(),
            model_provider: self.plan.provider_id.clone(),
            cwd: self.plan.cwd.clone(),
            workspace_roots: copy_texts(&self.plan.workspace_roots),
            approval_policy: self.plan.approval_policy,
            ephemeral: false,
            dynamic_tools: mahayana_dynamic_tools(),
        }
    }

    /// Opens a turn for a message; once the agent has named the turn, the operation begins with
    /// [`CodexAgentBackend::turn_started`].
    pub fn send_message(&mut self, request: &AgentMessageRequest) -> (out: TurnStart)
        ensures
            final(self).plan == old(self).plan,
            final(self).turns@ == numbered(old(self).turns@),
            opens_turn(out, *request, old(self).plan, old(self).turns@.next_request_id),
    {
        let client_user_message_id = match &request.client_message_id {
            Some(id) => Some(id.clone()),
            None => None,
        };
        TurnStart {
            request_id: self.turns.request_id(),
            thread_id: request.thread_id.0.clone(),
            client_user_message_id,
            text: request.text.clone(),
            cwd: self.plan.cwd.clone(),
            workspace_roots: copy_texts(&self.plan.workspace_roots),
        }
    }

    /// Begins the operation of a message whose turn the agent has named.
    pub fn turn_started(&mut self, request: AgentMessageRequest, turn_id: String)
        ensures
            final(self).plan == old(self).plan,
            final(self).turns@ == begun_turn(
                old(self).turns@,
                request.operation_id@,
                request.thread_id@,
                turn_id@,
                request.conversation_id@,
            ),
    {
        self.turns.begin(
            request.operation_id,
            request.thread_id.0,
            turn_id,
            request.conversation_id,
        );
    }

    /// The name of the backend.
    pub fn name(&self) -> (out: &'static str)
        ensures
            out@ == "codex-app-server-in-process"@,
    {
        "codex-app-server-in-process"
    }
}

} // verus!
