//! The agent of platforms that cannot embed the full one: its threads live in this process, and
//! only the model is asked over the network.

use crate::agent::{
    AgentError, AgentEvent, AgentEventView, AgentFault, AgentMessageRequest, ApprovalResolution,
};
use crate::codex_config::{header_token, is_header_token, is_https};
use crate::json::{appended, copy_all, field, text_field, trees, Json, Object, Tree};
use crate::model::{AgentThreadId, Message, MessageId, MessageRole, MessageView, OperationId};
use crate::model_reply::{
    endpoint_of, extract_output_text, inference_body, input_message, message_input, reply_text,
    responses_body, responses_endpoint,
};
use crate::text::{blank, decimal, decimal_text, is_blank, starts_with};
use crate::text_map::TextMap;
use vstd::prelude::*;
use vstd::string::*;

verus! {

/// Settings of the agent.
#[derive(Debug, PartialEq, Eq)]
pub struct ResponsesAgentConfig {
    pub model: String,
    pub responses_base_url: String,
    pub product_session_token: String,
}

/// The first thing that is wrong with the settings.
pub open spec fn responses_config_fault(config: ResponsesAgentConfig) -> Option<AgentFault> {
    if is_blank(config.model@) {
        Some(AgentFault::Unavailable("Dacheng Responses model must not be empty"@))
    } else if !is_https(config.responses_base_url@) {
        Some(AgentFault::Unavailable("Dacheng Responses endpoint must use HTTPS"@))
    } else if !is_header_token(config.product_session_token@) {
        Some(AgentFault::Unavailable("a valid Mahayana product session is required"@))
    } else {
        None
    }
}

impl ResponsesAgentConfig {
    /// Checks the model, then the endpoint, then the session.
    pub fn validate(&self) -> (out: Result<(), AgentError>)
        ensures
            match out {
                Ok(_) => responses_config_fault(*self) is None,
                Err(error) => responses_config_fault(*self) == Some(error@),
            },
    {
        if blank(self.model.as_str()) {
            return Err(
                AgentError::Unavailable("Dacheng Responses model must not be empty".to_owned()),
            );
        }
        if !starts_with(self.responses_base_url.as_str(), "https://") {
            return Err(
                AgentError::Unavailable("Dacheng Responses endpoint must use HTTPS".to_owned()),
            );
        }
        if !header_token(self.product_session_token.as_str()) {
            return Err(
                AgentError::Unavailable("a valid Mahayana product session is required".to_owned()),
            );
        }
        Ok(())
    }
}

/// Settings that are accepted reach the endpoint over HTTPS, with a token of one header line.
pub proof fn lemma_accepted_settings_are_safe(config: ResponsesAgentConfig)
    requires
        responses_config_fault(config) is None,
    ensures
        is_https(config.responses_base_url@),
        !config.product_session_token@.contains('\r'),
        !config.product_session_token@.contains('\n'),
{
}

/// The inputs of a model by thread.
pub open spec fn inputs(histories: TextMap<Vec<Json>>) -> Map<Seq<char>, Seq<Tree>> {
    histories@.map_values(|messages: Vec<Json>| trees(messages@))
}

/// The threads and operations of the agent.
pub ghost struct ResponsesView {
    pub histories: Map<Seq<char>, Seq<Tree>>,
    pub active: Set<Seq<char>>,
    pub interrupted: Set<Seq<char>>,
}

/// The agent once a thread was opened.
pub open spec fn opened(state: ResponsesView, thread: Seq<char>) -> ResponsesView {
    ResponsesView { histories: state.histories.insert(thread, Seq::empty()), ..state }
}

/// The threads and operations of the agent.
pub struct ResponsesAgentBackend {
    config: ResponsesAgentConfig,
    histories: TextMap<Vec<Json>>,
    active_operations: TextMap<()>,
    interrupted_operations: TextMap<()>,
}

impl View for ResponsesAgentBackend {
    type V = ResponsesView;

    closed spec fn view(&self) -> ResponsesView {
        ResponsesView {
            histories: inputs(self.histories),
            active: self.active_operations@.dom(),
            interrupted: self.interrupted_operations@.dom(),
        }
    }
}

/// A request to the model.
pub ghost struct InferenceView {
    pub endpoint: Seq<char>,
    pub authorization: Seq<char>,
    pub body: Tree,
}

/// A request to the model.
#[derive(Debug, PartialEq, Eq)]
pub struct Inference {
    pub endpoint: String,
    pub authorization: String,
    pub body: Json,
}

impl View for Inference {
    type V = InferenceView;

    open spec fn view(&self) -> InferenceView {
        InferenceView {
            endpoint: self.endpoint@,
            authorization: self.authorization@,
            body: self.body@,
        }
    }
}

/// The request that asks the model about an input.
pub open spec fn inference_of(config: ResponsesAgentConfig, input: Seq<Tree>) -> InferenceView {
    InferenceView {
        endpoint: endpoint_of(config.responses_base_url@),
        authorization: "Bearer "@ + config.product_session_token@,
        body: inference_body(config.model@, input),
    }
}

/// The state once a message of the user is on its way to the model.
pub open spec fn begun(
    state: ResponsesView,
    thread: Seq<char>,
    operation: Seq<char>,
    text: Seq<char>,
) -> ResponsesView {
    ResponsesView {
        histories: state.histories.insert(
            thread,
            state.histories[thread].push(input_message("user"@, text)),
        ),
        active: state.active.insert(operation),
        ..state
    }
}

/// The state once an operation is over.
pub open spec fn over(state: ResponsesView, operation: Seq<char>) -> ResponsesView {
    ResponsesView {
        active: state.active.remove(operation),
        interrupted: state.interrupted.remove(operation),
        ..state
    }
}

/// The message that an answer of the model is delivered as.
pub open spec fn answer_message(
    conversation: Seq<char>,
    text: Seq<char>,
    message_id: Seq<char>,
    now: i64,
) -> MessageView {
    MessageView {
        id: message_id,
        conversation_id: conversation,
        role: MessageRole::Assistant,
        text,
        created_at_ms: now,
        metadata: Tree::Object(
            map![
                "agentBackend"@ => Tree::Text("dacheng-responses-device-agent"@),
                "sandbox"@ => Tree::Text("mobile-embedded"@),
                "nativeProcess"@ => Tree::Bool(false),
                "nativeGit"@ => Tree::Bool(false),
            ],
        ),
    }
}

/// The state once an operation is to stop.
pub open spec fn stopped(state: ResponsesView, operation: Seq<char>) -> ResponsesView {
    ResponsesView { interrupted: state.interrupted.insert(operation), ..state }
}

/// How an operation ends: an interrupted one and one that the model failed without a trace, any
/// other with the answer in its thread, which is told piece and message.
pub open spec fn is_finished(
    before: ResponsesView,
    after: ResponsesView,
    request: AgentMessageRequest,
    inference: Result<String, AgentError>,
    message_id: Seq<char>,
    now: i64,
    out: Result<Vec<AgentEvent>, AgentError>,
) -> bool {
    let ended = over(before, request.operation_id@);
    let thread = request.thread_id@;
    if before.interrupted.contains(request.operation_id@) {
        &&& out matches Err(error)
        &&& error@ == AgentFault::Backend("operation interrupted"@)
        &&& after == ended
    } else {
        match inference {
            Err(failure) => {
                &&& out matches Err(error)
                &&& error@ == failure@
                &&& after == ended
            },
            Ok(text) => if before.histories.contains_key(thread) {
                &&& out matches Ok(events)
                &&& events@.len() == 2
                &&& events@[0]@ == (AgentEventView::MessageDelta { delta: text@ })
                &&& events@[1]@ == (AgentEventView::MessageCompleted {
                    message: answer_message(request.conversation_id@, text@, message_id, now),
                })
                &&& after == (ResponsesView {
                    histories: ended.histories.insert(
                        thread,
                        ended.histories[thread].push(input_message("assistant"@, text@)),
                    ),
                    ..ended
                })
            } else {
                &&& out matches Err(error)
                &&& error@ == AgentFault::ThreadNotFound(thread)
                &&& after == ended
            },
        }
    }
}

impl ResponsesAgentBackend {
    /// The settings.
    pub closed spec fn settings(&self) -> ResponsesAgentConfig {
        self.config
    }

    /// The agent with these settings, if they are accepted.
    pub fn new(config: ResponsesAgentConfig) -> (out: Result<ResponsesAgentBackend, AgentError>)
        ensures
            match out {
                Ok(agent) => responses_config_fault(config) is None && agent.settings() == config
                    && agent@ == (ResponsesView {
                    histories: Map::empty(),
                    active: Set::empty(),
                    interrupted: Set::empty(),
                }),
                Err(error) => responses_config_fault(config) == Some(error@),
            },
    {
        match config.validate() {
            Ok(_) => {},
            Err(error) => {
                return Err(error);
            },
        }
        let agent = ResponsesAgentBackend {
            config,
            histories: TextMap::new(),
            active_operations: TextMap::new(),
            interrupted_operations: TextMap::new(),
        };
        proof {
            assert(inputs(agent.histories) =~= Map::<Seq<char>, Seq<Tree>>::empty());
            assert(agent.active_operations@.dom() =~= Set::<Seq<char>>::empty());
            assert(agent.interrupted_operations@.dom() =~= Set::<Seq<char>>::empty());
        }
        Ok(agent)
    }

    /// Opens a thread under a fresh identifier.
    pub fn start_thread(&mut self, thread_id: AgentThreadId) -> (out: AgentThreadId)
        ensures
            out@ == thread_id@,
            final(self).settings() == old(self).settings(),
            final(self)@ == opened(old(self)@, thread_id@),
    {
        let ghost before = inputs(self.histories);
        let empty: Vec<Json> = Vec::new();
        self.histories.insert(thread_id.0.clone(), empty);
        proof {
            assert(trees(empty@) =~= Seq::<Tree>::empty());
            assert(inputs(self.histories) =~= before.insert(thread_id@, Seq::empty()));
        }
        thread_id
    }

    fn add_input(&mut self, thread_id: &AgentThreadId, role: &str, text: &str) -> (out: Result<
        Vec<Json>,
        AgentError,
    >)
        ensures
            final(self).settings() == old(self).settings(),
            match out {
                Ok(input) => {
                    &&& old(self)@.histories.contains_key(thread_id@)
                    &&& trees(input@) == old(self)@.histories[thread_id@].push(
                        input_message(role@, text@),
                    )
                    &&& final(self)@ == (ResponsesView {
                        histories: old(self)@.histories.insert(thread_id@, trees(input@)),
                        ..old(self)@
                    })
                },
                Err(error) => {
                    &&& !old(self)@.histories.contains_key(thread_id@)
                    &&& error@ == AgentFault::ThreadNotFound(thread_id@)
                    &&& final(self)@ == old(self)@
                },
            },
    {
        let ghost before = self@;
        match self.histories.remove(thread_id.as_str()) {
            Some(history) => {
                let history = appended(history, message_input(role, text));
                let input = copy_all(&history);
                self.histories.insert(thread_id.0.clone(), history);
                proof {
                    assert(inputs(self.histories) =~= before.histories.insert(
                        thread_id@,
                        trees(input@),
                    ));
                }
                Ok(input)
            },
            None => {
                proof {
                    assert(inputs(self.histories) =~= before.histories);
                }
                Err(AgentError::ThreadNotFound(thread_id.clone()))
            },
        }
    }

    /// Takes a message of the user into its thread, and gives the request to the model.
    pub fn begin(&mut self, request: &AgentMessageRequest) -> (out: Result<Inference, AgentError>)
        ensures
            final(self).settings() == old(self).settings(),
            match out {
                Ok(inference) => {
                    &&& old(self)@.histories.contains_key(request.thread_id@)
                    &&& final(self)@ == begun(
                        old(self)@,
                        request.thread_id@,
                        request.operation_id@,
                        request.text@,
                    )
                    &&& inference@ == inference_of(
                        old(self).settings(),
                        final(self)@.histories[request.thread_id@],
                    )
                },
                Err(error) => {
                    &&& !old(self)@.histories.contains_key(request.thread_id@)
                    &&& error@ == AgentFault::ThreadNotFound(request.thread_id@)
                    &&& final(self)@ == old(self)@
                },
            },
    {
        let input = match self.add_input(&request.thread_id, "user", request.text.as_str()) {
            Ok(input) => input,
            Err(error) => {
                return Err(error);
            },
        };
        let ghost before = self.active_operations@.dom();
        self.active_operations.insert(request.operation_id.0.clone(), ());
        proof {
            assert(self.active_operations@.dom() =~= before.insert(request.operation_id@));
        }
        Ok(
            Inference {
                endpoint: responses_endpoint(self.config.responses_base_url.as_str()),
                authorization: "Bearer ".to_owned().concat(
                    self.config.product_session_token.as_str(),
                ),
                body: responses_body(self.config.model.as_str(), input),
            },
        )
    }

    /// Ends an operation and tells whether it was interrupted.
    pub fn finish_operation(&mut self, operation_id: &OperationId) -> (interrupted: bool)
        ensures
            interrupted == old(self)@.interrupted.contains(operation_id@),
            final(self).settings() == old(self).settings(),
            final(self)@ == over(old(self)@, operation_id@),
    {
        let ghost active = self.active_operations@.dom();
        let ghost interrupts = self.interrupted_operations@.dom();
        self.active_operations.remove(operation_id.as_str());
        let interrupted = self.interrupted_operations.remove(operation_id.as_str()).is_some();
        proof {
            assert(self.active_operations@.dom() =~= active.remove(operation_id@));
            assert(self.interrupted_operations@.dom() =~= interrupts.remove(operation_id@));
        }
        interrupted
    }

    /// Ends an operation with what the model answered: the answer goes into the thread and to the
    /// consumer, unless the operation was interrupted meanwhile. `message_id` and `now` go into the
    /// message that is delivered.
    pub fn finish(
        &mut self,
        request: &AgentMessageRequest,
        inference: Result<String, AgentError>,
        message_id: MessageId,
        now: i64,
    ) -> (out: Result<Vec<AgentEvent>, AgentError>)
        ensures
            final(self).settings() == old(self).settings(),
            is_finished(
                old(self)@,
                final(self)@,
                *request,
                inference,
                message_id@,
                now,
                out,
            ),
    {
        if self.finish_operation(&request.operation_id) {
            return Err(AgentError::Backend("operation interrupted".to_owned()));
        }
        let text = match inference {
            Ok(text) => text,
            Err(error) => {
                return Err(error);
            },
        };
        match self.add_input(&request.thread_id, "assistant", text.as_str()) {
            Ok(_) => {},
            Err(error) => {
                return Err(error);
            },
        }
        let metadata = Object::new().with_text(
            "agentBackend",
            "dacheng-responses-device-agent",
        ).with_text("sandbox", "mobile-embedded").with("nativeProcess", Json::Bool(false)).with(
            "nativeGit",
            Json::Bool(false),
        );
        let message = Message {
            id: message_id,
            conversation_id: request.conversation_id.clone(),
            role: MessageRole::Assistant,
            text: text.clone(),
            created_at_ms: now,
            metadata: Json::Object(metadata),
        };
        Ok(
            vec![
                AgentEvent::MessageDelta { delta: text },
                AgentEvent::MessageCompleted { message },
            ],
        )
    }

    /// Interrupts an operation that is under way.
    pub fn interrupt(&mut self, operation_id: &OperationId) -> (out: Result<(), AgentError>)
        ensures
            final(self).settings() == old(self).settings(),
            match out {
                Ok(_) => {
                    &&& old(self)@.active.contains(operation_id@)
                    &&& final(self)@ == stopped(old(self)@, operation_id@)
                },
                Err(error) => {
                    &&& !old(self)@.active.contains(operation_id@)
                    &&& error@ == AgentFault::OperationNotFound(operation_id@)
                    &&& final(self)@ == old(self)@
                },
            },
    {
        if !self.active_operations.contains(operation_id.as_str()) {
            return Err(AgentError::OperationNotFound(operation_id.clone()));
        }
        let ghost before = self.interrupted_operations@.dom();
        self.interrupted_operations.insert(operation_id.0.clone(), ());
        proof {
            assert(self.interrupted_operations@.dom() =~= before.insert(operation_id@));
        }
        Ok(())
    }

    /// This agent asks for no approvals.
    pub fn resolve_approval(&self, resolution: ApprovalResolution) -> (out: Result<
        (),
        AgentError,
    >)
        ensures
            out matches Err(error) && error@ == AgentFault::ApprovalNotFound(
                resolution.approval_id@,
            ),
    {
        Err(AgentError::ApprovalNotFound(resolution.approval_id))
    }

    /// The backend's name.
    pub fn name(&self) -> (out: &'static str)
        ensures
            out@ == "dacheng-responses-device-agent"@,
    {
        "dacheng-responses-device-agent"
    }
}

/// What a reply of the endpoint says.
pub open spec fn inference_outcome(payload: Tree) -> Result<Seq<char>, AgentFault> {
    match field(payload, "error"@) {
        Some(error) => Err(
            AgentFault::Backend(
                match text_field(error, "message"@) {
                    Some(message) => message,
                    None => "Responses endpoint returned an error"@,
                },
            ),
        ),
        None => match reply_text(payload) {
            Some(text) => Ok(text),
            None => Err(
                AgentFault::Backend("Responses endpoint returned no assistant output text"@),
            ),
        },
    }
}

/// Decides what a reply of the endpoint says.
pub fn interpret_response(payload: &Json) -> (out: Result<String, AgentError>)
    ensures
        match out {
            Ok(text) => inference_outcome(payload@) == Ok::<Seq<char>, AgentFault>(text@),
            Err(error) => inference_outcome(payload@) == Err::<Seq<char>, AgentFault>(error@),
        },
{
    match payload.get("error") {
        Some(error) => {
            let message = match error.text_field("message") {
                Some(message) => message,
                None => "Responses endpoint returned an error",
            };
            return Err(AgentError::Backend(message.to_owned()));
        },
        None => {},
    }
    match extract_output_text(payload) {
        Some(text) => Ok(text),
        None => Err(
            AgentError::Backend("Responses endpoint returned no assistant output text".to_owned()),
        ),
    }
}

/// How asking the endpoint can fail.
#[derive(Debug, PartialEq, Eq)]
pub enum InferenceFailure {
    Status(u16),
    Transport(String),
    InvalidJson,
    Task(String),
}

/// The fault of a failure; of a refused request it tells nothing but the status.
pub open spec fn failure_fault(failure: InferenceFailure) -> AgentFault {
    AgentFault::Backend(
        match failure {
            InferenceFailure::Status(status) => "Responses endpoint returned HTTP "@ + decimal(
                status as nat,
            ),
            InferenceFailure::Transport(error) => "Responses transport failed: "@ + error@,
            InferenceFailure::InvalidJson => "Responses endpoint returned invalid JSON"@,
            InferenceFailure::Task(error) => "Responses task failed: "@ + error@,
        },
    )
}

/// The error of a failure.
pub fn redacted_http_error(failure: InferenceFailure) -> (out: AgentError)
    ensures
        out@ == failure_fault(failure),
{
    AgentError::Backend(
        match failure {
            InferenceFailure::Status(status) => "Responses endpoint returned HTTP ".to_owned().concat(
                decimal_text(status as u64).as_str(),
            ),
            InferenceFailure::Transport(error) => "Responses transport failed: ".to_owned().concat(
                error.as_str(),
            ),
            InferenceFailure::InvalidJson => "Responses endpoint returned invalid JSON".to_owned(),
            InferenceFailure::Task(error) => "Responses task failed: ".to_owned().concat(
                error.as_str(),
            ),
        },
    )
}

/// What a thread holds only grows, and every message of the user is in it before the model is
/// asked.
pub proof fn lemma_begun_keeps_the_thread(
    state: ResponsesView,
    thread: Seq<char>,
    operation: Seq<char>,
    text: Seq<char>,
)
    requires
        state.histories.contains_key(thread),
    ensures
        state.histories[thread].is_prefix_of(begun(state, thread, operation, text).histories[thread]),
        begun(state, thread, operation, text).histories[thread].last() == input_message(
            "user"@,
            text,
        ),
{
    let after = begun(state, thread, operation, text).histories[thread];
    assert(after.take(state.histories[thread].len() as int) =~= state.histories[thread]);
}

/// An operation that is over is neither active nor interrupted any more.
pub proof fn lemma_over_is_over(state: ResponsesView, operation: Seq<char>)
    ensures
        !over(state, operation).active.contains(operation),
        !over(state, operation).interrupted.contains(operation),
        over(state, operation).histories == state.histories,
{
}

} // verus!
