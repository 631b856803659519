//! Mini-apps as contacts: they answer through the same agent as the assistant.

use crate::agent::{fault_text, AgentError, AgentEvent, AgentEventView, AgentMessageRequest};
use crate::json::{Json, Object, Tree};
use crate::model::{
    latest, latest_messages, message_views, AgentThreadId, Conversation, ConversationId,
    ConversationView, EventView, Message, MessageId, MessageRole, MessageView, OperationId,
    PeerKind, PeerView, RuntimeEvent,
};
use crate::order::precedes;
use crate::text::{blank, is_blank, same};
use crate::text_map::TextMap;
use crate::url_text::opt_view;
use vstd::prelude::*;
use vstd::string::*;

verus! {

/// What a mini-app is.
#[derive(Debug, PartialEq, Eq)]
pub struct MiniAppDefinition {
    pub app_id: String,
    pub title: String,
    pub instructions: String,
    pub pinned: bool,
}

/// What a mini-app is.
pub ghost struct DefinitionView {
    pub app_id: Seq<char>,
    pub title: Seq<char>,
    pub instructions: Seq<char>,
    pub pinned: bool,
}

impl View for MiniAppDefinition {
    type V = DefinitionView;

    open spec fn view(&self) -> DefinitionView {
        DefinitionView {
            app_id: self.app_id@,
            title: self.title@,
            instructions: self.instructions@,
            pinned: self.pinned,
        }
    }
}

/// Why a conversation cannot be had.
pub ghost enum ConversationFault {
    Provider(Seq<char>),
    ConversationNotFound(Seq<char>),
}

/// Why a conversation cannot be had.
#[derive(Debug, PartialEq, Eq)]
pub enum ConversationError {
    Provider(String),
    ConversationNotFound(ConversationId),
}

impl View for ConversationError {
    type V = ConversationFault;

    open spec fn view(&self) -> ConversationFault {
        match self {
            ConversationError::Provider(message) => ConversationFault::Provider(message@),
            ConversationError::ConversationNotFound(id) => ConversationFault::ConversationNotFound(
                id@,
            ),
        }
    }
}

/// A failure of the agent as a failure of the conversation.
pub fn agent_error(error: &AgentError) -> (out: ConversationError)
    ensures
        out@ == ConversationFault::Provider(fault_text(error@)),
{
    ConversationError::Provider(error.to_text())
}

/// The conversation with a mini-app.
pub open spec fn miniapp_conversation(app_id: Seq<char>) -> Seq<char> {
    "miniapp:"@ + app_id
}

/// What definitions say.
pub open spec fn definition_views(definitions: Seq<MiniAppDefinition>) -> Seq<DefinitionView> {
    Seq::new(definitions.len(), |i: int| definitions[i]@)
}

/// The definitions by conversation, or the first thing that is wrong with them.
pub open spec fn by_conversation(definitions: Seq<DefinitionView>) -> Result<
    Map<Seq<char>, DefinitionView>,
    Seq<char>,
>
    decreases definitions.len(),
{
    if definitions.len() == 0 {
        Ok(Map::empty())
    } else {
        match by_conversation(definitions.drop_last()) {
            Ok(before) => {
                let definition = definitions.last();
                let id = miniapp_conversation(definition.app_id);
                if is_blank(definition.app_id) || is_blank(definition.title) {
                    Err("mini-app id and title must not be empty"@)
                } else if before.contains_key(id) {
                    Err("duplicate mini-app conversation"@)
                } else {
                    Ok(before.insert(id, definition))
                }
            },
            Err(message) => Err(message),
        }
    }
}

proof fn lemma_rejected(definitions: Seq<DefinitionView>, n: int)
    requires
        0 <= n <= definitions.len(),
        by_conversation(definitions.take(n)) is Err,
    ensures
        by_conversation(definitions) == by_conversation(definitions.take(n)),
    decreases definitions.len(),
{
    if n < definitions.len() {
        assert(definitions.drop_last().take(n) =~= definitions.take(n));
        lemma_rejected(definitions.drop_last(), n);
    } else {
        assert(definitions.take(n) =~= definitions);
    }
}

/// The mini-apps, the agent's threads for them, and what was said.
pub ghost struct MiniAppsView {
    pub definitions: Map<Seq<char>, DefinitionView>,
    pub threads: Map<Seq<char>, Seq<char>>,
    pub history: Seq<MessageView>,
}

/// The thread of a mini-app, if one was started.
pub open spec fn thread_of(state: MiniAppsView, conversation: Seq<char>) -> Result<
    Option<Seq<char>>,
    ConversationFault,
> {
    if !state.definitions.contains_key(conversation) {
        Err(ConversationFault::ConversationNotFound(conversation))
    } else if state.threads.contains_key(conversation) {
        Ok(Some(state.threads[conversation]))
    } else {
        Ok(None)
    }
}

/// The mini-apps once a thread was started for one of them.
pub open spec fn with_thread(
    state: MiniAppsView,
    conversation: Seq<char>,
    thread: Seq<char>,
) -> MiniAppsView {
    MiniAppsView { threads: state.threads.insert(conversation, thread), ..state }
}

/// The mini-apps, the agent's threads for them, and what was said.
pub struct MiniAppConversationProvider {
    definitions: TextMap<MiniAppDefinition>,
    threads: TextMap<AgentThreadId>,
    history: Vec<Message>,
}

impl View for MiniAppConversationProvider {
    type V = MiniAppsView;

    closed spec fn view(&self) -> MiniAppsView {
        MiniAppsView {
            definitions: self.definitions.deep(),
            threads: self.threads.deep(),
            history: message_views(self.history@),
        }
    }
}

/// The contact list entry of a mini-app.
pub open spec fn definition_conversation(
    id: Seq<char>,
    definition: DefinitionView,
) -> ConversationView {
    ConversationView {
        id,
        title: definition.title,
        peer: PeerView::MiniApp { app_id: definition.app_id },
        pinned: definition.pinned,
        unread_count: 0,
        updated_at_ms: 0,
    }
}

/// The messages of a conversation.
pub open spec fn of_conversation(messages: Seq<MessageView>, id: Seq<char>) -> Seq<MessageView>
    decreases messages.len(),
{
    if messages.len() == 0 {
        Seq::empty()
    } else {
        let before = of_conversation(messages.drop_last(), id);
        if messages.last().conversation_id == id {
            before.push(messages.last())
        } else {
            before
        }
    }
}

/// What the agent is asked for a message to a mini-app.
pub open spec fn miniapp_request_text(definition: DefinitionView, text: Seq<char>) -> Seq<char> {
    "你正在通过大乘与小程序“"@ + definition.title + "”（"@ + definition.app_id
        + "）对话。请严格依据该小程序的职责和能力回答，不要冒充其他联系人。\n小程序说明："@
        + (if is_blank(definition.instructions) {
        "按小程序名称和当前会话上下文提供服务。"@
    } else {
        definition.instructions
    }) + "\n\n用户消息：\n"@ + text
}

/// A message to a mini-app.
#[derive(Debug, PartialEq, Eq)]
pub struct SendMessageRequest {
    pub conversation_id: ConversationId,
    pub operation_id: OperationId,
    pub text: String,
    pub client_message_id: Option<String>,
}

/// The message of a user as it is kept.
pub open spec fn kept_message(
    app_id: Seq<char>,
    conversation: Seq<char>,
    text: Seq<char>,
    message_id: Seq<char>,
    now: i64,
) -> MessageView {
    MessageView {
        id: message_id,
        conversation_id: conversation,
        role: MessageRole::User,
        text,
        created_at_ms: now,
        metadata: Tree::Object(map!["miniAppId"@ => Tree::Text(app_id)]),
    }
}

/// Where the events of an operation belong.
#[derive(Debug, PartialEq, Eq)]
pub struct MiniAppEventBridge {
    pub conversation_id: ConversationId,
    pub operation_id: OperationId,
    pub app_id: String,
}

/// A message of the agent as one of the mini-app.
pub open spec fn bridged_message(
    message: MessageView,
    conversation: Seq<char>,
    app_id: Seq<char>,
) -> MessageView {
    MessageView {
        conversation_id: conversation,
        role: MessageRole::MiniApp,
        metadata: Tree::Object(
            map!["miniAppId"@ => Tree::Text(app_id), "agent"@ => message.metadata],
        ),
        ..message
    }
}

/// An event of the agent as one of the runtime.
pub open spec fn bridged(
    event: AgentEventView,
    conversation: Seq<char>,
    operation: Seq<char>,
    app_id: Seq<char>,
) -> EventView {
    match event {
        AgentEventView::MessageDelta { delta } => EventView::MessageDelta {
            operation_id: operation,
            conversation_id: conversation,
            delta,
        },
        AgentEventView::MessageCompleted { message } => EventView::MessageCompleted {
            operation_id: operation,
            message: bridged_message(message, conversation, app_id),
        },
        AgentEventView::ApprovalRequested { approval_id, title, details } =>
            EventView::ApprovalRequested {
            operation_id: operation,
            approval_id,
            title,
            details: match details {
                Tree::Object(fields) => Tree::Object(
                    fields.insert("miniAppId"@, Tree::Text(app_id)),
                ),
                other => other,
            },
        },
    }
}

/// What is said once an event of the agent has arrived.
pub open spec fn history_after(
    history: Seq<MessageView>,
    event: AgentEventView,
    conversation: Seq<char>,
    app_id: Seq<char>,
) -> Seq<MessageView> {
    match event {
        AgentEventView::MessageCompleted { message } => history.push(
            bridged_message(message, conversation, app_id),
        ),
        _ => history,
    }
}

/// A message to a mini-app is kept, and the agent is asked for it in the thread of the
/// conversation; the bridge knows where the answer belongs.
pub open spec fn is_asked(
    before: MiniAppsView,
    after: MiniAppsView,
    request: SendMessageRequest,
    thread: Seq<char>,
    message_id: Seq<char>,
    now: i64,
    asked: AgentMessageRequest,
    bridge: MiniAppEventBridge,
) -> bool {
    let definition = before.definitions[request.conversation_id@];
    &&& before.definitions.contains_key(request.conversation_id@)
    &&& after == (MiniAppsView {
        history: before.history.push(
            kept_message(
                definition.app_id,
                request.conversation_id@,
                request.text@,
                message_id,
                now,
            ),
        ),
        ..before
    })
    &&& asked.thread_id@ == thread
    &&& asked.conversation_id@ == request.conversation_id@
    &&& asked.operation_id@ == request.operation_id@
    &&& asked.text@ == miniapp_request_text(definition, request.text@)
    &&& opt_view(asked.client_message_id) == opt_view(request.client_message_id)
    &&& bridge.conversation_id@ == request.conversation_id@
    &&& bridge.operation_id@ == request.operation_id@
    &&& bridge.app_id@ == definition.app_id
}

impl MiniAppConversationProvider {
    /// The provider of these mini-apps. Each must have an identifier and a title, and none may
    /// come twice.
    pub fn new(definitions: Vec<MiniAppDefinition>) -> (out: Result<
        MiniAppConversationProvider,
        ConversationError,
    >)
        ensures
            match out {
                Ok(provider) => {
                    &&& by_conversation(definition_views(definitions@)) == Ok::<
                        Map<Seq<char>, DefinitionView>,
                        Seq<char>,
                    >(provider@.definitions)
                    &&& provider@.threads == Map::<Seq<char>, Seq<char>>::empty()
                    &&& provider@.history == Seq::<MessageView>::empty()
                },
                Err(error) => match by_conversation(definition_views(definitions@)) {
                    Ok(_) => false,
                    Err(message) => error@ == ConversationFault::Provider(message),
                },
            },
    {
        let ghost all = definition_views(definitions@);
        let mut rest: Vec<MiniAppDefinition> = definitions;
        let mut known: TextMap<MiniAppDefinition> = TextMap::new();
        let ghost mut done: int = 0;
        proof {
            assert(known.deep() =~= Map::<Seq<char>, DefinitionView>::empty());
        }
        while rest.len() > 0
            invariant
                all == definition_views(definitions@),
                0 <= done <= all.len(),
                definition_views(rest@) =~= all.skip(done),
                by_conversation(all.take(done)) == Ok::<
                    Map<Seq<char>, DefinitionView>,
                    Seq<char>,
                >(known.deep()),
            decreases rest@.len(),
        {
            let ghost before = rest@;
            let definition = rest.remove(0);
            proof {
                assert(all.skip(done).len() == before.len());
                assert(all.skip(done)[0] == definition@);
                assert(all.take(done + 1).drop_last() =~= all.take(done));
                assert(definition_views(rest@) =~= definition_views(before).drop_first());
                assert(definition_views(rest@) =~= all.skip(done + 1));
            }
            if blank(definition.app_id.as_str()) || blank(definition.title.as_str()) {
                proof {
                    lemma_rejected(all, done + 1);
                }
                return Err(
                    ConversationError::Provider(
                        "mini-app id and title must not be empty".to_owned(),
                    ),
                );
            }
            let id = "miniapp:".to_owned().concat(definition.app_id.as_str());
            if known.contains(id.as_str()) {
                proof {
                    lemma_rejected(all, done + 1);
                }
                return Err(
                    ConversationError::Provider("duplicate mini-app conversation".to_owned()),
                );
            }
            let ghost earlier = known.deep();
            known.insert(id, definition);
            proof {
                assert(known.deep() =~= earlier.insert(id@, definition@));
                done = done + 1;
            }
        }
        proof {
            assert(all.take(done) =~= all);
        }
        let provider = MiniAppConversationProvider {
            definitions: known,
            threads: TextMap::new(),
            history: Vec::new(),
        };
        proof {
            assert(provider.threads.deep() =~= Map::<Seq<char>, Seq<char>>::empty());
            assert(message_views(provider.history@) =~= Seq::<MessageView>::empty());
        }
        Ok(provider)
    }

    /// The provider's key.
    pub fn key(&self) -> (out: &'static str)
        ensures
            out@ == "miniapp"@,
    {
        "miniapp"
    }

    /// Lists the mini-apps, in the order of their conversations: one entry each.
    pub fn list_conversations(&self) -> (out: Vec<Conversation>)
        ensures
            forall|i: int, j: int| #![trigger out@[i], out@[j]]
                0 <= i < j < out@.len() ==> precedes(out@[i].id@, out@[j].id@),
            forall|i: int|
                0 <= i < out@.len() ==> self@.definitions.contains_key(
                    (#[trigger] out@[i]).id@,
                ) && out@[i]@ == definition_conversation(
                    out@[i].id@,
                    self@.definitions[out@[i].id@],
                ),
            forall|id: Seq<char>| #[trigger]
                self@.definitions.contains_key(id) ==> exists|i: int|
                    0 <= i < out@.len() && (#[trigger] out@[i]).id@ == id,
    {
        let n: usize = self.definitions.len();
        let mut out: Vec<Conversation> = Vec::new();
        let mut i: usize = 0;
        while i < n
            invariant
                i <= n,
                n == self.definitions.keys().len(),
                out@.len() == i,
                forall|j: int|
                    0 <= j < i ==> (#[trigger] out@[j]).id@ == self.definitions.keys()[j]
                        && self@.definitions.contains_key(out@[j].id@) && out@[j]@
                        == definition_conversation(
                        out@[j].id@,
                        self@.definitions[out@[j].id@],
                    ),
            decreases n - i,
        {
            let definition = self.definitions.value_at(i);
            out.push(
                Conversation {
                    id: ConversationId(self.definitions.key_at(i).clone()),
                    title: definition.title.clone(),
                    peer: PeerKind::MiniApp { app_id: definition.app_id.clone() },
                    pinned: definition.pinned,
                    unread_count: 0,
                    updated_at_ms: 0,
                },
            );
            i = i + 1;
        }
        proof {
            assert forall|id: Seq<char>| #[trigger]
                self@.definitions.contains_key(id) implies exists|j: int|
                0 <= j < out@.len() && (#[trigger] out@[j]).id@ == id by {
                assert(self.definitions@.contains_key(id));
                assert(self.definitions.keys().contains(id));
                let j = choose|j: int|
                    0 <= j < self.definitions.keys().len() && self.definitions.keys()[j] == id;
                assert(out@[j].id@ == id);
            }
            assert forall|a: int, b: int| #![trigger out@[a], out@[b]]
                0 <= a < b < out@.len() implies precedes(out@[a].id@, out@[b].id@) by {
                assert(precedes(self.definitions.keys()[a], self.definitions.keys()[b]));
            }
        }
        out
    }

    /// Lists the last messages with a mini-app.
    pub fn history(&self, conversation_id: &ConversationId, limit: u32) -> (out: Result<
        Vec<Message>,
        ConversationError,
    >)
        ensures
            match out {
                Ok(messages) => {
                    &&& self@.definitions.contains_key(conversation_id@)
                    &&& message_views(messages@) == latest(
                        of_conversation(self@.history, conversation_id@),
                        limit as nat,
                    )
                },
                Err(error) => {
                    &&& !self@.definitions.contains_key(conversation_id@)
                    &&& error@ == ConversationFault::ConversationNotFound(conversation_id@)
                },
            },
    {
        if !self.definitions.contains(conversation_id.as_str()) {
            return Err(ConversationError::ConversationNotFound(conversation_id.clone()));
        }
        let mut messages: Vec<Message> = Vec::new();
        let mut i: usize = 0;
        let ghost all = message_views(self.history@);
        while i < self.history.len()
            invariant
                i <= self.history@.len(),
                all == message_views(self.history@),
                message_views(messages@) =~= of_conversation(
                    all.take(i as int),
                    conversation_id@,
                ),
            decreases self.history@.len() - i,
        {
            let ghost before = messages@;
            proof {
                assert(all.take(i + 1).drop_last() =~= all.take(i as int));
            }
            if same(self.history[i].conversation_id.as_str(), conversation_id.as_str()) {
                messages.push(self.history[i].clone());
                proof {
                    assert(message_views(messages@) =~= message_views(before).push(all[i as int]));
                }
            }
            i = i + 1;
        }
        proof {
            assert(all.take(self.history@.len() as int) =~= all);
        }
        Ok(latest_messages(&messages, limit as usize))
    }

    /// The thread of a mini-app, if one was started.
    pub fn thread_id(&self, conversation_id: &ConversationId) -> (out: Result<
        Option<AgentThreadId>,
        ConversationError,
    >)
        ensures
            match out {
                Ok(Some(id)) => thread_of(self@, conversation_id@) == Ok::<
                    Option<Seq<char>>,
                    ConversationFault,
                >(Some(id@)),
                Ok(None) => thread_of(self@, conversation_id@) == Ok::<
                    Option<Seq<char>>,
                    ConversationFault,
                >(None),
                Err(error) => thread_of(self@, conversation_id@) == Err::<
                    Option<Seq<char>>,
                    ConversationFault,
                >(error@),
            },
    {
        if !self.definitions.contains(conversation_id.as_str()) {
            return Err(ConversationError::ConversationNotFound(conversation_id.clone()));
        }
        match self.threads.get(conversation_id.as_str()) {
            Some(id) => Ok(Some(id.clone())),
            None => Ok(None),
        }
    }

    /// Remembers the thread that the agent started for a mini-app.
    pub fn thread_started(&mut self, conversation_id: &ConversationId, thread_id: AgentThreadId)
        ensures
            final(self)@ == with_thread(old(self)@, conversation_id@, thread_id@),
    {
        let ghost before = self.threads.deep();
        self.threads.insert(conversation_id.0.clone(), thread_id);
        proof {
            assert(self.threads.deep() =~= before.insert(conversation_id@, thread_id@));
        }
    }

    /// Keeps a message and gives the request to the agent, with where its events belong.
    /// `message_id` is the client's identifier if it gave a valid one, or a fresh one.
    pub fn send_message(
        &mut self,
        request: SendMessageRequest,
        thread_id: AgentThreadId,
        message_id: MessageId,
        now: i64,
    ) -> (out: Result<(AgentMessageRequest, MiniAppEventBridge), ConversationError>)
        ensures
            match out {
                Ok((asked, bridge)) => is_asked(
                    old(self)@,
                    final(self)@,
                    request,
                    thread_id@,
                    message_id@,
                    now,
                    asked,
                    bridge,
                ),
                Err(error) => {
                    &&& !old(self)@.definitions.contains_key(request.conversation_id@)
                    &&& error@ == ConversationFault::ConversationNotFound(
                        request.conversation_id@,
                    )
                    &&& final(self)@ == old(self)@
                },
            },
    {
        let (app_id, prompt) = match self.definitions.get(request.conversation_id.as_str()) {
            Some(definition) => {
                let instructions = if blank(definition.instructions.as_str()) {
                    "按小程序名称和当前会话上下文提供服务。"
                } else {
                    definition.instructions.as_str()
                };
                let prompt = "你正在通过大乘与小程序“".to_owned().concat(
                    definition.title.as_str(),
                ).concat("”（").concat(definition.app_id.as_str()).concat(
                    "）对话。请严格依据该小程序的职责和能力回答，不要冒充其他联系人。\n小程序说明：",
                ).concat(instructions).concat("\n\n用户消息：\n").concat(request.text.as_str());
                (definition.app_id.clone(), prompt)
            },
            None => {
                return Err(
                    ConversationError::ConversationNotFound(request.conversation_id.clone()),
                );
            },
        };
        let ghost before = self.history@;
        let message = Message {
            id: message_id,
            conversation_id: request.conversation_id.clone(),
            role: MessageRole::User,
            text: request.text,
            created_at_ms: now,
            metadata: Json::Object(Object::new().with_text("miniAppId", app_id.as_str())),
        };
        self.history.push(message);
        proof {
            assert(message_views(self.history@) =~= message_views(before).push(message@));
        }
        let asked = AgentMessageRequest {
            thread_id,
            conversation_id: request.conversation_id.clone(),
            operation_id: request.operation_id.clone(),
            text: prompt,
            client_message_id: request.client_message_id,
        };
        let bridge = MiniAppEventBridge {
            conversation_id: request.conversation_id,
            operation_id: request.operation_id,
            app_id,
        };
        Ok((asked, bridge))
    }

    /// Takes an event of the agent over as one of the runtime.
    pub fn emit(&mut self, bridge: &MiniAppEventBridge, event: AgentEvent) -> (out: RuntimeEvent)
        ensures
            out@ == bridged(
                event@,
                bridge.conversation_id@,
                bridge.operation_id@,
                bridge.app_id@,
            ),
            final(self)@ == (MiniAppsView {
                history: history_after(
                    old(self)@.history,
                    event@,
                    bridge.conversation_id@,
                    bridge.app_id@,
                ),
                ..old(self)@
            }),
    {
        match event {
            AgentEvent::MessageDelta { delta } => RuntimeEvent::MessageDelta {
                operation_id: bridge.operation_id.clone(),
                conversation_id: bridge.conversation_id.clone(),
                delta,
            },
            AgentEvent::MessageCompleted { message } => {
                let metadata = Object::new().with_text("miniAppId", bridge.app_id.as_str()).with(
                    "agent",
                    message.metadata,
                );
                let message = Message {
                    id: message.id,
                    conversation_id: bridge.conversation_id.clone(),
                    role: MessageRole::MiniApp,
                    text: message.text,
                    created_at_ms: message.created_at_ms,
                    metadata: Json::Object(metadata),
                };
                let ghost before = self.history@;
                let kept = message.clone();
                self.history.push(kept);
                proof {
                    assert(message_views(self.history@) =~= message_views(before).push(message@));
                }
                RuntimeEvent::MessageCompleted {
                    operation_id: bridge.operation_id.clone(),
                    message,
                }
            },
            AgentEvent::ApprovalRequested { approval_id, title, details } => {
                let details = match details {
                    Json::Object(object) => Json::Object(
                        object.with_text("miniAppId", bridge.app_id.as_str()),
                    ),
                    other => other,
                };
                RuntimeEvent::ApprovalRequested {
                    operation_id: bridge.operation_id.clone(),
                    approval_id,
                    title,
                    details,
                }
            },
        }
    }
}

/// Every accepted mini-app has its conversation under its own identifier.
pub proof fn lemma_conversations_are_named(definitions: Seq<DefinitionView>, id: Seq<char>)
    requires
        by_conversation(definitions) is Ok,
        by_conversation(definitions)->Ok_0.contains_key(id),
    ensures
        id == miniapp_conversation(by_conversation(definitions)->Ok_0[id].app_id),
        !is_blank(by_conversation(definitions)->Ok_0[id].app_id),
        !is_blank(by_conversation(definitions)->Ok_0[id].title),
    decreases definitions.len(),
{
    if definitions.len() > 0 {
        let last = definitions.last();
        if id != miniapp_conversation(last.app_id) {
            lemma_conversations_are_named(definitions.drop_last(), id);
        }
    }
}

/// What is said in one conversation is not listed in another.
pub proof fn lemma_conversations_stay_apart(messages: Seq<MessageView>, id: Seq<char>)
    ensures
        forall|i: int|
            0 <= i < of_conversation(messages, id).len() ==> (#[trigger] of_conversation(
                messages,
                id,
            )[i]).conversation_id == id,
    decreases messages.len(),
{
    if messages.len() > 0 {
        lemma_conversations_stay_apart(messages.drop_last(), id);
    }
}

/// A message and its answer are remembered in their conversation, in that order, and in no other.
pub proof fn lemma_exchange_is_remembered(
    history: Seq<MessageView>,
    said: MessageView,
    answer: MessageView,
    app_id: Seq<char>,
    other: Seq<char>,
)
    ensures
        ({
            let id = said.conversation_id;
            let after = history_after(
                history.push(said),
                AgentEventView::MessageCompleted { message: answer },
                id,
                app_id,
            );
            &&& of_conversation(after, id) == of_conversation(history, id).push(said).push(
                bridged_message(answer, id, app_id),
            )
            &&& other != id ==> of_conversation(after, other) == of_conversation(history, other)
        }),
{
    let id = said.conversation_id;
    let first = history.push(said);
    let second = first.push(bridged_message(answer, id, app_id));
    assert(first.drop_last() =~= history);
    assert(second.drop_last() =~= first);
    assert(of_conversation(first, id) == of_conversation(history, id).push(said));
    assert(of_conversation(second, id) == of_conversation(first, id).push(second.last()));
    if other != id {
        assert(of_conversation(first, other) == of_conversation(history, other));
        assert(of_conversation(second, other) == of_conversation(first, other));
    }
}

} // verus!
