//! The runtime in a browser: conversations, operations and events stay in the page, and only the
//! model is asked over the network.

use crate::codex_config::is_https;
use crate::json::{appended, copy_all, trees, Json, Object, Tree};
use crate::json_text::{compact, json_compact, json_parse, parse};
use crate::model::{
    conversation_views, event_views, latest, latest_messages, message_views, ApprovalDecision,
    ApprovalId, BuildProfile, Conversation, ConversationId, ConversationView, EventView, Message,
    MessageId, MessageRole, MessageView, ModelProviderMode, OperationId, PeerKind, PeerView,
    RuntimeEvent, RuntimeStatus, RuntimeVersions, StatusView,
};
use crate::model_reply::{
    endpoint_of, extract_output_text, inference_body, input_message, message_input, reply_text,
    responses_body, responses_endpoint,
};
use crate::text::{
    blank, decimal, decimal_text, from_chars, has_char, is_blank, same, starts_with,
    text_result, texts, to_chars,
};
use crate::text_map::TextMap;
use crate::url_text::opt_view;
use vstd::prelude::*;
use vstd::string::*;

verus! {

/// Settings of the runtime.
#[derive(Debug, PartialEq, Eq)]
pub struct WebConfig {
    pub model: String,
    pub responses_base_url: String,
    pub product_session_token: Option<String>,
}

/// What the settings say.
pub ghost struct WebConfigView {
    pub model: Seq<char>,
    pub responses_base_url: Seq<char>,
    pub product_session_token: Option<Seq<char>>,
}

impl View for WebConfig {
    type V = WebConfigView;

    open spec fn view(&self) -> WebConfigView {
        WebConfigView {
            model: self.model@,
            responses_base_url: self.responses_base_url@,
            product_session_token: opt_view(self.product_session_token),
        }
    }
}

/// A mini-app that comes with the runtime.
pub struct MiniAppCard {
    pub app_id: &'static str,
    pub title: &'static str,
    pub instructions: &'static str,
}

/// A mini-app that comes with the runtime.
pub ghost struct CardView {
    pub app_id: Seq<char>,
    pub title: Seq<char>,
    pub instructions: Seq<char>,
}

impl View for MiniAppCard {
    type V = CardView;

    open spec fn view(&self) -> CardView {
        CardView { app_id: self.app_id@, title: self.title@, instructions: self.instructions@ }
    }
}

/// The mini-apps that come with the runtime.
pub open spec fn cards() -> Seq<CardView> {
    seq![
        CardView {
            app_id: "official.global-dharma"@,
            title: "全球法布施"@,
            instructions: "协助准备、检查和发送全球法布施内容。"@,
        },
        CardView {
            app_id: "official.flashcards"@,
            title: "法流背诵卡"@,
            instructions: "帮助用户复习和制作佛经背诵卡。"@,
        },
        CardView {
            app_id: "official.platform-publish"@,
            title: "平台发布"@,
            instructions: "协助整理并发布自媒体内容。"@,
        },
        CardView {
            app_id: "official.assistant"@,
            title: "大乘助手"@,
            instructions: "提供大乘软件功能引导和日常协助。"@,
        },
    ]
}

/// What cards say.
pub open spec fn card_views(items: Seq<MiniAppCard>) -> Seq<CardView> {
    Seq::new(items.len(), |i: int| items[i]@)
}

/// The mini-apps that come with the runtime.
pub fn miniapps() -> (out: Vec<MiniAppCard>)
    ensures
        card_views(out@) == cards(),
{
    let out = vec![
        MiniAppCard {
            app_id: "official.global-dharma",
            title: "全球法布施",
            instructions: "协助准备、检查和发送全球法布施内容。",
        },
        MiniAppCard {
            app_id: "official.flashcards",
            title: "法流背诵卡",
            instructions: "帮助用户复习和制作佛经背诵卡。",
        },
        MiniAppCard {
            app_id: "official.platform-publish",
            title: "平台发布",
            instructions: "协助整理并发布自媒体内容。",
        },
        MiniAppCard {
            app_id: "official.assistant",
            title: "大乘助手",
            instructions: "提供大乘软件功能引导和日常协助。",
        },
    ];
    proof {
        assert(card_views(out@) =~= cards());
    }
    out
}

/// The contact list entry of a mini-app.
pub open spec fn card_conversation(card: CardView) -> ConversationView {
    ConversationView {
        id: "miniapp:"@ + card.app_id,
        title: card.title,
        peer: PeerView::MiniApp { app_id: card.app_id },
        pinned: false,
        unread_count: 0,
        updated_at_ms: 0,
    }
}

/// The contact list: the assistant, and then the mini-apps.
pub open spec fn contact_list(assistant: ConversationView) -> Seq<ConversationView> {
    seq![assistant] + Seq::new(cards().len(), |i: int| card_conversation(cards()[i]))
}

/// The contact list: the assistant, and then the mini-apps.
pub fn browser_conversations(assistant: Conversation) -> (out: Vec<Conversation>)
    ensures
        conversation_views(out@) == contact_list(assistant@),
{
    let apps = miniapps();
    let mut out: Vec<Conversation> = vec![assistant];
    let mut i: usize = 0;
    while i < apps.len()
        invariant
            i <= apps@.len(),
            card_views(apps@) == cards(),
            conversation_views(out@) =~= seq![assistant@] + Seq::new(
                i as nat,
                |j: int| card_conversation(cards()[j]),
            ),
        decreases apps@.len() - i,
    {
        let ghost before = out@;
        let entry = Conversation {
            id: ConversationId("miniapp:".to_owned().concat(apps[i].app_id)),
            title: apps[i].title.to_owned(),
            peer: PeerKind::MiniApp { app_id: apps[i].app_id.to_owned() },
            pinned: false,
            unread_count: 0,
            updated_at_ms: 0,
        };
        proof {
            assert(cards()[i as int] == apps@[i as int]@);
        }
        out.push(entry);
        proof {
            assert(conversation_views(out@) =~= conversation_views(before).push(entry@));
        }
        i = i + 1;
    }
    proof {
        assert(cards().len() == apps@.len());
    }
    out
}

/// The first card of an application.
pub open spec fn card_for(items: Seq<CardView>, app_id: Seq<char>) -> Option<CardView>
    decreases items.len(),
{
    if items.len() == 0 {
        None
    } else {
        match card_for(items.drop_last(), app_id) {
            Some(card) => Some(card),
            None => if items.last().app_id == app_id {
                Some(items.last())
            } else {
                None
            },
        }
    }
}

/// A conversation that the browser has: with the assistant, or with one of the mini-apps.
pub open spec fn is_browser_conversation(id: Seq<char>) -> bool {
    ||| id == "codex:agent:assistant"@
    ||| exists|i: int| 0 <= i < cards().len() && id == "miniapp:"@ + (#[trigger] cards()[i]).app_id
}

/// Tests for a conversation that the browser has.
pub fn ensure_browser_conversation(id: &ConversationId) -> (out: Result<(), String>)
    ensures
        match out {
            Ok(_) => is_browser_conversation(id@),
            Err(message) => !is_browser_conversation(id@) && message@
                == "conversation is not available in WebAssembly"@,
        },
{
    if same(id.as_str(), "codex:agent:assistant") {
        return Ok(());
    }
    let apps = miniapps();
    let mut i: usize = 0;
    while i < apps.len()
        invariant
            i <= apps@.len(),
            card_views(apps@) == cards(),
            forall|j: int| 0 <= j < i ==> id@ != "miniapp:"@ + (#[trigger] cards()[j]).app_id,
        decreases apps@.len() - i,
    {
        proof {
            assert(cards()[i as int] == apps@[i as int]@);
        }
        if same(id.as_str(), "miniapp:".to_owned().concat(apps[i].app_id).as_str()) {
            return Ok(());
        }
        i = i + 1;
    }
    proof {
        assert(cards().len() == apps@.len());
    }
    Err("conversation is not available in WebAssembly".to_owned())
}

/// What the model is asked for a message: in a mini-app's conversation the message comes with what
/// the mini-app is.
pub open spec fn web_prompt(id: Seq<char>, text: Seq<char>) -> Seq<char> {
    if "miniapp:"@.is_prefix_of(id) {
        let app_id = id.skip("miniapp:"@.len() as int);
        match card_for(cards(), app_id) {
            Some(card) => "你正在通过大乘与小程序“"@ + card.title + "”（"@ + app_id
                + "）对话。请严格依据该小程序职责回答。\n小程序说明："@ + card.instructions
                + "\n\n用户消息：\n"@ + text,
            None => text,
        }
    } else {
        text
    }
}

fn find_card<'a>(apps: &'a Vec<MiniAppCard>, app_id: &str) -> (out: Option<&'a MiniAppCard>)
    ensures
        match out {
            Some(card) => card_for(card_views(apps@), app_id@) == Some(card@),
            None => card_for(card_views(apps@), app_id@) is None,
        },
{
    let mut i: usize = 0;
    while i < apps.len()
        invariant
            i <= apps@.len(),
            card_for(card_views(apps@).take(i as int), app_id@) is None,
        decreases apps@.len() - i,
    {
        proof {
            assert(card_views(apps@).take(i + 1).drop_last() =~= card_views(apps@).take(i as int));
        }
        if same(apps[i].app_id, app_id) {
            proof {
                lemma_card_found(card_views(apps@), app_id@, i + 1);
            }
            return Some(&apps[i]);
        }
        i = i + 1;
    }
    proof {
        assert(card_views(apps@).take(apps@.len() as int) =~= card_views(apps@));
    }
    None
}

proof fn lemma_card_found(items: Seq<CardView>, app_id: Seq<char>, n: int)
    requires
        0 <= n <= items.len(),
        card_for(items.take(n), app_id) is Some,
    ensures
        card_for(items, app_id) == card_for(items.take(n), app_id),
    decreases items.len(),
{
    if n < items.len() {
        assert(items.drop_last().take(n) =~= items.take(n));
        lemma_card_found(items.drop_last(), app_id, n);
    } else {
        assert(items.take(n) =~= items);
    }
}

/// What the model is asked for a message.
pub fn miniapp_prompt(id: &ConversationId, text: &str) -> (out: String)
    ensures
        out@ == web_prompt(id@, text@),
{
    if !starts_with(id.as_str(), "miniapp:") {
        return text.to_owned();
    }
    proof {
        reveal_strlit("miniapp:");
        assert("miniapp:"@.len() == 8);
    }
    let chars = to_chars(id.as_str());
    let app_id = from_chars(&chars, 8, chars.len());
    proof {
        assert(app_id@ =~= id@.skip(8));
    }
    let apps = miniapps();
    match find_card(&apps, app_id.as_str()) {
        Some(card) => "你正在通过大乘与小程序“".to_owned().concat(card.title).concat(
            "”（",
        ).concat(app_id.as_str()).concat(
            "）对话。请严格依据该小程序职责回答。\n小程序说明：",
        ).concat(card.instructions).concat("\n\n用户消息：\n").concat(text),
        None => text.to_owned(),
    }
}

/// The state of the runtime.
pub ghost struct WebView {
    pub histories: Map<Seq<char>, Seq<MessageView>>,
    pub model_inputs: Map<Seq<char>, Seq<Tree>>,
    pub events: Seq<EventView>,
    pub active: Set<Seq<char>>,
    pub next_id: u64,
}

/// The event that is told next, and what is left then.
pub open spec fn told(state: WebView) -> (Option<EventView>, WebView) {
    if state.events.len() == 0 {
        (None, state)
    } else {
        (Some(state.events[0]), WebView { events: state.events.drop_first(), ..state })
    }
}

/// The messages of conversations.
pub open spec fn history_views(histories: TextMap<Vec<Message>>) -> Map<
    Seq<char>,
    Seq<MessageView>,
> {
    histories@.map_values(|messages: Vec<Message>| message_views(messages@))
}

/// The inputs of the model by conversation.
pub open spec fn input_views(inputs: TextMap<Vec<Json>>) -> Map<Seq<char>, Seq<Tree>> {
    inputs@.map_values(|messages: Vec<Json>| trees(messages@))
}

/// A runtime that lives as long as its page.
pub struct MahayanaWebRuntime {
    config: WebConfig,
    versions: RuntimeVersions,
    histories: TextMap<Vec<Message>>,
    model_inputs: TextMap<Vec<Json>>,
    events: Vec<RuntimeEvent>,
    active_operations: TextMap<()>,
    next_id: u64,
}

impl View for MahayanaWebRuntime {
    type V = WebView;

    closed spec fn view(&self) -> WebView {
        WebView {
            histories: history_views(self.histories),
            model_inputs: input_views(self.model_inputs),
            events: event_views(self.events@),
            active: self.active_operations@.dom(),
            next_id: self.next_id,
        }
    }
}

/// What is there under a key, or nothing.
pub open spec fn or_empty<T>(map: Map<Seq<char>, Seq<T>>, key: Seq<char>) -> Seq<T> {
    if map.contains_key(key) {
        map[key]
    } else {
        Seq::empty()
    }
}

/// The map with one more value under a key.
pub open spec fn with_pushed<T>(map: Map<Seq<char>, Seq<T>>, key: Seq<char>, value: T) -> Map<
    Seq<char>,
    Seq<T>,
> {
    map.insert(key, or_empty(map, key).push(value))
}

/// The identifier that a counter gives; the counter stops at its largest value.
pub open spec fn fresh_id(prefix: Seq<char>, counter: u64) -> Seq<char> {
    prefix + ":web:"@ + decimal(counter as nat)
}

/// The counter after one more identifier.
pub open spec fn counted(counter: u64) -> u64 {
    if counter < u64::MAX {
        (counter + 1) as u64
    } else {
        counter
    }
}

/// What the runtime tells about itself.
pub open spec fn web_status(config: WebConfigView, versions: RuntimeVersions) -> StatusView {
    StatusView {
        versions,
        build_profile: BuildProfile::WebWasm,
        model_provider: ModelProviderMode::FirstPartyDacheng,
        model: config.model,
        remote_agent_enabled: false,
        telemetry_enabled: false,
        providers: seq!["codex"@, "miniapp"@],
    }
}

/// The first thing that is wrong with the settings.
pub open spec fn web_config_fault(config: WebConfigView) -> Option<Seq<char>> {
    if !is_https(config.responses_base_url) {
        Some("Responses endpoint must use HTTPS"@)
    } else {
        match config.product_session_token {
            Some(token) => if token.contains('\r') || token.contains('\n') {
                Some("Mahayana product session is invalid"@)
            } else {
                None
            },
            None => None,
        }
    }
}

/// What the runtime is asked to do. A message comes with the client's identifier for it if that
/// is a valid one.
#[derive(Debug, PartialEq, Eq)]
pub enum RuntimeCommand {
    Status,
    ListConversations,
    ConversationHistory { conversation_id: ConversationId, limit: Option<u32> },
    SendMessage {
        conversation_id: ConversationId,
        text: String,
        client_message_id: Option<MessageId>,
    },
    Interrupt { operation_id: OperationId },
    ResolveApproval { approval_id: ApprovalId, decision: ApprovalDecision, payload: Json },
}

/// What the runtime answers.
#[allow(inconsistent_fields)]
#[derive(Debug, PartialEq, Eq)]
pub enum RuntimeResponse {
    Status(RuntimeStatus),
    Conversations { data: Vec<Conversation> },
    History { data: Vec<Message> },
    Accepted { operation_id: OperationId },
    Interrupted { operation_id: OperationId },
}

/// A request to the model for an operation.
#[derive(Debug, PartialEq, Eq)]
pub struct WebInference {
    pub operation_id: OperationId,
    pub conversation_id: ConversationId,
    pub endpoint: String,
    pub authorization: String,
    pub body: String,
}

/// The number of messages that a history is limited to: fifty if not given, and from one to five
/// hundred.
pub open spec fn web_history_limit(limit: Option<u32>) -> nat {
    match limit {
        Some(n) => if n < 1 {
            1
        } else if n > 500 {
            500
        } else {
            n as nat
        },
        None => 50,
    }
}

/// A session token that can be used.
pub open spec fn usable_token(config: WebConfigView) -> Option<Seq<char>> {
    match config.product_session_token {
        Some(token) => if is_blank(token) {
            None
        } else {
            Some(token)
        },
        None => None,
    }
}

/// The message of a user as it is kept.
pub open spec fn user_message(
    id: Seq<char>,
    conversation: Seq<char>,
    text: Seq<char>,
    now: i64,
) -> MessageView {
    MessageView {
        id,
        conversation_id: conversation,
        role: MessageRole::User,
        text,
        created_at_ms: now,
        metadata: Tree::Object(map!["sandbox"@ => Tree::Text("web-wasm"@)]),
    }
}

/// The operation of a message that is sent.
pub open spec fn sent_operation(state: WebView) -> Seq<char> {
    fresh_id("operation"@, counted(state.next_id))
}

/// The state once a message is sent.
pub open spec fn sent(
    state: WebView,
    conversation: Seq<char>,
    text: Seq<char>,
    client_id: Option<Seq<char>>,
    now: i64,
) -> WebView {
    let counter = counted(state.next_id);
    let message_id = match client_id {
        Some(id) => id,
        None => fresh_id("message"@, counted(counter)),
    };
    WebView {
        histories: with_pushed(
            state.histories,
            conversation,
            user_message(message_id, conversation, text, now),
        ),
        model_inputs: with_pushed(
            state.model_inputs,
            conversation,
            input_message("user"@, web_prompt(conversation, text)),
        ),
        active: state.active.insert(sent_operation(state)),
        next_id: match client_id {
            Some(_) => counter,
            None => counted(counter),
        },
        ..state
    }
}

/// The message of an answer as it is kept.
pub open spec fn web_answer(
    id: Seq<char>,
    conversation: Seq<char>,
    text: Seq<char>,
    now: i64,
) -> MessageView {
    MessageView {
        id,
        conversation_id: conversation,
        role: if "miniapp:"@.is_prefix_of(conversation) {
            MessageRole::MiniApp
        } else {
            MessageRole::Assistant
        },
        text,
        created_at_ms: now,
        metadata: Tree::Object(
            map![
                "agentBackend"@ => Tree::Text("dacheng-responses-web-wasm"@),
                "nativeProcess"@ => Tree::Bool(false),
                "nativeGit"@ => Tree::Bool(false),
            ],
        ),
    }
}

/// The state once the model has answered an operation. An operation that is not active any more
/// is not answered at all.
pub open spec fn answered(
    state: WebView,
    operation: Seq<char>,
    conversation: Seq<char>,
    result: Result<Seq<char>, Seq<char>>,
    now: i64,
) -> WebView {
    if !state.active.contains(operation) {
        state
    } else {
        match result {
            Ok(text) => {
                let counter = counted(state.next_id);
                let message = web_answer(
                    fresh_id("message"@, counter),
                    conversation,
                    text,
                    now,
                );
                WebView {
                    histories: with_pushed(state.histories, conversation, message),
                    model_inputs: with_pushed(
                        state.model_inputs,
                        conversation,
                        input_message("assistant"@, text),
                    ),
                    events: state.events.push(
                        EventView::MessageDelta {
                            operation_id: operation,
                            conversation_id: conversation,
                            delta: text,
                        },
                    ).push(EventView::MessageCompleted { operation_id: operation, message }).push(
                        EventView::OperationCompleted { operation_id: operation },
                    ),
                    active: state.active.remove(operation),
                    next_id: counter,
                }
            },
            Err(message) => WebView {
                events: state.events.push(
                    EventView::OperationFailed {
                        operation_id: operation,
                        code: "model_inference_failed"@,
                        message,
                    },
                ),
                active: state.active.remove(operation),
                ..state
            },
        }
    }
}

/// The messages of a conversation that a request for its history shows.
pub open spec fn shown_history(state: WebView, conversation: Seq<char>, limit: Option<u32>) -> Seq<
    MessageView,
> {
    latest(or_empty(state.histories, conversation), web_history_limit(limit))
}

/// The state once an operation was interrupted.
pub open spec fn stopped(state: WebView, operation: Seq<char>) -> WebView {
    WebView { active: state.active.remove(operation), ..state }
}

/// The endpoint, the authorization and the body ask the model of the settings about an input.
pub open spec fn asks_model(
    config: WebConfigView,
    input: Seq<Tree>,
    endpoint: Seq<char>,
    authorization: Seq<char>,
    body: Seq<char>,
) -> bool {
    &&& endpoint == endpoint_of(config.responses_base_url)
    &&& authorization == "Bearer "@ + usable_token(config)->0
    &&& body == json_compact(inference_body(config.model, input))
}

/// How a request to the model is sent.
#[derive(Debug, PartialEq, Eq)]
pub struct FetchRequest {
    pub endpoint: String,
    pub authorization: String,
    pub body: String,
}

/// The request that asks the model about an input, where there is a session.
pub fn fetch_request(config: &WebConfig, input: Vec<Json>) -> (out: Result<FetchRequest, String>)
    ensures
        match out {
            Ok(request) => {
                &&& usable_token(config@) is Some
                &&& asks_model(
                    config@,
                    trees(input@),
                    request.endpoint@,
                    request.authorization@,
                    request.body@,
                )
            },
            Err(message) => usable_token(config@) is None && message@
                == "Mahayana product session is required"@,
        },
{
    match &config.product_session_token {
        Some(token) => if blank(token.as_str()) {
            Err("Mahayana product session is required".to_owned())
        } else {
            Ok(
                FetchRequest {
                    endpoint: responses_endpoint(config.responses_base_url.as_str()),
                    authorization: "Bearer ".to_owned().concat(token.as_str()),
                    body: compact(&responses_body(config.model.as_str(), input)),
                },
            )
        },
        None => Err("Mahayana product session is required".to_owned()),
    }
}

/// How fetching an answer can fail in the page.
#[derive(Debug, Clone, Copy, PartialEq, Eq, Structural)]
pub enum FetchFailure {
    Request,
    Authorization,
    ContentType,
    Window,
    Fetch,
    Response,
    Status(u16),
    NotJson,
    Undecodable,
}

/// How a failure reads.
pub open spec fn fetch_failure_text(failure: FetchFailure) -> Seq<char> {
    match failure {
        FetchFailure::Request => "could not create Responses request"@,
        FetchFailure::Authorization => "could not set Responses authorization"@,
        FetchFailure::ContentType => "could not set Responses content type"@,
        FetchFailure::Window => "browser window is unavailable"@,
        FetchFailure::Fetch => "Responses fetch failed"@,
        FetchFailure::Response => "Responses fetch returned an invalid response"@,
        FetchFailure::Status(status) => "Responses endpoint returned HTTP "@ + decimal(
            status as nat,
        ),
        FetchFailure::NotJson => "Responses body is not JSON"@,
        FetchFailure::Undecodable => "Responses body could not be decoded"@,
    }
}

/// How a failure reads.
pub fn fetch_failure(failure: FetchFailure) -> (out: String)
    ensures
        out@ == fetch_failure_text(failure),
{
    match failure {
        FetchFailure::Request => "could not create Responses request".to_owned(),
        FetchFailure::Authorization => "could not set Responses authorization".to_owned(),
        FetchFailure::ContentType => "could not set Responses content type".to_owned(),
        FetchFailure::Window => "browser window is unavailable".to_owned(),
        FetchFailure::Fetch => "Responses fetch failed".to_owned(),
        FetchFailure::Response => "Responses fetch returned an invalid response".to_owned(),
        FetchFailure::Status(status) => "Responses endpoint returned HTTP ".to_owned().concat(
            decimal_text(status as u64).as_str(),
        ),
        FetchFailure::NotJson => "Responses body is not JSON".to_owned(),
        FetchFailure::Undecodable => "Responses body could not be decoded".to_owned(),
    }
}

/// What a body that was read as JSON answers.
pub open spec fn body_answer(parsed: Result<Tree, Seq<char>>) -> Result<Seq<char>, Seq<char>> {
    match parsed {
        Ok(payload) => match reply_text(payload) {
            Some(text) => Ok(text),
            None => Err("Responses endpoint returned no assistant output text"@),
        },
        Err(_) => Err("Responses endpoint returned invalid JSON"@),
    }
}

/// What a payload answers.
pub fn payload_answer(payload: &Json) -> (out: Result<String, String>)
    ensures
        text_result(out) == body_answer(Ok(payload@)),
{
    match extract_output_text(payload) {
        Some(text) => Ok(text),
        None => Err("Responses endpoint returned no assistant output text".to_owned()),
    }
}

/// What the body of a reply answers.
pub fn interpret_body(body: &str) -> (out: Result<String, String>)
    ensures
        text_result(out) == body_answer(json_parse(body@)),
{
    match parse(body) {
        Ok(payload) => payload_answer(&payload),
        Err(_) => Err("Responses endpoint returned invalid JSON".to_owned()),
    }
}

impl MahayanaWebRuntime {
    /// The settings.
    pub closed spec fn settings(&self) -> WebConfigView {
        self.config@
    }

    /// The versions that the host speaks.
    pub closed spec fn spoken(&self) -> RuntimeVersions {
        self.versions
    }

    /// Nothing but the state differs.
    pub open spec fn same_setup(&self, other: &MahayanaWebRuntime) -> bool {
        self.settings() == other.settings() && self.spoken() == other.spoken()
    }

    /// The runtime with these settings, if they are accepted; its first event says that it is
    /// ready.
    pub fn new(config: WebConfig, versions: RuntimeVersions) -> (out: Result<
        MahayanaWebRuntime,
        String,
    >)
        ensures
            match out {
                Ok(runtime) => {
                    &&& web_config_fault(config@) is None
                    &&& runtime.settings() == config@
                    &&& runtime.spoken() == versions
                    &&& runtime@ == (WebView {
                        histories: Map::empty(),
                        model_inputs: Map::empty(),
                        events: seq![EventView::Ready { status: web_status(config@, versions) }],
                        active: Set::empty(),
                        next_id: 0,
                    })
                },
                Err(message) => web_config_fault(config@) == Some(message@),
            },
    {
        if !starts_with(config.responses_base_url.as_str(), "https://") {
            return Err("Responses endpoint must use HTTPS".to_owned());
        }
        match &config.product_session_token {
            Some(token) => {
                if has_char(token.as_str(), '\r') || has_char(token.as_str(), '\n') {
                    return Err("Mahayana product session is invalid".to_owned());
                }
            },
            None => {},
        }
        let mut runtime = MahayanaWebRuntime {
            config,
            versions,
            histories: TextMap::new(),
            model_inputs: TextMap::new(),
            events: Vec::new(),
            active_operations: TextMap::new(),
            next_id: 0,
        };
        let status = runtime.status();
        runtime.events.push(RuntimeEvent::Ready { status });
        proof {
            assert(history_views(runtime.histories) =~= Map::<
                Seq<char>,
                Seq<MessageView>,
            >::empty());
            assert(input_views(runtime.model_inputs) =~= Map::<Seq<char>, Seq<Tree>>::empty());
            assert(runtime.active_operations@.dom() =~= Set::<Seq<char>>::empty());
            assert(event_views(runtime.events@) =~= seq![
                EventView::Ready { status: web_status(config@, versions) },
            ]);
        }
        Ok(runtime)
    }

    /// What the runtime tells about itself.
    pub fn status(&self) -> (out: RuntimeStatus)
        ensures
            out@ == web_status(self.settings(), self.spoken()),
    {
        let providers = vec!["codex".to_owned(), "miniapp".to_owned()];
        proof {
            assert(texts(providers@) =~= seq!["codex"@, "miniapp"@]);
        }
        RuntimeStatus {
            versions: self.versions,
            build_profile: BuildProfile::WebWasm,
            model_provider: ModelProviderMode::FirstPartyDacheng,
            model: self.config.model.clone(),
            remote_agent_enabled: false,
            telemetry_enabled: false,
            providers,
        }
    }

    /// Takes the next identifier.
    pub fn next_id(&mut self, prefix: &str) -> (out: String)
        ensures
            out@ == fresh_id(prefix@, counted(old(self)@.next_id)),
            final(self).same_setup(old(self)),
            final(self)@ == (WebView { next_id: counted(old(self)@.next_id), ..old(self)@ }),
    {
        if self.next_id < u64::MAX {
            self.next_id = self.next_id + 1;
        }
        prefix.to_owned().concat(":web:").concat(decimal_text(self.next_id).as_str())
    }

    fn push_history(&mut self, id: &ConversationId, message: Message)
        ensures
            final(self).same_setup(old(self)),
            final(self)@ == (WebView {
                histories: with_pushed(old(self)@.histories, id@, message@),
                ..old(self)@
            }),
    {
        let ghost before = history_views(self.histories);
        let mut history = match self.histories.remove(id.as_str()) {
            Some(history) => history,
            None => Vec::new(),
        };
        let ghost kept = history@;
        history.push(message);
        self.histories.insert(id.0.clone(), history);
        proof {
            assert(message_views(history@) =~= message_views(kept).push(message@));
            assert(message_views(kept) =~= or_empty(before, id@));
            assert(history_views(self.histories) =~= with_pushed(before, id@, message@));
        }
    }

    fn push_input(&mut self, id: &ConversationId, role: &str, text: &str) -> (out: Vec<Json>)
        ensures
            final(self).same_setup(old(self)),
            final(self)@ == (WebView {
                model_inputs: with_pushed(
                    old(self)@.model_inputs,
                    id@,
                    input_message(role@, text@),
                ),
                ..old(self)@
            }),
            trees(out@) == final(self)@.model_inputs[id@],
    {
        let ghost before = input_views(self.model_inputs);
        let input = match self.model_inputs.remove(id.as_str()) {
            Some(input) => input,
            None => Vec::new(),
        };
        let ghost kept = input@;
        let input = appended(input, message_input(role, text));
        let out = copy_all(&input);
        self.model_inputs.insert(id.0.clone(), input);
        proof {
            assert(trees(kept) =~= or_empty(before, id@));
            assert(input_views(self.model_inputs) =~= with_pushed(
                before,
                id@,
                input_message(role@, text@),
            ));
        }
        out
    }

    /// Lists the last messages of a conversation.
    pub fn history(&self, id: &ConversationId, limit: Option<u32>) -> (out: Vec<Message>)
        ensures
            message_views(out@) == shown_history(self@, id@, limit),
    {
        let limit: u32 = match limit {
            Some(n) => if n < 1 {
                1
            } else if n > 500 {
                500
            } else {
                n
            },
            None => 50,
        };
        match self.histories.get(id.as_str()) {
            Some(history) => latest_messages(history, limit as usize),
            None => {
                let out: Vec<Message> = Vec::new();
                proof {
                    assert(message_views(out@) =~= Seq::<MessageView>::empty());
                }
                out
            },
        }
    }

    /// Sends a message to the model: the message is kept, and the operation begins with the
    /// request that is given.
    pub fn send_message(
        &mut self,
        conversation_id: ConversationId,
        text: String,
        client_message_id: Option<MessageId>,
        now: i64,
    ) -> (out: Result<WebInference, String>)
        ensures
            final(self).same_setup(old(self)),
            match out {
                Ok(inference) => {
                    let client_id = match client_message_id {
                        Some(id) => Some(id@),
                        None => None,
                    };
                    &&& is_browser_conversation(conversation_id@)
                    &&& !is_blank(text@)
                    &&& usable_token(old(self).settings()) is Some
                    &&& final(self)@ == sent(
                        old(self)@,
                        conversation_id@,
                        text@,
                        client_id,
                        now,
                    )
                    &&& inference.operation_id@ == sent_operation(old(self)@)
                    &&& inference.conversation_id@ == conversation_id@
                    &&& asks_model(
                        old(self).settings(),
                        final(self)@.model_inputs[conversation_id@],
                        inference.endpoint@,
                        inference.authorization@,
                        inference.body@,
                    )
                },
                Err(message) => {
                    &&& final(self)@ == old(self)@
                    &&& if !is_browser_conversation(conversation_id@) {
                        message@ == "conversation is not available in WebAssembly"@
                    } else if is_blank(text@) {
                        message@ == "message text must not be empty"@
                    } else {
                        &&& usable_token(old(self).settings()) is None
                        &&& message@
                            == "请先使用支付宝登录；浏览器不会回退到云端 Agent"@
                    }
                },
            },
    {
        match ensure_browser_conversation(&conversation_id) {
            Ok(_) => {},
            Err(message) => {
                return Err(message);
            },
        }
        if blank(text.as_str()) {
            return Err("message text must not be empty".to_owned());
        }
        let available = match &self.config.product_session_token {
            Some(token) => !blank(token.as_str()),
            None => false,
        };
        if !available {
            return Err("请先使用支付宝登录；浏览器不会回退到云端 Agent".to_owned());
        }
        let operation_id = OperationId(self.next_id("operation"));
        let message_id = match client_message_id {
            Some(id) => id,
            None => MessageId(self.next_id("message")),
        };
        let message = Message {
            id: message_id,
            conversation_id: conversation_id.clone(),
            role: MessageRole::User,
            text: text.clone(),
            created_at_ms: now,
            metadata: Json::Object(Object::new().with_text("sandbox", "web-wasm")),
        };
        self.push_history(&conversation_id, message);
        let prompt = miniapp_prompt(&conversation_id, text.as_str());
        let input = self.push_input(&conversation_id, "user", prompt.as_str());
        let ghost before = self.active_operations@.dom();
        self.active_operations.insert(operation_id.0.clone(), ());
        proof {
            assert(self.active_operations@.dom() =~= before.insert(operation_id@));
        }
        match fetch_request(&self.config, input) {
            Ok(request) => Ok(
                WebInference {
                    operation_id,
                    conversation_id,
                    endpoint: request.endpoint,
                    authorization: request.authorization,
                    body: request.body,
                },
            ),
            Err(message) => Err(message),
        }
    }

    /// Interrupts an operation that is under way.
    pub fn interrupt(&mut self, operation_id: &OperationId) -> (out: Result<(), String>)
        ensures
            final(self).same_setup(old(self)),
            match out {
                Ok(_) => old(self)@.active.contains(operation_id@) && final(self)@ == stopped(
                    old(self)@,
                    operation_id@,
                ),
                Err(message) => !old(self)@.active.contains(operation_id@) && message@
                    == "operation was not found"@ && final(self)@ == old(self)@,
            },
    {
        let ghost before = self.active_operations@.dom();
        let removed = self.active_operations.remove(operation_id.as_str());
        proof {
            assert(self.active_operations@.dom() =~= before.remove(operation_id@));
            if !before.contains(operation_id@) {
                assert(before.remove(operation_id@) =~= before);
            }
        }
        match removed {
            Some(_) => Ok(()),
            None => Err("operation was not found".to_owned()),
        }
    }

    /// Executes a command. `assistant` is the contact list entry of the assistant and `now` the
    /// time. A message that is accepted comes with its request to the model.
    pub fn execute(&mut self, command: RuntimeCommand, assistant: Conversation, now: i64) -> (out:
        Result<(RuntimeResponse, Option<WebInference>), String>)
        ensures
            final(self).same_setup(old(self)),
            match command {
                RuntimeCommand::Status => {
                    &&& out matches Ok((RuntimeResponse::Status(status), None))
                    &&& status@ == web_status(old(self).settings(), old(self).spoken())
                    &&& final(self)@ == old(self)@
                },
                RuntimeCommand::ListConversations => {
                    &&& out matches Ok((RuntimeResponse::Conversations { data }, None))
                    &&& conversation_views(data@) == contact_list(assistant@)
                    &&& final(self)@ == old(self)@
                },
                RuntimeCommand::ConversationHistory { conversation_id, limit } => {
                    &&& final(self)@ == old(self)@
                    &&& if is_browser_conversation(conversation_id@) {
                        &&& out matches Ok((RuntimeResponse::History { data }, None))
                        &&& message_views(data@) == shown_history(
                            old(self)@,
                            conversation_id@,
                            limit,
                        )
                    } else {
                        &&& out matches Err(message)
                        &&& message@ == "conversation is not available in WebAssembly"@
                    }
                },
                RuntimeCommand::SendMessage { conversation_id, text, client_message_id } => {
                    if is_browser_conversation(conversation_id@) && !is_blank(text@)
                        && usable_token(old(self).settings()) is Some {
                        let client_id = match client_message_id {
                            Some(id) => Some(id@),
                            None => None,
                        };
                        &&& out matches Ok(
                            (RuntimeResponse::Accepted { operation_id }, Some(inference)),
                        )
                        &&& operation_id@ == sent_operation(old(self)@)
                        &&& final(self)@ == sent(
                            old(self)@,
                            conversation_id@,
                            text@,
                            client_id,
                            now,
                        )
                        &&& inference.operation_id@ == operation_id@
                        &&& inference.conversation_id@ == conversation_id@
                        &&& asks_model(
                            old(self).settings(),
                            final(self)@.model_inputs[conversation_id@],
                            inference.endpoint@,
                            inference.authorization@,
                            inference.body@,
                        )
                    } else {
                        &&& out matches Err(message)
                        &&& final(self)@ == old(self)@
                        &&& message@ == if !is_browser_conversation(conversation_id@) {
                            "conversation is not available in WebAssembly"@
                        } else if is_blank(text@) {
                            "message text must not be empty"@
                        } else {
                            "请先使用支付宝登录；浏览器不会回退到云端 Agent"@
                        }
                    }
                },
                RuntimeCommand::Interrupt { operation_id } => if old(self)@.active.contains(
                    operation_id@,
                ) {
                    &&& out matches Ok((RuntimeResponse::Interrupted { operation_id: id }, None))
                    &&& id@ == operation_id@
                    &&& final(self)@ == stopped(old(self)@, operation_id@)
                } else {
                    &&& out matches Err(message)
                    &&& message@ == "operation was not found"@
                    &&& final(self)@ == old(self)@
                },
                RuntimeCommand::ResolveApproval { approval_id, .. } => {
                    &&& out matches Err(message)
                    &&& message@ == "approval was not found: "@ + approval_id@
                    &&& final(self)@ == old(self)@
                },
            },
    {
        match command {
            RuntimeCommand::Status => Ok((RuntimeResponse::Status(self.status()), None)),
            RuntimeCommand::ListConversations => Ok(
                (
                    RuntimeResponse::Conversations { data: browser_conversations(assistant) },
                    None,
                ),
            ),
            RuntimeCommand::ConversationHistory { conversation_id, limit } => {
                match ensure_browser_conversation(&conversation_id) {
                    Ok(_) => Ok(
                        (
                            RuntimeResponse::History {
                                data: self.history(&conversation_id, limit),
                            },
                            None,
                        ),
                    ),
                    Err(message) => Err(message),
                }
            },
            RuntimeCommand::SendMessage { conversation_id, text, client_message_id } => {
                match self.send_message(conversation_id, text, client_message_id, now) {
                    Ok(inference) => Ok(
                        (
                            RuntimeResponse::Accepted {
                                operation_id: inference.operation_id.clone(),
                            },
                            Some(inference),
                        ),
                    ),
                    Err(message) => Err(message),
                }
            },
            RuntimeCommand::Interrupt { operation_id } => match self.interrupt(&operation_id) {
                Ok(_) => Ok((RuntimeResponse::Interrupted { operation_id }, None)),
                Err(message) => Err(message),
            },
            RuntimeCommand::ResolveApproval { approval_id, .. } => Err(
                "approval was not found: ".to_owned().concat(approval_id.as_str()),
            ),
        }
    }

    /// Takes the oldest event out of the queue.
    pub fn receive(&mut self) -> (out: Option<RuntimeEvent>)
        ensures
            final(self).same_setup(old(self)),
            match out {
                Some(event) => told(old(self)@) == (Some(event@), final(self)@),
                None => told(old(self)@) == (None::<EventView>, final(self)@),
            },
    {
        if self.events.len() == 0 {
            return None;
        }
        let ghost before = self.events@;
        let event = self.events.remove(0);
        proof {
            assert(event_views(self.events@) =~= event_views(before).drop_first());
        }
        Some(event)
    }

    fn push_event(&mut self, event: RuntimeEvent)
        ensures
            final(self).same_setup(old(self)),
            final(self)@ == (WebView { events: old(self)@.events.push(event@), ..old(self)@ }),
    {
        let ghost before = self.events@;
        self.events.push(event);
        proof {
            assert(event_views(self.events@) =~= event_views(before).push(event@));
        }
    }

    /// Takes the answer of the model to an operation, at the time `now`.
    pub fn finish_inference(
        &mut self,
        operation_id: OperationId,
        conversation_id: ConversationId,
        result: Result<String, String>,
        now: i64,
    )
        ensures
            final(self).same_setup(old(self)),
            final(self)@ == answered(
                old(self)@,
                operation_id@,
                conversation_id@,
                text_result(result),
                now,
            ),
    {
        match self.interrupt(&operation_id) {
            Ok(_) => {},
            Err(_) => {
                return;
            },
        }
        match result {
            Ok(text) => {
                self.push_input(&conversation_id, "assistant", text.as_str());
                let role = if starts_with(conversation_id.as_str(), "miniapp:") {
                    MessageRole::MiniApp
                } else {
                    MessageRole::Assistant
                };
                let metadata = Object::new().with_text(
                    "agentBackend",
                    "dacheng-responses-web-wasm",
                ).with("nativeProcess", Json::Bool(false)).with("nativeGit", Json::Bool(false));
                let message = Message {
                    id: MessageId(self.next_id("message")),
                    conversation_id: conversation_id.clone(),
                    role,
                    text: text.clone(),
                    created_at_ms: now,
                    metadata: Json::Object(metadata),
                };
                self.push_history(&conversation_id, message.clone());
                self.push_event(
                    RuntimeEvent::MessageDelta {
                        operation_id: operation_id.clone(),
                        conversation_id,
                        delta: text,
                    },
                );
                self.push_event(
                    RuntimeEvent::MessageCompleted { operation_id: operation_id.clone(), message },
                );
                self.push_event(RuntimeEvent::OperationCompleted { operation_id });
            },
            Err(message) => {
                self.push_event(
                    RuntimeEvent::OperationFailed {
                        operation_id,
                        code: "model_inference_failed".to_owned(),
                        message,
                    },
                );
            },
        }
    }
}

/// An answer to an operation that was interrupted, or answered before, changes nothing.
pub proof fn lemma_interrupted_is_silent(
    state: WebView,
    operation: Seq<char>,
    conversation: Seq<char>,
    result: Result<Seq<char>, Seq<char>>,
    now: i64,
)
    ensures
        ({
            let stopped = WebView { active: state.active.remove(operation), ..state };
            answered(stopped, operation, conversation, result, now) == stopped
        }),
        ({
            let once = answered(state, operation, conversation, result, now);
            answered(once, operation, conversation, result, now) == once
        }),
{
}

/// The decimal text of a number tells which number it is.
pub proof fn lemma_decimal_injective(a: nat, b: nat)
    requires
        decimal(a) == decimal(b),
    ensures
        a == b,
    decreases a,
{
    lemma_decimal_digits(a);
    lemma_decimal_digits(b);
    if a >= 10 && b >= 10 {
        assert(decimal(a).drop_last() =~= decimal(a / 10));
        assert(decimal(b).drop_last() =~= decimal(b / 10));
        lemma_decimal_injective(a / 10, b / 10);
    }
}

proof fn lemma_decimal_digits(n: nat)
    ensures
        decimal(n).len() > 0,
        decimal(n).last() as u32 == 48 + n % 10,
        n >= 10 ==> decimal(n).len() > 1,
        n < 10 ==> decimal(n).len() == 1,
    decreases n,
{
    if n >= 10 {
        lemma_decimal_digits(n / 10);
    }
}

/// Identifiers of one kind that are handed out one after the other differ, until the counter
/// stops.
pub proof fn lemma_fresh_ids_differ(prefix: Seq<char>, a: u64, b: u64)
    requires
        a != b,
    ensures
        fresh_id(prefix, a) != fresh_id(prefix, b),
        a < u64::MAX ==> fresh_id(prefix, counted(a)) != fresh_id(prefix, a),
{
    lemma_fresh_id_tells(prefix, a, b);
    if a < u64::MAX {
        lemma_fresh_id_tells(prefix, counted(a), a);
    }
}

proof fn lemma_fresh_id_tells(prefix: Seq<char>, a: u64, b: u64)
    requires
        a != b,
    ensures
        fresh_id(prefix, a) != fresh_id(prefix, b),
{
    if fresh_id(prefix, a) == fresh_id(prefix, b) {
        let front = prefix + ":web:"@;
        assert(decimal(a as nat) =~= fresh_id(prefix, a).skip(front.len() as int));
        assert(decimal(b as nat) =~= fresh_id(prefix, b).skip(front.len() as int));
        lemma_decimal_injective(a as nat, b as nat);
    }
}

} // verus!
