//! What the runtime in a browser comes to: what is sent and answered is kept, in its conversation
//! and nowhere else.

use crate::json::{field, items_field, text_field, Tree};
use crate::json_text::json_compact;
use crate::model::{
    latest, BuildProfile, ConversationView, EventView, MessageRole, ModelProviderMode, PeerView,
    RuntimeVersions,
};
use crate::model_reply::{inference_body, lemma_endpoint, lemma_inference_body, reply_text};
use crate::text::{decimal, is_blank};
use crate::web::{
    answered, asks_model, body_answer, card_for, cards, contact_list, fetch_failure_text,
    is_browser_conversation, lemma_decimal_injective, or_empty, sent, sent_operation, shown_history,
    stopped, told, usable_token, web_config_fault, web_history_limit, web_prompt, web_status, CardView,
    FetchFailure, WebConfigView, WebView,
};
use vstd::prelude::*;
use vstd::string::*;

verus! {

/// An answer to an operation that is under way is kept in its conversation, whichever that is: the
/// history is the earlier one with one more message, which has the text of the answer and is the
/// message that is told of. The model's input gets the answer too. The text is told first, then the
/// message, and then that the operation is complete; the operation is over.
pub proof fn lemma_answer_is_kept_and_told(
    state: WebView,
    operation: Seq<char>,
    conversation: Seq<char>,
    text: Seq<char>,
    now: i64,
)
    requires
        state.active.contains(operation),
    ensures
        ({
            let after = answered(state, operation, conversation, Ok(text), now);
            let before = or_empty(state.histories, conversation);
            let history = or_empty(after.histories, conversation);
            let told = state.events.len() as int;
            &&& history.len() == before.len() + 1
            &&& history.drop_last() == before
            &&& history.last().text == text
            &&& history.last().conversation_id == conversation
            &&& history.last().created_at_ms == now
            &&& history.last().role == if "miniapp:"@.is_prefix_of(conversation) {
                MessageRole::MiniApp
            } else {
                MessageRole::Assistant
            }
            &&& after.events.len() == told + 3
            &&& state.events.is_prefix_of(after.events)
            &&& after.events[told] == (EventView::MessageDelta {
                operation_id: operation,
                conversation_id: conversation,
                delta: text,
            })
            &&& after.events[told + 1] == (EventView::MessageCompleted {
                operation_id: operation,
                message: history.last(),
            })
            &&& after.events[told + 2] == (EventView::OperationCompleted {
                operation_id: operation,
            })
            &&& !after.active.contains(operation)
            &&& or_empty(after.model_inputs, conversation).drop_last() == or_empty(
                state.model_inputs,
                conversation,
            )
            &&& text_field(or_empty(after.model_inputs, conversation).last(), "role"@) == Some(
                "assistant"@,
            )
            &&& text_field(or_empty(after.model_inputs, conversation).last(), "content"@) == Some(
                text,
            )
        }),
{
    let after = answered(state, operation, conversation, Ok(text), now);
    lemma_inference_body(Seq::empty(), Seq::empty(), "assistant"@, text);
    let history = or_empty(after.histories, conversation);
    assert(history.drop_last() =~= or_empty(state.histories, conversation));
    let input = or_empty(after.model_inputs, conversation);
    assert(input.drop_last() =~= or_empty(state.model_inputs, conversation));
    assert(after.events.take(state.events.len() as int) =~= state.events);
}

/// A failure of the model is told under its operation and ends it; nothing is kept of it.
pub proof fn lemma_failure_is_told(
    state: WebView,
    operation: Seq<char>,
    conversation: Seq<char>,
    reason: Seq<char>,
    now: i64,
)
    requires
        state.active.contains(operation),
    ensures
        ({
            let after = answered(state, operation, conversation, Err(reason), now);
            &&& after.histories == state.histories
            &&& after.model_inputs == state.model_inputs
            &&& after.events == state.events.push(
                EventView::OperationFailed {
                    operation_id: operation,
                    code: "model_inference_failed"@,
                    message: reason,
                },
            )
            &&& !after.active.contains(operation)
            &&& after.next_id == state.next_id
        }),
{
}

/// An answer touches no other conversation and no other operation.
pub proof fn lemma_answer_stays_in_its_conversation(
    state: WebView,
    operation: Seq<char>,
    conversation: Seq<char>,
    result: Result<Seq<char>, Seq<char>>,
    now: i64,
    other: Seq<char>,
)
    ensures
        ({
            let after = answered(state, operation, conversation, result, now);
            &&& other != conversation ==> or_empty(after.histories, other) == or_empty(
                state.histories,
                other,
            ) && or_empty(after.model_inputs, other) == or_empty(state.model_inputs, other)
            &&& other != operation ==> (after.active.contains(other) <==> state.active.contains(
                other,
            ))
        }),
{
}

/// A message that is sent is kept as the user's, as it was written, at the end of its
/// conversation, under the client's identifier where it has one. The model is given the prompt for
/// it as the user's input, and its operation is under way. Nothing is told yet, and no other
/// conversation changes.
pub proof fn lemma_sent_message_is_kept(
    state: WebView,
    conversation: Seq<char>,
    text: Seq<char>,
    client_id: Option<Seq<char>>,
    now: i64,
    other: Seq<char>,
)
    ensures
        ({
            let after = sent(state, conversation, text, client_id, now);
            let history = or_empty(after.histories, conversation);
            let input = or_empty(after.model_inputs, conversation);
            &&& history.len() == or_empty(state.histories, conversation).len() + 1
            &&& history.drop_last() == or_empty(state.histories, conversation)
            &&& history.last().text == text
            &&& history.last().role == MessageRole::User
            &&& history.last().conversation_id == conversation
            &&& history.last().created_at_ms == now
            &&& client_id matches Some(id) ==> history.last().id == id
            &&& input.drop_last() == or_empty(state.model_inputs, conversation)
            &&& text_field(input.last(), "role"@) == Some("user"@)
            &&& text_field(input.last(), "content"@) == Some(web_prompt(conversation, text))
            &&& after.active.contains(sent_operation(state))
            &&& state.active.subset_of(after.active)
            &&& after.events == state.events
            &&& other != conversation ==> or_empty(after.histories, other) == or_empty(
                state.histories,
                other,
            ) && or_empty(after.model_inputs, other) == or_empty(state.model_inputs, other)
        }),
{
    let after = sent(state, conversation, text, client_id, now);
    lemma_inference_body(Seq::empty(), Seq::empty(), "user"@, web_prompt(conversation, text));
    let history = or_empty(after.histories, conversation);
    assert(history.drop_last() =~= or_empty(state.histories, conversation));
    let input = or_empty(after.model_inputs, conversation);
    assert(input.drop_last() =~= or_empty(state.model_inputs, conversation));
}

/// What is said in a conversation and answered there is its history: the message and then the
/// answer, behind what was there before.
pub proof fn lemma_exchange_is_the_history(
    state: WebView,
    conversation: Seq<char>,
    text: Seq<char>,
    client_id: Option<Seq<char>>,
    now: i64,
    answer: Seq<char>,
    later: i64,
)
    ensures
        ({
            let asked = sent(state, conversation, text, client_id, now);
            let done = answered(asked, sent_operation(state), conversation, Ok(answer), later);
            let before = or_empty(state.histories, conversation);
            let history = or_empty(done.histories, conversation);
            &&& history.len() == before.len() + 2
            &&& before.is_prefix_of(history)
            &&& history[before.len() as int].text == text
            &&& history[before.len() as int].role == MessageRole::User
            &&& history[before.len() as int + 1].text == answer
            &&& history[before.len() as int + 1].role != MessageRole::User
            &&& latest(history, 2) == history.skip(before.len() as int)
        }),
{
    let asked = sent(state, conversation, text, client_id, now);
    lemma_sent_message_is_kept(state, conversation, text, client_id, now, conversation);
    lemma_answer_is_kept_and_told(asked, sent_operation(state), conversation, answer, later);
    let done = answered(asked, sent_operation(state), conversation, Ok(answer), later);
    let before = or_empty(state.histories, conversation);
    let middle = or_empty(asked.histories, conversation);
    let history = or_empty(done.histories, conversation);
    assert(history.drop_last()[before.len() as int] == middle.last());
    assert(history[before.len() as int] == middle.last());
    assert(history.take(before.len() as int) =~= before) by {
        assert forall|i: int| 0 <= i < before.len() implies history[i] == before[i] by {
            assert(history[i] == history.drop_last()[i]);
            assert(middle[i] == middle.drop_last()[i]);
        }
    }
}

/// The history that is shown of a conversation is its own, the latest messages in their order; the
/// answer that came last is shown last.
pub proof fn lemma_history_is_shown(
    state: WebView,
    operation: Seq<char>,
    conversation: Seq<char>,
    text: Seq<char>,
    now: i64,
    limit: Option<u32>,
    other: Seq<char>,
)
    requires
        state.active.contains(operation),
    ensures
        ({
            let after = answered(state, operation, conversation, Ok(text), now);
            let shown = shown_history(after, conversation, limit);
            &&& shown.len() > 0
            &&& shown.last().text == text
            &&& shown.is_suffix_of(or_empty(after.histories, conversation))
            &&& shown.len() <= 500
            &&& other != conversation ==> shown_history(after, other, limit) == shown_history(
                state,
                other,
                limit,
            )
        }),
{
    lemma_answer_is_kept_and_told(state, operation, conversation, text, now);
    lemma_answer_stays_in_its_conversation(state, operation, conversation, Ok(text), now, other);
    lemma_history_limit(limit);
    let after = answered(state, operation, conversation, Ok(text), now);
    let all = or_empty(after.histories, conversation);
    let shown = shown_history(after, conversation, limit);
    assert(all.subrange(all.len() - shown.len(), all.len() as int) =~= shown);
}

/// An operation that is interrupted is not under way any more; nothing else changes, and an answer
/// that still comes is not kept.
pub proof fn lemma_interrupted_operation(
    state: WebView,
    operation: Seq<char>,
    conversation: Seq<char>,
    text: Seq<char>,
    now: i64,
    other: Seq<char>,
)
    ensures
        ({
            let after = stopped(state, operation);
            &&& !after.active.contains(operation)
            &&& other != operation ==> (after.active.contains(other) <==> state.active.contains(
                other,
            ))
            &&& after.histories == state.histories
            &&& after.model_inputs == state.model_inputs
            &&& after.events == state.events
            &&& answered(after, operation, conversation, Ok(text), now) == after
        }),
{
}

/// The model is asked at the endpoint of the settings, by the bearer of their token, with their
/// model and the whole input of the conversation.
pub proof fn lemma_model_is_asked_as_set(
    config: WebConfigView,
    input: Seq<Tree>,
    endpoint: Seq<char>,
    authorization: Seq<char>,
    body: Seq<char>,
    token: Seq<char>,
)
    requires
        asks_model(config, input, endpoint, authorization, body),
        config.product_session_token == Some(token),
        !is_blank(token),
    ensures
        "/responses"@.is_suffix_of(endpoint),
        "/responses"@.is_suffix_of(config.responses_base_url) ==> endpoint
            == config.responses_base_url,
        authorization == "Bearer "@ + token,
        exists|asked: Tree|
            body == #[trigger] json_compact(asked) && text_field(asked, "model"@) == Some(
                config.model,
            ) && items_field(asked, "input"@) == Some(input) && field(asked, "stream"@) == Some(
                Tree::Bool(false),
            ),
{
    lemma_endpoint(config.responses_base_url);
    lemma_inference_body(config.model, input, Seq::empty(), Seq::empty());
    let asked = inference_body(config.model, input);
    assert(body == json_compact(asked));
}

/// The prompt ends with the message as it was written. Outside the mini-apps it is just the
/// message; in the conversation of a mini-app it names that mini-app and says what it does.
pub proof fn lemma_prompt_holds_the_message(conversation: Seq<char>, text: Seq<char>, i: int)
    requires
        0 <= i < cards().len(),
    ensures
        text.is_suffix_of(web_prompt(conversation, text)),
        !"miniapp:"@.is_prefix_of(conversation) ==> web_prompt(conversation, text) == text,
        conversation == "miniapp:"@ + cards()[i].app_id ==> web_prompt(conversation, text)
            == "你正在通过大乘与小程序“"@ + cards()[i].title + "”（"@ + cards()[i].app_id
            + "）对话。请严格依据该小程序职责回答。\n小程序说明："@ + cards()[i].instructions
            + "\n\n用户消息：\n"@ + text,
{
    let prompt = web_prompt(conversation, text);
    assert(prompt.subrange(prompt.len() - text.len(), prompt.len() as int) =~= text);
    if conversation == "miniapp:"@ + cards()[i].app_id {
        assert(conversation.take("miniapp:"@.len() as int) =~= "miniapp:"@);
        assert(conversation.skip("miniapp:"@.len() as int) =~= cards()[i].app_id);
        lemma_card_is_found(i);
    }
}

proof fn lemma_cards_differ()
    ensures
        cards().len() == 4,
        forall|i: int, j: int|
            0 <= i < j < cards().len() ==> (#[trigger] cards()[i]).app_id != (
            #[trigger] cards()[j]).app_id,
{
    reveal_strlit("official.global-dharma");
    reveal_strlit("official.flashcards");
    reveal_strlit("official.platform-publish");
    reveal_strlit("official.assistant");
    assert("official.global-dharma"@.len() == 22 && "official.flashcards"@.len() == 19
        && "official.platform-publish"@.len() == 25 && "official.assistant"@.len() == 18);
}

proof fn lemma_card_is_found(i: int)
    requires
        0 <= i < cards().len(),
    ensures
        card_for(cards(), cards()[i].app_id) == Some(cards()[i]),
{
    lemma_cards_differ();
    lemma_card_among(cards(), i);
}

proof fn lemma_card_among(items: Seq<CardView>, i: int)
    requires
        0 <= i < items.len(),
        forall|j: int| 0 <= j < i ==> (#[trigger] items[j]).app_id != items[i].app_id,
    ensures
        card_for(items, items[i].app_id) == Some(items[i]),
    decreases items.len(),
{
    let front = items.drop_last();
    if i < items.len() - 1 {
        assert(front[i] == items[i]);
        assert forall|j: int| 0 <= j < i implies (#[trigger] front[j]).app_id
            != front[i].app_id by {
            assert(items[j].app_id != items[i].app_id);
        }
        lemma_card_among(front, i);
    } else {
        assert forall|j: int| 0 <= j < front.len() implies (#[trigger] front[j]).app_id
            != items[i].app_id by {
            assert(items[j].app_id != items[i].app_id);
        }
        lemma_no_card(front, items[i].app_id);
    }
}

proof fn lemma_no_card(items: Seq<CardView>, app_id: Seq<char>)
    requires
        forall|j: int| 0 <= j < items.len() ==> (#[trigger] items[j]).app_id != app_id,
    ensures
        card_for(items, app_id) is None,
    decreases items.len(),
{
    if items.len() > 0 {
        let front = items.drop_last();
        assert forall|j: int| 0 <= j < front.len() implies (#[trigger] front[j]).app_id
            != app_id by {
            assert(items[j].app_id != app_id);
        }
        lemma_no_card(front, app_id);
        assert(items[items.len() - 1].app_id != app_id);
    }
}

/// The contact list has the assistant first and then every mini-app, each once, as a conversation
/// that can be talked in; and nothing else but the assistant's own conversation can be.
pub proof fn lemma_contacts_can_be_talked_to(assistant: ConversationView, i: int, id: Seq<char>)
    requires
        0 <= i < cards().len(),
    ensures
        contact_list(assistant).len() == cards().len() + 1,
        contact_list(assistant)[0] == assistant,
        contact_list(assistant)[i + 1].id == "miniapp:"@ + cards()[i].app_id,
        contact_list(assistant)[i + 1].title == cards()[i].title,
        contact_list(assistant)[i + 1].peer == (PeerView::MiniApp { app_id: cards()[i].app_id }),
        !contact_list(assistant)[i + 1].pinned,
        is_browser_conversation(contact_list(assistant)[i + 1].id),
        is_browser_conversation("codex:agent:assistant"@),
        is_browser_conversation(id) && id != "codex:agent:assistant"@ ==> exists|j: int|
            0 < j < contact_list(assistant).len() && (#[trigger] contact_list(assistant)[j]).id == id,
        forall|a: int, b: int|
            0 < a < b < contact_list(assistant).len() ==> (#[trigger] contact_list(assistant)[a]).id
                != (#[trigger] contact_list(assistant)[b]).id,
{
    lemma_cards_differ();
    let list = contact_list(assistant);
    assert forall|k: int| 0 < k < list.len() implies (#[trigger] list[k]).id == "miniapp:"@
        + cards()[k - 1].app_id by {}
    if is_browser_conversation(id) && id != "codex:agent:assistant"@ {
        let k = choose|k: int|
            0 <= k < cards().len() && id == "miniapp:"@ + (#[trigger] cards()[k]).app_id;
        assert(list[k + 1].id == id);
    }
    assert forall|a: int, b: int| 0 < a < b < list.len() implies (#[trigger] list[a]).id != (
    #[trigger] list[b]).id by {
        let x = cards()[a - 1].app_id;
        let y = cards()[b - 1].app_id;
        assert(("miniapp:"@ + x).skip("miniapp:"@.len() as int) =~= x);
        assert(("miniapp:"@ + y).skip("miniapp:"@.len() as int) =~= y);
    }
}

/// A history is limited to what is asked for, from one message to five hundred, and to fifty where
/// nothing is asked for.
pub proof fn lemma_history_limit(limit: Option<u32>)
    ensures
        1 <= web_history_limit(limit) <= 500,
        limit is None ==> web_history_limit(limit) == 50,
        limit matches Some(n) ==> (1 <= n <= 500 ==> web_history_limit(limit) == n) && (n > 500
            ==> web_history_limit(limit) == 500) && (n == 0 ==> web_history_limit(limit) == 1),
{
}

/// Settings are accepted exactly where the endpoint is reached over HTTPS and the token fits into
/// one header line. A token is used as it is, unless it is blank.
pub proof fn lemma_web_settings(config: WebConfigView)
    ensures
        web_config_fault(config) is None <==> ("https://"@.is_prefix_of(config.responses_base_url)
            && (config.product_session_token is Some ==> !config.product_session_token->0.contains(
            '\r',
        ) && !config.product_session_token->0.contains('\n'))),
        usable_token(config) is Some <==> (config.product_session_token is Some && !is_blank(
            config.product_session_token->0,
        )),
        usable_token(config) is Some ==> usable_token(config) == config.product_session_token,
{
}

/// The runtime is that of a browser: it tells the model that it was set up with, has no remote
/// agent and sends no telemetry.
pub proof fn lemma_web_status(config: WebConfigView, versions: RuntimeVersions)
    ensures
        web_status(config, versions).model == config.model,
        web_status(config, versions).versions == versions,
        web_status(config, versions).build_profile == BuildProfile::WebWasm,
        web_status(config, versions).model_provider == ModelProviderMode::FirstPartyDacheng,
        !web_status(config, versions).remote_agent_enabled,
        !web_status(config, versions).telemetry_enabled,
        web_status(config, versions).providers.contains("codex"@),
        web_status(config, versions).providers.contains("miniapp"@),
        web_status(config, versions).providers.len() == 2,
{
    let providers = web_status(config, versions).providers;
    assert(providers[0] == "codex"@ && providers[1] == "miniapp"@);
}

/// The answer is what the reply of the model says; a reply that says nothing, and a body that is
/// not JSON, are failures.
pub proof fn lemma_body_answer(payload: Tree, error: Seq<char>)
    ensures
        reply_text(payload) matches Some(text) ==> body_answer(Ok(payload))
            == Ok::<Seq<char>, Seq<char>>(text),
        reply_text(payload) is None ==> body_answer(Ok(payload)) == Err::<
            Seq<char>,
            Seq<char>,
        >("Responses endpoint returned no assistant output text"@),
        body_answer(Err(error)) == Err::<Seq<char>, Seq<char>>(
            "Responses endpoint returned invalid JSON"@,
        ),
{
}

/// A status that the endpoint refused with is told as a number.
pub proof fn lemma_refusal_tells_its_status(a: u16, b: u16)
    requires
        a != b,
    ensures
        fetch_failure_text(FetchFailure::Status(a)) != fetch_failure_text(FetchFailure::Status(b)),
        "Responses endpoint returned HTTP "@.is_prefix_of(
            fetch_failure_text(FetchFailure::Status(a)),
        ),
{
    let front = "Responses endpoint returned HTTP "@;
    let x = fetch_failure_text(FetchFailure::Status(a));
    let y = fetch_failure_text(FetchFailure::Status(b));
    assert(x.take(front.len() as int) =~= front);
    assert(x.skip(front.len() as int) =~= decimal(a as nat));
    assert(y.skip(front.len() as int) =~= decimal(b as nat));
    if x == y {
        lemma_decimal_injective(a as nat, b as nat);
    }
}

/// Events are told in the order in which they came, each once, and telling them changes nothing
/// else.
pub proof fn lemma_events_are_told_in_order(state: WebView)
    ensures
        ({
            let (event, after) = told(state);
            &&& event is Some <==> state.events.len() > 0
            &&& event is Some ==> seq![event->0] + after.events == state.events
            &&& event is None ==> after.events.len() == 0
            &&& after.histories == state.histories && after.model_inputs == state.model_inputs
            &&& after.active == state.active && after.next_id == state.next_id
        }),
{
    let (event, after) = told(state);
    if event is Some {
        assert(seq![event->0] + after.events =~= state.events);
    }
}

/// The answer to an operation is told as it came: the events that were waiting first, and then the
/// text of the answer.
pub proof fn lemma_waiting_events_are_told_first(
    state: WebView,
    operation: Seq<char>,
    conversation: Seq<char>,
    text: Seq<char>,
    now: i64,
)
    requires
        state.active.contains(operation),
        state.events.len() > 0,
    ensures
        told(answered(state, operation, conversation, Ok(text), now)).0 == told(state).0,
{
}

/// The mini-apps that come with the runtime.
pub proof fn lemma_miniapps_of_the_browser()
    ensures
        cards().len() == 4,
        cards()[0].app_id == "official.global-dharma"@ && cards()[0].title == "全球法布施"@,
        cards()[0].instructions == "协助准备、检查和发送全球法布施内容。"@,
        cards()[1].app_id == "official.flashcards"@ && cards()[1].title == "法流背诵卡"@,
        cards()[1].instructions == "帮助用户复习和制作佛经背诵卡。"@,
        cards()[2].app_id == "official.platform-publish"@ && cards()[2].title == "平台发布"@,
        cards()[2].instructions == "协助整理并发布自媒体内容。"@,
        cards()[3].app_id == "official.assistant"@ && cards()[3].title == "大乘助手"@,
        cards()[3].instructions == "提供大乘软件功能引导和日常协助。"@,
{
}

} // verus!
