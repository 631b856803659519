//! What the turns of an agent come to: what is streamed is delivered, and what is decided is
//! answered.

use crate::agent::{AgentEventView, AgentFault};
use crate::codex_turns::{
    answer_of, approval_tree, begun_turn, ended, is_all_failed, is_found, is_handled, is_served,
    is_turn, operation_ids, resolved, turn_fault, turn_of, with_text, ApprovalKindView, Effect,
    RequestView, ServerAction, ServerEvent, ServerRequest, TurnStatus, TurnsView,
};
use crate::json::{field, text_field, Tree};
use crate::model::{ApprovalDecision, MessageRole};
use crate::url_text::opt_view;
use vstd::prelude::*;
use vstd::string::*;

verus! {

/// The word of an answer in the present protocol says what was decided, and so does that in the
/// older one: each decision has its own word, acceptance is never answered with a word that
/// refuses, and refusal never with one that grants.
pub proof fn lemma_word_says_what_was_decided(kind: ApprovalKindView, decision: ApprovalDecision)
    requires
        !(kind is Permissions),
    ensures
        ({
            let answer = approval_tree(kind, decision);
            let word = text_field(answer, "decision"@);
            let present = kind is CommandExecution || kind is FileChange;
            &&& present ==> {
                &&& word == Some("accept"@) <==> decision is Accept
                &&& word == Some("acceptForSession"@) <==> decision is AcceptForSession
                &&& word == Some("decline"@) <==> decision is Decline
                &&& word == Some("cancel"@) <==> decision is Cancel
            }
            &&& !present ==> {
                &&& word == Some("approved"@) <==> decision is Accept
                &&& word == Some("approved_for_session"@) <==> decision is AcceptForSession
                &&& word == Some("denied"@) <==> decision is Decline
                &&& word == Some("abort"@) <==> decision is Cancel
            }
        }),
{
    reveal_strlit("accept");
    reveal_strlit("acceptForSession");
    reveal_strlit("decline");
    reveal_strlit("cancel");
    reveal_strlit("approved");
    reveal_strlit("approved_for_session");
    reveal_strlit("denied");
    reveal_strlit("abort");
    assert("accept"@.len() == 6 && "acceptForSession"@.len() == 16 && "decline"@.len() == 7
        && "cancel"@.len() == 6 && "approved"@.len() == 8 && "approved_for_session"@.len() == 20
        && "denied"@.len() == 6 && "abort"@.len() == 5);
    assert("accept"@[0] != "cancel"@[0]);
}

/// Different decisions are answered differently, but for the two that grant no permission.
pub proof fn lemma_decisions_are_told_apart(
    kind: ApprovalKindView,
    a: ApprovalDecision,
    b: ApprovalDecision,
)
    requires
        a != b,
        !(kind is Permissions),
    ensures
        approval_tree(kind, a) != approval_tree(kind, b),
{
    lemma_word_says_what_was_decided(kind, a);
    lemma_word_says_what_was_decided(kind, b);
}

/// Permissions are granted as they were asked for, for the turn or for the session, and only where
/// the decision is to accept; otherwise none is granted.
pub proof fn lemma_permissions_are_granted_as_decided(requested: Tree, decision: ApprovalDecision)
    ensures
        ({
            let answer = approval_tree(ApprovalKindView::Permissions { requested }, decision);
            let granted = decision is Accept || decision is AcceptForSession;
            &&& granted ==> field(answer, "permissions"@) == Some(requested)
            &&& !granted ==> field(answer, "permissions"@) == Some(Tree::Object(Map::empty()))
            &&& text_field(answer, "scope"@) == Some("session"@) <==> decision is AcceptForSession
            &&& text_field(answer, "scope"@) == Some("turn"@) <==> !(decision is AcceptForSession)
        }),
{
    reveal_strlit("permissions");
    reveal_strlit("scope");
    reveal_strlit("session");
    reveal_strlit("turn");
    assert("permissions"@.len() == 11 && "scope"@.len() == 5 && "session"@.len() == 7
        && "turn"@.len() == 4);
}

/// What a request of the agent is about, where it asks for an approval: its identifier, its
/// details, and the thread and turn that it belongs to.
pub open spec fn asks_about(
    request: ServerRequest,
    id: RequestView,
    details: Tree,
    thread: Seq<char>,
    turn: Option<Seq<char>>,
) -> bool {
    match request {
        ServerRequest::CommandExecutionRequestApproval {
            request_id,
            thread_id,
            turn_id,
            details: d,
        } => request_id@ == id && d@ == details && thread_id@ == thread && turn == Some(turn_id@),
        ServerRequest::FileChangeRequestApproval { request_id, thread_id, turn_id, details: d } =>
            request_id@ == id && d@ == details && thread_id@ == thread && turn == Some(turn_id@),
        ServerRequest::PermissionsRequestApproval {
            request_id,
            thread_id,
            turn_id,
            requested,
            details: d,
        } => request_id@ == id && d@ == details && thread_id@ == thread && turn == Some(turn_id@),
        ServerRequest::ExecCommandApproval { request_id, conversation_id, details: d } =>
            request_id@ == id && d@ == details && conversation_id@ == thread && turn is None,
        ServerRequest::ApplyPatchApproval { request_id, conversation_id, details: d } => request_id@
            == id && d@ == details && conversation_id@ == thread && turn is None,
        _ => false,
    }
}

/// A request for an approval of an active turn is put to the consumer of that turn, with its own
/// details and under a title that says what it is about, and waits under the approval's
/// identifier. No operation changes, and nothing else that waits does.
pub proof fn lemma_question_is_put_to_its_turn(
    before: TurnsView,
    after: TurnsView,
    request: ServerRequest,
    approval: Seq<char>,
    action: ServerAction,
    id: RequestView,
    details: Tree,
    thread: Seq<char>,
    turn: Option<Seq<char>>,
    operation: Seq<char>,
)
    requires
        is_served(before, after, request, approval, action),
        asks_about(request, id, details, thread, turn),
        before.operations.contains_key(operation),
        before.operations[operation].thread_id == thread,
        turn matches Some(t) ==> before.operations[operation].turn_id == t,
    ensures
        action matches ServerAction::Ask { request_id, operation_id, event } && {
            &&& request_id@ == id
            &&& before.operations.contains_key(operation_id@)
            &&& before.operations[operation_id@].thread_id == thread
            &&& turn matches Some(t) ==> before.operations[operation_id@].turn_id == t
            &&& event@ matches AgentEventView::ApprovalRequested {
                approval_id,
                title,
                details: shown,
            }
            &&& approval_id == approval
            &&& shown == details
            &&& request is CommandExecutionRequestApproval || request is ExecCommandApproval ==> title
                == "Codex 请求执行命令"@
            &&& request is FileChangeRequestApproval ==> title == "Codex 请求修改文件"@
            &&& request is PermissionsRequestApproval ==> title == "Codex 请求扩展权限"@
            &&& request is ApplyPatchApproval ==> title == "Codex 请求应用补丁"@
        },
        after.operations == before.operations,
        after.next_request_id == before.next_request_id,
        after.approvals.contains_key(approval),
        after.approvals[approval].request_id == id,
        forall|other: Seq<char>|
            other != approval ==> (#[trigger] after.approvals.contains_key(other)
                <==> before.approvals.contains_key(other)),
{
    assert(is_turn(before.operations[operation], thread, turn));
}

/// A request for an approval that belongs to no active turn is refused, and nothing waits for it.
pub proof fn lemma_question_of_nobody_is_refused(
    before: TurnsView,
    after: TurnsView,
    request: ServerRequest,
    approval: Seq<char>,
    action: ServerAction,
    id: RequestView,
    details: Tree,
    thread: Seq<char>,
    turn: Option<Seq<char>>,
)
    requires
        is_served(before, after, request, approval, action),
        asks_about(request, id, details, thread, turn),
        forall|operation: Seq<char>| #[trigger]
            before.operations.contains_key(operation) ==> {
                ||| before.operations[operation].thread_id != thread
                ||| turn is Some && before.operations[operation].turn_id != turn->0
            },
    ensures
        action matches ServerAction::Reject { request_id, code, message } && request_id@ == id
            && code == -32601 && message@ == "agent backend failed: "@
            + "approval has no active Codex turn"@,
        after == before,
{
}

/// An approval is answered as it was decided: a command, a file change, and their older forms with
/// the word for the decision, and permissions with what was asked for. The answer goes to the
/// request that asked.
pub proof fn lemma_approval_is_answered_as_decided(
    before: TurnsView,
    after: TurnsView,
    request: ServerRequest,
    approval: Seq<char>,
    action: ServerAction,
    decision: ApprovalDecision,
)
    requires
        is_served(before, after, request, approval, action),
        action is Ask,
    ensures
        after.approvals.contains_key(approval),
        ({
            let (asker, answer) = answer_of(after, approval, decision)->0;
            let word = text_field(answer, "decision"@);
            &&& answer_of(after, approval, decision) is Some
            &&& action matches ServerAction::Ask { request_id, .. } && asker == request_id@
            &&& answer_of(resolved(after, approval), approval, decision) is None
            &&& request is CommandExecutionRequestApproval || request is FileChangeRequestApproval
                ==> {
                &&& word == Some("accept"@) <==> decision is Accept
                &&& word == Some("acceptForSession"@) <==> decision is AcceptForSession
                &&& word == Some("decline"@) <==> decision is Decline
                &&& word == Some("cancel"@) <==> decision is Cancel
            }
            &&& request is ExecCommandApproval || request is ApplyPatchApproval ==> {
                &&& word == Some("approved"@) <==> decision is Accept
                &&& word == Some("approved_for_session"@) <==> decision is AcceptForSession
                &&& word == Some("denied"@) <==> decision is Decline
                &&& word == Some("abort"@) <==> decision is Cancel
            }
            &&& request matches ServerRequest::PermissionsRequestApproval { requested, .. } ==> {
                &&& decision is Accept || decision is AcceptForSession ==> field(
                    answer,
                    "permissions"@,
                ) == Some(requested@)
                &&& decision is Decline || decision is Cancel ==> field(answer, "permissions"@)
                    == Some(Tree::Object(Map::empty()))
            }
        }),
        !resolved(after, approval).approvals.contains_key(approval),
{
    let kind = after.approvals[approval].response_kind;
    match kind {
        ApprovalKindView::Permissions { requested } => {
            lemma_permissions_are_granted_as_decided(requested, decision);
        },
        _ => {
            lemma_word_says_what_was_decided(kind, decision);
        },
    }
}

/// A call of a tool goes to the tool as it came, and any other request is refused; neither changes
/// anything.
pub proof fn lemma_other_requests(
    before: TurnsView,
    after: TurnsView,
    request: ServerRequest,
    approval: Seq<char>,
    action: ServerAction,
)
    requires
        is_served(before, after, request, approval, action),
        request is DynamicToolCall || request is Other,
    ensures
        after == before,
        request matches ServerRequest::DynamicToolCall { request_id, call } ==> action
            == (ServerAction::CallTool { request_id, call }),
        request matches ServerRequest::Other { request_id } ==> (action matches ServerAction::Reject {
            request_id: r,
            code,
            message,
        } && r@ == request_id@ && code == -32601),
{
}

/// The operation is the only one of its thread and turn.
pub open spec fn is_sole(
    turns: TurnsView,
    id: Seq<char>,
    thread: Seq<char>,
    turn: Seq<char>,
) -> bool {
    &&& turns.operations.contains_key(id)
    &&& turns.operations[id].thread_id == thread
    &&& turns.operations[id].turn_id == turn
    &&& forall|other: Seq<char>| #[trigger]
        turns.operations.contains_key(other) && other != id ==> turns.operations[other].thread_id
            != thread || turns.operations[other].turn_id != turn
}

/// Nothing but one operation differs.
pub open spec fn same_but(before: TurnsView, after: TurnsView, id: Seq<char>) -> bool {
    &&& after.approvals == before.approvals
    &&& after.next_request_id == before.next_request_id
    &&& forall|other: Seq<char>|
        other != id ==> (#[trigger] after.operations.contains_key(other)
            <==> before.operations.contains_key(other))
    &&& forall|other: Seq<char>| #[trigger]
        after.operations.contains_key(other) && other != id ==> after.operations[other]
            == before.operations[other]
}

/// A piece of text is handed to the consumer of its turn as it came, and is added to what the turn
/// has said; no other operation changes.
pub proof fn lemma_delta_is_handed_on(
    before: TurnsView,
    after: TurnsView,
    event: ServerEvent,
    approval: Seq<char>,
    message_id: Seq<char>,
    now: i64,
    effect: Effect,
    id: Seq<char>,
    thread: Seq<char>,
    turn: Seq<char>,
    piece: Seq<char>,
)
    requires
        is_handled(before, after, event, approval, message_id, now, effect),
        event matches ServerEvent::AgentMessageDelta { thread_id, turn_id, delta } && thread_id@
            == thread && turn_id@ == turn && delta@ == piece,
        is_sole(before, id, thread, turn),
    ensures
        effect matches Effect::Emit { operation_id, event: emitted } && operation_id@ == id
            && emitted@ == (AgentEventView::MessageDelta { delta: piece }),
        is_sole(after, id, thread, turn),
        after.operations[id].assistant_text == before.operations[id].assistant_text + piece,
        after.operations[id].conversation_id == before.operations[id].conversation_id,
        same_but(before, after, id),
{
    assert(is_turn(before.operations[id], thread, Some(turn)));
    let found = effect->Emit_operation_id;
    assert(found@ == id) by {
        if found@ != id {
            assert(before.operations.contains_key(found@));
        }
    }
    assert forall|other: Seq<char>| #[trigger]
        after.operations.contains_key(other) && other != id implies after.operations[other].thread_id
        != thread || after.operations[other].turn_id != turn by {
        assert(before.operations.contains_key(other));
    }
}

/// The complete text of a message takes the place of what its turn has said so far; no other
/// operation changes.
pub proof fn lemma_complete_text_counts(
    before: TurnsView,
    after: TurnsView,
    event: ServerEvent,
    approval: Seq<char>,
    message_id: Seq<char>,
    now: i64,
    effect: Effect,
    id: Seq<char>,
    thread: Seq<char>,
    turn: Seq<char>,
    whole: Seq<char>,
)
    requires
        is_handled(before, after, event, approval, message_id, now, effect),
        event matches ServerEvent::ItemCompleted { thread_id, turn_id, text: Some(text) }
            && thread_id@ == thread && turn_id@ == turn && text@ == whole,
        is_sole(before, id, thread, turn),
    ensures
        effect == Effect::Nothing,
        is_sole(after, id, thread, turn),
        after.operations[id].assistant_text == whole,
        after.operations[id].conversation_id == before.operations[id].conversation_id,
        same_but(before, after, id),
{
    assert(is_turn(before.operations[id], thread, Some(turn)));
    let found = choose|found: Seq<char>| #[trigger]
        is_found(before.operations, thread, Some(turn), Some(found)) && after == with_text(
            before,
            found,
            whole,
        );
    assert(is_found(before.operations, thread, Some(turn), Some(id)));
    assert(found == id) by {
        if found != id {
            assert(before.operations.contains_key(found));
        }
    }
    assert forall|other: Seq<char>| #[trigger]
        after.operations.contains_key(other) && other != id implies after.operations[other].thread_id
        != thread || after.operations[other].turn_id != turn by {
        assert(before.operations.contains_key(other));
    }
}

/// A turn that completes delivers what it has said, as a message of the assistant in the
/// operation's conversation, under the given identifier and time, and says which thread and turn it
/// comes from. Its operation is over, and no other changes.
pub proof fn lemma_turn_delivers_what_it_said(
    before: TurnsView,
    after: TurnsView,
    event: ServerEvent,
    approval: Seq<char>,
    message_id: Seq<char>,
    now: i64,
    effect: Effect,
    id: Seq<char>,
    thread: Seq<char>,
    turn: Seq<char>,
)
    requires
        is_handled(before, after, event, approval, message_id, now, effect),
        event matches ServerEvent::TurnCompleted { thread_id, turn_id, status, .. } && thread_id@
            == thread && turn_id@ == turn && status == TurnStatus::Completed,
        is_sole(before, id, thread, turn),
    ensures
        effect matches Effect::Deliver { operation_id, message } && {
            &&& operation_id@ == id
            &&& message@.text == before.operations[id].assistant_text
            &&& message@.conversation_id == before.operations[id].conversation_id
            &&& message@.role == MessageRole::Assistant
            &&& message@.id == message_id
            &&& message@.created_at_ms == now
            &&& text_field(message@.metadata, "codexThreadId"@) == Some(thread)
            &&& text_field(message@.metadata, "codexTurnId"@) == Some(turn)
            &&& field(message@.metadata, "embedded"@) == Some(Tree::Bool(true))
        },
        !after.operations.contains_key(id),
        same_but(before, after, id),
{
    reveal_strlit("codexThreadId");
    reveal_strlit("codexTurnId");
    reveal_strlit("embedded");
    assert("codexThreadId"@.len() == 13 && "codexTurnId"@.len() == 11 && "embedded"@.len() == 8);
    assert(is_turn(before.operations[id], thread, Some(turn)));
    let found = effect->Deliver_operation_id;
    assert(found@ == id) by {
        if found@ != id {
            assert(before.operations.contains_key(found@));
        }
    }
}

/// A turn that is streamed in two pieces and then completes delivers both, one after the other,
/// behind what it had said before.
pub proof fn lemma_streamed_turn_is_delivered(
    states: Seq<TurnsView>,
    events: Seq<ServerEvent>,
    effects: Seq<Effect>,
    approval: Seq<char>,
    message_id: Seq<char>,
    now: i64,
    id: Seq<char>,
    thread: Seq<char>,
    turn: Seq<char>,
    a: Seq<char>,
    b: Seq<char>,
)
    requires
        states.len() == 4,
        events.len() == 3,
        effects.len() == 3,
        is_handled(states[0], states[1], events[0], approval, message_id, now, effects[0]),
        is_handled(states[1], states[2], events[1], approval, message_id, now, effects[1]),
        is_handled(states[2], states[3], events[2], approval, message_id, now, effects[2]),
        events[0] matches ServerEvent::AgentMessageDelta { thread_id, turn_id, delta } && thread_id@
            == thread && turn_id@ == turn && delta@ == a,
        events[1] matches ServerEvent::AgentMessageDelta { thread_id, turn_id, delta } && thread_id@
            == thread && turn_id@ == turn && delta@ == b,
        events[2] matches ServerEvent::TurnCompleted { thread_id, turn_id, status, .. } && thread_id@
            == thread && turn_id@ == turn && status == TurnStatus::Completed,
        is_sole(states[0], id, thread, turn),
    ensures
        effects[2] matches Effect::Deliver { operation_id, message } && operation_id@ == id
            && message@.text == states[0].operations[id].assistant_text + a + b
            && message@.conversation_id == states[0].operations[id].conversation_id,
{
    lemma_delta_is_handed_on(
        states[0],
        states[1],
        events[0],
        approval,
        message_id,
        now,
        effects[0],
        id,
        thread,
        turn,
        a,
    );
    lemma_delta_is_handed_on(
        states[1],
        states[2],
        events[1],
        approval,
        message_id,
        now,
        effects[1],
        id,
        thread,
        turn,
        b,
    );
    lemma_turn_delivers_what_it_said(
        states[2],
        states[3],
        events[2],
        approval,
        message_id,
        now,
        effects[2],
        id,
        thread,
        turn,
    );
}

/// A turn that fails ends its operation with the reason that the agent gave, an interrupted one
/// says that it was interrupted, and one that is still in progress goes on.
pub proof fn lemma_turn_fails_with_its_reason(
    before: TurnsView,
    after: TurnsView,
    event: ServerEvent,
    approval: Seq<char>,
    message_id: Seq<char>,
    now: i64,
    effect: Effect,
    id: Seq<char>,
    thread: Seq<char>,
    turn: Seq<char>,
    reason: Option<Seq<char>>,
    how: TurnStatus,
)
    requires
        is_handled(before, after, event, approval, message_id, now, effect),
        event matches ServerEvent::TurnCompleted { thread_id, turn_id, status, error } && thread_id@
            == thread && turn_id@ == turn && status == how && opt_view(error) == reason,
        how != TurnStatus::Completed,
        is_sole(before, id, thread, turn),
    ensures
        how == TurnStatus::InProgress ==> effect == Effect::Nothing && after == before,
        how != TurnStatus::InProgress ==> (effect matches Effect::Fail { operations, message } && {
            &&& operations@.len() == 1
            &&& operations@[0]@ == id
            &&& how == TurnStatus::Interrupted ==> message@ == "Codex turn was interrupted"@
            &&& how == TurnStatus::Failed && reason is Some ==> message@ == reason->0
            &&& how == TurnStatus::Failed && reason is None ==> message@ == "Codex turn failed"@
        }) && !after.operations.contains_key(id) && same_but(before, after, id),
{
    assert(is_turn(before.operations[id], thread, Some(turn)));
    if how != TurnStatus::InProgress {
        let found = effect->Fail_operations@[0];
        assert(found@ == id) by {
            if found@ != id {
                assert(before.operations.contains_key(found@));
            }
        }
    }
}

/// An error of the agent that it does not try again ends the turn's operation with the error; one
/// that it tries again changes nothing.
pub proof fn lemma_error_ends_its_turn(
    before: TurnsView,
    after: TurnsView,
    event: ServerEvent,
    approval: Seq<char>,
    message_id: Seq<char>,
    now: i64,
    effect: Effect,
    id: Seq<char>,
    thread: Seq<char>,
    turn: Seq<char>,
    reason: Seq<char>,
    again: bool,
)
    requires
        is_handled(before, after, event, approval, message_id, now, effect),
        event matches ServerEvent::Error { thread_id, turn_id, message, will_retry } && thread_id@
            == thread && turn_id@ == turn && message@ == reason && will_retry == again,
        is_sole(before, id, thread, turn),
    ensures
        again ==> effect == Effect::Nothing && after == before,
        !again ==> (effect matches Effect::Fail { operations, message } && operations@.len() == 1
            && operations@[0]@ == id && message@ == reason) && !after.operations.contains_key(id)
            && same_but(before, after, id),
{
    assert(is_turn(before.operations[id], thread, Some(turn)));
    if !again {
        let found = effect->Fail_operations@[0];
        assert(found@ == id) by {
            if found@ != id {
                assert(before.operations.contains_key(found@));
            }
        }
    }
}

/// What happens in a turn that nobody works on changes nothing.
pub proof fn lemma_foreign_turns_are_ignored(
    before: TurnsView,
    after: TurnsView,
    event: ServerEvent,
    approval: Seq<char>,
    message_id: Seq<char>,
    now: i64,
    effect: Effect,
    thread: Seq<char>,
    turn: Seq<char>,
)
    requires
        is_handled(before, after, event, approval, message_id, now, effect),
        match event {
            ServerEvent::AgentMessageDelta { thread_id, turn_id, .. } => thread_id@ == thread
                && turn_id@ == turn,
            ServerEvent::ItemCompleted { thread_id, turn_id, .. } => thread_id@ == thread
                && turn_id@ == turn,
            ServerEvent::TurnCompleted { thread_id, turn_id, .. } => thread_id@ == thread
                && turn_id@ == turn,
            ServerEvent::Error { thread_id, turn_id, .. } => thread_id@ == thread && turn_id@
                == turn,
            ServerEvent::Other => true,
            _ => false,
        },
        forall|id: Seq<char>| #[trigger]
            before.operations.contains_key(id) ==> before.operations[id].thread_id != thread
                || before.operations[id].turn_id != turn,
    ensures
        effect == Effect::Nothing,
        after == before,
{
}

/// Once the events fail, every operation ends, none twice, and all with the same reason; what waits
/// for an approval goes on waiting.
pub proof fn lemma_all_end_together(
    before: TurnsView,
    after: TurnsView,
    message: Seq<char>,
    effect: Effect,
    id: Seq<char>,
)
    requires
        is_all_failed(before, after, message, effect),
        before.operations.contains_key(id),
    ensures
        !after.operations.contains_key(id),
        after.approvals == before.approvals,
        effect matches Effect::Fail { operations, message: m } && m@ == message && exists|i: int|
            0 <= i < operations@.len() && (#[trigger] operations@[i])@ == id && forall|j: int|
                0 <= j < operations@.len() && j != i ==> (#[trigger] operations@[j])@ != id,
{
    let operations = effect->Fail_operations@;
    let ids = operation_ids(operations);
    assert(ids.contains(id));
    let i = choose|i: int| 0 <= i < ids.len() && ids[i] == id;
    assert(operations[i]@ == id);
    assert forall|j: int| 0 <= j < operations.len() && j != i implies (#[trigger] operations[j])@
        != id by {
        assert(ids[j] == operations[j]@);
        assert(ids[i] != ids[j]);
    }
}

/// An operation that begins is interrupted under the thread and turn that it began with, and other
/// operations keep theirs.
pub proof fn lemma_begun_turn_is_interrupted(
    turns: TurnsView,
    id: Seq<char>,
    thread: Seq<char>,
    turn: Seq<char>,
    conversation: Seq<char>,
    other: Seq<char>,
)
    ensures
        ({
            let after = begun_turn(turns, id, thread, turn, conversation);
            &&& turn_of(after, id) == Some((thread, turn))
            &&& after.operations[id].conversation_id == conversation
            &&& after.operations[id].assistant_text.len() == 0
            &&& other != id ==> turn_of(after, other) == turn_of(turns, other)
            &&& after.approvals == turns.approvals
            &&& turn_of(ended(after, id), id) is None
        }),
{
}

/// How a turn ended is how its operation ends: well only where the turn did, and with the turn's
/// own reason where it gave one.
pub proof fn lemma_operation_ends_as_its_turn(ending: Option<Result<(), Seq<char>>>)
    ensures
        turn_fault(ending) is None <==> (ending is Some && ending->0 is Ok),
        ending matches Some(Err(reason)) ==> turn_fault(ending) == Some(AgentFault::Backend(reason)),
        ending is None ==> turn_fault(ending) == Some(
            AgentFault::Backend("Codex turn dispatcher stopped"@),
        ),
{
}

} // verus!
