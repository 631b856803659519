//! What the agents come to: how they are started and asked, what their tools do, and what mini-apps
//! add to a conversation.

use crate::agent::{
    fault_text, stamp, AgentError, AgentEvent, AgentEventView, AgentFault, AgentMessageRequest,
};
use crate::codex_backend::{opens_thread, opens_turn, ThreadStart, TurnStart};
use crate::codex_config::{
    codex_config_fault, plan_matches, CodexAgentConfig, SessionSource, StartPlan, WireApi,
};
use crate::codex_tools::{
    entry_tree, error_response, file_fault, file_tree, finished, gathered, history_limit, listing,
    offered_tools, provider_at, step_for, text_response, tool_step, unreachable_file,
    unreachable_parent, unreachable_root, workspace_dir, written_tree, EntryKind, ProviderContacts,
    ResponseView, StepView, WorkspaceEntry, WorkspaceStep,
};
use crate::codex_turns::RequestView;
use crate::json::{field, inner_field, inner_text, items_field, text_field, Tree};
use crate::json_text::json_compact;
use crate::miniapp::{
    bridged, by_conversation, definition_conversation, history_after, is_asked, kept_message,
    lemma_exchange_is_remembered, miniapp_conversation, miniapp_request_text, of_conversation,
    thread_of, with_thread, ConversationFault, DefinitionView, MiniAppEventBridge, MiniAppsView, SendMessageRequest,
};
use crate::model::{latest, Conversation, EventView, MessageRole, MessageView, PeerView};
use crate::model_reply::{endpoint_of, lemma_inference_body, reply_text};
use crate::order::{arranged, lemma_arranged, precedes, Listed};
use crate::path::{only_names, PathStyle};
use crate::plugin_dev::FileName;
use crate::responses_agent::{
    answer_message, begun, failure_fault, inference_of, inference_outcome, is_finished, opened,
    responses_config_fault, stopped, InferenceFailure, ResponsesAgentConfig, ResponsesView,
};
use crate::text::{byte_len, decimal, is_blank, texts, trimmed};
use crate::url_text::opt_view;
use crate::web::lemma_decimal_injective;
use vstd::prelude::*;
use vstd::string::*;

verus! {

/// An agent is started as its settings say: with their model, directories, policies, executable and
/// endpoint. The token goes into the provider and nowhere else; the user's own configuration, a key
/// from the environment and an account elsewhere play no part.
pub proof fn lemma_agent_is_started_as_set(plan: StartPlan, config: CodexAgentConfig)
    requires
        plan_matches(plan, config),
    ensures
        plan.model@ == config.model@,
        plan.cwd@ == config.cwd@,
        plan.codex_home@ == config.codex_home@,
        texts(plan.workspace_roots@) == texts(config.workspace_roots@),
        plan.sandbox_mode == config.sandbox_mode,
        plan.approval_policy == config.approval_policy,
        opt_view(plan.codex_executable_path) == opt_view(config.codex_executable_path),
        texts(plan.conversation_providers@) == texts(config.conversation_providers@),
        plan.provider.base_url@ == config.responses_base_url@,
        opt_view(plan.provider.bearer_token) == opt_view(config.product_session_token),
        plan.provider.wire_api == WireApi::Responses,
        plan.provider.request_max_retries == plan.provider.stream_max_retries,
        plan.provider.request_max_retries == 2,
        plan.provider.stream_idle_timeout_ms == 5 * 60 * 1000,
        plan.provider_id@ == "dacheng-deepseek"@,
        plan.provider_override@ == "model_providers."@ + plan.provider_id@,
        plan.session_source == SessionSource::Exec,
        plan.client_name@ == "mahayana-runtime"@,
        plan.ignore_user_config && plan.ignore_exec_policy_rules,
        !plan.api_key_from_environment && !plan.provider.requires_openai_auth,
        !plan.provider.supports_websockets && !plan.strict_config && !plan.form_elicitation,
        plan.experimental_api,
{
}

/// A thread and a turn of an agent that was started with settings have the model, directories and
/// policy of those settings; the turn carries the text of the message to the message's thread.
pub proof fn lemma_threads_and_turns_follow_the_settings(
    config: CodexAgentConfig,
    plan: StartPlan,
    thread: ThreadStart,
    turn: TurnStart,
    request: AgentMessageRequest,
    number: i64,
    next: i64,
)
    requires
        plan_matches(plan, config),
        opens_thread(thread, plan, number),
        opens_turn(turn, request, plan, next),
    ensures
        thread.request_id@ == RequestView::Integer(number),
        thread.model@ == config.model@,
        thread.cwd@ == config.cwd@,
        texts(thread.workspace_roots@) == texts(config.workspace_roots@),
        thread.approval_policy == config.approval_policy,
        thread.model_provider@ == plan.provider_id@,
        !thread.ephemeral,
        thread.dynamic_tools.name@ == "mahayana"@,
        thread.dynamic_tools.tools@.len() == 5,
        turn.request_id@ == RequestView::Integer(next),
        turn.thread_id@ == request.thread_id@,
        turn.text@ == request.text@,
        opt_view(turn.client_user_message_id) == opt_view(request.client_message_id),
        turn.cwd@ == config.cwd@,
        texts(turn.workspace_roots@) == texts(config.workspace_roots@),
{
    assert(offered_tools().len() == 5);
}

/// Settings start an agent exactly where the model is named, the endpoint is reached over HTTPS,
/// and a token, if there is one, says something on one line. Without a token the agent starts too.
pub proof fn lemma_which_settings_start_an_agent(
    config: CodexAgentConfig,
    device: ResponsesAgentConfig,
)
    ensures
        codex_config_fault(config) is None <==> {
            &&& !is_blank(config.model@)
            &&& "https://"@.is_prefix_of(config.responses_base_url@)
            &&& config.product_session_token is Some ==> {
                let token = config.product_session_token->0@;
                !is_blank(token) && !token.contains('\r') && !token.contains('\n')
            }
        },
        responses_config_fault(device) is None <==> {
            &&& !is_blank(device.model@)
            &&& "https://"@.is_prefix_of(device.responses_base_url@)
            &&& !is_blank(device.product_session_token@)
            &&& !device.product_session_token@.contains('\r')
            &&& !device.product_session_token@.contains('\n')
        },
{
}

/// The tools that are offered are the ones that there are, each once, and those that need
/// arguments say which.
pub proof fn lemma_tools_that_are_offered()
    ensures
        offered_tools().len() == 5,
        offered_tools()[0].name == "list_conversations"@,
        offered_tools()[1].name == "conversation_history"@,
        offered_tools()[2].name == "read_workspace_file"@,
        offered_tools()[3].name == "write_workspace_file"@,
        offered_tools()[4].name == "list_workspace_files"@,
        items_field(offered_tools()[0].input_schema, "required"@) is None,
        items_field(offered_tools()[1].input_schema, "required"@) == Some(
            seq![Tree::Text("conversationId"@)],
        ),
        items_field(offered_tools()[2].input_schema, "required"@) == Some(
            seq![Tree::Text("path"@)],
        ),
        items_field(offered_tools()[3].input_schema, "required"@) == Some(
            seq![Tree::Text("path"@), Tree::Text("contents"@)],
        ),
        items_field(offered_tools()[4].input_schema, "required"@) is None,
        forall|i: int|
            0 <= i < 5 ==> field(
                (#[trigger] offered_tools()[i]).input_schema,
                "additionalProperties"@,
            ) == Some(Tree::Bool(false)) && !offered_tools()[i].defer_loading,
{
    reveal_strlit("required");
    reveal_strlit("type");
    reveal_strlit("properties");
    reveal_strlit("additionalProperties");
    assert("required"@.len() == 8 && "type"@.len() == 4 && "properties"@.len() == 10
        && "additionalProperties"@.len() == 20);
}

proof fn lemma_tool_names()
    ensures
        "list_conversations"@.len() == 18,
        "conversation_history"@.len() == 20,
        "read_workspace_file"@.len() == 19,
        "write_workspace_file"@.len() == 20,
        "list_workspace_files"@.len() == 20,
        "conversation_history"@[0] == 'c',
        "write_workspace_file"@[0] == 'w',
        "list_workspace_files"@[0] == 'l',
{
    reveal_strlit("list_conversations");
    reveal_strlit("conversation_history");
    reveal_strlit("read_workspace_file");
    reveal_strlit("write_workspace_file");
    reveal_strlit("list_workspace_files");
}

/// Every offered tool does what it is named for, with the arguments that it is given: a history is
/// asked for under its conversation, a file is read or written under its path, and what is written
/// is what was given, with its length in bytes.
pub proof fn lemma_tools_do_as_asked(style: PathStyle, arguments: Tree, t: Seq<char>, contents: Seq<char>)
    ensures
        ({
            let ours = Some("mahayana"@);
            &&& tool_step(style, ours, "list_conversations"@, arguments)
                == StepView::ListConversations
            &&& tool_step(style, ours, "list_workspace_files"@, arguments) == StepView::ListFiles
            &&& text_field(arguments, "conversationId"@) == Some(t) && !is_blank(t) ==> tool_step(
                style,
                ours,
                "conversation_history"@,
                arguments,
            ) == (StepView::History { conversation_id: t, limit: history_limit(arguments) })
            &&& text_field(arguments, "path"@) == Some(t) && !is_blank(t) && only_names(
                style,
                trimmed(t),
            ) ==> tool_step(style, ours, "read_workspace_file"@, arguments) == (StepView::ReadFile {
                path: trimmed(t),
            })
            &&& text_field(arguments, "path"@) == Some(t) && !is_blank(t) && only_names(
                style,
                trimmed(t),
            ) && text_field(arguments, "contents"@) == Some(contents) && byte_len(contents)
                <= 512 * 1024 ==> tool_step(style, ours, "write_workspace_file"@, arguments) == (
            StepView::WriteFile { path: trimmed(t), contents, bytes: byte_len(contents) })
        }),
{
    lemma_tool_names();
}

/// What cannot be done is refused, and touches nothing: a tool of another namespace, a tool that
/// there is not, an argument that is missing, a path that does not stay in the workspace, and a
/// text that is too long.
pub proof fn lemma_tools_refuse(
    style: PathStyle,
    namespace: Option<Seq<char>>,
    tool: Seq<char>,
    arguments: Tree,
)
    ensures
        ({
            let step = tool_step(style, namespace, tool, arguments);
            let path = text_field(arguments, "path"@);
            let outside = path is None || is_blank(path->0) || !only_names(style, trimmed(path->0));
            let contents = text_field(arguments, "contents"@);
            let unknown = tool != "list_conversations"@ && tool != "conversation_history"@ && tool
                != "read_workspace_file"@ && tool != "write_workspace_file"@ && tool
                != "list_workspace_files"@;
            let refused = step is Reply && !step->Reply_0.success;
            &&& namespace != Some("mahayana"@) ==> refused
            &&& unknown ==> refused
            &&& tool == "read_workspace_file"@ && outside ==> refused
            &&& tool == "write_workspace_file"@ && outside ==> refused
            &&& tool == "write_workspace_file"@ && (contents is None || byte_len(contents->0) > 512
                * 1024) ==> refused
            &&& tool == "conversation_history"@ && (text_field(arguments, "conversationId"@) is None
                || is_blank(text_field(arguments, "conversationId"@)->0)) ==> refused
        }),
{
    lemma_tool_names();
}

/// A history is limited to what is asked for, from one message to a hundred, and to fifty where
/// nothing is asked for.
pub proof fn lemma_tool_history_limit(arguments: Tree, n: int)
    ensures
        1 <= history_limit(arguments) <= 100,
        field(arguments, "limit"@) is None ==> history_limit(arguments) == 50,
        field(arguments, "limit"@) == Some(Tree::Int(n)) && 1 <= n <= 100 ==> history_limit(
            arguments,
        ) == n,
        field(arguments, "limit"@) == Some(Tree::Int(n)) && 100 < n <= u64::MAX ==> history_limit(
            arguments,
        ) == 100,
        field(arguments, "limit"@) == Some(Tree::Int(0)) ==> history_limit(arguments) == 1,
{
}

/// A tool answers with the text that it has, unless that is too long for the agent; a failure is
/// never a success and gives its reason.
pub proof fn lemma_tool_answers(text: Seq<char>, value: Tree, reason: Seq<char>)
    ensures
        byte_len(text) <= 32_000 ==> text_response(text).success && text_response(text).text == text,
        byte_len(text) > 32_000 ==> !text_response(text).success,
        !error_response(reason).success,
        error_response(reason).text == json_compact(
            Tree::Object(Map::empty().insert("error"@, Tree::Text(reason))),
        ),
        byte_len(json_compact(value)) <= 32_000 ==> finished(Ok(value)).success && finished(
            Ok(value),
        ).text == json_compact(value),
        finished(Err(reason)) == error_response(reason),
{
}

/// A file that was read is answered with its path and its contents, and one that was written with
/// its path and its length.
pub proof fn lemma_file_answers(path: Seq<char>, contents: Seq<char>, bytes: u32)
    ensures
        text_field(file_tree(path, contents), "path"@) == Some(path),
        text_field(file_tree(path, contents), "contents"@) == Some(contents),
        text_field(written_tree(path, bytes), "path"@) == Some(path),
        field(written_tree(path, bytes), "bytesWritten"@) == Some(Tree::Int(bytes as int)),
{
    reveal_strlit("path");
    reveal_strlit("contents");
    reveal_strlit("bytesWritten");
    assert("path"@.len() == 4 && "contents"@.len() == 8 && "bytesWritten"@.len() == 12);
}

/// A file is read where it is a file of at most 512 KiB, and only there.
pub proof fn lemma_readable_files(is_file: bool, len: u64)
    ensures
        file_fault(is_file, len) is None <==> is_file && len <= 512 * 1024,
{
}

/// The place of a file is found through the file where it is or must be there, and through its
/// directory where nothing is; a link that leads nowhere is not followed.
pub proof fn lemma_place_of_a_file(must_exist: bool, present: bool, is_link: bool)
    ensures
        step_for(must_exist, present, is_link) == WorkspaceStep::ResolveFile <==> must_exist || present,
        step_for(false, false, true) == WorkspaceStep::Refuse,
        step_for(false, false, false) == WorkspaceStep::ResolveParent,
{
}

/// The workspace is its first root, or the working directory where it has none.
pub proof fn lemma_workspace_dir(roots: Seq<Seq<char>>, cwd: Seq<char>, more: Seq<Seq<char>>)
    ensures
        workspace_dir(Seq::empty(), cwd) == cwd,
        roots.len() > 0 ==> workspace_dir(roots + more, cwd) == roots[0],
{
}

/// Every entry of the workspace is listed with its name and its kind, as long as there are no more
/// than two hundred; of more, so many are listed.
pub proof fn lemma_workspace_is_listed(entries: Seq<WorkspaceEntry>, entry: WorkspaceEntry)
    ensures
        items_field(listing(entries), "files"@) matches Some(files) && {
            &&& entries.len() <= 200 ==> files.len() == entries.len()
            &&& entries.len() > 200 ==> files.len() == 200
            &&& entries.len() <= 200 && entries.contains(entry) ==> exists|i: int|
                0 <= i < files.len() && text_field(#[trigger] files[i], "name"@) == Some(
                    entry.name@,
                ) && text_field(files[i], "kind"@) == Some(
                    match entry.kind {
                        EntryKind::File => "file"@,
                        EntryKind::Directory => "directory"@,
                        EntryKind::Other => "other"@,
                    },
                )
        },
{
    broadcast use vstd::seq_lib::group_to_multiset_ensures;

    let few = if entries.len() > 200 {
        entries.take(200)
    } else {
        entries
    };
    lemma_arranged(few);
    let kept = arranged(few);
    let files = items_field(listing(entries), "files"@)->0;
    assert(files =~= Seq::new(kept.len(), |i: int| entry_tree(kept[i])));
    reveal_strlit("name");
    reveal_strlit("kind");
    assert("name"@[0] != "kind"@[0]);
    if entries.len() <= 200 && entries.contains(entry) {
        assert(few.to_multiset().contains(entry));
        assert(kept.to_multiset().contains(entry));
        assert(kept.contains(entry));
        let i = choose|i: int| 0 <= i < kept.len() && kept[i] == entry;
        assert(files[i] == entry_tree(entry));
        assert(text_field(files[i], "name"@) == Some(entry.name@));
    }
}

/// The contacts of all providers come together, one provider after the other, and the first
/// provider that fails is told by its key and its reason.
pub proof fn lemma_contacts_are_gathered(before: Seq<ProviderContacts>, last: ProviderContacts)
    ensures
        gathered(Seq::<ProviderContacts>::empty()) matches Ok(none) && none.len() == 0,
        gathered(before) is Err ==> gathered(before.push(last)) == gathered(before),
        gathered(before) is Ok && last.contacts is Ok ==> gathered(before.push(last)) == Ok::<
            Seq<Conversation>,
            ResponseView,
        >(gathered(before)->Ok_0 + last.contacts->Ok_0@),
        gathered(before) is Ok && last.contacts is Err ==> gathered(before.push(last)) == Err::<
            Seq<Conversation>,
            ResponseView,
        >(error_response(last.key@ + " 联系人读取失败："@ + last.contacts->Err_0@)),
{
    assert(before.push(last).drop_last() =~= before);
}

/// The model is asked at the endpoint of the settings, by the bearer of their token, with their
/// model and the whole input.
pub proof fn lemma_device_agent_asks_as_set(config: ResponsesAgentConfig, input: Seq<Tree>)
    ensures
        inference_of(config, input).endpoint == endpoint_of(config.responses_base_url@),
        inference_of(config, input).authorization == "Bearer "@ + config.product_session_token@,
        text_field(inference_of(config, input).body, "model"@) == Some(config.model@),
        items_field(inference_of(config, input).body, "input"@) == Some(input),
        field(inference_of(config, input).body, "stream"@) == Some(Tree::Bool(false)),
{
    lemma_inference_body(config.model@, input, Seq::empty(), Seq::empty());
}

/// A message that begins an operation is added to its thread as the user's, and what the model
/// answers is added behind it as the assistant's; the answer is told as a piece of text and as a
/// message in the request's conversation. The operation is over then, and no other thread changes.
pub proof fn lemma_thread_keeps_both_sides(
    start: ResponsesView,
    after: ResponsesView,
    request: AgentMessageRequest,
    answer: String,
    message_id: Seq<char>,
    now: i64,
    out: Result<Vec<AgentEvent>, AgentError>,
    other: Seq<char>,
)
    requires
        start.histories.contains_key(request.thread_id@),
        !start.interrupted.contains(request.operation_id@),
        is_finished(
            begun(start, request.thread_id@, request.operation_id@, request.text@),
            after,
            request,
            Ok(answer),
            message_id,
            now,
            out,
        ),
    ensures
        ({
            let thread = request.thread_id@;
            let asked = begun(start, thread, request.operation_id@, request.text@);
            let before = start.histories[thread];
            let history = after.histories[thread];
            &&& asked.active.contains(request.operation_id@)
            &&& history.len() == before.len() + 2
            &&& before.is_prefix_of(history)
            &&& text_field(history[before.len() as int], "role"@) == Some("user"@)
            &&& text_field(history[before.len() as int], "content"@) == Some(request.text@)
            &&& text_field(history[before.len() as int + 1], "role"@) == Some("assistant"@)
            &&& text_field(history[before.len() as int + 1], "content"@) == Some(answer@)
            &&& !after.active.contains(request.operation_id@)
            &&& other != thread && start.histories.contains_key(other)
                ==> after.histories.contains_key(other) && after.histories[other]
                == start.histories[other]
            &&& out matches Ok(events) && {
                &&& events@.len() == 2
                &&& events@[0]@ == (AgentEventView::MessageDelta { delta: answer@ })
                &&& events@[1]@ matches AgentEventView::MessageCompleted { message }
                &&& message.text == answer@
                &&& message.conversation_id == request.conversation_id@
                &&& message.role == MessageRole::Assistant
                &&& message.id == message_id
                &&& message.created_at_ms == now
            }
        }),
{
    lemma_inference_body(Seq::empty(), Seq::empty(), "user"@, request.text@);
    lemma_inference_body(Seq::empty(), Seq::empty(), "assistant"@, answer@);
    let before = start.histories[request.thread_id@];
    let history = after.histories[request.thread_id@];
    assert(history.take(before.len() as int) =~= before);
}

/// An operation that was interrupted, and one that the model failed, adds no answer and is over.
pub proof fn lemma_failed_operation_adds_nothing(
    before: ResponsesView,
    after: ResponsesView,
    request: AgentMessageRequest,
    inference: Result<String, AgentError>,
    message_id: Seq<char>,
    now: i64,
    out: Result<Vec<AgentEvent>, AgentError>,
)
    requires
        is_finished(before, after, request, inference, message_id, now, out),
        before.interrupted.contains(request.operation_id@) || inference is Err,
    ensures
        out is Err,
        after.histories == before.histories,
        !after.active.contains(request.operation_id@),
        !after.interrupted.contains(request.operation_id@),
        before.interrupted.contains(request.operation_id@) ==> out->Err_0@ == AgentFault::Backend(
            "operation interrupted"@,
        ),
        !before.interrupted.contains(request.operation_id@) ==> out->Err_0@ == inference->Err_0@,
{
}

/// An operation that is interrupted while the model is asked ends without the model's answer,
/// whatever that is; what the user said stays in the thread.
pub proof fn lemma_interrupted_operation_ends_silently(
    start: ResponsesView,
    after: ResponsesView,
    request: AgentMessageRequest,
    inference: Result<String, AgentError>,
    message_id: Seq<char>,
    now: i64,
    out: Result<Vec<AgentEvent>, AgentError>,
)
    requires
        start.histories.contains_key(request.thread_id@),
        is_finished(
            stopped(
                begun(start, request.thread_id@, request.operation_id@, request.text@),
                request.operation_id@,
            ),
            after,
            request,
            inference,
            message_id,
            now,
            out,
        ),
    ensures
        out matches Err(error) && error@ == AgentFault::Backend("operation interrupted"@),
        after.histories[request.thread_id@].drop_last() == start.histories[request.thread_id@],
        text_field(after.histories[request.thread_id@].last(), "role"@) == Some("user"@),
        text_field(after.histories[request.thread_id@].last(), "content"@) == Some(request.text@),
        !after.active.contains(request.operation_id@),
{
    lemma_inference_body(Seq::empty(), Seq::empty(), "user"@, request.text@);
    assert(after.histories[request.thread_id@].drop_last()
        =~= start.histories[request.thread_id@]);
}

/// The answer of the endpoint is what its reply says; an error in the reply comes first, with its
/// message, and a reply that says nothing is a failure.
pub proof fn lemma_endpoint_answers(payload: Tree, error: Tree)
    ensures
        field(payload, "error"@) is None && reply_text(payload) is Some ==> inference_outcome(
            payload,
        ) == Ok::<Seq<char>, AgentFault>(reply_text(payload)->0),
        field(payload, "error"@) is None && reply_text(payload) is None ==> inference_outcome(
            payload,
        ) is Err,
        field(payload, "error"@) == Some(error) ==> inference_outcome(payload) is Err,
        field(payload, "error"@) == Some(error) && text_field(error, "message"@) is Some
            ==> inference_outcome(payload) == Err::<Seq<char>, AgentFault>(
            AgentFault::Backend(text_field(error, "message"@)->0),
        ),
{
}

/// A status that the endpoint refused with is told as a number, and nothing else of the reply is.
pub proof fn lemma_refused_status_is_told(a: u16, b: u16)
    ensures
        failure_fault(InferenceFailure::Status(a)) == AgentFault::Backend(
            "Responses endpoint returned HTTP "@ + decimal(a as nat),
        ),
        a != b ==> failure_fault(InferenceFailure::Status(a)) != failure_fault(
            InferenceFailure::Status(b),
        ),
{
    if a != b && failure_fault(InferenceFailure::Status(a)) == failure_fault(
        InferenceFailure::Status(b),
    ) {
        let front = "Responses endpoint returned HTTP "@;
        let x = front + decimal(a as nat);
        let y = front + decimal(b as nat);
        assert(x.skip(front.len() as int) =~= decimal(a as nat));
        assert(y.skip(front.len() as int) =~= decimal(b as nat));
        lemma_decimal_injective(a as nat, b as nat);
    }
}

/// What a fault says holds its reason, and different kinds of faults read differently.
pub proof fn lemma_faults_say_why(a: Seq<char>, b: Seq<char>)
    ensures
        a.is_suffix_of(fault_text(AgentFault::Unavailable(a))),
        a.is_suffix_of(fault_text(AgentFault::ThreadNotFound(a))),
        a.is_suffix_of(fault_text(AgentFault::OperationNotFound(a))),
        a.is_suffix_of(fault_text(AgentFault::ApprovalNotFound(a))),
        a.is_suffix_of(fault_text(AgentFault::Backend(a))),
        "agent backend is unavailable: "@.is_prefix_of(fault_text(AgentFault::Unavailable(a))),
        "agent thread was not found: "@.is_prefix_of(fault_text(AgentFault::ThreadNotFound(a))),
        "agent operation was not found: "@.is_prefix_of(
            fault_text(AgentFault::OperationNotFound(a)),
        ),
        "agent approval was not found: "@.is_prefix_of(fault_text(AgentFault::ApprovalNotFound(a))),
        "agent backend failed: "@.is_prefix_of(fault_text(AgentFault::Backend(a))),
        a != b ==> fault_text(AgentFault::Backend(a)) != fault_text(AgentFault::Backend(b)),
{
    lemma_ends("agent backend is unavailable: "@, a);
    lemma_ends("agent thread was not found: "@, a);
    lemma_ends("agent operation was not found: "@, a);
    lemma_ends("agent approval was not found: "@, a);
    lemma_ends("agent backend failed: "@, a);
    lemma_ends("agent backend failed: "@, b);
    let front = "agent backend failed: "@;
    assert((front + a).skip(front.len() as int) =~= a);
    assert((front + b).skip(front.len() as int) =~= b);
}

proof fn lemma_ends(front: Seq<char>, tail: Seq<char>)
    ensures
        front.is_prefix_of(front + tail),
        tail.is_suffix_of(front + tail),
{
    let whole = front + tail;
    assert(whole.take(front.len() as int) =~= front);
    assert(whole.subrange(whole.len() - tail.len(), whole.len() as int) =~= tail);
}

/// Readings of the clock keep their order as time stamps, and one that fits is kept as it is.
pub proof fn lemma_time_goes_on(a: u128, b: u128)
    requires
        a <= b,
    ensures
        stamp(Some(a)) <= stamp(Some(b)),
        a <= i64::MAX ==> stamp(Some(a)) == a,
        stamp(None) == 0,
{
}

/// The agent is asked for the mini-app that the message is for: the request names it, says what it
/// does, and ends with the message as it was written.
pub proof fn lemma_miniapp_is_asked_for(definition: DefinitionView, text: Seq<char>)
    ensures
        ({
            let asked = miniapp_request_text(definition, text);
            let does = if is_blank(definition.instructions) {
                "按小程序名称和当前会话上下文提供服务。"@
            } else {
                definition.instructions
            };
            &&& text.is_suffix_of(asked)
            &&& ("你正在通过大乘与小程序“"@ + definition.title + "”（"@ + definition.app_id
                + "）对话。"@).is_prefix_of(asked)
            &&& (does + "\n\n用户消息：\n"@ + text).is_suffix_of(asked)
        }),
{
    reveal_strlit("）对话。");
    reveal_strlit(
        "）对话。请严格依据该小程序的职责和能力回答，不要冒充其他联系人。\n小程序说明：",
    );
    let asked = miniapp_request_text(definition, text);
    let does = if is_blank(definition.instructions) {
        "按小程序名称和当前会话上下文提供服务。"@
    } else {
        definition.instructions
    };
    let long =
        "）对话。请严格依据该小程序的职责和能力回答，不要冒充其他联系人。\n小程序说明："@;
    let short = "）对话。"@;
    let head = "你正在通过大乘与小程序“"@ + definition.title + "”（"@ + definition.app_id;
    assert(long.take(short.len() as int) =~= short);
    let front = head + short;
    assert(asked.take(front.len() as int) =~= front);
    let tail = does + "\n\n用户消息：\n"@ + text;
    assert(asked =~= head + long + tail);
    lemma_ends(head + long, tail);
    lemma_ends(head + long + does + "\n\n用户消息：\n"@, text);
    assert(head + long + does + "\n\n用户消息：\n"@ + text =~= asked);
}

/// A message to a mini-app is kept as the user wrote it, in its conversation, and says which
/// mini-app it was for.
pub proof fn lemma_message_to_a_miniapp_is_kept(
    app_id: Seq<char>,
    conversation: Seq<char>,
    text: Seq<char>,
    message_id: Seq<char>,
    now: i64,
    history: Seq<MessageView>,
)
    ensures
        ({
            let kept = kept_message(app_id, conversation, text, message_id, now);
            &&& kept.text == text
            &&& kept.conversation_id == conversation
            &&& kept.role == MessageRole::User
            &&& kept.id == message_id
            &&& kept.created_at_ms == now
            &&& text_field(kept.metadata, "miniAppId"@) == Some(app_id)
            &&& of_conversation(history.push(kept), conversation) == of_conversation(
                history,
                conversation,
            ).push(kept)
        }),
{
    let kept = kept_message(app_id, conversation, text, message_id, now);
    assert(history.push(kept).drop_last() =~= history);
}

/// What the agent says for a mini-app is told as the mini-app's, in its conversation and under its
/// operation, with the agent's text, question and details as they are; a message is also kept. It
/// says which mini-app speaks.
pub proof fn lemma_miniapp_speaks_for_the_agent(
    event: AgentEventView,
    conversation: Seq<char>,
    operation: Seq<char>,
    app_id: Seq<char>,
    history: Seq<MessageView>,
    name: Seq<char>,
)
    ensures
        ({
            let told = bridged(event, conversation, operation, app_id);
            let after = history_after(history, event, conversation, app_id);
            &&& event matches AgentEventView::MessageDelta { delta } ==> told == (
            EventView::MessageDelta {
                operation_id: operation,
                conversation_id: conversation,
                delta,
            }) && after == history
            &&& event matches AgentEventView::MessageCompleted { message } ==> {
                &&& told matches EventView::MessageCompleted { operation_id, message: shown }
                &&& operation_id == operation
                &&& shown.text == message.text
                &&& shown.id == message.id
                &&& shown.created_at_ms == message.created_at_ms
                &&& shown.conversation_id == conversation
                &&& shown.role == MessageRole::MiniApp
                &&& text_field(shown.metadata, "miniAppId"@) == Some(app_id)
                &&& field(shown.metadata, "agent"@) == Some(message.metadata)
                &&& after == history.push(shown)
            }
            &&& event matches AgentEventView::ApprovalRequested { approval_id, title, details } ==> {
                &&& told matches EventView::ApprovalRequested {
                    operation_id,
                    approval_id: asked,
                    title: shown,
                    details: given,
                }
                &&& operation_id == operation
                &&& asked == approval_id
                &&& shown == title
                &&& name != "miniAppId"@ ==> field(given, name) == field(details, name)
                &&& details is Object ==> text_field(given, "miniAppId"@) == Some(app_id)
                &&& !(details is Object) ==> given == details
                &&& after == history
            }
        }),
{
    reveal_strlit("miniAppId");
    reveal_strlit("agent");
    assert("miniAppId"@.len() == 9 && "agent"@.len() == 5);
}

/// A message to a mini-app and the agent's answer to it make up the conversation: the agent is
/// asked in the thread of the conversation and under the operation of the message, and what it
/// answers through the bridge is kept behind the message. No other conversation changes.
pub proof fn lemma_miniapp_conversation(
    before: MiniAppsView,
    after: MiniAppsView,
    request: SendMessageRequest,
    thread: Seq<char>,
    message_id: Seq<char>,
    now: i64,
    asked: AgentMessageRequest,
    bridge: MiniAppEventBridge,
    answer: MessageView,
    other: Seq<char>,
)
    requires
        is_asked(before, after, request, thread, message_id, now, asked, bridge),
    ensures
        ({
            let id = request.conversation_id@;
            let done = history_after(
                after.history,
                AgentEventView::MessageCompleted { message: answer },
                bridge.conversation_id@,
                bridge.app_id@,
            );
            let earlier = of_conversation(before.history, id);
            let all = of_conversation(done, id);
            &&& asked.thread_id@ == thread
            &&& asked.operation_id@ == request.operation_id@
            &&& asked.conversation_id@ == id
            &&& request.text@.is_suffix_of(asked.text@)
            &&& opt_view(asked.client_message_id) == opt_view(request.client_message_id)
            &&& bridge.operation_id@ == request.operation_id@
            &&& after.definitions == before.definitions
            &&& after.threads == before.threads
            &&& all.len() == earlier.len() + 2
            &&& earlier.is_prefix_of(all)
            &&& all[earlier.len() as int].text == request.text@
            &&& all[earlier.len() as int].role == MessageRole::User
            &&& all[earlier.len() as int + 1].text == answer.text
            &&& all[earlier.len() as int + 1].role == MessageRole::MiniApp
            &&& text_field(all[earlier.len() as int + 1].metadata, "miniAppId"@) == Some(
                before.definitions[id].app_id,
            )
            &&& other != id ==> of_conversation(done, other) == of_conversation(
                before.history,
                other,
            )
        }),
{
    let id = request.conversation_id@;
    let definition = before.definitions[id];
    let said = kept_message(definition.app_id, id, request.text@, message_id, now);
    lemma_exchange_is_remembered(before.history, said, answer, definition.app_id, other);
    lemma_miniapp_is_asked_for(definition, request.text@);
    lemma_miniapp_speaks_for_the_agent(
        AgentEventView::MessageCompleted { message: answer },
        id,
        request.operation_id@,
        definition.app_id,
        after.history,
        Seq::empty(),
    );
    let done = history_after(
        after.history,
        AgentEventView::MessageCompleted { message: answer },
        bridge.conversation_id@,
        bridge.app_id@,
    );
    let earlier = of_conversation(before.history, id);
    let all = of_conversation(done, id);
    assert(all.take(earlier.len() as int) =~= earlier);
}

/// Mini-apps are accepted one after the other: each is found under its own conversation and shown
/// with its title, and one without an identifier or a title, or that is there already, is refused.
pub proof fn lemma_miniapps_are_taken_in(before: Seq<DefinitionView>, last: DefinitionView)
    ensures
        by_conversation(Seq::<DefinitionView>::empty()) matches Ok(none) && none.dom().len() == 0,
        by_conversation(before) is Err ==> by_conversation(before.push(last)) == by_conversation(
            before,
        ),
        by_conversation(before) is Ok && (is_blank(last.app_id) || is_blank(last.title))
            ==> by_conversation(before.push(last)) is Err,
        by_conversation(before) is Ok && by_conversation(before)->Ok_0.contains_key(
            "miniapp:"@ + last.app_id,
        ) ==> by_conversation(before.push(last)) is Err,
        by_conversation(before) is Ok && !is_blank(last.app_id) && !is_blank(last.title)
            && !by_conversation(before)->Ok_0.contains_key("miniapp:"@ + last.app_id)
            ==> by_conversation(before.push(last)) == Ok::<
            Map<Seq<char>, DefinitionView>,
            Seq<char>,
        >(by_conversation(before)->Ok_0.insert("miniapp:"@ + last.app_id, last)),
        definition_conversation(miniapp_conversation(last.app_id), last).title == last.title,
        definition_conversation(miniapp_conversation(last.app_id), last).id == "miniapp:"@
            + last.app_id,
        definition_conversation(miniapp_conversation(last.app_id), last).pinned == last.pinned,
        definition_conversation(miniapp_conversation(last.app_id), last).peer == (PeerView::MiniApp {
            app_id: last.app_id,
        }),
{
    assert(before.push(last).drop_last() =~= before);
}

/// The latest messages are the last ones, in their order, as many as are asked for.
pub proof fn lemma_latest_are_the_last<T>(all: Seq<T>, more: Seq<T>, limit: nat)
    ensures
        latest(all, limit).len() == if all.len() < limit {
            all.len()
        } else {
            limit
        },
        latest(all, limit).is_suffix_of(all),
        all.len() <= limit ==> latest(all, limit) == all,
        latest(all + more, more.len()) == more,
{
    let kept = latest(all, limit);
    assert(all.subrange(all.len() - kept.len(), all.len() as int) =~= kept);
    let whole = all + more;
    assert(latest(whole, more.len()) =~= more);
}

/// Contacts stand in the order of their last messages, the latest first, and those of the same time
/// by their names; files and folders stand in the order of their names.
pub proof fn lemma_order_of_lists(
    a: Conversation,
    b: Conversation,
    x: WorkspaceEntry,
    y: WorkspaceEntry,
    f: FileName,
    g: FileName,
)
    ensures
        a.updated_at_ms > b.updated_at_ms ==> a.goes_before(&b) && !b.goes_before(&a),
        a.updated_at_ms == b.updated_at_ms ==> (a.goes_before(&b) <==> precedes(a.id@, b.id@)),
        x.goes_before(&y) <==> precedes(x.name@, y.name@),
        f.goes_before(&g) <==> precedes(f.0@, g.0@),
{
}

/// A thread that was started for a mini-app is found again under its conversation; no other
/// conversation gets it, and nothing else changes.
pub proof fn lemma_started_thread_is_found(
    state: MiniAppsView,
    conversation: Seq<char>,
    other: Seq<char>,
    thread: Seq<char>,
)
    ensures
        ({
            let after = with_thread(state, conversation, thread);
            &&& state.definitions.contains_key(conversation) ==> thread_of(after, conversation)
                == Ok::<Option<Seq<char>>, ConversationFault>(Some(thread))
            &&& !state.definitions.contains_key(conversation) ==> thread_of(after, conversation)
                == Err::<Option<Seq<char>>, ConversationFault>(
                ConversationFault::ConversationNotFound(conversation),
            )
            &&& other != conversation ==> thread_of(after, other) == thread_of(state, other)
            &&& after.history == state.history && after.definitions == state.definitions
        }),
        state.threads == Map::<Seq<char>, Seq<char>>::empty() && state.definitions.contains_key(
            conversation,
        ) ==> thread_of(state, conversation) == Ok::<Option<Seq<char>>, ConversationFault>(None),
{
}

/// A thread of the device agent starts with nothing said in it; the others keep what was said.
pub proof fn lemma_opened_thread_is_empty(state: ResponsesView, thread: Seq<char>, other: Seq<char>)
    ensures
        ({
            let after = opened(state, thread);
            &&& after.histories.contains_key(thread) && after.histories[thread].len() == 0
            &&& other != thread ==> (after.histories.contains_key(other)
                <==> state.histories.contains_key(other)) && after.histories[other]
                == state.histories[other]
            &&& after.active == state.active && after.interrupted == state.interrupted
        }),
{
}

/// Settings that are refused are refused for the first thing that is wrong with them.
pub proof fn lemma_refused_settings(config: CodexAgentConfig, device: ResponsesAgentConfig)
    ensures
        is_blank(device.model@) ==> responses_config_fault(device) == Some(
            AgentFault::Unavailable("Dacheng Responses model must not be empty"@),
        ),
        !is_blank(device.model@) && !"https://"@.is_prefix_of(device.responses_base_url@)
            ==> responses_config_fault(device) == Some(
            AgentFault::Unavailable("Dacheng Responses endpoint must use HTTPS"@),
        ),
        !is_blank(device.model@) && "https://"@.is_prefix_of(device.responses_base_url@) && is_blank(
            device.product_session_token@,
        ) ==> responses_config_fault(device) == Some(
            AgentFault::Unavailable("a valid Mahayana product session is required"@),
        ),
        config.product_session_token is Some && is_blank(config.product_session_token->0@)
            ==> codex_config_fault(config) == Some(
            AgentFault::Unavailable("Mahayana product session is invalid"@),
        ),
        config.product_session_token is None && is_blank(config.model@) ==> codex_config_fault(
            config,
        ) == Some(AgentFault::Backend("Dacheng DeepSeek model configuration is incomplete"@)),
        config.product_session_token is None && !is_blank(config.model@)
            && !"https://"@.is_prefix_of(config.responses_base_url@) ==> codex_config_fault(config)
            == Some(AgentFault::Backend("Dacheng Responses endpoint must use HTTPS"@)),
{
}

/// The arguments of the tools are texts, except for how much of a history is read, which is a whole
/// number from one to a hundred.
pub proof fn lemma_arguments_of_the_tools()
    ensures
        field(offered_tools()[1].input_schema, "properties"@) matches Some(history) && {
            &&& inner_text(history, "conversationId"@, "type"@) == Some("string"@)
            &&& inner_text(history, "limit"@, "type"@) == Some("integer"@)
            &&& inner_field(history, "limit"@, "minimum"@) == Some(Tree::Int(1))
            &&& inner_field(history, "limit"@, "maximum"@) == Some(Tree::Int(100))
        },
        field(offered_tools()[2].input_schema, "properties"@) matches Some(read) && inner_text(
            read,
            "path"@,
            "type"@,
        ) == Some("string"@),
        field(offered_tools()[3].input_schema, "properties"@) matches Some(written) && inner_text(
            written,
            "path"@,
            "type"@,
        ) == Some("string"@) && inner_text(written, "contents"@, "type"@) == Some("string"@),
{
    reveal_strlit("required");
    reveal_strlit("type");
    reveal_strlit("properties");
    reveal_strlit("additionalProperties");
    reveal_strlit("description");
    reveal_strlit("minimum");
    reveal_strlit("maximum");
    reveal_strlit("conversationId");
    reveal_strlit("limit");
    reveal_strlit("path");
    reveal_strlit("contents");
    assert("required"@.len() == 8 && "type"@.len() == 4 && "properties"@.len() == 10
        && "additionalProperties"@.len() == 20 && "description"@.len() == 11 && "minimum"@.len()
        == 7 && "maximum"@.len() == 7 && "minimum"@[1] != "maximum"@[1] && "conversationId"@.len()
        == 14 && "limit"@.len() == 5 && "path"@.len() == 4 && "contents"@.len() == 8);
    let history = offered_tools()[1].input_schema->Object_0["properties"@]->Object_0;
    assert(history["limit"@]->Object_0["minimum"@] == Tree::Int(1));
    assert(history["limit"@]->Object_0["maximum"@] == Tree::Int(100));
    assert(history["limit"@]->Object_0["type"@] == Tree::Text("integer"@));
    assert(history["conversationId"@]->Object_0["type"@] == Tree::Text("string"@));
    let read = offered_tools()[2].input_schema->Object_0["properties"@]->Object_0;
    assert(read["path"@]->Object_0["type"@] == Tree::Text("string"@));
    let written = offered_tools()[3].input_schema->Object_0["properties"@]->Object_0;
    assert(written["path"@]->Object_0["type"@] == Tree::Text("string"@));
    assert(written["contents"@]->Object_0["type"@] == Tree::Text("string"@));
}

/// Where a place in the workspace cannot be reached, what is told names the place, and then why.
pub proof fn lemma_unreachable_places_are_named(place: Seq<char>, error: Seq<char>)
    ensures
        (place + "："@ + error).is_suffix_of(unreachable_root(place, error)),
        (place + "："@ + error).is_suffix_of(unreachable_file(place, error)),
        (place + "："@ + error).is_suffix_of(unreachable_parent(place, error)),
        "无法访问大乘工作区 "@.is_prefix_of(unreachable_root(place, error)),
        "无法访问工作区文件 "@.is_prefix_of(unreachable_file(place, error)),
        "工作区父目录不存在 "@.is_prefix_of(unreachable_parent(place, error)),
{
    lemma_ends_of_a_text("无法访问大乘工作区 "@, place, "："@, error);
    lemma_ends_of_a_text("无法访问工作区文件 "@, place, "："@, error);
    lemma_ends_of_a_text("工作区父目录不存在 "@, place, "："@, error);
}

proof fn lemma_ends_of_a_text(a: Seq<char>, b: Seq<char>, c: Seq<char>, d: Seq<char>)
    ensures
        (b + c + d).is_suffix_of(a + b + c + d),
        a.is_prefix_of(a + b + c + d),
{
    let whole = a + b + c + d;
    let tail = b + c + d;
    assert(whole.subrange(whole.len() - tail.len(), whole.len() as int) =~= tail);
    assert(whole.subrange(0, a.len() as int) =~= a);
}

/// An answer of the device agent is a message of the assistant in the conversation that asked, with
/// the text of the answer, and says that it was made without programs of the device.
pub proof fn lemma_answer_of_the_device_agent(
    conversation: Seq<char>,
    text: Seq<char>,
    id: Seq<char>,
    now: i64,
)
    ensures
        ({
            let message = answer_message(conversation, text, id, now);
            &&& message.conversation_id == conversation && message.text == text && message.id == id
            &&& message.role == MessageRole::Assistant && message.created_at_ms == now
            &&& text_field(message.metadata, "agentBackend"@) == Some(
                "dacheng-responses-device-agent"@,
            )
            &&& text_field(message.metadata, "sandbox"@) == Some("mobile-embedded"@)
            &&& field(message.metadata, "nativeProcess"@) == Some(Tree::Bool(false))
            &&& field(message.metadata, "nativeGit"@) == Some(Tree::Bool(false))
        }),
{
    reveal_strlit("agentBackend");
    reveal_strlit("sandbox");
    reveal_strlit("nativeProcess");
    reveal_strlit("nativeGit");
    assert("agentBackend"@.len() == 12 && "sandbox"@.len() == 7 && "nativeProcess"@.len() == 13
        && "nativeGit"@.len() == 9);
}

/// The provider of a conversation is one that has its key, and the first such.
pub proof fn lemma_provider_has_the_key(keys: Seq<Seq<char>>, key: Seq<char>, at: int, other: int)
    requires
        provider_at(keys, key, at),
    ensures
        0 <= at < keys.len() && keys[at] == key,
        0 <= other < keys.len() && keys[other] == key ==> at <= other,
        provider_at(keys, key, other) ==> other == at,
{
}

} // verus!
