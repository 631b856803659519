//! Settings of the agent that runs in this process, and what starting it takes.

use crate::agent::{AgentError, AgentFault};
use crate::text::{blank, has_char, is_blank, starts_with, texts};
use crate::url_text::opt_view;
use vstd::prelude::*;
use vstd::string::*;

verus! {

/// The identifier of the model provider.
pub const PROVIDER_ID: &'static str = "dacheng-deepseek";

/// What commands of the agent may touch.
#[derive(Debug, Clone, Copy, PartialEq, Eq, Structural)]
pub enum SandboxMode {
    ReadOnly,
    WorkspaceWrite,
    DangerFullAccess,
}

/// When the agent asks before it acts.
#[derive(Debug, Clone, Copy, PartialEq, Eq, Structural)]
pub enum AskForApproval {
    UnlessTrusted,
    OnFailure,
    OnRequest,
    Never,
}

/// Settings of the agent.
#[derive(Debug, PartialEq, Eq)]
pub struct CodexAgentConfig {
    pub codex_home: String,
    pub cwd: String,
    pub workspace_roots: Vec<String>,
    pub model: String,
    pub responses_base_url: String,
    /// The account's session token. Without one the anonymous allowance is used. It goes into the
    /// provider in memory and into no file.
    pub product_session_token: Option<String>,
    pub sandbox_mode: SandboxMode,
    pub approval_policy: AskForApproval,
    /// The executable for the helper modes of the process. Embedded hosts have none.
    pub codex_executable_path: Option<String>,
    /// The keys of the providers whose conversations the agent may read.
    pub conversation_providers: Vec<String>,
}

/// A token that can stand in a header: it says something, on one line.
pub open spec fn is_header_token(token: Seq<char>) -> bool {
    !is_blank(token) && !token.contains('\r') && !token.contains('\n')
}

/// Tests whether a token can stand in a header.
pub fn header_token(token: &str) -> (yes: bool)
    ensures
        yes == is_header_token(token@),
{
    !blank(token) && !has_char(token, '\r') && !has_char(token, '\n')
}

/// An address that is reached over HTTPS.
pub open spec fn is_https(url: Seq<char>) -> bool {
    "https://"@.is_prefix_of(url)
}

/// The first thing that is wrong with the settings.
pub open spec fn codex_config_fault(config: CodexAgentConfig) -> Option<AgentFault> {
    if config.product_session_token is Some && !is_header_token(config.product_session_token->0@) {
        Some(AgentFault::Unavailable("Mahayana product session is invalid"@))
    } else if is_blank(config.model@) {
        Some(AgentFault::Backend("Dacheng DeepSeek model configuration is incomplete"@))
    } else if !is_https(config.responses_base_url@) {
        Some(AgentFault::Backend("Dacheng Responses endpoint must use HTTPS"@))
    } else {
        None
    }
}

impl CodexAgentConfig {
    /// Checks the session, then the model, then the endpoint.
    pub fn validate(&self) -> (out: Result<(), AgentError>)
        ensures
            match out {
                Ok(_) => codex_config_fault(*self) is None,
                Err(error) => codex_config_fault(*self) == Some(error@),
            },
    {
        match &self.product_session_token {
            Some(token) => {
                if !header_token(token.as_str()) {
                    return Err(
                        AgentError::Unavailable("Mahayana product session is invalid".to_owned()),
                    );
                }
            },
            None => {},
        }
        if blank(self.model.as_str()) {
            return Err(
                AgentError::Backend(
                    "Dacheng DeepSeek model configuration is incomplete".to_owned(),
                ),
            );
        }
        if !starts_with(self.responses_base_url.as_str(), "https://") {
            return Err(
                AgentError::Backend("Dacheng Responses endpoint must use HTTPS".to_owned()),
            );
        }
        Ok(())
    }
}

/// The interface that a model provider speaks.
#[derive(Debug, Clone, Copy, PartialEq, Eq, Structural)]
pub enum WireApi {
    Chat,
    Responses,
}

/// Where the sessions of the agent come from.
#[derive(Debug, Clone, Copy, PartialEq, Eq, Structural)]
pub enum SessionSource {
    Cli,
    Editor,
    Exec,
    Mcp,
}

/// The model provider that the agent is given.
#[derive(Debug, PartialEq, Eq)]
pub struct ProviderPlan {
    pub name: String,
    pub base_url: String,
    pub bearer_token: Option<String>,
    pub wire_api: WireApi,
    pub request_max_retries: u64,
    pub stream_max_retries: u64,
    pub stream_idle_timeout_ms: u64,
    pub requires_openai_auth: bool,
    pub supports_websockets: bool,
}

/// What starting the agent takes, in the order in which the host does it: the directory to make,
/// the configuration to load, the provider to put into it, and the client to open.
#[derive(Debug, PartialEq, Eq)]
pub struct StartPlan {
    pub codex_home: String,
    pub ignore_user_config: bool,
    pub ignore_exec_policy_rules: bool,
    pub model: String,
    pub cwd: String,
    pub approval_policy: AskForApproval,
    pub sandbox_mode: SandboxMode,
    pub workspace_roots: Vec<String>,
    pub provider_id: String,
    pub provider: ProviderPlan,
    /// The key under which the provider also goes into the overrides of every thread.
    pub provider_override: String,
    /// The executable whose runtime paths the environment is made from; without one the agent
    /// gets no environment.
    pub codex_executable_path: Option<String>,
    pub strict_config: bool,
    pub session_source: SessionSource,
    pub api_key_from_environment: bool,
    pub client_name: String,
    pub experimental_api: bool,
    pub form_elicitation: bool,
    pub conversation_providers: Vec<String>,
}

/// The provider that settings ask for.
pub open spec fn provider_matches(plan: ProviderPlan, config: CodexAgentConfig) -> bool {
    &&& plan.name@ == "大乘 DeepSeek Responses"@
    &&& plan.base_url@ == config.responses_base_url@
    &&& opt_view(plan.bearer_token) == opt_view(config.product_session_token)
    &&& plan.wire_api == WireApi::Responses
    &&& plan.request_max_retries == 2
    &&& plan.stream_max_retries == 2
    &&& plan.stream_idle_timeout_ms == 300_000
    &&& !plan.requires_openai_auth
    &&& !plan.supports_websockets
}

/// The plan that settings ask for.
pub open spec fn plan_matches(plan: StartPlan, config: CodexAgentConfig) -> bool {
    &&& plan.codex_home@ == config.codex_home@
    &&& plan.ignore_user_config
    &&& plan.ignore_exec_policy_rules
    &&& plan.model@ == config.model@
    &&& plan.cwd@ == config.cwd@
    &&& plan.approval_policy == config.approval_policy
    &&& plan.sandbox_mode == config.sandbox_mode
    &&& texts(plan.workspace_roots@) == texts(config.workspace_roots@)
    &&& plan.provider_id@ == PROVIDER_ID@
    &&& provider_matches(plan.provider, config)
    &&& plan.provider_override@ == "model_providers."@ + PROVIDER_ID@
    &&& opt_view(plan.codex_executable_path) == opt_view(config.codex_executable_path)
    &&& !plan.strict_config
    &&& plan.session_source == SessionSource::Exec
    &&& !plan.api_key_from_environment
    &&& plan.client_name@ == "mahayana-runtime"@
    &&& plan.experimental_api
    &&& !plan.form_elicitation
    &&& texts(plan.conversation_providers@) == texts(config.conversation_providers@)
}

/// Plans the start of the agent; settings that do not validate start none.
pub fn plan_start(settings: CodexAgentConfig) -> (out: Result<StartPlan, AgentError>)
    ensures
        match out {
            Ok(plan) => codex_config_fault(settings) is None && plan_matches(plan, settings),
            Err(error) => codex_config_fault(settings) == Some(error@),
        },
{
    match settings.validate() {
        Ok(_) => {},
        Err(error) => {
            return Err(error);
        },
    }
    let provider = ProviderPlan {
        name: "大乘 DeepSeek Responses".to_owned(),
        base_url: settings.responses_base_url,
        bearer_token: settings.product_session_token,
        wire_api: WireApi::Responses,
        request_max_retries: 2,
        stream_max_retries: 2,
        stream_idle_timeout_ms: 300_000,
        requires_openai_auth: false,
        supports_websockets: false,
    };
    Ok(
        StartPlan {
            codex_home: settings.codex_home,
            ignore_user_config: true,
            ignore_exec_policy_rules: true,
            model: settings.model,
            cwd: settings.cwd,
            approval_policy: settings.approval_policy,
            sandbox_mode: settings.sandbox_mode,
            workspace_roots: settings.workspace_roots,
            provider_id: PROVIDER_ID.to_owned(),
            provider,
            provider_override: "model_providers.".to_owned().concat(PROVIDER_ID),
            codex_executable_path: settings.codex_executable_path,
            strict_config: false,
            session_source: SessionSource::Exec,
            api_key_from_environment: false,
            client_name: "mahayana-runtime".to_owned(),
            experimental_api: true,
            form_elicitation: false,
            conversation_providers: settings.conversation_providers,
        },
    )
}

/// Settings that start an agent reach it over HTTPS, with a token that fits into one header line.
pub proof fn lemma_started_is_safe(config: CodexAgentConfig)
    requires
        codex_config_fault(config) is None,
    ensures
        is_https(config.responses_base_url@),
        config.product_session_token matches Some(token) ==> !token@.contains('\r')
            && !token@.contains('\n'),
{
}

} // verus!
