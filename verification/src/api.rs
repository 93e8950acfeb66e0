//! The daemon's answers, reduced to the plain values the widgets read.

use crate::text::copy_texts;
use vstd::prelude::*;

verus! {

/// What one tool cost a conversation.
#[derive(Debug, PartialEq, Eq)]
pub struct ToolUsageView {
    pub tool_name: String,
    /// The server that hosts the tool, where the daemon knows it.
    pub namespace: Option<String>,
    /// Calls the model requested, failures included.
    pub call_count: u32,
    /// Result bytes still resident in the conversation.
    pub result_bytes: u64,
    /// Estimated tokens of those results.
    pub result_tokens: u64,
    /// The largest single resident result.
    pub max_result_bytes: u64,
    /// Results the model now reads as a pointer.
    pub evicted_results: u32,
}

impl Clone for ToolUsageView {
    fn clone(&self) -> (r: Self)
        ensures
            r == *self,
    {
        ToolUsageView {
            tool_name: self.tool_name.clone(),
            namespace: self.namespace.clone(),
            call_count: self.call_count,
            result_bytes: self.result_bytes,
            result_tokens: self.result_tokens,
            max_result_bytes: self.max_result_bytes,
            evicted_results: self.evicted_results,
        }
    }
}

/// Where an MCP server runs: in the daemon's fleet or on this client.
#[derive(Debug, Clone, Copy, PartialEq, Eq, Structural)]
pub enum Runner {
    Daemon,
    Client,
}

/// One MCP server of the daemon's fleet.
#[derive(Debug, PartialEq, Eq)]
pub struct McpServerView {
    pub name: String,
    pub command: String,
    pub args: Vec<String>,
    pub namespace: Option<String>,
    pub enabled: bool,
    /// The coarse state: `running`, `stopped`, `needs_auth` and so on.
    pub status: String,
    /// `stdio` or `http`.
    pub transport: String,
    /// The URL of an HTTP server, the command of a stdio one.
    pub target: String,
    /// `none`, `bearer` or `oauth`.
    pub auth_kind: Option<String>,
    pub oauth_account_ref: Option<String>,
    pub oauth_scopes: Vec<String>,
    pub oauth_authorized: Option<bool>,
    /// What the sign-in button is called, where there is one.
    pub configure_label: Option<String>,
    /// The command line that drives the sign-in.
    pub configure_command: Vec<String>,
}

impl Default for McpServerView {
    fn default() -> (r: Self)
        ensures
            r.name@.len() == 0,
            r.command@.len() == 0,
            r.args@.len() == 0,
            r.namespace is None,
            !r.enabled,
            r.status@.len() == 0,
            r.transport@.len() == 0,
            r.target@.len() == 0,
            r.auth_kind is None,
            r.oauth_account_ref is None,
            r.oauth_scopes@.len() == 0,
            r.oauth_authorized is None,
            r.configure_label is None,
            r.configure_command@.len() == 0,
    {
        McpServerView {
            name: String::new(),
            command: String::new(),
            args: Vec::new(),
            namespace: None,
            enabled: false,
            status: String::new(),
            transport: String::new(),
            target: String::new(),
            auth_kind: None,
            oauth_account_ref: None,
            oauth_scopes: Vec::new(),
            oauth_authorized: None,
            configure_label: None,
            configure_command: Vec::new(),
        }
    }
}

impl Clone for McpServerView {
    fn clone(&self) -> (r: Self)
        ensures
            r.name == self.name,
            r.command == self.command,
            r.args@ == self.args@,
            r.namespace == self.namespace,
            r.enabled == self.enabled,
            r.status == self.status,
            r.transport == self.transport,
            r.target == self.target,
            r.auth_kind == self.auth_kind,
            r.oauth_account_ref == self.oauth_account_ref,
            r.oauth_scopes@ == self.oauth_scopes@,
            r.oauth_authorized == self.oauth_authorized,
            r.configure_label == self.configure_label,
            r.configure_command@ == self.configure_command@,
    {
        McpServerView {
            name: self.name.clone(),
            command: self.command.clone(),
            args: copy_texts(&self.args),
            namespace: self.namespace.clone(),
            enabled: self.enabled,
            status: self.status.clone(),
            transport: self.transport.clone(),
            target: self.target.clone(),
            auth_kind: self.auth_kind.clone(),
            oauth_account_ref: self.oauth_account_ref.clone(),
            oauth_scopes: copy_texts(&self.oauth_scopes),
            oauth_authorized: self.oauth_authorized,
            configure_label: self.configure_label.clone(),
            configure_command: copy_texts(&self.configure_command),
        }
    }
}

/// A reusable OAuth account that servers refer to by id.
#[derive(Debug, PartialEq, Eq)]
pub struct ServiceAccountView {
    pub id: String,
    pub display_name: String,
    pub authorized: bool,
}

/// The HTTP side of a client-hosted server's configuration.
#[derive(Debug, PartialEq, Eq)]
pub struct HttpTransportConfig {
    pub url: String,
    pub auth_bearer_secret: Option<String>,
    pub oauth_account: Option<String>,
    pub scopes: Vec<String>,
}

/// A client-hosted server's configuration on disk. The names in `env` are all
/// different.
#[derive(Debug, PartialEq, Eq)]
pub struct McpServerConfig {
    pub name: String,
    pub command: String,
    pub args: Vec<String>,
    pub namespace: Option<String>,
    pub env: Vec<(String, String)>,
    pub http: Option<HttpTransportConfig>,
}

/// What a row of the merged server list stands for.
#[derive(Debug, Clone, Copy, PartialEq, Eq, Structural)]
pub enum ServerKind {
    /// A configured server, on either side.
    External,
    /// A server compiled into this client and hosted in-process.
    BuiltIn,
}

/// One row of the merged server list.
#[derive(Debug, PartialEq, Eq)]
pub struct ServerRow {
    pub name: String,
    pub runner: Runner,
    pub transport: String,
    pub status: String,
    pub tool_count: u32,
    /// The last connect error, where a source reports one.
    pub detail: Option<String>,
    pub kind: ServerKind,
    /// Why a built-in server is off, where it is.
    pub disabled_reason: Option<String>,
}

/// A built-in server as this client reports it.
#[derive(Debug, PartialEq, Eq)]
pub struct BuiltinServerDto {
    pub name: String,
    pub namespace: String,
    pub tool_count: u32,
    /// The external server of the same name that takes its place.
    pub overridden_by: Option<String>,
    pub disabled_by_config: bool,
}

/// Which servers the list shows.
#[derive(Debug, Clone, Copy, PartialEq, Eq, Structural)]
pub enum RunnerFilter {
    All,
    Daemon,
    Client,
}

/// A connection's stored configuration, without any secret: an API key is only
/// ever named by the environment variable that holds it.
#[derive(Debug, PartialEq, Eq)]
pub enum ConnectionConfigView {
    Anthropic {
        base_url: Option<String>,
        api_key_env: Option<String>,
        connect_timeout_secs: Option<u64>,
        stream_timeout_secs: Option<u64>,
        max_context_tokens: Option<u64>,
    },
    OpenAi {
        base_url: Option<String>,
        api_key_env: Option<String>,
        connect_timeout_secs: Option<u64>,
        stream_timeout_secs: Option<u64>,
        max_context_tokens: Option<u64>,
    },
    OpenRouter {
        base_url: Option<String>,
        api_key_env: Option<String>,
        connect_timeout_secs: Option<u64>,
        stream_timeout_secs: Option<u64>,
        max_context_tokens: Option<u64>,
    },
    Azure {
        base_url: Option<String>,
        api_key_env: Option<String>,
        api_surface: Option<String>,
        auth_mode: Option<String>,
        api_version: Option<String>,
        connect_timeout_secs: Option<u64>,
        stream_timeout_secs: Option<u64>,
        max_context_tokens: Option<u64>,
    },
    Google {
        base_url: Option<String>,
        api_key_env: Option<String>,
        project: Option<String>,
        location: Option<String>,
        auth_mode: Option<String>,
        credentials_path: Option<String>,
        connect_timeout_secs: Option<u64>,
        stream_timeout_secs: Option<u64>,
        max_context_tokens: Option<u64>,
    },
    Bedrock {
        aws_profile: Option<String>,
        region: Option<String>,
        base_url: Option<String>,
        connect_timeout_secs: Option<u64>,
        stream_timeout_secs: Option<u64>,
        max_context_tokens: Option<u64>,
    },
    Ollama {
        base_url: Option<String>,
        connect_timeout_secs: Option<u64>,
        stream_timeout_secs: Option<u64>,
        keep_warm: Option<bool>,
        max_context_tokens: Option<u64>,
    },
}

impl Clone for ConnectionConfigView {
    fn clone(&self) -> (r: Self)
        ensures
            r == *self,
    {
        match self {
            ConnectionConfigView::Anthropic {
                base_url,
                api_key_env,
                connect_timeout_secs,
                stream_timeout_secs,
                max_context_tokens,
            } => ConnectionConfigView::Anthropic {
                base_url: base_url.clone(),
                api_key_env: api_key_env.clone(),
                connect_timeout_secs: *connect_timeout_secs,
                stream_timeout_secs: *stream_timeout_secs,
                max_context_tokens: *max_context_tokens,
            },
            ConnectionConfigView::OpenAi {
                base_url,
                api_key_env,
                connect_timeout_secs,
                stream_timeout_secs,
                max_context_tokens,
            } => ConnectionConfigView::OpenAi {
                base_url: base_url.clone(),
                api_key_env: api_key_env.clone(),
                connect_timeout_secs: *connect_timeout_secs,
                stream_timeout_secs: *stream_timeout_secs,
                max_context_tokens: *max_context_tokens,
            },
            ConnectionConfigView::OpenRouter {
                base_url,
                api_key_env,
                connect_timeout_secs,
                stream_timeout_secs,
                max_context_tokens,
            } => ConnectionConfigView::OpenRouter {
                base_url: base_url.clone(),
                api_key_env: api_key_env.clone(),
                connect_timeout_secs: *connect_timeout_secs,
                stream_timeout_secs: *stream_timeout_secs,
                max_context_tokens: *max_context_tokens,
            },
            ConnectionConfigView::Azure {
                base_url,
                api_key_env,
                api_surface,
                auth_mode,
                api_version,
                connect_timeout_secs,
                stream_timeout_secs,
                max_context_tokens,
            } => ConnectionConfigView::Azure {
                base_url: base_url.clone(),
                api_key_env: api_key_env.clone(),
                api_surface: api_surface.clone(),
                auth_mode: auth_mode.clone(),
                api_version: api_version.clone(),
                connect_timeout_secs: *connect_timeout_secs,
                stream_timeout_secs: *stream_timeout_secs,
                max_context_tokens: *max_context_tokens,
            },
            ConnectionConfigView::Google {
                base_url,
                api_key_env,
                project,
                location,
                auth_mode,
                credentials_path,
                connect_timeout_secs,
                stream_timeout_secs,
                max_context_tokens,
            } => ConnectionConfigView::Google {
                base_url: base_url.clone(),
                api_key_env: api_key_env.clone(),
                project: project.clone(),
                location: location.clone(),
                auth_mode: auth_mode.clone(),
                credentials_path: credentials_path.clone(),
                connect_timeout_secs: *connect_timeout_secs,
                stream_timeout_secs: *stream_timeout_secs,
                max_context_tokens: *max_context_tokens,
            },
            ConnectionConfigView::Bedrock {
                aws_profile,
                region,
                base_url,
                connect_timeout_secs,
                stream_timeout_secs,
                max_context_tokens,
            } => ConnectionConfigView::Bedrock {
                aws_profile: aws_profile.clone(),
                region: region.clone(),
                base_url: base_url.clone(),
                connect_timeout_secs: *connect_timeout_secs,
                stream_timeout_secs: *stream_timeout_secs,
                max_context_tokens: *max_context_tokens,
            },
            ConnectionConfigView::Ollama {
                base_url,
                connect_timeout_secs,
                stream_timeout_secs,
                keep_warm,
                max_context_tokens,
            } => ConnectionConfigView::Ollama {
                base_url: base_url.clone(),
                connect_timeout_secs: *connect_timeout_secs,
                stream_timeout_secs: *stream_timeout_secs,
                keep_warm: *keep_warm,
                max_context_tokens: *max_context_tokens,
            },
        }
    }
}

/// A configured connection to a model provider.
#[derive(Debug, PartialEq, Eq)]
pub struct ConnectionView {
    pub id: String,
    pub connector_type: String,
    /// The stored configuration, where the daemon echoes it.
    pub config: Option<ConnectionConfigView>,
}

/// What a model can do.
#[derive(Debug, Clone, Copy, PartialEq, Eq, Structural)]
pub struct ModelCapabilitiesView {
    /// It produces embeddings, not text.
    pub embedding: bool,
}

impl Default for ModelCapabilitiesView {
    fn default() -> (r: Self)
        ensures
            !r.embedding,
    {
        ModelCapabilitiesView { embedding: false }
    }
}

/// A model that a connection offers.
#[derive(Debug, PartialEq, Eq)]
pub struct ModelInfoView {
    pub id: String,
    pub display_name: String,
    pub capabilities: ModelCapabilitiesView,
}

impl Clone for ModelInfoView {
    fn clone(&self) -> (r: Self)
        ensures
            r == *self,
    {
        ModelInfoView {
            id: self.id.clone(),
            display_name: self.display_name.clone(),
            capabilities: self.capabilities,
        }
    }
}

/// A model together with the connection that offers it.
#[derive(Debug, PartialEq, Eq)]
pub struct ModelListing {
    pub connection_id: String,
    pub connection_label: String,
    pub model: ModelInfoView,
}

impl Clone for ModelListing {
    fn clone(&self) -> (r: Self)
        ensures
            r == *self,
    {
        ModelListing {
            connection_id: self.connection_id.clone(),
            connection_label: self.connection_label.clone(),
            model: self.model.clone(),
        }
    }
}

/// What a model is used for.
#[derive(Debug, Clone, Copy, PartialEq, Eq, Structural)]
pub enum PurposeKindApi {
    Interactive,
    Dreaming,
    Consolidation,
    Embedding,
    Titling,
    Voice,
}

impl PurposeKindApi {
    /// Every purpose, in the order the list shows them.
    pub fn all() -> (r: [PurposeKindApi; 6])
        ensures
            r@ == seq![
                PurposeKindApi::Interactive,
                PurposeKindApi::Dreaming,
                PurposeKindApi::Consolidation,
                PurposeKindApi::Embedding,
                PurposeKindApi::Titling,
                PurposeKindApi::Voice,
            ],
    {
        let r = [
            PurposeKindApi::Interactive,
            PurposeKindApi::Dreaming,
            PurposeKindApi::Consolidation,
            PurposeKindApi::Embedding,
            PurposeKindApi::Titling,
            PurposeKindApi::Voice,
        ];
        assert(r@ =~= seq![
            PurposeKindApi::Interactive,
            PurposeKindApi::Dreaming,
            PurposeKindApi::Consolidation,
            PurposeKindApi::Embedding,
            PurposeKindApi::Titling,
            PurposeKindApi::Voice,
        ]);
        r
    }
}

/// How hard a model is asked to think.
#[derive(Debug, Clone, Copy, PartialEq, Eq, Structural)]
pub enum EffortLevel {
    Low,
    Medium,
    High,
}

/// The connection and model that a purpose is bound to.
#[derive(Debug, PartialEq, Eq)]
pub struct PurposeConfigView {
    pub connection: String,
    pub model: String,
    pub effort: Option<EffortLevel>,
    pub max_context_tokens: Option<u64>,
}

/// A `PurposeConfigView` with its texts as sequences of characters.
pub struct PurposeConfigText {
    pub connection: Seq<char>,
    pub model: Seq<char>,
    pub effort: Option<EffortLevel>,
    pub max_context_tokens: Option<u64>,
}

impl View for PurposeConfigView {
    type V = PurposeConfigText;

    open spec fn view(&self) -> PurposeConfigText {
        PurposeConfigText {
            connection: self.connection@,
            model: self.model@,
            effort: self.effort,
            max_context_tokens: self.max_context_tokens,
        }
    }
}

/// Every purpose's binding, where it has one.
#[derive(Debug, PartialEq, Eq)]
pub struct PurposesView {
    pub interactive: Option<PurposeConfigView>,
    pub dreaming: Option<PurposeConfigView>,
    pub consolidation: Option<PurposeConfigView>,
    pub embedding: Option<PurposeConfigView>,
    pub titling: Option<PurposeConfigView>,
    pub voice: Option<PurposeConfigView>,
}

impl Default for PurposesView {
    fn default() -> (r: Self)
        ensures
            r.interactive is None,
            r.dreaming is None,
            r.consolidation is None,
            r.embedding is None,
            r.titling is None,
            r.voice is None,
    {
        PurposesView {
            interactive: None,
            dreaming: None,
            consolidation: None,
            embedding: None,
            titling: None,
            voice: None,
        }
    }
}

/// A background task's id.
#[derive(Debug, PartialEq, Eq)]
pub struct TaskId(pub String);

/// What a background task does.
#[derive(Debug, PartialEq, Eq)]
pub enum TaskKind {
    /// A turn of a conversation.
    Conversation { conversation_id: String },
    /// An agent that another task started.
    Subagent { parent_task_id: TaskId, conversation_id: String, name: String },
    /// An agent that runs on its own.
    Standalone { name: String, conversation_id: String },
    /// A maintenance pass, not tied to a conversation.
    Maintenance,
}

/// How a background task is doing.
#[derive(Debug, Clone, Copy, PartialEq, Eq, Structural)]
pub enum TaskStatus {
    Pending,
    Running,
    Completed,
    Failed,
    Cancelled,
}

/// A background task. Times are milliseconds of the epoch.
#[derive(Debug, PartialEq, Eq)]
pub struct TaskView {
    pub id: TaskId,
    pub kind: TaskKind,
    pub status: TaskStatus,
    pub started_at: i64,
    pub ended_at: Option<i64>,
    pub title: String,
    pub progress_hint: Option<String>,
}

/// How serious a log entry is.
#[derive(Debug, Clone, Copy, PartialEq, Eq, Structural)]
pub enum LogLevel {
    Info,
    Warn,
    Error,
}

/// What a log entry is about.
#[derive(Debug, Clone, Copy, PartialEq, Eq, Structural)]
pub enum LogCategory {
    ModelTurn,
    ToolCall,
    ToolResult,
    Status,
    Lifecycle,
}

/// An entry of a task's log.
#[derive(Debug, PartialEq, Eq)]
pub struct TaskLogEntry {
    pub seq: u64,
    pub level: LogLevel,
    pub category: LogCategory,
    pub message: String,
}

/// A note on a conversation's scratchpad.
#[derive(Debug, PartialEq, Eq)]
pub struct ScratchpadNoteView {
    pub key: String,
    pub content: String,
    pub note_type: String,
    pub sequence: Option<i32>,
    pub done: bool,
}

impl Clone for ScratchpadNoteView {
    fn clone(&self) -> (r: Self)
        ensures
            r == *self,
    {
        ScratchpadNoteView {
            key: self.key.clone(),
            content: self.content.clone(),
            note_type: self.note_type.clone(),
            sequence: self.sequence,
            done: self.done,
        }
    }
}

/// What the voice pipeline is doing.
#[derive(Debug, Clone, Copy, PartialEq, Eq, Structural)]
pub enum VoiceState {
    Idle,
    Listening,
    Processing,
    Speaking,
}

/// When replies of a conversation are read aloud.
#[derive(Debug, Clone, Copy, PartialEq, Eq, Structural)]
pub enum AdeleOutput {
    Disabled,
    OnDemand,
    Always,
}

/// How strongly a trait shows.
#[derive(Debug, Clone, Copy, PartialEq, Eq, Structural)]
pub enum PersonalityLevel {
    Never,
    Rarely,
    Sometimes,
    Often,
    Always,
}

/// A conversation's personality: each trait a level, or the global setting.
#[derive(Debug, Clone, Copy, PartialEq, Eq)]
pub struct ConversationPersonalityView {
    pub professionalism: Option<PersonalityLevel>,
    pub warmth: Option<PersonalityLevel>,
    pub directness: Option<PersonalityLevel>,
    pub enthusiasm: Option<PersonalityLevel>,
    pub humor: Option<PersonalityLevel>,
    pub sarcasm: Option<PersonalityLevel>,
    pub pretentiousness: Option<PersonalityLevel>,
}

impl Default for ConversationPersonalityView {
    fn default() -> (r: Self)
        ensures
            r.professionalism is None,
            r.warmth is None,
            r.directness is None,
            r.enthusiasm is None,
            r.humor is None,
            r.sarcasm is None,
            r.pretentiousness is None,
    {
        ConversationPersonalityView {
            professionalism: None,
            warmth: None,
            directness: None,
            enthusiasm: None,
            humor: None,
            sarcasm: None,
            pretentiousness: None,
        }
    }
}

/// A voice that can be spoken with.
#[derive(Debug, PartialEq, Eq)]
pub struct VoiceInfo {
    pub id: String,
    pub display_name: String,
    pub language: String,
    pub num_speakers: u32,
}

/// How a message came to be shown.
#[derive(Debug, Clone, Copy, PartialEq, Eq, Structural)]
pub enum MessageKind {
    Normal,
    /// A line that was spoken aloud.
    Spoken,
    /// A line that would have been spoken, shown instead.
    SpeechDisabled,
}

/// A stored message of a conversation.
#[derive(Debug, PartialEq, Eq)]
pub struct ChatMessage {
    pub role: String,
    pub content: String,
    pub kind: MessageKind,
    /// The identity of the turn that the message opened, where one is stored.
    pub idempotency_key: Option<String>,
}

/// A conversation with its messages.
#[derive(Debug, PartialEq, Eq)]
pub struct ConversationDetail {
    pub messages: Vec<ChatMessage>,
}

/// A conversation as the sidebar lists it.
#[derive(Debug, PartialEq, Eq)]
pub struct ConversationSummary {
    pub id: String,
    pub title: String,
    pub message_count: u32,
    pub archived: bool,
}

/// A connection's model, as the user picks it.
#[derive(Debug, PartialEq, Eq)]
pub struct SelectedModel {
    pub connection_id: String,
    pub model_id: String,
}

impl Clone for SelectedModel {
    fn clone(&self) -> (r: Self)
        ensures
            r == *self,
    {
        SelectedModel {
            connection_id: self.connection_id.clone(),
            model_id: self.model_id.clone(),
        }
    }
}

/// The model that a conversation is stored with.
#[derive(Debug, PartialEq, Eq)]
pub struct ConversationModelSelectionView {
    pub connection_id: String,
    pub model_id: String,
}

/// The model that a message is sent with, in place of the daemon's choice.
#[derive(Debug, PartialEq, Eq)]
pub struct SendPromptOverride {
    pub connection_id: String,
    pub model_id: String,
    pub effort: Option<EffortLevel>,
}

/// Every purpose is listed, once, and the interactive one first.
pub proof fn law_every_purpose_is_listed_once(purpose: PurposeKindApi, r: [PurposeKindApi; 6])
    requires
        call_ensures(PurposeKindApi::all, (), r),
    ensures
        r@.contains(purpose),
        r@.len() == 6 && r@[0] is Interactive,
        forall|i: int, j: int| 0 <= i < j < r@.len() ==> #[trigger] r@[i] != #[trigger] r@[j],
{
    assert(r@[0] is Interactive && r@[1] is Dreaming && r@[2] is Consolidation);
    assert(r@[3] is Embedding && r@[4] is Titling && r@[5] is Voice);
    match purpose {
        PurposeKindApi::Interactive => assert(r@[0] == purpose),
        PurposeKindApi::Dreaming => assert(r@[1] == purpose),
        PurposeKindApi::Consolidation => assert(r@[2] == purpose),
        PurposeKindApi::Embedding => assert(r@[3] == purpose),
        PurposeKindApi::Titling => assert(r@[4] == purpose),
        PurposeKindApi::Voice => assert(r@[5] == purpose),
    }
}

/// What nothing was said of is unset: no binding, no trait, no server that is on, and no
/// model that only embeds.
pub proof fn law_defaults_set_nothing(
    server: McpServerView,
    purposes: PurposesView,
    personality: ConversationPersonalityView,
    capabilities: ModelCapabilitiesView,
)
    requires
        call_ensures(McpServerView::default, (), server),
        call_ensures(PurposesView::default, (), purposes),
        call_ensures(ConversationPersonalityView::default, (), personality),
        call_ensures(ModelCapabilitiesView::default, (), capabilities),
    ensures
        !server.enabled && server.name@.len() == 0 && server.command@.len() == 0,
        server.args@.len() == 0 && server.namespace is None && server.target@.len() == 0,
        server.auth_kind is None && server.oauth_account_ref is None,
        server.configure_label is None && server.configure_command@.len() == 0,
        purposes.interactive is None && purposes.dreaming is None,
        purposes.consolidation is None && purposes.embedding is None,
        purposes.titling is None && purposes.voice is None,
        personality.professionalism is None && personality.warmth is None,
        personality.directness is None && personality.enthusiasm is None,
        personality.humor is None && personality.sarcasm is None,
        personality.pretentiousness is None,
        !capabilities.embedding,
{
}

} // verus!
