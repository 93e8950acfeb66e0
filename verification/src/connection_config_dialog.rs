//! The per-connector-type configure dialog.
//!
//! Each connector variant has its own field set (API-key connectors name the
//! environment variable that holds the key and a base URL; Bedrock uses an AWS
//! profile and region and has a "Refresh models" escape hatch; Ollama is just a
//! base URL). The dialog produces an id and a configuration that the caller
//! submits.
//!
//! Credentials: the configuration carries only the name of the environment
//! variable that holds the API key. Storing the actual secret is out of scope.

use crate::api::ConnectionConfigView;
use crate::text::{
    all_slug_chars, filled_text, is_slug, is_slug_char, lemma_trimmed_of_clean, opt, opt_text, same_text, text_or_empty,
    trim, trimmed,
};
use vstd::prelude::*;

verus! {

/// Which connector type the dialog is configuring.
#[derive(Debug, Clone, Copy, PartialEq, Eq, Structural)]
pub enum ConnectorType {
    Anthropic,
    OpenAi,
    OpenRouter,
    Azure,
    Google,
    Bedrock,
    Ollama,
}

/// A form field of the dialog.
#[derive(Debug, Clone, Copy, PartialEq, Eq, Structural)]
pub enum Field {
    BaseUrl,
    ApiKeyEnv,
    ApiSurface,
    AuthMode,
    ApiVersion,
    Project,
    Location,
    CredentialsPath,
    AwsProfile,
    Region,
}

impl Field {
    /// The name that the field's text goes by.
    pub open spec fn key(self) -> Seq<char> {
        match self {
            Field::BaseUrl => "base_url"@,
            Field::ApiKeyEnv => "api_key_env"@,
            Field::ApiSurface => "api_surface"@,
            Field::AuthMode => "auth_mode"@,
            Field::ApiVersion => "api_version"@,
            Field::Project => "project"@,
            Field::Location => "location"@,
            Field::CredentialsPath => "credentials_path"@,
            Field::AwsProfile => "aws_profile"@,
            Field::Region => "region"@,
        }
    }
}

impl ConnectorType {
    /// The connector's display name.
    pub open spec fn name(self) -> Seq<char> {
        match self {
            ConnectorType::Anthropic => "Anthropic"@,
            ConnectorType::OpenAi => "OpenAI"@,
            ConnectorType::OpenRouter => "OpenRouter"@,
            ConnectorType::Azure => "Azure"@,
            ConnectorType::Google => "Google"@,
            ConnectorType::Bedrock => "Bedrock"@,
            ConnectorType::Ollama => "Ollama"@,
        }
    }

    /// The connector's short name on the wire.
    pub open spec fn wire_name(self) -> Seq<char> {
        match self {
            ConnectorType::Anthropic => "anthropic"@,
            ConnectorType::OpenAi => "openai"@,
            ConnectorType::OpenRouter => "openrouter"@,
            ConnectorType::Azure => "azure"@,
            ConnectorType::Google => "google"@,
            ConnectorType::Bedrock => "bedrock"@,
            ConnectorType::Ollama => "ollama"@,
        }
    }

    /// The fields of the connector's form, from top to bottom.
    pub open spec fn fields(self) -> Seq<Field> {
        match self {
            ConnectorType::Anthropic => seq![Field::BaseUrl, Field::ApiKeyEnv],
            ConnectorType::OpenAi => seq![Field::BaseUrl, Field::ApiKeyEnv],
            ConnectorType::OpenRouter => seq![Field::BaseUrl, Field::ApiKeyEnv],
            ConnectorType::Azure => seq![Field::BaseUrl, Field::ApiKeyEnv, Field::ApiSurface, Field::AuthMode, Field::ApiVersion],
            ConnectorType::Google => seq![Field::BaseUrl, Field::ApiKeyEnv, Field::Project, Field::Location, Field::AuthMode, Field::CredentialsPath],
            ConnectorType::Bedrock => seq![Field::AwsProfile, Field::Region, Field::BaseUrl],
            ConnectorType::Ollama => seq![Field::BaseUrl],
        }
    }

    /// The label over a field.
    pub open spec fn field_label(self, field: Field) -> Seq<char> {
        match (self, field) {
            (ConnectorType::Anthropic, Field::BaseUrl) => "Base URL (optional override)"@,
            (ConnectorType::Anthropic, Field::ApiKeyEnv) => "API key env var (e.g. ANTHROPIC_API_KEY)"@,
            (ConnectorType::OpenAi, Field::BaseUrl) => "Base URL (for OpenAI-compatible providers)"@,
            (ConnectorType::OpenAi, Field::ApiKeyEnv) => "API key env var (e.g. OPENAI_API_KEY)"@,
            (ConnectorType::OpenRouter, Field::BaseUrl) => "Base URL (optional override)"@,
            (ConnectorType::OpenRouter, Field::ApiKeyEnv) => "API key env var (e.g. OPENROUTER_API_KEY)"@,
            (ConnectorType::Azure, Field::BaseUrl) => "Resource endpoint (base URL)"@,
            (ConnectorType::Azure, Field::ApiKeyEnv) => "API key env var (e.g. AZURE_OPENAI_API_KEY)"@,
            (ConnectorType::Azure, Field::ApiSurface) => "API surface (v1 or classic)"@,
            (ConnectorType::Azure, Field::AuthMode) => "Auth mode (api_key or entra)"@,
            (ConnectorType::Azure, Field::ApiVersion) => "API version (classic surface only)"@,
            (ConnectorType::Google, Field::BaseUrl) => "Base URL (optional override)"@,
            (ConnectorType::Google, Field::ApiKeyEnv) => "API key env var (e.g. GOOGLE_API_KEY)"@,
            (ConnectorType::Google, Field::Project) => "GCP project"@,
            (ConnectorType::Google, Field::Location) => "Location / region"@,
            (ConnectorType::Google, Field::AuthMode) => "Auth mode (vertex or api_key)"@,
            (ConnectorType::Google, Field::CredentialsPath) => "Service-account credentials path (Vertex)"@,
            (ConnectorType::Bedrock, Field::AwsProfile) => "AWS profile (optional)"@,
            (ConnectorType::Bedrock, Field::Region) => "Region"@,
            (ConnectorType::Bedrock, Field::BaseUrl) => "Base URL override (optional)"@,
            (ConnectorType::Ollama, Field::BaseUrl) => "Base URL"@,
            _ => Seq::empty(),
        }
    }

    /// The hint inside an empty field.
    pub open spec fn field_placeholder(self, field: Field) -> Option<Seq<char>> {
        match (self, field) {
            (ConnectorType::Anthropic, Field::BaseUrl) => Some("https://api.anthropic.com"@),
            (ConnectorType::Anthropic, Field::ApiKeyEnv) => Some("ANTHROPIC_API_KEY"@),
            (ConnectorType::OpenAi, Field::BaseUrl) => Some("https://api.openai.com/v1"@),
            (ConnectorType::OpenAi, Field::ApiKeyEnv) => Some("OPENAI_API_KEY"@),
            (ConnectorType::OpenRouter, Field::BaseUrl) => Some("https://openrouter.ai/api/v1"@),
            (ConnectorType::OpenRouter, Field::ApiKeyEnv) => Some("OPENROUTER_API_KEY"@),
            (ConnectorType::Azure, Field::BaseUrl) => Some("https://<name>.openai.azure.com"@),
            (ConnectorType::Azure, Field::ApiKeyEnv) => Some("AZURE_OPENAI_API_KEY"@),
            (ConnectorType::Azure, Field::ApiSurface) => Some("v1 (default) or classic"@),
            (ConnectorType::Azure, Field::AuthMode) => Some("api_key (default) or entra"@),
            (ConnectorType::Azure, Field::ApiVersion) => Some("e.g. 2024-10-21"@),
            (ConnectorType::Google, Field::BaseUrl) => Some("usually blank"@),
            (ConnectorType::Google, Field::ApiKeyEnv) => Some("GOOGLE_API_KEY"@),
            (ConnectorType::Google, Field::Project) => Some("my-gcp-project"@),
            (ConnectorType::Google, Field::Location) => Some("us-central1"@),
            (ConnectorType::Google, Field::AuthMode) => Some("vertex (default) or api_key"@),
            (ConnectorType::Google, Field::CredentialsPath) => Some("/path/to/service-account.json"@),
            (ConnectorType::Bedrock, Field::AwsProfile) => Some("default"@),
            (ConnectorType::Bedrock, Field::Region) => Some("us-west-2"@),
            (ConnectorType::Ollama, Field::BaseUrl) => Some("http://localhost:11434"@),
            _ => None,
        }
    }

    /// The connector's display name.
    pub fn label(self) -> (r: &'static str)
        ensures
            r@ == self.name(),
    {
        match self {
            ConnectorType::Anthropic => "Anthropic",
            ConnectorType::OpenAi => "OpenAI",
            ConnectorType::OpenRouter => "OpenRouter",
            ConnectorType::Azure => "Azure",
            ConnectorType::Google => "Google",
            ConnectorType::Bedrock => "Bedrock",
            ConnectorType::Ollama => "Ollama",
        }
    }

    /// The connector's short name on the wire.
    pub fn slug(self) -> (r: &'static str)
        ensures
            r@ == self.wire_name(),
    {
        match self {
            ConnectorType::Anthropic => "anthropic",
            ConnectorType::OpenAi => "openai",
            ConnectorType::OpenRouter => "openrouter",
            ConnectorType::Azure => "azure",
            ConnectorType::Google => "google",
            ConnectorType::Bedrock => "bedrock",
            ConnectorType::Ollama => "ollama",
        }
    }

    /// The connector of that short name. Inverse of [`Self::slug`].
    pub fn from_slug(s: &str) -> (r: Option<Self>)
        ensures
            r is Some ==> r->0.wire_name() == s@,
            r is None ==> forall|c: ConnectorType| #[trigger] c.wire_name() != s@,
    {
        if same_text(s, "anthropic") {
            Some(ConnectorType::Anthropic)
        } else if same_text(s, "openai") {
            Some(ConnectorType::OpenAi)
        } else if same_text(s, "openrouter") {
            Some(ConnectorType::OpenRouter)
        } else if same_text(s, "azure") {
            Some(ConnectorType::Azure)
        } else if same_text(s, "google") {
            Some(ConnectorType::Google)
        } else if same_text(s, "bedrock") {
            Some(ConnectorType::Bedrock)
        } else if same_text(s, "ollama") {
            Some(ConnectorType::Ollama)
        } else {
            None
        }
    }

    /// A configuration of this connector with nothing in it.
    pub fn empty_config(self) -> (r: ConnectionConfigView)
        ensures
            connector_of(r) == self,
            forall|field: Field| #[trigger] config_field(r, field) is None,
            preserved_of(r) == no_preserved(),
    {
        match self {
            ConnectorType::Anthropic => ConnectionConfigView::Anthropic {
                base_url: None,
                api_key_env: None,
                connect_timeout_secs: None,
                stream_timeout_secs: None,
                max_context_tokens: None,
            },
            ConnectorType::OpenAi => ConnectionConfigView::OpenAi {
                base_url: None,
                api_key_env: None,
                connect_timeout_secs: None,
                stream_timeout_secs: None,
                max_context_tokens: None,
            },
            ConnectorType::OpenRouter => ConnectionConfigView::OpenRouter {
                base_url: None,
                api_key_env: None,
                connect_timeout_secs: None,
                stream_timeout_secs: None,
                max_context_tokens: None,
            },
            ConnectorType::Azure => ConnectionConfigView::Azure {
                base_url: None,
                api_key_env: None,
                api_surface: None,
                auth_mode: None,
                api_version: None,
                connect_timeout_secs: None,
                stream_timeout_secs: None,
                max_context_tokens: None,
            },
            ConnectorType::Google => ConnectionConfigView::Google {
                base_url: None,
                api_key_env: None,
                project: None,
                location: None,
                auth_mode: None,
                credentials_path: None,
                connect_timeout_secs: None,
                stream_timeout_secs: None,
                max_context_tokens: None,
            },
            ConnectorType::Bedrock => ConnectionConfigView::Bedrock {
                aws_profile: None,
                region: None,
                base_url: None,
                connect_timeout_secs: None,
                stream_timeout_secs: None,
                max_context_tokens: None,
            },
            ConnectorType::Ollama => ConnectionConfigView::Ollama {
                base_url: None,
                connect_timeout_secs: None,
                stream_timeout_secs: None,
                keep_warm: None,
                max_context_tokens: None,
            },
        }
    }
}

/// The connector that a configuration is for.
pub open spec fn connector_of(config: ConnectionConfigView) -> ConnectorType {
    match config {
        ConnectionConfigView::Anthropic { .. } => ConnectorType::Anthropic,
        ConnectionConfigView::OpenAi { .. } => ConnectorType::OpenAi,
        ConnectionConfigView::OpenRouter { .. } => ConnectorType::OpenRouter,
        ConnectionConfigView::Azure { .. } => ConnectorType::Azure,
        ConnectionConfigView::Google { .. } => ConnectorType::Google,
        ConnectionConfigView::Bedrock { .. } => ConnectorType::Bedrock,
        ConnectionConfigView::Ollama { .. } => ConnectorType::Ollama,
    }
}

/// What a configuration holds for a field.
pub open spec fn config_field(config: ConnectionConfigView, field: Field) -> Option<Seq<char>> {
    match config {
        ConnectionConfigView::Anthropic { base_url, api_key_env, .. } => match field {
            Field::BaseUrl => opt_text(base_url),
            Field::ApiKeyEnv => opt_text(api_key_env),
            _ => None,
        },
        ConnectionConfigView::OpenAi { base_url, api_key_env, .. } => match field {
            Field::BaseUrl => opt_text(base_url),
            Field::ApiKeyEnv => opt_text(api_key_env),
            _ => None,
        },
        ConnectionConfigView::OpenRouter { base_url, api_key_env, .. } => match field {
            Field::BaseUrl => opt_text(base_url),
            Field::ApiKeyEnv => opt_text(api_key_env),
            _ => None,
        },
        ConnectionConfigView::Azure { base_url, api_key_env, api_surface, auth_mode, api_version, .. } => match field {
            Field::BaseUrl => opt_text(base_url),
            Field::ApiKeyEnv => opt_text(api_key_env),
            Field::ApiSurface => opt_text(api_surface),
            Field::AuthMode => opt_text(auth_mode),
            Field::ApiVersion => opt_text(api_version),
            _ => None,
        },
        ConnectionConfigView::Google { base_url, api_key_env, project, location, auth_mode, credentials_path, .. } => match field {
            Field::BaseUrl => opt_text(base_url),
            Field::ApiKeyEnv => opt_text(api_key_env),
            Field::Project => opt_text(project),
            Field::Location => opt_text(location),
            Field::AuthMode => opt_text(auth_mode),
            Field::CredentialsPath => opt_text(credentials_path),
            _ => None,
        },
        ConnectionConfigView::Bedrock { aws_profile, region, base_url, .. } => match field {
            Field::AwsProfile => opt_text(aws_profile),
            Field::Region => opt_text(region),
            Field::BaseUrl => opt_text(base_url),
            _ => None,
        },
        ConnectionConfigView::Ollama { base_url, .. } => match field {
            Field::BaseUrl => opt_text(base_url),
            _ => None,
        },
    }
}

/// Configuration fields the dialog does not surface as form inputs (timeouts, the
/// context ceiling, and Ollama's keep-warm flag). They are carried through an
/// edit round-trip so saving the dialog preserves whatever the daemon had stored
/// instead of silently resetting them. `keep_warm` is Ollama-only and `None` for
/// every other variant; no configuration (the create path) yields all `None`.
#[derive(Debug, Clone, Copy, PartialEq, Eq)]
pub struct PreservedFields {
    pub connect_timeout_secs: Option<u64>,
    pub stream_timeout_secs: Option<u64>,
    pub max_context_tokens: Option<u64>,
    pub keep_warm: Option<bool>,
}

/// Nothing to preserve.
pub open spec fn no_preserved() -> PreservedFields {
    PreservedFields {
        connect_timeout_secs: None,
        stream_timeout_secs: None,
        max_context_tokens: None,
        keep_warm: None,
    }
}

/// What a configuration holds beside the form's fields.
pub open spec fn preserved_of(config: ConnectionConfigView) -> PreservedFields {
    match config {
        ConnectionConfigView::Anthropic { connect_timeout_secs, stream_timeout_secs, max_context_tokens, .. } => PreservedFields {
            connect_timeout_secs,
            stream_timeout_secs,
            max_context_tokens,
            keep_warm: None,
        },
        ConnectionConfigView::OpenAi { connect_timeout_secs, stream_timeout_secs, max_context_tokens, .. } => PreservedFields {
            connect_timeout_secs,
            stream_timeout_secs,
            max_context_tokens,
            keep_warm: None,
        },
        ConnectionConfigView::OpenRouter { connect_timeout_secs, stream_timeout_secs, max_context_tokens, .. } => PreservedFields {
            connect_timeout_secs,
            stream_timeout_secs,
            max_context_tokens,
            keep_warm: None,
        },
        ConnectionConfigView::Azure { connect_timeout_secs, stream_timeout_secs, max_context_tokens, .. } => PreservedFields {
            connect_timeout_secs,
            stream_timeout_secs,
            max_context_tokens,
            keep_warm: None,
        },
        ConnectionConfigView::Google { connect_timeout_secs, stream_timeout_secs, max_context_tokens, .. } => PreservedFields {
            connect_timeout_secs,
            stream_timeout_secs,
            max_context_tokens,
            keep_warm: None,
        },
        ConnectionConfigView::Bedrock { connect_timeout_secs, stream_timeout_secs, max_context_tokens, .. } => PreservedFields {
            connect_timeout_secs,
            stream_timeout_secs,
            max_context_tokens,
            keep_warm: None,
        },
        ConnectionConfigView::Ollama { connect_timeout_secs, stream_timeout_secs, max_context_tokens, keep_warm, .. } => PreservedFields {
            connect_timeout_secs,
            stream_timeout_secs,
            max_context_tokens,
            keep_warm,
        },
    }
}

impl Default for PreservedFields {
    fn default() -> (r: Self)
        ensures
            r == no_preserved(),
    {
        PreservedFields {
            connect_timeout_secs: None,
            stream_timeout_secs: None,
            max_context_tokens: None,
            keep_warm: None,
        }
    }
}

impl PreservedFields {
    /// The fields to carry through an edit of `config`.
    pub fn from_config(config: Option<&ConnectionConfigView>) -> (r: Self)
        ensures
            r == (match config {
                Some(config) => preserved_of(*config),
                None => no_preserved(),
            }),
    {
        match config {
            Some(config) => match config {
                ConnectionConfigView::Anthropic { connect_timeout_secs, stream_timeout_secs, max_context_tokens, .. } => PreservedFields {
                    connect_timeout_secs: *connect_timeout_secs,
                    stream_timeout_secs: *stream_timeout_secs,
                    max_context_tokens: *max_context_tokens,
                    keep_warm: None,
                },
                ConnectionConfigView::OpenAi { connect_timeout_secs, stream_timeout_secs, max_context_tokens, .. } => PreservedFields {
                    connect_timeout_secs: *connect_timeout_secs,
                    stream_timeout_secs: *stream_timeout_secs,
                    max_context_tokens: *max_context_tokens,
                    keep_warm: None,
                },
                ConnectionConfigView::OpenRouter { connect_timeout_secs, stream_timeout_secs, max_context_tokens, .. } => PreservedFields {
                    connect_timeout_secs: *connect_timeout_secs,
                    stream_timeout_secs: *stream_timeout_secs,
                    max_context_tokens: *max_context_tokens,
                    keep_warm: None,
                },
                ConnectionConfigView::Azure { connect_timeout_secs, stream_timeout_secs, max_context_tokens, .. } => PreservedFields {
                    connect_timeout_secs: *connect_timeout_secs,
                    stream_timeout_secs: *stream_timeout_secs,
                    max_context_tokens: *max_context_tokens,
                    keep_warm: None,
                },
                ConnectionConfigView::Google { connect_timeout_secs, stream_timeout_secs, max_context_tokens, .. } => PreservedFields {
                    connect_timeout_secs: *connect_timeout_secs,
                    stream_timeout_secs: *stream_timeout_secs,
                    max_context_tokens: *max_context_tokens,
                    keep_warm: None,
                },
                ConnectionConfigView::Bedrock { connect_timeout_secs, stream_timeout_secs, max_context_tokens, .. } => PreservedFields {
                    connect_timeout_secs: *connect_timeout_secs,
                    stream_timeout_secs: *stream_timeout_secs,
                    max_context_tokens: *max_context_tokens,
                    keep_warm: None,
                },
                ConnectionConfigView::Ollama { connect_timeout_secs, stream_timeout_secs, max_context_tokens, keep_warm, .. } => PreservedFields {
                    connect_timeout_secs: *connect_timeout_secs,
                    stream_timeout_secs: *stream_timeout_secs,
                    max_context_tokens: *max_context_tokens,
                    keep_warm: *keep_warm,
                },
            },
            None => PreservedFields::default(),
        }
    }
}

/// What the form shows in a field on open: what the stored configuration holds
/// where it is one of this connector, and else nothing.
pub open spec fn echoed(
    connector: ConnectorType,
    config: Option<ConnectionConfigView>,
    field: Field,
) -> Option<Seq<char>> {
    match config {
        Some(config) => if connector_of(config) == connector {
            config_field(config, field)
        } else {
            None
        },
        None => None,
    }
}

/// Declarative description of one form field for a connector. `initial` holds
/// the value to pre-fill from the echoed configuration (always `None` for secret
/// fields: raw secrets are never round-tripped).
#[derive(Debug)]
pub struct FieldSpec {
    pub label: &'static str,
    pub name: &'static str,
    pub placeholder: Option<&'static str>,
    pub initial: Option<String>,
    pub secret: bool,
}

impl FieldSpec {
    /// The description is that of `field` in the connector's form.
    pub open spec fn describes(
        self,
        connector: ConnectorType,
        field: Field,
        config: Option<ConnectionConfigView>,
    ) -> bool {
        &&& self.label@ == connector.field_label(field)
        &&& self.name@ == field.key()
        &&& self.placeholder is Some <==> connector.field_placeholder(field) is Some
        &&& self.placeholder is Some ==> connector.field_placeholder(field) == Some(
            self.placeholder->0@,
        )
        &&& opt_text(self.initial) == echoed(connector, config, field)
        &&& !self.secret
    }
}

fn field_spec(
    label: &'static str,
    name: &'static str,
    placeholder: Option<&'static str>,
    initial: Option<String>,
) -> (r: FieldSpec)
    ensures
        r.label == label,
        r.name == name,
        r.placeholder == placeholder,
        r.initial == initial,
        !r.secret,
{
    FieldSpec { label, name, placeholder, initial, secret: false }
}

/// The configuration, unwrapped.
pub open spec fn owned(config: Option<&ConnectionConfigView>) -> Option<ConnectionConfigView> {
    match config {
        Some(config) => Some(*config),
        None => None,
    }
}

/// Compute the ordered field specs for `connector`, pre-filling `initial` from
/// the echoed non-secret `config` when its variant matches the connector. No
/// configuration (create path, or a daemon that omits it) or a mismatched
/// variant yields blank fields. No field carries a secret value.
pub fn field_specs(connector: ConnectorType, config: Option<&ConnectionConfigView>) -> (r: Vec<
    FieldSpec,
>)
    ensures
        r@.len() == connector.fields().len(),
        forall|i: int|
            0 <= i < r@.len() ==> (#[trigger] r@[i]).describes(
                connector,
                connector.fields()[i],
                owned(config),
            ),
{
    match connector {
        ConnectorType::Anthropic => {
            let (base_url, api_key_env) = match config {
                Some(ConnectionConfigView::Anthropic { base_url, api_key_env, .. }) => (
                    base_url.clone(),
                    api_key_env.clone(),
                ),
                _ => (None, None),
            };
            vec![
                field_spec("Base URL (optional override)", "base_url", Some("https://api.anthropic.com"), base_url),
                field_spec("API key env var (e.g. ANTHROPIC_API_KEY)", "api_key_env", Some("ANTHROPIC_API_KEY"), api_key_env),
            ]
        },
        ConnectorType::OpenAi => {
            let (base_url, api_key_env) = match config {
                Some(ConnectionConfigView::OpenAi { base_url, api_key_env, .. }) => (
                    base_url.clone(),
                    api_key_env.clone(),
                ),
                _ => (None, None),
            };
            vec![
                field_spec("Base URL (for OpenAI-compatible providers)", "base_url", Some("https://api.openai.com/v1"), base_url),
                field_spec("API key env var (e.g. OPENAI_API_KEY)", "api_key_env", Some("OPENAI_API_KEY"), api_key_env),
            ]
        },
        ConnectorType::OpenRouter => {
            let (base_url, api_key_env) = match config {
                Some(ConnectionConfigView::OpenRouter { base_url, api_key_env, .. }) => (
                    base_url.clone(),
                    api_key_env.clone(),
                ),
                _ => (None, None),
            };
            vec![
                field_spec("Base URL (optional override)", "base_url", Some("https://openrouter.ai/api/v1"), base_url),
                field_spec("API key env var (e.g. OPENROUTER_API_KEY)", "api_key_env", Some("OPENROUTER_API_KEY"), api_key_env),
            ]
        },
        ConnectorType::Azure => {
            let (base_url, api_key_env, api_surface, auth_mode, api_version) = match config {
                Some(ConnectionConfigView::Azure { base_url, api_key_env, api_surface, auth_mode, api_version, .. }) => (
                    base_url.clone(),
                    api_key_env.clone(),
                    api_surface.clone(),
                    auth_mode.clone(),
                    api_version.clone(),
                ),
                _ => (None, None, None, None, None),
            };
            vec![
                field_spec("Resource endpoint (base URL)", "base_url", Some("https://<name>.openai.azure.com"), base_url),
                field_spec("API key env var (e.g. AZURE_OPENAI_API_KEY)", "api_key_env", Some("AZURE_OPENAI_API_KEY"), api_key_env),
                field_spec("API surface (v1 or classic)", "api_surface", Some("v1 (default) or classic"), api_surface),
                field_spec("Auth mode (api_key or entra)", "auth_mode", Some("api_key (default) or entra"), auth_mode),
                field_spec("API version (classic surface only)", "api_version", Some("e.g. 2024-10-21"), api_version),
            ]
        },
        ConnectorType::Google => {
            let (base_url, api_key_env, project, location, auth_mode, credentials_path) = match config {
                Some(ConnectionConfigView::Google { base_url, api_key_env, project, location, auth_mode, credentials_path, .. }) => (
                    base_url.clone(),
                    api_key_env.clone(),
                    project.clone(),
                    location.clone(),
                    auth_mode.clone(),
                    credentials_path.clone(),
                ),
                _ => (None, None, None, None, None, None),
            };
            vec![
                field_spec("Base URL (optional override)", "base_url", Some("usually blank"), base_url),
                field_spec("API key env var (e.g. GOOGLE_API_KEY)", "api_key_env", Some("GOOGLE_API_KEY"), api_key_env),
                field_spec("GCP project", "project", Some("my-gcp-project"), project),
                field_spec("Location / region", "location", Some("us-central1"), location),
                field_spec("Auth mode (vertex or api_key)", "auth_mode", Some("vertex (default) or api_key"), auth_mode),
                field_spec("Service-account credentials path (Vertex)", "credentials_path", Some("/path/to/service-account.json"), credentials_path),
            ]
        },
        ConnectorType::Bedrock => {
            let (aws_profile, region, base_url) = match config {
                Some(ConnectionConfigView::Bedrock { aws_profile, region, base_url, .. }) => (
                    aws_profile.clone(),
                    region.clone(),
                    base_url.clone(),
                ),
                _ => (None, None, None),
            };
            vec![
                field_spec("AWS profile (optional)", "aws_profile", Some("default"), aws_profile),
                field_spec("Region", "region", Some("us-west-2"), region),
                field_spec("Base URL override (optional)", "base_url", None, base_url),
            ]
        },
        ConnectorType::Ollama => {
            let base_url = match config {
                Some(ConnectionConfigView::Ollama { base_url, .. }) => base_url.clone(),
                _ => None,
            };
            vec![
                field_spec("Base URL", "base_url", Some("http://localhost:11434"), base_url),
            ]
        },
    }
}

/// Trailing hint shown under the fields for connectors that read an API key from
/// a named environment variable.
pub fn connector_hint(connector: ConnectorType) -> (r: Option<&'static str>)
    ensures
        r is None <==> connector == ConnectorType::Bedrock || connector == ConnectorType::Ollama,
        connector == ConnectorType::Anthropic ==> r->0@
            == "The daemon reads the API key from the named env var. Set it in your daemon environment (systemd unit, shell, etc.)."@,
        connector == ConnectorType::OpenAi || connector == ConnectorType::OpenRouter || connector
            == ConnectorType::Azure || connector == ConnectorType::Google ==> r->0@
            == "The daemon reads the API key from the named env var (used in api-key auth modes). Set it in your daemon environment."@,
{
    match connector {
        ConnectorType::Anthropic => Some(
            "The daemon reads the API key from the named env var. Set it in your daemon environment (systemd unit, shell, etc.).",
        ),
        ConnectorType::OpenAi | ConnectorType::OpenRouter | ConnectorType::Azure
        | ConnectorType::Google => Some(
            "The daemon reads the API key from the named env var (used in api-key auth modes). Set it in your daemon environment.",
        ),
        ConnectorType::Bedrock | ConnectorType::Ollama => None,
    }
}

/// The dialog's title.
pub fn dialog_title(connector: ConnectorType, existing_id: Option<&str>) -> (r: String)
    ensures
        existing_id is Some ==> r@ == "Edit "@ + connector.name() + " connection: "@
            + existing_id->0@,
        existing_id is None ==> r@ == "Add "@ + connector.name() + " connection"@,
{
    match existing_id {
        Some(id) => {
            let mut out = "Edit ".to_owned();
            out.append(connector.label());
            out.append(" connection: ");
            out.append(id);
            out
        },
        None => {
            let mut out = "Add ".to_owned();
            out.append(connector.label());
            out.append(" connection");
            out
        },
    }
}

/// Whether the dialog has a "Refresh models" button: only for Bedrock, and only
/// when editing (on create there is nothing saved to refresh).
pub fn offers_refresh(connector: ConnectorType, is_edit: bool) -> (r: bool)
    ensures
        r == (connector == ConnectorType::Bedrock && is_edit),
{
    connector == ConnectorType::Bedrock && is_edit
}

/// The connection that a click on "Refresh models" asks for: the id in its field,
/// trimmed, unless that is empty.
pub fn refresh_target(id: &str) -> (r: Option<String>)
    ensures
        opt_text(r) == filled_text(id@),
{
    opt(id)
}

/// A form field as the user left it.
pub struct FieldEntry {
    pub name: &'static str,
    pub text: String,
}

/// What the form gives for a name: the text of the first field of that name,
/// trimmed, and nothing where that is empty or there is no such field.
pub open spec fn entry_text(entries: Seq<FieldEntry>, name: Seq<char>) -> Option<Seq<char>>
    decreases entries.len(),
{
    if entries.len() == 0 {
        None
    } else if entries[0].name@ == name {
        filled_text(entries[0].text@)
    } else {
        entry_text(entries.drop_first(), name)
    }
}

/// The text that the form gives for a name.
fn by_name(entries: &Vec<FieldEntry>, name: &'static str) -> (r: Option<String>)
    ensures
        opt_text(r) == entry_text(entries@, name@),
{
    let mut i: usize = 0;
    assert(entries@.skip(0) =~= entries@);
    while i < entries.len()
        invariant
            i <= entries.len(),
            entry_text(entries@, name@) == entry_text(entries@.skip(i as int), name@),
        decreases entries.len() - i,
    {
        assert(entries@.skip(i as int)[0] == entries@[i as int]);
        if same_text(entries[i].name, name) {
            return opt(entries[i].text.as_str());
        }
        assert(entries@.skip(i as int).drop_first() =~= entries@.skip(i as int + 1));
        i = i + 1;
    }
    None
}

/// The configuration that the form describes for `connector`: its fields as the
/// user left them, and beside them what was stored.
pub fn assemble_config(
    connector: ConnectorType,
    entries: &Vec<FieldEntry>,
    preserved: PreservedFields,
) -> (r: ConnectionConfigView)
    ensures
        connector_of(r) == connector,
        forall|field: Field| #[trigger]
            config_field(r, field) == (if connector.fields().contains(field) {
                entry_text(entries@, field.key())
            } else {
                None
            }),
        preserved_of(r) == (if connector == ConnectorType::Ollama {
            preserved
        } else {
            PreservedFields { keep_warm: None, ..preserved }
        }),
{
    let r = match connector {
        ConnectorType::Anthropic => ConnectionConfigView::Anthropic {
            base_url: by_name(entries, "base_url"),
            api_key_env: by_name(entries, "api_key_env"),
            connect_timeout_secs: preserved.connect_timeout_secs,
            stream_timeout_secs: preserved.stream_timeout_secs,
            max_context_tokens: preserved.max_context_tokens,
        },
        ConnectorType::OpenAi => ConnectionConfigView::OpenAi {
            base_url: by_name(entries, "base_url"),
            api_key_env: by_name(entries, "api_key_env"),
            connect_timeout_secs: preserved.connect_timeout_secs,
            stream_timeout_secs: preserved.stream_timeout_secs,
            max_context_tokens: preserved.max_context_tokens,
        },
        ConnectorType::OpenRouter => ConnectionConfigView::OpenRouter {
            base_url: by_name(entries, "base_url"),
            api_key_env: by_name(entries, "api_key_env"),
            connect_timeout_secs: preserved.connect_timeout_secs,
            stream_timeout_secs: preserved.stream_timeout_secs,
            max_context_tokens: preserved.max_context_tokens,
        },
        ConnectorType::Azure => ConnectionConfigView::Azure {
            base_url: by_name(entries, "base_url"),
            api_key_env: by_name(entries, "api_key_env"),
            api_surface: by_name(entries, "api_surface"),
            auth_mode: by_name(entries, "auth_mode"),
            api_version: by_name(entries, "api_version"),
            connect_timeout_secs: preserved.connect_timeout_secs,
            stream_timeout_secs: preserved.stream_timeout_secs,
            max_context_tokens: preserved.max_context_tokens,
        },
        ConnectorType::Google => ConnectionConfigView::Google {
            base_url: by_name(entries, "base_url"),
            api_key_env: by_name(entries, "api_key_env"),
            project: by_name(entries, "project"),
            location: by_name(entries, "location"),
            auth_mode: by_name(entries, "auth_mode"),
            credentials_path: by_name(entries, "credentials_path"),
            connect_timeout_secs: preserved.connect_timeout_secs,
            stream_timeout_secs: preserved.stream_timeout_secs,
            max_context_tokens: preserved.max_context_tokens,
        },
        ConnectorType::Bedrock => ConnectionConfigView::Bedrock {
            aws_profile: by_name(entries, "aws_profile"),
            region: by_name(entries, "region"),
            base_url: by_name(entries, "base_url"),
            connect_timeout_secs: preserved.connect_timeout_secs,
            stream_timeout_secs: preserved.stream_timeout_secs,
            max_context_tokens: preserved.max_context_tokens,
        },
        ConnectorType::Ollama => ConnectionConfigView::Ollama {
            base_url: by_name(entries, "base_url"),
            connect_timeout_secs: preserved.connect_timeout_secs,
            stream_timeout_secs: preserved.stream_timeout_secs,
            keep_warm: preserved.keep_warm,
            max_context_tokens: preserved.max_context_tokens,
        },
    };
    proof {
        lemma_fields(connector);
    }
    r
}

/// Which fields the connectors' forms have.
proof fn lemma_fields(connector: ConnectorType)
    ensures
        forall|field: Field| #[trigger]
            connector.fields().contains(field) <==> has_field(connector, field),
{
    assert forall|field: Field| #[trigger] connector.fields().contains(field) <==> has_field(
        connector,
        field,
    ) by {
        let s = connector.fields();
        if has_field(connector, field) {
            match connector {
                ConnectorType::Anthropic => {
                    assert(s[0] == Field::BaseUrl);
                    assert(s[1] == Field::ApiKeyEnv);
                },
                ConnectorType::OpenAi => {
                    assert(s[0] == Field::BaseUrl);
                    assert(s[1] == Field::ApiKeyEnv);
                },
                ConnectorType::OpenRouter => {
                    assert(s[0] == Field::BaseUrl);
                    assert(s[1] == Field::ApiKeyEnv);
                },
                ConnectorType::Azure => {
                    assert(s[0] == Field::BaseUrl);
                    assert(s[1] == Field::ApiKeyEnv);
                    assert(s[2] == Field::ApiSurface);
                    assert(s[3] == Field::AuthMode);
                    assert(s[4] == Field::ApiVersion);
                },
                ConnectorType::Google => {
                    assert(s[0] == Field::BaseUrl);
                    assert(s[1] == Field::ApiKeyEnv);
                    assert(s[2] == Field::Project);
                    assert(s[3] == Field::Location);
                    assert(s[4] == Field::AuthMode);
                    assert(s[5] == Field::CredentialsPath);
                },
                ConnectorType::Bedrock => {
                    assert(s[0] == Field::AwsProfile);
                    assert(s[1] == Field::Region);
                    assert(s[2] == Field::BaseUrl);
                },
                ConnectorType::Ollama => {
                    assert(s[0] == Field::BaseUrl);
                },
            }
        }
    }
}

/// The connector's form has the field.
pub open spec fn has_field(connector: ConnectorType, field: Field) -> bool {
    match connector {
        ConnectorType::Anthropic => field == Field::BaseUrl || field == Field::ApiKeyEnv,
        ConnectorType::OpenAi => field == Field::BaseUrl || field == Field::ApiKeyEnv,
        ConnectorType::OpenRouter => field == Field::BaseUrl || field == Field::ApiKeyEnv,
        ConnectorType::Azure => field == Field::BaseUrl || field == Field::ApiKeyEnv || field == Field::ApiSurface || field == Field::AuthMode || field == Field::ApiVersion,
        ConnectorType::Google => field == Field::BaseUrl || field == Field::ApiKeyEnv || field == Field::Project || field == Field::Location || field == Field::AuthMode || field == Field::CredentialsPath,
        ConnectorType::Bedrock => field == Field::AwsProfile || field == Field::Region || field == Field::BaseUrl,
        ConnectorType::Ollama => field == Field::BaseUrl,
    }
}

/// Why an id is refused.
pub open spec fn id_problem(id: Seq<char>) -> Option<Seq<char>> {
    if id.len() == 0 {
        Some("Connection id is required"@)
    } else if !is_slug(id) {
        Some("Id may only contain letters, digits, '-', and '_'"@)
    } else {
        None
    }
}

/// What saving the dialog comes to: the id and the configuration to submit, or
/// the line to show while the dialog stays open.
pub fn save_connection(
    connector: ConnectorType,
    id: &str,
    entries: &Vec<FieldEntry>,
    preserved: PreservedFields,
) -> (r: Result<(String, ConnectionConfigView), &'static str>)
    ensures
        r is Ok <==> id_problem(trimmed(id@)) is None,
        r is Err ==> id_problem(trimmed(id@)) == Some(r->Err_0@),
        r is Ok ==> {
            let config = r->Ok_0.1;
            &&& r->Ok_0.0@ == trimmed(id@)
            &&& connector_of(config) == connector
            &&& forall|field: Field| #[trigger]
                config_field(config, field) == (if connector.fields().contains(field) {
                    entry_text(entries@, field.key())
                } else {
                    None
                })
            &&& preserved_of(config) == (if connector == ConnectorType::Ollama {
                preserved
            } else {
                PreservedFields { keep_warm: None, ..preserved }
            })
        },
{
    let id = trim(id);
    if id.is_empty() {
        return Err("Connection id is required");
    }
    if !all_slug_chars(id) {
        return Err("Id may only contain letters, digits, '-', and '_'");
    }
    Ok((id.to_owned(), assemble_config(connector, entries, preserved)))
}

/// A short name stands for one connector: what [`ConnectorType::slug`] gives,
/// [`ConnectorType::from_slug`] reads back as the same connector.
pub proof fn law_a_slug_names_one_connector(a: ConnectorType, b: ConnectorType)
    requires
        a.wire_name() == b.wire_name(),
    ensures
        a == b,
{
    reveal_strlit("anthropic");
    reveal_strlit("openai");
    reveal_strlit("openrouter");
    reveal_strlit("azure");
    reveal_strlit("google");
    reveal_strlit("bedrock");
    reveal_strlit("ollama");
    assert("anthropic"@.len() == 9 && "anthropic"@[0] == 'a' && "anthropic"@[1] == 'n' && "anthropic"@[4] == 'r');
    assert("openai"@.len() == 6 && "openai"@[0] == 'o' && "openai"@[1] == 'p' && "openai"@[4] == 'a');
    assert("openrouter"@.len() == 10 && "openrouter"@[0] == 'o' && "openrouter"@[1] == 'p' && "openrouter"@[4] == 'r');
    assert("azure"@.len() == 5 && "azure"@[0] == 'a' && "azure"@[1] == 'z' && "azure"@[4] == 'e');
    assert("google"@.len() == 6 && "google"@[0] == 'g' && "google"@[1] == 'o' && "google"@[4] == 'l');
    assert("bedrock"@.len() == 7 && "bedrock"@[0] == 'b' && "bedrock"@[1] == 'e' && "bedrock"@[4] == 'o');
    assert("ollama"@.len() == 6 && "ollama"@[0] == 'o' && "ollama"@[1] == 'l' && "ollama"@[4] == 'm');
}

/// The fields go by different names.
proof fn lemma_field_keys_differ(a: Field, b: Field)
    requires
        a.key() == b.key(),
    ensures
        a == b,
{
    reveal_strlit("base_url");
    reveal_strlit("api_key_env");
    reveal_strlit("api_surface");
    reveal_strlit("auth_mode");
    reveal_strlit("api_version");
    reveal_strlit("project");
    reveal_strlit("location");
    reveal_strlit("credentials_path");
    reveal_strlit("aws_profile");
    reveal_strlit("region");
    assert("base_url"@.len() == 8 && "base_url"@[0] == 'b' && "base_url"@[4] == '_');
    assert("api_key_env"@.len() == 11 && "api_key_env"@[0] == 'a' && "api_key_env"@[4] == 'k');
    assert("api_surface"@.len() == 11 && "api_surface"@[0] == 'a' && "api_surface"@[4] == 's');
    assert("auth_mode"@.len() == 9 && "auth_mode"@[0] == 'a' && "auth_mode"@[4] == '_');
    assert("api_version"@.len() == 11 && "api_version"@[0] == 'a' && "api_version"@[4] == 'v');
    assert("project"@.len() == 7 && "project"@[0] == 'p' && "project"@[4] == 'e');
    assert("location"@.len() == 8 && "location"@[0] == 'l' && "location"@[4] == 't');
    assert("credentials_path"@.len() == 16 && "credentials_path"@[0] == 'c' && "credentials_path"@[4] == 'e');
    assert("aws_profile"@.len() == 11 && "aws_profile"@[0] == 'a' && "aws_profile"@[4] == 'p');
    assert("region"@.len() == 6 && "region"@[0] == 'r' && "region"@[4] == 'o');
}

proof fn lemma_entry_found(entries: Seq<FieldEntry>, fields: Seq<Field>, k: int)
    requires
        entries.len() == fields.len(),
        0 <= k < fields.len(),
        fields.no_duplicates(),
        forall|i: int| 0 <= i < entries.len() ==> (#[trigger] entries[i]).name@ == fields[i].key(),
    ensures
        entry_text(entries, fields[k].key()) == filled_text(entries[k].text@),
    decreases entries.len(),
{
    assert(entries[0].name@ == fields[0].key());
    if k > 0 {
        if fields[0].key() == fields[k].key() {
            lemma_field_keys_differ(fields[0], fields[k]);
        }
        let rest = entries.drop_first();
        let more = fields.drop_first();
        assert forall|i: int| 0 <= i < rest.len() implies (#[trigger] rest[i]).name@
            == more[i].key() by {
            assert(rest[i] == entries[i + 1]);
        }
        lemma_entry_found(rest, more, k - 1);
    }
}

/// The form can carry what the configuration holds: no field is empty or has white
/// space at an end.
pub open spec fn is_carried(config: ConnectionConfigView) -> bool {
    forall|field: Field|
        (#[trigger] config_field(config, field)) is Some ==> {
            let text = config_field(config, field)->0;
            text.len() > 0 && trimmed(text) == text
        }
}

/// Opening a connection in the dialog and saving it unchanged gives back the
/// configuration it was opened from: the surfaced fields and, beside them, the
/// timeouts, the context ceiling and the keep-warm flag that the form never shows.
///
/// `entries` are the form's fields as they stand on open; `saved` is what saving
/// them assembles to.
pub proof fn law_saving_an_unchanged_connection_keeps_it(
    config: ConnectionConfigView,
    entries: Seq<FieldEntry>,
    saved: ConnectionConfigView,
)
    requires
        is_carried(config),
        entries.len() == connector_of(config).fields().len(),
        forall|i: int|
            0 <= i < entries.len() ==> (#[trigger] entries[i]).name@ == connector_of(
                config,
            ).fields()[i].key(),
        forall|i: int|
            0 <= i < entries.len() ==> (#[trigger] entries[i]).text@ == (match echoed(
                connector_of(config),
                Some(config),
                connector_of(config).fields()[i],
            ) {
                Some(text) => text,
                None => Seq::empty(),
            }),
        connector_of(saved) == connector_of(config),
        forall|field: Field| #[trigger]
            config_field(saved, field) == (if connector_of(config).fields().contains(field) {
                entry_text(entries, field.key())
            } else {
                None
            }),
        preserved_of(saved) == (if connector_of(config) == ConnectorType::Ollama {
            preserved_of(config)
        } else {
            (PreservedFields { keep_warm: None, ..preserved_of(config) })
        }),
    ensures
        connector_of(saved) == connector_of(config),
        forall|field: Field| #[trigger] config_field(saved, field) == config_field(config, field),
        preserved_of(saved) == preserved_of(config),
{
    let connector = connector_of(config);
    let fields = connector.fields();
    lemma_fields(connector);
    lemma_trimmed_of_clean(Seq::<char>::empty());
    assert(fields.no_duplicates());
    assert forall|field: Field| #[trigger] config_field(saved, field) == config_field(
        config,
        field,
    ) by {
        assert(fields.contains(field) <==> has_field(connector, field));
        if fields.contains(field) {
            let k = choose|k: int| 0 <= k < fields.len() && fields[k] == field;
            lemma_entry_found(entries, fields, k);
            assert(entries[k].text@ == (match config_field(config, field) {
                Some(text) => text,
                None => Seq::empty(),
            }));
        }
    }
}

/// A configuration of another connector never shows through a form: every field
/// opens blank.
pub proof fn law_another_connectors_values_never_show(
    connector: ConnectorType,
    config: ConnectionConfigView,
    field: Field,
)
    requires
        connector_of(config) != connector,
    ensures
        echoed(connector, Some(config), field) is None,
{
}

/// What is assembled is a configuration of the connector, with each of its fields taken
/// from the entry of its name and all that the dialog does not show carried over.
pub proof fn law_each_entry_fills_its_field(
    connector: ConnectorType,
    entries: Vec<FieldEntry>,
    preserved: PreservedFields,
    r: ConnectionConfigView,
)
    requires
        call_ensures(assemble_config, (connector, &entries, preserved), r),
    ensures
        match r {
            ConnectionConfigView::Anthropic { base_url, api_key_env, connect_timeout_secs, stream_timeout_secs, max_context_tokens } => {
                &&& connector is Anthropic
                &&& opt_text(base_url) == entry_text(entries@, "base_url"@)
                &&& opt_text(api_key_env) == entry_text(entries@, "api_key_env"@)
                &&& connect_timeout_secs == preserved.connect_timeout_secs
                &&& stream_timeout_secs == preserved.stream_timeout_secs
                &&& max_context_tokens == preserved.max_context_tokens
            },
            ConnectionConfigView::OpenAi { base_url, api_key_env, connect_timeout_secs, stream_timeout_secs, max_context_tokens } => {
                &&& connector is OpenAi
                &&& opt_text(base_url) == entry_text(entries@, "base_url"@)
                &&& opt_text(api_key_env) == entry_text(entries@, "api_key_env"@)
                &&& connect_timeout_secs == preserved.connect_timeout_secs
                &&& stream_timeout_secs == preserved.stream_timeout_secs
                &&& max_context_tokens == preserved.max_context_tokens
            },
            ConnectionConfigView::OpenRouter { base_url, api_key_env, connect_timeout_secs, stream_timeout_secs, max_context_tokens } => {
                &&& connector is OpenRouter
                &&& opt_text(base_url) == entry_text(entries@, "base_url"@)
                &&& opt_text(api_key_env) == entry_text(entries@, "api_key_env"@)
                &&& connect_timeout_secs == preserved.connect_timeout_secs
                &&& stream_timeout_secs == preserved.stream_timeout_secs
                &&& max_context_tokens == preserved.max_context_tokens
            },
            ConnectionConfigView::Azure { base_url, api_key_env, api_surface, auth_mode, api_version, connect_timeout_secs, stream_timeout_secs, max_context_tokens } => {
                &&& connector is Azure
                &&& opt_text(base_url) == entry_text(entries@, "base_url"@)
                &&& opt_text(api_key_env) == entry_text(entries@, "api_key_env"@)
                &&& opt_text(api_surface) == entry_text(entries@, "api_surface"@)
                &&& opt_text(auth_mode) == entry_text(entries@, "auth_mode"@)
                &&& opt_text(api_version) == entry_text(entries@, "api_version"@)
                &&& connect_timeout_secs == preserved.connect_timeout_secs
                &&& stream_timeout_secs == preserved.stream_timeout_secs
                &&& max_context_tokens == preserved.max_context_tokens
            },
            ConnectionConfigView::Google { base_url, api_key_env, project, location, auth_mode, credentials_path, connect_timeout_secs, stream_timeout_secs, max_context_tokens } => {
                &&& connector is Google
                &&& opt_text(base_url) == entry_text(entries@, "base_url"@)
                &&& opt_text(api_key_env) == entry_text(entries@, "api_key_env"@)
                &&& opt_text(project) == entry_text(entries@, "project"@)
                &&& opt_text(location) == entry_text(entries@, "location"@)
                &&& opt_text(auth_mode) == entry_text(entries@, "auth_mode"@)
                &&& opt_text(credentials_path) == entry_text(entries@, "credentials_path"@)
                &&& connect_timeout_secs == preserved.connect_timeout_secs
                &&& stream_timeout_secs == preserved.stream_timeout_secs
                &&& max_context_tokens == preserved.max_context_tokens
            },
            ConnectionConfigView::Bedrock { aws_profile, region, base_url, connect_timeout_secs, stream_timeout_secs, max_context_tokens } => {
                &&& connector is Bedrock
                &&& opt_text(aws_profile) == entry_text(entries@, "aws_profile"@)
                &&& opt_text(region) == entry_text(entries@, "region"@)
                &&& opt_text(base_url) == entry_text(entries@, "base_url"@)
                &&& connect_timeout_secs == preserved.connect_timeout_secs
                &&& stream_timeout_secs == preserved.stream_timeout_secs
                &&& max_context_tokens == preserved.max_context_tokens
            },
            ConnectionConfigView::Ollama { base_url, connect_timeout_secs, stream_timeout_secs, max_context_tokens, keep_warm } => {
                &&& connector is Ollama
                &&& opt_text(base_url) == entry_text(entries@, "base_url"@)
                &&& connect_timeout_secs == preserved.connect_timeout_secs
                &&& stream_timeout_secs == preserved.stream_timeout_secs
                &&& max_context_tokens == preserved.max_context_tokens
                &&& keep_warm == preserved.keep_warm
            },
        },
{
    assert(ConnectorType::Anthropic.fields()[0] == Field::BaseUrl);
    assert(ConnectorType::Anthropic.fields().contains(Field::BaseUrl));
    assert(ConnectorType::OpenAi.fields()[0] == Field::BaseUrl);
    assert(ConnectorType::OpenAi.fields().contains(Field::BaseUrl));
    assert(ConnectorType::OpenRouter.fields()[0] == Field::BaseUrl);
    assert(ConnectorType::OpenRouter.fields().contains(Field::BaseUrl));
    assert(ConnectorType::Azure.fields()[0] == Field::BaseUrl);
    assert(ConnectorType::Azure.fields().contains(Field::BaseUrl));
    assert(ConnectorType::Google.fields()[0] == Field::BaseUrl);
    assert(ConnectorType::Google.fields().contains(Field::BaseUrl));
    assert(ConnectorType::Bedrock.fields()[2] == Field::BaseUrl);
    assert(ConnectorType::Bedrock.fields().contains(Field::BaseUrl));
    assert(ConnectorType::Ollama.fields()[0] == Field::BaseUrl);
    assert(ConnectorType::Ollama.fields().contains(Field::BaseUrl));
    assert(ConnectorType::Anthropic.fields()[1] == Field::ApiKeyEnv);
    assert(ConnectorType::Anthropic.fields().contains(Field::ApiKeyEnv));
    assert(ConnectorType::OpenAi.fields()[1] == Field::ApiKeyEnv);
    assert(ConnectorType::OpenAi.fields().contains(Field::ApiKeyEnv));
    assert(ConnectorType::OpenRouter.fields()[1] == Field::ApiKeyEnv);
    assert(ConnectorType::OpenRouter.fields().contains(Field::ApiKeyEnv));
    assert(ConnectorType::Azure.fields()[1] == Field::ApiKeyEnv);
    assert(ConnectorType::Azure.fields().contains(Field::ApiKeyEnv));
    assert(ConnectorType::Google.fields()[1] == Field::ApiKeyEnv);
    assert(ConnectorType::Google.fields().contains(Field::ApiKeyEnv));
    assert(ConnectorType::Azure.fields()[2] == Field::ApiSurface);
    assert(ConnectorType::Azure.fields().contains(Field::ApiSurface));
    assert(ConnectorType::Azure.fields()[3] == Field::AuthMode);
    assert(ConnectorType::Azure.fields().contains(Field::AuthMode));
    assert(ConnectorType::Google.fields()[4] == Field::AuthMode);
    assert(ConnectorType::Google.fields().contains(Field::AuthMode));
    assert(ConnectorType::Azure.fields()[4] == Field::ApiVersion);
    assert(ConnectorType::Azure.fields().contains(Field::ApiVersion));
    assert(ConnectorType::Google.fields()[2] == Field::Project);
    assert(ConnectorType::Google.fields().contains(Field::Project));
    assert(ConnectorType::Google.fields()[3] == Field::Location);
    assert(ConnectorType::Google.fields().contains(Field::Location));
    assert(ConnectorType::Google.fields()[5] == Field::CredentialsPath);
    assert(ConnectorType::Google.fields().contains(Field::CredentialsPath));
    assert(ConnectorType::Bedrock.fields()[0] == Field::AwsProfile);
    assert(ConnectorType::Bedrock.fields().contains(Field::AwsProfile));
    assert(ConnectorType::Bedrock.fields()[1] == Field::Region);
    assert(ConnectorType::Bedrock.fields().contains(Field::Region));
    assert(config_field(r, Field::BaseUrl) == (if connector.fields().contains(Field::BaseUrl) {
        entry_text(entries@, Field::BaseUrl.key())
    } else {
        None
    }));
    assert(config_field(r, Field::ApiKeyEnv) == (if connector.fields().contains(Field::ApiKeyEnv) {
        entry_text(entries@, Field::ApiKeyEnv.key())
    } else {
        None
    }));
    assert(config_field(r, Field::ApiSurface) == (if connector.fields().contains(Field::ApiSurface) {
        entry_text(entries@, Field::ApiSurface.key())
    } else {
        None
    }));
    assert(config_field(r, Field::AuthMode) == (if connector.fields().contains(Field::AuthMode) {
        entry_text(entries@, Field::AuthMode.key())
    } else {
        None
    }));
    assert(config_field(r, Field::ApiVersion) == (if connector.fields().contains(Field::ApiVersion) {
        entry_text(entries@, Field::ApiVersion.key())
    } else {
        None
    }));
    assert(config_field(r, Field::Project) == (if connector.fields().contains(Field::Project) {
        entry_text(entries@, Field::Project.key())
    } else {
        None
    }));
    assert(config_field(r, Field::Location) == (if connector.fields().contains(Field::Location) {
        entry_text(entries@, Field::Location.key())
    } else {
        None
    }));
    assert(config_field(r, Field::CredentialsPath) == (if connector.fields().contains(Field::CredentialsPath) {
        entry_text(entries@, Field::CredentialsPath.key())
    } else {
        None
    }));
    assert(config_field(r, Field::AwsProfile) == (if connector.fields().contains(Field::AwsProfile) {
        entry_text(entries@, Field::AwsProfile.key())
    } else {
        None
    }));
    assert(config_field(r, Field::Region) == (if connector.fields().contains(Field::Region) {
        entry_text(entries@, Field::Region.key())
    } else {
        None
    }));
    assert(preserved_of(r) == (if connector == ConnectorType::Ollama {
        preserved
    } else {
        PreservedFields { keep_warm: None, ..preserved }
    }));
}

/// What a stored configuration holds beyond the dialog's fields is kept aside as it is;
/// a new connection keeps nothing.
pub proof fn law_hidden_settings_are_kept(
    config: ConnectionConfigView,
    r: PreservedFields,
    none: PreservedFields,
)
    requires
        call_ensures(PreservedFields::from_config, (Some(&config),), r),
        call_ensures(PreservedFields::from_config, (None,), none),
    ensures
        match config {
            ConnectionConfigView::Anthropic { connect_timeout_secs, stream_timeout_secs, max_context_tokens, .. } => {
                &&& r.connect_timeout_secs == connect_timeout_secs
                &&& r.stream_timeout_secs == stream_timeout_secs
                &&& r.max_context_tokens == max_context_tokens
                &&& r.keep_warm is None
            },
            ConnectionConfigView::OpenAi { connect_timeout_secs, stream_timeout_secs, max_context_tokens, .. } => {
                &&& r.connect_timeout_secs == connect_timeout_secs
                &&& r.stream_timeout_secs == stream_timeout_secs
                &&& r.max_context_tokens == max_context_tokens
                &&& r.keep_warm is None
            },
            ConnectionConfigView::OpenRouter { connect_timeout_secs, stream_timeout_secs, max_context_tokens, .. } => {
                &&& r.connect_timeout_secs == connect_timeout_secs
                &&& r.stream_timeout_secs == stream_timeout_secs
                &&& r.max_context_tokens == max_context_tokens
                &&& r.keep_warm is None
            },
            ConnectionConfigView::Azure { connect_timeout_secs, stream_timeout_secs, max_context_tokens, .. } => {
                &&& r.connect_timeout_secs == connect_timeout_secs
                &&& r.stream_timeout_secs == stream_timeout_secs
                &&& r.max_context_tokens == max_context_tokens
                &&& r.keep_warm is None
            },
            ConnectionConfigView::Google { connect_timeout_secs, stream_timeout_secs, max_context_tokens, .. } => {
                &&& r.connect_timeout_secs == connect_timeout_secs
                &&& r.stream_timeout_secs == stream_timeout_secs
                &&& r.max_context_tokens == max_context_tokens
                &&& r.keep_warm is None
            },
            ConnectionConfigView::Bedrock { connect_timeout_secs, stream_timeout_secs, max_context_tokens, .. } => {
                &&& r.connect_timeout_secs == connect_timeout_secs
                &&& r.stream_timeout_secs == stream_timeout_secs
                &&& r.max_context_tokens == max_context_tokens
                &&& r.keep_warm is None
            },
            ConnectionConfigView::Ollama { connect_timeout_secs, stream_timeout_secs, max_context_tokens, keep_warm, .. } => {
                &&& r.connect_timeout_secs == connect_timeout_secs
                &&& r.stream_timeout_secs == stream_timeout_secs
                &&& r.max_context_tokens == max_context_tokens
                &&& r.keep_warm == keep_warm
            },
        },
        none.connect_timeout_secs is None && none.stream_timeout_secs is None,
        none.max_context_tokens is None && none.keep_warm is None,
{
}

/// A blank configuration is of its connector and sets nothing.
pub proof fn law_a_blank_configuration_sets_nothing(
    connector: ConnectorType,
    r: ConnectionConfigView,
)
    requires
        call_ensures(ConnectorType::empty_config, (connector,), r),
    ensures
        match r {
            ConnectionConfigView::Anthropic { base_url, api_key_env, connect_timeout_secs, stream_timeout_secs, max_context_tokens } => {
                &&& connector is Anthropic
                &&& base_url is None
                &&& api_key_env is None
                &&& connect_timeout_secs is None
                &&& stream_timeout_secs is None
                &&& max_context_tokens is None
            },
            ConnectionConfigView::OpenAi { base_url, api_key_env, connect_timeout_secs, stream_timeout_secs, max_context_tokens } => {
                &&& connector is OpenAi
                &&& base_url is None
                &&& api_key_env is None
                &&& connect_timeout_secs is None
                &&& stream_timeout_secs is None
                &&& max_context_tokens is None
            },
            ConnectionConfigView::OpenRouter { base_url, api_key_env, connect_timeout_secs, stream_timeout_secs, max_context_tokens } => {
                &&& connector is OpenRouter
                &&& base_url is None
                &&& api_key_env is None
                &&& connect_timeout_secs is None
                &&& stream_timeout_secs is None
                &&& max_context_tokens is None
            },
            ConnectionConfigView::Azure { base_url, api_key_env, api_surface, auth_mode, api_version, connect_timeout_secs, stream_timeout_secs, max_context_tokens } => {
                &&& connector is Azure
                &&& base_url is None
                &&& api_key_env is None
                &&& api_surface is None
                &&& auth_mode is None
                &&& api_version is None
                &&& connect_timeout_secs is None
                &&& stream_timeout_secs is None
                &&& max_context_tokens is None
            },
            ConnectionConfigView::Google { base_url, api_key_env, project, location, auth_mode, credentials_path, connect_timeout_secs, stream_timeout_secs, max_context_tokens } => {
                &&& connector is Google
                &&& base_url is None
                &&& api_key_env is None
                &&& project is None
                &&& location is None
                &&& auth_mode is None
                &&& credentials_path is None
                &&& connect_timeout_secs is None
                &&& stream_timeout_secs is None
                &&& max_context_tokens is None
            },
            ConnectionConfigView::Bedrock { aws_profile, region, base_url, connect_timeout_secs, stream_timeout_secs, max_context_tokens } => {
                &&& connector is Bedrock
                &&& aws_profile is None
                &&& region is None
                &&& base_url is None
                &&& connect_timeout_secs is None
                &&& stream_timeout_secs is None
                &&& max_context_tokens is None
            },
            ConnectionConfigView::Ollama { base_url, connect_timeout_secs, stream_timeout_secs, max_context_tokens, keep_warm } => {
                &&& connector is Ollama
                &&& base_url is None
                &&& connect_timeout_secs is None
                &&& stream_timeout_secs is None
                &&& max_context_tokens is None
                &&& keep_warm is None
            },
        },
{
    assert(config_field(r, Field::BaseUrl) is None);
    assert(config_field(r, Field::ApiKeyEnv) is None);
    assert(config_field(r, Field::ApiSurface) is None);
    assert(config_field(r, Field::AuthMode) is None);
    assert(config_field(r, Field::ApiVersion) is None);
    assert(config_field(r, Field::Project) is None);
    assert(config_field(r, Field::Location) is None);
    assert(config_field(r, Field::CredentialsPath) is None);
    assert(config_field(r, Field::AwsProfile) is None);
    assert(config_field(r, Field::Region) is None);
    assert(preserved_of(r) == no_preserved());
}

/// The dialog of a stored connection shows each of its settings in the field of its
/// name, none of them hidden as a secret.
pub proof fn law_each_field_shows_its_setting(
    connector: ConnectorType,
    config: ConnectionConfigView,
    r: Vec<FieldSpec>,
)
    requires
        call_ensures(field_specs, (connector, Some(&config)), r),
        connector_of(config) == connector,
    ensures
        match config {
            ConnectionConfigView::Anthropic { base_url, api_key_env, .. } => {
                &&& r@.len() == 2
                &&& r@[0].name@ == "base_url"@ && opt_text(r@[0].initial) == opt_text(base_url)
                &&& r@[1].name@ == "api_key_env"@ && opt_text(r@[1].initial) == opt_text(api_key_env)
            },
            ConnectionConfigView::OpenAi { base_url, api_key_env, .. } => {
                &&& r@.len() == 2
                &&& r@[0].name@ == "base_url"@ && opt_text(r@[0].initial) == opt_text(base_url)
                &&& r@[1].name@ == "api_key_env"@ && opt_text(r@[1].initial) == opt_text(api_key_env)
            },
            ConnectionConfigView::OpenRouter { base_url, api_key_env, .. } => {
                &&& r@.len() == 2
                &&& r@[0].name@ == "base_url"@ && opt_text(r@[0].initial) == opt_text(base_url)
                &&& r@[1].name@ == "api_key_env"@ && opt_text(r@[1].initial) == opt_text(api_key_env)
            },
            ConnectionConfigView::Azure { base_url, api_key_env, api_surface, auth_mode, api_version, .. } => {
                &&& r@.len() == 5
                &&& r@[0].name@ == "base_url"@ && opt_text(r@[0].initial) == opt_text(base_url)
                &&& r@[1].name@ == "api_key_env"@ && opt_text(r@[1].initial) == opt_text(api_key_env)
                &&& r@[2].name@ == "api_surface"@ && opt_text(r@[2].initial) == opt_text(api_surface)
                &&& r@[3].name@ == "auth_mode"@ && opt_text(r@[3].initial) == opt_text(auth_mode)
                &&& r@[4].name@ == "api_version"@ && opt_text(r@[4].initial) == opt_text(api_version)
            },
            ConnectionConfigView::Google { base_url, api_key_env, project, location, auth_mode, credentials_path, .. } => {
                &&& r@.len() == 6
                &&& r@[0].name@ == "base_url"@ && opt_text(r@[0].initial) == opt_text(base_url)
                &&& r@[1].name@ == "api_key_env"@ && opt_text(r@[1].initial) == opt_text(api_key_env)
                &&& r@[2].name@ == "project"@ && opt_text(r@[2].initial) == opt_text(project)
                &&& r@[3].name@ == "location"@ && opt_text(r@[3].initial) == opt_text(location)
                &&& r@[4].name@ == "auth_mode"@ && opt_text(r@[4].initial) == opt_text(auth_mode)
                &&& r@[5].name@ == "credentials_path"@ && opt_text(r@[5].initial) == opt_text(credentials_path)
            },
            ConnectionConfigView::Bedrock { aws_profile, region, base_url, .. } => {
                &&& r@.len() == 3
                &&& r@[0].name@ == "aws_profile"@ && opt_text(r@[0].initial) == opt_text(aws_profile)
                &&& r@[1].name@ == "region"@ && opt_text(r@[1].initial) == opt_text(region)
                &&& r@[2].name@ == "base_url"@ && opt_text(r@[2].initial) == opt_text(base_url)
            },
            ConnectionConfigView::Ollama { base_url, .. } => {
                &&& r@.len() == 1
                &&& r@[0].name@ == "base_url"@ && opt_text(r@[0].initial) == opt_text(base_url)
            },
        },
        forall|i: int| 0 <= i < r@.len() ==> !(#[trigger] r@[i]).secret,
{
    assert(connector is Anthropic ==> ConnectorType::Anthropic.fields()[0] == Field::BaseUrl);
    assert(connector is Anthropic ==> ConnectorType::Anthropic.fields()[1] == Field::ApiKeyEnv);
    assert(connector is OpenAi ==> ConnectorType::OpenAi.fields()[0] == Field::BaseUrl);
    assert(connector is OpenAi ==> ConnectorType::OpenAi.fields()[1] == Field::ApiKeyEnv);
    assert(connector is OpenRouter ==> ConnectorType::OpenRouter.fields()[0] == Field::BaseUrl);
    assert(connector is OpenRouter ==> ConnectorType::OpenRouter.fields()[1] == Field::ApiKeyEnv);
    assert(connector is Azure ==> ConnectorType::Azure.fields()[0] == Field::BaseUrl);
    assert(connector is Azure ==> ConnectorType::Azure.fields()[1] == Field::ApiKeyEnv);
    assert(connector is Azure ==> ConnectorType::Azure.fields()[2] == Field::ApiSurface);
    assert(connector is Azure ==> ConnectorType::Azure.fields()[3] == Field::AuthMode);
    assert(connector is Azure ==> ConnectorType::Azure.fields()[4] == Field::ApiVersion);
    assert(connector is Google ==> ConnectorType::Google.fields()[0] == Field::BaseUrl);
    assert(connector is Google ==> ConnectorType::Google.fields()[1] == Field::ApiKeyEnv);
    assert(connector is Google ==> ConnectorType::Google.fields()[2] == Field::Project);
    assert(connector is Google ==> ConnectorType::Google.fields()[3] == Field::Location);
    assert(connector is Google ==> ConnectorType::Google.fields()[4] == Field::AuthMode);
    assert(connector is Google ==> ConnectorType::Google.fields()[5] == Field::CredentialsPath);
    assert(connector is Bedrock ==> ConnectorType::Bedrock.fields()[0] == Field::AwsProfile);
    assert(connector is Bedrock ==> ConnectorType::Bedrock.fields()[1] == Field::Region);
    assert(connector is Bedrock ==> ConnectorType::Bedrock.fields()[2] == Field::BaseUrl);
    assert(connector is Ollama ==> ConnectorType::Ollama.fields()[0] == Field::BaseUrl);
    assert forall|i: int| 0 <= i < r@.len() implies (#[trigger] r@[i]).describes(
        connector,
        connector.fields()[i],
        Some(config),
    ) by {}
}

/// The dialog of a new connection has the same fields, and nothing in them.
pub proof fn law_a_new_connection_has_empty_fields(
    connector: ConnectorType,
    config: ConnectionConfigView,
    fresh: Vec<FieldSpec>,
    stored: Vec<FieldSpec>,
)
    requires
        call_ensures(field_specs, (connector, None), fresh),
        call_ensures(field_specs, (connector, Some(&config)), stored),
    ensures
        fresh@.len() == stored@.len(),
        forall|i: int|
            0 <= i < fresh@.len() ==> {
                &&& (#[trigger] fresh@[i]).initial is None
                &&& fresh@[i].name@ == stored@[i].name@
                &&& fresh@[i].label@ == stored@[i].label@
            },
{
    assert forall|i: int| 0 <= i < fresh@.len() implies {
        &&& (#[trigger] fresh@[i]).initial is None
        &&& fresh@[i].name@ == stored@[i].name@
        &&& fresh@[i].label@ == stored@[i].label@
    } by {
        assert(fresh@[i].describes(connector, connector.fields()[i], None));
        assert(stored@[i].describes(connector, connector.fields()[i], Some(config)));
    }
}

/// A connector is known by its slug and by no other text, and carries the label that it
/// is shown under.
pub proof fn law_a_slug_reads_back(
    connector: ConnectorType,
    slug: &'static str,
    text: &str,
    r: Option<ConnectorType>,
    label: &'static str,
)
    requires
        call_ensures(ConnectorType::slug, (connector,), slug),
        call_ensures(ConnectorType::from_slug, (text,), r),
        call_ensures(ConnectorType::label, (connector,), label),
    ensures
        r == Some(connector) <==> text@ == slug@,
        connector is Anthropic ==> slug@ == "anthropic"@ && label@ == "Anthropic"@,
        connector is OpenAi ==> slug@ == "openai"@ && label@ == "OpenAI"@,
        connector is OpenRouter ==> slug@ == "openrouter"@ && label@ == "OpenRouter"@,
        connector is Azure ==> slug@ == "azure"@ && label@ == "Azure"@,
        connector is Google ==> slug@ == "google"@ && label@ == "Google"@,
        connector is Bedrock ==> slug@ == "bedrock"@ && label@ == "Bedrock"@,
        connector is Ollama ==> slug@ == "ollama"@ && label@ == "Ollama"@,
{
    if r is Some && text@ == slug@ {
        law_a_slug_names_one_connector(r->0, connector);
    }
    if r is None && text@ == slug@ {
        assert(connector.wire_name() == text@);
    }
}

/// A connection is saved under its trimmed id, exactly where that id is something of
/// letters, digits, hyphens and underscores; what is saved is what the entries assemble
/// to.
pub proof fn law_a_connection_is_saved_under_its_id(
    connector: ConnectorType,
    id: &str,
    entries: Vec<FieldEntry>,
    preserved: PreservedFields,
    r: Result<(String, ConnectionConfigView), &'static str>,
    config: ConnectionConfigView,
    field: Field,
)
    requires
        call_ensures(save_connection, (connector, id, &entries, preserved), r),
        call_ensures(assemble_config, (connector, &entries, preserved), config),
    ensures
        r is Ok <==> trimmed(id@).len() > 0 && forall|i: int|
            0 <= i < trimmed(id@).len() ==> {
                let c = #[trigger] trimmed(id@)[i];
                'a' <= c <= 'z' || 'A' <= c <= 'Z' || '0' <= c <= '9' || c == '-' || c == '_'
            },
        r is Ok ==> r->Ok_0.0@ == trimmed(id@),
        r is Ok ==> connector_of(r->Ok_0.1) == connector_of(config),
        r is Ok ==> config_field(r->Ok_0.1, field) == config_field(config, field),
        r is Ok ==> preserved_of(r->Ok_0.1) == preserved_of(config),
        trimmed(id@).len() == 0 ==> r->Err_0@ == "Connection id is required"@,
        r is Err && trimmed(id@).len() > 0 ==> r->Err_0@
            == "Id may only contain letters, digits, '-', and '_'"@,
{
    let name = trimmed(id@);
    if name.len() > 0 && !is_slug(name) {
        let i = choose|i: int| 0 <= i < name.len() && !is_slug_char(#[trigger] name[i]);
        assert(!({
            let c = name[i];
            'a' <= c <= 'z' || 'A' <= c <= 'Z' || '0' <= c <= '9' || c == '-' || c == '_'
        }));
    }
    if is_slug(name) {
        assert forall|i: int| 0 <= i < name.len() implies {
            let c = #[trigger] name[i];
            'a' <= c <= 'z' || 'A' <= c <= 'Z' || '0' <= c <= '9' || c == '-' || c == '_'
        } by {
            assert(is_slug_char(name[i]));
        }
    }
}

/// The entry that counts is the first of its name, trimmed, and blank is nothing.
pub proof fn law_an_entry_is_read_by_name(entries: Seq<FieldEntry>, i: int)
    requires
        0 <= i < entries.len(),
        forall|j: int| 0 <= j < i ==> (#[trigger] entries[j]).name@ != entries[i].name@,
    ensures
        trimmed(entries[i].text@).len() > 0 ==> entry_text(entries, entries[i].name@) == Some(
            trimmed(entries[i].text@),
        ),
        trimmed(entries[i].text@).len() == 0 ==> entry_text(entries, entries[i].name@) is None,
    decreases i,
{
    if i > 0 {
        let rest = entries.drop_first();
        assert(entries[0].name@ != entries[i].name@);
        assert forall|j: int| 0 <= j < i - 1 implies (#[trigger] rest[j]).name@ != rest[i
            - 1].name@ by {
            assert(entries[j + 1].name@ != entries[i].name@);
        }
        law_an_entry_is_read_by_name(rest, i - 1);
    }
}

/// The dialog says what it adds or edits; only a stored Bedrock connection offers to
/// refresh its models, and that needs an id.
pub proof fn law_the_dialog_names_its_connection(
    connector: ConnectorType,
    id: &str,
    label: &'static str,
    add: String,
    edit: String,
    refresh_new: bool,
    refresh_stored: bool,
    target: Option<String>,
)
    requires
        call_ensures(ConnectorType::label, (connector,), label),
        call_ensures(dialog_title, (connector, None), add),
        call_ensures(dialog_title, (connector, Some(id)), edit),
        call_ensures(offers_refresh, (connector, false), refresh_new),
        call_ensures(offers_refresh, (connector, true), refresh_stored),
        call_ensures(refresh_target, (id,), target),
    ensures
        add@ == "Add "@ + label@ + " connection"@,
        edit@ == "Edit "@ + label@ + " connection: "@ + id@,
        !refresh_new,
        refresh_stored <==> connector is Bedrock,
        target is Some <==> trimmed(id@).len() > 0,
        target is Some ==> target->0@ == trimmed(id@),
{
}

/// A connector with a key field says where the key comes from.
pub proof fn law_a_key_field_is_explained(
    connector: ConnectorType,
    config: ConnectionConfigView,
    hint: Option<&'static str>,
    specs: Vec<FieldSpec>,
)
    requires
        call_ensures(connector_hint, (connector,), hint),
        call_ensures(field_specs, (connector, Some(&config)), specs),
        connector_of(config) == connector,
    ensures
        hint is Some <==> specs@.len() >= 2 && specs@[1].name@ == "api_key_env"@,
        hint is Some ==> specs@[1].placeholder is Some && specs@[1].label@
            == "API key env var (e.g. "@ + specs@[1].placeholder->0@ + ")"@,
{
    law_each_field_shows_its_setting(connector, config, specs);
    reveal_strlit("api_key_env");
    reveal_strlit("region");
    assert("api_key_env"@.len() == 11);
    assert("region"@.len() == 6);
    if specs@.len() >= 2 {
        assert(specs@[1].describes(connector, connector.fields()[1], Some(config)));
    }
    lemma_key_labels();
}

proof fn lemma_key_labels()
    ensures
        "API key env var (e.g. "@ + "ANTHROPIC_API_KEY"@ + ")"@
            == "API key env var (e.g. ANTHROPIC_API_KEY)"@,
        "API key env var (e.g. "@ + "OPENAI_API_KEY"@ + ")"@
            == "API key env var (e.g. OPENAI_API_KEY)"@,
        "API key env var (e.g. "@ + "OPENROUTER_API_KEY"@ + ")"@
            == "API key env var (e.g. OPENROUTER_API_KEY)"@,
        "API key env var (e.g. "@ + "AZURE_OPENAI_API_KEY"@ + ")"@
            == "API key env var (e.g. AZURE_OPENAI_API_KEY)"@,
        "API key env var (e.g. "@ + "GOOGLE_API_KEY"@ + ")"@
            == "API key env var (e.g. GOOGLE_API_KEY)"@,
{
    reveal_strlit("API key env var (e.g. ");
    reveal_strlit(")");
    reveal_strlit("ANTHROPIC_API_KEY");
    reveal_strlit("OPENAI_API_KEY");
    reveal_strlit("OPENROUTER_API_KEY");
    reveal_strlit("AZURE_OPENAI_API_KEY");
    reveal_strlit("GOOGLE_API_KEY");
    reveal_strlit("API key env var (e.g. ANTHROPIC_API_KEY)");
    reveal_strlit("API key env var (e.g. OPENAI_API_KEY)");
    reveal_strlit("API key env var (e.g. OPENROUTER_API_KEY)");
    reveal_strlit("API key env var (e.g. AZURE_OPENAI_API_KEY)");
    reveal_strlit("API key env var (e.g. GOOGLE_API_KEY)");
    assert("API key env var (e.g. "@ + "ANTHROPIC_API_KEY"@ + ")"@
        =~= "API key env var (e.g. ANTHROPIC_API_KEY)"@);
    assert("API key env var (e.g. "@ + "OPENAI_API_KEY"@ + ")"@
        =~= "API key env var (e.g. OPENAI_API_KEY)"@);
    assert("API key env var (e.g. "@ + "OPENROUTER_API_KEY"@ + ")"@
        =~= "API key env var (e.g. OPENROUTER_API_KEY)"@);
    assert("API key env var (e.g. "@ + "AZURE_OPENAI_API_KEY"@ + ")"@
        =~= "API key env var (e.g. AZURE_OPENAI_API_KEY)"@);
    assert("API key env var (e.g. "@ + "GOOGLE_API_KEY"@ + ")"@
        =~= "API key env var (e.g. GOOGLE_API_KEY)"@);
}

/// Every field of every connector is labelled, and its placeholder, where it has one,
/// gives an example.
pub proof fn law_fields_are_labelled(
    connector: ConnectorType,
    config: Option<&ConnectionConfigView>,
    r: Vec<FieldSpec>,
)
    requires
        call_ensures(field_specs, (connector, config), r),
    ensures
        connector is Anthropic ==> {
            &&& r@.len() == 2
            &&& r@[0].label@ == "Base URL (optional override)"@
            &&& r@[0].placeholder is Some && r@[0].placeholder->0@
                == "https://api.anthropic.com"@
            &&& r@[1].label@ == "API key env var (e.g. ANTHROPIC_API_KEY)"@
            &&& r@[1].placeholder is Some && r@[1].placeholder->0@
                == "ANTHROPIC_API_KEY"@
        },
        connector is OpenAi ==> {
            &&& r@.len() == 2
            &&& r@[0].label@ == "Base URL (for OpenAI-compatible providers)"@
            &&& r@[0].placeholder is Some && r@[0].placeholder->0@
                == "https://api.openai.com/v1"@
            &&& r@[1].label@ == "API key env var (e.g. OPENAI_API_KEY)"@
            &&& r@[1].placeholder is Some && r@[1].placeholder->0@
                == "OPENAI_API_KEY"@
        },
        connector is OpenRouter ==> {
            &&& r@.len() == 2
            &&& r@[0].label@ == "Base URL (optional override)"@
            &&& r@[0].placeholder is Some && r@[0].placeholder->0@
                == "https://openrouter.ai/api/v1"@
            &&& r@[1].label@ == "API key env var (e.g. OPENROUTER_API_KEY)"@
            &&& r@[1].placeholder is Some && r@[1].placeholder->0@
                == "OPENROUTER_API_KEY"@
        },
        connector is Azure ==> {
            &&& r@.len() == 5
            &&& r@[0].label@ == "Resource endpoint (base URL)"@
            &&& r@[0].placeholder is Some && r@[0].placeholder->0@
                == "https://<name>.openai.azure.com"@
            &&& r@[1].label@ == "API key env var (e.g. AZURE_OPENAI_API_KEY)"@
            &&& r@[1].placeholder is Some && r@[1].placeholder->0@
                == "AZURE_OPENAI_API_KEY"@
            &&& r@[2].label@ == "API surface (v1 or classic)"@
            &&& r@[2].placeholder is Some && r@[2].placeholder->0@
                == "v1 (default) or classic"@
            &&& r@[3].label@ == "Auth mode (api_key or entra)"@
            &&& r@[3].placeholder is Some && r@[3].placeholder->0@
                == "api_key (default) or entra"@
            &&& r@[4].label@ == "API version (classic surface only)"@
            &&& r@[4].placeholder is Some && r@[4].placeholder->0@
                == "e.g. 2024-10-21"@
        },
        connector is Google ==> {
            &&& r@.len() == 6
            &&& r@[0].label@ == "Base URL (optional override)"@
            &&& r@[0].placeholder is Some && r@[0].placeholder->0@
                == "usually blank"@
            &&& r@[1].label@ == "API key env var (e.g. GOOGLE_API_KEY)"@
            &&& r@[1].placeholder is Some && r@[1].placeholder->0@
                == "GOOGLE_API_KEY"@
            &&& r@[2].label@ == "GCP project"@
            &&& r@[2].placeholder is Some && r@[2].placeholder->0@
                == "my-gcp-project"@
            &&& r@[3].label@ == "Location / region"@
            &&& r@[3].placeholder is Some && r@[3].placeholder->0@
                == "us-central1"@
            &&& r@[4].label@ == "Auth mode (vertex or api_key)"@
            &&& r@[4].placeholder is Some && r@[4].placeholder->0@
                == "vertex (default) or api_key"@
            &&& r@[5].label@ == "Service-account credentials path (Vertex)"@
            &&& r@[5].placeholder is Some && r@[5].placeholder->0@
                == "/path/to/service-account.json"@
        },
        connector is Bedrock ==> {
            &&& r@.len() == 3
            &&& r@[0].label@ == "AWS profile (optional)"@
            &&& r@[0].placeholder is Some && r@[0].placeholder->0@
                == "default"@
            &&& r@[1].label@ == "Region"@
            &&& r@[1].placeholder is Some && r@[1].placeholder->0@
                == "us-west-2"@
            &&& r@[2].label@ == "Base URL override (optional)"@
            &&& r@[2].placeholder is None
        },
        connector is Ollama ==> {
            &&& r@.len() == 1
            &&& r@[0].label@ == "Base URL"@
            &&& r@[0].placeholder is Some && r@[0].placeholder->0@
                == "http://localhost:11434"@
        },
{
    assert forall|i: int| 0 <= i < r@.len() implies (#[trigger] r@[i]).describes(
        connector,
        connector.fields()[i],
        owned(config),
    ) by {}
}

/// A field without an entry is left unset.
pub proof fn law_a_missing_entry_sets_nothing(entries: Seq<FieldEntry>, name: Seq<char>)
    requires
        forall|j: int| 0 <= j < entries.len() ==> (#[trigger] entries[j]).name@ != name,
    ensures
        entry_text(entries, name) is None,
    decreases entries.len(),
{
    if entries.len() > 0 {
        let rest = entries.drop_first();
        assert(entries[0].name@ != name);
        assert forall|j: int| 0 <= j < rest.len() implies (#[trigger] rest[j]).name@ != name by {
            assert(rest[j] == entries[j + 1]);
        }
        law_a_missing_entry_sets_nothing(rest, name);
    }
}

/// The fields of a connector never show what another connector stores.
pub proof fn law_fields_show_their_own_connector_only(
    connector: ConnectorType,
    config: ConnectionConfigView,
    r: Vec<FieldSpec>,
    i: int,
)
    requires
        call_ensures(field_specs, (connector, Some(&config)), r),
        connector_of(config) != connector,
        0 <= i < r@.len(),
    ensures
        r@[i].initial is None,
{
    assert(r@[i].describes(connector, connector.fields()[i], Some(config)));
}

/// A connector that reads a key says where the daemon reads it from.
pub proof fn law_a_hint_says_where_the_key_is_read(
    connector: ConnectorType,
    r: Option<&'static str>,
)
    requires
        call_ensures(connector_hint, (connector,), r),
    ensures
        r is None <==> connector is Bedrock || connector is Ollama,
        connector is Anthropic ==> r->0@
            == "The daemon reads the API key from the named env var. Set it in your daemon environment (systemd unit, shell, etc.)."@,
        r is Some && !(connector is Anthropic) ==> r->0@
            == "The daemon reads the API key from the named env var (used in api-key auth modes). Set it in your daemon environment."@,
{
}

} // verus!
