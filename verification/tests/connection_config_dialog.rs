use adele_gtk::api::ConnectionConfigView;
use adele_gtk::connection_config_dialog::{
    field_specs, ConnectorType, FieldSpec, PreservedFields,
};

#[test]
fn connector_slug_roundtrip() {
    for c in [
        ConnectorType::Anthropic,
        ConnectorType::OpenAi,
        ConnectorType::OpenRouter,
        ConnectorType::Azure,
        ConnectorType::Google,
        ConnectorType::Bedrock,
        ConnectorType::Ollama,
    ] {
        assert_eq!(ConnectorType::from_slug(c.slug()), Some(c));
    }
    assert_eq!(ConnectorType::from_slug("unknown"), None);
}

#[test]
fn openrouter_slug_maps_to_variant() {
    // OpenRouter is a first-class creatable connector; its slug must round-trip
    // and its empty config must carry the OpenRouter variant.
    assert_eq!(
        ConnectorType::from_slug("openrouter"),
        Some(ConnectorType::OpenRouter)
    );
    assert_eq!(ConnectorType::OpenRouter.slug(), "openrouter");
    assert!(matches!(
        ConnectorType::OpenRouter.empty_config(),
        ConnectionConfigView::OpenRouter { .. }
    ));
}

#[test]
fn empty_config_has_correct_variant() {
    assert!(matches!(
        ConnectorType::Anthropic.empty_config(),
        ConnectionConfigView::Anthropic { .. }
    ));
    assert!(matches!(
        ConnectorType::Bedrock.empty_config(),
        ConnectionConfigView::Bedrock { .. }
    ));
    assert!(matches!(
        ConnectorType::Ollama.empty_config(),
        ConnectionConfigView::Ollama { .. }
    ));
    assert!(matches!(
        ConnectorType::OpenAi.empty_config(),
        ConnectionConfigView::OpenAi { .. }
    ));
    assert!(matches!(
        ConnectorType::OpenRouter.empty_config(),
        ConnectionConfigView::OpenRouter { .. }
    ));
    assert!(matches!(
        ConnectorType::Azure.empty_config(),
        ConnectionConfigView::Azure { .. }
    ));
    assert!(matches!(
        ConnectorType::Google.empty_config(),
        ConnectionConfigView::Google { .. }
    ));
}

#[test]
fn field_specs_prefill_from_echoed_openrouter_config() {
    // OpenRouter mirrors OpenAI: base_url + api_key_env pre-fill from the
    // echoed config; neither is a secret.
    let config = ConnectionConfigView::OpenRouter {
        base_url: Some("https://openrouter.ai/api/v1".to_string()),
        api_key_env: Some("MY_OPENROUTER_KEY".to_string()),
        connect_timeout_secs: None,
        stream_timeout_secs: None,
        max_context_tokens: None,
    };
    let specs = field_specs(ConnectorType::OpenRouter, Some(&config));
    assert_eq!(
        initial_of(&specs, "base_url"),
        Some("https://openrouter.ai/api/v1")
    );
    assert_eq!(initial_of(&specs, "api_key_env"), Some("MY_OPENROUTER_KEY"));
    assert!(specs.iter().all(|f| !f.secret));
}

#[test]
fn preserved_fields_round_trip_openrouter() {
    // OpenRouter is in the api-key preserved-fields group (like OpenAI): its
    // unsurfaced timeouts / context ceiling round-trip; it has no keep_warm.
    let openrouter = ConnectionConfigView::OpenRouter {
        base_url: Some("https://openrouter.ai/api/v1".to_string()),
        api_key_env: Some("OPENROUTER_API_KEY".to_string()),
        connect_timeout_secs: Some(7),
        stream_timeout_secs: Some(90),
        max_context_tokens: Some(128_000),
    };
    let p = PreservedFields::from_config(Some(&openrouter));
    assert_eq!(p.connect_timeout_secs, Some(7));
    assert_eq!(p.stream_timeout_secs, Some(90));
    assert_eq!(p.max_context_tokens, Some(128_000));
    assert_eq!(p.keep_warm, None);
}

#[test]
fn field_specs_prefill_from_echoed_azure_config() {
    // Azure surfaces base_url + api_key_env plus the two enum fields
    // (api_surface / auth_mode) and classic-only api_version. Every surfaced
    // field pre-fills from the echoed config on the edit path, and none is a
    // secret (only the env-var *name* travels).
    let config = ConnectionConfigView::Azure {
        base_url: Some("https://my-resource.openai.azure.com".to_string()),
        api_key_env: Some("MY_AZURE_KEY".to_string()),
        api_surface: Some("classic".to_string()),
        auth_mode: Some("entra".to_string()),
        api_version: Some("2024-10-21".to_string()),
        connect_timeout_secs: None,
        stream_timeout_secs: None,
        max_context_tokens: None,
    };
    let specs = field_specs(ConnectorType::Azure, Some(&config));
    assert_eq!(
        initial_of(&specs, "base_url"),
        Some("https://my-resource.openai.azure.com")
    );
    assert_eq!(initial_of(&specs, "api_key_env"), Some("MY_AZURE_KEY"));
    assert_eq!(initial_of(&specs, "api_surface"), Some("classic"));
    assert_eq!(initial_of(&specs, "auth_mode"), Some("entra"));
    assert_eq!(initial_of(&specs, "api_version"), Some("2024-10-21"));
    assert!(specs.iter().all(|f| !f.secret));
}

#[test]
fn preserved_fields_round_trip_azure() {
    // Azure joins the API-key preserved-fields group: its unsurfaced
    // timeouts / context ceiling round-trip through an edit, and it has no
    // keep_warm (Ollama-only). This is the guard against a `_ =>` fold
    // silently dropping Azure's stored values on save.
    let azure = ConnectionConfigView::Azure {
        base_url: Some("https://my-resource.openai.azure.com".to_string()),
        api_key_env: Some("AZURE_OPENAI_API_KEY".to_string()),
        api_surface: Some("v1".to_string()),
        auth_mode: Some("api_key".to_string()),
        api_version: None,
        connect_timeout_secs: Some(4),
        stream_timeout_secs: Some(75),
        max_context_tokens: Some(200_000),
    };
    let p = PreservedFields::from_config(Some(&azure));
    assert_eq!(p.connect_timeout_secs, Some(4));
    assert_eq!(p.stream_timeout_secs, Some(75));
    assert_eq!(p.max_context_tokens, Some(200_000));
    assert_eq!(p.keep_warm, None);
}

#[test]
fn field_specs_prefill_from_echoed_google_config() {
    // Google (Vertex / Gemini) surfaces base_url, api_key_env, project,
    // location, the auth_mode enum, and the Vertex credentials_path. Every
    // surfaced field pre-fills; none is a secret.
    let config = ConnectionConfigView::Google {
        base_url: None,
        api_key_env: Some("MY_GOOGLE_KEY".to_string()),
        project: Some("my-gcp-project".to_string()),
        location: Some("us-central1".to_string()),
        auth_mode: Some("vertex".to_string()),
        credentials_path: Some("/etc/gcp/sa.json".to_string()),
        connect_timeout_secs: None,
        stream_timeout_secs: None,
        max_context_tokens: None,
    };
    let specs = field_specs(ConnectorType::Google, Some(&config));
    assert_eq!(initial_of(&specs, "base_url"), None);
    assert_eq!(initial_of(&specs, "api_key_env"), Some("MY_GOOGLE_KEY"));
    assert_eq!(initial_of(&specs, "project"), Some("my-gcp-project"));
    assert_eq!(initial_of(&specs, "location"), Some("us-central1"));
    assert_eq!(initial_of(&specs, "auth_mode"), Some("vertex"));
    assert_eq!(
        initial_of(&specs, "credentials_path"),
        Some("/etc/gcp/sa.json")
    );
    assert!(specs.iter().all(|f| !f.secret));
}

#[test]
fn preserved_fields_round_trip_google() {
    // Google joins the API-key preserved-fields group: unsurfaced timeouts /
    // context ceiling round-trip; no keep_warm. Guards against a `_ =>` fold
    // dropping Google's stored values on save.
    let google = ConnectionConfigView::Google {
        base_url: None,
        api_key_env: Some("GOOGLE_API_KEY".to_string()),
        project: Some("my-gcp-project".to_string()),
        location: Some("us-central1".to_string()),
        auth_mode: Some("vertex".to_string()),
        credentials_path: Some("/etc/gcp/sa.json".to_string()),
        connect_timeout_secs: Some(6),
        stream_timeout_secs: Some(120),
        max_context_tokens: Some(1_000_000),
    };
    let p = PreservedFields::from_config(Some(&google));
    assert_eq!(p.connect_timeout_secs, Some(6));
    assert_eq!(p.stream_timeout_secs, Some(120));
    assert_eq!(p.max_context_tokens, Some(1_000_000));
    assert_eq!(p.keep_warm, None);
}

#[test]
fn field_specs_blank_when_azure_config_on_google_connector() {
    // Variant mismatch must not leak values across the two new connectors.
    let azure = ConnectionConfigView::Azure {
        base_url: Some("https://my-resource.openai.azure.com".to_string()),
        api_key_env: Some("AZURE_OPENAI_API_KEY".to_string()),
        api_surface: Some("v1".to_string()),
        auth_mode: Some("api_key".to_string()),
        api_version: None,
        connect_timeout_secs: None,
        stream_timeout_secs: None,
        max_context_tokens: None,
    };
    let specs = field_specs(ConnectorType::Google, Some(&azure));
    assert!(specs.iter().all(|f| f.initial.is_none()));
}

/// Look up a field's pre-fill value by name within a spec list.
fn initial_of<'a>(specs: &'a [FieldSpec], name: &str) -> Option<&'a str> {
    specs
        .iter()
        .find(|f| f.name == name)
        .and_then(|f| f.initial.as_deref())
}

#[test]
fn field_specs_prefill_from_echoed_anthropic_config() {
    let config = ConnectionConfigView::Anthropic {
        base_url: Some("https://proxy.example/v1".to_string()),
        api_key_env: Some("MY_ANTHROPIC_KEY".to_string()),
        connect_timeout_secs: None,
        stream_timeout_secs: None,
        max_context_tokens: None,
    };
    let specs = field_specs(ConnectorType::Anthropic, Some(&config));
    assert_eq!(
        initial_of(&specs, "base_url"),
        Some("https://proxy.example/v1")
    );
    // `api_key_env` is the env-var *name*, not the secret — it pre-fills.
    assert_eq!(initial_of(&specs, "api_key_env"), Some("MY_ANTHROPIC_KEY"));
    // No field is ever marked secret, and none carries a raw credential.
    assert!(specs.iter().all(|f| !f.secret));
}

#[test]
fn field_specs_prefill_from_echoed_bedrock_config() {
    let config = ConnectionConfigView::Bedrock {
        aws_profile: Some("prod".to_string()),
        region: Some("eu-central-1".to_string()),
        base_url: None,
        connect_timeout_secs: None,
        stream_timeout_secs: None,
        max_context_tokens: None,
    };
    let specs = field_specs(ConnectorType::Bedrock, Some(&config));
    assert_eq!(initial_of(&specs, "aws_profile"), Some("prod"));
    assert_eq!(initial_of(&specs, "region"), Some("eu-central-1"));
    assert_eq!(initial_of(&specs, "base_url"), None);
    assert!(specs.iter().all(|f| !f.secret));
}

#[test]
fn field_specs_blank_when_config_is_none() {
    // Create path / older daemon that omits `config`: every field blank.
    for connector in [
        ConnectorType::Anthropic,
        ConnectorType::OpenAi,
        ConnectorType::OpenRouter,
        ConnectorType::Azure,
        ConnectorType::Google,
        ConnectorType::Bedrock,
        ConnectorType::Ollama,
    ] {
        let specs = field_specs(connector, None);
        assert!(
            specs.iter().all(|f| f.initial.is_none()),
            "{connector:?} should have no pre-filled fields when config is None",
        );
    }
}

#[test]
fn field_specs_blank_on_variant_mismatch() {
    // A config whose variant doesn't match the connector must not leak
    // values across connector types.
    let bedrock = ConnectionConfigView::Bedrock {
        aws_profile: Some("prod".to_string()),
        region: Some("us-east-1".to_string()),
        base_url: None,
        connect_timeout_secs: None,
        stream_timeout_secs: None,
        max_context_tokens: None,
    };
    let specs = field_specs(ConnectorType::Anthropic, Some(&bedrock));
    assert!(specs.iter().all(|f| f.initial.is_none()));
}

#[test]
fn preserved_fields_round_trip_unsurfaced_values() {
    // The dialog has no inputs for timeouts / context ceiling / keep-warm,
    // so an edit must carry the daemon's stored values through unchanged.
    let ollama = ConnectionConfigView::Ollama {
        base_url: Some("http://localhost:11434".to_string()),
        connect_timeout_secs: Some(5),
        stream_timeout_secs: Some(120),
        keep_warm: Some(true),
        max_context_tokens: Some(8192),
    };
    let p = PreservedFields::from_config(Some(&ollama));
    assert_eq!(p.connect_timeout_secs, Some(5));
    assert_eq!(p.stream_timeout_secs, Some(120));
    assert_eq!(p.keep_warm, Some(true));
    assert_eq!(p.max_context_tokens, Some(8192));

    // Non-Ollama variants have no keep_warm; the rest still round-trip.
    let bedrock = ConnectionConfigView::Bedrock {
        aws_profile: None,
        region: Some("us-west-2".to_string()),
        base_url: None,
        connect_timeout_secs: Some(3),
        stream_timeout_secs: None,
        max_context_tokens: Some(200_000),
    };
    let p = PreservedFields::from_config(Some(&bedrock));
    assert_eq!(p.connect_timeout_secs, Some(3));
    assert_eq!(p.max_context_tokens, Some(200_000));
    assert_eq!(p.keep_warm, None);

    // Create path: nothing stored.
    let p = PreservedFields::from_config(None);
    assert_eq!(p.connect_timeout_secs, None);
    assert_eq!(p.max_context_tokens, None);
    assert_eq!(p.keep_warm, None);
}
