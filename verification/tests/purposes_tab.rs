use adele_gtk::api::{
    ConnectionView, EffortLevel, ModelCapabilitiesView, ModelInfoView, ModelListing,
    PurposeConfigView, PurposeKindApi,
};
use adele_gtk::purposes_tab::{
    connection_options, list_needs_sync, model_options, planned_write, should_request_models,
    ModelListState, RowSelection, PRIMARY_SENTINEL,
};

fn sel(connection: Option<&str>, model: Option<&str>) -> RowSelection {
    RowSelection {
        connection: connection.map(str::to_string),
        model: model.map(str::to_string),
        effort: None,
        max_context_tokens: None,
    }
}

fn cfg(connection: &str, model: &str) -> PurposeConfigView {
    PurposeConfigView {
        connection: connection.into(),
        model: model.into(),
        effort: None,
        max_context_tokens: None,
    }
}

fn conn(id: &str, connector_type: &str) -> ConnectionView {
    ConnectionView {
        id: id.into(),
        connector_type: connector_type.into(),
        config: None,
    }
}

fn listing(connection_id: &str, model_id: &str, display_name: &str) -> ModelListing {
    ModelListing {
        connection_id: connection_id.into(),
        connection_label: connection_id.into(),
        model: ModelInfoView {
            id: model_id.into(),
            display_name: display_name.into(),
            capabilities: ModelCapabilitiesView::default(),
        },
    }
}

fn loaded(connection_id: &str, models: &[(&str, &str)]) -> ModelListState {
    ModelListState::Loaded(
        models
            .iter()
            .map(|(id, name)| listing(connection_id, id, name))
            .collect(),
    )
}

// -- The hang: a rebuild must not be able to cause another rebuild. ------

/// A rebuild writes to the row's `StringList`s, and every write emits
/// `items-changed`, which makes the bound `DropDown` emit
/// `notify::selected`. A notification GTK delivers after the rebuild
/// returns re-enters the connection handler and rebuilds again. The cycle
/// terminates only if a rebuild that changes nothing writes nothing, so
/// the second pass emits no signal.
#[test]
fn a_rebuild_cannot_trigger_another_rebuild() {
    let connections = vec![conn("bedrock", "bedrock"), conn("ollama", "ollama")];
    let state = loaded("bedrock", &[("zai.glm-5", "GLM 5")]);

    for purpose in PurposeKindApi::all() {
        let conn_opts = connection_options(purpose, &connections);
        assert!(
            !list_needs_sync(&conn_opts.labels, &conn_opts.labels),
            "{purpose:?}: rebuilding the connection list with its own contents must write nothing"
        );

        for candidate in [
            Some(&state),
            Some(&ModelListState::Pending),
            Some(&ModelListState::Failed("connection is not live".into())),
            None,
        ] {
            let model_opts = model_options(purpose, Some("bedrock"), candidate);
            assert!(
                !list_needs_sync(&model_opts.labels, &model_opts.labels),
                "{purpose:?}/{candidate:?}: rebuilding the model list with its own contents must write nothing"
            );
        }
    }
}

/// Switching the provider changes the model list exactly once: the first
/// rebuild writes, and recomputing for the same connection does not.
#[test]
fn changing_the_connection_rebuilds_the_model_list_once() {
    let purpose = PurposeKindApi::Embedding;
    let bedrock = loaded("bedrock", &[("zai.glm-5", "GLM 5")]);
    let ollama = loaded("ollama", &[("nomic-embed-text", "Nomic Embed")]);

    let before = model_options(purpose, Some("bedrock"), Some(&bedrock));
    let after = model_options(purpose, Some("ollama"), Some(&ollama));
    assert!(
        list_needs_sync(&before.labels, &after.labels),
        "switching bedrock -> ollama must change the model list"
    );

    let again = model_options(purpose, Some("ollama"), Some(&ollama));
    assert!(
        !list_needs_sync(&after.labels, &again.labels),
        "recomputing for the same connection must not change the model list"
    );
}

#[test]
fn an_unchanged_connection_list_is_not_rewritten() {
    let connections = vec![conn("bedrock", "bedrock")];
    let first = connection_options(PurposeKindApi::Voice, &connections);
    let second = connection_options(PurposeKindApi::Voice, &connections);
    assert!(!list_needs_sync(&first.labels, &second.labels));
}

#[test]
fn a_genuinely_different_list_is_rewritten() {
    assert!(list_needs_sync(
        &vec!["a".to_string()],
        &vec!["a".to_string(), "b".to_string()]
    ));
    assert!(list_needs_sync(
        &vec!["a".to_string()],
        &vec!["b".to_string()]
    ));
    assert!(!list_needs_sync(
        &vec!["a".to_string()],
        &vec!["a".to_string()]
    ));
}

// -- The model-list request must not repeat. ----------------------------

/// A failed list was never cached, so every reconcile
/// re-fired the same doomed request. One request per connection, whatever
/// the outcome.
#[test]
fn failed_model_list_is_requested_once_per_connection() {
    assert!(
        should_request_models(Some("bedrock"), None),
        "a connection with no recorded state must be requested once"
    );
    assert!(
        !should_request_models(Some("bedrock"), Some(&ModelListState::Pending)),
        "a request already in flight must not be repeated"
    );
    assert!(
        !should_request_models(
            Some("bedrock"),
            Some(&ModelListState::Failed("not live".into()))
        ),
        "a failed list must not be re-requested on every reconcile"
    );
    assert!(
        !should_request_models(
            Some("bedrock"),
            Some(&loaded("bedrock", &[("zai.glm-5", "GLM 5")]))
        ),
        "a loaded list must not be re-requested"
    );
}

#[test]
fn the_inherit_sentinel_never_requests_a_model_list() {
    assert!(!should_request_models(Some(PRIMARY_SENTINEL), None));
    assert!(!should_request_models(None, None));
}

// -- A failed list must be visible, and must not be writable. -----------

#[test]
fn model_list_failure_is_surfaced_on_the_row() {
    let opts = model_options(
        PurposeKindApi::Embedding,
        Some("bedrock"),
        Some(&ModelListState::Failed("connection is not live".into())),
    );
    assert!(
        opts.labels.iter().any(|l| l.contains("unavailable")),
        "the row must say the list failed, not show an empty dropdown: {:?}",
        opts.labels
    );
}

#[test]
fn a_pending_model_list_is_surfaced_on_the_row() {
    let opts = model_options(
        PurposeKindApi::Embedding,
        Some("bedrock"),
        Some(&ModelListState::Pending),
    );
    assert!(
        opts.labels.iter().any(|l| l.contains("Loading")),
        "an in-flight list must show as loading: {:?}",
        opts.labels
    );
}

/// A label with no matching value cannot be turned into a binding: the
/// row reads it back as "nothing real selected", which `planned_write`
/// already refuses.
#[test]
fn purpose_row_with_unavailable_models_is_not_writable() {
    let opts = model_options(
        PurposeKindApi::Embedding,
        Some("bedrock"),
        Some(&ModelListState::Failed("not live".into())),
    );
    let notice_idx = opts
        .labels
        .iter()
        .position(|l| l.contains("unavailable"))
        .expect("the failure notice must be present");
    let selected = opts.values.get(notice_idx).cloned();
    assert_eq!(
        selected, None,
        "selecting the failure notice must not yield a model value"
    );
    assert_eq!(
        planned_write(
            PurposeKindApi::Embedding,
            &sel(Some("bedrock"), selected.as_deref()),
            None
        ),
        None,
        "a row whose model list failed must not be writable"
    );
}

// -- Option contents. ---------------------------------------------------

#[test]
fn only_non_interactive_purposes_offer_the_inherit_sentinel() {
    let connections = vec![conn("bedrock", "bedrock")];

    let interactive = connection_options(PurposeKindApi::Interactive, &connections);
    assert!(
        !interactive.values.iter().any(|v| v == PRIMARY_SENTINEL),
        "Interactive has no primary above it, so it must not offer inherit"
    );

    let embedding = connection_options(PurposeKindApi::Embedding, &connections);
    assert_eq!(
        embedding.values.first().map(String::as_str),
        Some(PRIMARY_SENTINEL)
    );
}

#[test]
fn every_option_label_past_the_values_is_a_notice() {
    // The mirror contract: `values[i]` names what `labels[i]` selects.
    // Extra trailing labels are notices, which is what makes them
    // unselectable as a binding.
    let connections = vec![conn("bedrock", "bedrock")];
    let opts = connection_options(PurposeKindApi::Embedding, &connections);
    assert_eq!(opts.labels.len(), opts.values.len());

    let loaded_opts = model_options(
        PurposeKindApi::Embedding,
        Some("bedrock"),
        Some(&loaded("bedrock", &[("zai.glm-5", "GLM 5")])),
    );
    assert_eq!(loaded_opts.labels.len(), loaded_opts.values.len());
}

#[test]
fn reconciling_to_server_state_is_not_a_write() {
    // The loop: refresh -> reconcile -> stray notify -> emit -> refresh.
    // Reconcile sets the widgets to exactly `last_known`, so the write it
    // would produce is a no-op and must be dropped.
    let server = cfg("bedrock", "zai.glm-5");
    assert_eq!(
        planned_write(
            PurposeKindApi::Embedding,
            &sel(Some("bedrock"), Some("zai.glm-5")),
            Some(&server),
        ),
        None
    );
}

#[test]
fn unavailable_model_list_is_not_writable() {
    // Bedrock's model list failed, so the dropdown holds nothing real.
    // The row must not be writable at all.
    assert_eq!(
        planned_write(
            PurposeKindApi::Embedding,
            &sel(Some("bedrock"), None),
            None
        ),
        None
    );
}

#[test]
fn unavailable_connection_list_is_not_writable() {
    assert_eq!(
        planned_write(
            PurposeKindApi::Embedding,
            &sel(None, Some("nomic-embed-text")),
            None
        ),
        None
    );
}

#[test]
fn mixed_primary_pair_is_never_emitted() {
    // The exact shape that retired a live binding in production:
    // a real connection with the inherit sentinel as the model.
    assert_eq!(
        planned_write(
            PurposeKindApi::Embedding,
            &sel(Some("bedrock"), Some(PRIMARY_SENTINEL)),
            Some(&cfg("default", "nomic-embed-text")),
        ),
        None
    );
}

#[test]
fn mixed_primary_pair_is_never_emitted_in_either_order() {
    assert_eq!(
        planned_write(
            PurposeKindApi::Embedding,
            &sel(Some(PRIMARY_SENTINEL), Some("zai.glm-5")),
            None
        ),
        None
    );
}

#[test]
fn interactive_cannot_inherit() {
    // There is no primary above interactive to inherit from.
    assert_eq!(
        planned_write(
            PurposeKindApi::Interactive,
            &sel(Some(PRIMARY_SENTINEL), Some(PRIMARY_SENTINEL)),
            None
        ),
        None
    );
}

#[test]
fn a_genuine_change_is_a_write() {
    assert_eq!(
        planned_write(
            PurposeKindApi::Embedding,
            &sel(Some("default"), Some("nomic-embed-text")),
            Some(&cfg("bedrock", "zai.glm-5")),
        ),
        Some(cfg("default", "nomic-embed-text"))
    );
}

#[test]
fn a_deliberate_inherit_pair_is_a_write() {
    assert_eq!(
        planned_write(
            PurposeKindApi::Dreaming,
            &sel(Some(PRIMARY_SENTINEL), Some(PRIMARY_SENTINEL)),
            Some(&cfg("bedrock", "zai.glm-5")),
        ),
        Some(cfg(PRIMARY_SENTINEL, PRIMARY_SENTINEL))
    );
}

#[test]
fn an_effort_only_change_is_a_write() {
    let current = RowSelection {
        connection: Some("bedrock".into()),
        model: Some("zai.glm-5".into()),
        effort: Some(EffortLevel::High),
        max_context_tokens: None,
    };
    let written = planned_write(
        PurposeKindApi::Titling,
        &current,
        Some(&cfg("bedrock", "zai.glm-5")),
    )
    .expect("changing only the effort is still a real change");
    assert_eq!(written.effort, Some(EffortLevel::High));
}

#[test]
fn a_context_window_override_is_preserved() {
    // SetPurpose is a full replace and the UI does not edit this field,
    // so an override set elsewhere must survive a dropdown edit.
    let current = RowSelection {
        connection: Some("default".into()),
        model: Some("nomic-embed-text".into()),
        effort: None,
        max_context_tokens: Some(8192),
    };
    let written = planned_write(
        PurposeKindApi::Embedding,
        &current,
        Some(&cfg("bedrock", "zai.glm-5")),
    )
    .expect("a real change");
    assert_eq!(written.max_context_tokens, Some(8192));
}

#[test]
fn first_write_with_no_known_server_state_is_allowed() {
    assert_eq!(
        planned_write(
            PurposeKindApi::Voice,
            &sel(Some("bedrock"), Some("zai.glm-5")),
            None
        ),
        Some(cfg("bedrock", "zai.glm-5"))
    );
}
