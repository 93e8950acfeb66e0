use adele_gtk::api::{
    ConversationModelSelectionView, ModelCapabilitiesView, ModelInfoView, ModelListing,
    SelectedModel, SendPromptOverride,
};
use adele_gtk::model_picker::{
    contains_model, format_label, keep_connection, label_for, ModelPicker, StoredModels,
    DEFAULT_LABEL,
};
use adele_gtk::select_models_dialog::{chosen_models, display_label, model_groups};

fn listing(connection: &str, id: &str, name: &str, embedding: bool) -> ModelListing {
    ModelListing {
        connection_id: connection.to_string(),
        connection_label: format!("{connection} label"),
        model: ModelInfoView {
            id: id.to_string(),
            display_name: name.to_string(),
            capabilities: ModelCapabilitiesView { embedding },
        },
    }
}

fn offered() -> Vec<ModelListing> {
    vec![
        listing("bedrock", "embed", "Embed", true),
        listing("ollama", "llama", "Llama", false),
        listing("bedrock", "glm", "", false),
        listing("ollama", "qwen", "Qwen", false),
    ]
}

fn picked(connection: &str, model: &str) -> SelectedModel {
    SelectedModel {
        connection_id: connection.to_string(),
        model_id: model.to_string(),
    }
}

#[test]
fn a_label_names_the_model_and_its_connection() {
    let models = offered();
    assert_eq!(format_label(&models[1]), "Llama · ollama label");
    assert_eq!(format_label(&models[2]), "glm · bedrock label");
    assert_eq!(
        label_for(&picked("ollama", "qwen"), &models),
        "Qwen · ollama label"
    );
    assert_eq!(label_for(&picked("gone", "m"), &models), "m · gone");
}

#[test]
fn the_first_launch_seeds_the_first_model_that_can_chat() {
    let mut picker = ModelPicker::new();
    assert!(!picker.is_sensitive());
    let saved = picker.set_models(&offered(), StoredModels::Missing);
    assert_eq!(saved, Some(vec![picked("ollama", "llama")]));
    assert_eq!(picker.selected, vec![picked("ollama", "llama")]);
    assert_eq!(picker.available.len(), 3);
    assert!(picker.is_sensitive());

    let mut bare = ModelPicker::new();
    let saved = bare.set_models(
        &vec![listing("bedrock", "embed", "Embed", true)],
        StoredModels::Missing,
    );
    assert_eq!(saved, Some(Vec::new()));
    assert!(!bare.is_sensitive());
}

#[test]
fn a_saved_list_is_respected_even_when_it_is_empty() {
    let mut picker = ModelPicker::new();
    assert_eq!(
        picker.set_models(&offered(), StoredModels::Loaded(Vec::new())),
        None
    );
    assert!(picker.selected.is_empty());
    assert!(picker.menu_labels().is_empty());

    let kept = vec![picked("gone", "m"), picked("bedrock", "glm")];
    picker.set_models(&offered(), StoredModels::Loaded(kept.clone()));
    assert_eq!(picker.selected, kept);
    assert_eq!(picker.menu_labels(), vec!["m · gone", "glm · bedrock label"]);

    picker.set_models(&offered(), StoredModels::Unreadable);
    assert!(picker.selected.is_empty());
}

#[test]
fn the_override_is_the_picked_model() {
    let mut picker = ModelPicker::new();
    picker.set_models(
        &offered(),
        StoredModels::Loaded(vec![picked("bedrock", "glm"), picked("ollama", "qwen")]),
    );
    assert_eq!(picker.button_label(), DEFAULT_LABEL);
    assert_eq!(picker.current_override(), None);

    picker.pick(7);
    assert_eq!(picker.current_override(), None);
    picker.pick(1);
    assert_eq!(picker.button_label(), "Qwen · ollama label");
    assert_eq!(
        picker.current_override(),
        Some(SendPromptOverride {
            connection_id: "ollama".to_string(),
            model_id: "qwen".to_string(),
            effort: None,
        })
    );

    picker.set_selection(Some(&ConversationModelSelectionView {
        connection_id: "bedrock".to_string(),
        model_id: "glm".to_string(),
    }));
    assert_eq!(picker.button_label(), "glm · bedrock label");
    picker.set_selection(None);
    assert_eq!(picker.current_override(), None);
}

#[test]
fn a_picked_model_that_leaves_the_list_is_dropped() {
    let mut picker = ModelPicker::new();
    picker.set_models(
        &offered(),
        StoredModels::Loaded(vec![picked("bedrock", "glm"), picked("ollama", "qwen")]),
    );
    picker.pick(0);
    picker.save_chosen(vec![picked("bedrock", "glm")]);
    assert_eq!(picker.active, Some(picked("bedrock", "glm")));
    picker.save_chosen(vec![picked("ollama", "qwen")]);
    assert_eq!(picker.active, None);
    picker.set_visible(false);
    assert!(!picker.visible);
}

#[test]
fn models_are_grouped_in_the_order_the_daemon_listed_them() {
    let groups = model_groups(&offered(), &vec![picked("ollama", "qwen")]);
    let shape: Vec<(&str, &str, Vec<(&str, bool)>)> = groups
        .iter()
        .map(|g| {
            (
                g.connection_id.as_str(),
                g.connection_label.as_str(),
                g.choices
                    .iter()
                    .map(|c| (c.label.as_str(), c.checked))
                    .collect(),
            )
        })
        .collect();
    assert_eq!(
        shape,
        vec![
            (
                "ollama",
                "ollama label",
                vec![("Llama (llama)", false), ("Qwen (qwen)", true)]
            ),
            ("bedrock", "bedrock label", vec![("glm", false)]),
        ]
    );
    assert_eq!(display_label(&offered()[2]), "glm");
    assert!(model_groups(&vec![listing("b", "e", "E", true)], &Vec::new()).is_empty());
}

#[test]
fn saving_the_boxes_keeps_the_listed_models_in_order() {
    let curated = vec![
        picked("bedrock", "glm"),
        picked("gone", "m"),
        picked("ollama", "llama"),
    ];
    let mut groups = model_groups(&offered(), &curated);
    assert_eq!(
        chosen_models(&groups),
        vec![picked("ollama", "llama"), picked("bedrock", "glm")]
    );
    groups[0].choices[1].checked = true;
    groups[1].choices[0].checked = false;
    assert_eq!(
        chosen_models(&groups),
        vec![picked("ollama", "llama"), picked("ollama", "qwen")]
    );
}

#[test]
fn a_connection_keeps_its_own_listings() {
    let own = keep_connection(&offered(), "bedrock");
    let ids: Vec<&str> = own.iter().map(|l| l.model.id.as_str()).collect();
    assert_eq!(ids, vec!["embed", "glm"]);
    assert!(contains_model(&vec![picked("a", "b")], &picked("a", "b")));
    assert!(!contains_model(&vec![picked("a", "b")], &picked("b", "a")));
}
