use adele_gtk::api::{ChatMessage, ConversationDetail, MessageKind};
use adele_gtk::chat_view::{kind_marker, role_label, turn_menu, Block, ChatView, Page, PLACEHOLDER};
use adele_gtk::context_menu::MenuItem;
use adele_gtk::transcript::{entry_index_at_offset, TranscriptEntry, TurnIdAction};

fn message(role: &str, content: &str, key: Option<&str>) -> ChatMessage {
    ChatMessage {
        role: role.to_string(),
        content: content.to_string(),
        kind: MessageKind::Normal,
        idempotency_key: key.map(str::to_string),
    }
}

fn loaded() -> ChatView {
    let mut view = ChatView::new();
    view.load_conversation(&ConversationDetail {
        messages: vec![
            message("user", "hello", Some("turn-1")),
            message("assistant", "hi", None),
            message("system", "note", None),
        ],
    });
    view
}

fn block(label: &str, content: &str) -> Block {
    Block {
        label: label.to_string(),
        content: content.to_string(),
    }
}

#[test]
fn markers_tell_spoken_lines_apart() {
    assert_eq!(kind_marker(MessageKind::Normal), "");
    assert_eq!(kind_marker(MessageKind::Spoken), " · Spoken");
    assert_eq!(kind_marker(MessageKind::SpeechDisabled), " · speech off");
}

#[test]
fn labels_name_who_speaks() {
    let entry = |role: &str, kind: MessageKind| {
        TranscriptEntry::new(role.to_string(), String::new(), kind, None)
    };
    assert_eq!(role_label(&entry("user", MessageKind::Spoken)), "You");
    assert_eq!(
        role_label(&entry("assistant", MessageKind::Spoken)),
        "Adele · Spoken"
    );
    assert_eq!(role_label(&entry("assistant", MessageKind::Normal)), "Adele");
    assert_eq!(role_label(&entry("tool", MessageKind::Normal)), "");
}

#[test]
fn an_empty_transcript_shows_the_placeholder() {
    assert_eq!(ChatView::new().render(), Page::Placeholder(PLACEHOLDER));
}

#[test]
fn a_transcript_shows_its_messages_and_then_the_reply_coming_in() {
    let mut view = loaded();
    view.receive_chunk("on my ");
    view.receive_chunk("way");
    assert_eq!(
        view.render(),
        Page::Blocks(vec![
            block("You", "hello"),
            block("Adele", "hi"),
            block("", "note"),
            block("Adele", "on my way"),
        ])
    );
    view.complete_streaming("on my way.");
    view.add_local_message("psst", MessageKind::SpeechDisabled);
    view.add_user_message("thanks", Some("turn-2".to_string()));
    assert_eq!(
        view.render(),
        Page::Blocks(vec![
            block("You", "hello"),
            block("Adele", "hi"),
            block("", "note"),
            block("Adele", "on my way."),
            block("Adele · speech off", "psst"),
            block("You", "thanks"),
        ])
    );
    view.clear();
    assert_eq!(view.render(), Page::Placeholder(PLACEHOLDER));
}

#[test]
fn a_click_copies_the_id_of_the_turn_under_it() {
    let view = loaded();
    let clicked = view.generation();
    assert_eq!(
        view.turn_id_action_at(clicked, 0),
        TurnIdAction::Copy("turn-1".to_string())
    );
    assert_eq!(view.turn_id_action_at(clicked, 1), TurnIdAction::Unavailable);
    assert_eq!(view.turn_id_action_at(clicked, 9), TurnIdAction::Unavailable);
    assert_eq!(
        view.turn_id_action_for_hit(clicked, None),
        TurnIdAction::Unavailable
    );
}

#[test]
fn a_click_in_flight_survives_an_append_and_not_a_reload() {
    let mut view = loaded();
    let clicked = view.generation();
    view.add_user_message("more", None);
    assert_eq!(
        view.turn_id_action_at(clicked, 0),
        TurnIdAction::Copy("turn-1".to_string())
    );
    view.load_conversation(&ConversationDetail {
        messages: vec![message("user", "another", Some("turn-9"))],
    });
    assert_eq!(view.turn_id_action_at(clicked, 0), TurnIdAction::Unavailable);
    view.clear();
    assert_eq!(view.generation(), clicked + 2);
}

#[test]
fn generations_wrap_around() {
    let mut view = ChatView::new();
    view.generation = u64::MAX;
    view.clear();
    assert_eq!(view.generation(), 0);
}

#[test]
fn an_offset_belongs_to_the_last_entry_that_begins_before_it() {
    let starts = vec![0, 10, 10, 25];
    assert_eq!(entry_index_at_offset(&starts, 0), Some(0));
    assert_eq!(entry_index_at_offset(&starts, 9), Some(0));
    assert_eq!(entry_index_at_offset(&starts, 10), Some(2));
    assert_eq!(entry_index_at_offset(&starts, 1_000), Some(3));
    assert_eq!(entry_index_at_offset(&starts, -1), None);
    assert_eq!(entry_index_at_offset(&Vec::new(), 3), None);

    let mut view = loaded();
    view.rendered(vec![0, 12, 20]);
    assert_eq!(
        view.turn_id_action_at_offset(11),
        TurnIdAction::Copy("turn-1".to_string())
    );
    assert_eq!(view.turn_id_action_at_offset(12), TurnIdAction::Unavailable);
    assert_eq!(view.turn_id_action_at_offset(-5), TurnIdAction::Unavailable);
}

#[test]
fn the_turn_menu_offers_to_copy_a_selection() {
    assert_eq!(
        turn_menu(TurnIdAction::Copy("turn-1".to_string()), "some words"),
        vec![
            MenuItem::new("Copy".to_string(), "some words".to_string()),
            MenuItem::new("Copy turn id".to_string(), "turn-1".to_string()),
        ]
    );
    assert_eq!(
        turn_menu(TurnIdAction::Unavailable, ""),
        vec![MenuItem::unavailable("Copy turn id".to_string())]
    );
}
