use adele_gtk::api::ConversationSummary;
use adele_gtk::context_menu::MenuItem;
use adele_gtk::sidebar::{ConversationAction, Sidebar};

fn conversation(id: &str, count: u32, archived: bool) -> ConversationSummary {
    ConversationSummary {
        id: id.to_string(),
        title: format!("Title {id}"),
        message_count: count,
        archived,
    }
}

#[test]
fn rows_show_the_title_and_the_number_of_messages() {
    let mut sidebar = Sidebar::new();
    sidebar.set_conversations(&vec![
        conversation("a", 0, false),
        conversation("b", 1_234, true),
    ]);
    assert_eq!(sidebar.rows[0].title, "Title a");
    assert_eq!(sidebar.rows[0].count, "(0)");
    assert_eq!(sidebar.rows[1].count, "(1234)");
    assert!(sidebar.rows[1].archived);
}

#[test]
fn the_menu_acts_on_the_conversation_it_was_opened_on() {
    let mut sidebar = Sidebar::new();
    sidebar.set_conversations(&vec![conversation("a", 1, false), conversation("b", 2, true)]);
    let menu = sidebar.rows[1].menu();
    sidebar.set_conversations(&vec![conversation("c", 3, false)]);
    assert_eq!(
        menu,
        vec![
            MenuItem::new(
                "Rename".to_string(),
                ConversationAction::Rename("b".to_string())
            ),
            MenuItem::new(
                "Unarchive".to_string(),
                ConversationAction::Archive("b".to_string())
            ),
            MenuItem::destructive(
                "Delete".to_string(),
                ConversationAction::Delete("b".to_string())
            ),
        ]
    );
    assert_eq!(sidebar.rows[0].menu()[1].label, "Archive");
}

#[test]
fn only_an_existing_row_can_be_selected() {
    let mut sidebar = Sidebar::new();
    sidebar.select_index(0);
    assert_eq!(sidebar.selected_index(), None);
    sidebar.set_conversations(&vec![conversation("a", 1, false), conversation("b", 2, false)]);
    sidebar.select_index(1);
    sidebar.select_index(2);
    assert_eq!(sidebar.selected_index(), Some(1));
    sidebar.set_conversations(&vec![conversation("a", 1, false)]);
    assert_eq!(sidebar.selected_index(), None);
    assert!(sidebar.show_archived_toggled(true));
    assert!(sidebar.show_archived);
}

#[test]
fn a_selection_can_be_cleared() {
    let mut sidebar = Sidebar::new();
    sidebar.set_conversations(&vec![conversation("a", 1, false)]);
    sidebar.show_archived_toggled(true);
    sidebar.select_index(0);
    sidebar.clear_selection();
    assert_eq!(sidebar.selected_index(), None);
    assert_eq!(sidebar.rows.len(), 1);
    assert!(sidebar.show_archived);
}
