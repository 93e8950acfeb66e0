use adele_gtk::api::ScratchpadNoteView;
use adele_gtk::conversation_side_pane::{goal_note, group_notes};

fn note(
    key: &str,
    content: &str,
    note_type: &str,
    seq: Option<i32>,
    done: bool,
) -> ScratchpadNoteView {
    ScratchpadNoteView {
        key: key.to_string(),
        content: content.to_string(),
        note_type: note_type.to_string(),
        sequence: seq,
        done,
    }
}

#[test]
fn group_notes_orders_todos_by_sequence_then_groups_todo_first() {
    let notes = vec![
        note("b", "second", "todo", Some(2), false),
        note("misc", "a plain note", "note", None, false),
        note("a", "first", "todo", Some(1), false),
        note("c", "third", "todo", None, false), // no sequence -> last
    ];
    let groups = group_notes(&notes);
    assert_eq!(groups.len(), 2);
    // todo group comes first.
    assert_eq!(groups[0].note_type, "todo");
    let keys: Vec<&str> = groups[0].notes.iter().map(|n| n.key.as_str()).collect();
    assert_eq!(keys, vec!["a", "b", "c"], "seq asc, nulls last");
    assert_eq!(groups[1].note_type, "note");
}

#[test]
fn goal_note_is_extracted_and_excluded_from_groups() {
    let notes = vec![
        note("goal", "ship the pane", "note", None, false),
        note("n1", "a note", "note", None, false),
    ];
    assert_eq!(goal_note(&notes).unwrap().content, "ship the pane");
    let groups = group_notes(&notes);
    // The goal note must not appear in any group.
    assert!(
        groups
            .iter()
            .all(|g| g.notes.iter().all(|n| n.key != "goal")),
        "goal is rendered separately, not in a group"
    );
}

#[test]
fn group_notes_empty_is_empty() {
    assert!(group_notes(&Vec::new()).is_empty());
}

#[test]
fn the_groups_do_not_depend_on_the_order_of_the_notes() {
    let notes = vec![
        note("b", "second", "todo", Some(2), false),
        note("misc", "a plain note", "note", None, false),
        note("a", "first", "todo", Some(2), false),
        note("idea", "another", "idea", Some(7), true),
    ];
    let mut others = notes.clone();
    others.reverse();
    assert_eq!(group_notes(&others), group_notes(&notes));
}
