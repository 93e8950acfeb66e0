use adele_gtk::api::{
    LogCategory, LogLevel, TaskId, TaskKind, TaskLogEntry, TaskStatus, TaskView,
};
use adele_gtk::tasks_panel::{
    cancel_id_for_selection, format_log_line, kind_label_for, open_conversation_id_for_selection,
    selection_view, status_text_for, view_model_for, TasksModel, TasksPanel, LOG_BUFFER_MAX,
};

fn running_task(id: &str, conv: &str) -> TaskView {
    TaskView {
        id: TaskId(id.into()),
        kind: TaskKind::Standalone {
            name: "agent".into(),
            conversation_id: conv.into(),
        },
        status: TaskStatus::Running,
        started_at: 1_700_000_000_000,
        ended_at: None,
        title: format!("Task {id}"),
        progress_hint: None,
    }
}

fn log_entry(seq: u64, message: &str) -> TaskLogEntry {
    TaskLogEntry {
        seq,
        level: LogLevel::Info,
        category: LogCategory::Status,
        message: message.into(),
    }
}

#[test]
fn task_row_view_model_from_task_view() {
    let t = running_task("t-1", "conv-9");
    let now = t.started_at + 12_345; // ~12 seconds later
    let vm = view_model_for(&t, now);

    assert_eq!(vm.id, "t-1");
    assert_eq!(vm.title, "Task t-1");
    assert_eq!(vm.status_class, "task-dot-running");
    assert_eq!(vm.age_text, "12s");
    assert_eq!(vm.conversation_id.as_deref(), Some("conv-9"));
    // The row now also carries a readable status + kind label so it
    // conveys what's happening, not just the title.
    assert_eq!(vm.status_text, "Running");
    assert_eq!(vm.kind_label, "Agent");
}

#[test]
fn status_text_and_kind_label_cover_all_variants() {
    assert_eq!(status_text_for(TaskStatus::Pending), "Pending");
    assert_eq!(status_text_for(TaskStatus::Running), "Running");
    assert_eq!(status_text_for(TaskStatus::Completed), "Completed");
    assert_eq!(status_text_for(TaskStatus::Failed), "Failed");
    assert_eq!(status_text_for(TaskStatus::Cancelled), "Cancelled");

    assert_eq!(
        kind_label_for(&TaskKind::Conversation {
            conversation_id: "c".into(),
        }),
        "Chat"
    );
    assert_eq!(
        kind_label_for(&TaskKind::Subagent {
            parent_task_id: TaskId("p".into()),
            conversation_id: "c".into(),
            name: "child".into(),
        }),
        "Subagent"
    );
    assert_eq!(
        kind_label_for(&TaskKind::Standalone {
            name: "agent".into(),
            conversation_id: "c".into(),
        }),
        "Agent"
    );
}

#[test]
fn task_row_view_model_completed_uses_ended_at_not_now() {
    let mut t = running_task("t-end", "c");
    t.status = TaskStatus::Completed;
    t.ended_at = Some(t.started_at + 5_000);
    let now = t.started_at + 9_999_000; // far in the future
    let vm = view_model_for(&t, now);
    assert_eq!(vm.status_class, "task-dot-completed");
    assert_eq!(vm.age_text, "5s");
}

#[test]
fn task_row_view_model_clamps_negative_age() {
    // Defensive: a daemon with a clock skew shouldn't crash the panel.
    let mut t = running_task("t-clock", "c");
    t.started_at = 1_000_000;
    let now = 999_000; // earlier than started_at
    let vm = view_model_for(&t, now);
    assert_eq!(vm.age_text, "0s");
}

#[test]
fn task_row_view_model_formats_minutes_and_hours() {
    let mut t = running_task("t-mins", "c");
    t.started_at = 0;
    assert_eq!(view_model_for(&t, 90_000).age_text, "1m 30s");
    assert_eq!(view_model_for(&t, 3_725_000).age_text, "1h 2m");
}

#[test]
fn internal_msg_task_started_inserts_row_in_store() {
    // Business outcome: a TaskStarted event lands in the model and the
    // row count goes from 0 to 1 without any GTK widget involvement.
    let mut model = TasksModel::new();
    assert_eq!(model.len(), 0);
    model.upsert(running_task("t-1", "c"));
    assert_eq!(model.len(), 1);
    assert_eq!(model.get(0).unwrap().id.0, "t-1");
}

#[test]
fn business_outcome_user_can_see_their_running_standalone_agent_appear_in_real_time() {
    // Launching a standalone agent
    // surfaces a new row in the panel without manual refresh.
    let mut model = TasksModel::new();
    model.upsert(running_task("agent-1", "conv-1"));
    let view = model.iter().collect::<Vec<_>>();
    assert_eq!(view.len(), 1);
    assert_eq!(view[0].title, "Task agent-1");
    assert_eq!(view[0].status, TaskStatus::Running);
}

#[test]
fn internal_msg_task_log_appended_appends_to_buffer() {
    let mut model = TasksModel::new();
    model.upsert(running_task("t-log", "c"));
    model.append_log("t-log", log_entry(1, "step 1"));
    model.append_log("t-log", log_entry(2, "step 2"));
    let logs = model.logs_for("t-log");
    assert_eq!(logs.len(), 2);
    assert_eq!(logs[0].message, "step 1");
    assert_eq!(logs[1].message, "step 2");
}

#[test]
fn rapid_event_burst_preserves_seq_ordering() {
    // Unhappy path: events arrive out of order during a burst — the
    // model must store them sorted by seq so the log view doesn't
    // show stale rewinds.
    let mut model = TasksModel::new();
    model.append_log("t", log_entry(3, "third"));
    model.append_log("t", log_entry(1, "first"));
    model.append_log("t", log_entry(2, "second"));
    let logs = model.logs_for("t");
    assert_eq!(
        logs.iter().map(|e| e.seq).collect::<Vec<_>>(),
        vec![1, 2, 3]
    );
}

#[test]
fn duplicate_log_seq_does_not_duplicate_entries() {
    // Unhappy path: a transient that resends the same seq must not
    // double up the buffer.
    let mut model = TasksModel::new();
    model.append_log("t", log_entry(1, "first"));
    model.append_log("t", log_entry(1, "first"));
    assert_eq!(model.logs_for("t").len(), 1);
}

#[test]
fn log_buffer_is_bounded() {
    let mut model = TasksModel::new();
    for i in 0..(LOG_BUFFER_MAX as u64 + 50) {
        model.append_log("t", log_entry(i, "x"));
    }
    assert_eq!(model.logs_for("t").len(), LOG_BUFFER_MAX);
    // Oldest entries dropped — the buffer keeps the highest-seq tail.
    let logs = model.logs_for("t");
    assert!(logs.first().unwrap().seq >= 50);
}

#[test]
fn apply_progress_updates_existing_task() {
    let mut model = TasksModel::new();
    model.upsert(running_task("t-1", "c"));
    model.apply_progress("t-1", Some("step 2/4".into()));
    assert_eq!(
        model.get(0).unwrap().progress_hint.as_deref(),
        Some("step 2/4")
    );
}

#[test]
fn apply_progress_for_unknown_task_is_noop() {
    // Unhappy path: a stray TaskProgress for an id we never saw must
    // not crash and must not introduce a phantom row.
    let mut model = TasksModel::new();
    model.apply_progress("ghost", Some("hint".into()));
    assert_eq!(model.len(), 0);
}

#[test]
fn apply_completion_removes_task_from_list() {
    let mut model = TasksModel::new();
    model.upsert(running_task("t-end", "c"));
    model.apply_completion("t-end");
    assert_eq!(model.len(), 0);
    assert!(model.position_of("t-end").is_none());
}

#[test]
fn apply_completion_drops_log_buffer() {
    let mut model = TasksModel::new();
    model.upsert(running_task("t-end", "c"));
    model.append_log("t-end", log_entry(1, "hello"));
    model.append_log("t-end", log_entry(2, "world"));
    model.apply_completion("t-end");
    assert!(model.logs_for("t-end").is_empty());
}

#[test]
fn apply_completion_for_unknown_id_is_noop() {
    let mut model = TasksModel::new();
    model.upsert(running_task("t-1", "c"));
    model.apply_completion("missing");
    assert_eq!(model.len(), 1);
}

#[test]
fn apply_completion_leaves_other_tasks_alone() {
    let mut model = TasksModel::new();
    model.upsert(running_task("keep", "c1"));
    model.upsert(running_task("drop", "c2"));
    model.apply_completion("drop");
    assert_eq!(model.len(), 1);
    assert_eq!(model.get(0).unwrap().id.0, "keep");
}

#[test]
fn replace_all_clears_orphan_log_buffers() {
    // Unhappy path: after reconnect, ListBackgroundTasks returns a new
    // snapshot. Per-task log buffers for tasks no longer in the list
    // should be reclaimed so memory doesn't grow without bound.
    let mut model = TasksModel::new();
    model.upsert(running_task("old", "c"));
    model.append_log("old", log_entry(1, "x"));
    assert_eq!(model.logs_for("old").len(), 1);

    model.replace_all(vec![running_task("new", "c")]);
    assert_eq!(model.len(), 1);
    assert_eq!(model.logs_for("old").len(), 0);
}

#[test]
fn upsert_replaces_existing_task_in_place() {
    let mut model = TasksModel::new();
    model.upsert(running_task("t-1", "c"));
    let mut updated = running_task("t-1", "c");
    updated.title = "renamed".into();
    model.upsert(updated);
    assert_eq!(model.len(), 1);
    assert_eq!(model.get(0).unwrap().title, "renamed");
}

#[test]
fn newest_task_appears_at_top_of_list() {
    let mut model = TasksModel::new();
    model.upsert(running_task("older", "c"));
    model.upsert(running_task("newer", "c"));
    assert_eq!(model.get(0).unwrap().id.0, "newer");
    assert_eq!(model.get(1).unwrap().id.0, "older");
}

#[test]
fn malformed_task_kind_does_not_crash_view_model() {
    // Unhappy path: a Conversation-kind task with empty conv id is
    // still surfaced as a row — the model should not panic on edge data.
    let t = TaskView {
        id: TaskId("t".into()),
        kind: TaskKind::Conversation {
            conversation_id: String::new(),
        },
        status: TaskStatus::Running,
        started_at: 0,
        ended_at: None,
        title: "t".into(),
        progress_hint: None,
    };
    let vm = view_model_for(&t, 1_000);
    assert_eq!(vm.conversation_id.as_deref(), Some(""));
}

#[test]
fn format_log_line_includes_level_and_category() {
    let mut e = log_entry(1, "calling search");
    e.level = LogLevel::Warn;
    e.category = LogCategory::ToolCall;
    let line = format_log_line(&e);
    assert!(line.contains("WARN"));
    assert!(line.contains("tool"));
    assert!(line.contains("calling search"));
}

#[test]
fn cancel_button_emits_cancel_command_for_selection() {
    let mut model = TasksModel::new();
    model.upsert(running_task("first", "c1"));
    model.upsert(running_task("second", "c2"));
    // newest is at index 0
    assert_eq!(
        cancel_id_for_selection(&model, Some(0)).as_deref(),
        Some("second")
    );
    assert_eq!(
        cancel_id_for_selection(&model, Some(1)).as_deref(),
        Some("first")
    );
}

#[test]
fn cancel_with_no_selection_is_noop() {
    let model = TasksModel::new();
    assert_eq!(cancel_id_for_selection(&model, None), None);
}

#[test]
fn cancel_with_stale_index_is_noop() {
    // Unhappy path: the selected row index could be beyond the current
    // model (e.g. a TaskCompleted just shrank the list).
    let model = TasksModel::new();
    assert_eq!(cancel_id_for_selection(&model, Some(42)), None);
}

#[test]
fn open_conversation_routes_to_correct_id() {
    let mut model = TasksModel::new();
    model.upsert(running_task("agent", "the-conversation"));
    assert_eq!(
        open_conversation_id_for_selection(&model, Some(0)).as_deref(),
        Some("the-conversation")
    );
}

#[test]
fn open_conversation_with_no_selection_is_noop() {
    let model = TasksModel::new();
    assert_eq!(open_conversation_id_for_selection(&model, None), None);
}

#[test]
fn a_maintenance_pass_is_an_agent_without_a_conversation() {
    let mut t = running_task("t", "c");
    t.kind = TaskKind::Maintenance;
    let vm = view_model_for(&t, t.started_at);
    assert_eq!(vm.kind_label, "Agent");
    assert_eq!(vm.conversation_id, None);
}

#[test]
fn a_new_panel_has_no_tasks_and_no_logs() {
    let panel = TasksPanel::new();
    assert!(panel.model().is_empty());
    assert!(panel.model().logs_for("t").is_empty());
    assert_eq!(panel.selected_index(), None);
}

#[test]
fn the_selection_stays_on_its_task() {
    let mut panel = TasksPanel::new();
    panel.handle_task_started(running_task("a", "c"));
    panel.select(Some(0));
    panel.handle_task_started(running_task("b", "c"));
    assert_eq!(panel.selected_index(), Some(1));
    panel.handle_task_progress("a", Some("half".to_string()));
    assert_eq!(panel.selected_index(), Some(1));
    panel.handle_task_completed("b");
    assert_eq!(panel.selected_index(), Some(0));
    assert_eq!(
        panel.handle_task_log_appended("a", log_entry(1, "hello")),
        Some(format_log_line(&log_entry(1, "hello")))
    );
    panel.replace_all(vec![running_task("x", "c"), running_task("a", "c")]);
    assert_eq!(panel.selected_index(), Some(1));
}

#[test]
fn a_completed_task_takes_the_selection_with_it() {
    let mut panel = TasksPanel::new();
    panel.handle_task_started(running_task("a", "c"));
    panel.select(Some(0));
    panel.handle_task_completed("a");
    assert_eq!(panel.selected_index(), None);
    panel.handle_task_started(running_task("a", "c"));
    assert_eq!(panel.selected_index(), None);
    let view = selection_view(panel.model(), panel.selected_index());
    assert!(!view.cancel_sensitive);
    assert!(!view.open_sensitive);
    assert_eq!(view.log.as_deref(), Some(""));
}

#[test]
fn a_listing_without_the_selected_task_drops_the_selection() {
    let mut panel = TasksPanel::new();
    panel.handle_task_started(running_task("a", "c"));
    panel.select(Some(0));
    panel.replace_all(vec![running_task("b", "c")]);
    assert_eq!(panel.selected_index(), None);
    panel.replace_all(vec![running_task("a", "c")]);
    assert_eq!(panel.selected_index(), None);
}

#[test]
fn the_second_of_two_tasks_with_one_id_can_be_selected() {
    let mut panel = TasksPanel::new();
    panel.replace_all(vec![running_task("a", "c1"), running_task("a", "c2")]);
    panel.select(Some(1));
    assert_eq!(panel.selected_index(), Some(1));
    assert_eq!(
        open_conversation_id_for_selection(panel.model(), panel.selected_index()).as_deref(),
        Some("c2")
    );
    assert!(panel
        .handle_task_log_appended("a", log_entry(1, "hello"))
        .is_some());
    assert_eq!(panel.selected_index(), Some(1));
    // A repaint looks for the id again, from the top.
    panel.handle_task_progress("a", None);
    assert_eq!(panel.selected_index(), Some(0));
}

#[test]
fn another_row_of_a_completed_id_keeps_the_selection() {
    let mut panel = TasksPanel::new();
    panel.replace_all(vec![
        running_task("a", "c1"),
        running_task("b", "c"),
        running_task("a", "c2"),
    ]);
    panel.select(Some(2));
    panel.handle_task_completed("a");
    assert_eq!(panel.selected_index(), Some(1));
    panel.handle_task_completed("a");
    assert_eq!(panel.selected_index(), None);
}

#[test]
fn a_stale_position_selects_nothing() {
    let mut panel = TasksPanel::new();
    panel.handle_task_started(running_task("a", "c"));
    panel.select(Some(0));
    panel.select(Some(7));
    assert_eq!(panel.selected_index(), None);
}
