//! The process-manager panel: a list of background tasks and the log of the
//! selected one.

use crate::api::{
    LogCategory, LogLevel, TaskId, TaskKind, TaskLogEntry, TaskStatus, TaskView,
};
use crate::text::{decimal, decimal_text, join, joined, opt_text, same_text, texts};
use vstd::prelude::*;

verus! {

/// View-model for a single row in the tasks list.
#[derive(Debug, PartialEq, Eq)]
pub struct TaskRowViewModel {
    pub id: String,
    pub title: String,
    /// The class of the status dot: one of `task-dot-pending`,
    /// `task-dot-running`, `task-dot-completed`, `task-dot-failed`,
    /// `task-dot-cancelled`.
    pub status_class: String,
    /// Human-readable status, so the dot colour is not the only signal of what
    /// the task is doing.
    pub status_text: String,
    /// Short label for the task kind: `"Chat"`, `"Subagent"` or `"Agent"`.
    pub kind_label: String,
    /// Human-readable elapsed time, e.g. `"3s"`, `"4m 12s"`, `"1h 2m"`.
    pub age_text: String,
    /// Conversation id the task is associated with, if any.
    pub conversation_id: Option<String>,
}

/// The class of a status dot.
pub open spec fn class_of(status: TaskStatus) -> Seq<char> {
    match status {
        TaskStatus::Pending => "task-dot-pending"@,
        TaskStatus::Running => "task-dot-running"@,
        TaskStatus::Completed => "task-dot-completed"@,
        TaskStatus::Failed => "task-dot-failed"@,
        TaskStatus::Cancelled => "task-dot-cancelled"@,
    }
}

/// A status in words.
pub open spec fn status_word(status: TaskStatus) -> Seq<char> {
    match status {
        TaskStatus::Pending => "Pending"@,
        TaskStatus::Running => "Running"@,
        TaskStatus::Completed => "Completed"@,
        TaskStatus::Failed => "Failed"@,
        TaskStatus::Cancelled => "Cancelled"@,
    }
}

/// A kind in a word. A maintenance pass is the agent's own work, outside any
/// conversation.
pub open spec fn kind_word(kind: TaskKind) -> Seq<char> {
    match kind {
        TaskKind::Conversation { .. } => "Chat"@,
        TaskKind::Subagent { .. } => "Subagent"@,
        TaskKind::Standalone { .. } => "Agent"@,
        TaskKind::Maintenance => "Agent"@,
    }
}

/// The conversation that a task belongs to.
pub open spec fn conversation_of(kind: TaskKind) -> Option<Seq<char>> {
    match kind {
        TaskKind::Conversation { conversation_id } => Some(conversation_id@),
        TaskKind::Subagent { conversation_id, .. } => Some(conversation_id@),
        TaskKind::Standalone { conversation_id, .. } => Some(conversation_id@),
        TaskKind::Maintenance => None,
    }
}

/// The class of a status dot.
pub fn status_class_for(status: TaskStatus) -> (r: String)
    ensures
        r@ == class_of(status),
{
    match status {
        TaskStatus::Pending => "task-dot-pending",
        TaskStatus::Running => "task-dot-running",
        TaskStatus::Completed => "task-dot-completed",
        TaskStatus::Failed => "task-dot-failed",
        TaskStatus::Cancelled => "task-dot-cancelled",
    }.to_owned()
}

/// A status in words.
pub fn status_text_for(status: TaskStatus) -> (r: &'static str)
    ensures
        r@ == status_word(status),
{
    match status {
        TaskStatus::Pending => "Pending",
        TaskStatus::Running => "Running",
        TaskStatus::Completed => "Completed",
        TaskStatus::Failed => "Failed",
        TaskStatus::Cancelled => "Cancelled",
    }
}

/// Whether `label` is one of the labels that a kind can have.
pub open spec fn is_kind_label(label: Seq<char>) -> bool {
    label == "Chat"@ || label == "Subagent"@ || label == "Agent"@
}

/// A kind in a word: always one of three.
pub fn kind_label_for(kind: &TaskKind) -> (r: &'static str)
    ensures
        r@ == kind_word(*kind),
        is_kind_label(r@),
{
    match kind {
        TaskKind::Conversation { .. } => "Chat",
        TaskKind::Subagent { .. } => "Subagent",
        TaskKind::Standalone { .. } => "Agent",
        TaskKind::Maintenance => "Agent",
    }
}

/// The conversation that a task belongs to. Maintenance passes are not tied to
/// one.
pub fn conversation_id_for(kind: &TaskKind) -> (r: Option<String>)
    ensures
        opt_text(r) == conversation_of(*kind),
{
    match kind {
        TaskKind::Conversation { conversation_id } => Some(conversation_id.clone()),
        TaskKind::Subagent { conversation_id, .. } => Some(conversation_id.clone()),
        TaskKind::Standalone { conversation_id, .. } => Some(conversation_id.clone()),
        TaskKind::Maintenance => None,
    }
}

/// The whole seconds from `started_at` to `end`; none where the clock ran
/// backwards.
pub open spec fn age_seconds(started_at: int, end: int) -> nat {
    if end <= started_at {
        0
    } else {
        ((end - started_at) / 1000) as nat
    }
}

/// A number of seconds in the two largest units it needs.
pub open spec fn duration_text(secs: nat) -> Seq<char> {
    if secs < 60 {
        decimal(secs) + "s"@
    } else if secs < 3600 {
        decimal(secs / 60) + "m "@ + decimal(secs % 60) + "s"@
    } else {
        decimal(secs / 3600) + "h "@ + decimal(secs / 60 % 60) + "m"@
    }
}

/// How long a task has run: to its end, or to now while it has none.
pub open spec fn age_of(started_at: int, ended_at: Option<i64>, now_ms: int) -> Seq<char> {
    duration_text(
        age_seconds(
            started_at,
            match ended_at {
                Some(end) => end as int,
                None => now_ms,
            },
        ),
    )
}

/// Format the elapsed time between `started_at` and either `ended_at` or
/// `now_ms`. Negative values are clamped to `0s` defensively so a wonky clock
/// from the daemon does not break the row.
pub fn format_age(started_at: i64, ended_at: Option<i64>, now_ms: i64) -> (r: String)
    ensures
        r@ == age_of(started_at as int, ended_at, now_ms as int),
{
    let end: i64 = match ended_at {
        Some(end) => end,
        None => now_ms,
    };
    let secs: u64 = if end <= started_at {
        0
    } else {
        (((end as i128) - (started_at as i128)) / 1000) as u64
    };
    if secs < 60 {
        return decimal_text(secs).concat("s");
    }
    let mins: u64 = secs / 60;
    if mins < 60 {
        let mut out = decimal_text(mins);
        out.append("m ");
        out.append(decimal_text(secs % 60).as_str());
        out.append("s");
        return out;
    }
    let mut out = decimal_text(mins / 60);
    out.append("h ");
    out.append(decimal_text(mins % 60).as_str());
    out.append("m");
    assert(mins / 60 == secs / 3600);
    out
}

impl TaskRowViewModel {
    /// The row shows `task` at `now_ms`.
    pub open spec fn shows(self, task: TaskView, now_ms: int) -> bool {
        &&& self.id@ == task.id.0@
        &&& self.title@ == task.title@
        &&& self.status_class@ == class_of(task.status)
        &&& self.status_text@ == status_word(task.status)
        &&& self.kind_label@ == kind_word(task.kind)
        &&& self.age_text@ == age_of(task.started_at as int, task.ended_at, now_ms)
        &&& opt_text(self.conversation_id) == conversation_of(task.kind)
    }
}

/// Convert a task into the row's display values given the current wall-clock in
/// epoch milliseconds.
pub fn view_model_for(task: &TaskView, now_ms: i64) -> (r: TaskRowViewModel)
    ensures
        r.shows(*task, now_ms as int),
        is_kind_label(r.kind_label@),
{
    TaskRowViewModel {
        id: task.id.0.clone(),
        title: task.title.clone(),
        status_class: status_class_for(task.status),
        status_text: status_text_for(task.status).to_owned(),
        kind_label: kind_label_for(&task.kind).to_owned(),
        age_text: format_age(task.started_at, task.ended_at, now_ms),
        conversation_id: conversation_id_for(&task.kind),
    }
}

/// How serious a log entry is, in a word.
pub open spec fn level_word(level: LogLevel) -> Seq<char> {
    match level {
        LogLevel::Info => "INFO"@,
        LogLevel::Warn => "WARN"@,
        LogLevel::Error => "ERROR"@,
    }
}

/// What a log entry is about, in a word.
pub open spec fn category_word(category: LogCategory) -> Seq<char> {
    match category {
        LogCategory::ModelTurn => "model"@,
        LogCategory::ToolCall => "tool"@,
        LogCategory::ToolResult => "result"@,
        LogCategory::Status => "status"@,
        LogCategory::Lifecycle => "lifecycle"@,
    }
}

/// A log entry as a line.
pub open spec fn log_line(entry: TaskLogEntry) -> Seq<char> {
    "["@ + level_word(entry.level) + " "@ + category_word(entry.category) + "] "@ + entry.message@
}

/// Format a single log entry for the text view.
pub fn format_log_line(entry: &TaskLogEntry) -> (r: String)
    ensures
        r@ == log_line(*entry),
{
    let mut out = "[".to_owned();
    out.append(
        match entry.level {
            LogLevel::Info => "INFO",
            LogLevel::Warn => "WARN",
            LogLevel::Error => "ERROR",
        },
    );
    out.append(" ");
    out.append(
        match entry.category {
            LogCategory::ModelTurn => "model",
            LogCategory::ToolCall => "tool",
            LogCategory::ToolResult => "result",
            LogCategory::Status => "status",
            LogCategory::Lifecycle => "lifecycle",
        },
    );
    out.append("] ");
    out.append(entry.message.as_str());
    out
}

/// Cap on log entries retained per task on the client. The client only needs
/// enough scrollback for the panel.
pub const LOG_BUFFER_MAX: usize = 500;

/// The log buffer of a task.
#[derive(Debug)]
struct TaskLog {
    id: String,
    entries: Vec<TaskLogEntry>,
}

/// List of tasks and per-task log buffers.
#[derive(Debug)]
pub struct TasksModel {
    tasks: Vec<TaskView>,
    /// One buffer for each task id that has entries, bounded by
    /// `LOG_BUFFER_MAX` to keep memory tame on long-running tasks.
    logs: Vec<TaskLog>,
}

/// The entries come in strictly rising order of their sequence number.
pub open spec fn seqs_rise(log: Seq<TaskLogEntry>) -> bool {
    forall|i: int, j: int|
        0 <= i < j < log.len() ==> (#[trigger] log[i]).seq < (#[trigger] log[j]).seq
}

/// `log` with `entry` at its place; as it was where it has an entry of that
/// sequence number already.
pub open spec fn with_entry(log: Seq<TaskLogEntry>, entry: TaskLogEntry) -> Seq<TaskLogEntry>
    decreases log.len(),
{
    if log.len() == 0 || log.last().seq < entry.seq {
        log.push(entry)
    } else if log.last().seq == entry.seq {
        log
    } else {
        with_entry(log.drop_last(), entry).push(log.last())
    }
}

/// The newest entries of `log`, as many as are kept.
pub open spec fn newest(log: Seq<TaskLogEntry>) -> Seq<TaskLogEntry> {
    if log.len() > LOG_BUFFER_MAX {
        log.skip(log.len() - LOG_BUFFER_MAX)
    } else {
        log
    }
}

/// The first task of that id.
pub open spec fn place_of_task(tasks: Seq<TaskView>, id: Seq<char>) -> Option<int>
    decreases tasks.len(),
{
    if tasks.len() == 0 {
        None
    } else if tasks[0].id.0@ == id {
        Some(0)
    } else {
        match place_of_task(tasks.drop_first(), id) {
            Some(i) => Some(i + 1),
            None => None,
        }
    }
}

spec fn log_in(logs: Seq<TaskLog>, id: Seq<char>) -> Seq<TaskLogEntry>
    decreases logs.len(),
{
    if logs.len() == 0 {
        Seq::empty()
    } else if logs[0].id@ == id {
        logs[0].entries@
    } else {
        log_in(logs.drop_first(), id)
    }
}

proof fn lemma_place_of_task(tasks: Seq<TaskView>, id: Seq<char>, at: int)
    requires
        0 <= at <= tasks.len(),
        forall|j: int| 0 <= j < at ==> (#[trigger] tasks[j]).id.0@ != id,
        at < tasks.len() ==> tasks[at].id.0@ == id,
    ensures
        place_of_task(tasks, id) == (if at < tasks.len() {
            Some(at)
        } else {
            None
        }),
    decreases at,
{
    if at > 0 {
        let rest = tasks.drop_first();
        assert(tasks[0].id.0@ != id);
        assert forall|j: int| 0 <= j < at - 1 implies (#[trigger] rest[j]).id.0@ != id by {
            assert(tasks[j + 1].id.0@ != id);
        }
        lemma_place_of_task(rest, id, at - 1);
    }
}

proof fn lemma_log_in(logs: Seq<TaskLog>, id: Seq<char>, at: int)
    requires
        0 <= at <= logs.len(),
        forall|j: int| 0 <= j < at ==> (#[trigger] logs[j]).id@ != id,
        at < logs.len() ==> logs[at].id@ == id,
    ensures
        log_in(logs, id) == (if at < logs.len() {
            logs[at].entries@
        } else {
            Seq::empty()
        }),
    decreases at,
{
    if at > 0 {
        let rest = logs.drop_first();
        assert(logs[0].id@ != id);
        assert forall|j: int| 0 <= j < at - 1 implies (#[trigger] rest[j]).id@ != id by {
            assert(logs[j + 1].id@ != id);
        }
        lemma_log_in(rest, id, at - 1);
    }
}

/// Where the buffer of `id` stands; past the end where there is none.
fn log_place(logs: &Vec<TaskLog>, id: &str) -> (r: usize)
    ensures
        r <= logs@.len(),
        forall|j: int| 0 <= j < r ==> (#[trigger] logs@[j]).id@ != id@,
        r < logs@.len() ==> logs@[r as int].id@ == id@,
        log_in(logs@, id@) == (if r < logs@.len() {
            logs@[r as int].entries@
        } else {
            Seq::empty()
        }),
{
    let mut i: usize = 0;
    while i < logs.len() && !same_text(logs[i].id.as_str(), id)
        invariant
            i <= logs.len(),
            forall|j: int| 0 <= j < i ==> (#[trigger] logs@[j]).id@ != id@,
        decreases logs.len() - i,
    {
        i = i + 1;
    }
    proof {
        lemma_log_in(logs@, id@, i as int);
    }
    i
}

/// `with_entry` puts an entry before the first one that comes after it.
proof fn lemma_with_entry(log: Seq<TaskLogEntry>, entry: TaskLogEntry, p: int)
    requires
        seqs_rise(log),
        0 <= p <= log.len(),
        forall|j: int| 0 <= j < p ==> (#[trigger] log[j]).seq < entry.seq,
        p < log.len() ==> log[p].seq >= entry.seq,
    ensures
        with_entry(log, entry) == (if p < log.len() && log[p].seq == entry.seq {
            log
        } else {
            log.insert(p, entry)
        }),
    decreases log.len(),
{
    if log.len() == 0 || log.last().seq < entry.seq {
        if p < log.len() {
            assert(log[p].seq <= log.last().seq) by {
                if p < log.len() - 1 {
                    assert(log[p].seq < log[log.len() - 1].seq);
                }
            }
        }
        assert(log.insert(p, entry) =~= log.push(entry));
    } else if log.last().seq == entry.seq {
        if p < log.len() - 1 {
            assert(log[p].seq < log[log.len() - 1].seq);
        } else {
            if p == log.len() {
                assert(log[p - 1].seq < entry.seq);
            }
        }
    } else {
        let rest = log.drop_last();
        if p == log.len() {
            assert(log[p - 1].seq < entry.seq);
        }
        assert(seqs_rise(rest)) by {
            assert forall|i: int, j: int| 0 <= i < j < rest.len() implies (#[trigger] rest[i]).seq
                < (#[trigger] rest[j]).seq by {
                assert(log[i].seq < log[j].seq);
            }
        }
        assert forall|j: int| 0 <= j < p implies (#[trigger] rest[j]).seq < entry.seq by {
            assert(log[j].seq < entry.seq);
        }
        lemma_with_entry(rest, entry, p);
        if p < rest.len() && rest[p].seq == entry.seq {
            assert(log =~= rest.push(log.last()));
        } else {
            assert(log.insert(p, entry) =~= rest.insert(p, entry).push(log.last()));
        }
    }
}

/// An entry in its place keeps the order.
proof fn lemma_with_entry_rises(log: Seq<TaskLogEntry>, entry: TaskLogEntry)
    requires
        seqs_rise(log),
    ensures
        seqs_rise(with_entry(log, entry)),
        with_entry(log, entry).len() <= log.len() + 1,
        log.len() > 0 && entry.seq <= log.last().seq ==> with_entry(log, entry).last()
            == log.last(),
    decreases log.len(),
{
    let out = with_entry(log, entry);
    if log.len() == 0 || log.last().seq < entry.seq {
        assert forall|i: int, j: int| 0 <= i < j < out.len() implies (#[trigger] out[i]).seq < (
        #[trigger] out[j]).seq by {
            if j < log.len() {
                assert(log[i].seq < log[j].seq);
            } else if i < log.len() - 1 {
                assert(log[i].seq < log[log.len() - 1].seq);
            }
        }
    } else if log.last().seq > entry.seq {
        let rest = log.drop_last();
        assert forall|i: int, j: int| 0 <= i < j < rest.len() implies (#[trigger] rest[i]).seq < (
        #[trigger] rest[j]).seq by {
            assert(log[i].seq < log[j].seq);
        }
        lemma_with_entry_rises(rest, entry);
        let mid = with_entry(rest, entry);
        assert(mid.last().seq < log.last().seq) by {
            if rest.len() > 0 {
                assert(log[rest.len() - 1].seq < log[log.len() - 1].seq);
                if entry.seq > rest.last().seq {
                    assert(mid.last() == entry);
                }
            }
        }
        assert forall|i: int, j: int| 0 <= i < j < out.len() implies (#[trigger] out[i]).seq < (
        #[trigger] out[j]).seq by {
            if j < mid.len() {
                assert(mid[i].seq < mid[j].seq);
            } else if i < mid.len() - 1 {
                assert(mid[i].seq < mid[mid.len() - 1].seq);
            }
        }
    }
}

impl TasksModel {
    /// The tracked tasks, from the top of the list down.
    pub closed spec fn task_list(self) -> Seq<TaskView> {
        self.tasks@
    }

    /// The log of a task; empty where nothing was logged.
    pub closed spec fn log(self, id: Seq<char>) -> Seq<TaskLogEntry> {
        log_in(self.logs@, id)
    }

    /// Every task has one buffer at most, bounded and in order.
    pub closed spec fn wf(self) -> bool {
        &&& forall|i: int, j: int|
            0 <= i < j < self.logs@.len() ==> (#[trigger] self.logs@[i]).id@ != (
            #[trigger] self.logs@[j]).id@
        &&& forall|i: int|
            0 <= i < self.logs@.len() ==> seqs_rise((#[trigger] self.logs@[i]).entries@)
                && self.logs@[i].entries@.len() <= LOG_BUFFER_MAX
    }

    /// A model without tasks.
    pub fn new() -> (r: Self)
        ensures
            r.wf(),
            r.task_list() == Seq::<TaskView>::empty(),
            forall|id: Seq<char>| #[trigger] r.log(id) == Seq::<TaskLogEntry>::empty(),
    {
        TasksModel { tasks: Vec::new(), logs: Vec::new() }
    }

    /// Number of tracked tasks.
    pub fn len(&self) -> (r: usize)
        ensures
            r == self.task_list().len(),
    {
        self.tasks.len()
    }

    /// Whether no task is tracked.
    pub fn is_empty(&self) -> (r: bool)
        ensures
            r == (self.task_list().len() == 0),
    {
        self.tasks.len() == 0
    }

    /// The tracked tasks, from the top of the list down.
    pub fn iter(&self) -> (r: std::slice::Iter<'_, TaskView>)
        ensures
            vstd::std_specs::slice::into_iter_elts(r) == self.task_list(),
    {
        self.tasks.iter()
    }

    /// The task at a position of the list.
    pub fn get(&self, idx: usize) -> (r: Option<&TaskView>)
        ensures
            r is Some <==> idx < self.task_list().len(),
            r is Some ==> *r->0 == self.task_list()[idx as int],
    {
        if idx < self.tasks.len() {
            Some(&self.tasks[idx])
        } else {
            None
        }
    }

    /// Where the task of that id stands in the list.
    pub fn position_of(&self, id: &str) -> (r: Option<usize>)
        ensures
            r is Some <==> place_of_task(self.task_list(), id@) is Some,
            r is Some ==> r->0 < self.task_list().len() && place_of_task(self.task_list(), id@)
                == Some(r->0 as int) && self.task_list()[r->0 as int].id.0@ == id@,
    {
        let mut i: usize = 0;
        while i < self.tasks.len()
            invariant
                i <= self.tasks.len(),
                forall|j: int| 0 <= j < i ==> (#[trigger] self.tasks@[j]).id.0@ != id@,
            decreases self.tasks.len() - i,
        {
            if same_text(self.tasks[i].id.0.as_str(), id) {
                proof {
                    lemma_place_of_task(self.tasks@, id@, i as int);
                }
                return Some(i);
            }
            i = i + 1;
        }
        proof {
            lemma_place_of_task(self.tasks@, id@, i as int);
        }
        None
    }

    /// Insert (or replace) a task. Newest tasks go to the front of the list so a
    /// freshly-started task is immediately visible.
    pub fn upsert(&mut self, task: TaskView)
        requires
            old(self).wf(),
        ensures
            final(self).wf(),
            final(self).task_list() == (match place_of_task(old(self).task_list(), task.id.0@) {
                Some(i) => old(self).task_list().update(i, task),
                None => seq![task] + old(self).task_list(),
            }),
            forall|id: Seq<char>| #[trigger] final(self).log(id) == old(self).log(id),
    {
        match self.position_of(task.id.0.as_str()) {
            Some(i) => {
                self.tasks.set(i, task);
            },
            None => {
                self.tasks.insert(0, task);
                assert(self.tasks@ =~= seq![task] + old(self).tasks@);
            },
        }
    }

    /// Apply a progress-hint update to an existing task. Nothing happens if the
    /// task id is unknown (the registry may have garbage-collected it).
    pub fn apply_progress(&mut self, id: &str, progress_hint: Option<String>)
        requires
            old(self).wf(),
        ensures
            final(self).wf(),
            final(self).task_list() == (match place_of_task(old(self).task_list(), id@) {
                Some(i) => old(self).task_list().update(
                    i,
                    (TaskView { progress_hint, ..old(self).task_list()[i] }),
                ),
                None => old(self).task_list(),
            }),
            forall|id: Seq<char>| #[trigger] final(self).log(id) == old(self).log(id),
    {
        if let Some(i) = self.position_of(id) {
            self.tasks[i].progress_hint = progress_hint;
        }
    }

    /// Append a log entry to a task's buffer, at the place of its sequence number.
    /// An entry of a sequence number that the buffer has is dropped: the existing
    /// one stays. Drops the oldest entry once the buffer exceeds `LOG_BUFFER_MAX`
    /// so a chatty task cannot blow up client memory.
    pub fn append_log(&mut self, id: &str, entry: TaskLogEntry)
        requires
            old(self).wf(),
        ensures
            final(self).wf(),
            final(self).log(id@) == newest(with_entry(old(self).log(id@), entry)),
            forall|other: Seq<char>|
                other != id@ ==> #[trigger] final(self).log(other) == old(self).log(other),
            final(self).task_list() == old(self).task_list(),
    {
        let k: usize = log_place(&self.logs, id);
        if k == self.logs.len() {
            self.logs.push(TaskLog { id: id.to_owned(), entries: Vec::new() });
            proof {
                let now = self.logs@;
                let was = old(self).logs@;
                lemma_log_in(now, id@, k as int);
                assert forall|other: Seq<char>| other != id@ implies #[trigger] log_in(now, other)
                    == log_in(was, other) by {
                    lemma_log_in_push(was, now[k as int], other);
                    assert(now =~= was.push(now[k as int]));
                }
                assert forall|i: int, j: int| 0 <= i < j < now.len() implies (#[trigger] now[i]).id@
                    != (#[trigger] now[j]).id@ by {
                    if j < was.len() {
                        assert(was[i].id@ != was[j].id@);
                    } else {
                        assert(was[i].id@ != id@);
                    }
                }
            }
        }
        let ghost mid = self.logs@;
        let ghost log = mid[k as int].entries@;
        assert(log == old(self).log(id@));
        assert(forall|other: Seq<char>|
            other != id@ ==> #[trigger] log_in(mid, other) == old(self).log(other));
        let mut p: usize = 0;
        while p < self.logs[k].entries.len() && self.logs[k].entries[p].seq < entry.seq
            invariant
                k < self.logs@.len(),
                log == self.logs@[k as int].entries@,
                p <= log.len(),
                forall|j: int| 0 <= j < p ==> (#[trigger] log[j]).seq < entry.seq,
            decreases log.len() - p,
        {
            p = p + 1;
        }
        proof {
            lemma_with_entry(log, entry, p as int);
            lemma_with_entry_rises(log, entry);
        }
        if !(p < self.logs[k].entries.len() && self.logs[k].entries[p].seq == entry.seq) {
            self.logs[k].entries.insert(p, entry);
            if self.logs[k].entries.len() > LOG_BUFFER_MAX {
                let _ = self.logs[k].entries.remove(0);
            }
        }
        proof {
            let now = self.logs@;
            let full = with_entry(log, entry);
            assert(now[k as int].entries@ =~= newest(full));
            assert(seqs_rise(newest(full))) by {
                assert forall|i: int, j: int| 0 <= i < j < newest(full).len() implies (
                #[trigger] newest(full)[i]).seq < (#[trigger] newest(full)[j]).seq by {
                    let d: int = if full.len() > LOG_BUFFER_MAX {
                        full.len() - LOG_BUFFER_MAX
                    } else {
                        0
                    };
                    assert(full[i + d].seq < full[j + d].seq);
                }
            }
            lemma_log_in(now, id@, k as int);
            assert forall|other: Seq<char>| other != id@ implies #[trigger] log_in(now, other)
                == log_in(mid, other) by {
                lemma_log_in_same(mid, now, other, k as int);
            }
        }
    }

    /// The log of a task; empty where nothing was logged.
    pub fn logs_for(&self, id: &str) -> (r: &[TaskLogEntry])
        ensures
            r@ == self.log(id@),
    {
        let k: usize = log_place(&self.logs, id);
        if k < self.logs.len() {
            self.logs[k].entries.as_slice()
        } else {
            &[]
        }
    }
}

proof fn lemma_log_in_push(logs: Seq<TaskLog>, log: TaskLog, id: Seq<char>)
    requires
        log.id@ != id,
    ensures
        log_in(logs.push(log), id) == log_in(logs, id),
    decreases logs.len(),
{
    let more = logs.push(log);
    if logs.len() == 0 {
        assert(more.drop_first() =~= Seq::<TaskLog>::empty());
        reveal_with_fuel(log_in, 2);
    } else if logs[0].id@ != id {
        assert(more.drop_first() =~= logs.drop_first().push(log));
        lemma_log_in_push(logs.drop_first(), log, id);
    }
}

proof fn lemma_log_in_same(a: Seq<TaskLog>, b: Seq<TaskLog>, id: Seq<char>, at: int)
    requires
        a.len() == b.len(),
        0 <= at < a.len(),
        a[at].id@ != id,
        b[at].id@ != id,
        forall|j: int| 0 <= j < a.len() && j != at ==> #[trigger] a[j] == b[j],
    ensures
        log_in(a, id) == log_in(b, id),
    decreases a.len(),
{
    if at > 0 {
        assert(a[0] == b[0]);
        let x = a.drop_first();
        let y = b.drop_first();
        assert forall|j: int| 0 <= j < x.len() && j != at - 1 implies #[trigger] x[j] == y[j] by {
            assert(a[j + 1] == b[j + 1]);
        }
        lemma_log_in_same(x, y, id, at - 1);
    } else {
        assert(a.drop_first() =~= b.drop_first()) by {
            assert forall|j: int| 0 <= j < a.len() - 1 implies a.drop_first()[j]
                == b.drop_first()[j] by {
                assert(a[j + 1] == b[j + 1]);
            }
        }
    }
}

proof fn lemma_log_in_remove(logs: Seq<TaskLog>, at: int, id: Seq<char>)
    requires
        0 <= at < logs.len(),
        logs[at].id@ != id,
    ensures
        log_in(logs.remove(at), id) == log_in(logs, id),
    decreases logs.len(),
{
    let less = logs.remove(at);
    if at == 0 {
        assert(less =~= logs.drop_first());
    } else {
        assert(less[0] == logs[0]);
        assert(less.drop_first() =~= logs.drop_first().remove(at - 1));
        lemma_log_in_remove(logs.drop_first(), at - 1, id);
    }
}

/// Some task has that id.
pub open spec fn is_tracked(tasks: Seq<TaskView>, id: Seq<char>) -> bool {
    place_of_task(tasks, id) is Some
}

/// No two tasks have the same id.
pub open spec fn ids_differ(tasks: Seq<TaskView>) -> bool {
    forall|i: int, j: int|
        0 <= i < j < tasks.len() ==> (#[trigger] tasks[i]).id.0@ != (#[trigger] tasks[j]).id.0@
}

/// The lines of a log.
pub open spec fn log_lines(log: Seq<TaskLogEntry>) -> Seq<Seq<char>> {
    log.map_values(|e: TaskLogEntry| log_line(e))
}

impl TasksModel {
    /// Replace the entire task list. Resets logs for tasks that are no longer
    /// present so memory does not grow without bound across reconnects.
    pub fn replace_all(&mut self, tasks: Vec<TaskView>)
        requires
            old(self).wf(),
        ensures
            final(self).wf(),
            final(self).task_list() == tasks@,
            forall|id: Seq<char>| #[trigger]
                final(self).log(id) == (if is_tracked(tasks@, id) {
                    old(self).log(id)
                } else {
                    Seq::empty()
                }),
    {
        self.tasks = tasks;
        let mut i: usize = 0;
        while i < self.logs.len()
            invariant
                i <= self.logs@.len(),
                self.tasks@ == tasks@,
                self.wf(),
                forall|j: int| 0 <= j < i ==> is_tracked(tasks@, (#[trigger] self.logs@[j]).id@),
                forall|id: Seq<char>|
                    is_tracked(tasks@, id) ==> #[trigger] log_in(self.logs@, id) == old(self).log(
                        id,
                    ),
            decreases self.logs@.len() - i,
        {
            if self.position_of(self.logs[i].id.as_str()).is_some() {
                i = i + 1;
            } else {
                let ghost was = self.logs@;
                let _ = self.logs.remove(i);
                proof {
                    let now = self.logs@;
                    assert(now =~= was.remove(i as int));
                    assert forall|id: Seq<char>| is_tracked(tasks@, id) implies #[trigger] log_in(
                        now,
                        id,
                    ) == old(self).log(id) by {
                        lemma_log_in_remove(was, i as int, id);
                    }
                    assert forall|a: int, b: int| 0 <= a < b < now.len() implies (
                    #[trigger] now[a]).id@ != (#[trigger] now[b]).id@ by {
                        let x = if a < i {
                            a
                        } else {
                            a + 1
                        };
                        let y = if b < i {
                            b
                        } else {
                            b + 1
                        };
                        assert(was[x].id@ != was[y].id@);
                    }
                    assert forall|a: int| 0 <= a < now.len() implies seqs_rise(
                        (#[trigger] now[a]).entries@,
                    ) && now[a].entries@.len() <= LOG_BUFFER_MAX by {
                        let x = if a < i {
                            a
                        } else {
                            a + 1
                        };
                        assert(seqs_rise(was[x].entries@));
                    }
                    assert forall|j: int| 0 <= j < i implies is_tracked(
                        tasks@,
                        (#[trigger] now[j]).id@,
                    ) by {
                        assert(now[j] == was[j]);
                    }
                }
            }
        }
        proof {
            assert forall|id: Seq<char>| #[trigger]
                self.log(id) == (if is_tracked(tasks@, id) {
                    old(self).log(id)
                } else {
                    Seq::empty()
                }) by {
                if !is_tracked(tasks@, id) {
                    assert forall|j: int| 0 <= j < self.logs@.len() implies (
                    #[trigger] self.logs@[j]).id@ != id by {}
                    lemma_log_in(self.logs@, id, self.logs@.len() as int);
                } else {
                    assert(log_in(self.logs@, id) == old(self).log(id));
                }
            }
        }
    }

    /// Remove the matching task on its completion. The associated log buffer is
    /// dropped too; the daemon already filters terminal rows out of subsequent
    /// snapshots, so retaining them would only let the panel accumulate stale
    /// rows.
    pub fn apply_completion(&mut self, id: &str)
        requires
            old(self).wf(),
        ensures
            final(self).wf(),
            final(self).task_list() == (match place_of_task(old(self).task_list(), id@) {
                Some(i) => old(self).task_list().remove(i),
                None => old(self).task_list(),
            }),
            final(self).log(id@) == Seq::<TaskLogEntry>::empty(),
            forall|other: Seq<char>|
                other != id@ ==> #[trigger] final(self).log(other) == old(self).log(other),
    {
        if let Some(i) = self.position_of(id) {
            let _ = self.tasks.remove(i);
        }
        let k: usize = log_place(&self.logs, id);
        if k < self.logs.len() {
            let ghost was = self.logs@;
            let _ = self.logs.remove(k);
            proof {
                let now = self.logs@;
                assert(now =~= was.remove(k as int));
                assert forall|a: int| 0 <= a < now.len() implies (#[trigger] now[a]).id@ != id@ by {
                    if a >= k {
                        assert(was[k as int].id@ != was[a + 1].id@);
                    } else {
                        assert(was[a].id@ != id@);
                    }
                }
                lemma_log_in(now, id@, now.len() as int);
                assert forall|other: Seq<char>| other != id@ implies #[trigger] log_in(now, other)
                    == log_in(was, other) by {
                    lemma_log_in_remove(was, k as int, other);
                }
                assert forall|a: int, b: int| 0 <= a < b < now.len() implies (#[trigger] now[a]).id@
                    != (#[trigger] now[b]).id@ by {
                    let x = if a < k {
                        a
                    } else {
                        a + 1
                    };
                    let y = if b < k {
                        b
                    } else {
                        b + 1
                    };
                    assert(was[x].id@ != was[y].id@);
                }
                assert forall|a: int| 0 <= a < now.len() implies seqs_rise(
                    (#[trigger] now[a]).entries@,
                ) && now[a].entries@.len() <= LOG_BUFFER_MAX by {
                    let x = if a < k {
                        a
                    } else {
                        a + 1
                    };
                    assert(seqs_rise(was[x].entries@));
                }
            }
        }
    }

    /// The log of a task as text, a line for each entry.
    pub fn log_text(&self, id: &str) -> (r: String)
        ensures
            r@ == joined(log_lines(self.log(id@)), "\n"@),
    {
        let log = self.logs_for(id);
        let mut lines: Vec<String> = Vec::new();
        let mut i: usize = 0;
        while i < log.len()
            invariant
                i <= log@.len(),
                texts(lines@) == log_lines(log@).take(i as int),
            decreases log@.len() - i,
        {
            let line = format_log_line(&log[i]);
            let ghost before = texts(lines@);
            lines.push(line);
            i = i + 1;
            assert(texts(lines@) =~= before.push(line@));
            assert(texts(lines@) =~= log_lines(log@).take(i as int));
        }
        assert(texts(lines@) =~= log_lines(log@));
        join(&lines, "\n")
    }

    /// The rows of the tasks of a conversation, or of all tasks.
    pub fn task_view_models_for(&self, conversation_id: Option<&str>, now_ms: i64) -> (r: Vec<
        TaskRowViewModel,
    >)
        ensures
            ({
                let shown = tasks_of(
                    self.task_list(),
                    match conversation_id {
                        Some(id) => Some(id@),
                        None => None,
                    },
                );
                &&& r@.len() == shown.len()
                &&& forall|i: int|
                    0 <= i < r@.len() ==> (#[trigger] r@[i]).shows(shown[i], now_ms as int)
            }),
    {
        let ghost wanted = match conversation_id {
            Some(id) => Some(id@),
            None => None,
        };
        let mut out: Vec<TaskRowViewModel> = Vec::new();
        let mut i: usize = 0;
        while i < self.tasks.len()
            invariant
                i <= self.tasks@.len(),
                wanted == (match conversation_id {
                    Some(id) => Some(id@),
                    None => None,
                }),
                out@.len() == tasks_of(self.tasks@.take(i as int), wanted).len(),
                forall|j: int|
                    0 <= j < out@.len() ==> (#[trigger] out@[j]).shows(
                        tasks_of(self.tasks@.take(i as int), wanted)[j],
                        now_ms as int,
                    ),
            decreases self.tasks@.len() - i,
        {
            assert(self.tasks@.take(i as int + 1).drop_last() =~= self.tasks@.take(i as int));
            let vm = view_model_for(&self.tasks[i], now_ms);
            let keep = match conversation_id {
                Some(id) => match &vm.conversation_id {
                    Some(own) => same_text(own.as_str(), id),
                    None => false,
                },
                None => true,
            };
            if keep {
                out.push(vm);
            }
            i = i + 1;
        }
        assert(self.tasks@.take(i as int) =~= self.tasks@);
        out
    }
}

/// The tasks of a conversation, or all of them, in their order.
pub open spec fn tasks_of(tasks: Seq<TaskView>, conversation: Option<Seq<char>>) -> Seq<TaskView>
    decreases tasks.len(),
{
    if tasks.len() == 0 {
        Seq::empty()
    } else {
        let before = tasks_of(tasks.drop_last(), conversation);
        if conversation is None || conversation_of(tasks.last().kind) == conversation {
            before.push(tasks.last())
        } else {
            before
        }
    }
}

/// The task that the Cancel button names for a selection.
pub fn cancel_id_for_selection(model: &TasksModel, selected: Option<usize>) -> (r: Option<String>)
    ensures
        opt_text(r) == (match selected {
            Some(i) => if i < model.task_list().len() {
                Some(model.task_list()[i as int].id.0@)
            } else {
                None
            },
            None => None,
        }),
{
    match selected {
        Some(i) => match model.get(i) {
            Some(task) => Some(task.id.0.clone()),
            None => None,
        },
        None => None,
    }
}

/// The conversation that the Open Conversation button names for a selection.
pub fn open_conversation_id_for_selection(model: &TasksModel, selected: Option<usize>) -> (r:
    Option<String>)
    ensures
        opt_text(r) == (match selected {
            Some(i) => if i < model.task_list().len() {
                conversation_of(model.task_list()[i as int].kind)
            } else {
                None
            },
            None => None,
        }),
{
    match selected {
        Some(i) => match model.get(i) {
            Some(task) => conversation_id_for(&task.kind),
            None => None,
        },
        None => None,
    }
}

/// What the panel shows beside the list for a selection.
pub struct SelectionView {
    pub cancel_sensitive: bool,
    pub open_sensitive: bool,
    /// The text of the log view; it stays as it is where there is none.
    pub log: Option<String>,
}

/// A task that can still be cancelled: one that has not ended.
pub open spec fn is_cancellable(status: TaskStatus) -> bool {
    status == TaskStatus::Pending || status == TaskStatus::Running
}

/// What the panel shows for a selection: nothing selected clears the log; a stale
/// position leaves it; a task shows its log, can be cancelled while it has not
/// ended, and opens its conversation where it has one.
pub fn selection_view(model: &TasksModel, selected: Option<usize>) -> (r: SelectionView)
    ensures
        match selected {
            None => !r.cancel_sensitive && !r.open_sensitive && r.log is Some && r.log->0@.len()
                == 0,
            Some(i) => if i < model.task_list().len() {
                let task = model.task_list()[i as int];
                &&& r.cancel_sensitive == is_cancellable(task.status)
                &&& r.open_sensitive == conversation_of(task.kind) is Some
                &&& r.log is Some
                &&& r.log->0@ == joined(log_lines(model.log(task.id.0@)), "\n"@)
            } else {
                !r.cancel_sensitive && !r.open_sensitive && r.log is None
            },
        },
{
    match selected {
        None => SelectionView {
            cancel_sensitive: false,
            open_sensitive: false,
            log: Some(String::new()),
        },
        Some(i) => match model.get(i) {
            Some(task) => SelectionView {
                cancel_sensitive: task.status == TaskStatus::Pending || task.status
                    == TaskStatus::Running,
                open_sensitive: conversation_id_for(&task.kind).is_some(),
                log: Some(model.log_text(task.id.0.as_str())),
            },
            None => SelectionView { cancel_sensitive: false, open_sensitive: false, log: None },
        },
    }
}

/// The panel: the tasks, and the row selected. When the tasks change the selection
/// goes by id, so it stays on its task while others come and go around it.
pub struct TasksPanel {
    model: TasksModel,
    selected: Option<usize>,
}

impl TasksPanel {
    /// The tasks and logs.
    pub closed spec fn tasks(self) -> TasksModel {
        self.model
    }

    /// The selected row.
    pub closed spec fn selected_row(self) -> Option<int> {
        match self.selected {
            Some(i) => Some(i as int),
            None => None,
        }
    }

    /// The id of the task in the selected row.
    pub open spec fn selected_id(self) -> Option<Seq<char>> {
        match self.selected_row() {
            Some(i) => Some(self.tasks().task_list()[i].id.0@),
            None => None,
        }
    }

    /// The row selected once the tasks changed from what `before` shows: the first
    /// of the task that was selected, where it is still there.
    pub open spec fn kept_row(self, before: TasksPanel) -> Option<int> {
        match before.selected_id() {
            Some(id) => place_of_task(self.tasks().task_list(), id),
            None => None,
        }
    }

    /// The model is well formed, and the selected row is one of the rows.
    pub closed spec fn wf(self) -> bool {
        &&& self.model.wf()
        &&& self.selected is Some ==> self.selected->0 < self.model.task_list().len()
    }

    /// A panel without tasks.
    pub fn new() -> (r: Self)
        ensures
            r.wf(),
            r.tasks().task_list().len() == 0,
            forall|id: Seq<char>| #[trigger] r.tasks().log(id) == Seq::<TaskLogEntry>::empty(),
            r.selected_row() is None,
    {
        TasksPanel { model: TasksModel::new(), selected: None }
    }

    /// The underlying model.
    pub fn model(&self) -> (r: &TasksModel)
        ensures
            *r == self.tasks(),
    {
        &self.model
    }

    /// The user selected the row at `index`, or none. A stale position selects
    /// nothing.
    pub fn select(&mut self, index: Option<usize>)
        ensures
            old(self).wf() ==> final(self).wf(),
            final(self).tasks() == old(self).tasks(),
            final(self).selected_row() == (match index {
                Some(i) => if i < old(self).tasks().task_list().len() {
                    Some(i as int)
                } else {
                    None
                },
                None => None,
            }),
    {
        self.selected = match index {
            Some(i) => if i < self.model.len() {
                Some(i)
            } else {
                None
            },
            None => None,
        };
    }

    /// The selected row.
    pub fn selected_index(&self) -> (r: Option<usize>)
        ensures
            r is Some <==> self.selected_row() is Some,
            r is Some ==> self.selected_row() == Some(r->0 as int),
            self.wf() && r is Some ==> r->0 < self.tasks().task_list().len(),
    {
        self.selected
    }

    /// The id of the task in the selected row.
    fn id_selected(&self) -> (r: Option<String>)
        requires
            self.wf(),
        ensures
            opt_text(r) == self.selected_id(),
    {
        cancel_id_for_selection(&self.model, self.selected)
    }

    /// The first row of the task of that id, where there is one.
    fn row_of(&self, id: &Option<String>) -> (r: Option<usize>)
        ensures
            r is Some ==> r->0 < self.tasks().task_list().len(),
            (match r {
                Some(i) => Some(i as int),
                None => None,
            }) == (match opt_text(*id) {
                Some(id) => place_of_task(self.tasks().task_list(), id),
                None => None,
            }),
    {
        match id {
            Some(id) => self.model.position_of(id.as_str()),
            None => None,
        }
    }

    /// A task started.
    pub fn handle_task_started(&mut self, task: TaskView)
        requires
            old(self).wf(),
        ensures
            final(self).wf(),
            final(self).selected_row() == final(self).kept_row(*old(self)),
            final(self).tasks().task_list() == (match place_of_task(
                old(self).tasks().task_list(),
                task.id.0@,
            ) {
                Some(i) => old(self).tasks().task_list().update(i, task),
                None => seq![task] + old(self).tasks().task_list(),
            }),
            forall|id: Seq<char>| #[trigger]
                final(self).tasks().log(id) == old(self).tasks().log(id),
    {
        let selected = self.id_selected();
        self.model.upsert(task);
        self.selected = self.row_of(&selected);
    }

    /// A task reported progress.
    pub fn handle_task_progress(&mut self, id: &str, progress_hint: Option<String>)
        requires
            old(self).wf(),
        ensures
            final(self).wf(),
            final(self).selected_row() == final(self).kept_row(*old(self)),
            final(self).tasks().task_list() == (match place_of_task(
                old(self).tasks().task_list(),
                id@,
            ) {
                Some(i) => old(self).tasks().task_list().update(
                    i,
                    (TaskView { progress_hint, ..old(self).tasks().task_list()[i] }),
                ),
                None => old(self).tasks().task_list(),
            }),
            forall|id: Seq<char>| #[trigger]
                final(self).tasks().log(id) == old(self).tasks().log(id),
    {
        let selected = self.id_selected();
        self.model.apply_progress(id, progress_hint);
        self.selected = self.row_of(&selected);
    }

    /// A task logged an entry. Returns the new text of the log view where the
    /// entry belongs to the selected task, so the user sees new lines without
    /// clicking again. The rows stay.
    pub fn handle_task_log_appended(&mut self, id: &str, entry: TaskLogEntry) -> (r: Option<String>)
        requires
            old(self).wf(),
        ensures
            final(self).wf(),
            final(self).selected_row() == old(self).selected_row(),
            final(self).tasks().task_list() == old(self).tasks().task_list(),
            final(self).tasks().log(id@) == newest(with_entry(old(self).tasks().log(id@), entry)),
            forall|other: Seq<char>|
                other != id@ ==> #[trigger] final(self).tasks().log(other) == old(
                    self,
                ).tasks().log(other),
            r is Some <==> old(self).selected_id() == Some(id@),
            r is Some ==> r->0@ == joined(log_lines(final(self).tasks().log(id@)), "\n"@),
    {
        let mine = match self.id_selected() {
            Some(selected) => same_text(selected.as_str(), id),
            None => false,
        };
        self.model.append_log(id, entry);
        if mine {
            Some(self.model.log_text(id))
        } else {
            None
        }
    }

    /// A task completed. It takes the selection with it, unless its id stands in
    /// another row too.
    pub fn handle_task_completed(&mut self, id: &str)
        requires
            old(self).wf(),
        ensures
            final(self).wf(),
            final(self).selected_row() == final(self).kept_row(*old(self)),
            final(self).tasks().task_list() == (match place_of_task(
                old(self).tasks().task_list(),
                id@,
            ) {
                Some(i) => old(self).tasks().task_list().remove(i),
                None => old(self).tasks().task_list(),
            }),
            final(self).tasks().log(id@) == Seq::<TaskLogEntry>::empty(),
            forall|other: Seq<char>|
                other != id@ ==> #[trigger] final(self).tasks().log(other) == old(
                    self,
                ).tasks().log(other),
    {
        let selected = self.id_selected();
        self.model.apply_completion(id);
        self.selected = self.row_of(&selected);
    }

    /// The daemon listed its tasks, at first or after a reconnect. The selection
    /// stays where its task is among them.
    pub fn replace_all(&mut self, tasks: Vec<TaskView>)
        requires
            old(self).wf(),
        ensures
            final(self).wf(),
            final(self).selected_row() == final(self).kept_row(*old(self)),
            final(self).tasks().task_list() == tasks@,
            forall|id: Seq<char>| #[trigger]
                final(self).tasks().log(id) == (if is_tracked(tasks@, id) {
                    old(self).tasks().log(id)
                } else {
                    Seq::empty()
                }),
    {
        let selected = self.id_selected();
        self.model.replace_all(tasks);
        self.selected = self.row_of(&selected);
    }
}

/// The selected row is always one of the rows.
pub proof fn law_the_selected_row_is_there(panel: TasksPanel)
    requires
        panel.wf(),
    ensures
        panel.selected_row() matches Some(i) ==> 0 <= i < panel.tasks().task_list().len(),
{
}

/// A change of the tasks moves the selection to no other task: what is selected
/// afterwards has the id of what was.
pub proof fn law_the_selection_stays_on_its_task(before: TasksPanel, after: TasksPanel)
    requires
        before.wf(),
        after.selected_row() == after.kept_row(before),
    ensures
        after.selected_row() is Some ==> after.selected_id() == before.selected_id(),
        after.selected_row() is Some <==> before.selected_id() is Some && is_tracked(
            after.tasks().task_list(),
            before.selected_id()->0,
        ),
{
    if let Some(id) = before.selected_id() {
        lemma_place_of_task_found(after.tasks().task_list(), id);
    }
}

/// A task that completed takes the selection with it, where no other task has its
/// id; so a task that comes back under that id is not selected.
pub proof fn law_a_completed_task_is_not_selected(
    before: TasksPanel,
    after: TasksPanel,
    id: Seq<char>,
)
    requires
        before.wf(),
        ids_differ(before.tasks().task_list()),
        before.selected_id() == Some(id),
        after.tasks().task_list() == (match place_of_task(before.tasks().task_list(), id) {
            Some(i) => before.tasks().task_list().remove(i),
            None => before.tasks().task_list(),
        }),
        after.selected_row() == after.kept_row(before),
    ensures
        after.selected_row() is None,
{
    law_a_completed_task_is_gone(before.tasks().task_list(), id);
}

/// A log is always in order, without two entries of one sequence number, and
/// bounded.
pub proof fn law_logs_are_ordered_and_bounded(model: TasksModel, id: Seq<char>)
    requires
        model.wf(),
    ensures
        seqs_rise(model.log(id)),
        model.log(id).len() <= LOG_BUFFER_MAX,
{
    lemma_log_in_ordered(model.logs@, id);
}

proof fn lemma_log_in_ordered(logs: Seq<TaskLog>, id: Seq<char>)
    requires
        forall|i: int|
            0 <= i < logs.len() ==> seqs_rise((#[trigger] logs[i]).entries@)
                && logs[i].entries@.len() <= LOG_BUFFER_MAX,
    ensures
        seqs_rise(log_in(logs, id)),
        log_in(logs, id).len() <= LOG_BUFFER_MAX,
    decreases logs.len(),
{
    if logs.len() > 0 && logs[0].id@ != id {
        let rest = logs.drop_first();
        assert forall|i: int| 0 <= i < rest.len() implies seqs_rise((#[trigger] rest[i]).entries@)
            && rest[i].entries@.len() <= LOG_BUFFER_MAX by {
            assert(rest[i] == logs[i + 1]);
        }
        lemma_log_in_ordered(rest, id);
    } else if logs.len() > 0 {
        assert(seqs_rise(logs[0].entries@));
    }
}

/// An entry that is logged twice is logged once: the existing entry stays.
pub proof fn law_a_resent_entry_changes_nothing(
    log: Seq<TaskLogEntry>,
    entry: TaskLogEntry,
    i: int,
)
    requires
        seqs_rise(log),
        log.len() <= LOG_BUFFER_MAX,
        0 <= i < log.len(),
        log[i].seq == entry.seq,
    ensures
        newest(with_entry(log, entry)) == log,
{
    assert forall|j: int| 0 <= j < i implies (#[trigger] log[j]).seq < entry.seq by {
        assert(log[j].seq < log[i].seq);
    }
    lemma_with_entry(log, entry, i);
}

/// A new entry is kept with all the others, in order, while there is room; when
/// there is none the oldest entry goes.
pub proof fn law_a_new_entry_takes_its_place(log: Seq<TaskLogEntry>, entry: TaskLogEntry)
    requires
        seqs_rise(log),
        log.len() <= LOG_BUFFER_MAX,
        forall|j: int| 0 <= j < log.len() ==> (#[trigger] log[j]).seq != entry.seq,
    ensures
        with_entry(log, entry).to_multiset() == log.to_multiset().insert(entry),
        seqs_rise(newest(with_entry(log, entry))),
        log.len() < LOG_BUFFER_MAX ==> newest(with_entry(log, entry)) == with_entry(log, entry),
        log.len() == LOG_BUFFER_MAX ==> newest(with_entry(log, entry)) == with_entry(
            log,
            entry,
        ).drop_first(),
{
    lemma_entries_before(log, entry.seq);
    let p = entries_before(log, entry.seq);
    lemma_with_entry(log, entry, p);
    lemma_with_entry_rises(log, entry);
    vstd::seq_lib::to_multiset_insert(log, p, entry);
    let full = with_entry(log, entry);
    assert(full.len() == log.len() + 1);
    assert forall|i: int, j: int| 0 <= i < j < newest(full).len() implies (#[trigger] newest(
        full,
    )[i]).seq < (#[trigger] newest(full)[j]).seq by {
        let d: int = if full.len() > LOG_BUFFER_MAX {
            full.len() - LOG_BUFFER_MAX
        } else {
            0
        };
        assert(full[i + d].seq < full[j + d].seq);
    }
    if log.len() == LOG_BUFFER_MAX {
        assert(newest(full) =~= full.drop_first());
    }
}

/// How many entries of `log` come before `seq`.
spec fn entries_before(log: Seq<TaskLogEntry>, seq: u64) -> int
    decreases log.len(),
{
    if log.len() == 0 || log.last().seq < seq {
        log.len() as int
    } else {
        entries_before(log.drop_last(), seq)
    }
}

proof fn lemma_entries_before(log: Seq<TaskLogEntry>, seq: u64)
    requires
        seqs_rise(log),
    ensures
        0 <= entries_before(log, seq) <= log.len(),
        entries_before(log, seq) < log.len() ==> log[entries_before(log, seq)].seq >= seq,
        forall|j: int| 0 <= j < entries_before(log, seq) ==> (#[trigger] log[j]).seq < seq,
    decreases log.len(),
{
    let p = entries_before(log, seq);
    if log.len() == 0 || log.last().seq < seq {
        assert forall|j: int| 0 <= j < p implies (#[trigger] log[j]).seq < seq by {
            if j < log.len() - 1 {
                assert(log[j].seq < log[log.len() - 1].seq);
            }
        }
    } else {
        let rest = log.drop_last();
        assert(seqs_rise(rest)) by {
            assert forall|i: int, j: int| 0 <= i < j < rest.len() implies (#[trigger] rest[i]).seq
                < (#[trigger] rest[j]).seq by {
                assert(log[i].seq < log[j].seq);
            }
        }
        lemma_entries_before(rest, seq);
        assert forall|j: int| 0 <= j < p implies (#[trigger] log[j]).seq < seq by {
            assert(rest[j] == log[j]);
        }
        if p < rest.len() {
            assert(rest[p] == log[p]);
        }
    }
}

/// A task list in which no id occurs twice stays one when a task starts, and the
/// started task is in it.
pub proof fn law_upsert_keeps_ids_apart(tasks: Seq<TaskView>, task: TaskView)
    requires
        ids_differ(tasks),
    ensures
        ids_differ(
            match place_of_task(tasks, task.id.0@) {
                Some(i) => tasks.update(i, task),
                None => seq![task] + tasks,
            },
        ),
        is_tracked(
            match place_of_task(tasks, task.id.0@) {
                Some(i) => tasks.update(i, task),
                None => seq![task] + tasks,
            },
            task.id.0@,
        ),
{
    lemma_place_of_task_found(tasks, task.id.0@);
    let id = task.id.0@;
    match place_of_task(tasks, id) {
        Some(k) => {
            let out = tasks.update(k, task);
            assert forall|i: int, j: int| 0 <= i < j < out.len() implies (#[trigger] out[i]).id.0@
                != (#[trigger] out[j]).id.0@ by {
                assert(tasks[i].id.0@ != tasks[j].id.0@);
            }
            assert forall|j: int| 0 <= j < k implies (#[trigger] out[j]).id.0@ != id by {
                assert(tasks[j].id.0@ != tasks[k].id.0@);
            }
            lemma_place_of_task(out, id, k);
        },
        None => {
            let out = seq![task] + tasks;
            assert forall|i: int, j: int| 0 <= i < j < out.len() implies (#[trigger] out[i]).id.0@
                != (#[trigger] out[j]).id.0@ by {
                if i > 0 {
                    assert(tasks[i - 1].id.0@ != tasks[j - 1].id.0@);
                } else {
                    assert(tasks[j - 1].id.0@ != id);
                }
            }
            lemma_place_of_task(out, id, 0);
        },
    }
}

proof fn lemma_place_of_task_found(tasks: Seq<TaskView>, id: Seq<char>)
    ensures
        place_of_task(tasks, id) matches Some(i) ==> 0 <= i < tasks.len() && tasks[i].id.0@ == id,
        place_of_task(tasks, id) is None ==> forall|j: int|
            0 <= j < tasks.len() ==> (#[trigger] tasks[j]).id.0@ != id,
    decreases tasks.len(),
{
    if tasks.len() > 0 {
        let rest = tasks.drop_first();
        lemma_place_of_task_found(rest, id);
        if place_of_task(tasks, id) is None {
            assert forall|j: int| 0 <= j < tasks.len() implies (#[trigger] tasks[j]).id.0@ != id by {
                if j > 0 {
                    assert(rest[j - 1].id.0@ != id);
                }
            }
        }
    }
}

/// A task that completed is gone, where no other task has its id.
pub proof fn law_a_completed_task_is_gone(tasks: Seq<TaskView>, id: Seq<char>)
    requires
        ids_differ(tasks),
    ensures
        !is_tracked(
            match place_of_task(tasks, id) {
                Some(i) => tasks.remove(i),
                None => tasks,
            },
            id,
        ),
{
    lemma_place_of_task_found(tasks, id);
    if let Some(k) = place_of_task(tasks, id) {
        let out = tasks.remove(k);
        assert forall|j: int| 0 <= j < out.len() implies (#[trigger] out[j]).id.0@ != id by {
            if j < k {
                assert(tasks[j].id.0@ != tasks[k].id.0@);
            } else {
                assert(tasks[k].id.0@ != tasks[j + 1].id.0@);
            }
        }
        lemma_place_of_task(out, id, out.len() as int);
    }
}

/// A selected task can be cancelled exactly while it has not ended, whatever its kind,
/// and its conversation can be opened exactly where it has one.
pub proof fn law_a_task_can_be_cancelled_until_it_ends(
    model: TasksModel,
    i: usize,
    r: SelectionView,
    cancel: Option<String>,
    open: Option<String>,
)
    requires
        i < model.task_list().len(),
        call_ensures(selection_view, (&model, Some(i)), r),
        call_ensures(cancel_id_for_selection, (&model, Some(i)), cancel),
        call_ensures(open_conversation_id_for_selection, (&model, Some(i)), open),
    ensures
        ({
            let task = model.task_list()[i as int];
            &&& r.cancel_sensitive <==> !(task.status is Completed || task.status is Failed
                || task.status is Cancelled)
            &&& task.status is Running ==> r.cancel_sensitive
            &&& task.status is Pending ==> r.cancel_sensitive
            &&& cancel is Some && cancel->0@ == task.id.0@
            &&& r.open_sensitive <==> !(task.kind is Maintenance)
            &&& r.open_sensitive <==> open is Some
            &&& task.kind is Conversation ==> open->0@ == task.kind->Conversation_conversation_id@
            &&& task.kind is Subagent ==> open->0@ == task.kind->Subagent_conversation_id@
            &&& task.kind is Standalone ==> open->0@ == task.kind->Standalone_conversation_id@
        }),
{
}

/// Without a selection there is nothing to cancel, to open or to read; a position that
/// is gone acts on nothing and leaves the log that is shown.
pub proof fn law_no_selection_acts_on_nothing(
    model: TasksModel,
    selected: Option<usize>,
    r: SelectionView,
    cancel: Option<String>,
    open: Option<String>,
)
    requires
        selected is None || selected->0 >= model.task_list().len(),
        call_ensures(selection_view, (&model, selected), r),
        call_ensures(cancel_id_for_selection, (&model, selected), cancel),
        call_ensures(open_conversation_id_for_selection, (&model, selected), open),
    ensures
        !r.cancel_sensitive,
        !r.open_sensitive,
        cancel is None,
        open is None,
        selected is None ==> r.log is Some && r.log->0@.len() == 0,
        selected is Some ==> r.log is None,
{
}

/// The log shown for a selected task is its own log, a line for each entry in order.
pub proof fn law_the_log_shown_is_the_tasks_own(
    model: TasksModel,
    i: usize,
    id: &str,
    r: SelectionView,
    entries: &[TaskLogEntry],
    text: String,
)
    requires
        i < model.task_list().len(),
        id@ == model.task_list()[i as int].id.0@,
        call_ensures(selection_view, (&model, Some(i)), r),
        call_ensures(TasksModel::logs_for, (&model, id), entries),
        call_ensures(TasksModel::log_text, (&model, id), text),
    ensures
        r.log is Some,
        r.log->0@ == text@,
        r.log->0@ == joined(
            Seq::new(
                entries@.len(),
                |k: int| "["@ + level_word(entries@[k].level) + " "@ + category_word(
                    entries@[k].category,
                ) + "] "@ + entries@[k].message@,
            ),
            "\n"@,
        ),
{
    assert(log_lines(entries@) =~= Seq::new(
        entries@.len(),
        |k: int| "["@ + level_word(entries@[k].level) + " "@ + category_word(
            entries@[k].category,
        ) + "] "@ + entries@[k].message@,
    ));
}

/// A log line gives the level in capitals, what the entry is about, and its message.
pub proof fn law_a_log_line_tells_level_and_category(entry: TaskLogEntry, r: String)
    requires
        call_ensures(format_log_line, (&entry,), r),
    ensures
        ({
            let level = if entry.level is Info {
                "INFO"@
            } else if entry.level is Warn {
                "WARN"@
            } else {
                "ERROR"@
            };
            let category = if entry.category is ModelTurn {
                "model"@
            } else if entry.category is ToolCall {
                "tool"@
            } else if entry.category is ToolResult {
                "result"@
            } else if entry.category is Status {
                "status"@
            } else {
                "lifecycle"@
            };
            r@ == "["@ + level + " "@ + category + "] "@ + entry.message@
        }),
{
}

/// A row has the id, title and conversation of its task, names its kind, and says its
/// status in words and as the dot of the same name.
pub proof fn law_a_row_tells_its_task(task: TaskView, now_ms: i64, r: TaskRowViewModel)
    requires
        call_ensures(view_model_for, (&task, now_ms), r),
    ensures
        r.id@ == task.id.0@,
        r.title@ == task.title@,
        task.status is Pending ==> r.status_text@ == "Pending"@ && r.status_class@
            == "task-dot-pending"@,
        task.status is Running ==> r.status_text@ == "Running"@ && r.status_class@
            == "task-dot-running"@,
        task.status is Completed ==> r.status_text@ == "Completed"@ && r.status_class@
            == "task-dot-completed"@,
        task.status is Failed ==> r.status_text@ == "Failed"@ && r.status_class@
            == "task-dot-failed"@,
        task.status is Cancelled ==> r.status_text@ == "Cancelled"@ && r.status_class@
            == "task-dot-cancelled"@,
        task.kind is Conversation ==> r.kind_label@ == "Chat"@ && opt_text(r.conversation_id)
            == Some(task.kind->Conversation_conversation_id@),
        task.kind is Subagent ==> r.kind_label@ == "Subagent"@ && opt_text(r.conversation_id)
            == Some(task.kind->Subagent_conversation_id@),
        task.kind is Standalone ==> r.kind_label@ == "Agent"@ && opt_text(r.conversation_id)
            == Some(task.kind->Standalone_conversation_id@),
        task.kind is Maintenance ==> r.kind_label@ == "Agent"@ && r.conversation_id is None,
{
}

/// The age of a task that ended does not depend on the time of day, that of one that
/// runs is measured to now, and a clock that ran backwards reads as no time at all.
pub proof fn law_an_age_stops_when_the_task_ends(
    started_at: i64,
    ended_at: i64,
    now_ms: i64,
    later_ms: i64,
    a: String,
    b: String,
    c: String,
)
    requires
        call_ensures(format_age, (started_at, Some(ended_at), now_ms), a),
        call_ensures(format_age, (started_at, Some(ended_at), later_ms), b),
        call_ensures(format_age, (started_at, None, ended_at), c),
    ensures
        a@ == b@,
        a@ == c@,
        ended_at < started_at + 1000 ==> a@ == "0s"@,
{
    reveal_strlit("s");
    reveal_strlit("0s");
    assert(decimal(0) =~= seq!['0']);
    if ended_at < started_at + 1000 {
        assert(age_seconds(started_at as int, ended_at as int) == 0);
        assert(a@ =~= "0s"@);
    }
}

/// An age is told in seconds under a minute, in minutes and seconds under an hour, and
/// in hours and minutes from there on, with nothing over 59 after the first figure.
pub proof fn law_an_age_is_told_in_two_units(
    started_at: i64,
    now_ms: i64,
    r: String,
    h: nat,
    m: nat,
    s: nat,
    ms: nat,
)
    requires
        call_ensures(format_age, (started_at, None, now_ms), r),
        now_ms - started_at == ((h * 60 + m) * 60 + s) * 1000 + ms,
        m < 60,
        s < 60,
        ms < 1000,
    ensures
        h == 0 && m == 0 ==> r@ == decimal(s) + "s"@,
        h == 0 && m > 0 ==> r@ == decimal(m) + "m "@ + decimal(s) + "s"@,
        h > 0 ==> r@ == decimal(h) + "h "@ + decimal(m) + "m"@,
{
    let secs = (h * 60 + m) * 60 + s;
    assert((now_ms - started_at) / 1000 == secs);
    assert(age_seconds(started_at as int, now_ms as int) == secs);
    assert(secs / 60 == h * 60 + m);
    assert(secs % 60 == s);
    assert(secs / 3600 == h);
    assert(secs / 60 % 60 == m);
}

/// A conversation's tasks are exactly those that belong to it, in the order of the list;
/// without a conversation they are all shown.
pub proof fn law_a_conversation_shows_its_own_tasks(
    model: TasksModel,
    conversation: Option<&str>,
    now_ms: i64,
    r: Vec<TaskRowViewModel>,
)
    requires
        call_ensures(TasksModel::task_view_models_for, (&model, conversation, now_ms), r),
    ensures
        ({
            let own = model.task_list().filter(
                |task: TaskView|
                    {
                        ||| conversation is None
                        ||| task.kind is Conversation && task.kind->Conversation_conversation_id@
                            == conversation->0@
                        ||| task.kind is Subagent && task.kind->Subagent_conversation_id@
                            == conversation->0@
                        ||| task.kind is Standalone && task.kind->Standalone_conversation_id@
                            == conversation->0@
                    },
            );
            &&& r@.len() == own.len()
            &&& forall|i: int|
                0 <= i < r@.len() ==> (#[trigger] r@[i]).id@ == own[i].id.0@ && r@[i].title@
                    == own[i].title@
        }),
{
    let f = |task: TaskView|
        {
            ||| conversation is None
            ||| task.kind is Conversation && task.kind->Conversation_conversation_id@
                == conversation->0@
            ||| task.kind is Subagent && task.kind->Subagent_conversation_id@ == conversation->0@
            ||| task.kind is Standalone && task.kind->Standalone_conversation_id@
                == conversation->0@
        };
    let wanted = match conversation {
        Some(id) => Some(id@),
        None => None,
    };
    assert forall|task: TaskView| #[trigger]
        f(task) == (wanted is None || conversation_of(task.kind) == wanted) by {}
    lemma_tasks_of_filters(model.task_list(), wanted, f);
}

proof fn lemma_tasks_of_filters(
    tasks: Seq<TaskView>,
    conversation: Option<Seq<char>>,
    f: spec_fn(TaskView) -> bool,
)
    requires
        forall|task: TaskView| #[trigger]
            f(task) == (conversation is None || conversation_of(task.kind) == conversation),
    ensures
        tasks_of(tasks, conversation) == tasks.filter(f),
    decreases tasks.len(),
{
    reveal(Seq::filter);
    if tasks.len() > 0 {
        lemma_tasks_of_filters(tasks.drop_last(), conversation, f);
        assert(f(tasks.last()) == (conversation is None || conversation_of(tasks.last().kind)
            == conversation));
    } else {
        assert(tasks_of(tasks, conversation) =~= tasks.filter(f));
    }
}

/// A task is found at the first place of its id, exactly where one has that id.
pub proof fn law_tasks_are_found_by_id(model: TasksModel, id: &str, r: Option<usize>)
    requires
        call_ensures(TasksModel::position_of, (&model, id), r),
    ensures
        r is Some ==> {
            &&& r->0 < model.task_list().len()
            &&& model.task_list()[r->0 as int].id.0@ == id@
            &&& forall|j: int|
                0 <= j < r->0 ==> (#[trigger] model.task_list()[j]).id.0@ != id@
        },
        r is None ==> forall|j: int|
            0 <= j < model.task_list().len() ==> (#[trigger] model.task_list()[j]).id.0@ != id@,
{
    lemma_place_of_task_found(model.task_list(), id@);
    lemma_place_is_first(model.task_list(), id@);
}

proof fn lemma_place_is_first(tasks: Seq<TaskView>, id: Seq<char>)
    ensures
        place_of_task(tasks, id) matches Some(i) ==> forall|j: int|
            0 <= j < i ==> (#[trigger] tasks[j]).id.0@ != id,
    decreases tasks.len(),
{
    if tasks.len() > 0 && tasks[0].id.0@ != id {
        let rest = tasks.drop_first();
        lemma_place_is_first(rest, id);
        lemma_place_of_task_found(rest, id);
        if let Some(i) = place_of_task(tasks, id) {
            assert forall|j: int| 0 <= j < i implies (#[trigger] tasks[j]).id.0@ != id by {
                if j > 0 {
                    assert(rest[j - 1].id.0@ != id);
                }
            }
        }
    }
}

/// A task that starts is shown as it is: in the place of the first one with its id, or
/// on top of the list; every other row and every log stays.
pub proof fn law_a_started_task_is_shown(panel: &mut TasksPanel, task: TaskView)
    requires
        old(panel).wf(),
        call_ensures(TasksPanel::handle_task_started, (panel, task), ()),
    ensures
        ({
            let before = old(panel).tasks().task_list();
            let after = final(panel).tasks().task_list();
            let known = exists|i: int|
                0 <= i < before.len() && (#[trigger] before[i]).id.0@ == task.id.0@;
            &&& !known ==> after.len() == before.len() + 1 && after[0] == task
                && after.drop_first() == before
            &&& known ==> after.len() == before.len() && exists|i: int|
                0 <= i < before.len() && (#[trigger] before[i]).id.0@ == task.id.0@ && after
                    == before.update(i, task)
        }),
        forall|id: Seq<char>| #[trigger]
            final(panel).tasks().log(id) == old(panel).tasks().log(id),
{
    let before = old(panel).tasks().task_list();
    lemma_place_of_task_found(before, task.id.0@);
    let after = final(panel).tasks().task_list();
    if place_of_task(before, task.id.0@) is None {
        assert(after.drop_first() =~= before);
    } else {
        let i = place_of_task(before, task.id.0@)->0;
        assert(before[i].id.0@ == task.id.0@);
    }
}

/// Progress changes the hint of one task of that id, and nothing else.
pub proof fn law_progress_changes_a_hint_only(
    panel: &mut TasksPanel,
    id: &str,
    hint: Option<String>,
)
    requires
        old(panel).wf(),
        call_ensures(TasksPanel::handle_task_progress, (panel, id, hint), ()),
    ensures
        ({
            let before = old(panel).tasks().task_list();
            let after = final(panel).tasks().task_list();
            &&& after.len() == before.len()
            &&& forall|i: int|
                0 <= i < before.len() ==> {
                    let now = #[trigger] after[i];
                    &&& now.id == before[i].id
                    &&& now.kind == before[i].kind
                    &&& now.status == before[i].status
                    &&& now.started_at == before[i].started_at
                    &&& now.ended_at == before[i].ended_at
                    &&& now.title == before[i].title
                    &&& before[i].id.0@ != id@ ==> now.progress_hint == before[i].progress_hint
                }
            &&& (exists|i: int| 0 <= i < before.len() && (#[trigger] before[i]).id.0@ == id@)
                ==> exists|i: int|
                0 <= i < after.len() && (#[trigger] after[i]).id.0@ == id@
                    && after[i].progress_hint == hint
        }),
        forall|other: Seq<char>| #[trigger]
            final(panel).tasks().log(other) == old(panel).tasks().log(other),
{
    let before = old(panel).tasks().task_list();
    let after = final(panel).tasks().task_list();
    lemma_place_of_task_found(before, id@);
    if let Some(i) = place_of_task(before, id@) {
        assert(after[i].id.0@ == id@ && after[i].progress_hint == hint);
    }
}

/// A task that completes leaves the list with its log; the other rows and logs stay.
pub proof fn law_completion_removes_the_task_and_its_log(panel: &mut TasksPanel, id: &str)
    requires
        old(panel).wf(),
        call_ensures(TasksPanel::handle_task_completed, (panel, id), ()),
    ensures
        ({
            let before = old(panel).tasks().task_list();
            let after = final(panel).tasks().task_list();
            let known = exists|i: int| 0 <= i < before.len() && (#[trigger] before[i]).id.0@ == id@;
            &&& !known ==> after == before
            &&& known ==> exists|i: int|
                0 <= i < before.len() && (#[trigger] before[i]).id.0@ == id@ && after
                    == before.remove(i)
        }),
        final(panel).tasks().log(id@).len() == 0,
        forall|other: Seq<char>|
            other != id@ ==> #[trigger] final(panel).tasks().log(other) == old(panel).tasks().log(
                other,
            ),
{
    let before = old(panel).tasks().task_list();
    lemma_place_of_task_found(before, id@);
    if let Some(i) = place_of_task(before, id@) {
        assert(before[i].id.0@ == id@);
    }
}

/// A listing replaces the rows, and keeps the logs of the tasks in it and no others.
pub proof fn law_a_listing_replaces_the_rows(panel: &mut TasksPanel, tasks: Vec<TaskView>)
    requires
        old(panel).wf(),
        call_ensures(TasksPanel::replace_all, (panel, tasks), ()),
    ensures
        final(panel).tasks().task_list() == tasks@,
        forall|i: int| 0 <= i < tasks@.len() ==> #[trigger] final(panel).tasks().log(
            tasks@[i].id.0@,
        ) == old(panel).tasks().log(tasks@[i].id.0@),
        forall|id: Seq<char>|
            (forall|i: int| 0 <= i < tasks@.len() ==> (#[trigger] tasks@[i]).id.0@ != id)
                ==> (#[trigger] final(panel).tasks().log(id)).len() == 0,
{
    assert forall|i: int| 0 <= i < tasks@.len() implies #[trigger] final(panel).tasks().log(
        tasks@[i].id.0@,
    ) == old(panel).tasks().log(tasks@[i].id.0@) by {
        lemma_place_of_task_found(tasks@, tasks@[i].id.0@);
    }
    assert forall|id: Seq<char>|
        (forall|i: int|
            0 <= i < tasks@.len() ==> (#[trigger] tasks@[i]).id.0@ != id) implies (
    #[trigger] final(panel).tasks().log(id)).len() == 0 by {
        lemma_place_of_task_found(tasks@, id);
    }
}

/// An entry that comes in is in the log of its task from then on, unless it was already
/// or is older than all that the full log keeps; the view is refreshed exactly where
/// its task is selected.
pub proof fn law_a_logged_entry_is_kept_and_shown(
    panel: &mut TasksPanel,
    id: &str,
    entry: TaskLogEntry,
    r: Option<String>,
    text: String,
)
    requires
        old(panel).wf(),
        call_ensures(TasksPanel::handle_task_log_appended, (panel, id, entry), r),
        call_ensures(TasksModel::log_text, (&final(panel).tasks(), id), text),
    ensures
        ({
            let before = old(panel).tasks().log(id@);
            let after = final(panel).tasks().log(id@);
            &&& before.len() < 500 && (forall|j: int|
                0 <= j < before.len() ==> (#[trigger] before[j]).seq != entry.seq)
                ==> after.contains(entry) && after.len() == before.len() + 1
            &&& (exists|j: int| 0 <= j < before.len() && (#[trigger] before[j]).seq == entry.seq)
                ==> after == before
            &&& after.len() <= 500
            &&& forall|i: int, j: int|
                0 <= i < j < after.len() ==> (#[trigger] after[i]).seq < (
                #[trigger] after[j]).seq
        }),
        final(panel).tasks().task_list() == old(panel).tasks().task_list(),
        r is Some <==> old(panel).selected_row() is Some && old(panel).tasks().task_list()[old(
            panel,
        ).selected_row()->0].id.0@ == id@,
        r is Some ==> r->0@ == text@,
{
    broadcast use vstd::seq_lib::group_to_multiset_ensures;

    let before = old(panel).tasks().log(id@);
    let after = final(panel).tasks().log(id@);
    law_logs_are_ordered_and_bounded(old(panel).tasks(), id@);
    law_logs_are_ordered_and_bounded(final(panel).tasks(), id@);
    if forall|j: int| 0 <= j < before.len() ==> (#[trigger] before[j]).seq != entry.seq {
        law_a_new_entry_takes_its_place(before, entry);
        let full = with_entry(before, entry);
        assert(full.to_multiset().count(entry) > 0);
        assert(full.contains(entry));
        assert(full.len() == full.to_multiset().len());
        assert(before.len() == before.to_multiset().len());
    } else {
        let j = choose|j: int|
            0 <= j < before.len() && (#[trigger] before[j]).seq == entry.seq;
        law_a_resent_entry_changes_nothing(before, entry, j);
    }
}

/// Selecting a row selects that row, and a position past the list none; the tasks stay.
pub proof fn law_the_row_selected_is_the_row_picked(
    panel: &mut TasksPanel,
    index: Option<usize>,
    r: Option<usize>,
)
    requires
        call_ensures(TasksPanel::select, (panel, index), ()),
        call_ensures(TasksPanel::selected_index, (final(panel),), r),
    ensures
        index is Some && index->0 < old(panel).tasks().task_list().len() ==> r == index,
        index is None || index->0 >= old(panel).tasks().task_list().len() ==> r is None,
        final(panel).tasks() == old(panel).tasks(),
{
}

/// Each event leaves the selection on the task that was selected, found by its id, and
/// on none where that task is gone.
pub proof fn law_events_keep_the_selected_task(
    started: &mut TasksPanel,
    moved: &mut TasksPanel,
    completed: &mut TasksPanel,
    listed: &mut TasksPanel,
    task: TaskView,
    id: &str,
    hint: Option<String>,
    tasks: Vec<TaskView>,
)
    requires
        old(started).wf() && old(moved).wf() && old(completed).wf() && old(listed).wf(),
        call_ensures(TasksPanel::handle_task_started, (started, task), ()),
        call_ensures(TasksPanel::handle_task_progress, (moved, id, hint), ()),
        call_ensures(TasksPanel::handle_task_completed, (completed, id), ()),
        call_ensures(TasksPanel::replace_all, (listed, tasks), ()),
    ensures
        keeps_the_task(*old(started), *final(started)),
        keeps_the_task(*old(moved), *final(moved)),
        keeps_the_task(*old(completed), *final(completed)),
        keeps_the_task(*old(listed), *final(listed)),
{
    lemma_keeps_the_task(*old(started), *final(started));
    lemma_keeps_the_task(*old(moved), *final(moved));
    lemma_keeps_the_task(*old(completed), *final(completed));
    lemma_keeps_the_task(*old(listed), *final(listed));
}

/// What is selected afterwards has the id of what was selected before, and something is
/// selected wherever that id is still in the list.
pub open spec fn keeps_the_task(before: TasksPanel, after: TasksPanel) -> bool {
    let was = before.selected_row();
    let now = after.selected_row();
    &&& was is None ==> now is None
    &&& was is Some ==> {
        let id = before.tasks().task_list()[was->0].id.0@;
        &&& now is Some ==> 0 <= now->0 < after.tasks().task_list().len()
            && after.tasks().task_list()[now->0].id.0@ == id
        &&& now is None ==> forall|j: int|
            0 <= j < after.tasks().task_list().len() ==> (
            #[trigger] after.tasks().task_list()[j]).id.0@ != id
    }
}

proof fn lemma_keeps_the_task(before: TasksPanel, after: TasksPanel)
    requires
        before.wf(),
        after.selected_row() == after.kept_row(before),
    ensures
        keeps_the_task(before, after),
{
    if let Some(id) = before.selected_id() {
        lemma_place_of_task_found(after.tasks().task_list(), id);
    }
}

/// The panel starts empty.
pub proof fn law_a_panel_starts_empty(panel: TasksPanel, selected: Option<usize>, id: Seq<char>)
    requires
        call_ensures(TasksPanel::new, (), panel),
        call_ensures(TasksPanel::selected_index, (&panel,), selected),
    ensures
        panel.tasks().task_list().len() == 0,
        panel.tasks().log(id).len() == 0,
        selected is None,
{
}

/// The words of a row are those of its status and kind.
pub proof fn law_the_words_of_a_row(
    task: TaskView,
    now_ms: i64,
    row: TaskRowViewModel,
    class: String,
    word: &'static str,
    kind: &'static str,
    conversation: Option<String>,
)
    requires
        call_ensures(view_model_for, (&task, now_ms), row),
        call_ensures(status_class_for, (task.status,), class),
        call_ensures(status_text_for, (task.status,), word),
        call_ensures(kind_label_for, (&task.kind,), kind),
        call_ensures(conversation_id_for, (&task.kind,), conversation),
    ensures
        row.status_class@ == class@,
        row.status_text@ == word@,
        row.kind_label@ == kind@,
        opt_text(row.conversation_id) == opt_text(conversation),
        class@ == "task-dot-pending"@ || class@ == "task-dot-running"@ || class@
            == "task-dot-completed"@ || class@ == "task-dot-failed"@ || class@
            == "task-dot-cancelled"@,
{
    law_a_row_tells_its_task(task, now_ms, row);
}

/// The list tells its own length, and gives each task at its place.
pub proof fn law_the_list_tells_its_tasks(
    model: TasksModel,
    index: usize,
    length: usize,
    empty: bool,
    r: Option<&TaskView>,
)
    requires
        call_ensures(TasksModel::len, (&model,), length),
        call_ensures(TasksModel::is_empty, (&model,), empty),
        call_ensures(TasksModel::get, (&model, index), r),
    ensures
        length == model.task_list().len(),
        empty <==> length == 0,
        r is Some <==> index < length,
        r is Some ==> *r->0 == model.task_list()[index as int],
{
}

/// A task that is reported is found under its id from then on; a new one comes first and
/// a known one keeps its place.
pub proof fn law_a_reported_task_is_found(
    model: &mut TasksModel,
    task: TaskView,
    id: &str,
    before: Option<usize>,
    after: Option<usize>,
)
    requires
        old(model).wf(),
        id@ == task.id.0@,
        call_ensures(TasksModel::position_of, (old(model), id), before),
        call_ensures(TasksModel::upsert, (model, task), ()),
        call_ensures(TasksModel::position_of, (final(model), id), after),
    ensures
        after is Some,
        after->0 < final(model).task_list().len(),
        final(model).task_list()[after->0 as int] == task,
        before is None ==> after->0 == 0 && final(model).task_list().drop_first() == old(model).task_list(),
        before is Some ==> after == before && final(model).task_list() == old(model).task_list().update(before->0 as int, task),
        forall|other: Seq<char>| #[trigger] final(model).log(other) == old(model).log(other),
{
    let tasks = old(model).task_list();
    let now = final(model).task_list();
    lemma_place_of_task_found(tasks, id@);
    lemma_place_of_task_found(now, id@);
    lemma_place_is_first(tasks, id@);
    lemma_place_is_first(now, id@);
    if before is None {
        assert(now =~= seq![task] + tasks);
        assert(now[0] == task);
        assert(now.drop_first() =~= tasks);
    } else {
        let i = before->0 as int;
        assert(now == tasks.update(i, task));
        assert(now[i] == task);
        assert forall|j: int| 0 <= j < i implies (#[trigger] now[j]).id.0@ != id@ by {
            assert(now[j] == tasks[j]);
        }
        if after is Some {
            let k = after->0 as int;
            if k < i {
                assert(now[k].id.0@ != id@);
            }
        }
    }
}

/// Progress changes the hint of its own task, and completion takes its own task and its
/// log away; neither does anything for a task that is not listed.
pub proof fn law_progress_and_completion_find_their_task(
    moved: &mut TasksModel,
    done: &mut TasksModel,
    id: &str,
    hint: Option<String>,
    before: Option<usize>,
)
    requires
        old(moved).wf(),
        *old(done) == *old(moved),
        call_ensures(TasksModel::position_of, (old(moved), id), before),
        call_ensures(TasksModel::apply_progress, (moved, id, hint), ()),
        call_ensures(TasksModel::apply_completion, (done, id), ()),
    ensures
        before is None ==> final(moved).task_list() == old(moved).task_list() && final(done).task_list() == old(moved).task_list(),
        before is Some ==> {
            let i = before->0 as int;
            let tasks = old(moved).task_list();
            &&& final(moved).task_list().len() == tasks.len()
            &&& final(moved).task_list()[i].progress_hint == hint
            &&& final(moved).task_list()[i].id == tasks[i].id
            &&& final(moved).task_list()[i].status == tasks[i].status
            &&& final(moved).task_list()[i].title == tasks[i].title
            &&& final(moved).task_list()[i].kind == tasks[i].kind
            &&& final(moved).task_list()[i].started_at == tasks[i].started_at
            &&& forall|j: int|
                0 <= j < tasks.len() && j != i ==> #[trigger] final(moved).task_list()[j]
                    == tasks[j]
            &&& final(done).task_list() == tasks.remove(i)
        },
        final(done).log(id@).len() == 0,
        forall|other: Seq<char>|
            other != id@ ==> #[trigger] final(done).log(other) == old(moved).log(other),
        forall|other: Seq<char>| #[trigger] final(moved).log(other) == old(moved).log(other),
{
    lemma_place_of_task_found(old(moved).task_list(), id@);
    lemma_place_is_first(old(moved).task_list(), id@);
}

/// A full log makes room for a newer entry by losing its oldest, and an entry older than
/// all of a full log is not kept.
pub proof fn law_a_full_log_loses_its_oldest(
    model: &mut TasksModel,
    id: &str,
    entry: TaskLogEntry,
    other: Seq<char>,
)
    requires
        old(model).wf(),
        call_ensures(TasksModel::append_log, (model, id, entry), ()),
        old(model).log(id@).len() == 500,
    ensures
        old(model).log(id@).last().seq < entry.seq ==> final(model).log(id@) == old(model).log(
            id@,
        ).drop_first().push(entry),
        entry.seq < old(model).log(id@)[0].seq ==> final(model).log(id@) == old(model).log(id@),
        other != id@ ==> final(model).log(other) == old(model).log(other),
        final(model).task_list() == old(model).task_list(),
{
    let before = old(model).log(id@);
    law_logs_are_ordered_and_bounded(*old(model), id@);
    if before.last().seq < entry.seq {
        assert(before.push(entry).skip(1) =~= before.drop_first().push(entry));
    }
    if entry.seq < before[0].seq {
        lemma_oldest_comes_first(before, entry);
        assert((seq![entry] + before).skip(1) =~= before);
    }
}

proof fn lemma_oldest_comes_first(log: Seq<TaskLogEntry>, entry: TaskLogEntry)
    requires
        forall|i: int| 0 <= i < log.len() ==> entry.seq < (#[trigger] log[i]).seq,
    ensures
        with_entry(log, entry) == seq![entry] + log,
    decreases log.len(),
{
    if log.len() > 0 {
        let rest = log.drop_last();
        assert forall|i: int| 0 <= i < rest.len() implies entry.seq < (#[trigger] rest[i]).seq by {
            assert(rest[i] == log[i]);
        }
        lemma_oldest_comes_first(rest, entry);
        assert(entry.seq < log[log.len() - 1].seq);
        assert((seq![entry] + rest).push(log.last()) =~= seq![entry] + log);
    } else {
        assert(log.push(entry) =~= seq![entry] + log);
    }
}

/// A listing keeps the logs of the tasks that it lists, and no others.
pub proof fn law_a_listing_keeps_the_logs_it_needs(
    model: &mut TasksModel,
    tasks: Vec<TaskView>,
    id: Seq<char>,
)
    requires
        old(model).wf(),
        call_ensures(TasksModel::replace_all, (model, tasks), ()),
    ensures
        final(model).task_list() == tasks@,
        (exists|i: int| 0 <= i < tasks@.len() && (#[trigger] tasks@[i]).id.0@ == id) ==> final(model).log(id) == old(model).log(id),
        (forall|i: int| 0 <= i < tasks@.len() ==> (#[trigger] tasks@[i]).id.0@ != id) ==> final(model).log(id).len() == 0,
{
    lemma_place_of_task_found(tasks@, id);
    lemma_place_is_first(tasks@, id);
}

/// A row's age is that of its task.
pub proof fn law_a_row_tells_its_age(
    task: TaskView,
    now_ms: i64,
    age: String,
    r: TaskRowViewModel,
)
    requires
        call_ensures(view_model_for, (&task, now_ms), r),
        call_ensures(format_age, (task.started_at, task.ended_at, now_ms), age),
    ensures
        r.age_text@ == age@,
{
}

/// The rows of the list are the rows of its tasks.
pub proof fn law_the_list_shows_each_task_as_it_is(
    model: TasksModel,
    now_ms: i64,
    rows: Vec<TaskRowViewModel>,
    i: int,
    r: TaskRowViewModel,
)
    requires
        call_ensures(TasksModel::task_view_models_for, (&model, None, now_ms), rows),
        0 <= i < model.task_list().len(),
        call_ensures(view_model_for, (&model.task_list()[i], now_ms), r),
    ensures
        rows@.len() == model.task_list().len(),
        rows@[i].id@ == r.id@ && rows@[i].title@ == r.title@,
        rows@[i].status_class@ == r.status_class@ && rows@[i].status_text@ == r.status_text@,
        rows@[i].kind_label@ == r.kind_label@ && rows@[i].age_text@ == r.age_text@,
        opt_text(rows@[i].conversation_id) == opt_text(r.conversation_id),
{
    lemma_all_tasks_are_shown(model.task_list());
}

proof fn lemma_all_tasks_are_shown(tasks: Seq<TaskView>)
    ensures
        tasks_of(tasks, None) == tasks,
    decreases tasks.len(),
{
    if tasks.len() > 0 {
        lemma_all_tasks_are_shown(tasks.drop_last());
        assert(tasks_of(tasks, None) =~= tasks);
    } else {
        assert(tasks_of(tasks, None) =~= tasks);
    }
}

/// A new entry of a log that has room leaves every other entry in it.
pub proof fn law_a_log_with_room_keeps_its_entries(
    model: &mut TasksModel,
    id: &str,
    entry: TaskLogEntry,
    old_entry: TaskLogEntry,
)
    requires
        old(model).wf(),
        call_ensures(TasksModel::append_log, (model, id, entry), ()),
        old(model).log(id@).len() < 500,
        old(model).log(id@).contains(old_entry),
    ensures
        final(model).log(id@).contains(old_entry),
{
    let before = old(model).log(id@);
    lemma_with_entry_keeps(before, entry, old_entry);
    law_logs_are_ordered_and_bounded(*old(model), id@);
}

proof fn lemma_with_entry_keeps(
    log: Seq<TaskLogEntry>,
    entry: TaskLogEntry,
    old_entry: TaskLogEntry,
)
    requires
        log.contains(old_entry),
    ensures
        with_entry(log, entry).contains(old_entry),
        with_entry(log, entry).len() <= log.len() + 1,
    decreases log.len(),
{
    let k = choose|k: int| 0 <= k < log.len() && log[k] == old_entry;
    if log.last().seq < entry.seq {
        assert(log.push(entry)[k] == old_entry);
    } else if log.last().seq != entry.seq {
        let rest = log.drop_last();
        let now = with_entry(rest, entry).push(log.last());
        if k < rest.len() {
            assert(rest[k] == old_entry);
            lemma_with_entry_keeps(rest, entry, old_entry);
            let m = choose|m: int|
                0 <= m < with_entry(rest, entry).len() && with_entry(rest, entry)[m] == old_entry;
            assert(now[m] == old_entry);
        } else {
            lemma_with_entry_length(rest, entry);
            assert(now[now.len() - 1] == old_entry);
        }
    }
}

proof fn lemma_with_entry_length(log: Seq<TaskLogEntry>, entry: TaskLogEntry)
    ensures
        with_entry(log, entry).len() <= log.len() + 1,
    decreases log.len(),
{
    if log.len() > 0 {
        lemma_with_entry_length(log.drop_last(), entry);
    }
}

} // verus!
