//! The conversation-scoped side pane.
//!
//! A collapsible panel to the right of the chat, bound to the currently-open
//! conversation. It shows the conversation's background tasks and its scratchpad
//! notes, grouped by type with `todo`s ordered by sequence. A todo's checkbox
//! toggles `done`, a pencil edits the content, a trash deletes it; each of these
//! is an action that the window turns into a daemon command.

use crate::api::ScratchpadNoteView;
use crate::ranking::{
    in_rank_order, law_ranking_forgets_the_order, rank_items, ranked_from, ties, Rank,
};
use crate::tasks_panel::{
    law_a_row_tells_its_task, selection_view, view_model_for, SelectionView, TaskRowViewModel,
    TasksModel,
};
use crate::text::{
    comes_before, lemma_text_before_negatively_transitive, lemma_text_before_total, same_text,
    text_before,
};
use vstd::prelude::*;

verus! {

/// The reserved goal note key, surfaced with a distinct prefix so it reads as the
/// objective rather than a plain note.
pub const GOAL_KEY: &'static str = "goal";

/// An interaction the user performed in the pane. The pane is client-agnostic; the
/// window installs a handler that turns each action into a daemon command.
#[derive(Debug, PartialEq, Eq)]
pub enum SidePaneAction {
    /// Upsert a note. Used both for check-off (`done` flipped) and content edits;
    /// the unchanged fields are echoed back so the daemon upsert keeps them.
    SetNote {
        key: String,
        content: String,
        note_type: String,
        sequence: Option<i32>,
        done: bool,
    },
    /// Delete a single note by key.
    DeleteNote { key: String },
}

/// A group of scratchpad notes sharing a `note_type`, in display order.
#[derive(Debug, PartialEq, Eq)]
pub struct NoteGroup {
    pub note_type: String,
    pub notes: Vec<ScratchpadNoteView>,
}

/// Notes in the order of a group: by `sequence` ascending with none last, then by
/// `key`.
#[derive(Clone, Copy)]
pub struct BySequence;

/// Whether sequence `a` comes before `b`; none comes last.
pub open spec fn sequence_before(a: Option<i32>, b: Option<i32>) -> bool {
    match (a, b) {
        (Some(x), Some(y)) => x < y,
        (Some(_), None) => true,
        (None, _) => false,
    }
}

impl Rank<ScratchpadNoteView> for BySequence {
    open spec fn before(self, a: ScratchpadNoteView, b: ScratchpadNoteView) -> bool {
        ||| sequence_before(a.sequence, b.sequence)
        ||| a.sequence == b.sequence && text_before(a.key@, b.key@)
    }

    proof fn asymmetric(self, a: ScratchpadNoteView, b: ScratchpadNoteView) {
        lemma_text_before_total(a.key@, b.key@);
    }

    proof fn negatively_transitive(
        self,
        a: ScratchpadNoteView,
        b: ScratchpadNoteView,
        c: ScratchpadNoteView,
    ) {
        lemma_text_before_negatively_transitive(a.key@, b.key@, c.key@);
    }

    fn is_before(&self, a: &ScratchpadNoteView, b: &ScratchpadNoteView) -> (r: bool) {
        match (a.sequence, b.sequence) {
            (Some(x), Some(y)) => if x != y {
                x < y
            } else {
                comes_before(a.key.as_str(), b.key.as_str())
            },
            (Some(_), None) => true,
            (None, Some(_)) => false,
            (None, None) => comes_before(a.key.as_str(), b.key.as_str()),
        }
    }
}

/// Groups in display order: `todo` first (the working plan), then the rest
/// alphabetically.
#[derive(Clone, Copy)]
pub struct TodoFirst;

/// Whether the group of type `a` stands above that of type `b`.
pub open spec fn type_before(a: Seq<char>, b: Seq<char>) -> bool {
    if (a == "todo"@) != (b == "todo"@) {
        a == "todo"@
    } else {
        text_before(a, b)
    }
}

impl Rank<NoteGroup> for TodoFirst {
    open spec fn before(self, a: NoteGroup, b: NoteGroup) -> bool {
        type_before(a.note_type@, b.note_type@)
    }

    proof fn asymmetric(self, a: NoteGroup, b: NoteGroup) {
        lemma_text_before_total(a.note_type@, b.note_type@);
    }

    proof fn negatively_transitive(self, a: NoteGroup, b: NoteGroup, c: NoteGroup) {
        lemma_text_before_negatively_transitive(a.note_type@, b.note_type@, c.note_type@);
        lemma_text_before_total(a.note_type@, b.note_type@);
        lemma_text_before_total(b.note_type@, c.note_type@);
        lemma_text_before_total(a.note_type@, c.note_type@);
    }

    fn is_before(&self, a: &NoteGroup, b: &NoteGroup) -> (r: bool) {
        let x = same_text(a.note_type.as_str(), "todo");
        let y = same_text(b.note_type.as_str(), "todo");
        if x != y {
            x
        } else {
            comes_before(a.note_type.as_str(), b.note_type.as_str())
        }
    }
}

/// Whether a note is of the type, and not the goal.
pub open spec fn under(note_type: Seq<char>) -> spec_fn(ScratchpadNoteView) -> bool {
    |note: ScratchpadNoteView| note.key@ != GOAL_KEY@ && note.note_type@ == note_type
}

/// The notes of a type in their order, the goal note left out.
pub open spec fn notes_under(notes: Seq<ScratchpadNoteView>, note_type: Seq<char>) -> Seq<
    ScratchpadNoteView,
> {
    notes.filter(under(note_type))
}

/// Some group is of that type.
pub open spec fn has_type(groups: Seq<NoteGroup>, note_type: Seq<char>) -> bool {
    exists|i: int| 0 <= i < groups.len() && (#[trigger] groups[i]).note_type@ == note_type
}

impl NoteGroup {
    /// The group holds exactly the notes of its type, in display order.
    pub open spec fn holds(self, notes: Seq<ScratchpadNoteView>) -> bool {
        &&& notes_under(notes, self.note_type@).len() > 0
        &&& ranked_from(BySequence, notes_under(notes, self.note_type@), self.notes@)
    }
}

/// `groups` is `notes` grouped by type: one group for each type that occurs beside
/// the goal, `todo` first and then alphabetically.
pub open spec fn grouped_notes(notes: Seq<ScratchpadNoteView>, groups: Seq<NoteGroup>) -> bool {
    &&& forall|i: int| 0 <= i < groups.len() ==> (#[trigger] groups[i]).holds(notes)
    &&& forall|i: int, j: int|
        0 <= i < j < groups.len() ==> (#[trigger] groups[i]).note_type@ != (
        #[trigger] groups[j]).note_type@
    &&& forall|i: int|
        0 <= i < notes.len() && notes[i].key@ != GOAL_KEY@ ==> has_type(
            groups,
            (#[trigger] notes[i]).note_type@,
        )
    &&& in_rank_order(TodoFirst, groups)
}

/// The notes of a type, copied out in their order, the goal note left out.
fn bucket(notes: &Vec<ScratchpadNoteView>, note_type: &str) -> (r: Vec<ScratchpadNoteView>)
    ensures
        r@ == notes_under(notes@, note_type@),
{
    let ghost f = under(note_type@);
    let mut out: Vec<ScratchpadNoteView> = Vec::new();
    let mut i: usize = 0;
    proof {
        reveal(Seq::filter);
    }
    while i < notes.len()
        invariant
            i <= notes.len(),
            f == under(note_type@),
            out@ == notes@.take(i as int).filter(f),
        decreases notes.len() - i,
    {
        if !same_text(notes[i].key.as_str(), GOAL_KEY) && same_text(
            notes[i].note_type.as_str(),
            note_type,
        ) {
            out.push(notes[i].clone());
        }
        proof {
            reveal(Seq::filter);
            assert(notes@.take(i as int + 1).drop_last() =~= notes@.take(i as int));
        }
        i = i + 1;
    }
    assert(notes@.take(notes@.len() as int) =~= notes@);
    out
}

/// Whether some group is of that type.
fn find_type(groups: &Vec<NoteGroup>, note_type: &str) -> (r: bool)
    ensures
        r == has_type(groups@, note_type@),
{
    let mut i: usize = 0;
    while i < groups.len()
        invariant
            i <= groups.len(),
            forall|j: int| 0 <= j < i ==> (#[trigger] groups@[j]).note_type@ != note_type@,
        decreases groups.len() - i,
    {
        if same_text(groups[i].note_type.as_str(), note_type) {
            return true;
        }
        i = i + 1;
    }
    false
}

/// Reordering groups keeps what holds of the set of them.
proof fn lemma_reordered(notes: Seq<ScratchpadNoteView>, s: Seq<NoteGroup>, r: Seq<NoteGroup>)
    requires
        s.to_multiset() == r.to_multiset(),
        forall|i: int| 0 <= i < s.len() ==> (#[trigger] s[i]).holds(notes),
        forall|i: int, j: int|
            0 <= i < j < s.len() ==> (#[trigger] s[i]).note_type@ != (#[trigger] s[j]).note_type@,
        forall|i: int|
            0 <= i < notes.len() && notes[i].key@ != GOAL_KEY@ ==> has_type(
                s,
                (#[trigger] notes[i]).note_type@,
            ),
    ensures
        forall|i: int| 0 <= i < r.len() ==> (#[trigger] r[i]).holds(notes),
        forall|i: int, j: int|
            0 <= i < j < r.len() ==> (#[trigger] r[i]).note_type@ != (#[trigger] r[j]).note_type@,
        forall|i: int|
            0 <= i < notes.len() && notes[i].key@ != GOAL_KEY@ ==> has_type(
                r,
                (#[trigger] notes[i]).note_type@,
            ),
{
    broadcast use vstd::seq_lib::group_to_multiset_ensures;

    assert forall|i: int| 0 <= i < r.len() implies s.contains(#[trigger] r[i]) by {
        assert(r.to_multiset().count(r[i]) > 0);
    }
    assert forall|i: int| 0 <= i < s.len() implies r.contains(#[trigger] s[i]) by {
        assert(s.to_multiset().count(s[i]) > 0);
    }
    assert(s.no_duplicates());
    s.lemma_multiset_has_no_duplicates();
    r.lemma_multiset_has_no_duplicates_conv();
    assert forall|i: int, j: int| 0 <= i < j < r.len() implies (#[trigger] r[i]).note_type@ != (
    #[trigger] r[j]).note_type@ by {
        let a = choose|a: int| 0 <= a < s.len() && s[a] == r[i];
        let b = choose|b: int| 0 <= b < s.len() && s[b] == r[j];
        assert(r[i] != r[j]);
        assert(a < b ==> s[a].note_type@ != s[b].note_type@);
        assert(b < a ==> s[b].note_type@ != s[a].note_type@);
    }
    assert forall|i: int| 0 <= i < notes.len() && notes[i].key@ != GOAL_KEY@ implies has_type(
        r,
        (#[trigger] notes[i]).note_type@,
    ) by {
        let a = choose|a: int|
            0 <= a < s.len() && (#[trigger] s[a]).note_type@ == notes[i].note_type@;
        assert(r.contains(s[a]));
    }
}

/// Group notes by type and order them for display, independently of the order the
/// server returned them in:
///
/// - within a group, by `sequence` ascending with `None` last, then by `key`;
/// - groups ordered `todo` first (the working plan), then the rest alphabetically.
///
/// The reserved `goal` note is not returned here: the caller renders it separately
/// above the groups.
pub fn group_notes(notes: &Vec<ScratchpadNoteView>) -> (r: Vec<NoteGroup>)
    ensures
        grouped_notes(notes@, r@),
{
    let mut groups: Vec<NoteGroup> = Vec::new();
    let mut i: usize = 0;
    while i < notes.len()
        invariant
            i <= notes.len(),
            forall|j: int| 0 <= j < groups@.len() ==> (#[trigger] groups@[j]).holds(notes@),
            forall|j: int, k: int|
                0 <= j < k < groups@.len() ==> (#[trigger] groups@[j]).note_type@ != (
                #[trigger] groups@[k]).note_type@,
            forall|j: int|
                0 <= j < i && notes@[j].key@ != GOAL_KEY@ ==> has_type(
                    groups@,
                    (#[trigger] notes@[j]).note_type@,
                ),
        decreases notes.len() - i,
    {
        let ghost before = groups@;
        let note = &notes[i];
        if !same_text(note.key.as_str(), GOAL_KEY) && !find_type(&groups, note.note_type.as_str()) {
            let own = bucket(notes, note.note_type.as_str());
            proof {
                let f = under(note.note_type@);
                notes@.lemma_filter_contains(f, i as int);
            }
            let ranked = rank_items(&BySequence, own);
            groups.push(NoteGroup { note_type: note.note_type.clone(), notes: ranked });
            assert(groups@[before.len() as int].holds(notes@));
            assert forall|j: int| 0 <= j < i && notes@[j].key@ != GOAL_KEY@ implies has_type(
                groups@,
                (#[trigger] notes@[j]).note_type@,
            ) by {
                let a = choose|a: int|
                    0 <= a < before.len() && (#[trigger] before[a]).note_type@
                        == notes@[j].note_type@;
                assert(groups@[a].note_type@ == notes@[j].note_type@);
            }
            assert(groups@[before.len() as int].note_type@ == notes@[i as int].note_type@);
        }
        i = i + 1;
    }
    let ghost unranked = groups@;
    let out = rank_items(&TodoFirst, groups);
    proof {
        lemma_reordered(notes@, unranked, out@);
    }
    out
}

/// The first note of the goal's key.
pub open spec fn first_goal(notes: Seq<ScratchpadNoteView>) -> Option<ScratchpadNoteView>
    decreases notes.len(),
{
    if notes.len() == 0 {
        None
    } else if notes[0].key@ == GOAL_KEY@ {
        Some(notes[0])
    } else {
        first_goal(notes.drop_first())
    }
}

/// Find the reserved `goal` note, if present.
pub fn goal_note(notes: &Vec<ScratchpadNoteView>) -> (r: Option<&ScratchpadNoteView>)
    ensures
        r is Some <==> first_goal(notes@) is Some,
        r is Some ==> first_goal(notes@) == Some(*r->0),
{
    let mut i: usize = 0;
    assert(notes@.skip(0) =~= notes@);
    while i < notes.len()
        invariant
            i <= notes.len(),
            first_goal(notes@) == first_goal(notes@.skip(i as int)),
        decreases notes.len() - i,
    {
        assert(notes@.skip(i as int)[0] == notes@[i as int]);
        if same_text(notes[i].key.as_str(), GOAL_KEY) {
            return Some(&notes[i]);
        }
        assert(notes@.skip(i as int).drop_first() =~= notes@.skip(i as int + 1));
        i = i + 1;
    }
    None
}

/// What the scratchpad section shows.
pub struct ScratchpadView {
    /// The goal line, where there is a goal.
    pub goal: Option<String>,
    pub groups: Vec<NoteGroup>,
    /// The section says that it is empty.
    pub empty: bool,
}

/// The section shows `notes`.
pub open spec fn shows_notes(view: ScratchpadView, notes: Seq<ScratchpadNoteView>) -> bool {
    &&& view.goal is Some <==> first_goal(notes) is Some
    &&& view.goal is Some ==> view.goal->0@ == "Goal: "@ + first_goal(notes)->0.content@
    &&& grouped_notes(notes, view.groups@)
    &&& view.empty == (notes.len() == 0)
}

/// What the scratchpad section shows for `notes`: the goal above the groups, and
/// that it is empty only where there is neither.
pub fn scratchpad_view(notes: &Vec<ScratchpadNoteView>) -> (r: ScratchpadView)
    ensures
        shows_notes(r, notes@),
{
    let goal = match goal_note(notes) {
        Some(goal) => Some("Goal: ".to_owned().concat(goal.content.as_str())),
        None => None,
    };
    let groups = group_notes(notes);
    let empty = groups.len() == 0 && goal.is_none();
    proof {
        if notes@.len() > 0 {
            if notes@[0].key@ == GOAL_KEY@ {
                assert(first_goal(notes@) is Some);
            } else {
                assert(has_type(groups@, notes@[0].note_type@));
            }
        } else if groups@.len() > 0 {
            assert(groups@[0].holds(notes@));
            reveal(Seq::filter);
        }
    }
    ScratchpadView { goal, groups, empty }
}

/// A row of the tasks section: its text, and whether it offers to cancel.
pub struct SideTaskRow {
    pub id: String,
    pub status_class: String,
    pub text: String,
    pub cancellable: bool,
}

/// A row of the tasks section shows its task.
pub open spec fn shows_task(row: SideTaskRow, vm: TaskRowViewModel) -> bool {
    &&& row.id@ == vm.id@
    &&& row.status_class@ == vm.status_class@
    &&& row.text@ == vm.title@ + "  ·  "@ + vm.status_text@ + " · "@ + vm.age_text@
    &&& row.cancellable == (vm.status_text@ == "Running"@ || vm.status_text@ == "Pending"@)
}

/// A row of the tasks section. Cancel is only meaningful for in-flight tasks.
pub fn side_task_row(vm: &TaskRowViewModel) -> (r: SideTaskRow)
    ensures
        shows_task(r, *vm),
{
    let mut text = vm.title.clone();
    text.append("  ·  ");
    text.append(vm.status_text.as_str());
    text.append(" · ");
    text.append(vm.age_text.as_str());
    SideTaskRow {
        id: vm.id.clone(),
        status_class: vm.status_class.clone(),
        text,
        cancellable: same_text(vm.status_text.as_str(), "Running") || same_text(
            vm.status_text.as_str(),
            "Pending",
        ),
    }
}

/// The pane: the tasks of the conversation above its scratchpad.
pub struct ConversationSidePane {
    pub tasks: Vec<SideTaskRow>,
    pub notes: Vec<ScratchpadNoteView>,
    pub scratchpad: ScratchpadView,
}

impl ConversationSidePane {
    /// The pane shows its own notes.
    pub open spec fn wf(self) -> bool {
        shows_notes(self.scratchpad, self.notes@)
    }

    /// A pane of a conversation without tasks and notes.
    pub fn new() -> (r: Self)
        ensures
            r.wf(),
            r.tasks@.len() == 0,
            r.notes@.len() == 0,
    {
        let notes: Vec<ScratchpadNoteView> = Vec::new();
        let scratchpad = scratchpad_view(&notes);
        ConversationSidePane { tasks: Vec::new(), notes, scratchpad }
    }

    /// Replace the tasks section with the given rows, which are already those of the
    /// conversation.
    pub fn set_tasks(&mut self, rows: &Vec<TaskRowViewModel>)
        requires
            old(self).wf(),
        ensures
            final(self).wf(),
            final(self).tasks@.len() == rows@.len(),
            forall|i: int| #![trigger rows@[i]]
                0 <= i < rows@.len() ==> shows_task(final(self).tasks@[i], rows@[i]),
            final(self).notes == old(self).notes,
            final(self).scratchpad == old(self).scratchpad,
    {
        let mut tasks: Vec<SideTaskRow> = Vec::new();
        let mut i: usize = 0;
        while i < rows.len()
            invariant
                i <= rows.len(),
                tasks@.len() == i,
                forall|j: int| #![trigger rows@[j]]
                    0 <= j < i ==> shows_task(tasks@[j], rows@[j]),
            decreases rows.len() - i,
        {
            tasks.push(side_task_row(&rows[i]));
            i = i + 1;
        }
        self.tasks = tasks;
    }

    /// Whether the tasks section says that there are none.
    pub fn tasks_empty(&self) -> (r: bool)
        ensures
            r == (self.tasks@.len() == 0),
    {
        self.tasks.len() == 0
    }

    /// Replace the scratchpad section with the given notes.
    pub fn set_scratchpad(&mut self, notes: Vec<ScratchpadNoteView>)
        ensures
            final(self).wf(),
            final(self).notes == notes,
            final(self).tasks == old(self).tasks,
    {
        self.scratchpad = scratchpad_view(&notes);
        self.notes = notes;
    }
}

/// Whether a note has a check-off box: only a todo has.
pub fn has_checkbox(note: &ScratchpadNoteView) -> (r: bool)
    ensures
        r == (note.note_type@ == "todo"@),
{
    same_text(note.note_type.as_str(), "todo")
}

/// The user checked a note off or back on.
pub fn toggle_note(note: &ScratchpadNoteView, done: bool) -> (r: SidePaneAction)
    ensures
        r == (SidePaneAction::SetNote {
            key: note.key,
            content: note.content,
            note_type: note.note_type,
            sequence: note.sequence,
            done,
        }),
{
    SidePaneAction::SetNote {
        key: note.key.clone(),
        content: note.content.clone(),
        note_type: note.note_type.clone(),
        sequence: note.sequence,
        done,
    }
}

/// The user gave a note new content.
pub fn edit_note(note: &ScratchpadNoteView, content: String) -> (r: SidePaneAction)
    ensures
        r == (SidePaneAction::SetNote {
            key: note.key,
            content,
            note_type: note.note_type,
            sequence: note.sequence,
            done: note.done,
        }),
{
    SidePaneAction::SetNote {
        key: note.key.clone(),
        content,
        note_type: note.note_type.clone(),
        sequence: note.sequence,
        done: note.done,
    }
}

/// The user deleted a note.
pub fn delete_note(note: &ScratchpadNoteView) -> (r: SidePaneAction)
    ensures
        r == (SidePaneAction::DeleteNote { key: note.key }),
{
    SidePaneAction::DeleteNote { key: note.key.clone() }
}

/// The goal is never in a group, and every other note is.
pub proof fn law_groups_hold_everything_but_the_goal(
    notes: Seq<ScratchpadNoteView>,
    groups: Seq<NoteGroup>,
)
    requires
        grouped_notes(notes, groups),
    ensures
        forall|g: int, i: int|
            0 <= g < groups.len() && 0 <= i < groups[g].notes@.len() ==> (
            #[trigger] groups[g].notes@[i]).key@ != GOAL_KEY@,
        forall|i: int|
            0 <= i < notes.len() && notes[i].key@ != GOAL_KEY@ ==> exists|g: int|
                0 <= g < groups.len() && (#[trigger] groups[g]).notes@.contains(
                    #[trigger] notes[i],
                ),
{
    broadcast use vstd::seq_lib::group_to_multiset_ensures;

    assert forall|g: int, i: int|
        0 <= g < groups.len() && 0 <= i < groups[g].notes@.len() implies (
    #[trigger] groups[g].notes@[i]).key@ != GOAL_KEY@ by {
        assert(groups[g].holds(notes));
        let own = notes_under(notes, groups[g].note_type@);
        let f = under(groups[g].note_type@);
        assert(groups[g].notes@.to_multiset().count(groups[g].notes@[i]) > 0);
        assert(own.contains(groups[g].notes@[i]));
        let k = choose|k: int| 0 <= k < own.len() && own[k] == groups[g].notes@[i];
        notes.lemma_filter_pred(f, k);
    }
    assert forall|i: int| 0 <= i < notes.len() && notes[i].key@ != GOAL_KEY@ implies exists|g: int|
        0 <= g < groups.len() && (#[trigger] groups[g]).notes@.contains(#[trigger] notes[i]) by {
        assert(has_type(groups, notes[i].note_type@));
        let g = choose|g: int|
            0 <= g < groups.len() && (#[trigger] groups[g]).note_type@ == notes[i].note_type@;
        assert(groups[g].holds(notes));
        let f = under(groups[g].note_type@);
        notes.lemma_filter_contains(f, i);
        assert(notes_under(notes, groups[g].note_type@).to_multiset().count(notes[i]) > 0);
        assert(groups[g].notes@.contains(notes[i]));
    }
}

/// The working plan stands at the top: where there is a todo, the first group is
/// the todos.
pub proof fn law_todos_come_first(notes: Seq<ScratchpadNoteView>, groups: Seq<NoteGroup>)
    requires
        grouped_notes(notes, groups),
        has_type(groups, "todo"@),
    ensures
        groups.len() > 0,
        groups[0].note_type@ == "todo"@,
{
    let g = choose|g: int| 0 <= g < groups.len() && (#[trigger] groups[g]).note_type@ == "todo"@;
    if g > 0 {
        assert(!TodoFirst.before(groups[g], groups[0]));
    }
}

/// Notes that stand at the same place of the same group are one note.
pub open spec fn places_differ(notes: Seq<ScratchpadNoteView>) -> bool {
    forall|i: int, j: int|
        0 <= i < notes.len() && 0 <= j < notes.len() && (#[trigger] notes[i]).note_type@ == (
        #[trigger] notes[j]).note_type@ && notes[i].key@ == notes[j].key@ && notes[i].key@
            != GOAL_KEY@ && notes[i].sequence == notes[j].sequence ==> notes[i] == notes[j]
}

/// Picking items out keeps how often each picked one occurs.
proof fn lemma_picked_counts<T>(s: Seq<T>, f: spec_fn(T) -> bool, x: T)
    ensures
        s.filter(f).to_multiset().count(x) == (if f(x) {
            s.to_multiset().count(x)
        } else {
            0
        }),
    decreases s.len(),
{
    broadcast use {vstd::seq_lib::group_to_multiset_ensures, vstd::multiset::group_multiset_axioms};

    reveal(Seq::filter);
    if s.len() > 0 {
        lemma_picked_counts(s.drop_last(), f, x);
        assert(s =~= s.drop_last().push(s.last()));
        assert(s.to_multiset() =~= s.drop_last().to_multiset().insert(s.last()));
        if f(s.last()) {
            let rest = s.drop_last().filter(f);
            assert(rest.push(s.last()).to_multiset() =~= rest.to_multiset().insert(s.last()));
        }
    }
}

/// Groups without a type in common, in display order, have the types in one order.
proof fn lemma_one_order_of_types(x: Seq<NoteGroup>, y: Seq<NoteGroup>)
    requires
        in_rank_order(TodoFirst, x),
        in_rank_order(TodoFirst, y),
        forall|i: int, j: int|
            0 <= i < j < x.len() ==> (#[trigger] x[i]).note_type@ != (#[trigger] x[j]).note_type@,
        forall|i: int, j: int|
            0 <= i < j < y.len() ==> (#[trigger] y[i]).note_type@ != (#[trigger] y[j]).note_type@,
        forall|t: Seq<char>| #[trigger] has_type(x, t) <==> has_type(y, t),
    ensures
        x.len() == y.len(),
        forall|i: int| 0 <= i < x.len() ==> (#[trigger] x[i]).note_type@ == y[i].note_type@,
    decreases x.len(),
{
    if x.len() == 0 {
        if y.len() > 0 {
            assert(has_type(y, y[0].note_type@));
            assert(has_type(x, y[0].note_type@));
        }
    } else {
        assert(has_type(x, x[0].note_type@));
        assert(has_type(y, x[0].note_type@));
        let j = choose|j: int|
            0 <= j < y.len() && (#[trigger] y[j]).note_type@ == x[0].note_type@;
        assert(has_type(y, y[0].note_type@));
        assert(has_type(x, y[0].note_type@));
        let i = choose|i: int|
            0 <= i < x.len() && (#[trigger] x[i]).note_type@ == y[0].note_type@;
        if i > 0 && j > 0 {
            assert(!TodoFirst.before(x[i], x[0]));
            assert(!TodoFirst.before(y[j], y[0]));
            lemma_text_before_total(x[0].note_type@, y[0].note_type@);
        }
        assert(x[0].note_type@ == y[0].note_type@);
        lemma_types_of_rest(x);
        lemma_types_of_rest(y);
        lemma_one_order_of_types(x.drop_first(), y.drop_first());
        assert forall|i: int| 0 <= i < x.len() implies (#[trigger] x[i]).note_type@
            == y[i].note_type@ by {
            if i > 0 {
                assert(x.drop_first()[i - 1].note_type@ == y.drop_first()[i - 1].note_type@);
            }
        }
    }
}

proof fn lemma_types_of_rest(x: Seq<NoteGroup>)
    requires
        x.len() > 0,
        in_rank_order(TodoFirst, x),
        forall|i: int, j: int|
            0 <= i < j < x.len() ==> (#[trigger] x[i]).note_type@ != (#[trigger] x[j]).note_type@,
    ensures
        in_rank_order(TodoFirst, x.drop_first()),
        forall|i: int, j: int|
            0 <= i < j < x.drop_first().len() ==> (#[trigger] x.drop_first()[i]).note_type@ != (
            #[trigger] x.drop_first()[j]).note_type@,
        forall|t: Seq<char>| #[trigger]
            has_type(x.drop_first(), t) <==> has_type(x, t) && t != x[0].note_type@,
{
    let rest = x.drop_first();
    assert forall|i: int, j: int| 0 <= i < j < rest.len() implies !TodoFirst.before(
        #[trigger] rest[j],
        #[trigger] rest[i],
    ) by {
        assert(!TodoFirst.before(x[j + 1], x[i + 1]));
    }
    assert forall|i: int, j: int| 0 <= i < j < rest.len() implies (#[trigger] rest[i]).note_type@
        != (#[trigger] rest[j]).note_type@ by {
        assert(x[i + 1].note_type@ != x[j + 1].note_type@);
    }
    assert forall|t: Seq<char>| #[trigger]
        has_type(rest, t) <==> has_type(x, t) && t != x[0].note_type@ by {
        if has_type(rest, t) {
            let k = choose|k: int| 0 <= k < rest.len() && (#[trigger] rest[k]).note_type@ == t;
            assert(x[k + 1].note_type@ == t);
            assert(x[0].note_type@ != x[k + 1].note_type@);
        }
        if has_type(x, t) && t != x[0].note_type@ {
            let k = choose|k: int| 0 <= k < x.len() && (#[trigger] x[k]).note_type@ == t;
            assert(rest[k - 1].note_type@ == t);
        }
    }
}

/// The types of the groups are the types of the notes beside the goal.
proof fn lemma_types_of_groups(notes: Seq<ScratchpadNoteView>, groups: Seq<NoteGroup>, t: Seq<char>)
    requires
        grouped_notes(notes, groups),
    ensures
        has_type(groups, t) <==> exists|i: int|
            0 <= i < notes.len() && (#[trigger] notes[i]).key@ != GOAL_KEY@
                && notes[i].note_type@ == t,
{
    if has_type(groups, t) {
        let g = choose|g: int| 0 <= g < groups.len() && (#[trigger] groups[g]).note_type@ == t;
        assert(groups[g].holds(notes));
        let own = notes_under(notes, groups[g].note_type@);
        let f = under(groups[g].note_type@);
        notes.lemma_filter_pred(f, 0);
        assert(own.contains(own[0]));
        notes.lemma_filter_contains_rev(f, own[0]);
        let i = choose|i: int| 0 <= i < notes.len() && notes[i] == own[0];
        assert(notes[i].key@ != GOAL_KEY@ && notes[i].note_type@ == t);
    }
}

/// What is shown does not depend on the order that the notes came in, where no two
/// different notes of a type share both a sequence and a key.
pub proof fn law_the_order_of_the_notes_does_not_show(
    notes: Seq<ScratchpadNoteView>,
    others: Seq<ScratchpadNoteView>,
    a: Seq<NoteGroup>,
    b: Seq<NoteGroup>,
)
    requires
        notes.to_multiset() == others.to_multiset(),
        places_differ(notes),
        grouped_notes(notes, a),
        grouped_notes(others, b),
    ensures
        a.len() == b.len(),
        forall|i: int|
            0 <= i < a.len() ==> (#[trigger] a[i]).note_type@ == b[i].note_type@ && a[i].notes@
                == b[i].notes@,
{
    broadcast use vstd::seq_lib::group_to_multiset_ensures;

    assert forall|n: ScratchpadNoteView| #[trigger] notes.contains(n) <==> others.contains(n) by {
        assert(notes.contains(n) <==> notes.to_multiset().count(n) > 0);
        assert(others.contains(n) <==> others.to_multiset().count(n) > 0);
    }
    assert forall|t: Seq<char>| #[trigger] has_type(a, t) <==> has_type(b, t) by {
        lemma_types_of_groups(notes, a, t);
        lemma_types_of_groups(others, b, t);
        if has_type(a, t) {
            let i = choose|i: int|
                0 <= i < notes.len() && (#[trigger] notes[i]).key@ != GOAL_KEY@
                    && notes[i].note_type@ == t;
            assert(notes.contains(notes[i]));
            let k = choose|k: int| 0 <= k < others.len() && others[k] == notes[i];
            assert(others[k].key@ != GOAL_KEY@ && others[k].note_type@ == t);
        }
        if has_type(b, t) {
            let i = choose|i: int|
                0 <= i < others.len() && (#[trigger] others[i]).key@ != GOAL_KEY@
                    && others[i].note_type@ == t;
            assert(others.contains(others[i]));
            assert(notes.contains(others[i]));
            let k = choose|k: int| 0 <= k < notes.len() && notes[k] == others[i];
            assert(notes[k].key@ != GOAL_KEY@ && notes[k].note_type@ == t);
        }
    }
    lemma_one_order_of_types(a, b);
    assert forall|g: int| 0 <= g < a.len() implies (#[trigger] a[g]).note_type@ == b[g].note_type@
        && a[g].notes@ == b[g].notes@ by {
        assert(a[g].holds(notes) && b[g].holds(others));
        let t = a[g].note_type@;
        let s = notes_under(notes, t);
        let f = under(t);
        assert(s.to_multiset() =~= notes_under(others, t).to_multiset()) by {
            assert forall|n: ScratchpadNoteView| #[trigger]
                s.to_multiset().count(n) == notes_under(others, t).to_multiset().count(n) by {
                lemma_picked_counts(notes, f, n);
                lemma_picked_counts(others, f, n);
            }
        }
        assert forall|i: int, j: int|
            0 <= i < s.len() && 0 <= j < s.len() && ties(
                BySequence,
                #[trigger] s[i],
                #[trigger] s[j],
            ) implies s[i] == s[j] by {
            notes.lemma_filter_pred(f, i);
            notes.lemma_filter_pred(f, j);
            assert(s.contains(s[i]) && s.contains(s[j]));
            notes.lemma_filter_contains_rev(f, s[i]);
            notes.lemma_filter_contains_rev(f, s[j]);
            let x = choose|x: int| 0 <= x < notes.len() && notes[x] == s[i];
            let y = choose|y: int| 0 <= y < notes.len() && notes[y] == s[j];
            lemma_text_before_total(s[i].key@, s[j].key@);
            assert(notes[x].note_type@ == notes[y].note_type@);
        }
        law_ranking_forgets_the_order(
            BySequence,
            s,
            notes_under(others, t),
            a[g].notes@,
            b[g].notes@,
        );
    }
}

/// The side pane offers to cancel a task exactly where the tasks panel does: while it
/// has not ended.
pub proof fn law_both_panels_cancel_the_same_tasks(
    model: TasksModel,
    i: usize,
    now_ms: i64,
    vm: TaskRowViewModel,
    r: SideTaskRow,
    panel: SelectionView,
)
    requires
        i < model.task_list().len(),
        call_ensures(view_model_for, (&model.task_list()[i as int], now_ms), vm),
        call_ensures(side_task_row, (&vm,), r),
        call_ensures(selection_view, (&model, Some(i)), panel),
    ensures
        r.cancellable == panel.cancel_sensitive,
        r.cancellable <==> {
            let status = model.task_list()[i as int].status;
            !(status is Completed || status is Failed || status is Cancelled)
        },
        r.id@ == model.task_list()[i as int].id.0@,
        r.status_class@ == vm.status_class@,
{
    reveal_strlit("Running");
    reveal_strlit("Pending");
    reveal_strlit("Completed");
    reveal_strlit("Failed");
    reveal_strlit("Cancelled");
    assert("Running"@[0] == 'R');
    assert("Pending"@[0] == 'P');
    assert("Completed"@[0] == 'C');
    assert("Failed"@[0] == 'F');
    assert("Cancelled"@[0] == 'C');
    law_a_row_tells_its_task(model.task_list()[i as int], now_ms, vm);
}

/// A row of the side pane tells the title, the status and the age of its task.
pub proof fn law_a_side_row_tells_its_task(vm: TaskRowViewModel, r: SideTaskRow)
    requires
        call_ensures(side_task_row, (&vm,), r),
    ensures
        r.id@ == vm.id@,
        r.status_class@ == vm.status_class@,
        r.text@ == vm.title@ + "  ·  "@ + vm.status_text@ + " · "@ + vm.age_text@,
{
}

/// The pane lists the tasks it is given, in their order, and leaves the notes; the
/// notes it is given replace the scratchpad and leave the tasks.
pub proof fn law_the_pane_shows_what_it_is_given(
    pane: &mut ConversationSidePane,
    then: &mut ConversationSidePane,
    rows: Vec<TaskRowViewModel>,
    notes: Vec<ScratchpadNoteView>,
    empty: bool,
)
    requires
        old(pane).wf(),
        call_ensures(ConversationSidePane::set_tasks, (pane, &rows), ()),
        *old(then) == *final(pane),
        call_ensures(ConversationSidePane::set_scratchpad, (then, notes), ()),
        call_ensures(ConversationSidePane::tasks_empty, (final(then),), empty),
    ensures
        final(pane).notes@ == old(pane).notes@,
        final(then).notes@ == notes@,
        final(then).tasks@.len() == rows@.len(),
        forall|i: int|
            0 <= i < rows@.len() ==> (#[trigger] final(then).tasks@[i]).id@ == rows@[i].id@,
        empty <==> rows@.len() == 0,
        final(then).scratchpad.empty <==> notes@.len() == 0,
{
    assert forall|i: int| 0 <= i < rows@.len() implies (#[trigger] final(then).tasks@[i]).id@
        == rows@[i].id@ by {
        assert(shows_task(final(then).tasks@[i], rows@[i]));
    }
}

/// The scratchpad puts the goal above everything, and below it every other note once,
/// under its own type, by rising sequence with the unnumbered last, and by key among
/// equals.
pub proof fn law_the_scratchpad_shows_goal_and_notes(
    notes: Vec<ScratchpadNoteView>,
    r: ScratchpadView,
)
    requires
        call_ensures(scratchpad_view, (&notes,), r),
    ensures
        r.goal is Some <==> exists|i: int|
            0 <= i < notes@.len() && (#[trigger] notes@[i]).key@ == "goal"@,
        r.goal is Some ==> exists|i: int|
            0 <= i < notes@.len() && (#[trigger] notes@[i]).key@ == "goal"@ && r.goal->0@
                == "Goal: "@ + notes@[i].content@ && forall|j: int|
                0 <= j < i ==> (#[trigger] notes@[j]).key@ != "goal"@,
        r.empty <==> notes@.len() == 0,
        forall|g: int, i: int| #![trigger r.groups@[g].notes@[i]]
            0 <= g < r.groups@.len() && 0 <= i < r.groups@[g].notes@.len() ==> {
                &&& r.groups@[g].notes@[i].note_type@ == r.groups@[g].note_type@
                &&& r.groups@[g].notes@[i].key@ != "goal"@
                &&& notes@.contains(r.groups@[g].notes@[i])
            },
        forall|i: int|
            0 <= i < notes@.len() && (#[trigger] notes@[i]).key@ != "goal"@ ==> exists|g: int|
                0 <= g < r.groups@.len() && (#[trigger] r.groups@[g]).notes@.contains(notes@[i]),
        forall|g: int, i: int, j: int|
            0 <= g < r.groups@.len() && 0 <= i < j < r.groups@[g].notes@.len() ==> {
                let a = #[trigger] r.groups@[g].notes@[i];
                let b = #[trigger] r.groups@[g].notes@[j];
                &&& a.sequence is None ==> b.sequence is None
                &&& a.sequence is Some && b.sequence is Some ==> a.sequence->0 <= b.sequence->0
                &&& a.sequence == b.sequence ==> a.key@ == b.key@ || text_before(a.key@, b.key@)
            },
{
    broadcast use vstd::seq_lib::group_to_multiset_ensures;

    lemma_first_goal(notes@);
    law_groups_hold_everything_but_the_goal(notes@, r.groups@);
    assert forall|g: int, i: int| #![trigger r.groups@[g].notes@[i]]
        0 <= g < r.groups@.len() && 0 <= i < r.groups@[g].notes@.len() implies {
        &&& r.groups@[g].notes@[i].note_type@ == r.groups@[g].note_type@
        &&& r.groups@[g].notes@[i].key@ != "goal"@
        &&& notes@.contains(r.groups@[g].notes@[i])
    } by {
        let group = r.groups@[g];
        let note = group.notes@[i];
        assert(group.holds(notes@));
        let own = notes_under(notes@, group.note_type@);
        assert(group.notes@.to_multiset().count(note) > 0);
        assert(own.contains(note));
        let k = choose|k: int| 0 <= k < own.len() && own[k] == note;
        notes@.lemma_filter_pred(under(group.note_type@), k);
        notes@.lemma_filter_contains_rev(under(group.note_type@), note);
    }
    assert forall|g: int, i: int, j: int|
        0 <= g < r.groups@.len() && 0 <= i < j < r.groups@[g].notes@.len() implies {
        let a = #[trigger] r.groups@[g].notes@[i];
        let b = #[trigger] r.groups@[g].notes@[j];
        &&& a.sequence is None ==> b.sequence is None
        &&& a.sequence is Some && b.sequence is Some ==> a.sequence->0 <= b.sequence->0
        &&& a.sequence == b.sequence ==> a.key@ == b.key@ || text_before(a.key@, b.key@)
    } by {
        let a = r.groups@[g].notes@[i];
        let b = r.groups@[g].notes@[j];
        assert(r.groups@[g].holds(notes@));
        assert(!BySequence.before(b, a));
        lemma_text_before_total(a.key@, b.key@);
    }
}

/// The groups stand in order: the todos first, then the other types alphabetically,
/// and each type once.
pub proof fn law_the_groups_stand_in_order(
    notes: Vec<ScratchpadNoteView>,
    r: ScratchpadView,
    g: int,
    h: int,
)
    requires
        call_ensures(scratchpad_view, (&notes,), r),
        0 <= g < h < r.groups@.len(),
    ensures
        r.groups@[h].note_type@ != "todo"@,
        r.groups@[g].note_type@ == "todo"@ || text_before(
            r.groups@[g].note_type@,
            r.groups@[h].note_type@,
        ),
{
    let a = r.groups@[g].note_type@;
    let b = r.groups@[h].note_type@;
    assert(!TodoFirst.before(r.groups@[h], r.groups@[g]));
    assert(a != b);
    lemma_text_before_total(a, b);
}

proof fn lemma_first_goal(notes: Seq<ScratchpadNoteView>)
    ensures
        first_goal(notes) is Some <==> exists|i: int|
            0 <= i < notes.len() && (#[trigger] notes[i]).key@ == "goal"@,
        first_goal(notes) is Some ==> exists|i: int|
            0 <= i < notes.len() && (#[trigger] notes[i]).key@ == "goal"@ && first_goal(notes)
                == Some(notes[i]) && forall|j: int|
                0 <= j < i ==> (#[trigger] notes[j]).key@ != "goal"@,
    decreases notes.len(),
{
    if notes.len() > 0 {
        if notes[0].key@ == "goal"@ {
            assert(first_goal(notes) == Some(notes[0]));
        } else {
            let rest = notes.drop_first();
            lemma_first_goal(rest);
            if first_goal(notes) is Some {
                let i = choose|i: int|
                    0 <= i < rest.len() && (#[trigger] rest[i]).key@ == "goal"@ && first_goal(rest)
                        == Some(rest[i]) && forall|j: int|
                        0 <= j < i ==> (#[trigger] rest[j]).key@ != "goal"@;
                assert(notes[i + 1].key@ == "goal"@ && first_goal(notes) == Some(notes[i + 1]));
                assert forall|j: int| 0 <= j < i + 1 implies (#[trigger] notes[j]).key@
                    != "goal"@ by {
                    if j > 0 {
                        assert(rest[j - 1].key@ != "goal"@);
                    }
                }
            } else {
                assert forall|i: int| 0 <= i < notes.len() implies (#[trigger] notes[i]).key@
                    != "goal"@ by {
                    if i > 0 {
                        assert(rest[i - 1].key@ != "goal"@);
                    }
                }
            }
        }
    }
}

/// Ticking a note changes nothing but whether it is done, editing nothing but its
/// content, and deleting names the note; only a todo can be ticked.
pub proof fn law_an_action_changes_one_thing(
    note: ScratchpadNoteView,
    done: bool,
    content: String,
    box_shown: bool,
    ticked: SidePaneAction,
    edited: SidePaneAction,
    deleted: SidePaneAction,
)
    requires
        call_ensures(has_checkbox, (&note,), box_shown),
        call_ensures(toggle_note, (&note, done), ticked),
        call_ensures(edit_note, (&note, content), edited),
        call_ensures(delete_note, (&note,), deleted),
    ensures
        box_shown <==> note.note_type@ == "todo"@,
        ticked is SetNote,
        ticked->SetNote_key@ == note.key@,
        ticked->content@ == note.content@,
        ticked->note_type@ == note.note_type@,
        ticked->sequence == note.sequence,
        ticked->done == done,
        edited is SetNote,
        edited->SetNote_key@ == note.key@,
        edited->content@ == content@,
        edited->note_type@ == note.note_type@,
        edited->sequence == note.sequence,
        edited->done == note.done,
        deleted is DeleteNote,
        deleted->DeleteNote_key@ == note.key@,
{
}

/// The goal is the first note under its key.
pub proof fn law_the_goal_is_the_first_under_its_key(
    notes: Vec<ScratchpadNoteView>,
    view: ScratchpadView,
    r: Option<&ScratchpadNoteView>,
)
    requires
        call_ensures(goal_note, (&notes,), r),
        call_ensures(scratchpad_view, (&notes,), view),
    ensures
        r is Some <==> view.goal is Some,
        r is Some ==> r->0.key@ == "goal"@ && notes@.contains(*r->0),
        r is Some ==> view.goal->0@ == "Goal: "@ + r->0.content@,
{
    lemma_goal_found(notes@);
}

proof fn lemma_goal_found(notes: Seq<ScratchpadNoteView>)
    ensures
        first_goal(notes) is Some ==> notes.contains(first_goal(notes)->0) && first_goal(
            notes,
        )->0.key@ == GOAL_KEY@,
    decreases notes.len(),
{
    if notes.len() > 0 {
        if notes[0].key@ != GOAL_KEY@ {
            let rest = notes.drop_first();
            lemma_goal_found(rest);
            if first_goal(notes) is Some {
                let k = choose|k: int| 0 <= k < rest.len() && rest[k] == first_goal(rest)->0;
                assert(notes[k + 1] == rest[k]);
            }
        }
    }
}

/// The groups that are listed are those that the pane shows: the types in the same order,
/// with the same notes.
pub proof fn law_a_group_holds_its_type(
    notes: Vec<ScratchpadNoteView>,
    r: Vec<NoteGroup>,
    g: int,
)
    requires
        call_ensures(group_notes, (&notes,), r),
        0 <= g < r@.len(),
    ensures
        r@[g].notes@.to_multiset() == notes@.filter(
            |note: ScratchpadNoteView|
                note.key@ != "goal"@ && note.note_type@ == r@[g].note_type@,
        ).to_multiset(),
        r@[g].notes@.len() > 0,
        g > 0 ==> r@[g].note_type@ != "todo"@,
        forall|h: int| 0 <= h < r@.len() && h != g ==> (#[trigger] r@[h]).note_type@
            != r@[g].note_type@,
{
    broadcast use vstd::seq_lib::group_to_multiset_ensures;

    let own = r@[g].note_type@;
    assert(r@[g].holds(notes@));
    assert(under(own) =~= |note: ScratchpadNoteView|
        note.key@ != "goal"@ && note.note_type@ == own);
    assert(r@[g].notes@.to_multiset().len() == notes_under(notes@, own).to_multiset().len());
    assert forall|h: int| 0 <= h < r@.len() && h != g implies (#[trigger] r@[h]).note_type@
        != own by {
        if h < g {
            assert(r@[h].note_type@ != r@[g].note_type@);
        } else {
            assert(r@[g].note_type@ != r@[h].note_type@);
        }
    }
    if g > 0 {
        assert(!TodoFirst.before(r@[g], r@[0]));
        assert(r@[0].note_type@ != r@[g].note_type@);
    }
}

/// The pane's rows are the side rows of the tasks it is given.
pub proof fn law_the_pane_shows_each_row_as_it_is(
    pane: &mut ConversationSidePane,
    rows: Vec<TaskRowViewModel>,
    i: int,
    r: SideTaskRow,
)
    requires
        old(pane).wf(),
        call_ensures(ConversationSidePane::set_tasks, (pane, &rows), ()),
        0 <= i < rows@.len(),
        call_ensures(side_task_row, (&rows@[i],), r),
    ensures
        final(pane).tasks@.len() == rows@.len(),
        final(pane).tasks@[i].id@ == r.id@ && final(pane).tasks@[i].text@ == r.text@,
        final(pane).tasks@[i].status_class@ == r.status_class@,
        final(pane).tasks@[i].cancellable == r.cancellable,
        final(pane).scratchpad == old(pane).scratchpad,
{
    let row = rows@[i];
    assert(shows_task(final(pane).tasks@[i], row));
}

/// The pane's scratchpad tells of the notes it is given what the scratchpad tells of them.
pub proof fn law_the_pane_shows_its_notes(
    pane: &mut ConversationSidePane,
    notes: Vec<ScratchpadNoteView>,
    r: ScratchpadView,
    fresh: ConversationSidePane,
    empty: bool,
)
    requires
        call_ensures(ConversationSidePane::set_scratchpad, (pane, notes), ()),
        call_ensures(scratchpad_view, (&notes,), r),
        call_ensures(ConversationSidePane::new, (), fresh),
        call_ensures(ConversationSidePane::tasks_empty, (&fresh,), empty),
    ensures
        final(pane).scratchpad.goal is Some <==> r.goal is Some,
        r.goal is Some ==> final(pane).scratchpad.goal->0@ == r.goal->0@,
        final(pane).scratchpad.empty == r.empty,
        final(pane).tasks@ == old(pane).tasks@,
        empty && fresh.notes@.len() == 0 && fresh.scratchpad.empty,
{
}

} // verus!
