//! The entries of a transcript and the turn identity they carry.

use crate::api::MessageKind;
use vstd::prelude::*;

verus! {

/// A message as it is shown. Presentation metadata and the turn identity stand
/// beside the content, so neither has to be parsed back out of it.
#[derive(Debug, PartialEq, Eq)]
pub struct TranscriptEntry {
    pub role: String,
    pub content: String,
    pub kind: MessageKind,
    /// The identity of the turn that the message opened. A reply has none, nor has
    /// a message that another client sent.
    pub turn_id: Option<String>,
}

impl TranscriptEntry {
    /// An entry of the given parts.
    pub fn new(role: String, content: String, kind: MessageKind, turn_id: Option<String>) -> (r:
        Self)
        ensures
            r == (TranscriptEntry { role, content, kind, turn_id }),
    {
        TranscriptEntry { role, content, kind, turn_id }
    }
}

/// What the menu can do with the turn under the pointer.
#[derive(Debug, PartialEq, Eq)]
pub enum TurnIdAction {
    Copy(String),
    /// The turn has no id, which is an ordinary state.
    Unavailable,
}

impl TurnIdAction {
    /// The id to copy.
    pub open spec fn id(self) -> Option<Seq<char>> {
        match self {
            TurnIdAction::Copy(id) => Some(id@),
            TurnIdAction::Unavailable => None,
        }
    }
}

/// The id that a click on the entry at `index` copies. A click that was resolved
/// against another transcript than the one now shown copies nothing: its position
/// counts into entries that are gone.
pub open spec fn clicked_turn(
    entries: Seq<TranscriptEntry>,
    generation: u64,
    clicked: u64,
    index: int,
) -> Option<Seq<char>> {
    if generation == clicked && 0 <= index < entries.len() {
        match entries[index].turn_id {
            Some(id) => Some(id@),
            None => None,
        }
    } else {
        None
    }
}

/// The turn-id action for the entry at `index`, as resolved against generation
/// `clicked` while the entries are those of `generation`.
pub fn turn_id_action_for_generation(
    entries: &Vec<TranscriptEntry>,
    generation: u64,
    clicked: u64,
    index: usize,
) -> (r: TurnIdAction)
    ensures
        r.id() == clicked_turn(entries@, generation, clicked, index as int),
{
    if generation != clicked || index >= entries.len() {
        return TurnIdAction::Unavailable;
    }
    match &entries[index].turn_id {
        Some(id) => TurnIdAction::Copy(id.clone()),
        None => TurnIdAction::Unavailable,
    }
}

/// The entry that covers `offset`, by where each entry begins: the last one that
/// begins at or before it. Nothing covers what stands before the first entry.
pub fn entry_index_at_offset(starts: &Vec<i32>, offset: i32) -> (r: Option<usize>)
    ensures
        match r {
            Some(i) => {
                &&& i < starts@.len()
                &&& starts@[i as int] <= offset
                &&& forall|j: int| i < j < starts@.len() ==> offset < #[trigger] starts@[j]
            },
            None => forall|j: int| 0 <= j < starts@.len() ==> offset < #[trigger] starts@[j],
        },
{
    let mut end: usize = starts.len();
    while end > 0
        invariant
            end <= starts@.len(),
            forall|j: int| end <= j < starts@.len() ==> offset < #[trigger] starts@[j],
        decreases end,
    {
        if starts[end - 1] <= offset {
            return Some(end - 1);
        }
        end = end - 1;
    }
    None
}

/// A click while the transcript is reloaded never copies the id of an entry of the
/// new transcript.
pub proof fn law_a_stale_click_copies_nothing(
    entries: Seq<TranscriptEntry>,
    generation: u64,
    clicked: u64,
    index: int,
)
    requires
        generation != clicked,
    ensures
        clicked_turn(entries, generation, clicked, index) is None,
{
}

/// A click copies the turn id of the entry it hit, where the transcript is still the one
/// that was clicked and the entry has one.
pub proof fn law_a_fresh_click_copies_its_turn(
    entries: Vec<TranscriptEntry>,
    generation: u64,
    clicked: u64,
    index: usize,
    r: TurnIdAction,
)
    requires
        call_ensures(turn_id_action_for_generation, (&entries, generation, clicked, index), r),
    ensures
        r is Copy <==> generation == clicked && index < entries@.len()
            && entries@[index as int].turn_id is Some,
        r is Copy ==> r->Copy_0@ == entries@[index as int].turn_id->0@,
{
}

/// The entry at a place is the last that begins at or before it.
pub proof fn law_the_entry_at_a_place(starts: &Vec<i32>, offset: i32, r: Option<usize>)
    requires
        call_ensures(entry_index_at_offset, (starts, offset), r),
    ensures
        r is Some ==> r->0 < starts@.len() && starts@[r->0 as int] <= offset,
        r is Some ==> forall|j: int|
            r->0 < j < starts@.len() ==> offset < #[trigger] starts@[j],
{
}

} // verus!
