//! The conversation list.

use crate::api::ConversationSummary;
use crate::context_menu::MenuItem;
use crate::text::{decimal, decimal_text};
use vstd::prelude::*;

verus! {

/// What choosing an entry of a row's menu does. Each action carries the conversation
/// id that the menu was opened on, never a row index: a repaint that reorders or
/// removes rows while the menu is open cannot make it act on another conversation.
#[derive(Debug, PartialEq, Eq)]
pub enum ConversationAction {
    Rename(String),
    /// Archive the conversation, or take it back out of the archive.
    Archive(String),
    Delete(String),
}

impl ConversationAction {
    /// The conversation acted on.
    pub open spec fn conversation(self) -> Seq<char> {
        match self {
            ConversationAction::Rename(id) => id@,
            ConversationAction::Archive(id) => id@,
            ConversationAction::Delete(id) => id@,
        }
    }
}

/// A painted row.
#[derive(Debug, PartialEq, Eq)]
pub struct ConversationRow {
    pub id: String,
    pub title: String,
    /// The number of messages, in brackets.
    pub count: String,
    pub archived: bool,
}

/// A row shows its conversation.
pub open spec fn shows(row: ConversationRow, conv: ConversationSummary) -> bool {
    &&& row.id@ == conv.id@
    &&& row.title@ == conv.title@
    &&& row.count@ == "("@ + decimal(conv.message_count as nat) + ")"@
    &&& row.archived == conv.archived
}

/// The row for a conversation.
pub fn row_for(conv: &ConversationSummary) -> (r: ConversationRow)
    ensures
        shows(r, *conv),
{
    let mut count = "(".to_owned();
    count.append(decimal_text(conv.message_count as u64).as_str());
    count.append(")");
    ConversationRow {
        id: conv.id.clone(),
        title: conv.title.clone(),
        count,
        archived: conv.archived,
    }
}

impl ConversationRow {
    /// The row's right-click menu.
    pub fn menu(&self) -> (r: Vec<MenuItem<ConversationAction>>)
        ensures
            r@.len() == 3,
            r@[0].label@ == "Rename"@,
            r@[0].action is Some && r@[0].action->0 is Rename,
            r@[1].label@ == (if self.archived {
                "Unarchive"@
            } else {
                "Archive"@
            }),
            r@[1].action is Some && r@[1].action->0 is Archive,
            r@[2].label@ == "Delete"@,
            r@[2].action is Some && r@[2].action->0 is Delete,
            forall|i: int|
                0 <= i < 3 ==> (#[trigger] r@[i]).action->0.conversation() == self.id@ && (
                r@[i].destructive == (i == 2)),
    {
        let mut items: Vec<MenuItem<ConversationAction>> = Vec::new();
        items.push(
            MenuItem::new("Rename".to_owned(), ConversationAction::Rename(self.id.clone())),
        );
        let archive = if self.archived {
            "Unarchive"
        } else {
            "Archive"
        };
        items.push(
            MenuItem::new(archive.to_owned(), ConversationAction::Archive(self.id.clone())),
        );
        items.push(
            MenuItem::destructive("Delete".to_owned(), ConversationAction::Delete(self.id.clone())),
        );
        items
    }
}

/// The conversation list as it is painted.
pub struct Sidebar {
    pub rows: Vec<ConversationRow>,
    pub selected: Option<usize>,
    pub show_archived: bool,
}

impl Sidebar {
    /// The selected row is one of the rows.
    pub open spec fn wf(self) -> bool {
        self.selected is Some ==> self.selected->0 < self.rows@.len()
    }

    /// An empty list.
    pub fn new() -> (r: Self)
        ensures
            r.wf(),
            r.rows@.len() == 0,
            r.selected is None,
            !r.show_archived,
    {
        Sidebar { rows: Vec::new(), selected: None, show_archived: false }
    }

    /// Replace the list's contents. The rows are new ones, so none is selected.
    pub fn set_conversations(&mut self, conversations: &Vec<ConversationSummary>)
        ensures
            final(self).wf(),
            final(self).rows@.len() == conversations@.len(),
            forall|i: int| #![trigger conversations@[i]]
                0 <= i < conversations@.len() ==> shows(final(self).rows@[i], conversations@[i]),
            final(self).selected is None,
            final(self).show_archived == old(self).show_archived,
    {
        let mut rows: Vec<ConversationRow> = Vec::new();
        let mut i: usize = 0;
        while i < conversations.len()
            invariant
                i <= conversations.len(),
                rows@.len() == i,
                forall|j: int| #![trigger conversations@[j]]
                    0 <= j < i ==> shows(rows@[j], conversations@[j]),
            decreases conversations.len() - i,
        {
            rows.push(row_for(&conversations[i]));
            i = i + 1;
        }
        self.rows = rows;
        self.selected = None;
    }

    /// The index of the currently selected row.
    pub fn selected_index(&self) -> (r: Option<usize>)
        ensures
            r == self.selected,
    {
        self.selected
    }

    /// Select a row by index; an index past the last row changes nothing.
    pub fn select_index(&mut self, index: usize)
        requires
            old(self).wf(),
        ensures
            final(self).wf(),
            *final(self) == (Sidebar {
                selected: if index < old(self).rows@.len() {
                    Some(index)
                } else {
                    old(self).selected
                },
                ..*old(self)
            }),
    {
        if index < self.rows.len() {
            self.selected = Some(index);
        }
    }

    /// No row is selected any more.
    pub fn clear_selection(&mut self)
        ensures
            final(self).wf(),
            *final(self) == (Sidebar { selected: None, ..*old(self) }),
    {
        self.selected = None;
    }

    /// The "Show archived" box was toggled. Returns what to list by.
    pub fn show_archived_toggled(&mut self, active: bool) -> (r: bool)
        ensures
            r == active,
            *final(self) == (Sidebar { show_archived: active, ..*old(self) }),
    {
        self.show_archived = active;
        active
    }
}

/// The list shows the conversations it is given in their order, each with its title and
/// the number of its messages in brackets, and nothing selected.
pub proof fn law_the_list_shows_its_conversations(
    sidebar: &mut Sidebar,
    conversations: Vec<ConversationSummary>,
    selected: Option<usize>,
)
    requires
        call_ensures(Sidebar::set_conversations, (sidebar, &conversations), ()),
        call_ensures(Sidebar::selected_index, (final(sidebar),), selected),
    ensures
        final(sidebar).rows@.len() == conversations@.len(),
        forall|i: int|
            0 <= i < conversations@.len() ==> {
                let row = #[trigger] final(sidebar).rows@[i];
                &&& row.id@ == conversations@[i].id@
                &&& row.title@ == conversations@[i].title@
                &&& row.count@ == "("@ + decimal(conversations@[i].message_count as nat) + ")"@
                &&& row.archived == conversations@[i].archived
            },
        selected is None,
        final(sidebar).show_archived == old(sidebar).show_archived,
{
    assert forall|i: int| 0 <= i < conversations@.len() implies shows(
        #[trigger] final(sidebar).rows@[i],
        conversations@[i],
    ) by {
        assert(conversations@[i] == conversations@[i]);
    }
}

/// A row's menu renames, archives and deletes the row's own conversation; an archived
/// one is taken back out, and only deleting is dangerous.
pub proof fn law_a_menu_acts_on_its_own_conversation(
    conv: ConversationSummary,
    row: ConversationRow,
    r: Vec<MenuItem<ConversationAction>>,
)
    requires
        call_ensures(row_for, (&conv,), row),
        call_ensures(ConversationRow::menu, (&row,), r),
    ensures
        r@.len() == 3,
        r@[0].label@ == "Rename"@ && r@[0].action is Some && r@[0].action->0 is Rename
            && r@[0].action->0->Rename_0@ == conv.id@ && !r@[0].destructive,
        r@[1].label@ == (if conv.archived {
            "Unarchive"@
        } else {
            "Archive"@
        }),
        r@[1].action is Some && r@[1].action->0 is Archive && r@[1].action->0->Archive_0@
            == conv.id@ && !r@[1].destructive,
        r@[2].label@ == "Delete"@ && r@[2].action is Some && r@[2].action->0 is Delete
            && r@[2].action->0->Delete_0@ == conv.id@ && r@[2].destructive,
{
    assert(r@[0].action->0.conversation() == row.id@);
    assert(r@[1].action->0.conversation() == row.id@);
    assert(r@[2].action->0.conversation() == row.id@);
}

/// Selecting an existing row selects it, a row that is not there changes nothing, and
/// clearing selects none; the rows stay.
pub proof fn law_selecting_a_row(
    sidebar: &mut Sidebar,
    cleared: &mut Sidebar,
    index: usize,
    r: Option<usize>,
    none: Option<usize>,
)
    requires
        old(sidebar).wf(),
        call_ensures(Sidebar::select_index, (sidebar, index), ()),
        call_ensures(Sidebar::selected_index, (final(sidebar),), r),
        call_ensures(Sidebar::clear_selection, (cleared,), ()),
        call_ensures(Sidebar::selected_index, (final(cleared),), none),
    ensures
        index < old(sidebar).rows@.len() ==> r == Some(index),
        index >= old(sidebar).rows@.len() ==> r == old(sidebar).selected,
        final(sidebar).rows@ == old(sidebar).rows@,
        none is None,
        final(cleared).rows@ == old(cleared).rows@,
{
}

/// Showing the archived conversations is asked for as the box says, and changes nothing
/// else by itself.
pub proof fn law_archived_ones_show_as_asked(sidebar: &mut Sidebar, active: bool, r: bool)
    requires
        call_ensures(Sidebar::show_archived_toggled, (sidebar, active), r),
    ensures
        r == active,
        final(sidebar).show_archived == active,
        final(sidebar).rows@ == old(sidebar).rows@,
        final(sidebar).selected == old(sidebar).selected,
{
}

/// A list starts empty, with the archived conversations hidden.
pub proof fn law_a_list_starts_empty(r: Sidebar, selected: Option<usize>)
    requires
        call_ensures(Sidebar::new, (), r),
        call_ensures(Sidebar::selected_index, (&r,), selected),
    ensures
        r.rows@.len() == 0 && selected is None && !r.show_archived,
{
}

} // verus!
