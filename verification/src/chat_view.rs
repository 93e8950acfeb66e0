//! The transcript of the open conversation.

use crate::api::{ChatMessage, ConversationDetail, MessageKind};
use crate::context_menu::MenuItem;
use crate::text::same_text;
use crate::transcript::{
    clicked_turn, entry_index_at_offset, turn_id_action_for_generation, TranscriptEntry,
    TurnIdAction,
};
use vstd::prelude::*;

verus! {

/// What a transcript without messages says.
pub const PLACEHOLDER: &'static str = "Press '+ New Conversation' to start.";

/// The marker of a kind of message.
pub open spec fn marker_of(kind: MessageKind) -> Seq<char> {
    match kind {
        MessageKind::Normal => ""@,
        MessageKind::Spoken => " · Spoken"@,
        MessageKind::SpeechDisabled => " · speech off"@,
    }
}

/// The marker suffixed onto Adele's role label: ` · Spoken` for a voiced aside,
/// ` · speech off` for a line shown in place of being spoken, empty for an ordinary
/// message.
pub fn kind_marker(kind: MessageKind) -> (r: &'static str)
    ensures
        r@ == marker_of(kind),
{
    match kind {
        MessageKind::Normal => "",
        MessageKind::Spoken => " · Spoken",
        MessageKind::SpeechDisabled => " · speech off",
    }
}

/// Who a message is labelled as coming from; nobody for an unknown role.
pub open spec fn label_of(role: Seq<char>, kind: MessageKind) -> Seq<char> {
    if role == "user"@ {
        "You"@
    } else if role == "assistant"@ {
        "Adele"@ + marker_of(kind)
    } else {
        ""@
    }
}

/// The label of an entry.
pub fn role_label(entry: &TranscriptEntry) -> (r: String)
    ensures
        r@ == label_of(entry.role@, entry.kind),
{
    if same_text(entry.role.as_str(), "user") {
        "You".to_owned()
    } else if same_text(entry.role.as_str(), "assistant") {
        let mut label = "Adele".to_owned();
        label.append(kind_marker(entry.kind));
        label
    } else {
        "".to_owned()
    }
}

/// A labelled piece of the rendered transcript.
#[derive(Debug, PartialEq, Eq)]
pub struct Block {
    /// Empty where no label is shown.
    pub label: String,
    pub content: String,
}

/// A rendered transcript.
#[derive(Debug, PartialEq, Eq)]
pub enum Page {
    /// Nothing was said yet.
    Placeholder(&'static str),
    Blocks(Vec<Block>),
}

/// A block says what its entry says.
pub open spec fn renders(entry: TranscriptEntry, block: Block) -> bool {
    block.label@ == label_of(entry.role@, entry.kind) && block.content@ == entry.content@
}

/// `page` is what a transcript of `messages` shows while the reply `streaming` has
/// come in so far.
pub open spec fn is_page(
    messages: Seq<TranscriptEntry>,
    streaming: Seq<char>,
    page: Page,
) -> bool {
    match page {
        Page::Placeholder(text) => {
            &&& messages.len() == 0
            &&& streaming.len() == 0
            &&& text@ == PLACEHOLDER@
        },
        Page::Blocks(blocks) => {
            let n = messages.len();
            &&& n > 0 || streaming.len() > 0
            &&& blocks@.len() == n + if streaming.len() > 0 {
                1int
            } else {
                0int
            }
            &&& forall|i: int| #![trigger messages[i]]
                0 <= i < n ==> renders(messages[i], blocks@[i])
            &&& streaming.len() > 0 ==> {
                &&& blocks@[n as int].label@ == "Adele"@
                &&& blocks@[n as int].content@ == streaming
            }
        },
    }
}

/// The transcript shown, and how far the reply that is coming in has got.
pub struct ChatView {
    pub messages: Vec<TranscriptEntry>,
    /// Bumped every time the entries are replaced wholesale, so a click whose
    /// resolution is still in flight can tell that the positions it counted into
    /// are gone. An append leaves every position where it was and does not bump it.
    pub generation: u64,
    /// Where each entry begins in the rendered text, in ascending order.
    pub entry_starts: Vec<i32>,
    /// The reply that is coming in.
    pub streaming_buffer: String,
}

/// The entry for a stored message.
pub open spec fn entry_for(m: ChatMessage) -> TranscriptEntry {
    TranscriptEntry {
        role: m.role,
        content: m.content,
        kind: m.kind,
        turn_id: m.idempotency_key,
    }
}

/// The generation after a reload.
pub open spec fn next_generation(generation: u64) -> u64 {
    if generation == u64::MAX {
        0
    } else {
        (generation + 1) as u64
    }
}

impl ChatView {
    /// An empty transcript.
    pub fn new() -> (r: Self)
        ensures
            r.messages@.len() == 0,
            r.generation == 0,
            r.entry_starts@.len() == 0,
            r.streaming_buffer@.len() == 0,
    {
        ChatView {
            messages: Vec::new(),
            generation: 0,
            entry_starts: Vec::new(),
            streaming_buffer: String::new(),
        }
    }

    /// Show a conversation in place of what was shown.
    pub fn load_conversation(&mut self, detail: &ConversationDetail)
        ensures
            final(self).messages@ == detail.messages@.map_values(|m| entry_for(m)),
            final(self).generation == next_generation(old(self).generation),
            final(self).entry_starts == old(self).entry_starts,
            final(self).streaming_buffer@.len() == 0,
    {
        let mut messages: Vec<TranscriptEntry> = Vec::new();
        let mut i: usize = 0;
        while i < detail.messages.len()
            invariant
                i <= detail.messages.len(),
                messages@.len() == i,
                forall|j: int| #![trigger messages@[j]]
                    0 <= j < i ==> messages@[j] == entry_for(detail.messages@[j]),
            decreases detail.messages.len() - i,
        {
            let m = &detail.messages[i];
            let entry = TranscriptEntry::new(
                m.role.clone(),
                m.content.clone(),
                m.kind,
                m.idempotency_key.clone(),
            );
            messages.push(entry);
            i = i + 1;
        }
        assert(messages@ =~= detail.messages@.map_values(|m| entry_for(m)));
        self.generation = self.generation.wrapping_add(1);
        self.messages = messages;
        self.streaming_buffer = String::new();
    }

    /// Append a streaming chunk.
    pub fn receive_chunk(&mut self, chunk: &str)
        ensures
            final(self).streaming_buffer@ == old(self).streaming_buffer@ + chunk@,
            final(self).messages == old(self).messages,
            final(self).generation == old(self).generation,
            final(self).entry_starts == old(self).entry_starts,
    {
        self.streaming_buffer.append(chunk);
    }

    /// Finalize streaming: the full response becomes a message of the assistant's.
    pub fn complete_streaming(&mut self, full_response: &str)
        ensures
            final(self).messages@.len() == old(self).messages@.len() + 1,
            final(self).messages@.drop_last() == old(self).messages@,
            final(self).messages@.last().role@ == "assistant"@,
            final(self).messages@.last().content@ == full_response@,
            final(self).messages@.last().kind == MessageKind::Normal,
            final(self).messages@.last().turn_id is None,
            final(self).streaming_buffer@.len() == 0,
            final(self).generation == old(self).generation,
            final(self).entry_starts == old(self).entry_starts,
    {
        let ghost before = self.messages@;
        let entry = TranscriptEntry::new(
            "assistant".to_owned(),
            full_response.to_owned(),
            MessageKind::Normal,
            None,
        );
        self.messages.push(entry);
        self.streaming_buffer = String::new();
        assert(self.messages@.drop_last() =~= before);
    }

    /// Add a message of the user's. `turn_id` is the identity that the send carries;
    /// there is none for a message that this client did not send.
    pub fn add_user_message(&mut self, content: &str, turn_id: Option<String>)
        ensures
            final(self).messages@.len() == old(self).messages@.len() + 1,
            final(self).messages@.drop_last() == old(self).messages@,
            final(self).messages@.last().role@ == "user"@,
            final(self).messages@.last().content@ == content@,
            final(self).messages@.last().kind == MessageKind::Normal,
            final(self).messages@.last().turn_id == turn_id,
            final(self).streaming_buffer == old(self).streaming_buffer,
            final(self).generation == old(self).generation,
            final(self).entry_starts == old(self).entry_starts,
    {
        let ghost before = self.messages@;
        let entry = TranscriptEntry::new(
            "user".to_owned(),
            content.to_owned(),
            MessageKind::Normal,
            turn_id,
        );
        self.messages.push(entry);
        assert(self.messages@.drop_last() =~= before);
    }

    /// Append a line of this client's own in the assistant's column. The marker comes
    /// from `kind` when the line is rendered and is never part of the content.
    pub fn add_local_message(&mut self, content: &str, kind: MessageKind)
        ensures
            final(self).messages@.len() == old(self).messages@.len() + 1,
            final(self).messages@.drop_last() == old(self).messages@,
            final(self).messages@.last().role@ == "assistant"@,
            final(self).messages@.last().content@ == content@,
            final(self).messages@.last().kind == kind,
            final(self).messages@.last().turn_id is None,
            final(self).streaming_buffer == old(self).streaming_buffer,
            final(self).generation == old(self).generation,
            final(self).entry_starts == old(self).entry_starts,
    {
        let ghost before = self.messages@;
        let entry = TranscriptEntry::new("assistant".to_owned(), content.to_owned(), kind, None);
        self.messages.push(entry);
        assert(self.messages@.drop_last() =~= before);
    }

    /// Empty the transcript.
    pub fn clear(&mut self)
        ensures
            final(self).messages@.len() == 0,
            final(self).generation == next_generation(old(self).generation),
            final(self).entry_starts@.len() == 0,
            final(self).streaming_buffer@.len() == 0,
    {
        self.generation = self.generation.wrapping_add(1);
        self.messages = Vec::new();
        self.entry_starts = Vec::new();
        self.streaming_buffer = String::new();
    }

    /// What the view shows.
    pub fn render(&self) -> (r: Page)
        ensures
            is_page(self.messages@, self.streaming_buffer@, r),
    {
        let streaming = !self.streaming_buffer.as_str().is_empty();
        if self.messages.len() == 0 && !streaming {
            return Page::Placeholder(PLACEHOLDER);
        }
        let mut blocks: Vec<Block> = Vec::new();
        let mut i: usize = 0;
        while i < self.messages.len()
            invariant
                i <= self.messages.len(),
                blocks@.len() == i,
                forall|j: int| #![trigger self.messages@[j]]
                    0 <= j < i ==> renders(self.messages@[j], blocks@[j]),
            decreases self.messages.len() - i,
        {
            let entry = &self.messages[i];
            blocks.push(Block { label: role_label(entry), content: entry.content.clone() });
            i = i + 1;
        }
        if streaming {
            blocks.push(
                Block { label: "Adele".to_owned(), content: self.streaming_buffer.clone() },
            );
        }
        Page::Blocks(blocks)
    }

    /// Record where each entry begins in the text that was rendered.
    pub fn rendered(&mut self, entry_starts: Vec<i32>)
        ensures
            *final(self) == (ChatView { entry_starts, ..*old(self) }),
    {
        self.entry_starts = entry_starts;
    }

    /// Which transcript the entries currently belong to. Read when a click is made,
    /// and handed back with the resolved index so a reload that lands in between is
    /// caught.
    pub fn generation(&self) -> (r: u64)
        ensures
            r == self.generation,
    {
        self.generation
    }

    /// The turn-id action for the entry at `index`, as resolved against generation
    /// `clicked`.
    pub fn turn_id_action_at(&self, clicked: u64, index: usize) -> (r: TurnIdAction)
        ensures
            r.id() == clicked_turn(self.messages@, self.generation, clicked, index as int),
    {
        turn_id_action_for_generation(&self.messages, self.generation, clicked, index)
    }

    /// The turn-id action for the entry that a hit test found, if it found one.
    pub fn turn_id_action_for_hit(&self, clicked: u64, hit: Option<usize>) -> (r: TurnIdAction)
        ensures
            r.id() == (match hit {
                Some(index) => clicked_turn(
                    self.messages@,
                    self.generation,
                    clicked,
                    index as int,
                ),
                None => None,
            }),
    {
        match hit {
            Some(index) => self.turn_id_action_at(clicked, index),
            None => TurnIdAction::Unavailable,
        }
    }

    /// The turn-id action for the entry at a position of the rendered text.
    pub fn turn_id_action_at_offset(&self, offset: i32) -> (r: TurnIdAction)
        ensures
            forall|i: int| #![trigger self.entry_starts@[i]]
                0 <= i < self.entry_starts@.len() && self.entry_starts@[i] <= offset && (forall|
                    j: int,
                |
                    i < j < self.entry_starts@.len() ==> offset < #[trigger] self.entry_starts@[j])
                    ==> r.id() == clicked_turn(
                    self.messages@,
                    self.generation,
                    self.generation,
                    i,
                ),
            (forall|j: int|
                0 <= j < self.entry_starts@.len() ==> offset < #[trigger] self.entry_starts@[j])
                ==> r.id() is None,
    {
        let hit = entry_index_at_offset(&self.entry_starts, offset);
        self.turn_id_action_for_hit(self.generation, hit)
    }
}

/// The label and the copied text of a menu entry.
pub open spec fn entry_text(item: MenuItem<String>) -> (Seq<char>, Option<Seq<char>>) {
    (
        item.label@,
        match item.action {
            Some(text) => Some(text@),
            None => None,
        },
    )
}

/// The transcript's right-click menu; choosing an entry copies its text. "Copy" is
/// there whenever there is a selection to copy. "Copy turn id" is always shown, and
/// not offered when the turn under the pointer has no id: a person can see that the
/// action exists, in place of wondering whether they missed the target.
pub fn turn_menu(action: TurnIdAction, selection: &str) -> (r: Vec<MenuItem<String>>)
    ensures
        selection@.len() == 0 ==> {
            &&& r@.len() == 1
            &&& entry_text(r@[0]) == ("Copy turn id"@, action.id())
        },
        selection@.len() > 0 ==> {
            &&& r@.len() == 2
            &&& entry_text(r@[0]) == ("Copy"@, Some(selection@))
            &&& entry_text(r@[1]) == ("Copy turn id"@, action.id())
        },
        forall|i: int| 0 <= i < r@.len() ==> !(#[trigger] r@[i]).destructive,
{
    let mut items: Vec<MenuItem<String>> = Vec::new();
    if !selection.is_empty() {
        items.push(MenuItem::new("Copy".to_owned(), selection.to_owned()));
    }
    match action {
        TurnIdAction::Copy(turn_id) => {
            items.push(MenuItem::new("Copy turn id".to_owned(), turn_id));
        },
        TurnIdAction::Unavailable => {
            items.push(MenuItem::unavailable("Copy turn id".to_owned()));
        },
    }
    items
}

/// A reload always changes the generation, so a click in flight over the transcript
/// it replaced copies nothing.
pub proof fn law_a_reload_makes_clicks_stale(
    entries: Seq<TranscriptEntry>,
    clicked: u64,
    index: int,
)
    ensures
        next_generation(clicked) != clicked,
        clicked_turn(entries, next_generation(clicked), clicked, index) is None,
{
}

/// An append leaves every position where it was: a click in flight still copies the
/// id of the entry it was made on.
pub proof fn law_an_append_keeps_clicks(
    entries: Seq<TranscriptEntry>,
    added: TranscriptEntry,
    generation: u64,
    clicked: u64,
    index: int,
)
    requires
        index < entries.len(),
    ensures
        clicked_turn(entries.push(added), generation, clicked, index) == clicked_turn(
            entries,
            generation,
            clicked,
            index,
        ),
{
}

/// The view shows its messages in order under their speakers, the reply that is coming
/// in last, and without either an invitation to start.
pub proof fn law_the_view_shows_its_messages(view: ChatView, r: Page)
    requires
        call_ensures(ChatView::render, (&view,), r),
    ensures
        r is Placeholder <==> view.messages@.len() == 0 && view.streaming_buffer@.len() == 0,
        r is Placeholder ==> r->Placeholder_0@ == "Press '+ New Conversation' to start."@,
        r is Blocks ==> {
            let blocks = r->Blocks_0@;
            let n = view.messages@.len() as int;
            &&& blocks.len() == n + (if view.streaming_buffer@.len() > 0 {
                1int
            } else {
                0int
            })
            &&& forall|i: int|
                0 <= i < n ==> (#[trigger] blocks[i]).content@ == view.messages@[i].content@
            &&& forall|i: int|
                0 <= i < n && view.messages@[i].role@ == "user"@ ==> (
                #[trigger] blocks[i]).label@ == "You"@
            &&& forall|i: int|
                0 <= i < n && view.messages@[i].role@ == "assistant"@
                    && view.messages@[i].kind is Normal ==> (#[trigger] blocks[i]).label@
                    == "Adele"@
            &&& forall|i: int|
                0 <= i < n && view.messages@[i].role@ == "assistant"@
                    && view.messages@[i].kind is Spoken ==> (#[trigger] blocks[i]).label@
                    == "Adele · Spoken"@
            &&& forall|i: int|
                0 <= i < n && view.messages@[i].role@ == "assistant"@
                    && view.messages@[i].kind is SpeechDisabled ==> (
                #[trigger] blocks[i]).label@ == "Adele · speech off"@
            &&& view.streaming_buffer@.len() > 0 ==> blocks[n].content@
                == view.streaming_buffer@ && blocks[n].label@ == "Adele"@
        },
{
    lemma_labels();
    if r is Blocks {
        let blocks = r->Blocks_0@;
        let n = view.messages@.len() as int;
        assert forall|i: int| 0 <= i < n implies renders(
            view.messages@[i],
            #[trigger] blocks[i],
        ) by {
            assert(view.messages@[i] == view.messages@[i]);
        }
    }
}

proof fn lemma_labels()
    ensures
        "Adele"@ + ""@ == "Adele"@,
        "Adele"@ + " · Spoken"@ == "Adele · Spoken"@,
        "Adele"@ + " · speech off"@ == "Adele · speech off"@,
        "user"@ != "assistant"@,
{
    reveal_strlit("");
    reveal_strlit("Adele");
    reveal_strlit(" · Spoken");
    reveal_strlit(" · speech off");
    reveal_strlit("Adele · Spoken");
    reveal_strlit("Adele · speech off");
    reveal_strlit("user");
    reveal_strlit("assistant");
    assert("Adele"@ + ""@ =~= "Adele"@);
    assert("Adele"@ + " · Spoken"@ =~= "Adele · Spoken"@);
    assert("Adele"@ + " · speech off"@ =~= "Adele · speech off"@);
    assert("user"@.len() == 4);
    assert("assistant"@.len() == 9);
}

/// Only a spoken aside and one that was not spoken are marked.
pub proof fn law_markers_tell_asides(kind: MessageKind, r: &'static str)
    requires
        call_ensures(kind_marker, (kind,), r),
    ensures
        kind is Normal ==> r@.len() == 0,
        kind is Spoken ==> r@ == " · Spoken"@,
        kind is SpeechDisabled ==> r@ == " · speech off"@,
{
    reveal_strlit("");
}

/// Loading a conversation replaces all that is shown by its messages, each with its
/// turn's id, and makes every click on what was shown stale.
pub proof fn law_loading_replaces_the_transcript(
    view: &mut ChatView,
    detail: ConversationDetail,
    clicked: u64,
    index: usize,
    r: TurnIdAction,
)
    requires
        call_ensures(ChatView::generation, (old(view),), clicked),
        call_ensures(ChatView::load_conversation, (view, &detail), ()),
        call_ensures(ChatView::turn_id_action_at, (final(view), clicked, index), r),
    ensures
        final(view).messages@.len() == detail.messages@.len(),
        forall|i: int|
            0 <= i < detail.messages@.len() ==> {
                let entry = #[trigger] final(view).messages@[i];
                &&& entry.role@ == detail.messages@[i].role@
                &&& entry.content@ == detail.messages@[i].content@
                &&& entry.kind == detail.messages@[i].kind
                &&& entry.turn_id == detail.messages@[i].idempotency_key
            },
        final(view).streaming_buffer@.len() == 0,
        r is Unavailable,
{
    assert forall|i: int| 0 <= i < detail.messages@.len() implies #[trigger] final(view).messages@[i] == entry_for(detail.messages@[i]) by {}
    law_a_reload_makes_clicks_stale(final(view).messages@, clicked, index as int);
}

/// A reply grows by its chunks and ends as a message of the assistant's with the full
/// text, after those that were there.
pub proof fn law_a_reply_ends_as_a_message(
    view: &mut ChatView,
    then: &mut ChatView,
    chunk: &str,
    full: &str,
)
    requires
        call_ensures(ChatView::receive_chunk, (view, chunk), ()),
        *old(then) == *final(view),
        call_ensures(ChatView::complete_streaming, (then, full), ()),
    ensures
        final(view).streaming_buffer@ == old(view).streaming_buffer@ + chunk@,
        final(view).messages@ == old(view).messages@,
        final(then).streaming_buffer@.len() == 0,
        final(then).messages@.len() == old(view).messages@.len() + 1,
        forall|i: int|
            0 <= i < old(view).messages@.len() ==> #[trigger] final(then).messages@[i] == old(view).messages@[i],
        final(then).messages@.last().role@ == "assistant"@,
        final(then).messages@.last().content@ == full@,
        final(then).messages@.last().kind is Normal,
        final(then).generation == old(view).generation,
{
    assert forall|i: int| 0 <= i < old(view).messages@.len() implies #[trigger] final(then).messages@[i] == old(view).messages@[i] by {
        assert(final(then).messages@.drop_last()[i] == old(view).messages@[i]);
    }
}

/// What the user sends and what is said locally is added at the end, with its turn's id
/// or its kind, and leaves the positions of what was there.
pub proof fn law_messages_are_added_at_the_end(
    view: &mut ChatView,
    aside: &mut ChatView,
    content: &str,
    turn_id: Option<String>,
    kind: MessageKind,
)
    requires
        call_ensures(ChatView::add_user_message, (view, content, turn_id), ()),
        call_ensures(ChatView::add_local_message, (aside, content, kind), ()),
    ensures
        final(view).messages@ == old(view).messages@.push(final(view).messages@.last()),
        final(view).messages@.last().role@ == "user"@,
        final(view).messages@.last().content@ == content@,
        final(view).messages@.last().turn_id == turn_id,
        final(view).generation == old(view).generation,
        final(aside).messages@ == old(aside).messages@.push(final(aside).messages@.last()),
        final(aside).messages@.last().role@ == "assistant"@,
        final(aside).messages@.last().content@ == content@,
        final(aside).messages@.last().kind == kind,
        final(aside).messages@.last().turn_id is None,
        final(aside).generation == old(aside).generation,
        final(view).streaming_buffer@ == old(view).streaming_buffer@,
        final(aside).streaming_buffer@ == old(aside).streaming_buffer@,
{
    assert(final(view).messages@ =~= final(view).messages@.drop_last().push(
        final(view).messages@.last(),
    ));
    assert(final(aside).messages@ =~= final(aside).messages@.drop_last().push(
        final(aside).messages@.last(),
    ));
}

/// Clearing leaves nothing, and makes every click stale.
pub proof fn law_clearing_leaves_nothing(
    view: &mut ChatView,
    clicked: u64,
    index: usize,
    r: TurnIdAction,
    page: Page,
)
    requires
        call_ensures(ChatView::generation, (old(view),), clicked),
        call_ensures(ChatView::clear, (view,), ()),
        call_ensures(ChatView::turn_id_action_at, (final(view), clicked, index), r),
        call_ensures(ChatView::render, (final(view),), page),
    ensures
        final(view).messages@.len() == 0,
        final(view).streaming_buffer@.len() == 0,
        final(view).entry_starts@.len() == 0,
        r is Unavailable,
        page is Placeholder,
{
    law_a_reload_makes_clicks_stale(final(view).messages@, clicked, index as int);
}

/// A click on a message of the transcript that is still shown copies that message's turn
/// id, where it has one; a click that hit nothing, or nothing any more, copies nothing.
pub proof fn law_a_click_copies_its_own_turn(
    view: ChatView,
    clicked: u64,
    index: usize,
    r: TurnIdAction,
    hit: TurnIdAction,
    miss: TurnIdAction,
)
    requires
        call_ensures(ChatView::turn_id_action_at, (&view, clicked, index), r),
        call_ensures(ChatView::turn_id_action_for_hit, (&view, clicked, Some(index)), hit),
        call_ensures(ChatView::turn_id_action_for_hit, (&view, clicked, None), miss),
    ensures
        r is Copy <==> clicked == view.generation && index < view.messages@.len()
            && view.messages@[index as int].turn_id is Some,
        r is Copy ==> r->Copy_0@ == view.messages@[index as int].turn_id->0@,
        hit is Copy <==> r is Copy,
        hit is Copy ==> hit->Copy_0@ == r->Copy_0@,
        miss is Unavailable,
{
}

/// A place in the text belongs to the last message that begins at or before it.
pub proof fn law_a_place_belongs_to_the_message_before_it(
    view: ChatView,
    offset: i32,
    i: int,
    r: TurnIdAction,
)
    requires
        call_ensures(ChatView::turn_id_action_at_offset, (&view, offset), r),
        0 <= i < view.entry_starts@.len() && i < view.messages@.len(),
        view.entry_starts@[i] <= offset,
        forall|j: int|
            i < j < view.entry_starts@.len() ==> offset < #[trigger] view.entry_starts@[j],
    ensures
        r is Copy <==> view.messages@[i].turn_id is Some,
        r is Copy ==> r->Copy_0@ == view.messages@[i].turn_id->0@,
{
}

/// The menu offers to copy what is selected, where anything is, and always the turn's
/// id, which does nothing where there is none.
pub proof fn law_the_menu_copies_what_it_says(
    action: TurnIdAction,
    selection: &str,
    r: Vec<MenuItem<String>>,
)
    requires
        call_ensures(turn_menu, (action, selection), r),
    ensures
        ({
            let last = r@.len() - 1;
            &&& r@.len() == (if selection@.len() > 0 {
                2int
            } else {
                1int
            })
            &&& r@[last].label@ == "Copy turn id"@
            &&& r@[last].action is Some <==> action is Copy
            &&& action is Copy ==> r@[last].action->0@ == action->Copy_0@
            &&& selection@.len() > 0 ==> r@[0].label@ == "Copy"@ && r@[0].action is Some
                && r@[0].action->0@ == selection@
            &&& forall|i: int| 0 <= i < r@.len() ==> !(#[trigger] r@[i]).destructive
        }),
{
    assert(entry_text(r@[0]) == entry_text(r@[0]));
}

/// A message is labelled by its speaker: the user, or Adele with a mark for an aside.
pub proof fn law_a_message_is_labelled_by_its_speaker(
    entry: TranscriptEntry,
    mark: &'static str,
    r: String,
)
    requires
        call_ensures(kind_marker, (entry.kind,), mark),
        call_ensures(role_label, (&entry,), r),
    ensures
        entry.role@ == "user"@ ==> r@ == "You"@,
        entry.role@ == "assistant"@ ==> r@ == "Adele"@ + mark@,
        entry.role@ != "user"@ && entry.role@ != "assistant"@ ==> r@.len() == 0,
{
    lemma_labels();
    reveal_strlit("");
}

/// A view starts empty, and where its entries begin is remembered as it was rendered.
pub proof fn law_a_view_starts_empty(
    fresh: ChatView,
    page: Page,
    view: &mut ChatView,
    starts: Vec<i32>,
)
    requires
        call_ensures(ChatView::new, (), fresh),
        call_ensures(ChatView::render, (&fresh,), page),
        call_ensures(ChatView::rendered, (view, starts), ()),
    ensures
        fresh.messages@.len() == 0 && fresh.streaming_buffer@.len() == 0,
        page is Placeholder,
        final(view).entry_starts@ == starts@,
        final(view).messages@ == old(view).messages@,
        final(view).streaming_buffer@ == old(view).streaming_buffer@,
        final(view).generation == old(view).generation,
{
}

} // verus!
