//! The model picker: which model the next message of a conversation is sent with,
//! out of a list that the user curates.

use crate::api::{
    ConversationModelSelectionView, ModelListing, SelectedModel, SendPromptOverride,
};
use crate::text::same_text;
use vstd::prelude::*;

verus! {

/// The label while no model is picked.
pub const DEFAULT_LABEL: &'static str = "(default)";

/// What the menu says when the curated list is empty.
pub const EMPTY_MENU: &'static str = "No models selected";

/// What was found in the store of curated models.
#[derive(Debug, PartialEq, Eq)]
pub enum StoredModels {
    /// Nothing was ever saved.
    Missing,
    Loaded(Vec<SelectedModel>),
    /// There is a list, and it could not be read.
    Unreadable,
}

/// A listing is of the model that `sel` names.
pub open spec fn is_listing_of(listing: ModelListing, sel: SelectedModel) -> bool {
    listing.connection_id@ == sel.connection_id@ && listing.model.id@ == sel.model_id@
}

/// The first listing of a model.
pub open spec fn listing_of(available: Seq<ModelListing>, sel: SelectedModel) -> Option<
    ModelListing,
>
    decreases available.len(),
{
    if available.len() == 0 {
        None
    } else {
        match listing_of(available.drop_last(), sel) {
            Some(listing) => Some(listing),
            None => if is_listing_of(available.last(), sel) {
                Some(available.last())
            } else {
                None
            },
        }
    }
}

/// A model together with its connection.
pub open spec fn paired(model: Seq<char>, connection: Seq<char>) -> Seq<char> {
    model + " · "@ + connection
}

/// The label of a listed model.
pub open spec fn listing_label(listing: ModelListing) -> Seq<char> {
    paired(
        if listing.model.display_name@.len() == 0 {
            listing.model.id@
        } else {
            listing.model.display_name@
        },
        listing.connection_label@,
    )
}

/// The label of a picked model.
pub open spec fn model_label(available: Seq<ModelListing>, sel: SelectedModel) -> Seq<char> {
    match listing_of(available, sel) {
        Some(listing) => listing_label(listing),
        None => paired(sel.model_id@, sel.connection_id@),
    }
}

fn pair_text(model: &str, connection: &str) -> (r: String)
    ensures
        r@ == paired(model@, connection@),
{
    let mut out = model.to_owned();
    out.append(" · ");
    out.append(connection);
    out
}

/// Name a listed model and its connection.
pub fn format_label(listing: &ModelListing) -> (r: String)
    ensures
        r@ == listing_label(*listing),
{
    if listing.model.display_name.as_str().is_empty() {
        pair_text(listing.model.id.as_str(), listing.connection_label.as_str())
    } else {
        pair_text(listing.model.display_name.as_str(), listing.connection_label.as_str())
    }
}

/// The label of a picked model. Falls back to the raw ids when the daemon no longer
/// lists the pair (the connection was removed, say): better than hiding the row,
/// since the daemon may still resolve it.
pub fn label_for(sel: &SelectedModel, available: &Vec<ModelListing>) -> (r: String)
    ensures
        r@ == model_label(available@, *sel),
{
    let mut i: usize = 0;
    while i < available.len()
        invariant
            i <= available.len(),
            listing_of(available@.take(i as int), *sel) is None,
        decreases available.len() - i,
    {
        assert(available@.take(i as int + 1).drop_last() =~= available@.take(i as int));
        let listing = &available[i];
        if same_text(listing.connection_id.as_str(), sel.connection_id.as_str()) && same_text(
            listing.model.id.as_str(),
            sel.model_id.as_str(),
        ) {
            proof {
                lemma_found(available@, *sel, i as int + 1);
            }
            return format_label(listing);
        }
        i = i + 1;
    }
    assert(available@.take(available@.len() as int) =~= available@);
    pair_text(sel.model_id.as_str(), sel.connection_id.as_str())
}

/// What is found among the first listings is found among all of them.
proof fn lemma_found(available: Seq<ModelListing>, sel: SelectedModel, i: int)
    requires
        0 <= i <= available.len(),
        listing_of(available.take(i), sel) is Some,
    ensures
        listing_of(available, sel) == listing_of(available.take(i), sel),
    decreases available.len() - i,
{
    if i < available.len() {
        assert(available.take(i + 1).drop_last() =~= available.take(i));
        lemma_found(available, sel, i + 1);
    } else {
        assert(available.take(i) =~= available);
    }
}

/// The listings of models that can chat.
pub open spec fn chat_capable(listings: Seq<ModelListing>) -> Seq<ModelListing> {
    listings.filter(|l: ModelListing| !l.model.capabilities.embedding)
}

/// Keep the listings of models that can chat.
pub fn keep_chat_capable(listings: &Vec<ModelListing>) -> (r: Vec<ModelListing>)
    ensures
        r@ == chat_capable(listings@),
{
    let ghost f = |l: ModelListing| !l.model.capabilities.embedding;
    let mut out: Vec<ModelListing> = Vec::new();
    let mut i: usize = 0;
    while i < listings.len()
        invariant
            i <= listings.len(),
            f == (|l: ModelListing| !l.model.capabilities.embedding),
            out@ == listings@.take(i as int).filter(f),
        decreases listings.len() - i,
    {
        proof {
            reveal(Seq::filter);
            assert(listings@.take(i as int + 1).drop_last() =~= listings@.take(i as int));
        }
        if !listings[i].model.capabilities.embedding {
            out.push(listings[i].clone());
        }
        i = i + 1;
    }
    assert(listings@.take(listings@.len() as int) =~= listings@);
    out
}

/// What it is to be a listing of one connection.
pub open spec fn from_connection(id: Seq<char>) -> spec_fn(ModelListing) -> bool {
    |l: ModelListing| l.connection_id@ == id
}

/// The listings of one connection, in their order.
pub open spec fn of_connection(listings: Seq<ModelListing>, id: Seq<char>) -> Seq<ModelListing> {
    listings.filter(from_connection(id))
}

/// Keep the listings of one connection.
pub fn keep_connection(listings: &Vec<ModelListing>, id: &str) -> (r: Vec<ModelListing>)
    ensures
        r@ == of_connection(listings@, id@),
{
    let ghost f = from_connection(id@);
    let mut out: Vec<ModelListing> = Vec::new();
    let mut i: usize = 0;
    while i < listings.len()
        invariant
            i <= listings.len(),
            f == from_connection(id@),
            out@ == listings@.take(i as int).filter(f),
        decreases listings.len() - i,
    {
        proof {
            reveal(Seq::filter);
            assert(listings@.take(i as int + 1).drop_last() =~= listings@.take(i as int));
        }
        if same_text(listings[i].connection_id.as_str(), id) {
            out.push(listings[i].clone());
        }
        i = i + 1;
    }
    assert(listings@.take(listings@.len() as int) =~= listings@);
    out
}

/// The seed of the curated list: the first model that can chat, where there is one.
pub open spec fn seed_of(available: Seq<ModelListing>) -> Seq<SelectedModel> {
    if available.len() == 0 {
        Seq::empty()
    } else {
        seq![
            SelectedModel {
                connection_id: available[0].connection_id,
                model_id: available[0].model.id,
            },
        ]
    }
}

/// The picker.
pub struct ModelPicker {
    /// Every model the daemon offers, less the embedding-only ones.
    pub available: Vec<ModelListing>,
    /// The user's curated subset.
    pub selected: Vec<SelectedModel>,
    /// The model picked. `None` leaves the choice to the daemon, which falls back to
    /// the conversation's stored selection or the interactive purpose.
    pub active: Option<SelectedModel>,
    pub visible: bool,
}

fn copy_models(v: &Vec<SelectedModel>) -> (r: Vec<SelectedModel>)
    ensures
        r@ == v@,
{
    let mut out: Vec<SelectedModel> = Vec::new();
    let mut i: usize = 0;
    while i < v.len()
        invariant
            i <= v.len(),
            out@ == v@.take(i as int),
        decreases v.len() - i,
    {
        out.push(v[i].clone());
        assert(out@ =~= v@.take(i as int + 1));
        i = i + 1;
    }
    assert(v@.take(v@.len() as int) =~= v@);
    out
}

/// Two models are the same pair.
pub open spec fn same_model(a: SelectedModel, b: SelectedModel) -> bool {
    a.connection_id@ == b.connection_id@ && a.model_id@ == b.model_id@
}

/// A model is on a list.
pub open spec fn is_chosen(models: Seq<SelectedModel>, sel: SelectedModel) -> bool {
    exists|i: int| 0 <= i < models.len() && same_model(#[trigger] models[i], sel)
}

/// The picked model that is left once the list is `chosen`.
pub open spec fn kept_active(active: Option<SelectedModel>, chosen: Seq<SelectedModel>) -> Option<
    SelectedModel,
> {
    match active {
        Some(sel) if is_chosen(chosen, sel) => Some(sel),
        _ => None,
    }
}

/// Whether a model is on a list.
pub fn contains_model(models: &Vec<SelectedModel>, sel: &SelectedModel) -> (r: bool)
    ensures
        r == is_chosen(models@, *sel),
{
    let mut i: usize = 0;
    while i < models.len()
        invariant
            i <= models.len(),
            forall|j: int| 0 <= j < i ==> !same_model(#[trigger] models@[j], *sel),
        decreases models.len() - i,
    {
        if same_text(models[i].connection_id.as_str(), sel.connection_id.as_str()) && same_text(
            models[i].model_id.as_str(),
            sel.model_id.as_str(),
        ) {
            assert(same_model(models@[i as int], *sel));
            return true;
        }
        i = i + 1;
    }
    false
}

impl ModelPicker {
    /// A picker that has not heard from the daemon.
    pub fn new() -> (r: Self)
        ensures
            r.available@.len() == 0,
            r.selected@.len() == 0,
            r.active is None,
            r.visible,
    {
        ModelPicker { available: Vec::new(), selected: Vec::new(), active: None, visible: true }
    }

    /// Replace the list of available models. Embedding-only models are left out:
    /// they are of no use for chat. Where nothing was ever saved, the curated list
    /// is seeded with the first model that can chat, and the seed is returned to be
    /// saved; once the user has saved a list, even an empty one, it is respected. A
    /// list that cannot be read leaves the curated list empty.
    pub fn set_models(&mut self, listings: &Vec<ModelListing>, stored: StoredModels) -> (r: Option<
        Vec<SelectedModel>,
    >)
        ensures
            final(self).available@ == chat_capable(listings@),
            final(self).active == old(self).active,
            final(self).visible == old(self).visible,
            match stored {
                StoredModels::Missing => {
                    &&& final(self).selected@ == seed_of(chat_capable(listings@))
                    &&& r is Some
                    &&& r->0@ == final(self).selected@
                },
                StoredModels::Loaded(models) => {
                    &&& final(self).selected@ == models@
                    &&& r is None
                },
                StoredModels::Unreadable => {
                    &&& final(self).selected@.len() == 0
                    &&& r is None
                },
            },
    {
        self.available = keep_chat_capable(listings);
        match stored {
            StoredModels::Missing => {
                let mut seed: Vec<SelectedModel> = Vec::new();
                if self.available.len() > 0 {
                    seed.push(
                        SelectedModel {
                            connection_id: self.available[0].connection_id.clone(),
                            model_id: self.available[0].model.id.clone(),
                        },
                    );
                }
                assert(seed@ =~= seed_of(self.available@));
                self.selected = copy_models(&seed);
                Some(seed)
            },
            StoredModels::Loaded(models) => {
                self.selected = models;
                None
            },
            StoredModels::Unreadable => {
                self.selected = Vec::new();
                None
            },
        }
    }

    /// Apply the active conversation's stored selection, or clear it.
    pub fn set_selection(&mut self, selection: Option<&ConversationModelSelectionView>)
        ensures
            final(self).active == (match selection {
                Some(s) => Some(
                    SelectedModel { connection_id: s.connection_id, model_id: s.model_id },
                ),
                None => None,
            }),
            final(self).available == old(self).available,
            final(self).selected == old(self).selected,
            final(self).visible == old(self).visible,
    {
        self.active = match selection {
            Some(s) => Some(
                SelectedModel {
                    connection_id: s.connection_id.clone(),
                    model_id: s.model_id.clone(),
                },
            ),
            None => None,
        };
    }

    /// The override to attach to the next message; none while no model is picked.
    pub fn current_override(&self) -> (r: Option<SendPromptOverride>)
        ensures
            r == (match self.active {
                Some(sel) => Some(
                    SendPromptOverride {
                        connection_id: sel.connection_id,
                        model_id: sel.model_id,
                        effort: None,
                    },
                ),
                None => None,
            }),
    {
        match &self.active {
            Some(sel) => Some(
                SendPromptOverride {
                    connection_id: sel.connection_id.clone(),
                    model_id: sel.model_id.clone(),
                    effort: None,
                },
            ),
            None => None,
        }
    }

    /// Show or hide the picker: a transport may not support overrides.
    pub fn set_visible(&mut self, visible: bool)
        ensures
            *final(self) == (ModelPicker { visible, ..*old(self) }),
    {
        self.visible = visible;
    }

    /// Whether the button can be pressed: there is a model to pick.
    pub fn is_sensitive(&self) -> (r: bool)
        ensures
            r == (self.available@.len() > 0),
    {
        self.available.len() > 0
    }

    /// What the button says.
    pub fn button_label(&self) -> (r: String)
        ensures
            r@ == (match self.active {
                Some(sel) => model_label(self.available@, sel),
                None => DEFAULT_LABEL@,
            }),
    {
        match &self.active {
            Some(sel) => label_for(sel, &self.available),
            None => DEFAULT_LABEL.to_owned(),
        }
    }

    /// The menu's entries, one for each curated model.
    pub fn menu_labels(&self) -> (r: Vec<String>)
        ensures
            r@.len() == self.selected@.len(),
            forall|i: int| #![trigger r@[i]]
                0 <= i < r@.len() ==> r@[i]@ == model_label(self.available@, self.selected@[i]),
    {
        let mut out: Vec<String> = Vec::new();
        let mut i: usize = 0;
        while i < self.selected.len()
            invariant
                i <= self.selected.len(),
                out@.len() == i,
                forall|j: int| #![trigger out@[j]]
                    0 <= j < i ==> out@[j]@ == model_label(self.available@, self.selected@[j]),
            decreases self.selected.len() - i,
        {
            out.push(label_for(&self.selected[i], &self.available));
            i = i + 1;
        }
        out
    }

    /// The user picked the entry at `index` of the menu.
    pub fn pick(&mut self, index: usize)
        ensures
            final(self).active == (if index < old(self).selected@.len() {
                Some(old(self).selected@[index as int])
            } else {
                old(self).active
            }),
            final(self).available == old(self).available,
            final(self).selected == old(self).selected,
            final(self).visible == old(self).visible,
    {
        if index < self.selected.len() {
            self.active = Some(self.selected[index].clone());
        }
    }

    /// The user curated another list. The picked model is dropped where it is no
    /// longer on the list, so the button never reflects a row that is not shown. The
    /// conversation's stored selection on the daemon is untouched.
    pub fn save_chosen(&mut self, chosen: Vec<SelectedModel>)
        ensures
            final(self).selected == chosen,
            final(self).active == kept_active(old(self).active, chosen@),
            final(self).available == old(self).available,
            final(self).visible == old(self).visible,
    {
        let dropped = match &self.active {
            Some(sel) => !contains_model(&chosen, sel),
            None => false,
        };
        if dropped {
            self.active = None;
        }
        self.selected = chosen;
    }
}

/// No embedding-only model is ever offered, and every other model is.
pub proof fn law_embeddings_are_never_offered(listings: Seq<ModelListing>)
    ensures
        forall|i: int| #![trigger chat_capable(listings)[i]]
            0 <= i < chat_capable(listings).len()
                ==> !chat_capable(listings)[i].model.capabilities.embedding && listings.contains(
                chat_capable(listings)[i],
            ),
        forall|i: int|
            0 <= i < listings.len() && !(#[trigger] listings[i]).model.capabilities.embedding
                ==> chat_capable(listings).contains(listings[i]),
{
    let f = |l: ModelListing| !l.model.capabilities.embedding;
    assert forall|i: int| #![trigger chat_capable(listings)[i]]
        0 <= i < chat_capable(listings).len() implies !chat_capable(
        listings,
    )[i].model.capabilities.embedding && listings.contains(chat_capable(listings)[i]) by {
        listings.lemma_filter_pred(f, i);
        listings.lemma_filter_contains_rev(f, listings.filter(f)[i]);
    }
    assert forall|i: int|
        0 <= i < listings.len() && !(
        #[trigger] listings[i]).model.capabilities.embedding implies chat_capable(
        listings,
    ).contains(listings[i]) by {
        listings.lemma_filter_contains(f, i);
    }
}

/// After the list was curated, a picked model is one of the menu's entries, and it is
/// the one that was picked before.
pub proof fn law_the_picked_model_is_on_the_menu(
    active: Option<SelectedModel>,
    chosen: Seq<SelectedModel>,
)
    ensures
        kept_active(active, chosen) is Some ==> is_chosen(chosen, kept_active(active, chosen)->0),
        kept_active(active, chosen) is None || kept_active(active, chosen) == active,
        active is Some && is_chosen(chosen, active->0) ==> kept_active(active, chosen) == active,
{
}

/// The models offered are those that can chat, in the daemon's order.
pub proof fn law_the_offer_is_what_can_chat(listings: Vec<ModelListing>, r: Vec<ModelListing>)
    requires
        call_ensures(keep_chat_capable, (&listings,), r),
    ensures
        r@ == listings@.filter(|l: ModelListing| !l.model.capabilities.embedding),
{
}

/// The models of a connection are the listings that name it, in their order.
pub proof fn law_a_connections_models_name_it(
    listings: Vec<ModelListing>,
    id: &str,
    r: Vec<ModelListing>,
)
    requires
        call_ensures(keep_connection, (&listings, id), r),
    ensures
        r@ == listings@.filter(|l: ModelListing| l.connection_id@ == id@),
{
    assert(from_connection(id@) =~= |l: ModelListing| l.connection_id@ == id@);
}

/// Listing the models keeps what can chat, and takes the user's choice as it was stored;
/// where nothing was ever stored the first model that can chat is chosen, and only then
/// is there something to store.
pub proof fn law_a_first_start_chooses_the_first_model(
    picker: &mut ModelPicker,
    listings: Vec<ModelListing>,
    stored: StoredModels,
    r: Option<Vec<SelectedModel>>,
)
    requires
        call_ensures(ModelPicker::set_models, (picker, &listings, stored), r),
    ensures
        ({
            let offered = listings@.filter(|l: ModelListing| !l.model.capabilities.embedding);
            &&& final(picker).available@ == offered
            &&& stored is Loaded ==> final(picker).selected@ == stored->Loaded_0@
            &&& stored is Unreadable ==> final(picker).selected@.len() == 0
            &&& stored is Missing && offered.len() == 0 ==> final(picker).selected@.len() == 0
            &&& stored is Missing && offered.len() > 0 ==> final(picker).selected@.len() == 1
                && final(picker).selected@[0].connection_id@ == offered[0].connection_id@
                && final(picker).selected@[0].model_id@ == offered[0].model.id@
        }),
        r is Some <==> stored is Missing,
        r is Some ==> r->0@ == final(picker).selected@,
        final(picker).active == old(picker).active,
        final(picker).visible == old(picker).visible,
{
}

/// The model that is picked is the model that is sent, and the button names it.
pub proof fn law_the_picked_model_is_sent(
    picker: &mut ModelPicker,
    index: usize,
    r: Option<SendPromptOverride>,
    button: String,
    menu: Vec<String>,
)
    requires
        call_ensures(ModelPicker::pick, (picker, index), ()),
        call_ensures(ModelPicker::current_override, (final(picker),), r),
        call_ensures(ModelPicker::button_label, (final(picker),), button),
        call_ensures(ModelPicker::menu_labels, (final(picker),), menu),
        index < old(picker).selected@.len(),
    ensures
        r is Some,
        r->0.connection_id@ == old(picker).selected@[index as int].connection_id@,
        r->0.model_id@ == old(picker).selected@[index as int].model_id@,
        r->0.effort is None,
        menu@.len() == old(picker).selected@.len(),
        button@ == menu@[index as int]@,
        final(picker).selected@ == old(picker).selected@,
{
}

/// A conversation's stored model is the one that is sent; without one nothing is, and
/// the button says that the default is used.
pub proof fn law_a_conversations_model_is_sent(
    picker: &mut ModelPicker,
    selection: Option<&ConversationModelSelectionView>,
    r: Option<SendPromptOverride>,
    button: String,
)
    requires
        call_ensures(ModelPicker::set_selection, (picker, selection), ()),
        call_ensures(ModelPicker::current_override, (final(picker),), r),
        call_ensures(ModelPicker::button_label, (final(picker),), button),
    ensures
        r is Some <==> selection is Some,
        r is Some ==> r->0.connection_id@ == selection->0.connection_id@ && r->0.model_id@
            == selection->0.model_id@,
        r is None ==> button@ == "(default)"@,
        final(picker).selected@ == old(picker).selected@,
        final(picker).available@ == old(picker).available@,
{
}

/// A model is labelled by its name, or by its id where it has none, and by its
/// connection; one that the daemon no longer lists by its ids.
pub proof fn law_a_model_is_labelled(
    sel: SelectedModel,
    available: Vec<ModelListing>,
    r: String,
    i: int,
)
    requires
        call_ensures(label_for, (&sel, &available), r),
    ensures
        (forall|j: int|
            0 <= j < available@.len() ==> !((#[trigger] available@[j]).connection_id@
                == sel.connection_id@ && available@[j].model.id@ == sel.model_id@)) ==> r@
            == sel.model_id@ + " · "@ + sel.connection_id@,
        0 <= i < available@.len() && available@[i].connection_id@ == sel.connection_id@
            && available@[i].model.id@ == sel.model_id@ && (forall|j: int|
            0 <= j < i ==> !((#[trigger] available@[j]).connection_id@ == sel.connection_id@
                && available@[j].model.id@ == sel.model_id@)) ==> r@ == (if available@[
            i
        ].model.display_name@.len() > 0 {
            available@[i].model.display_name@
        } else {
            available@[i].model.id@
        }) + " · "@ + available@[i].connection_label@,
{
    lemma_listing_found(available@, sel);
}

proof fn lemma_listing_found(available: Seq<ModelListing>, sel: SelectedModel)
    ensures
        listing_of(available, sel) matches Some(found) ==> exists|i: int|
            0 <= i < available.len() && available[i] == found && is_listing_of(
                #[trigger] available[i],
                sel,
            ) && forall|j: int| 0 <= j < i ==> !is_listing_of(#[trigger] available[j], sel),
        listing_of(available, sel) is None ==> forall|j: int|
            0 <= j < available.len() ==> !is_listing_of(#[trigger] available[j], sel),
    decreases available.len(),
{
    if available.len() > 0 {
        let rest = available.drop_last();
        lemma_listing_found(rest, sel);
        if listing_of(rest, sel) is Some {
            let found = listing_of(rest, sel)->0;
            let i = choose|i: int|
                0 <= i < rest.len() && rest[i] == found && is_listing_of(#[trigger] rest[i], sel)
                    && forall|j: int| 0 <= j < i ==> !is_listing_of(#[trigger] rest[j], sel);
            assert(available[i] == found && is_listing_of(available[i], sel));
            assert forall|j: int| 0 <= j < i implies !is_listing_of(
                #[trigger] available[j],
                sel,
            ) by {
                assert(rest[j] == available[j]);
            }
        } else {
            assert forall|j: int| 0 <= j < available.len() - 1 implies !is_listing_of(
                #[trigger] available[j],
                sel,
            ) by {
                assert(rest[j] == available[j]);
            }
            if listing_of(available, sel) is Some {
                let i = available.len() - 1;
                assert(available[i] == listing_of(available, sel)->0 && is_listing_of(
                    available[i],
                    sel,
                ));
            }
        }
    }
}

/// A listing is labelled by its name or id, and its connection.
pub proof fn law_a_listing_is_labelled(listing: ModelListing, r: String)
    requires
        call_ensures(format_label, (&listing,), r),
    ensures
        listing.model.display_name@.len() > 0 ==> r@ == listing.model.display_name@ + " · "@
            + listing.connection_label@,
        listing.model.display_name@.len() == 0 ==> r@ == listing.model.id@ + " · "@
            + listing.connection_label@,
{
}

/// A saved choice becomes the menu; the model in use stays where it is still on it, and
/// the default is used otherwise.
pub proof fn law_a_saved_choice_becomes_the_menu(
    picker: &mut ModelPicker,
    chosen: Vec<SelectedModel>,
    menu: Vec<String>,
    r: Option<SendPromptOverride>,
)
    requires
        call_ensures(ModelPicker::save_chosen, (picker, chosen), ()),
        call_ensures(ModelPicker::menu_labels, (final(picker),), menu),
        call_ensures(ModelPicker::current_override, (final(picker),), r),
    ensures
        final(picker).selected@ == chosen@,
        menu@.len() == chosen@.len(),
        r is Some <==> old(picker).active is Some && exists|i: int|
            0 <= i < chosen@.len() && (#[trigger] chosen@[i]).connection_id@ == old(picker).active->0.connection_id@ && chosen@[i].model_id@ == old(picker).active->0.model_id@,
        r is Some ==> r->0.model_id@ == old(picker).active->0.model_id@ && r->0.connection_id@
            == old(picker).active->0.connection_id@,
        final(picker).available@ == old(picker).available@,
{
    if old(picker).active is Some {
        let sel = old(picker).active->0;
        if is_chosen(chosen@, sel) {
            let i = choose|i: int| 0 <= i < chosen@.len() && same_model(#[trigger] chosen@[i], sel);
            assert(chosen@[i].connection_id@ == sel.connection_id@);
        }
        if exists|i: int|
            0 <= i < chosen@.len() && (#[trigger] chosen@[i]).connection_id@ == sel.connection_id@
                && chosen@[i].model_id@ == sel.model_id@ {
            let i = choose|i: int|
                0 <= i < chosen@.len() && (#[trigger] chosen@[i]).connection_id@
                    == sel.connection_id@ && chosen@[i].model_id@ == sel.model_id@;
            assert(same_model(chosen@[i], sel));
        }
    }
}

/// The picker can be opened exactly where there is something to offer, and hiding it
/// changes nothing else.
pub proof fn law_an_empty_picker_cannot_be_opened(
    picker: &mut ModelPicker,
    visible: bool,
    r: bool,
)
    requires
        call_ensures(ModelPicker::set_visible, (picker, visible), ()),
        call_ensures(ModelPicker::is_sensitive, (final(picker),), r),
    ensures
        r <==> old(picker).available@.len() > 0,
        final(picker).visible == visible,
        final(picker).selected@ == old(picker).selected@,
        final(picker).active == old(picker).active,
{
}

/// A model is among others exactly where one has its connection and its id.
pub proof fn law_models_are_told_by_both_ids(
    models: Vec<SelectedModel>,
    sel: SelectedModel,
    r: bool,
)
    requires
        call_ensures(contains_model, (&models, &sel), r),
    ensures
        r <==> exists|i: int|
            0 <= i < models@.len() && (#[trigger] models@[i]).connection_id@ == sel.connection_id@
                && models@[i].model_id@ == sel.model_id@,
{
    if r {
        let i = choose|i: int| 0 <= i < models@.len() && same_model(#[trigger] models@[i], sel);
        assert(models@[i].connection_id@ == sel.connection_id@);
    }
    if exists|i: int|
        0 <= i < models@.len() && (#[trigger] models@[i]).connection_id@ == sel.connection_id@
            && models@[i].model_id@ == sel.model_id@ {
        let i = choose|i: int|
            0 <= i < models@.len() && (#[trigger] models@[i]).connection_id@ == sel.connection_id@
                && models@[i].model_id@ == sel.model_id@;
        assert(same_model(models@[i], sel));
    }
}

/// A picker starts shown, with nothing to pick and the default in use.
pub proof fn law_a_picker_starts_on_the_default(
    r: ModelPicker,
    sent: Option<SendPromptOverride>,
    sensitive: bool,
)
    requires
        call_ensures(ModelPicker::new, (), r),
        call_ensures(ModelPicker::current_override, (&r,), sent),
        call_ensures(ModelPicker::is_sensitive, (&r,), sensitive),
    ensures
        sent is None && !sensitive && r.visible && r.selected@.len() == 0,
{
}

} // verus!
