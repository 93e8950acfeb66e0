//! The dialog in which the user curates the models that the picker offers.

use crate::api::{ModelListing, SelectedModel};
use crate::model_picker::{
    chat_capable, contains_model, from_connection, is_chosen, is_listing_of, keep_chat_capable,
    law_embeddings_are_never_offered, of_connection, same_model,
};
use crate::text::same_text;
use vstd::prelude::*;

verus! {

/// What the dialog says when there is nothing to pick from.
pub const NO_MODELS: &'static str = "No chat-capable models are available from the connected daemon.";

/// The label of a model's box.
pub open spec fn choice_label(listing: ModelListing) -> Seq<char> {
    if listing.model.display_name@.len() == 0 {
        listing.model.id@
    } else {
        listing.model.display_name@ + " ("@ + listing.model.id@ + ")"@
    }
}

/// The label of a model's box: its name with the id, or the id alone.
pub fn display_label(listing: &ModelListing) -> (r: String)
    ensures
        r@ == choice_label(*listing),
{
    if listing.model.display_name.as_str().is_empty() {
        return listing.model.id.clone();
    }
    let mut out = listing.model.display_name.clone();
    out.append(" (");
    out.append(listing.model.id.as_str());
    out.append(")");
    out
}

/// A box that puts a model on the list.
#[derive(Debug, PartialEq, Eq)]
pub struct ModelChoice {
    pub model: SelectedModel,
    pub label: String,
    pub checked: bool,
}

/// A connection's boxes under their heading.
#[derive(Debug, PartialEq, Eq)]
pub struct ModelGroup {
    pub connection_id: String,
    pub connection_label: String,
    pub choices: Vec<ModelChoice>,
}

/// A box stands for a listing, ticked where the model is on the list `selected`.
pub open spec fn offers(
    choice: ModelChoice,
    listing: ModelListing,
    selected: Seq<SelectedModel>,
) -> bool {
    &&& is_listing_of(listing, choice.model)
    &&& choice.label@ == choice_label(listing)
    &&& choice.checked == is_chosen(selected, choice.model)
}

/// A group holds exactly the models of its connection, in their order, under the
/// label of the first.
pub open spec fn is_group(
    group: ModelGroup,
    listings: Seq<ModelListing>,
    selected: Seq<SelectedModel>,
) -> bool {
    let own = of_connection(listings, group.connection_id@);
    &&& own.len() > 0
    &&& group.connection_label@ == own[0].connection_label@
    &&& group.choices@.len() == own.len()
    &&& forall|i: int| #![trigger own[i]]
        0 <= i < own.len() ==> offers(group.choices@[i], own[i], selected)
}

/// Connection `a` turns up in the listings before `b` does.
pub open spec fn turns_up_before(
    listings: Seq<ModelListing>,
    a: Seq<char>,
    b: Seq<char>,
) -> bool {
    exists|p: int| turns_up_at(listings, a, b, p)
}

/// Connection `a` turns up at `p`, and `b` not up to there.
pub open spec fn turns_up_at(
    listings: Seq<ModelListing>,
    a: Seq<char>,
    b: Seq<char>,
    p: int,
) -> bool {
    &&& 0 <= p < listings.len()
    &&& listings[p].connection_id@ == a
    &&& forall|q: int| 0 <= q <= p ==> (#[trigger] listings[q]).connection_id@ != b
}

/// Some group is the one for a connection.
pub open spec fn has_group(groups: Seq<ModelGroup>, id: Seq<char>) -> bool {
    exists|i: int| 0 <= i < groups.len() && (#[trigger] groups[i]).connection_id@ == id
}

/// The boxes for `listings`: one group for each connection, in the order in which the
/// connections turn up.
pub open spec fn are_groups(
    groups: Seq<ModelGroup>,
    listings: Seq<ModelListing>,
    selected: Seq<SelectedModel>,
) -> bool {
    &&& forall|i: int|
        0 <= i < groups.len() ==> is_group(#[trigger] groups[i], listings, selected)
    &&& forall|i: int, j: int|
        0 <= i < j < groups.len() ==> turns_up_before(
            listings,
            (#[trigger] groups[i]).connection_id@,
            (#[trigger] groups[j]).connection_id@,
        )
    &&& forall|i: int|
        0 <= i < listings.len() ==> has_group(groups, (#[trigger] listings[i]).connection_id@)
}

/// The ticked models of a group, in their order.
pub open spec fn ticked(choices: Seq<ModelChoice>) -> Seq<SelectedModel>
    decreases choices.len(),
{
    if choices.len() == 0 {
        Seq::empty()
    } else if choices.last().checked {
        ticked(choices.drop_last()).push(choices.last().model)
    } else {
        ticked(choices.drop_last())
    }
}

/// The ticked models of all groups, group after group.
pub open spec fn all_ticked(groups: Seq<ModelGroup>) -> Seq<SelectedModel>
    decreases groups.len(),
{
    if groups.len() == 0 {
        Seq::empty()
    } else {
        all_ticked(groups.drop_last()) + ticked(groups.last().choices@)
    }
}

fn choice_for(listing: &ModelListing, selected: &Vec<SelectedModel>) -> (r: ModelChoice)
    ensures
        offers(r, *listing, selected@),
{
    let model = SelectedModel {
        connection_id: listing.connection_id.clone(),
        model_id: listing.model.id.clone(),
    };
    let checked = contains_model(selected, &model);
    ModelChoice { model, label: display_label(listing), checked }
}

/// The boxes of one connection.
fn choices_of(
    listings: &Vec<ModelListing>,
    id: &str,
    selected: &Vec<SelectedModel>,
) -> (r: Vec<ModelChoice>)
    ensures
        r@.len() == of_connection(listings@, id@).len(),
        forall|i: int| #![trigger of_connection(listings@, id@)[i]]
            0 <= i < r@.len() ==> offers(r@[i], of_connection(listings@, id@)[i], selected@),
{
    let ghost f = from_connection(id@);
    let mut out: Vec<ModelChoice> = Vec::new();
    let ghost mut own: Seq<ModelListing> = Seq::empty();
    let mut i: usize = 0;
    proof {
        reveal(Seq::filter);
        assert(listings@.take(0).filter(f) =~= own);
    }
    while i < listings.len()
        invariant
            i <= listings.len(),
            f == from_connection(id@),
            own == listings@.take(i as int).filter(f),
            out@.len() == own.len(),
            forall|j: int| #![trigger own[j]]
                0 <= j < own.len() ==> offers(out@[j], own[j], selected@),
        decreases listings.len() - i,
    {
        proof {
            reveal(Seq::filter);
            assert(listings@.take(i as int + 1).drop_last() =~= listings@.take(i as int));
        }
        if same_text(listings[i].connection_id.as_str(), id) {
            out.push(choice_for(&listings[i], selected));
            proof {
                own = own.push(listings@[i as int]);
            }
        }
        i = i + 1;
    }
    assert(listings@.take(listings@.len() as int) =~= listings@);
    out
}

fn find_group(groups: &Vec<ModelGroup>, id: &str) -> (r: bool)
    ensures
        r == has_group(groups@, id@),
{
    let mut i: usize = 0;
    while i < groups.len()
        invariant
            i <= groups.len(),
            forall|j: int| 0 <= j < i ==> (#[trigger] groups@[j]).connection_id@ != id@,
        decreases groups.len() - i,
    {
        if same_text(groups[i].connection_id.as_str(), id) {
            assert(groups@[i as int].connection_id@ == id@);
            return true;
        }
        i = i + 1;
    }
    false
}

/// The first listing of a connection is the one that turned up first.
proof fn lemma_first_of_connection(listings: Seq<ModelListing>, id: Seq<char>, i: int)
    requires
        0 <= i < listings.len(),
        listings[i].connection_id@ == id,
        forall|j: int| 0 <= j < i ==> (#[trigger] listings[j]).connection_id@ != id,
    ensures
        of_connection(listings, id).len() > 0,
        of_connection(listings, id)[0] == listings[i],
    decreases listings.len(),
{
    reveal(Seq::filter);
    let f = from_connection(id);
    let rest = listings.drop_last();
    if i < listings.len() - 1 {
        lemma_first_of_connection(rest, id, i);
        assert(rest.filter(f) == of_connection(rest, id));
    } else {
        assert(rest.filter(f).len() == 0) by {
            if rest.filter(f).len() > 0 {
                rest.lemma_filter_pred(f, 0);
                rest.lemma_filter_contains_rev(f, rest.filter(f)[0]);
            }
        }
    }
}

/// The groups of boxes, one for each connection, in the daemon's order.
pub fn model_groups(available: &Vec<ModelListing>, currently_selected: &Vec<SelectedModel>) -> (r:
    Vec<ModelGroup>)
    ensures
        are_groups(r@, chat_capable(available@), currently_selected@),
{
    let listings = keep_chat_capable(available);
    let mut groups: Vec<ModelGroup> = Vec::new();
    let mut i: usize = 0;
    while i < listings.len()
        invariant
            i <= listings.len(),
            forall|j: int|
                0 <= j < groups@.len() ==> is_group(
                    #[trigger] groups@[j],
                    listings@,
                    currently_selected@,
                ),
            forall|j: int, k: int|
                0 <= j < k < groups@.len() ==> turns_up_before(
                    listings@,
                    (#[trigger] groups@[j]).connection_id@,
                    (#[trigger] groups@[k]).connection_id@,
                ),
            forall|j: int|
                0 <= j < groups@.len() ==> turned_up(
                    listings@.take(i as int),
                    (#[trigger] groups@[j]).connection_id@,
                ),
            forall|j: int|
                0 <= j < i ==> has_group(groups@, (#[trigger] listings@[j]).connection_id@),
        decreases listings.len() - i,
    {
        let ghost before = groups@;
        let listing = &listings[i];
        assert forall|id: Seq<char>| turned_up(listings@.take(i as int), id) implies turned_up(
            listings@.take(i as int + 1),
            id,
        ) by {
            let p = choose|p: int|
                0 <= p < i && (#[trigger] listings@.take(i as int)[p]).connection_id@ == id;
            assert(listings@.take(i as int + 1)[p].connection_id@ == id);
        }
        if !find_group(&groups, listing.connection_id.as_str()) {
            proof {
                assert forall|j: int| 0 <= j < i implies (
                #[trigger] listings@[j]).connection_id@ != listing.connection_id@ by {
                    assert(has_group(groups@, listings@[j].connection_id@));
                }
                lemma_first_of_connection(listings@, listing.connection_id@, i as int);
            }
            let group = ModelGroup {
                connection_id: listing.connection_id.clone(),
                connection_label: listing.connection_label.clone(),
                choices: choices_of(
                    &listings,
                    listing.connection_id.as_str(),
                    currently_selected,
                ),
            };
            groups.push(group);
            proof {
                let n = before.len() as int;
                assert(is_group(groups@[n], listings@, currently_selected@));
                assert forall|j: int| 0 <= j < n implies turns_up_before(
                    listings@,
                    (#[trigger] groups@[j]).connection_id@,
                    groups@[n].connection_id@,
                ) by {
                    let id = before[j].connection_id@;
                    assert(turned_up(listings@.take(i as int), id));
                    let p = choose|p: int|
                        0 <= p < i && (#[trigger] listings@.take(i as int)[p]).connection_id@
                            == id;
                    assert(turns_up_at(listings@, id, groups@[n].connection_id@, p));
                }
                assert(listings@.take(i as int + 1)[i as int].connection_id@
                    == groups@[n].connection_id@);
                assert forall|j: int| 0 <= j < i implies has_group(
                    groups@,
                    (#[trigger] listings@[j]).connection_id@,
                ) by {
                    let a = choose|a: int|
                        0 <= a < before.len() && (#[trigger] before[a]).connection_id@
                            == listings@[j].connection_id@;
                    assert(groups@[a].connection_id@ == listings@[j].connection_id@);
                }
                assert(groups@[n].connection_id@ == listings@[i as int].connection_id@);
            }
        }
        i = i + 1;
    }
    groups
}

/// A connection is among the listings.
spec fn turned_up(listings: Seq<ModelListing>, id: Seq<char>) -> bool {
    exists|p: int| 0 <= p < listings.len() && (#[trigger] listings[p]).connection_id@ == id
}

/// The list that saving the dialog makes: the ticked models, in the order in which
/// the connections and their models are shown.
pub fn chosen_models(groups: &Vec<ModelGroup>) -> (r: Vec<SelectedModel>)
    ensures
        r@ == all_ticked(groups@),
{
    let mut out: Vec<SelectedModel> = Vec::new();
    let mut i: usize = 0;
    while i < groups.len()
        invariant
            i <= groups.len(),
            out@ == all_ticked(groups@.take(i as int)),
        decreases groups.len() - i,
    {
        let choices = &groups[i].choices;
        let ghost before = out@;
        let mut k: usize = 0;
        assert(out@ =~= before + ticked(choices@.take(0)));
        while k < choices.len()
            invariant
                k <= choices.len(),
                out@ == before + ticked(choices@.take(k as int)),
            decreases choices.len() - k,
        {
            assert(choices@.take(k as int + 1).drop_last() =~= choices@.take(k as int));
            if choices[k].checked {
                out.push(choices[k].model.clone());
                assert(out@ =~= before + ticked(choices@.take(k as int + 1)));
            }
            k = k + 1;
        }
        assert(choices@.take(choices@.len() as int) =~= choices@);
        assert(groups@.take(i as int + 1).drop_last() =~= groups@.take(i as int));
        i = i + 1;
    }
    assert(groups@.take(groups@.len() as int) =~= groups@);
    out
}

proof fn lemma_ticked(choices: Seq<ModelChoice>, sel: SelectedModel)
    ensures
        is_chosen(ticked(choices), sel) <==> exists|i: int|
            0 <= i < choices.len() && (#[trigger] choices[i]).checked && same_model(
                choices[i].model,
                sel,
            ),
    decreases choices.len(),
{
    if choices.len() > 0 {
        let rest = choices.drop_last();
        let n = choices.len() - 1;
        lemma_ticked(rest, sel);
        let a = ticked(rest);
        if is_chosen(a, sel) {
            let i = choose|i: int|
                0 <= i < rest.len() && (#[trigger] rest[i]).checked && same_model(
                    rest[i].model,
                    sel,
                );
            assert(choices[i] == rest[i]);
            let j = choose|j: int| 0 <= j < a.len() && same_model(#[trigger] a[j], sel);
            assert(ticked(choices)[j] == a[j]);
        }
        if choices[n].checked && same_model(choices[n].model, sel) {
            assert(same_model(ticked(choices)[a.len() as int], sel));
        }
        if is_chosen(ticked(choices), sel) && !is_chosen(a, sel) {
            let j = choose|j: int|
                0 <= j < ticked(choices).len() && same_model(#[trigger] ticked(choices)[j], sel);
            if j < a.len() {
                assert(same_model(a[j], sel));
            }
            assert(choices[n].checked && same_model(choices[n].model, sel));
        }
        if exists|i: int|
            0 <= i < choices.len() && (#[trigger] choices[i]).checked && same_model(
                choices[i].model,
                sel,
            ) {
            let i = choose|i: int|
                0 <= i < choices.len() && (#[trigger] choices[i]).checked && same_model(
                    choices[i].model,
                    sel,
                );
            if i < n {
                assert(rest[i] == choices[i]);
            }
        }
    }
}

/// Some box of `groups` is ticked for the model.
pub open spec fn is_ticked(groups: Seq<ModelGroup>, sel: SelectedModel) -> bool {
    exists|g: int|
        0 <= g < groups.len() && is_chosen(ticked((#[trigger] groups[g]).choices@), sel)
}

proof fn lemma_all_ticked(groups: Seq<ModelGroup>, sel: SelectedModel)
    ensures
        is_chosen(all_ticked(groups), sel) <==> is_ticked(groups, sel),
    decreases groups.len(),
{
    if groups.len() > 0 {
        let rest = groups.drop_last();
        let n = groups.len() - 1;
        let a = all_ticked(rest);
        let b = ticked(groups[n].choices@);
        lemma_all_ticked(rest, sel);
        if is_ticked(rest, sel) {
            let g = choose|g: int|
                0 <= g < rest.len() && is_chosen(ticked((#[trigger] rest[g]).choices@), sel);
            assert(groups[g] == rest[g]);
            let j = choose|j: int| 0 <= j < a.len() && same_model(#[trigger] a[j], sel);
            assert((a + b)[j] == a[j]);
        }
        if is_chosen(b, sel) {
            let j = choose|j: int| 0 <= j < b.len() && same_model(#[trigger] b[j], sel);
            assert((a + b)[a.len() + j] == b[j]);
            assert(is_chosen(ticked(groups[n].choices@), sel));
        }
        if is_chosen(a + b, sel) {
            let j = choose|j: int| 0 <= j < (a + b).len() && same_model(#[trigger] (a + b)[j], sel);
            if j < a.len() {
                assert(same_model(a[j], sel));
            } else {
                assert(same_model(b[j - a.len()], sel));
            }
        }
        if is_ticked(groups, sel) {
            let g = choose|g: int|
                0 <= g < groups.len() && is_chosen(ticked((#[trigger] groups[g]).choices@), sel);
            if g < n {
                assert(rest[g] == groups[g]);
            }
        }
    }
}

/// Some listing is of the model.
pub open spec fn is_listed(listings: Seq<ModelListing>, sel: SelectedModel) -> bool {
    exists|i: int| 0 <= i < listings.len() && is_listing_of(#[trigger] listings[i], sel)
}

/// Saving the dialog unchanged keeps the curated list, less the models that the
/// daemon no longer lists.
pub proof fn law_saving_unchanged_keeps_the_listed(
    groups: Seq<ModelGroup>,
    listings: Seq<ModelListing>,
    selected: Seq<SelectedModel>,
    sel: SelectedModel,
)
    requires
        are_groups(groups, listings, selected),
    ensures
        is_chosen(all_ticked(groups), sel) <==> is_chosen(selected, sel) && is_listed(
            listings,
            sel,
        ),
{
    lemma_all_ticked(groups, sel);
    if is_ticked(groups, sel) {
        let g = choose|g: int|
            0 <= g < groups.len() && is_chosen(ticked((#[trigger] groups[g]).choices@), sel);
        let choices = groups[g].choices@;
        lemma_ticked(choices, sel);
        let i = choose|i: int|
            0 <= i < choices.len() && (#[trigger] choices[i]).checked && same_model(
                choices[i].model,
                sel,
            );
        let id = groups[g].connection_id@;
        let f = from_connection(id);
        let own = of_connection(listings, id);
        assert(is_group(groups[g], listings, selected));
        assert(offers(choices[i], own[i], selected));
        listings.lemma_filter_contains_rev(f, own[i]);
        let p = choose|p: int| 0 <= p < listings.len() && listings[p] == own[i];
        assert(is_listing_of(listings[p], sel));
        let s = choose|s: int|
            0 <= s < selected.len() && same_model(#[trigger] selected[s], choices[i].model);
        assert(same_model(selected[s], sel));
    }
    if is_chosen(selected, sel) && is_listed(listings, sel) {
        let p = choose|p: int|
            0 <= p < listings.len() && is_listing_of(#[trigger] listings[p], sel);
        let id = listings[p].connection_id@;
        assert(has_group(groups, id));
        let g = choose|g: int|
            0 <= g < groups.len() && (#[trigger] groups[g]).connection_id@ == id;
        let f = from_connection(id);
        let own = of_connection(listings, id);
        listings.lemma_filter_contains(f, p);
        assert(own.contains(listings[p]));
        let i = choose|i: int| 0 <= i < own.len() && own[i] == listings[p];
        assert(is_group(groups[g], listings, selected));
        let choices = groups[g].choices@;
        assert(offers(choices[i], own[i], selected));
        let s = choose|s: int|
            0 <= s < selected.len() && same_model(#[trigger] selected[s], sel);
        assert(same_model(selected[s], choices[i].model));
        assert(choices[i].checked);
        lemma_ticked(choices, sel);
        assert(is_chosen(ticked(groups[g].choices@), sel));
    }
}

/// No connection has two headings.
pub proof fn law_one_group_for_each_connection(
    groups: Seq<ModelGroup>,
    listings: Seq<ModelListing>,
    selected: Seq<SelectedModel>,
    i: int,
    j: int,
)
    requires
        are_groups(groups, listings, selected),
        0 <= i < j < groups.len(),
    ensures
        groups[i].connection_id@ != groups[j].connection_id@,
{
    let a = groups[i].connection_id@;
    let b = groups[j].connection_id@;
    assert(turns_up_before(listings, a, b));
    let p = choose|p: int| turns_up_at(listings, a, b, p);
    assert(listings[p].connection_id@ != b);
}

/// A model is offered by its name and id, or by its id alone.
pub proof fn law_a_choice_is_labelled(listing: ModelListing, r: String)
    requires
        call_ensures(display_label, (&listing,), r),
    ensures
        listing.model.display_name@.len() == 0 ==> r@ == listing.model.id@,
        listing.model.display_name@.len() > 0 ==> r@ == listing.model.display_name@ + " ("@
            + listing.model.id@ + ")"@,
{
}

/// The dialog offers the models of each connection under it, in the daemon's order, each
/// ticked exactly where it is chosen at present, and nothing that cannot chat.
pub proof fn law_the_dialog_offers_what_can_chat(
    available: Vec<ModelListing>,
    selected: Vec<SelectedModel>,
    r: Vec<ModelGroup>,
    g: int,
)
    requires
        call_ensures(model_groups, (&available, &selected), r),
        0 <= g < r@.len(),
    ensures
        ({
            let own = available@.filter(
                |l: ModelListing| !l.model.capabilities.embedding,
            ).filter(|l: ModelListing| l.connection_id@ == r@[g].connection_id@);
            &&& own.len() > 0
            &&& r@[g].connection_label@ == own[0].connection_label@
            &&& r@[g].choices@.len() == own.len()
            &&& forall|i: int|
                0 <= i < own.len() ==> {
                    let choice = #[trigger] r@[g].choices@[i];
                    &&& choice.model.connection_id@ == own[i].connection_id@
                    &&& choice.model.model_id@ == own[i].model.id@
                    &&& choice.checked <==> is_chosen(selected@, choice.model)
                    &&& choice.label@ == choice_label(own[i])
                }
        }),
{
    let id = r@[g].connection_id@;
    let capable = available@.filter(|l: ModelListing| !l.model.capabilities.embedding);
    assert(from_connection(id) =~= |l: ModelListing| l.connection_id@ == id);
    assert(is_group(r@[g], chat_capable(available@), selected@));
    let own = of_connection(chat_capable(available@), id);
    assert(own == capable.filter(|l: ModelListing| l.connection_id@ == id));
    assert forall|i: int| 0 <= i < own.len() implies offers(
        #[trigger] r@[g].choices@[i],
        own[i],
        selected@,
    ) by {
        assert(own[i] == own[i]);
    }
}

/// What is ticked is what is chosen: a model is chosen exactly where a ticked entry
/// stands for it.
pub proof fn law_what_is_ticked_is_chosen(
    groups: Vec<ModelGroup>,
    r: Vec<SelectedModel>,
    model: SelectedModel,
)
    requires
        call_ensures(chosen_models, (&groups,), r),
    ensures
        r@.contains(model) <==> exists|g: int, i: int| #![trigger groups@[g].choices@[i]]
            0 <= g < groups@.len() && 0 <= i < groups@[g].choices@.len()
                && groups@[g].choices@[i].checked && groups@[g].choices@[i].model == model,
{
    lemma_models_ticked(groups@, model);
}

proof fn lemma_models_ticked_in(choices: Seq<ModelChoice>, model: SelectedModel)
    ensures
        ticked(choices).contains(model) <==> exists|i: int|
            0 <= i < choices.len() && (#[trigger] choices[i]).checked && choices[i].model == model,
    decreases choices.len(),
{
    if choices.len() > 0 {
        let rest = choices.drop_last();
        lemma_models_ticked_in(rest, model);
        let all = ticked(choices);
        if all.contains(model) {
            let k = choose|k: int| 0 <= k < all.len() && all[k] == model;
            if choices.last().checked && k == all.len() - 1 {
                assert(choices[choices.len() - 1].checked && choices[choices.len() - 1].model
                    == model);
            } else {
                assert(ticked(rest)[k] == model);
                let i = choose|i: int|
                    0 <= i < rest.len() && (#[trigger] rest[i]).checked && rest[i].model == model;
                assert(choices[i] == rest[i]);
            }
        }
        if exists|i: int|
            0 <= i < choices.len() && (#[trigger] choices[i]).checked && choices[i].model
                == model {
            let i = choose|i: int|
                0 <= i < choices.len() && (#[trigger] choices[i]).checked && choices[i].model
                    == model;
            if i < rest.len() {
                assert(rest[i].checked && rest[i].model == model);
                let k = choose|k: int| 0 <= k < ticked(rest).len() && ticked(rest)[k] == model;
                assert(all[k] == model);
            } else {
                assert(all[all.len() - 1] == model);
            }
        }
    }
}

proof fn lemma_models_ticked(groups: Seq<ModelGroup>, model: SelectedModel)
    ensures
        all_ticked(groups).contains(model) <==> exists|g: int, i: int|
            #![trigger groups[g].choices@[i]]
            0 <= g < groups.len() && 0 <= i < groups[g].choices@.len()
                && groups[g].choices@[i].checked && groups[g].choices@[i].model == model,
    decreases groups.len(),
{
    if groups.len() > 0 {
        let rest = groups.drop_last();
        let last = groups.len() - 1;
        lemma_models_ticked(rest, model);
        lemma_models_ticked_in(groups.last().choices@, model);
        let before = all_ticked(rest);
        let own = ticked(groups.last().choices@);
        let all = all_ticked(groups);
        if all.contains(model) {
            let k = choose|k: int| 0 <= k < all.len() && all[k] == model;
            if k < before.len() {
                assert(before[k] == model);
                let (g, i) = choose|g: int, i: int| #![trigger rest[g].choices@[i]]
                    0 <= g < rest.len() && 0 <= i < rest[g].choices@.len()
                        && rest[g].choices@[i].checked && rest[g].choices@[i].model == model;
                assert(groups[g].choices@[i] == rest[g].choices@[i]);
            } else {
                assert(own[k - before.len()] == model);
                let i = choose|i: int|
                    0 <= i < groups.last().choices@.len() && (
                    #[trigger] groups.last().choices@[i]).checked && groups.last().choices@[i].model
                        == model;
                assert(groups[last].choices@[i].checked);
            }
        }
        if exists|g: int, i: int| #![trigger groups[g].choices@[i]]
            0 <= g < groups.len() && 0 <= i < groups[g].choices@.len()
                && groups[g].choices@[i].checked && groups[g].choices@[i].model == model {
            let (g, i) = choose|g: int, i: int| #![trigger groups[g].choices@[i]]
                0 <= g < groups.len() && 0 <= i < groups[g].choices@.len()
                    && groups[g].choices@[i].checked && groups[g].choices@[i].model == model;
            if g < last {
                assert(rest[g].choices@[i].checked && rest[g].choices@[i].model == model);
                let k = choose|k: int| 0 <= k < before.len() && before[k] == model;
                assert(all[k] == model);
            } else {
                assert(groups.last().choices@[i].checked);
                let k = choose|k: int| 0 <= k < own.len() && own[k] == model;
                assert(all[before.len() + k] == model);
            }
        }
    }
}

/// Every model that can chat is offered under its connection, and each connection once,
/// in the order in which the daemon listed them.
pub proof fn law_every_connection_has_one_group(
    available: Vec<ModelListing>,
    selected: Vec<SelectedModel>,
    r: Vec<ModelGroup>,
    i: int,
    g: int,
    h: int,
)
    requires
        call_ensures(model_groups, (&available, &selected), r),
        0 <= i < available@.len(),
        0 <= g < h < r@.len(),
    ensures
        !available@[i].model.capabilities.embedding ==> exists|k: int|
            0 <= k < r@.len() && (#[trigger] r@[k]).connection_id@ == available@[i].connection_id@,
        r@[g].connection_id@ != r@[h].connection_id@,
        available@[i].connection_id@ == r@[h].connection_id@
            && !available@[i].model.capabilities.embedding ==> exists|j: int|
            0 <= j < i && (#[trigger] available@[j]).connection_id@ == r@[g].connection_id@,
{
    let able = |l: ModelListing| !l.model.capabilities.embedding;
    let capable = chat_capable(available@);
    assert(capable == available@.filter(able));
    law_one_group_for_each_connection(r@, capable, selected@, g, h);
    law_embeddings_are_never_offered(available@);
    if !available@[i].model.capabilities.embedding {
        assert(capable.contains(available@[i]));
        let k = choose|k: int| 0 <= k < capable.len() && capable[k] == available@[i];
        assert(has_group(r@, capable[k].connection_id@));
        if available@[i].connection_id@ == r@[h].connection_id@ {
            assert(turns_up_before(capable, r@[g].connection_id@, r@[h].connection_id@));
            let p = choose|p: int|
                turns_up_at(capable, r@[g].connection_id@, r@[h].connection_id@, p);
            lemma_filtered_before(available@, i, able, r@[g].connection_id@, r@[h].connection_id@, p);
        }
    }
}

proof fn lemma_filtered_before(
    s: Seq<ModelListing>,
    i: int,
    able: spec_fn(ModelListing) -> bool,
    a: Seq<char>,
    b: Seq<char>,
    p: int,
)
    requires
        0 <= i < s.len(),
        able(s[i]),
        s[i].connection_id@ == b,
        turns_up_at(s.filter(able), a, b, p),
    ensures
        exists|j: int| 0 <= j < i && (#[trigger] s[j]).connection_id@ == a,
    decreases s.len(),
{
    let front = s.take(i);
    let all = s.filter(able);
    assert(s =~= front + s.skip(i));
    Seq::filter_distributes_over_add(front, s.skip(i), able);
    let kept = front.filter(able);
    let rest = s.skip(i).filter(able);
    assert(rest.len() > 0 && rest[0] == s[i]) by {
        let tail = s.skip(i);
        assert(tail =~= seq![s[i]] + tail.drop_first());
        Seq::filter_distributes_over_add(seq![s[i]], tail.drop_first(), able);
        reveal(Seq::filter);
        assert(seq![s[i]].drop_last() =~= Seq::<ModelListing>::empty());
        assert(seq![s[i]].filter(able) =~= seq![s[i]]);
    }
    assert(all[kept.len() as int] == s[i]);
    if p >= kept.len() {
        assert(all[kept.len() as int].connection_id@ != b);
    }
    assert(kept[p] == all[p]);
    front.lemma_filter_contains_rev(able, kept[p]);
    let j = choose|j: int| 0 <= j < front.len() && front[j] == kept[p];
    assert(s[j] == front[j]);
}

/// Saving the dialog as it opened keeps what is chosen of the models that it offers.
pub proof fn law_saving_at_once_keeps_the_choice(
    available: Vec<ModelListing>,
    selected: Vec<SelectedModel>,
    groups: Vec<ModelGroup>,
    r: Vec<SelectedModel>,
    sel: SelectedModel,
    kept: bool,
    before: bool,
)
    requires
        call_ensures(model_groups, (&available, &selected), groups),
        call_ensures(chosen_models, (&groups,), r),
        call_ensures(contains_model, (&r, &sel), kept),
        call_ensures(contains_model, (&selected, &sel), before),
    ensures
        kept ==> before,
        before && (exists|i: int|
            0 <= i < available@.len() && (#[trigger] available@[i]).connection_id@
                == sel.connection_id@ && available@[i].model.id@ == sel.model_id@
                && !available@[i].model.capabilities.embedding) ==> kept,
{
    let capable = chat_capable(available@);
    law_saving_unchanged_keeps_the_listed(groups@, capable, selected@, sel);
    law_embeddings_are_never_offered(available@);
    if exists|i: int|
        0 <= i < available@.len() && (#[trigger] available@[i]).connection_id@
            == sel.connection_id@ && available@[i].model.id@ == sel.model_id@
            && !available@[i].model.capabilities.embedding {
        let i = choose|i: int|
            0 <= i < available@.len() && (#[trigger] available@[i]).connection_id@
                == sel.connection_id@ && available@[i].model.id@ == sel.model_id@
                && !available@[i].model.capabilities.embedding;
        assert(capable.contains(available@[i]));
        let k = choose|k: int| 0 <= k < capable.len() && capable[k] == available@[i];
        assert(is_listing_of(capable[k], sel));
        assert(is_listed(capable, sel));
    }
}

} // verus!
