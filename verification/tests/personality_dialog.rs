use adele_gtk::api::{ConversationPersonalityView, PersonalityLevel};
use adele_gtk::personality_dialog::{
    index_from_level, indices_from_override, level_from_index, override_from_indices, ROW_OPTIONS,
};

#[test]
fn global_index_maps_to_none_and_back() {
    assert_eq!(level_from_index(0), None);
    assert_eq!(index_from_level(None), 0);
}

#[test]
fn every_level_round_trips_through_its_index() {
    let levels = [
        PersonalityLevel::Never,
        PersonalityLevel::Rarely,
        PersonalityLevel::Sometimes,
        PersonalityLevel::Often,
        PersonalityLevel::Always,
    ];
    for level in levels {
        let idx = index_from_level(Some(level));
        assert_eq!(level_from_index(idx), Some(level), "round-trip {level:?}");
    }
    // The five concrete levels occupy indices 1..=5.
    assert_eq!(index_from_level(Some(PersonalityLevel::Never)), 1);
    assert_eq!(index_from_level(Some(PersonalityLevel::Always)), 5);
}

#[test]
fn out_of_range_index_falls_back_to_inherit() {
    // A malformed selection must degrade to "inherit global", never panic.
    assert_eq!(level_from_index(6), None);
    assert_eq!(level_from_index(u32::MAX), None);
}

#[test]
fn all_global_indices_produce_cleared_override() {
    let over = override_from_indices([0; 7]);
    assert_eq!(over, ConversationPersonalityView::default());
    // Default is all-`None`, which the daemon treats as "cleared".
    assert!(over.professionalism.is_none());
    assert!(over.pretentiousness.is_none());
}

#[test]
fn indices_map_to_the_canonical_trait_order() {
    // Distinct level per slot proves no two traits are swapped: assign
    // index = position+1 so each trait gets a different level.
    let over = override_from_indices([1, 2, 3, 4, 5, 1, 2]);
    assert_eq!(over.professionalism, Some(PersonalityLevel::Never));
    assert_eq!(over.warmth, Some(PersonalityLevel::Rarely));
    assert_eq!(over.directness, Some(PersonalityLevel::Sometimes));
    assert_eq!(over.enthusiasm, Some(PersonalityLevel::Often));
    assert_eq!(over.humor, Some(PersonalityLevel::Always));
    assert_eq!(over.sarcasm, Some(PersonalityLevel::Never));
    assert_eq!(over.pretentiousness, Some(PersonalityLevel::Rarely));
}

#[test]
fn prefill_none_selects_global_for_every_row() {
    assert_eq!(indices_from_override(None), [0; 7]);
}

#[test]
fn prefill_round_trips_a_partial_override() {
    // Humor=Never, directness=Always, rest inherited.
    let stored = ConversationPersonalityView {
        humor: Some(PersonalityLevel::Never),
        directness: Some(PersonalityLevel::Always),
        ..ConversationPersonalityView::default()
    };
    let indices = indices_from_override(Some(&stored));
    // Re-assembling from the pre-filled indices yields the same override.
    assert_eq!(override_from_indices(indices), stored);
    // Spot-check the two pinned slots land on the right rows.
    assert_eq!(indices[2], 5, "directness → Always");
    assert_eq!(indices[4], 1, "humor → Never");
}

#[test]
fn row_options_have_global_plus_five_levels() {
    // The dropdown must offer exactly Global + the 5 levels, Global first.
    assert_eq!(ROW_OPTIONS.len(), 6);
    assert_eq!(ROW_OPTIONS[0], "Global");
    // Each non-Global option maps to a distinct concrete level.
    for idx in 1..ROW_OPTIONS.len() as u32 {
        assert!(level_from_index(idx).is_some(), "option {idx} is a level");
    }
}
