//! The per-conversation personality picker: one row per trait, each a dropdown
//! that offers the global setting and the five concrete levels.

use crate::api::{ConversationPersonalityView, PersonalityLevel};
use vstd::prelude::*;

verus! {

/// The traits in the order the rows list them.
pub const TRAITS: [&'static str; 7] = [
    "Professionalism",
    "Warmth",
    "Directness",
    "Enthusiasm",
    "Humor",
    "Sarcasm",
    "Pretentiousness",
];

/// The per-row entries. The first is the "inherit global" sentinel; the others are
/// the concrete levels in ascending order.
pub const ROW_OPTIONS: [&'static str; 6] = [
    "Global",
    "Never",
    "Rarely",
    "Sometimes",
    "Often",
    "Always",
];

/// The level at a row index.
pub open spec fn level_at(index: int) -> Option<PersonalityLevel> {
    if index == 1 {
        Some(PersonalityLevel::Never)
    } else if index == 2 {
        Some(PersonalityLevel::Rarely)
    } else if index == 3 {
        Some(PersonalityLevel::Sometimes)
    } else if index == 4 {
        Some(PersonalityLevel::Often)
    } else if index == 5 {
        Some(PersonalityLevel::Always)
    } else {
        None
    }
}

/// Map a row index to a trait override. Index 0 ("Global") is `None` (inherit);
/// 1 to 5 map to `Never` to `Always`. Out-of-range indices fall back to `None`, so
/// a malformed selection degrades to the safe "inherit global" behaviour.
pub fn level_from_index(index: u32) -> (r: Option<PersonalityLevel>)
    ensures
        r == level_at(index as int),
{
    match index {
        1 => Some(PersonalityLevel::Never),
        2 => Some(PersonalityLevel::Rarely),
        3 => Some(PersonalityLevel::Sometimes),
        4 => Some(PersonalityLevel::Often),
        5 => Some(PersonalityLevel::Always),
        _ => None,
    }
}

/// Inverse of [`level_from_index`]: the row index of a trait override.
pub fn index_from_level(level: Option<PersonalityLevel>) -> (r: u32)
    ensures
        r <= 5,
        level_at(r as int) == level,
{
    match level {
        None => 0,
        Some(PersonalityLevel::Never) => 1,
        Some(PersonalityLevel::Rarely) => 2,
        Some(PersonalityLevel::Sometimes) => 3,
        Some(PersonalityLevel::Often) => 4,
        Some(PersonalityLevel::Always) => 5,
    }
}

/// The levels of an override in the order of the rows.
pub open spec fn levels_of(over: ConversationPersonalityView) -> Seq<Option<PersonalityLevel>> {
    seq![
        over.professionalism,
        over.warmth,
        over.directness,
        over.enthusiasm,
        over.humor,
        over.sarcasm,
        over.pretentiousness,
    ]
}

/// Build an override from the row indices, in the order of the rows. Every row on
/// "Global" yields the all-`None` override, which the daemon treats as "cleared".
pub fn override_from_indices(indices: [u32; 7]) -> (r: ConversationPersonalityView)
    ensures
        forall|i: int| 0 <= i < 7 ==> #[trigger] levels_of(r)[i] == level_at(indices@[i] as int),
{
    ConversationPersonalityView {
        professionalism: level_from_index(indices[0]),
        warmth: level_from_index(indices[1]),
        directness: level_from_index(indices[2]),
        enthusiasm: level_from_index(indices[3]),
        humor: level_from_index(indices[4]),
        sarcasm: level_from_index(indices[5]),
        pretentiousness: level_from_index(indices[6]),
    }
}

/// Inverse of [`override_from_indices`]: the row indices of a stored override, so
/// the dialog pre-fills. A missing override pre-fills every row to "Global".
pub fn indices_from_override(over: Option<&ConversationPersonalityView>) -> (r: [u32; 7])
    ensures
        over is None ==> forall|i: int| 0 <= i < 7 ==> #[trigger] r@[i] == 0,
        over is Some ==> forall|i: int|
            0 <= i < 7 ==> #[trigger] r@[i] <= 5 && level_at(r@[i] as int) == levels_of(
                *over->0,
            )[i],
{
    match over {
        Some(over) => [
            index_from_level(over.professionalism),
            index_from_level(over.warmth),
            index_from_level(over.directness),
            index_from_level(over.enthusiasm),
            index_from_level(over.humor),
            index_from_level(over.sarcasm),
            index_from_level(over.pretentiousness),
        ],
        None => [0, 0, 0, 0, 0, 0, 0],
    }
}

/// A dialog that is opened and saved unchanged stores what was stored: what the
/// rows pre-fill with reads back as the same override, and no override as the
/// cleared one.
pub proof fn law_prefill_reads_back(
    over: Option<ConversationPersonalityView>,
    indices: Seq<u32>,
    saved: ConversationPersonalityView,
)
    requires
        indices.len() == 7,
        over is None ==> forall|i: int| 0 <= i < 7 ==> #[trigger] indices[i] == 0,
        over is Some ==> forall|i: int|
            0 <= i < 7 ==> level_at(#[trigger] indices[i] as int) == levels_of(over->0)[i],
        forall|i: int|
            0 <= i < 7 ==> #[trigger] levels_of(saved)[i] == level_at(indices[i] as int),
    ensures
        over is Some ==> saved == over->0,
        over is None ==> forall|i: int| 0 <= i < 7 ==> #[trigger] levels_of(saved)[i] is None,
{
    let s = levels_of(saved);
    assert(s[0] == level_at(indices[0] as int));
    assert(s[1] == level_at(indices[1] as int));
    assert(s[2] == level_at(indices[2] as int));
    assert(s[3] == level_at(indices[3] as int));
    assert(s[4] == level_at(indices[4] as int));
    assert(s[5] == level_at(indices[5] as int));
    assert(s[6] == level_at(indices[6] as int));
}

/// Each position of a row stands for one level, the first for none of its own, and reads
/// back.
pub proof fn law_personality_positions(
    index: u32,
    r: Option<PersonalityLevel>,
    back: u32,
)
    requires
        call_ensures(level_from_index, (index,), r),
        call_ensures(index_from_level, (r,), back),
    ensures
        r == Some(PersonalityLevel::Never) <==> index == 1,
        r == Some(PersonalityLevel::Rarely) <==> index == 2,
        r == Some(PersonalityLevel::Sometimes) <==> index == 3,
        r == Some(PersonalityLevel::Often) <==> index == 4,
        r == Some(PersonalityLevel::Always) <==> index == 5,
        r is None <==> index == 0 || index > 5,
        index <= 5 ==> back == index,
{
}

/// Each row sets its own trait.
pub proof fn law_each_row_sets_its_trait(indices: [u32; 7], r: ConversationPersonalityView)
    requires
        call_ensures(override_from_indices, (indices,), r),
    ensures
        r.professionalism == level_at(indices@[0] as int),
        r.warmth == level_at(indices@[1] as int),
        r.directness == level_at(indices@[2] as int),
        r.enthusiasm == level_at(indices@[3] as int),
        r.humor == level_at(indices@[4] as int),
        r.sarcasm == level_at(indices@[5] as int),
        r.pretentiousness == level_at(indices@[6] as int),
        (forall|i: int| 0 <= i < 7 ==> #[trigger] indices@[i] == 0) ==> r.professionalism is None
            && r.warmth is None && r.directness is None && r.enthusiasm is None && r.humor is None
            && r.sarcasm is None && r.pretentiousness is None,
{
    assert(levels_of(r)[0] == r.professionalism);
    assert(levels_of(r)[1] == r.warmth);
    assert(levels_of(r)[2] == r.directness);
    assert(levels_of(r)[3] == r.enthusiasm);
    assert(levels_of(r)[4] == r.humor);
    assert(levels_of(r)[5] == r.sarcasm);
    assert(levels_of(r)[6] == r.pretentiousness);
}

/// Opening the dialog and saving it at once saves what was stored, and nothing where
/// nothing was.
pub proof fn law_saving_unchanged_keeps_the_personality(
    over: ConversationPersonalityView,
    indices: [u32; 7],
    saved: ConversationPersonalityView,
    blank: [u32; 7],
    cleared: ConversationPersonalityView,
)
    requires
        call_ensures(indices_from_override, (Some(&over),), indices),
        call_ensures(override_from_indices, (indices,), saved),
        call_ensures(indices_from_override, (None,), blank),
        call_ensures(override_from_indices, (blank,), cleared),
    ensures
        saved == over,
        cleared.professionalism is None && cleared.warmth is None && cleared.directness is None,
        cleared.enthusiasm is None && cleared.humor is None && cleared.sarcasm is None,
        cleared.pretentiousness is None,
{
    law_each_row_sets_its_trait(indices, saved);
    law_each_row_sets_its_trait(blank, cleared);
    assert(levels_of(over)[0] == over.professionalism);
    assert(levels_of(over)[1] == over.warmth);
    assert(levels_of(over)[2] == over.directness);
    assert(levels_of(over)[3] == over.enthusiasm);
    assert(levels_of(over)[4] == over.humor);
    assert(levels_of(over)[5] == over.sarcasm);
    assert(levels_of(over)[6] == over.pretentiousness);
    assert(indices@[0] <= 5 && indices@[1] <= 5 && indices@[2] <= 5 && indices@[3] <= 5
        && indices@[4] <= 5 && indices@[5] <= 5 && indices@[6] <= 5);
    assert(blank@[0] == 0 && blank@[1] == 0 && blank@[2] == 0 && blank@[3] == 0 && blank@[4] == 0
        && blank@[5] == 0 && blank@[6] == 0);
}

} // verus!
