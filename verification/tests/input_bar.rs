use adele_gtk::api::{AdeleOutput, VoiceState};
use adele_gtk::input_bar::{
    adele_output_from_index, adele_output_index, mic_icons_for, mic_tooltip_for,
    voice_in_from_index, voice_in_index, ADELE_OUTPUT_OPTIONS, MIC_IDLE_ICONS,
    MIC_LISTENING_ICONS, MIC_PROCESSING_ICONS, MIC_SPEAKING_ICONS, VOICE_IN_OPTIONS,
};

#[test]
fn tooltip_offers_barge_in_only_while_speaking() {
    // Clicking while Speaking stops playback, so the
    // tooltip reads "Stop speaking"; every other state invites talking.
    assert_eq!(mic_tooltip_for(VoiceState::Speaking), "Stop speaking");
    assert_eq!(mic_tooltip_for(VoiceState::Idle), "Push to talk");
    assert_eq!(
        mic_tooltip_for(VoiceState::Listening),
        "Push to talk — Listening…"
    );
    assert_eq!(
        mic_tooltip_for(VoiceState::Processing),
        "Push to talk — Processing…"
    );
}

#[test]
fn each_state_maps_to_a_distinct_primary_icon() {
    // The first entry in each chain is the preferred glyph; they must differ
    // per state so the button visibly tracks the pipeline.
    assert_eq!(mic_icons_for(VoiceState::Idle)[0], MIC_IDLE_ICONS[0]);
    assert_eq!(
        mic_icons_for(VoiceState::Listening)[0],
        MIC_LISTENING_ICONS[0]
    );
    assert_eq!(
        mic_icons_for(VoiceState::Processing)[0],
        MIC_PROCESSING_ICONS[0]
    );
    assert_eq!(
        mic_icons_for(VoiceState::Speaking)[0],
        MIC_SPEAKING_ICONS[0]
    );
    // No chain is empty (an empty `from_names` would render nothing).
    for state in [
        VoiceState::Idle,
        VoiceState::Listening,
        VoiceState::Processing,
        VoiceState::Speaking,
    ] {
        assert!(!mic_icons_for(state).is_empty());
    }
}

/// The `You:` dropdown index round-trips the voice-input bool —
/// index 0 == Disabled, index 1 == Enabled — and an out-of-range index
/// decodes to the safe Disabled default (no capture offered).
#[test]
fn voice_in_index_round_trips_and_defaults_disabled() {
    assert_eq!(voice_in_index(false), 0);
    assert_eq!(voice_in_index(true), 1);
    assert!(!voice_in_from_index(0));
    assert!(voice_in_from_index(1));
    // Out-of-range → Disabled (the safe default).
    assert!(!voice_in_from_index(99));
    // The labels exist and match the indices.
    assert_eq!(VOICE_IN_OPTIONS[0], "Disabled");
    assert_eq!(VOICE_IN_OPTIONS[1], "Enabled");
}

/// The `Adele:` dropdown index round-trips every output level,
/// matching the label order, and an out-of-range index decodes to the safe
/// Disabled default (never speaks).
#[test]
fn adele_output_index_round_trips_and_defaults_disabled() {
    for level in [
        AdeleOutput::Disabled,
        AdeleOutput::OnDemand,
        AdeleOutput::Always,
    ] {
        assert_eq!(adele_output_from_index(adele_output_index(level)), level);
    }
    assert_eq!(adele_output_index(AdeleOutput::Disabled), 0);
    assert_eq!(adele_output_index(AdeleOutput::OnDemand), 1);
    assert_eq!(adele_output_index(AdeleOutput::Always), 2);
    // Out-of-range → Disabled (the safe default).
    assert_eq!(adele_output_from_index(99), AdeleOutput::Disabled);
    // The labels exist and match the indices.
    assert_eq!(ADELE_OUTPUT_OPTIONS[0], "Disabled");
    assert_eq!(ADELE_OUTPUT_OPTIONS[1], "On Demand");
    assert_eq!(ADELE_OUTPUT_OPTIONS[2], "Always");
}
