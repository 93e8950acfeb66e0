use adele_gtk::api::{AdeleOutput, VoiceInfo, VoiceState};
use adele_gtk::general_tab::GeneralTab;
use adele_gtk::input_bar::{InputBar, MicClick};
use adele_gtk::voice_tab::VoiceTab;

fn voices() -> Vec<VoiceInfo> {
    ["amy", "bob", "cat"]
        .iter()
        .map(|id| VoiceInfo {
            id: id.to_string(),
            display_name: String::new(),
            language: String::new(),
            num_speakers: 1,
        })
        .collect()
}

#[test]
fn sharing_is_on_by_default_and_only_changes_are_saved() {
    let mut tab = GeneralTab::new();
    assert!(tab.share_client_context);
    tab.set_share_client_context(false);
    assert_eq!(tab.toggled(false), None);
    assert_eq!(tab.toggled(true), Some(true));
    assert_eq!(tab.toggled(true), None);
}

#[test]
fn the_current_voice_is_selected_and_not_written_back() {
    let mut tab = VoiceTab::new();
    tab.set_voices(&voices(), Some("bob"));
    assert_eq!(tab.selected, Some(1));
    assert_eq!(tab.voice_selected(1), None);
    assert_eq!(tab.voice_selected(2), Some("cat".to_string()));
    assert_eq!(tab.voice_selected(9), None);
    assert_eq!(tab.selected, Some(2));

    tab.set_voices(&voices(), Some("nobody"));
    assert_eq!(tab.selected, Some(0));
    tab.set_voices(&voices(), None);
    assert_eq!(tab.selected, Some(0));
}

#[test]
fn a_daemon_without_voices_says_what_to_do() {
    let mut tab = VoiceTab::new();
    tab.set_voices(&Vec::new(), Some("bob"));
    assert_eq!(tab.selected, None);
    assert!(!tab.voices_sensitive);
    assert_eq!(
        tab.status,
        "No voices installed. Run the voice daemon's setup to provision a voice model."
    );
}

#[test]
fn an_absent_voice_daemon_disables_the_controls() {
    let mut tab = VoiceTab::new();
    tab.set_enabled_state(true);
    tab.set_unavailable();
    assert!(!tab.enabled && !tab.enable_sensitive && !tab.voices_sensitive);
    assert_eq!(
        tab.status,
        "Voice service not available. Start the voice daemon (org.desktopAssistant.Voice) to enable these controls."
    );
    assert_eq!(tab.enabled_toggled(false), None);
    tab.set_available();
    assert!(tab.enable_sensitive && tab.voices_sensitive);
    assert_eq!(tab.status, "");
    assert_eq!(tab.enabled_toggled(true), Some(true));
}

#[test]
fn the_microphone_shows_only_where_there_is_something_to_capture_with() {
    let mut bar = InputBar::new();
    assert!(!bar.mic_visible());
    assert_eq!(bar.voice_in_selected(1), Some(true));
    assert!(!bar.mic_visible());
    bar.set_voice_available(true);
    assert!(bar.mic_visible());
    assert_eq!(bar.set_voice_in_active(false), 0);
    assert!(!bar.mic_visible());
    assert_eq!(bar.set_voice_in_active(true), 1);
    assert!(bar.mic_visible());
    assert_eq!(bar.voice_in_selected(1), None);
    assert_eq!(bar.voice_in_selected(9), Some(false));
}

#[test]
fn a_click_barges_in_only_while_speaking() {
    let mut bar = InputBar::new();
    assert_eq!(bar.click(), MicClick::StartTurn);
    assert!(bar.reflect_voice_state(VoiceState::Speaking));
    assert_eq!(bar.click(), MicClick::StopSpeaking);
    assert_eq!(bar.current_state(), VoiceState::Speaking);
    assert!(!bar.reflect_voice_state(VoiceState::Idle));
    assert_eq!(bar.click(), MicClick::StartTurn);
}

#[test]
fn the_output_level_follows_its_position() {
    let mut bar = InputBar::new();
    assert_eq!(bar.adele_output_selected(2), Some(AdeleOutput::Always));
    assert_eq!(bar.adele_output, AdeleOutput::Always);
    assert_eq!(bar.set_adele_output_active(AdeleOutput::OnDemand), 1);
    assert_eq!(bar.adele_output_selected(1), None);
    assert_eq!(bar.adele_output_selected(5), Some(AdeleOutput::Disabled));
    assert_eq!(bar.adele_output_selected(0), None);
}
