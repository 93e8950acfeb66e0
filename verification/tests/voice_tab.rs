use adele_gtk::api::VoiceInfo;
use adele_gtk::voice_tab::display_label;

fn voice(id: &str, name: &str, lang: &str, speakers: u32) -> VoiceInfo {
    VoiceInfo {
        id: id.to_string(),
        display_name: name.to_string(),
        language: lang.to_string(),
        num_speakers: speakers,
    }
}

#[test]
fn label_combines_name_and_language() {
    assert_eq!(
        display_label(&voice("en_US-amy", "Amy", "en_US", 1)),
        "Amy (en_US)"
    );
}

#[test]
fn label_falls_back_to_id_when_name_empty() {
    assert_eq!(
        display_label(&voice("en_US-amy", "", "en_US", 1)),
        "en_US-amy (en_US)"
    );
}

#[test]
fn label_omits_empty_language() {
    assert_eq!(display_label(&voice("custom", "Custom", "", 2)), "Custom");
}
