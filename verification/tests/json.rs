use adele_gtk::json::{quote, quote_list};

#[test]
fn a_text_is_quoted_and_escaped() {
    assert_eq!(quote(""), "\"\"");
    assert_eq!(quote("plain"), "\"plain\"");
    assert_eq!(quote("say \"hi\" \\ /"), r#""say \"hi\" \\ /""#);
    assert_eq!(quote("\u{8}\t\n\u{c}\r"), r#""\b\t\n\f\r""#);
    assert_eq!(quote("\u{0}\u{1f}\u{7f}"), "\"\\u0000\\u001f\u{7f}\"");
    assert_eq!(quote("äöü \u{1f600}"), "\"äöü \u{1f600}\"");
}

#[test]
fn quoted_texts_read_back_as_they_were() {
    for n in (0..0x300_u32).chain([0x2028, 0x2029, 0xfeff, 0x1_0000, 0x10_ffff]) {
        let text = char::from_u32(n).unwrap().to_string();
        let read: String = serde_json::from_str(&quote(&text)).unwrap();
        assert_eq!(read, text, "{n:#x}");
    }
}

#[test]
fn a_list_is_separated_by_commas() {
    assert_eq!(quote_list(&Vec::new()), "");
    assert_eq!(quote_list(&vec!["a".to_string()]), "\"a\"");
    assert_eq!(
        quote_list(&vec!["a".to_string(), "b\"".to_string()]),
        r#""a","b\"""#
    );
}
