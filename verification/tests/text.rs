use adele_gtk::text::{
    all_slug_chars, chars_of, comes_before, copy_texts, decimal_text, is_among, join, opt,
    or_empty, same_text, split_items, trim, white_space, Cut,
};

fn samples() -> Vec<&'static str> {
    vec![
        "",
        " ",
        "a",
        "  a  ",
        "\u{3000}wide\u{2003}",
        "a\u{a0}b",
        "\u{200b}zero width\u{200b}",
        "tab\tin\tside",
        "\n\r\nlines\n",
        "äöü ß",
        "z",
        "Z",
        "zz",
        "\u{10ffff}",
        "\u{85}next line\u{85}",
        "e\u{301}",
    ]
}

#[test]
fn white_space_is_what_the_language_calls_white_space() {
    for n in 0..=0x10_ffff_u32 {
        if let Some(c) = char::from_u32(n) {
            assert_eq!(white_space(c), c.is_whitespace(), "{n:#x}");
        }
    }
}

#[test]
fn trimming_takes_white_space_off_both_ends() {
    for s in samples() {
        assert_eq!(trim(s), s.trim());
    }
}

#[test]
fn texts_are_ordered_as_the_language_orders_them() {
    for a in samples() {
        for b in samples() {
            assert_eq!(comes_before(a, b), a < b, "{a:?} {b:?}");
            assert_eq!(same_text(a, b), a == b);
        }
    }
}

#[test]
fn characters_come_out_in_order() {
    for s in samples() {
        assert_eq!(chars_of(s), s.chars().collect::<Vec<char>>());
    }
}

#[test]
fn numbers_are_written_in_decimal() {
    for n in [0, 7, 10, 99, 100, 1_000_000, u64::MAX] {
        assert_eq!(decimal_text(n), n.to_string());
    }
}

#[test]
fn parts_are_joined_with_a_separator_between_them() {
    assert_eq!(join(&Vec::new(), ", "), "");
    assert_eq!(join(&vec!["a".to_string()], ", "), "a");
    assert_eq!(
        join(
            &vec!["a".to_string(), "".to_string(), "b".to_string()],
            ", "
        ),
        "a, , b"
    );
}

#[test]
fn splitting_undoes_joining_of_words() {
    let words = vec![
        "serve".to_string(),
        "--root".to_string(),
        "/data".to_string(),
    ];
    assert_eq!(split_items(&join(&words, " "), Cut::Words), words);
    assert_eq!(split_items(&join(&words, ", "), Cut::List), words);
    assert_eq!(split_items(&join(&words, "\n"), Cut::Lines), words);
}

#[test]
fn lines_are_cut_at_line_ends_only() {
    assert_eq!(
        split_items("a b\r\n\n  c,d  \n", Cut::Lines),
        vec!["a b", "c,d"]
    );
}

#[test]
fn a_slug_has_letters_digits_hyphens_and_underscores() {
    for good in ["ok-name_1", "A", "0", ""] {
        assert!(all_slug_chars(good), "{good:?}");
    }
    for bad in ["a b", "ä", "a.b", "a/b"] {
        assert!(!all_slug_chars(bad), "{bad:?}");
    }
}

#[test]
fn a_field_is_filled_when_something_is_left_after_trimming() {
    assert_eq!(opt("  x "), Some("x".to_string()));
    assert_eq!(opt(" \t"), None);
    assert_eq!(or_empty(&Some("x".to_string())), "x");
    assert_eq!(or_empty(&None), "");
}

#[test]
fn a_name_is_looked_up_exactly() {
    let names = vec!["a".to_string(), "b".to_string()];
    assert!(is_among("b", &names));
    assert!(!is_among("B", &names));
    assert_eq!(copy_texts(&names), names);
}
