use generate_assets::text::{
    chars_of, has_prefix, has_suffix, remove_char, same_text, space, text_of, trim,
};

#[test]
fn characters_and_back() {
    assert_eq!(chars_of("h\u{e9}y"), vec!['h', '\u{e9}', 'y']);
    assert_eq!(text_of(&vec!['h', '\u{e9}', 'y']), "h\u{e9}y");
    assert_eq!(text_of(&chars_of("")), "");
}

#[test]
fn white_space_is_what_std_calls_white_space() {
    let mut n: u32 = 0;
    while n <= 0x10FFFF {
        if let Some(c) = char::from_u32(n) {
            assert_eq!(space(c), c.is_whitespace(), "U+{:04X}", n);
        }
        n += 1;
    }
}

#[test]
fn trim_takes_white_space_off_both_ends() {
    assert_eq!(text_of(&trim(&chars_of("  a b\t\n"))), "a b");
    assert_eq!(text_of(&trim(&chars_of("\u{2003}x\u{a0}"))), "x");
    assert_eq!(text_of(&trim(&chars_of(" \n "))), "");
    assert_eq!(text_of(&trim(&chars_of(""))), "");
    assert_eq!(text_of(&trim(&chars_of("abc"))), "abc");
}

#[test]
fn remove_char_takes_every_occurrence_out() {
    assert_eq!(text_of(&remove_char(&chars_of("^1.^2^"), '^')), "1.2");
    assert_eq!(text_of(&remove_char(&chars_of("abc"), '^')), "abc");
    assert_eq!(text_of(&remove_char(&chars_of("^^"), '^')), "");
}

#[test]
fn prefixes_and_suffixes() {
    assert!(has_prefix(&chars_of("bevy_egui"), &chars_of("bevy")));
    assert!(has_prefix(&chars_of("bevy"), &chars_of("bevy")));
    assert!(has_prefix(&chars_of("x"), &chars_of("")));
    assert!(!has_prefix(&chars_of("bev"), &chars_of("bevy")));
    assert!(!has_prefix(&chars_of("a_bevy"), &chars_of("bevy")));
    assert!(has_suffix(&chars_of("a.toml"), &chars_of(".toml")));
    assert!(has_suffix(&chars_of(".toml"), &chars_of(".toml")));
    assert!(!has_suffix(&chars_of("a.tom"), &chars_of(".toml")));
    assert!(!has_suffix(&chars_of("a.toml.bak"), &chars_of(".toml")));
}

#[test]
fn same_text_compares_characters() {
    assert!(same_text("main", "main"));
    assert!(!same_text("main", "Main"));
    assert!(!same_text("main", "mai"));
    assert!(same_text("", ""));
}
