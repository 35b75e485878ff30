//! Texts and their characters.
use nsticky::text::{trim, words};

#[test]
fn white_space_is_what_unicode_says() {
    for c in '\0'..=char::MAX {
        let text = c.to_string();
        assert_eq!(trim(&text).is_empty(), c.is_whitespace(), "{c:?}");
    }
}

#[test]
fn texts_are_trimmed_and_split_at_white_space() {
    assert_eq!(trim("\u{a0}\t 7 windows\u{3000}\n"), "7 windows");
    assert_eq!(trim("\u{200b}x"), "\u{200b}x");
    assert_eq!(words(" one\u{2003}two\u{85}three "), ["one", "two", "three"]);
    assert!(words(" \n ").is_empty());
}
