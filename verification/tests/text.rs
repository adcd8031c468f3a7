//! Text helpers and thread identifiers.

use agent_collab::text::{
    collapse_white_space, format_decimal, join, starts_with, trim, trim_non_empty, truncate_text,
    white_space,
};
use agent_collab::thread_id::{random_uuid, uuid_to_string, InvalidThreadId, ThreadId};

#[test]
fn white_space_is_what_the_standard_library_says() {
    for code in 0..=0x10ffff_u32 {
        if let Some(c) = char::from_u32(code) {
            assert_eq!(white_space(c), c.is_whitespace(), "{code:x}");
        }
    }
}

#[test]
fn trimming_agrees_with_the_standard_library() {
    for text in ["", " ", "a", " a ", "\u{a0}é b\u{3000}\n", "\t\n\r", "a\u{200b}", "  ß"] {
        assert_eq!(trim(text), text.trim());
        assert_eq!(trim(trim(text)), trim(text));
    }
}

#[test]
fn optional_texts_are_kept_where_something_is_left() {
    assert_eq!(trim_non_empty(None), None);
    assert_eq!(trim_non_empty(Some(" \t")), None);
    assert_eq!(trim_non_empty(Some(" x y ")), Some("x y"));
}

#[test]
fn white_space_collapses_as_words_joined_by_spaces() {
    for text in ["", "  ", "one", " one  two\n\tthree ", "é\u{2003}b", "a \u{85} b"] {
        let expected = text.split_whitespace().collect::<Vec<_>>().join(" ");
        assert_eq!(collapse_white_space(text), expected);
    }
}

#[test]
fn joining_puts_the_separator_between_neighbours() {
    assert_eq!(join(&vec![], ", "), "");
    assert_eq!(join(&vec!["a".to_string()], ", "), "a");
    assert_eq!(
        join(&vec!["a".to_string(), String::new(), "b".to_string()], ", "),
        "a, , b"
    );
}

#[test]
fn prefixes_are_compared_by_characters() {
    assert!(starts_with("team/spawn:x", "team/spawn:"));
    assert!(starts_with("é", "é"));
    assert!(starts_with("a", ""));
    assert!(!starts_with("", "a"));
    assert!(!starts_with("team/spaw", "team/spawn:"));
    assert!(!starts_with("Team/spawn:", "team/spawn:"));
}

#[test]
fn numbers_are_written_in_decimal() {
    for n in [0_usize, 1, 9, 10, 11, 99, 100, 1234567890, usize::MAX] {
        assert_eq!(format_decimal(n), n.to_string());
    }
}

#[test]
fn truncation_counts_grapheme_clusters() {
    assert_eq!(truncate_text("hello", 5), "hello");
    assert_eq!(truncate_text("hello!", 5), "he...");
    assert_eq!(truncate_text("hello", 3), "...");
    assert_eq!(truncate_text("hello", 2), "he");
    assert_eq!(truncate_text("hello", 0), "");
    assert_eq!(truncate_text("", 0), "");
    // Each cluster is a letter with a combining accent.
    let accented = "e\u{301}".repeat(6);
    assert_eq!(truncate_text(&accented, 6), accented);
    assert_eq!(truncate_text(&accented, 5), format!("{}...", "e\u{301}".repeat(2)));
    // A family of people is one cluster, and so is a line break of two characters.
    assert_eq!(truncate_text("👨\u{200d}👩\u{200d}👧ab", 3), "👨\u{200d}👩\u{200d}👧ab");
    assert_eq!(truncate_text("\r\nabc", 4), "\r\nabc");
}

#[test]
fn identifiers_read_back_what_they_write() {
    for value in [0, 1, 0xf, 0x10, u128::MAX, 0x0123_4567_89ab_cdef_0123_4567_89ab_cdef] {
        let id = ThreadId { value };
        assert_eq!(ThreadId::from_string(&id.to_string()), Ok(id));
    }
    assert_eq!(
        ThreadId { value: 0x0123_4567_89ab_cdef_0123_4567_89ab_cdef }.to_string(),
        "01234567-89ab-cdef-0123-456789abcdef"
    );
}

#[test]
fn identifiers_can_be_written_in_several_ways() {
    let id = ThreadId { value: 0x0123_4567_89ab_cdef_0123_4567_89ab_cdef };
    for text in [
        "0123456789abcdef0123456789abcdef",
        "01234567-89AB-CDEF-0123-456789abcdef",
        "{01234567-89ab-cdef-0123-456789abcdef}",
        "urn:uuid:01234567-89ab-cdef-0123-456789ABCDEF",
        "URN:UUID:01234567-89ab-cdef-0123-456789abcdef",
    ] {
        assert_eq!(ThreadId::from_string(text), Ok(id), "{text}");
    }
    for text in [
        "",
        "0123456789abcdef0123456789abcde",
        "0123456789abcdef0123456789abcdeg",
        "01234567-89ab-cdef-0123-456789abcdef ",
        "{0123456789abcdef0123456789abcdef}",
        "01234567_89ab-cdef-0123-456789abcdef",
        "0123456é89abcdef0123456789abcdef",
    ] {
        assert_eq!(ThreadId::from_string(text), Err(InvalidThreadId), "{text}");
    }
}

#[test]
fn the_order_of_texts_is_the_order_of_values() {
    let values = [0_u128, 1, 9, 0xa, 0xff, 0x100, 1 << 64, (1 << 100) + 3, u128::MAX];
    for a in values {
        for b in values {
            let texts = (ThreadId { value: a }.to_string(), ThreadId { value: b }.to_string());
            assert_eq!(texts.0 < texts.1, a < b);
            assert_eq!(texts.0 == texts.1, a == b);
        }
    }
}

#[test]
fn fresh_identifiers_differ_and_carry_their_version() {
    let (a, b) = (ThreadId::new(), ThreadId::new());
    assert_ne!(a, b);
    assert_eq!(a.to_string().as_bytes()[14], b'7');
    let variant = a.to_string().as_bytes()[19];
    assert!(matches!(variant, b'8' | b'9' | b'a' | b'b'));
    let (c, d) = (random_uuid(), random_uuid());
    assert_ne!(c, d);
    assert_eq!(uuid_to_string(c).as_bytes()[14], b'4');
    let variant = uuid_to_string(c).as_bytes()[19];
    assert!(matches!(variant, b'8' | b'9' | b'a' | b'b'));
}
