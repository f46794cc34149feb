use waku::rows::{is_blank, is_white_space_char, list_splice, ListSplice};

#[test]
fn blank_text_is_whitespace_only() {
    assert!(is_blank(""));
    assert!(is_blank(" \t\n\r\u{0b}\u{0c}"));
    assert!(is_blank("\u{85}\u{a0}\u{1680}\u{2000}\u{200a}\u{2028}\u{2029}\u{202f}\u{205f}\u{3000}"));
    assert!(!is_blank("  x  "));
    assert!(!is_blank("\u{200b}"));
}

#[test]
fn white_space_matches_std() {
    for c in ['\t', ' ', '\u{85}', '\u{a0}', '\u{3000}', 'a', '\u{200b}', '\u{180e}', '\0'] {
        assert_eq!(is_white_space_char(c), c.is_whitespace());
    }
    for v in 0u32..0x3100 {
        if let Some(c) = char::from_u32(v) {
            assert_eq!(is_white_space_char(c), c.is_whitespace());
            assert_eq!(is_blank(&c.to_string()), c.to_string().trim().is_empty());
        }
    }
}

#[test]
fn list_splice_reaches_the_target_count() {
    assert_eq!(list_splice(3, 3), None);
    assert_eq!(list_splice(2, 5), Some(ListSplice { start: 2, end: 2, insert: 3 }));
    assert_eq!(list_splice(5, 1), Some(ListSplice { start: 1, end: 5, insert: 0 }));
}
