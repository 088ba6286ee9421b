//! Text tables, orders and renderings.

use oxide_batch::text::{
    append_bytes, byte_len, comes_before, concat2, concat3, contains_control, decimal_text,
    is_control, is_space, same_bytes, same_text, starts_with,
};

#[test]
fn character_classes_agree_with_unicode() {
    for code in 0..=0x10ffffu32 {
        if let Some(c) = char::from_u32(code) {
            assert_eq!(is_space(c), c.is_whitespace(), "{code:x}");
            assert_eq!(is_control(c), c.is_control(), "{code:x}");
        }
    }
}

#[test]
fn texts_are_ordered_and_measured_by_their_bytes() {
    let texts = ["", "a", "ab", "b", "\u{e9}", "\u{ffff}", "\u{10000}"];
    for a in texts {
        for b in texts {
            assert_eq!(comes_before(a, b), a < b);
            assert_eq!(same_text(a, b), a == b);
            assert_eq!(starts_with(a, b), a.starts_with(b));
            assert_eq!(same_bytes(a.as_bytes(), b.as_bytes()), a == b);
        }
        assert_eq!(byte_len(a), a.len());
    }
    assert!(contains_control("a\u{7f}b") && !contains_control("a b"));
}

#[test]
fn numbers_and_pieces_are_rendered() {
    for n in [0, 7, 10, 99, 100, 65535, u64::MAX] {
        assert_eq!(decimal_text(n), n.to_string());
    }
    assert_eq!(concat2("a", "b"), "ab");
    assert_eq!(concat3("a", "", "c"), "ac");
    let mut bytes = vec![1];
    append_bytes(&mut bytes, &[2, 3]);
    assert_eq!(bytes, [1, 2, 3]);
}
