//! Texts.

use yandex_mail::text::{
    contains, cut_after_last, cut_line_end, join, not_after, replace, same_ignoring_case,
    starts_with, to_decimal, trim, white_space,
};

#[test]
fn white_space_is_that_of_unicode() {
    for n in 0..=0x10ffff_u32 {
        if let Some(c) = char::from_u32(n) {
            assert_eq!(white_space(c), c.is_whitespace(), "{n:x}");
        }
    }
}

#[test]
fn trimming_takes_both_ends() {
    for text in ["", " ", "a", " a ", "\t\u{3000}а б\n", "a\u{200b}"] {
        assert_eq!(trim(text), text.trim());
        assert_eq!(trim(trim(text)), trim(text));
    }
}

#[test]
fn line_ends_are_cut() {
    assert_eq!(cut_line_end("secret\r\n"), "secret");
    assert_eq!(cut_line_end("secret \n\r\n"), "secret ");
    assert_eq!(cut_line_end("a\nb"), "a\nb");
    assert_eq!(cut_line_end("\n\n"), "");
}

#[test]
fn texts_are_found_in_texts() {
    for (hay, needle) in [("abc", "bc"), ("abc", "x"), ("", ""), ("a", ""), ("aab", "ab")] {
        assert_eq!(contains(hay, needle), hay.contains(needle));
        assert_eq!(starts_with(hay, needle), hay.starts_with(needle));
    }
}

#[test]
fn the_tail_is_behind_the_last_delimiter() {
    for (text, delimiter) in [
        ("a/b/c", "/"),
        ("a", "/"),
        ("a/", "/"),
        ("a|b", "|"),
        ("a::b::c", "::"),
        ("abc", ""),
        ("", "/"),
    ] {
        assert_eq!(
            cut_after_last(text, delimiter),
            text.rsplit(delimiter).next().unwrap()
        );
    }
}

#[test]
fn numbers_are_written_in_decimal() {
    for n in [0, 7, 10, 99, 100, 4294967295, u64::MAX] {
        assert_eq!(to_decimal(n), n.to_string());
    }
}

#[test]
fn case_is_ignored_for_ascii_only() {
    assert!(same_ignoring_case("FileName", "filename"));
    assert!(!same_ignoring_case("Ф", "ф"));
    assert!(!same_ignoring_case("name", "names"));
}

#[test]
fn texts_are_ordered_by_characters() {
    for (a, b) in [("a", "b"), ("b", "a"), ("a", "aa"), ("", ""), ("я", "a"), ("ё", "я")] {
        assert_eq!(not_after(a, b), a <= b);
    }
}

#[test]
fn texts_are_joined_and_replaced() {
    assert_eq!(join(&vec!["a".to_string(), "b".to_string()], ", "), "a, b");
    assert_eq!(join(&Vec::new(), ", "), "");
    assert_eq!(replace("a.b.", '.', "--"), "a--b--");
}
