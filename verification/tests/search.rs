//! Searches on the server.

use yandex_mail::labels::encode_label;
use yandex_mail::search::{message_search, quote};

#[test]
fn search_uses_indexable_mail_fields_without_downloading_messages() {
    assert_eq!(
        message_search(None, Some("чек")).unwrap(),
        "CHARSET UTF-8 OR FROM \"чек\" OR TO \"чек\" OR CC \"чек\" OR BCC \"чек\" OR SUBJECT \"чек\" BODY \"чек\""
    );
    assert_eq!(
        message_search(Some("важное"), Some("a\\\"b")).unwrap(),
        format!(
            "KEYWORD {} OR FROM \"a\\\\\\\"b\" OR TO \"a\\\\\\\"b\" OR CC \"a\\\\\\\"b\" OR BCC \"a\\\\\\\"b\" OR SUBJECT \"a\\\\\\\"b\" BODY \"a\\\\\\\"b\"",
            encode_label("важное").unwrap()
        )
    );
}

#[test]
fn nothing_asked_for_is_everything() {
    assert_eq!(message_search(None, None).unwrap(), "ALL");
    assert_eq!(message_search(Some(""), Some("  ")).unwrap(), "ALL");
    assert_eq!(message_search(None, Some(" \n ")).unwrap(), "ALL");
}

#[test]
fn a_label_alone_is_a_keyword_search() {
    assert_eq!(message_search(Some("work"), None).unwrap(), "KEYWORD work");
    assert_eq!(
        message_search(Some("work"), Some("\u{a0}")).unwrap(),
        "CHARSET UTF-8 KEYWORD work"
    );
}

#[test]
fn the_query_is_trimmed() {
    assert_eq!(
        message_search(None, Some("  bill ")).unwrap(),
        message_search(None, Some("bill")).unwrap()
    );
}

#[test]
fn searches_that_cannot_be_sent_are_refused() {
    assert_eq!(
        message_search(None, Some("a\r\nb")).unwrap_err(),
        "Некорректный поисковый запрос"
    );
    assert_eq!(
        message_search(Some("1234567890123456"), Some("a\nb")).unwrap_err(),
        "Название метки должно содержать от 1 до 15 символов"
    );
    assert!(message_search(Some(" "), None).is_err());
}

#[test]
fn searches_are_one_line() {
    let search = message_search(Some("два слова"), Some("\"\\ x")).unwrap();
    assert!(!search.contains(['\r', '\n']));
}

#[test]
fn quotes_and_backslashes_are_escaped() {
    assert_eq!(quote("a\"b\\c"), "\"a\\\"b\\\\c\"");
    assert_eq!(quote(""), "\"\"");
}
