//! Labels and the keywords that carry them.

use yandex_mail::labels::{encode_label, user_label, Flag};

#[test]
fn label_codec_matches_email_cli() {
    let encoded = encode_label("с_хуями").unwrap();
    assert_eq!(encoded, "emailcli-0YFf0YXRg9GP0LzQuA");
    assert_eq!(
        user_label(Flag::Custom(encoded)).as_deref(),
        Some("с_хуями")
    );
    assert_eq!(user_label(Flag::Custom("system_hamon".into())), None);
}

#[test]
fn yandex_label_names_follow_the_visible_limit() {
    assert!(encode_label("123456789012345").is_ok());
    assert!(encode_label("1234567890123456").is_err());
}

#[test]
fn labels_are_counted_in_characters() {
    assert!(encode_label("пятнадцатьбуквы").is_ok());
    assert!(encode_label("шестнадцатьбуквы").is_err());
}

#[test]
fn plain_labels_are_keywords_as_they_are() {
    assert_eq!(encode_label("a_b.c$d-9").unwrap(), "a_b.c$d-9");
    assert_eq!(encode_label("  work\t").unwrap(), "work");
}

#[test]
fn texts_that_cannot_be_labels_are_refused() {
    let message = "Название метки должно содержать от 1 до 15 символов";
    assert_eq!(encode_label("").unwrap_err(), message);
    assert_eq!(encode_label(" \u{2003} ").unwrap_err(), message);
    assert_eq!(encode_label("a\nb").unwrap_err(), message);
    assert_eq!(encode_label("a\rb").unwrap_err(), message);
}

#[test]
fn labels_read_back_without_outer_space() {
    for label in ["важное", "two words", " ё ", "a/b", "🙂"] {
        let keyword = encode_label(label).unwrap();
        assert_eq!(
            user_label(Flag::Custom(keyword)).as_deref(),
            Some(label.trim())
        );
    }
}

#[test]
fn keywords_are_made_of_plain_characters() {
    for label in ["a b", "x)y", "\"q\"", "ключ", "{3}"] {
        let keyword = encode_label(label).unwrap();
        assert!(keyword
            .chars()
            .all(|c| c.is_ascii_alphanumeric() || "_.$-".contains(c)));
    }
}

#[test]
fn internal_keywords_are_no_labels() {
    for raw in [
        "encrypted",
        "system_",
        "$Junk",
        "$NotJunk",
        "Junk",
        "NotJunk",
        "JunkRecorded",
        "$Forwarded",
    ] {
        assert_eq!(user_label(Flag::Custom(raw.into())), None);
    }
    assert_eq!(
        user_label(Flag::Custom("junk".into())).as_deref(),
        Some("junk")
    );
}

#[test]
fn reserved_labels_do_not_read_back() {
    assert_eq!(encode_label("Junk").unwrap(), "Junk");
    assert_eq!(user_label(Flag::Custom("Junk".into())), None);
    assert_eq!(encode_label("emailcli-*").is_ok(), true);
    assert_eq!(encode_label("emailcli-0L8").unwrap(), "emailcli-0L8");
    assert_eq!(
        user_label(Flag::Custom("emailcli-0L8".into())).as_deref(),
        Some("п")
    );
}

#[test]
fn damaged_keywords_are_no_labels() {
    assert_eq!(user_label(Flag::Custom("emailcli-***".into())), None);
    assert_eq!(user_label(Flag::Custom("emailcli-_w".into())), None);
}

#[test]
fn system_flags_are_no_labels() {
    for flag in [
        Flag::Seen,
        Flag::Answered,
        Flag::Flagged,
        Flag::Deleted,
        Flag::Draft,
        Flag::Recent,
        Flag::MayCreate,
    ] {
        assert_eq!(user_label(flag), None);
    }
}
