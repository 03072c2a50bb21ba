//! The cache.

use std::collections::HashSet;
use yandex_mail::cache::{
    detail_file, details_directory, folders_file, get_cached_messages, labels_file, page_file,
    purge, read_detail, read_detail_at, read_folders, read_page, root, scope, write_detail,
    write_folders, write_page, CachedDetail, CachedPage, CACHE_VERSION,
};
use yandex_mail::label_list::{
    create_label, delete_label, list_labels, read_labels, rename_label, write_labels,
};
use yandex_mail::model::{Folder, Label, MessageDetail, MessagePage, MessageSummary};
use yandex_mail::pages::{
    delete_message_label, detail_files, rename_message_label, search_messages, update_messages,
};

fn summary(uid: u32, subject: &str, labels: &[&str]) -> MessageSummary {
    MessageSummary {
        uid,
        subject: subject.into(),
        from_name: String::new(),
        from_address: "sender@example.com".into(),
        date: 0,
        seen: false,
        flagged: false,
        labels: labels.iter().map(|label| label.to_string()).collect(),
        size: 10,
        has_attachments: false,
    }
}

fn detail(summary: MessageSummary, text: Option<&str>, html: Option<&str>) -> MessageDetail {
    MessageDetail {
        summary,
        to: "receiver@example.com".into(),
        body_text: text.map(str::to_string),
        body_html: html.map(str::to_string),
        attachments: Vec::new(),
    }
}

fn page(version: u8, uid_validity: Option<u32>, items: Vec<MessageSummary>) -> CachedPage {
    CachedPage {
        version,
        uid_validity,
        uid_next: Some(8),
        page: MessagePage { total: items.len() as u32, unseen: 1, items },
    }
}

fn label(name: &str, count: u32) -> Label {
    Label { name: name.to_string(), count }
}

fn shown(labels: &[Label]) -> Vec<(&str, u32)> {
    labels.iter().map(|label| (label.name.as_str(), label.count)).collect()
}

#[test]
fn empty_labels_can_be_created_renamed_and_deleted() {
    let email = "label-cache-test@example.com";
    let created = create_label(email, None, "новая").unwrap().value;
    assert_eq!(created[0].name, "новая");
    let renamed = rename_label(email, Some(created), "новая", "готово").value;
    assert_eq!(renamed[0].name, "готово");
    assert!(delete_label(email, Some(renamed), "готово").value.is_empty());
}

#[test]
fn rename_repairs_a_partially_created_destination_label() {
    let email = "label-merge-test@example.com";
    let first = create_label(email, None, "старая").unwrap().value;
    let both = create_label(email, Some(first), "новая").unwrap().value;
    let labels = rename_label(email, Some(both), "старая", "новая").value;
    assert_eq!(labels.len(), 1);
    assert_eq!(labels[0].name, "новая");
}

#[test]
fn uid_validity_invalidates_cached_detail() {
    let email = "cache-test@example.com";
    let raw_path = "INBOX";
    let item = || summary(7, "Тест", &[]);
    let stored_page = |validity| {
        write_page(email, raw_path, page(CACHE_VERSION, Some(validity), vec![item()])).value
    };
    let stored = || write_detail(email, raw_path, Some(1), detail(item(), Some("body"), None)).value;
    assert!(read_detail(Some(stored_page(1)), Some(stored())).is_some());
    assert!(read_detail(Some(stored_page(2)), Some(stored())).is_none());
}

#[test]
fn details_need_a_page_of_this_version() {
    let stored = || CachedDetail {
        version: CACHE_VERSION,
        uid_validity: Some(1),
        detail: detail(summary(7, "x", &[]), None, None),
    };
    assert!(read_detail(None, Some(stored())).is_none());
    assert!(read_detail(Some(page(1, Some(1), vec![])), Some(stored())).is_none());
    assert!(read_detail(Some(page(CACHE_VERSION, Some(1), vec![])), None).is_none());
    assert!(read_detail_at(Some(stored()), Some(1)).is_some());
    assert!(read_detail_at(Some(stored()), None).is_none());
    let old = CachedDetail { version: 1, ..stored() };
    assert!(read_detail_at(Some(old), Some(1)).is_none());
}

#[test]
fn pages_of_another_version_are_not_read() {
    assert!(read_page(Some(page(CACHE_VERSION, None, vec![]))).is_some());
    assert!(read_page(Some(page(1, None, vec![]))).is_none());
    assert!(read_page(None).is_none());
    let cached = get_cached_messages(Some(page(CACHE_VERSION, None, vec![summary(3, "x", &[])])));
    assert_eq!(cached.unwrap().items[0].uid, 3);
    assert!(get_cached_messages(None).is_none());
}

#[test]
fn the_cache_has_a_directory_for_each_account() {
    assert_eq!(root("a@b.c"), ["yandex-mail", "YUBiLmM"]);
    assert_eq!(purge("a@b.c"), root("a@b.c"));
    assert_eq!(scope("INBOX"), "SU5CT1g");
    assert_eq!(folders_file("a@b.c"), ["yandex-mail", "YUBiLmM", "folders.json"]);
    assert_eq!(labels_file("a@b.c"), ["yandex-mail", "YUBiLmM", "labels.json"]);
    assert_eq!(
        page_file("a@b.c", "INBOX"),
        ["yandex-mail", "YUBiLmM", "folders", "SU5CT1g.json"]
    );
    assert_eq!(
        details_directory("a@b.c", "INBOX"),
        ["yandex-mail", "YUBiLmM", "details", "SU5CT1g"]
    );
    assert_eq!(
        detail_file("a@b.c", "INBOX", 7),
        ["yandex-mail", "YUBiLmM", "details", "SU5CT1g", "7.json"]
    );
    assert_ne!(root("a@b.c"), root("a@b.d"));
    assert!(!scope("a/b?c~d|ключ").contains(['/', '+', '=']));
}

#[test]
fn folder_lists_are_read_and_written() {
    assert!(read_folders(None).is_empty());
    let folder = Folder {
        name: "n".into(),
        path: "p".into(),
        raw_path: "r".into(),
        special_use: None,
        total: 0,
        unseen: 0,
    };
    let file = write_folders("a@b.c", vec![folder]);
    assert_eq!(file.path, folders_file("a@b.c"));
    assert_eq!(read_folders(Some(file.value))[0].raw_path, "r");
}

#[test]
fn labels_keep_their_order_and_differ() {
    let stored = vec![label("а", 1), label("в", 2)];
    let file = create_label("a@b.c", Some(stored), "б").unwrap();
    assert_eq!(file.path, labels_file("a@b.c"));
    assert_eq!(shown(&file.value), [("а", 1), ("б", 0), ("в", 2)]);
    assert_eq!(
        create_label("a@b.c", Some(file.value), "б").unwrap_err(),
        "Метка с таким названием уже есть"
    );
}

#[test]
fn deleting_a_created_label_gives_the_list_back() {
    let stored = || vec![label("a", 1), label("c", 2)];
    let created = create_label("e", Some(stored()), "b").unwrap().value;
    let deleted = delete_label("e", Some(created), "b").value;
    assert_eq!(shown(&deleted), shown(&stored()));
}

#[test]
fn renaming_moves_counts() {
    let stored = || Some(vec![label("a", 5), label("b", u32::MAX), label("c", 1)]);
    assert_eq!(
        shown(&rename_label("e", stored(), "a", "c").value),
        [("b", u32::MAX), ("c", 6)]
    );
    assert_eq!(
        shown(&rename_label("e", stored(), "a", "b").value),
        [("b", u32::MAX), ("c", 1)]
    );
    assert_eq!(
        shown(&rename_label("e", stored(), "a", "z").value),
        [("b", u32::MAX), ("c", 1), ("z", 5)]
    );
    assert_eq!(
        shown(&rename_label("e", stored(), "missing", "z").value),
        [("a", 5), ("b", u32::MAX), ("c", 1), ("z", 0)]
    );
}

#[test]
fn labels_are_listed_once_each_in_order() {
    let stored = vec![label("b", 1), label("a", 2), label("b", 3)];
    assert_eq!(shown(&list_labels(Some(stored))), [("a", 2), ("b", 3)]);
    assert!(list_labels(None).is_empty());
    let written = write_labels("e", vec![label("b", 1), label("a", 2)]);
    assert_eq!(shown(&read_labels(Some(written.value))), [("b", 1), ("a", 2)]);
}

#[test]
fn cached_pages_follow_actions() {
    let stored = || Some(page(CACHE_VERSION, Some(1), vec![summary(1, "a", &["x"]), summary(2, "b", &[])]));
    let uids: HashSet<u32> = [1, 9].into_iter().collect();
    let update = |action: &str, enabled: Option<bool>, value: Option<&str>| {
        update_messages("e", "INBOX", stored(), &uids, action, enabled, value).unwrap()
    };
    let file = update("move", None, None);
    assert_eq!(file.path, page_file("e", "INBOX"));
    assert_eq!(file.value.page.items.len(), 1);
    assert_eq!(file.value.page.items[0].uid, 2);
    assert_eq!(file.value.page.total, 1);
    let seen = update("seen", Some(true), None).value.page.items;
    assert!(seen[0].seen && !seen[1].seen);
    let flagged = update("flagged", None, None).value.page.items;
    assert!(flagged[0].flagged && !flagged[1].flagged);
    assert!(!update("flagged", Some(false), None).value.page.items[0].flagged);
    assert_eq!(update("label", Some(true), Some("x")).value.page.items[0].labels, ["x"]);
    assert_eq!(update("label", Some(true), Some("y")).value.page.items[0].labels, ["x", "y"]);
    assert!(update("label", Some(false), Some("x")).value.page.items[0].labels.is_empty());
    assert_eq!(update("label", Some(false), None).value.page.items[0].labels, ["x"]);
    assert_eq!(update("other", Some(true), None).value.page.items.len(), 2);
    assert!(update_messages("e", "INBOX", None, &uids, "seen", None, None).is_none());
}

#[test]
fn cached_pages_follow_labels() {
    let stored = || Some(page(CACHE_VERSION, None, vec![summary(1, "a", &["x", "y"]), summary(2, "b", &["z"])]));
    let renamed = rename_message_label("e", "INBOX", stored(), "x", "y").unwrap().value.page.items;
    assert_eq!(renamed[0].labels, ["y"]);
    assert_eq!(renamed[1].labels, ["z"]);
    let moved = rename_message_label("e", "INBOX", stored(), "x", "n").unwrap().value.page.items;
    assert_eq!(moved[0].labels, ["y", "n"]);
    let deleted = delete_message_label("e", "INBOX", stored(), "y").unwrap().value.page.items;
    assert_eq!(deleted[0].labels, ["x"]);
    assert!(rename_message_label("e", "INBOX", None, "x", "y").is_none());
    assert!(delete_message_label("e", "INBOX", None, "x").is_none());
}

#[test]
fn cached_messages_are_searched_by_summary_and_body() {
    let items = || vec![summary(1, "ПРИВЕТ", &[]), summary(2, "b", &[]), summary(3, "c", &[])];
    let stored = || Some(page(CACHE_VERSION, Some(1), items()));
    let body = |uid, validity, text, html| Some(CachedDetail {
        version: CACHE_VERSION,
        uid_validity: validity,
        detail: detail(summary(uid, "", &[]), text, html),
    });
    let details = vec![
        None,
        body(2, Some(1), Some("Слово Привет"), None),
        body(3, Some(2), Some("привет"), None),
    ];
    let uids = |query: &str| {
        search_messages(stored(), &details, query).iter().map(|m| m.uid).collect::<Vec<_>>()
    };
    assert_eq!(uids(" привет "), [1, 2]);
    assert_eq!(uids("SENDER@"), [1, 2, 3]);
    assert!(uids("несуществующая строка").is_empty());
    let rich = vec![None, body(2, Some(1), None, Some("<b>HTML</b>"))];
    assert_eq!(search_messages(stored(), &rich, "html")[0].uid, 2);
    assert!(search_messages(None, &details, "a").is_empty());
}

#[test]
fn bodies_are_looked_up_where_the_summary_does_not_match() {
    let stored = |version| {
        Some(page(version, Some(1), vec![summary(1, "слово", &[]), summary(2, "b", &[])]))
    };
    let paths = detail_files("e", "INBOX", &stored(CACHE_VERSION), " СЛОВО ");
    assert_eq!(paths, [None, Some(detail_file("e", "INBOX", 2))]);
    assert!(detail_files("e", "INBOX", &stored(CACHE_VERSION + 1), "x").is_empty());
    assert!(detail_files("e", "INBOX", &None, "x").is_empty());
}

#[test]
fn bodies_do_not_matter_where_the_summary_matches() {
    let stored = || Some(page(CACHE_VERSION, Some(1), vec![summary(1, "слово", &[])]));
    let body = Some(CachedDetail {
        version: CACHE_VERSION,
        uid_validity: Some(1),
        detail: detail(summary(1, "", &[]), Some("другое"), None),
    });
    assert_eq!(search_messages(stored(), &vec![body], "слово").len(), 1);
    assert_eq!(search_messages(stored(), &vec![None], "слово").len(), 1);
    assert_eq!(search_messages(stored(), &Vec::new(), "слово").len(), 1);
}

#[test]
fn an_action_that_is_repeated_changes_nothing_more() {
    let stored = Some(page(CACHE_VERSION, Some(1), vec![summary(1, "a", &[]), summary(2, "b", &[])]));
    let uids: HashSet<u32> = [1].into_iter().collect();
    let once = update_messages("e", "p", stored, &uids, "label", Some(true), Some("x"));
    let once = once.unwrap().value;
    let twice = update_messages("e", "p", Some(once.clone()), &uids, "label", None, Some("x"));
    let twice = twice.unwrap().value;
    assert_eq!(once.page.items[0].labels, twice.page.items[0].labels);
    assert_eq!(once.page.items[1].labels, twice.page.items[1].labels);
}
