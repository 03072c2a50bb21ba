//! Lists of messages.

use yandex_mail::cache::{CachedDetail, CachedPage, CACHE_VERSION};
use yandex_mail::labels::Flag;
use yandex_mail::list_session::{list_messages, ListStep, Mailbox};
use yandex_mail::listing::{latest_range, search_cached_messages, summaries_from};
use yandex_mail::message::Fetched;
use yandex_mail::model::{MessageDetail, MessagePage, MessageSummary};

fn summary(uid: u32, date: i64, labels: &[&str], seen: bool) -> MessageSummary {
    MessageSummary {
        uid,
        subject: "чек".into(),
        from_name: String::new(),
        from_address: String::new(),
        date,
        seen,
        flagged: false,
        labels: labels.iter().map(|label| label.to_string()).collect(),
        size: 0,
        has_attachments: false,
    }
}

fn stored(items: Vec<MessageSummary>) -> Option<CachedPage> {
    Some(CachedPage {
        version: CACHE_VERSION,
        uid_validity: Some(1),
        uid_next: None,
        page: MessagePage { total: items.len() as u32, unseen: 0, items },
    })
}

fn fetched(uid: u32, date: i64) -> Option<Fetched> {
    Some(Fetched {
        uid: Some(uid),
        flags: vec![Flag::Seen],
        internal_date: Some(date),
        size: Some(1),
        body_structure: None,
        header: Some(b"Subject: x\r\n\r\n".to_vec()),
        body: None,
    })
}

fn opened(present: u32) -> Result<Mailbox, String> {
    Ok(Mailbox { present, uid_validity: Some(4), uid_next: Some(9) })
}

fn begin(label: Option<&str>, query: Option<&str>, limit: usize, present: u32) -> ListStep {
    let step = list_messages(
        "a@b.c".into(),
        "INBOX".into(),
        limit,
        label.map(str::to_string),
        query.map(str::to_string),
    );
    let ListStep::Status { raw_path, then } = step else { panic!() };
    assert_eq!(raw_path, "INBOX");
    let ListStep::Select { raw_path, then } = then.next(Some(3)) else { panic!() };
    assert_eq!(raw_path, "INBOX");
    then.next(opened(present))
}

#[test]
fn the_last_messages_are_asked_for_by_place() {
    assert_eq!(latest_range(10, 3), "8:10");
    assert_eq!(latest_range(10, 0), "10:10");
    assert_eq!(latest_range(10, 10), "1:10");
    assert_eq!(latest_range(10, 11), "1:10");
    assert_eq!(latest_range(1000, 5000), "901:1000");
    assert_eq!(latest_range(u32::MAX, 1), "4294967295:4294967295");
}

#[test]
fn messages_come_from_the_highest_number_down() {
    let broken = Some(Fetched { header: None, ..fetched(9, 0).unwrap() });
    let nameless = Some(Fetched { uid: None, ..fetched(8, 0).unwrap() });
    let list = summaries_from(&vec![fetched(1, 0), None, broken, fetched(5, 0), nameless, fetched(3, 0)]);
    let uids: Vec<_> = list.iter().map(|m| m.uid).collect();
    assert_eq!(uids, [5, 3, 1]);
}

#[test]
fn stored_messages_are_filtered_counted_and_cut() {
    let items = (1..=70)
        .map(|uid| summary(uid, i64::from(uid % 7), if uid % 2 == 0 { &["x"] } else { &[] }, uid % 3 == 0))
        .collect::<Vec<_>>();
    let page = search_cached_messages(stored(items.clone()), &Vec::new(), None, "чек");
    assert_eq!(page.items.len(), 60);
    assert_eq!(page.total, 60);
    assert_eq!(page.unseen, page.items.iter().filter(|m| !m.seen).count() as u32);
    assert!(page.items.windows(2).all(|pair| pair[0].date >= pair[1].date));
    assert_eq!((page.items[0].uid, page.items[1].uid), (6, 13));
    let labelled = search_cached_messages(stored(items.clone()), &Vec::new(), Some("x".into()), "ЧЕК");
    assert_eq!(labelled.total, 35);
    let unlabelled = search_cached_messages(stored(items), &Vec::new(), Some(String::new()), "");
    assert_eq!(unlabelled.total, 60);
    assert_eq!(search_cached_messages(None, &Vec::new(), None, "x").total, 0);
}

#[test]
fn a_folder_without_a_search_shows_its_last_messages_and_stores_them() {
    let ListStep::FetchPlaces { set, items, then } = begin(None, None, 2, 10) else {
        panic!()
    };
    assert_eq!(set, "9:10");
    assert_eq!(items, "(UID FLAGS INTERNALDATE RFC822.SIZE BODYSTRUCTURE BODY.PEEK[HEADER])");
    let ListStep::Done { page, file } = then.next(Ok(vec![fetched(20, 1), fetched(21, 2)])) else {
        panic!()
    };
    assert_eq!((page.total, page.unseen, page.items[0].uid), (10, 3, 21));
    let file = file.unwrap();
    assert_eq!(file.path, ["yandex-mail", "YUBiLmM", "folders", "SU5CT1g.json"]);
    assert_eq!(file.value.version, 2);
    assert_eq!((file.value.uid_validity, file.value.uid_next), (Some(4), Some(9)));
    assert_eq!(file.value.page.items.len(), 2);
    assert_eq!(file.value.page.items[0].subject, page.items[0].subject);
}

#[test]
fn an_empty_folder_is_shown_without_fetching() {
    let ListStep::Done { page, file } = begin(None, Some("  "), 50, 0) else { panic!() };
    assert!(page.items.is_empty());
    assert_eq!((page.total, page.unseen), (0, 3));
    assert!(file.is_some());
}

#[test]
fn a_search_shows_the_highest_numbers_and_stores_nothing() {
    let ListStep::Search { query, then } = begin(Some("work"), None, 2, 10) else {
        panic!()
    };
    assert_eq!(query, "KEYWORD work");
    let ListStep::SelectAgain { raw_path, then } = then.next(Ok(vec![7, 30, 5])) else {
        panic!()
    };
    assert_eq!(raw_path, "INBOX");
    let ListStep::FetchNumbers { set, items: _, then } = then.next(opened(10)) else {
        panic!()
    };
    assert_eq!(set, "7,30");
    let ListStep::Done { page, file } = then.next(Ok(vec![fetched(7, 0), fetched(30, 0)])) else {
        panic!()
    };
    assert_eq!(page.items.iter().map(|m| m.uid).collect::<Vec<_>>(), [30, 7]);
    assert_eq!(page.total, 3);
    assert!(file.is_none());
}

#[test]
fn a_search_for_a_text_is_completed_from_the_cache() {
    let ListStep::Search { then, .. } = begin(None, Some("чек"), 3, 10) else { panic!() };
    let ListStep::SelectAgain { then, .. } = then.next(Ok(vec![5, 7])) else { panic!() };
    let ListStep::FetchNumbers { then, .. } = then.next(opened(10)) else { panic!() };
    let ListStep::ReadStored { raw_path, then } =
        then.next(Ok(vec![fetched(5, 50), fetched(7, 70)]))
    else {
        panic!()
    };
    assert_eq!(raw_path, "INBOX");
    let cached = stored(vec![
        summary(7, 1, &[], false),
        summary(8, 60, &[], false),
        summary(8, 61, &[], false),
        summary(9, 10, &[], false),
    ]);
    let details: Vec<Option<CachedDetail>> = Vec::new();
    let ListStep::Done { page, file } = then.next(cached, &details) else { panic!() };
    assert_eq!(
        page.items.iter().map(|m| (m.uid, m.date)).collect::<Vec<_>>(),
        [(7, 70), (8, 60), (5, 50)]
    );
    assert_eq!(page.total, 4);
    assert!(file.is_none());
}

#[test]
fn nothing_found_on_the_server_can_be_found_in_the_cache() {
    let ListStep::Search { then, .. } = begin(Some("x"), Some("текст"), 3, 10) else {
        panic!()
    };
    let ListStep::ReadStored { then, .. } = then.next(Ok(Vec::new())) else { panic!() };
    let cached = stored(vec![summary(1, 1, &["x"], false), summary(2, 2, &[], false)]);
    let body = |uid| Some(CachedDetail {
        version: CACHE_VERSION,
        uid_validity: Some(1),
        detail: MessageDetail {
            summary: summary(uid, 0, &[], false),
            to: String::new(),
            body_text: Some("Текст письма".into()),
            body_html: None,
            attachments: Vec::new(),
        },
    });
    let ListStep::Done { page, .. } = then.next(cached, &vec![body(1), body(2)]) else {
        panic!()
    };
    assert_eq!(page.items.iter().map(|m| m.uid).collect::<Vec<_>>(), [1]);
    assert_eq!(page.total, 1);
}

#[test]
fn listing_fails_with_a_reason() {
    let step = list_messages("e".into(), "p".into(), 1, None, None);
    let ListStep::Status { then, .. } = step else { panic!() };
    let ListStep::Select { then, .. } = then.next(None) else { panic!() };
    assert!(matches!(
        then.next(Err("x".into())),
        ListStep::Failed(e) if e == "Не удалось открыть папку: x"
    ));
    assert!(matches!(
        begin(Some(" "), None, 1, 1),
        ListStep::Failed(e) if e == "Название метки должно содержать от 1 до 15 символов"
    ));
    assert!(matches!(
        begin(None, Some("a\nb"), 1, 1),
        ListStep::Failed(e) if e == "Некорректный поисковый запрос"
    ));
    let ListStep::FetchPlaces { then, .. } = begin(None, None, 1, 1) else { panic!() };
    assert!(matches!(
        then.next(Err("x".into())),
        ListStep::Failed(e) if e == "Не удалось получить письма: x"
    ));
    let ListStep::Search { then, .. } = begin(Some("w"), None, 1, 1) else { panic!() };
    assert!(matches!(then.next(Err("x".into())), ListStep::Failed(e) if e == "x"));
    let ListStep::Search { then, .. } = begin(Some("w"), None, 1, 1) else { panic!() };
    let ListStep::SelectAgain { then, .. } = then.next(Ok(vec![1])) else { panic!() };
    assert!(matches!(
        then.next(Err("x".into())),
        ListStep::Failed(e) if e == "Не удалось открыть папку: x"
    ));
}
