//! What is asked of the server, step by step.

use yandex_mail::actions::{
    action_done, apply_message_action, move_message, set_flag, set_label, unknown_outcome,
    ActionStep, Change,
};
use yandex_mail::cache::{CachedDetail, CachedPage, CACHE_VERSION};
use yandex_mail::folders::{MailboxName, NameAttribute};
use yandex_mail::label_session::{
    create_label, delete_label, rename_label, DeleteStep, RenameStep,
};
use yandex_mail::labels::Flag;
use yandex_mail::list_session::Mailbox;
use yandex_mail::message::Fetched;
use yandex_mail::model::{
    Label, MessageAction, MessageDetail, MessagePage, MessageSelection, MessageSummary,
};
use yandex_mail::read_session::{fetch_raw_message, get_message, RawStep, ReadStep};

fn opened() -> Result<Mailbox, String> {
    Ok(Mailbox { present: 1, uid_validity: Some(4), uid_next: None })
}

fn mailbox(name: &str, attributes: &[NameAttribute]) -> Option<MailboxName> {
    Some(MailboxName { name: name.into(), delimiter: None, attributes: attributes.to_vec() })
}

fn explicit(uids: &[u32]) -> MessageSelection {
    MessageSelection::Uids { uids: uids.to_vec() }
}

fn begin(selection: MessageSelection, action: MessageAction) -> ActionStep {
    let step = apply_message_action("INBOX".into(), selection, action);
    let ActionStep::Select { raw_path, then } = step else { panic!() };
    assert_eq!(raw_path, "INBOX");
    then.next(opened())
}

fn summary(uid: u32) -> MessageSummary {
    MessageSummary {
        uid,
        subject: String::new(),
        from_name: String::new(),
        from_address: String::new(),
        date: 0,
        seen: false,
        flagged: false,
        labels: Vec::new(),
        size: 0,
        has_attachments: false,
    }
}

fn stored() -> Option<CachedPage> {
    Some(CachedPage {
        version: CACHE_VERSION,
        uid_validity: Some(4),
        uid_next: None,
        page: MessagePage { items: vec![summary(7), summary(8)], total: 2, unseen: 2 },
    })
}

#[test]
fn explicit_and_full_selections_are_kept_distinct() {
    assert!(matches!(
        begin(explicit(&[7, 9]), MessageAction::Seen { enabled: true }),
        ActionStep::Store { set, .. } if set == "7,9"
    ));
    let full = MessageSelection::All { label: Some("с_хуями".into()), query: Some("чек".into()) };
    assert!(matches!(
        begin(full, MessageAction::Seen { enabled: true }),
        ActionStep::Search { query, .. }
            if query.starts_with("CHARSET UTF-8 KEYWORD emailcli-0YFf0YXRg9GP0LzQuA OR FROM \"чек\"")
    ));
}

#[test]
fn flags_are_set_on_the_chosen_messages() {
    let step = begin(explicit(&[9, 7, 8, 7]), MessageAction::Seen { enabled: true });
    let ActionStep::Store { set, query, then } = step else { panic!() };
    assert_eq!((set.as_str(), query.as_str()), ("7:9", "+FLAGS.SILENT (\\Seen)"));
    let ActionStep::Done(outcome) = then.next(Ok(())) else { panic!() };
    let (result, file) = action_done("e", "INBOX", stored(), outcome);
    assert_eq!(result.affected, 3);
    let items = file.unwrap().value.page.items;
    assert!(items[0].seen && items[1].seen);
    let step = begin(explicit(&[1]), MessageAction::Flagged { enabled: false });
    assert!(matches!(
        step,
        ActionStep::Store { query, .. } if query == "-FLAGS.SILENT (\\Flagged)"
    ));
}

#[test]
fn labels_are_put_on_the_chosen_messages() {
    let action = MessageAction::Label { name: "важное".into(), enabled: true };
    let ActionStep::Store { query, then, .. } = begin(explicit(&[8]), action) else {
        panic!()
    };
    assert_eq!(query, "+FLAGS.SILENT (emailcli-0LLQsNC20L3QvtC1)");
    let ActionStep::Done(outcome) = then.next(Ok(())) else { panic!() };
    let (_, file) = action_done("e", "INBOX", stored(), outcome);
    let items = file.unwrap().value.page.items;
    assert!(items[0].labels.is_empty());
    assert_eq!(items[1].labels, ["важное"]);
    let bad = MessageAction::Label { name: " ".into(), enabled: true };
    assert!(matches!(begin(explicit(&[8]), bad), ActionStep::Failed(_)));
}

#[test]
fn messages_are_moved() {
    let action = MessageAction::Move { destination: "Work".into() };
    let ActionStep::Move { set, destination, then } = begin(explicit(&[7]), action) else {
        panic!()
    };
    assert_eq!((set.as_str(), destination.as_str()), ("7", "Work"));
    let ActionStep::Done(outcome) = then.next(Ok(())) else { panic!() };
    let (result, file) = action_done("e", "INBOX", stored(), outcome);
    assert_eq!(result.affected, 1);
    let page = file.unwrap().value.page;
    assert_eq!((page.items.len(), page.items[0].uid, page.total), (1, 8, 1));
}

#[test]
fn messages_are_moved_to_folders_for_a_use() {
    let mailboxes = || {
        vec![
            mailbox("T", &[NameAttribute::Trash]),
            mailbox("A", &[NameAttribute::Archive]),
            mailbox("INBOX", &[NameAttribute::Junk]),
        ]
    };
    for (action, expected) in [
        (MessageAction::Delete, "T"),
        (MessageAction::Archive, "A"),
        (MessageAction::Spam, "INBOX"),
    ] {
        let ActionStep::List { then } = begin(explicit(&[1]), action) else { panic!() };
        assert!(matches!(
            then.next(Ok(mailboxes())),
            ActionStep::Move { destination, set, .. } if destination == expected && set == "1"
        ));
    }
    let ActionStep::List { then } = begin(explicit(&[1]), MessageAction::Archive) else {
        panic!()
    };
    assert!(matches!(
        then.next(Ok(Vec::new())),
        ActionStep::Failed(e) if e == "Нужная системная папка не найдена"
    ));
    let ActionStep::List { then } = begin(explicit(&[1]), MessageAction::Delete) else {
        panic!()
    };
    assert!(matches!(
        then.next(Ok(vec![mailbox("INBOX", &[NameAttribute::Trash])])),
        ActionStep::Failed(e) if e == "Письмо уже находится в корзине"
    ));
}

#[test]
fn an_empty_selection_changes_nothing() {
    let ActionStep::Done(outcome) = begin(explicit(&[]), MessageAction::Delete) else {
        panic!()
    };
    let (result, file) = action_done("e", "INBOX", stored(), outcome);
    assert_eq!(result.affected, 0);
    assert!(file.is_none());
    let all = MessageSelection::All { label: None, query: None };
    let ActionStep::Search { query, then } = begin(all, MessageAction::Spam) else {
        panic!()
    };
    assert_eq!(query, "ALL");
    assert!(matches!(then.next(Ok(Vec::new())), ActionStep::Done(o) if o.uids.is_empty()));
}

#[test]
fn actions_fail_with_a_reason() {
    let step = apply_message_action("INBOX".into(), explicit(&[1]), MessageAction::Delete);
    let ActionStep::Select { then, .. } = step else { panic!() };
    assert!(matches!(then.next(Err("no".into())), ActionStep::Failed(e) if e == "no"));
    let bad = MessageSelection::All { label: None, query: Some("a\nb".into()) };
    assert!(matches!(
        begin(bad, MessageAction::Delete),
        ActionStep::Failed(e) if e == "Некорректный поисковый запрос"
    ));
    let ActionStep::Store { then, .. } =
        begin(explicit(&[1]), MessageAction::Seen { enabled: true })
    else {
        panic!()
    };
    assert!(matches!(then.next(Err("no".into())), ActionStep::Failed(e) if e == "no"));
    assert_eq!(
        unknown_outcome(),
        "ACTION_OUTCOME_UNKNOWN: Сервер не подтвердил результат действия вовремя"
    );
}

#[test]
fn single_messages_are_changed() {
    let planned = set_flag("p".into(), 5, "seen", true);
    assert_eq!(planned.raw_path, "p");
    assert!(matches!(
        planned.change,
        Ok(Change::Store { set, query }) if set == "5" && query == "+FLAGS.SILENT (\\Seen)"
    ));
    let planned = set_flag("p".into(), 5, "flagged", false);
    assert!(matches!(
        planned.change,
        Ok(Change::Store { query, .. }) if query == "-FLAGS.SILENT (\\Flagged)"
    ));
    assert_eq!(set_flag("p".into(), 5, "other", true).change.unwrap_err(), "Неизвестный флаг");
    let planned = set_label("p".into(), 5, " work ", true).unwrap();
    assert!(matches!(
        planned.change,
        Ok(Change::Store { query, .. }) if query == "+FLAGS.SILENT (work)"
    ));
    assert!(set_label("p".into(), 5, "", true).is_err());
    let planned = move_message("p".into(), 5, "q".into());
    assert!(matches!(
        planned.change,
        Ok(Change::Move { set, destination }) if set == "5" && destination == "q"
    ));
}

#[test]
fn renaming_adds_the_new_label_before_it_removes_the_old_one() {
    let RenameStep::List { then } = rename_label(" old ", "new") else { panic!() };
    let mailboxes = vec![
        mailbox("A", &[]),
        mailbox("Hidden", &[NameAttribute::NoSelect]),
        None,
        mailbox("B", &[NameAttribute::Other]),
    ];
    let RenameStep::Select { raw_path, then } = then.next(Ok(mailboxes)) else {
        panic!()
    };
    assert_eq!(raw_path, "A");
    let RenameStep::Search { query, then } = then.next(opened()) else { panic!() };
    assert_eq!(query, "KEYWORD old");
    let RenameStep::Add { set, query, then } = then.next(Ok(vec![3, 1, 2])) else {
        panic!()
    };
    assert_eq!((set.as_str(), query.as_str()), ("1:3", "+FLAGS.SILENT (new)"));
    let RenameStep::Remove { set, query, then } = then.next(Ok(())) else { panic!() };
    assert_eq!((set.as_str(), query.as_str()), ("1:3", "-FLAGS.SILENT (old)"));
    let RenameStep::Select { raw_path, then } = then.next(Ok(())) else { panic!() };
    assert_eq!(raw_path, "B");
    let RenameStep::Search { then, .. } = then.next(opened()) else { panic!() };
    let RenameStep::Done { mailboxes, renaming } = then.next(Ok(Vec::new())) else {
        panic!()
    };
    assert_eq!(mailboxes, ["A", "B"]);
    assert_eq!((renaming.old_name.as_str(), renaming.new_name.as_str()), ("old", "new"));
}

#[test]
fn renaming_stops_when_the_new_label_cannot_be_added() {
    let RenameStep::List { then } = rename_label("old", "new") else { panic!() };
    let RenameStep::Select { then, .. } = then.next(Ok(vec![mailbox("A", &[])])) else {
        panic!()
    };
    let RenameStep::Search { then, .. } = then.next(opened()) else { panic!() };
    let RenameStep::Add { then, .. } = then.next(Ok(vec![1])) else { panic!() };
    assert!(matches!(then.next(Err("no".into())), RenameStep::Failed(e) if e == "no"));
}

#[test]
fn renaming_to_the_same_name_changes_nothing() {
    assert!(matches!(rename_label("a", " a "), RenameStep::Unchanged));
    assert!(matches!(rename_label("", "a"), RenameStep::Failed(_)));
    assert!(matches!(rename_label("a", "\n"), RenameStep::Failed(_)));
    let RenameStep::List { then } = rename_label("a", "b") else { panic!() };
    assert!(matches!(
        then.next(Ok(Vec::new())),
        RenameStep::Done { mailboxes, .. } if mailboxes.is_empty()
    ));
}

#[test]
fn labels_are_deleted_from_messages() {
    let DeleteStep::Select { raw_path, then } = delete_label("INBOX".into(), " a ") else {
        panic!()
    };
    assert_eq!(raw_path, "INBOX");
    let DeleteStep::Search { query, then } = then.next(opened()) else { panic!() };
    assert_eq!(query, "KEYWORD a");
    let DeleteStep::Remove { set, query, then } = then.next(Ok(vec![5, 4])) else {
        panic!()
    };
    assert_eq!((set.as_str(), query.as_str()), ("4:5", "-FLAGS.SILENT (a)"));
    assert!(matches!(then.next(Ok(())), DeleteStep::Done { name } if name == "a"));
    let DeleteStep::Select { then, .. } = delete_label("INBOX".into(), "a") else {
        panic!()
    };
    let DeleteStep::Search { then, .. } = then.next(opened()) else { panic!() };
    assert!(matches!(then.next(Ok(Vec::new())), DeleteStep::Done { name } if name == "a"));
    assert!(matches!(delete_label("INBOX".into(), ""), DeleteStep::Failed(_)));
}

#[test]
fn labels_are_created_without_outer_space() {
    let file = create_label("a@b.c", Some(vec![Label { name: "b".into(), count: 1 }]), " a ").unwrap();
    assert_eq!(file.value.iter().map(|l| l.name.as_str()).collect::<Vec<_>>(), ["a", "b"]);
    assert_eq!(
        create_label("a@b.c", Some(file.value), "b ").unwrap_err(),
        "Метка с таким названием уже есть"
    );
    assert_eq!(
        create_label("a@b.c", None, " ").unwrap_err(),
        "Название метки должно содержать от 1 до 15 символов"
    );
}

fn whole_message() -> Vec<Option<Fetched>> {
    vec![Some(Fetched {
        uid: Some(7),
        flags: vec![Flag::Seen],
        internal_date: None,
        size: None,
        body_structure: None,
        header: None,
        body: Some(b"Subject: x\r\n\r\nhello".to_vec()),
    })]
}

#[test]
fn messages_are_fetched_once_and_then_read_from_the_cache() {
    let step = get_message("a@b.c".into(), "INBOX".into(), 7, stored(), None);
    let ReadStep::Select { raw_path, then } = step else { panic!() };
    assert_eq!(raw_path, "INBOX");
    let ReadStep::Fetch { set, items, then } = then.next(opened()) else { panic!() };
    assert_eq!(set, "7");
    assert_eq!(items, "(UID FLAGS INTERNALDATE RFC822.SIZE BODYSTRUCTURE BODY.PEEK[])");
    let ReadStep::Done { detail, file } = then.next(Ok(whole_message())) else {
        panic!()
    };
    assert_eq!(detail.summary.subject, "x");
    let file = file.unwrap();
    assert_eq!(file.path, ["yandex-mail", "YUBiLmM", "details", "SU5CT1g", "7.json"]);
    assert_eq!(file.value.uid_validity, Some(4));
    let again = get_message("a@b.c".into(), "INBOX".into(), 7, stored(), Some(file.value));
    assert!(matches!(
        again,
        ReadStep::Done { detail, file: None } if detail.summary.subject == "x"
    ));
}

#[test]
fn messages_of_another_validity_are_fetched_again() {
    let old = CachedDetail {
        version: CACHE_VERSION,
        uid_validity: Some(3),
        detail: MessageDetail {
            summary: summary(7),
            to: String::new(),
            body_text: None,
            body_html: None,
            attachments: Vec::new(),
        },
    };
    let step = get_message("e".into(), "INBOX".into(), 7, stored(), Some(old));
    assert!(matches!(step, ReadStep::Select { .. }));
}

#[test]
fn reading_fails_with_a_reason() {
    let ReadStep::Select { then, .. } = get_message("e".into(), "p".into(), 7, None, None) else {
        panic!()
    };
    assert!(matches!(then.next(Err("no".into())), ReadStep::Failed(e) if e == "no"));
    let ReadStep::Select { then, .. } = get_message("e".into(), "p".into(), 7, None, None) else {
        panic!()
    };
    let ReadStep::Fetch { then, .. } = then.next(opened()) else { panic!() };
    assert!(matches!(then.next(Ok(Vec::new())), ReadStep::Failed(e) if e == "Письмо не найдено"));
}

#[test]
fn the_bytes_of_a_message_are_fetched() {
    let RawStep::Select { raw_path, then } = fetch_raw_message("INBOX", 7) else {
        panic!()
    };
    assert_eq!(raw_path, "INBOX");
    let RawStep::Fetch { set, items, then } = then.next(opened()) else { panic!() };
    assert_eq!((set.as_str(), items.as_str()), ("7", "(UID BODY.PEEK[])"));
    assert!(matches!(
        then.next(Ok(whole_message())),
        RawStep::Done { raw } if raw.ends_with(b"hello")
    ));
}
