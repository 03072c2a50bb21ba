//! Folders.

use yandex_mail::codec::mailbox_name;
use yandex_mail::folders::{
    create_folder, delete_folder, editable_folder, folder_name, list_folders, rename_folder,
    special_folder, FolderChange, MailboxName, NameAttribute,
};
use yandex_mail::model::Folder;

fn mailbox(name: &str, delimiter: Option<&str>, attributes: &[NameAttribute]) -> MailboxName {
    MailboxName {
        name: name.to_string(),
        delimiter: delimiter.map(str::to_string),
        attributes: attributes.to_vec(),
    }
}

fn folder(raw_path: &str, special_use: Option<&str>) -> Folder {
    Folder {
        name: raw_path.to_string(),
        path: raw_path.to_string(),
        raw_path: raw_path.to_string(),
        special_use: special_use.map(str::to_string),
        total: 0,
        unseen: 0,
    }
}

#[test]
fn folder_names_are_validated_and_encoded() {
    assert_eq!(folder_name(" Тест ".to_string()).unwrap(), "&BCIENQRBBEI-");
    assert!(folder_name("bad\nname".to_string()).is_err());
    assert!(folder_name(" ".to_string()).is_err());
}

#[test]
fn folder_names_are_measured_in_characters() {
    assert!(folder_name("a".repeat(80)).is_ok());
    assert_eq!(
        folder_name("a".repeat(81)).unwrap_err(),
        "Введите название папки длиной до 80 символов"
    );
    assert!(folder_name("а".repeat(41)).is_ok());
    assert!(folder_name(format!(" {} ", "я".repeat(80))).is_ok());
    assert!(folder_name("я".repeat(81)).is_err());
}

#[test]
fn folders_are_named_and_ordered_by_use() {
    let folders = list_folders(vec![
        Some(mailbox("&BB4EQgQ,BEAEMAQyBDsENQQ9BD0ESwQ1-", Some("|"), &[NameAttribute::Sent])),
        Some(mailbox("Work|B", Some("|"), &[NameAttribute::Other])),
        None,
        Some(mailbox("Work|A", Some("|"), &[])),
        Some(mailbox("Spam", None, &[NameAttribute::Junk])),
        Some(mailbox("INBOX", Some("|"), &[])),
        Some(mailbox("Old/Archive", None, &[NameAttribute::NoSelect, NameAttribute::Archive])),
        Some(mailbox("Trash", Some("|"), &[NameAttribute::Trash])),
        Some(mailbox("Drafts", Some("|"), &[NameAttribute::Drafts])),
    ]);
    let shown: Vec<_> = folders
        .iter()
        .map(|f| (f.name.as_str(), f.special_use.as_deref()))
        .collect();
    assert_eq!(
        shown,
        [
            ("Входящие", Some("inbox")),
            ("A", None),
            ("B", None),
            ("Archive", Some("archive")),
            ("Отправленные", Some("sent")),
            ("Trash", Some("trash")),
            ("Spam", Some("junk")),
            ("Drafts", Some("drafts")),
        ]
    );
    assert_eq!(folders[1].path, "Work|A");
    assert_eq!(folders[4].path, "Отправленные");
    assert_eq!(folders[4].raw_path, "&BB4EQgQ,BEAEMAQyBDsENQQ9BD0ESwQ1-");
    assert_eq!((folders[0].total, folders[0].unseen), (0, 0));
}

#[test]
fn the_first_use_of_a_mailbox_counts() {
    let folders = list_folders(vec![Some(mailbox(
        "INBOX",
        Some("/"),
        &[NameAttribute::Other, NameAttribute::Trash, NameAttribute::Sent],
    ))]);
    assert_eq!(folders[0].special_use.as_deref(), Some("trash"));
    assert_eq!(folders[0].name, "INBOX");
}

#[test]
fn created_folders_read_back() {
    for name in ["Тест", "a & b", "plain", "смесь mix", "tab\there"] {
        let raw = folder_name(name.to_string()).unwrap();
        assert!(mailbox_name(&raw));
        let folders = list_folders(vec![Some(mailbox(&raw, Some("|"), &[]))]);
        assert_eq!(folders[0].path, name);
    }
}

#[test]
fn mailbox_names_that_cannot_be_decoded_are_told() {
    assert!(mailbox_name("INBOX"));
    assert!(mailbox_name("a&-b"));
    assert!(mailbox_name("&BCIENQRBBEI-"));
    assert!(mailbox_name("& never closed"));
    assert!(!mailbox_name("&***-"));
    assert!(!mailbox_name("&A-"));
    assert!(!mailbox_name("&BB-"));
}

#[test]
fn system_folders_cannot_be_changed() {
    let stored = || Some(vec![folder("INBOX", Some("inbox")), folder("Work", None)]);
    assert_eq!(editable_folder(stored(), "Work"), Ok(()));
    assert_eq!(
        editable_folder(stored(), "INBOX").unwrap_err(),
        "Системную папку нельзя изменить"
    );
    assert_eq!(
        editable_folder(stored(), "Other").unwrap_err(),
        "Папка не найдена"
    );
    assert_eq!(
        editable_folder(None, "Work").unwrap_err(),
        "Папка не найдена"
    );
    assert!(delete_folder("INBOX".to_string(), stored()).is_err());
    assert!(matches!(
        delete_folder("Work".to_string(), stored()),
        Ok(FolderChange::Delete { raw_path }) if raw_path == "Work"
    ));
}

#[test]
fn folders_are_created_and_renamed_under_encoded_names() {
    assert!(matches!(
        create_folder(" Тест ".to_string()),
        Ok(FolderChange::Create { raw_path }) if raw_path == "&BCIENQRBBEI-"
    ));
    assert!(create_folder("\n".to_string()).is_err());
    let stored = || Some(vec![folder("INBOX", Some("inbox")), folder("Work", None)]);
    let pending = rename_folder("Work".to_string(), "Тест".to_string()).unwrap();
    assert!(matches!(
        pending.confirm(stored()),
        Ok(FolderChange::Rename { raw_path, new_raw_path })
            if raw_path == "Work" && new_raw_path == "&BCIENQRBBEI-"
    ));
    let pending = rename_folder("INBOX".to_string(), "Тест".to_string()).unwrap();
    assert!(pending.confirm(stored()).is_err());
    assert!(rename_folder("Work".to_string(), "".to_string()).is_err());
}

#[test]
fn folders_are_found_by_use() {
    let mailboxes = || {
        vec![
            None,
            Some(mailbox("A", None, &[NameAttribute::Sent])),
            Some(mailbox("B", None, &[NameAttribute::Other, NameAttribute::Trash])),
            Some(mailbox("C", None, &[NameAttribute::Trash])),
            Some(mailbox("D", None, &[NameAttribute::Junk])),
        ]
    };
    assert_eq!(special_folder(mailboxes(), "trash").unwrap(), "B");
    assert_eq!(special_folder(mailboxes(), "junk").unwrap(), "D");
    assert_eq!(
        special_folder(mailboxes(), "archive").unwrap_err(),
        "Нужная системная папка не найдена"
    );
    assert!(special_folder(mailboxes(), "sent").is_err());
}
