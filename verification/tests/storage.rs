//! Files that are replaced.

use std::collections::HashMap;
use yandex_mail::storage::{
    cache_contents_error, cache_directory_error, cache_path_error, replace_file, role_extension,
    settings_path_error, write_json, FileOp, FileRole, Following, ReplacePhase,
};

fn name(role: FileRole) -> String {
    role_extension(role).unwrap_or_else(|| "json".to_string())
}

/// Does something to files in memory; an operation that is to fail leaves a
/// half written file behind where it writes.
fn perform(files: &mut HashMap<String, Vec<u8>>, op: FileOp, contents: &[u8], fail: bool) -> bool {
    match op {
        FileOp::MakeDirectory => !fail,
        FileOp::WriteTemporary => {
            let written = if fail { &contents[..contents.len() / 2] } else { contents };
            files.insert(name(FileRole::Temporary), written.to_vec());
            !fail
        }
        FileOp::Remove { role } => !fail && files.remove(&name(role)).is_some(),
        FileOp::Look { role } => files.contains_key(&name(role)),
        FileOp::Rename { from, to } => match (fail, files.remove(&name(from))) {
            (false, Some(held)) => {
                files.insert(name(to), held);
                true
            }
            (true, Some(held)) => {
                files.insert(name(from), held);
                false
            }
            _ => false,
        },
    }
}

fn replace(
    files: &mut HashMap<String, Vec<u8>>,
    contents: &[u8],
    failing: Option<ReplacePhase>,
) -> Result<(), String> {
    let before = files.get("json").cloned();
    let mut phase = replace_file();
    loop {
        let worked = perform(files, phase.op(), contents, failing == Some(phase));
        let target = files.get("json");
        let whole = target == before.as_ref()
            || target.map(Vec::as_slice) == Some(contents)
            || (target.is_none() && files.get("old") == before.as_ref());
        assert!(whole);
        match phase.next(worked) {
            Following::Next(next) => phase = next,
            Following::Done => return Ok(()),
            Following::Failed(error) => return Err(error),
        }
    }
}

#[test]
fn account_file_replacement_cleans_temporary_state() {
    let mut files = HashMap::new();
    replace(&mut files, b"old", None).unwrap();
    replace(&mut files, b"new", None).unwrap();
    assert_eq!(files["json"], b"new");
    assert!(!files.contains_key("new"));
    assert!(!files.contains_key("old"));
}

#[test]
fn a_replacement_that_fails_leaves_the_old_settings() {
    for (phase, expected) in [
        (ReplacePhase::MakeDirectory, "Не удалось создать папку настроек"),
        (ReplacePhase::Write, "Не удалось сохранить настройки"),
        (ReplacePhase::SetAside, "Не удалось заменить настройки"),
        (ReplacePhase::PutInPlace, "Не удалось сохранить настройки"),
    ] {
        let mut files = HashMap::new();
        replace(&mut files, b"old", None).unwrap();
        assert_eq!(replace(&mut files, b"new", Some(phase)).unwrap_err(), expected);
        assert_eq!(files["json"], b"old");
    }
}

#[test]
fn the_first_settings_can_fail_to_be_put_in_place() {
    let mut files = HashMap::new();
    assert!(replace(&mut files, b"new", Some(ReplacePhase::PutInPlace)).is_err());
    assert!(!files.contains_key("json"));
}

#[test]
fn atomic_write_leaves_one_complete_file() {
    let mut files: HashMap<String, Vec<u8>> = HashMap::new();
    for contents in [&b"[\"first\"]"[..], &b"[\"second\"]"[..]] {
        let mut phase = write_json();
        loop {
            let worked = perform(&mut files, phase.op(), contents, false);
            let reply = if worked { Ok(()) } else { Err("no".to_string()) };
            match phase.next(reply) {
                Following::Next(next) => phase = next,
                Following::Done => break,
                Following::Failed(error) => panic!("{error}"),
            }
        }
    }
    assert_eq!(files["json"], b"[\"second\"]");
    assert!(!files.contains_key("new"));
}

#[test]
fn cache_files_that_cannot_be_written_are_told() {
    let phase = write_json();
    assert!(matches!(
        phase.next(Err("x".into())),
        Following::Failed(e) if e == "Не удалось создать кеш: x"
    ));
    let Following::Next(phase) = phase.next(Ok(())) else { panic!() };
    assert!(matches!(
        phase.next(Err("x".into())),
        Following::Failed(e) if e == "Не удалось записать кеш: x"
    ));
    let Following::Next(phase) = phase.next(Ok(())) else { panic!() };
    let Following::Next(phase) = phase.next(Err("absent".into())) else { panic!() };
    assert_eq!(phase.op(), FileOp::Rename { from: FileRole::Temporary, to: FileRole::Target });
    assert!(matches!(
        phase.next(Err("x".into())),
        Following::Failed(e) if e == "Не удалось сохранить кеш: x"
    ));
    assert_eq!(settings_path_error(), "Некорректный путь настроек");
    assert_eq!(cache_path_error(), "Некорректный путь кеша");
    assert_eq!(cache_directory_error(), "Не удалось определить папку кеша");
    assert_eq!(cache_contents_error("x".into()), "Не удалось подготовить кеш: x");
}
