//! Attachments.

use yandex_mail::attachments::{
    attachment_contents, attachments_from, files_from, find_attachment, forwarded_from,
    inspect_attachments, keep_error, local_attachment, opened_file, prepare_forward_attachments,
    prepare_image_previews, preview_url, previews_from, safe_filename, safe_name_from,
    save_all_attachments, ChosenFile, KeepFailure, IMAGE_PREVIEW_LIMIT,
};
use yandex_mail::mime::{Part, PartType};

const RAW: &[u8] = b"From: sender@example.com\r\nTo: receiver@example.com\r\nSubject: attachment\r\nMIME-Version: 1.0\r\nContent-Type: multipart/mixed; boundary=x\r\n\r\n--x\r\nContent-Type: text/plain\r\n\r\nbody\r\n--x\r\nContent-Type: application/octet-stream\r\nContent-Disposition: attachment; filename*=UTF-8''%D1%84%D0%B0%D0%B9%D0%BB.txt\r\n\r\nhello\r\n--x--\r\n";

fn part(kind: Option<(&str, Option<&str>)>, name: Option<&str>, contents: &[u8]) -> Part {
    Part {
        content_type: kind.map(|(kind, subtype)| PartType {
            kind: kind.to_string(),
            subtype: subtype.map(str::to_string),
        }),
        name: name.map(str::to_string),
        contents: contents.to_vec(),
    }
}

#[test]
fn attachment_is_extracted() {
    let files = save_all_attachments(RAW).unwrap();
    assert_eq!(files[0].filename, "файл.txt");
    assert_eq!(attachment_contents(RAW, 0).unwrap(), b"hello");
}

#[test]
fn image_preview_is_embeddable() {
    assert_eq!(
        preview_url("image/png", b"png"),
        "data:image/png;base64,cG5n"
    );
}

#[test]
fn attachments_that_are_missing_are_told() {
    assert_eq!(attachment_contents(RAW, 1).unwrap_err(), "Вложение не найдено");
    assert_eq!(attachment_contents(b"", 0).unwrap_err(), "Не удалось разобрать письмо");
    assert_eq!(find_attachment(None, 0).unwrap_err(), "Не удалось разобрать письмо");
    let parts = vec![part(None, None, b"a"), part(None, None, b"b"), part(None, None, b"c")];
    assert_eq!(find_attachment(Some(parts), 1).unwrap(), b"b");
}

#[test]
fn attachments_have_types_names_and_sizes() {
    let parts = vec![
        part(Some(("image", Some("jpeg"))), None, b"12"),
        part(Some(("image", Some("gif"))), None, b""),
        part(Some(("application", Some("pdf"))), None, b""),
        part(Some(("text", Some("plain"))), None, b""),
        part(Some(("audio", None)), None, b""),
        part(None, Some("own.name"), b""),
    ];
    let shown = attachments_from(&parts);
    let names: Vec<_> = shown.iter().map(|a| a.filename.as_str()).collect();
    assert_eq!(
        names,
        ["Вложение 1.jpg", "Вложение 2.gif", "Вложение 3.pdf", "Вложение 4.txt", "Вложение 5", "own.name"]
    );
    assert_eq!(shown[4].mime_type, "audio/octet-stream");
    assert_eq!(shown[5].mime_type, "application/octet-stream");
    assert_eq!((shown[0].id, shown[0].size), (0, 2));
}

#[test]
fn file_names_stay_in_their_directory() {
    for value in ["../../etc/passwd", "/", "..", ".", "", "a/..", "dir/", "плохо/имя.txt"] {
        let name = safe_filename(value);
        assert!(!name.is_empty() && name != "." && name != ".." && !name.contains('/'));
    }
    assert_eq!(safe_filename("../../etc/passwd"), "passwd");
    assert_eq!(safe_filename("плохо/имя.txt"), "имя.txt");
    assert_eq!(safe_filename(""), "Вложение");
    for value in ["/", "..", "a/..", "../", ".", "./", "/."] {
        assert_eq!(safe_filename(value), "Вложение");
    }
    assert_eq!(safe_filename("dir/"), "dir");
    assert_eq!(safe_filename("a/b/./"), "b");
    assert_eq!(safe_filename("Re: отчёт.pdf"), "Re: отчёт.pdf");
    assert!(safe_filename("C:\\docs\\отчёт.pdf").ends_with("отчёт.pdf"));
    assert!(safe_filename("\\\\server\\share\\отчёт.pdf").ends_with("отчёт.pdf"));
    assert_eq!(safe_name_from(Some("../../evil.txt".to_string())), "Вложение");
    assert_eq!(safe_name_from(Some(".".to_string())), "Вложение");
    assert_eq!(safe_name_from(Some(String::new())), "Вложение");
    assert_eq!(safe_name_from(None), "Вложение");
    assert_eq!(safe_name_from(Some("ok".to_string())), "ok");
}

#[test]
fn kept_names_do_not_change_again() {
    for value in ["../../etc/passwd", "/", "a/..", "", "dir/", "плохо/имя.txt", "Re: x"] {
        let name = safe_filename(value);
        assert_eq!(safe_filename(&name), name);
    }
}

#[test]
fn only_small_known_images_are_previewed() {
    let parts = vec![
        part(Some(("image", Some("png"))), None, b"png"),
        part(Some(("image", Some("svg"))), None, b"svg"),
        part(None, None, b"none"),
        part(Some(("image", Some("webp"))), None, &vec![0; IMAGE_PREVIEW_LIMIT + 1]),
        part(Some(("image", Some("bmp"))), None, b"b"),
    ];
    let previews = previews_from(&parts);
    let ids: Vec<_> = previews.iter().map(|p| p.id).collect();
    assert_eq!(ids, [0, 4]);
    assert_eq!(previews[0].url, "data:image/png;base64,cG5n");
    let exact = vec![part(Some(("image", Some("gif"))), None, &vec![0; IMAGE_PREVIEW_LIMIT])];
    assert_eq!(previews_from(&exact).len(), 1);
    assert!(prepare_image_previews(RAW).unwrap().is_empty());
    assert_eq!(prepare_image_previews(b"").unwrap_err(), "Не удалось разобрать письмо");
}

#[test]
fn all_attachments_are_kept_one_for_one() {
    let files = files_from(vec![
        part(Some(("image", Some("png"))), None, b"1"),
        part(None, Some("../x"), b"2"),
        part(None, Some(".."), b"3"),
    ]);
    let names: Vec<_> = files.iter().map(|f| f.filename.as_str()).collect();
    assert_eq!(names, ["Вложение 1.png", "x", "Вложение"]);
    assert_eq!(files[1].contents, b"2");
    assert_eq!(save_all_attachments(RAW).unwrap().len(), 1);
    assert_eq!(save_all_attachments(b"").unwrap_err(), "Не удалось разобрать письмо");
}

#[test]
fn forwarded_attachments_lie_apart() {
    let files = forwarded_from(
        7,
        vec![part(None, Some("same"), b"1"), part(None, Some("same"), b"22")],
    );
    assert_eq!(files[0].directory, ["yandex-mail", "forward", "7", "0"]);
    assert_eq!(files[1].directory, ["yandex-mail", "forward", "7", "1"]);
    assert_eq!(files[1].file.filename, "same");
    assert_eq!((files[1].file.contents.as_slice(), files[1].size), (&b"22"[..], 2));
    assert_eq!(prepare_forward_attachments(7, RAW).unwrap()[0].file.filename, "файл.txt");
    assert_eq!(
        prepare_forward_attachments(7, b"").unwrap_err(),
        "Не удалось разобрать письмо"
    );
}

#[test]
fn opened_attachments_have_files_of_their_own() {
    assert_eq!(opened_file(7, 2, "../отчёт.pdf"), ["yandex-mail", "opened", "7-2-отчёт.pdf"]);
    assert_ne!(opened_file(1, 11, "a"), opened_file(11, 1, "a"));
    assert_eq!(opened_file(1, 0, "..")[2], "1-0-Вложение");
}

#[test]
fn chosen_files_are_inspected() {
    let chosen = |path: &str, size: Option<u64>| ChosenFile { path: path.to_string(), size };
    let shown = inspect_attachments(vec![chosen("/tmp/a.txt", Some(3)), chosen("b", Some(0))]).unwrap();
    assert_eq!(shown[0].path, "/tmp/a.txt");
    assert_eq!(shown[0].filename, "a.txt");
    assert_eq!(shown[0].size, 3);
    assert_eq!(shown[1].filename, "b");
    let shown = inspect_attachments(vec![chosen("C:\\docs\\a.txt", Some(3))]).unwrap();
    assert!(shown[0].filename.ends_with("a.txt"));
    assert_eq!(
        inspect_attachments(vec![chosen("a", Some(1)), chosen("/x/y", None), chosen("..", Some(1))]).unwrap_err(),
        "Не удалось открыть вложение: /x/y"
    );
    assert_eq!(
        inspect_attachments(vec![chosen("a/..", Some(1)), chosen("b", None)]).unwrap_err(),
        "Некорректное имя вложения"
    );
    assert_eq!(
        inspect_attachments(vec![chosen("/", Some(1))]).unwrap_err(),
        "Некорректное имя вложения"
    );
    assert_eq!(
        local_attachment(chosen("p", Some(1)), None).unwrap_err(),
        "Некорректное имя вложения"
    );
    assert!(inspect_attachments(Vec::new()).unwrap().is_empty());
}

#[test]
fn failures_of_files_are_told() {
    assert_eq!(keep_error(KeepFailure::NoDirectory), "Некорректный путь вложения");
    assert_eq!(keep_error(KeepFailure::Directory("x".into())), "Не удалось создать папку: x");
    assert_eq!(keep_error(KeepFailure::Save("x".into())), "Не удалось сохранить вложение: x");
    assert_eq!(keep_error(KeepFailure::Prepare("x".into())), "Не удалось подготовить вложение: x");
}
