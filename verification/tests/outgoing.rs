//! Letters.

use mail_parser::{MessageParser, MimeHeaders};
use yandex_mail::model::OutgoingMessage;
use yandex_mail::outgoing::{build_outgoing, split_addresses, LetterStep, ATTACHED_LIMIT};

fn outgoing(to: &str, subject: &str, html: Option<&str>, attachments: &[&str]) -> OutgoingMessage {
    OutgoingMessage {
        to: to.to_string(),
        subject: subject.to_string(),
        text: "Привет, мир!".to_string(),
        html: html.map(str::to_string),
        attachments: attachments.iter().map(|path| path.to_string()).collect(),
    }
}

fn failure(step: LetterStep) -> String {
    let LetterStep::Failed(error) = step else { panic!() };
    error
}

#[test]
fn outgoing_message_preserves_cyrillic() {
    let step = build_outgoing(
        "sender@example.com",
        outgoing(
            "receiver@example.com",
            "Тема проверки",
            Some("<b>Привет, мир!</b>"),
            &["/tmp/файл-1.txt", "/tmp/файл-2.txt"],
        ),
    );
    let LetterStep::Look { path, then } = step else { panic!() };
    assert_eq!(path, "/tmp/файл-1.txt");
    let LetterStep::Read { path, then } = then.next(Some(3)) else { panic!() };
    assert_eq!(path, "/tmp/файл-1.txt");
    let LetterStep::Look { path, then } = then.next(Some(b"one".to_vec())) else {
        panic!()
    };
    assert_eq!(path, "/tmp/файл-2.txt");
    let LetterStep::Read { then, .. } = then.next(Some(3)) else { panic!() };
    let LetterStep::Done { message } = then.next(Some(b"two".to_vec())) else { panic!() };
    let formatted = message.formatted();
    let parsed = MessageParser::default().parse(&formatted).unwrap();
    assert_eq!(parsed.subject(), Some("Тема проверки"));
    assert!(parsed.body_text(0).unwrap().contains("Привет, мир!"));
    assert_eq!(parsed.attachment_count(), 2);
    assert_eq!(
        parsed
            .attachments()
            .filter_map(|part| part.attachment_name())
            .collect::<Vec<_>>(),
        ["файл-1.txt", "файл-2.txt"]
    );
    assert_eq!(parsed.attachment(0).unwrap().contents(), b"one");
}

#[test]
fn letters_go_to_all_that_are_named() {
    let step = build_outgoing(
        "sender@example.com",
        outgoing("a@example.com, ; b@example.com;c@example.com ", "x", None, &[]),
    );
    let LetterStep::Done { message } = step else { panic!() };
    let to: Vec<_> = message.envelope().to().iter().map(|address| address.to_string()).collect();
    assert_eq!(to, ["a@example.com", "b@example.com", "c@example.com"]);
    assert_eq!(message.envelope().from().unwrap().to_string(), "sender@example.com");
    let formatted = message.formatted();
    let parsed = MessageParser::default().parse(&formatted).unwrap();
    assert_eq!(parsed.subject(), Some("x"));
    assert_eq!(parsed.body_text(0).unwrap().trim_end(), "Привет, мир!");
}

#[test]
fn letters_go_to_mailboxes_with_names() {
    let step = build_outgoing(
        "Отправитель <sender@example.com>",
        outgoing("Имя <a@b.ru>, c+d@example.com; e@f.ru", "x", None, &[]),
    );
    let LetterStep::Done { message } = step else { panic!() };
    let to: Vec<_> = message.envelope().to().iter().map(|address| address.to_string()).collect();
    assert_eq!(to, ["a@b.ru", "c+d@example.com", "e@f.ru"]);
    assert_eq!(message.envelope().from().unwrap().to_string(), "sender@example.com");
    let formatted = message.formatted();
    let parsed = MessageParser::default().parse(&formatted).unwrap();
    assert_eq!(parsed.to().unwrap().first().unwrap().name(), Some("Имя"));
    assert_eq!(parsed.from().unwrap().first().unwrap().name(), Some("Отправитель"));
}

#[test]
fn html_is_sent_where_there_is_any() {
    let html_count = |html: Option<&str>| {
        let LetterStep::Done { message } =
            build_outgoing("a@b.ru", outgoing("c@d.ru", "x", html, &[]))
        else {
            panic!()
        };
        String::from_utf8(message.formatted()).unwrap().matches("text/html").count()
    };
    assert_eq!(html_count(Some("<b>x</b>")), 1);
    assert_eq!(html_count(Some(" \n ")), 0);
    assert_eq!(html_count(None), 0);
}

#[test]
fn texts_are_alternatives_of_each_other() {
    let step = build_outgoing("a@b.ru", outgoing("c@d.ru", "x", Some("<b>x</b>"), &["C:\\t\\a.txt"]));
    let LetterStep::Look { then, .. } = step else { panic!() };
    let LetterStep::Read { then, .. } = then.next(Some(3)) else { panic!() };
    let LetterStep::Done { message } = then.next(Some(b"one".to_vec())) else { panic!() };
    let text = String::from_utf8(message.formatted()).unwrap();
    let mixed = text.find("multipart/mixed").unwrap();
    let alternative = text.find("multipart/alternative").unwrap();
    let plain = text.find("text/plain").unwrap();
    let html = text.find("text/html").unwrap();
    let file = text.find("application/octet-stream").unwrap();
    assert!(mixed < alternative && alternative < plain && plain < html && html < file);
    let boundary = text[alternative..].split('"').nth(1).unwrap();
    assert!(text[html..file].contains(&format!("--{boundary}--")));
}

#[test]
fn addresses_are_split_and_trimmed() {
    assert_eq!(split_addresses(" a, b;;c ,"), ["a", "b", "c"]);
    assert!(split_addresses(" ,; ").is_empty());
    assert!(split_addresses("").is_empty());
}

#[test]
fn letters_that_cannot_be_made_are_told() {
    let step = |from: &str, to: &str, subject: &str| build_outgoing(from, outgoing(to, subject, None, &[]));
    assert_eq!(failure(step("a@b.ru", " ", "x")), "Укажите получателя и корректную тему");
    assert_eq!(failure(step("a@b.ru", "c@d.ru", "x\ny")), "Укажите получателя и корректную тему");
    assert_eq!(failure(step("nobody", "c@d.ru", "x")), "Некорректный адрес отправителя");
    assert_eq!(failure(step("a@b.ru", "c@d.ru, bad; worse", "x")), "Некорректный адрес: bad");
    assert_eq!(failure(step("a@b.ru", ",;", "x")), "Укажите получателя");
}

#[test]
fn attachments_are_limited_and_must_be_readable() {
    let begin = || {
        let LetterStep::Look { then, .. } =
            build_outgoing("a@b.ru", outgoing("c@d.ru", "x", None, &["/t/a", "/t/b"]))
        else {
            panic!()
        };
        then
    };
    assert_eq!(failure(begin().next(None)), "Не удалось открыть вложение: /t/a");
    assert_eq!(
        failure(begin().next(Some(ATTACHED_LIMIT + 1))),
        "Общий размер вложений больше 25 МБ"
    );
    assert_eq!(failure(begin().named(Some(1), None)), "Некорректное имя вложения");
    let LetterStep::Read { then, .. } = begin().next(Some(ATTACHED_LIMIT)) else {
        panic!()
    };
    let LetterStep::Look { then, .. } = then.next(Some(b"x".to_vec())) else { panic!() };
    assert_eq!(failure(then.next(Some(1))), "Общий размер вложений больше 25 МБ");
    let LetterStep::Read { then, .. } = begin().next(Some(1)) else { panic!() };
    assert_eq!(failure(then.next(None)), "Не удалось прочитать вложение: /t/a");
    let LetterStep::Read { then, .. } = begin().next(Some(1)) else { panic!() };
    let LetterStep::Look { then, .. } = then.next(Some(b"x".to_vec())) else { panic!() };
    assert_eq!(failure(then.next(Some(u64::MAX))), "Общий размер вложений больше 25 МБ");
}
