//! Messages as the server sends them.

use yandex_mail::labels::Flag;
use yandex_mail::message::{
    bodystructure_has_attachments, first_fetched, message_detail, parse_summary, raw_message,
    summary_from, BodyCommon, BodyStructure, Disposition, Fetched, Parameter,
};
use yandex_mail::mime::Envelope;

const LETTER: &str = "From: =?utf-8?B?0JDQvdC90LA=?= <anna@example.com>\r\nTo: a@example.com, Boris <b@example.com>\r\nSubject: =?utf-8?B?0KLQtdC80LA=?=\r\nDate: Thu, 01 Jan 1970 00:01:40 +0000\r\nMIME-Version: 1.0\r\nContent-Type: multipart/mixed; boundary=x\r\n\r\n--x\r\nContent-Type: text/plain; charset=utf-8\r\n\r\nbody\r\n--x\r\nContent-Type: image/png\r\nContent-Disposition: attachment\r\nContent-Transfer-Encoding: base64\r\n\r\ncG5n\r\n--x\r\nContent-Type: application/octet-stream\r\nContent-Disposition: attachment; filename=\"a.bin\"\r\n\r\nhello\r\n--x--\r\n";

fn common(
    kind: &str,
    params: Option<Vec<(&str, &str)>>,
    disposition: Option<(&str, Option<Vec<(&str, &str)>>)>,
) -> BodyCommon {
    let list = |params: Vec<(&str, &str)>| {
        params
            .into_iter()
            .map(|(key, value)| Parameter { key: key.to_string(), value: value.to_string() })
            .collect::<Vec<_>>()
    };
    BodyCommon {
        kind: kind.to_string(),
        subtype: "any".to_string(),
        params: params.map(list),
        disposition: disposition.map(|(kind, params)| Disposition {
            kind: kind.to_string(),
            params: params.map(list),
        }),
    }
}

fn fetched(uid: Option<u32>, header: Option<&str>, body: Option<&str>) -> Fetched {
    Fetched {
        uid,
        flags: vec![
            Flag::Flagged,
            Flag::Custom("work".to_string()),
            Flag::Custom("system_x".to_string()),
            Flag::Custom("emailcli-0L8".to_string()),
        ],
        internal_date: Some(5),
        size: Some(9),
        body_structure: Some(BodyStructure::Text { common: common("text", None, None) }),
        header: header.map(|text| text.as_bytes().to_vec()),
        body: body.map(|text| text.as_bytes().to_vec()),
    }
}

#[test]
fn inline_named_binary_part_is_an_attachment() {
    let body = BodyStructure::Basic {
        common: BodyCommon {
            kind: "image".to_string(),
            subtype: "png".to_string(),
            params: None,
            disposition: Some(Disposition {
                kind: "inline".to_string(),
                params: Some(vec![Parameter {
                    key: "filename".to_string(),
                    value: "фото.png".to_string(),
                }]),
            }),
        },
    };
    assert!(bodystructure_has_attachments(&body));
}

#[test]
fn plain_text_is_no_attachment() {
    assert!(!bodystructure_has_attachments(&BodyStructure::Text {
        common: common("text", Some(vec![("charset", "utf-8")]), Some(("inline", None))),
    }));
    assert!(!bodystructure_has_attachments(&BodyStructure::Basic { common: common("TEXT", None, None) }));
    assert!(!bodystructure_has_attachments(&BodyStructure::Message { common: common("message", None, None) }));
}

#[test]
fn files_are_attachments_at_any_depth() {
    let named = BodyStructure::Text { common: common("text", Some(vec![("NAME", "a.txt")]), None) };
    assert!(bodystructure_has_attachments(&named));
    let attached = BodyStructure::Text { common: common("text", None, Some(("ATTACHMENT", None))) };
    assert!(bodystructure_has_attachments(&attached));
    let binary = BodyStructure::Basic { common: common("audio", None, None) };
    assert!(bodystructure_has_attachments(&binary));
    let nested = BodyStructure::Multipart {
        common: common("multipart", None, None),
        bodies: vec![
            BodyStructure::Text { common: common("text", None, None) },
            BodyStructure::Multipart { common: common("multipart", None, None), bodies: vec![binary] },
        ],
    };
    assert!(bodystructure_has_attachments(&nested));
    let texts = BodyStructure::Multipart {
        common: common("multipart", None, None),
        bodies: vec![BodyStructure::Text { common: common("text", None, None) }],
    };
    assert!(!bodystructure_has_attachments(&texts));
}

#[test]
fn headers_become_summaries() {
    let item = fetched(Some(7), None, None);
    let summary = parse_summary(&item, LETTER.as_bytes()).unwrap();
    assert_eq!(summary.uid, 7);
    assert_eq!(summary.subject, "Тема");
    assert_eq!(summary.from_name, "Анна");
    assert_eq!(summary.from_address, "anna@example.com");
    assert_eq!(summary.date, 100);
    assert!(!summary.seen);
    assert!(summary.flagged);
    assert_eq!(summary.labels, ["work", "п"]);
    assert_eq!(summary.size, 9);
    assert!(!summary.has_attachments);
}

#[test]
fn missing_headers_have_defaults() {
    let item = Fetched {
        uid: Some(1),
        flags: vec![Flag::Seen],
        internal_date: None,
        size: None,
        body_structure: None,
        header: None,
        body: None,
    };
    let summary = parse_summary(&item, b"X-Other: 1\r\n\r\n").unwrap();
    assert_eq!(summary.subject, "Без темы");
    assert_eq!((summary.from_name.as_str(), summary.from_address.as_str()), ("", ""));
    assert_eq!((summary.date, summary.size), (0, 0));
    assert!(summary.seen && !summary.flagged && !summary.has_attachments);
    let dated = fetched(Some(1), None, None);
    assert_eq!(parse_summary(&dated, b"X-Other: 1\r\n\r\n").unwrap().date, 5);
}

#[test]
fn summaries_need_a_header_and_a_number() {
    let item = fetched(Some(1), None, None);
    assert_eq!(
        summary_from(&item, None).unwrap_err(),
        "Не удалось разобрать заголовок письма"
    );
    assert_eq!(
        parse_summary(&item, b"").unwrap_err(),
        "Не удалось разобрать заголовок письма"
    );
    let nameless = fetched(None, None, None);
    let envelope = Envelope { subject: None, from_name: None, from_address: None, date: None };
    assert_eq!(
        summary_from(&nameless, Some(envelope)).unwrap_err(),
        "Сервер не вернул UID письма"
    );
}

#[test]
fn messages_are_read_with_their_attachments() {
    let detail = message_detail(vec![None, Some(fetched(Some(7), None, Some(LETTER)))]).unwrap();
    assert_eq!(detail.summary.subject, "Тема");
    assert_eq!(detail.to, "a@example.com, b@example.com");
    assert_eq!(detail.body_text.as_deref().map(str::trim_end), Some("body"));
    assert!(detail.body_html.is_some());
    assert_eq!(detail.attachments.len(), 2);
    assert_eq!(detail.attachments[0].id, 0);
    assert_eq!(detail.attachments[0].filename, "Вложение 1.png");
    assert_eq!(detail.attachments[0].mime_type, "image/png");
    assert_eq!(detail.attachments[0].size, 3);
    assert_eq!(detail.attachments[1].id, 1);
    assert_eq!(detail.attachments[1].filename, "a.bin");
    assert_eq!(detail.attachments[1].mime_type, "application/octet-stream");
}

#[test]
fn messages_that_cannot_be_read_are_told() {
    assert_eq!(message_detail(vec![None]).unwrap_err(), "Письмо не найдено");
    assert_eq!(
        message_detail(vec![Some(fetched(Some(1), None, None))]).unwrap_err(),
        "Сервер не вернул письмо"
    );
    assert_eq!(
        message_detail(vec![Some(fetched(Some(1), None, Some("")))]).unwrap_err(),
        "Не удалось разобрать письмо"
    );
    assert_eq!(
        message_detail(vec![Some(fetched(None, None, Some(LETTER)))]).unwrap_err(),
        "Сервер не вернул UID письма"
    );
}

#[test]
fn the_first_message_that_came_counts() {
    assert!(first_fetched(vec![None, None]).is_none());
    let first = first_fetched(vec![
        None,
        Some(fetched(Some(3), None, None)),
        Some(fetched(Some(4), None, Some("x"))),
    ])
    .unwrap();
    assert_eq!(first.uid, Some(3));
    assert_eq!(
        raw_message(vec![Some(fetched(Some(3), None, None)), Some(fetched(Some(4), None, Some("x")))]).unwrap_err(),
        "Письмо не найдено"
    );
    assert_eq!(raw_message(vec![Some(fetched(Some(4), None, Some("x")))]).unwrap(), b"x");
    assert_eq!(raw_message(Vec::new()).unwrap_err(), "Письмо не найдено");
}
