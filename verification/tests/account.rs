//! The account.

use yandex_mail::account::{
    connect_error, get_account, import_password_from_stdin, load_account, password_saved,
    settings_file, ConnectFailure, LoadStep, Loaded, SaveReply, SettingsFile, VaultReply,
};
use yandex_mail::model::Account;
use yandex_mail::replace_account::{replace_account, CheckReply, ReplaceStep, VaultAction};

const OWN: &str = "ru.hobbyka.yandex-mail.v2";

fn account(email: &str) -> Account {
    Account {
        email: email.into(),
        imap_host: "imap.yandex.ru".into(),
        imap_port: 993,
        smtp_host: "smtp.yandex.ru".into(),
        smtp_port: 465,
    }
}

fn loaded(email: &str, password: &str) -> Option<Loaded> {
    Some(Loaded { account: account(email), password: password.into() })
}

fn shown(actions: &[VaultAction]) -> Vec<String> {
    actions
        .iter()
        .map(|action| match action {
            VaultAction::Save(entry) => {
                format!("save {} {} {}", entry.service, entry.user, entry.password)
            }
            VaultAction::Forget { service, user } => format!("forget {service} {user}"),
            VaultAction::Purge { email } => format!("purge {email}"),
        })
        .collect()
}

#[test]
fn settings_are_read_or_the_reason_is_told() {
    assert_eq!(settings_file(), [".config", "email-cli", "account.json"]);
    assert_eq!(get_account(SettingsFile::Read(account("a"))).unwrap().email, "a");
    assert_eq!(
        get_account(SettingsFile::NoHome).unwrap_err(),
        "Не удалось определить домашнюю папку"
    );
    assert_eq!(get_account(SettingsFile::Missing).unwrap_err(), "Почта ещё не настроена");
    assert_eq!(get_account(SettingsFile::Damaged).unwrap_err(), "Настройки почты повреждены");
}

#[test]
fn the_own_entry_comes_first() {
    let LoadStep::AskOwn { service, user, then } = load_account(account("a")) else {
        panic!()
    };
    assert_eq!((service.as_str(), user.as_str()), (OWN, "a"));
    let step = then.next(VaultReply::Password("p".into()));
    assert!(matches!(step, LoadStep::Done(l) if l.password == "p" && l.account.email == "a"));
}

#[test]
fn the_shared_entry_is_taken_over() {
    let LoadStep::AskOwn { then, .. } = load_account(account("a")) else { panic!() };
    let LoadStep::AskShared { service, user, then } = then.next(VaultReply::NoEntry) else {
        panic!()
    };
    assert_eq!((service.as_str(), user.as_str()), ("email-cli", "a"));
    let LoadStep::Keep { service, user, password, then } =
        then.next(VaultReply::Password("p".into()))
    else {
        panic!()
    };
    assert_eq!((service.as_str(), user.as_str(), password.as_str()), (OWN, "a", "p"));
    assert_eq!(then.password, "p");
}

#[test]
fn passwords_that_cannot_be_loaded_are_told() {
    let own = || {
        let LoadStep::AskOwn { then, .. } = load_account(account("a")) else { panic!() };
        then
    };
    let shared = || {
        let LoadStep::AskShared { then, .. } = own().next(VaultReply::NoEntry) else {
            panic!()
        };
        then
    };
    let closed = "Не удалось открыть хранилище паролей";
    let missing = "Пароль приложения не найден";
    assert!(matches!(own().next(VaultReply::Closed), LoadStep::Failed(e) if e == closed));
    assert!(matches!(own().next(VaultReply::Failed), LoadStep::Failed(e) if e == missing));
    assert!(matches!(shared().next(VaultReply::Closed), LoadStep::Failed(e) if e == closed));
    assert!(matches!(shared().next(VaultReply::Failed), LoadStep::Failed(e) if e == missing));
    assert!(matches!(shared().next(VaultReply::NoEntry), LoadStep::Failed(e) if e == missing));
}

#[test]
fn a_password_is_taken_from_the_standard_input() {
    let entry = import_password_from_stdin(&account("a"), Some(" pass word\r\n\n".into())).unwrap();
    assert_eq!(
        (entry.service.as_str(), entry.user.as_str(), entry.password.as_str()),
        (OWN, "a", " pass word")
    );
    assert_eq!(
        import_password_from_stdin(&account("a"), Some("\r\n".into())).unwrap_err(),
        "Пароль не передан"
    );
    assert_eq!(
        import_password_from_stdin(&account("a"), None).unwrap_err(),
        "Не удалось прочитать пароль"
    );
    assert!(password_saved(SaveReply::Saved).is_ok());
    assert_eq!(
        password_saved(SaveReply::Closed).unwrap_err(),
        "Не удалось открыть хранилище паролей"
    );
    assert_eq!(password_saved(SaveReply::Failed).unwrap_err(), "Не удалось сохранить пароль");
}

#[test]
fn failed_connections_are_told() {
    let text = || "x".to_string();
    for (failure, expected) in [
        (ConnectFailure::NoAnswer, "Сервер почты не ответил вовремя"),
        (ConnectFailure::Refused(text()), "Не удалось подключиться к почте: x"),
        (ConnectFailure::NoTls(text()), "Не удалось подготовить защищённое соединение: x"),
        (ConnectFailure::TlsNoAnswer, "Защищённое соединение не ответило вовремя"),
        (ConnectFailure::TlsFailed(text()), "Ошибка защищённого соединения: x"),
        (ConnectFailure::LoginNoAnswer, "Вход в почту не завершился вовремя"),
        (ConnectFailure::LoginFailed(text()), "Не удалось войти в почту: x"),
        (ConnectFailure::RelayRefused(text()), "Не удалось подготовить отправку: x"),
        (ConnectFailure::SendNoAnswer, "Сервер отправки не ответил вовремя"),
        (ConnectFailure::SendFailed(text()), "Не удалось отправить письмо: x"),
    ] {
        assert_eq!(connect_error(failure), expected);
    }
}

/// Replaces the account up to the point where the settings are written.
fn up_to_settings(email: &str, previous: Option<Loaded>) -> ReplaceStep {
    let ReplaceStep::LoadPrevious { then } = replace_account(account(email), "new".into()) else {
        panic!()
    };
    let ReplaceStep::Check { account, password, then } = then.next(previous) else {
        panic!()
    };
    assert_eq!((account.email.as_str(), password.as_str()), (email, "new"));
    let ReplaceStep::SaveOwn { entry, then } = then.next(CheckReply::Passed) else {
        panic!()
    };
    assert_eq!(
        (entry.service.as_str(), entry.user.as_str(), entry.password.as_str()),
        (OWN, email, "new")
    );
    let ReplaceStep::SaveShared { entry, then } = then.next(SaveReply::Saved) else {
        panic!()
    };
    assert_eq!(
        (entry.service.as_str(), entry.user.as_str(), entry.password.as_str()),
        ("email-cli", email, "new")
    );
    then.next(Ok(()))
}

fn finished(step: ReplaceStep) -> (Vec<String>, Result<(), String>) {
    let ReplaceStep::Finish { cleanup, result } = step else { panic!() };
    (shown(&cleanup), result)
}

#[test]
fn an_account_is_replaced_and_the_old_one_forgotten() {
    let ReplaceStep::WriteSettings { account, then } =
        up_to_settings("new@x", loaded("old@x", "p"))
    else {
        panic!()
    };
    assert_eq!(account.email, "new@x");
    let (cleanup, result) = finished(then.next(Ok(())));
    assert_eq!(
        cleanup,
        [
            "purge old@x".to_string(),
            format!("forget {OWN} old@x"),
            "forget email-cli old@x".to_string(),
        ]
    );
    assert!(result.is_ok());
    let ReplaceStep::WriteSettings { then, .. } = up_to_settings("a@x", loaded("a@x", "p")) else {
        panic!()
    };
    assert!(finished(then.next(Ok(()))).0.is_empty());
}

#[test]
fn passwords_are_taken_back_when_the_settings_cannot_be_written() {
    let ReplaceStep::WriteSettings { then, .. } = up_to_settings("a@x", loaded("a@x", "p")) else {
        panic!()
    };
    let (cleanup, result) = finished(then.next(Err("no".into())));
    assert_eq!(cleanup, [format!("save {OWN} a@x p"), "save email-cli a@x p".to_string()]);
    assert_eq!(result.unwrap_err(), "no");
    let ReplaceStep::WriteSettings { then, .. } = up_to_settings("a@x", loaded("b@x", "p")) else {
        panic!()
    };
    let (cleanup, _) = finished(then.next(Err("no".into())));
    assert_eq!(cleanup, [format!("forget {OWN} a@x"), "forget email-cli a@x".to_string()]);
}

#[test]
fn an_account_that_cannot_be_used_changes_nothing() {
    assert_eq!(
        finished(replace_account(account("  "), "p".into())).1.unwrap_err(),
        "Укажите адрес и пароль приложения"
    );
    assert!(finished(replace_account(account("a"), String::new())).1.is_err());
    let check = || {
        let ReplaceStep::LoadPrevious { then } = replace_account(account("a"), "p".into()) else {
            panic!()
        };
        let ReplaceStep::Check { then, .. } = then.next(None) else { panic!() };
        then
    };
    assert_eq!(
        finished(check().next(CheckReply::Refused("no".into()))),
        (vec![], Err("no".into()))
    );
    assert_eq!(
        finished(check().next(CheckReply::NotClosed("no".into()))).1.unwrap_err(),
        "Не удалось завершить проверку аккаунта: no"
    );
    let own = || {
        let ReplaceStep::SaveOwn { then, .. } = check().next(CheckReply::Passed) else {
            panic!()
        };
        then
    };
    assert_eq!(
        finished(own().next(SaveReply::Closed)).1.unwrap_err(),
        "Не удалось открыть хранилище паролей"
    );
    assert_eq!(
        finished(own().next(SaveReply::Failed)).1.unwrap_err(),
        "Не удалось сохранить пароль"
    );
    let ReplaceStep::SaveShared { then, .. } = own().next(SaveReply::Saved) else {
        panic!()
    };
    let (cleanup, result) = finished(then.next(Err("no".into())));
    assert_eq!(cleanup, [format!("forget {OWN} a")]);
    assert_eq!(result.unwrap_err(), "Не удалось сохранить пароль для email-cli: no");
}
