//! The mail account: its settings, its password and how it is replaced.
//!
//! Passwords lie in a vault of the system, under a service and a user. The
//! program has an entry of its own and shares another one with a command line
//! tool.

use crate::model::Account;
use crate::text::{cut_line_end, prefixed, texts, without_line_end};
use vstd::prelude::*;
use vstd::string::*;

verus! {

broadcast use vstd::string::group_string_axioms;

/// The service of the program's own entry in the vault.
pub open spec fn app_service() -> Seq<char> {
    "ru.hobbyka.yandex-mail.v2"@
}

/// The service of the entry that is shared with the command line tool.
pub open spec fn cli_service() -> Seq<char> {
    "email-cli"@
}

fn own_service() -> (service: String)
    ensures
        service@ == app_service(),
{
    "ru.hobbyka.yandex-mail.v2".to_owned()
}

fn shared_service() -> (service: String)
    ensures
        service@ == cli_service(),
{
    "email-cli".to_owned()
}

// ---------------------------------------------------------------------------
// Settings
// ---------------------------------------------------------------------------

/// What came of reading the settings.
#[derive(Debug)]
pub enum SettingsFile {
    /// The home directory is not known.
    NoHome,
    /// There is no file, or it cannot be read.
    Missing,
    /// The file does not hold settings.
    Damaged,
    /// The settings.
    Read(Account),
}

/// The names on the way from the home directory to the settings.
pub fn settings_file() -> (path: Vec<String>)
    ensures
        texts(path@) == seq![".config"@, "email-cli"@, "account.json"@],
{
    let mut path: Vec<String> = Vec::new();
    path.push(".config".to_owned());
    path.push("email-cli".to_owned());
    path.push("account.json".to_owned());
    assert(texts(path@) == seq![".config"@, "email-cli"@, "account.json"@]);
    path
}

/// The settings, or the reason why there are none.
pub fn get_account(file: SettingsFile) -> (account: Result<Account, String>)
    ensures
        match file {
            SettingsFile::Read(settings) => account == Ok::<Account, String>(settings),
            SettingsFile::NoHome => account matches Err(e) && e@
                == "Не удалось определить домашнюю папку"@,
            SettingsFile::Missing => account matches Err(e) && e@ == "Почта ещё не настроена"@,
            SettingsFile::Damaged => account matches Err(e) && e@
                == "Настройки почты повреждены"@,
        },
{
    match file {
        SettingsFile::Read(settings) => Ok(settings),
        SettingsFile::NoHome => Err("Не удалось определить домашнюю папку".to_owned()),
        SettingsFile::Missing => Err("Почта ещё не настроена".to_owned()),
        SettingsFile::Damaged => Err("Настройки почты повреждены".to_owned()),
    }
}

// ---------------------------------------------------------------------------
// The password
// ---------------------------------------------------------------------------

/// What came of asking the vault for a password.
#[derive(Debug)]
pub enum VaultReply {
    /// The vault cannot be opened.
    Closed,
    /// There is no such entry.
    NoEntry,
    /// The entry cannot be read.
    Failed,
    /// The password.
    Password(String),
}

/// What came of putting a password into the vault.
#[derive(Debug)]
pub enum SaveReply {
    /// The vault cannot be opened.
    Closed,
    /// The entry cannot be written.
    Failed,
    /// The entry is written.
    Saved,
}

/// The next step of loading the account with its password.
#[allow(inconsistent_fields)]
#[derive(Debug)]
pub enum LoadStep {
    /// Ask for the program's own entry.
    AskOwn { service: String, user: String, then: LoadOwn },
    /// Ask for the shared entry.
    AskShared { service: String, user: String, then: LoadShared },
    /// Put the password into the program's own entry; it does not matter
    /// whether that works.
    Keep { service: String, user: String, password: String, then: Loaded },
    /// The account is loaded.
    Done(Loaded),
    /// The account cannot be loaded.
    Failed(String),
}

/// Goes on when the program's own entry is known.
#[derive(Debug)]
pub struct LoadOwn {
    pub account: Account,
}

/// Goes on when the shared entry is known.
#[derive(Debug)]
pub struct LoadShared {
    pub account: Account,
}

/// An account with its password.
#[derive(Debug)]
pub struct Loaded {
    pub account: Account,
    pub password: String,
}

/// Whether a step is a failure with a text.
pub open spec fn load_fails(step: LoadStep, error: Seq<char>) -> bool {
    step matches LoadStep::Failed(e) && e@ == error
}

/// Begins to load the account that settings name.
pub fn load_account(account: Account) -> (step: LoadStep)
    ensures
        step matches LoadStep::AskOwn { service, user, then } && service@ == app_service()
            && user@ == account.email@ && then.account == account,
{
    let user = account.email.as_str().to_owned();
    LoadStep::AskOwn { service: own_service(), user, then: LoadOwn { account } }
}

impl LoadOwn {
    /// Takes the password of the program's own entry; where there is no such
    /// entry, the shared one is asked for.
    pub fn next(self, reply: VaultReply) -> (step: LoadStep)
        ensures
            match reply {
                VaultReply::Closed => load_fails(step, "Не удалось открыть хранилище паролей"@),
                VaultReply::Failed => load_fails(step, "Пароль приложения не найден"@),
                VaultReply::Password(password) => step == LoadStep::Done(
                    Loaded { account: self.account, password },
                ),
                VaultReply::NoEntry => step matches LoadStep::AskShared { service, user, then }
                    && service@ == cli_service() && user@ == self.account.email@ && then.account
                    == self.account,
            },
    {
        match reply {
            VaultReply::Closed => LoadStep::Failed(
                "Не удалось открыть хранилище паролей".to_owned(),
            ),
            VaultReply::Failed => LoadStep::Failed("Пароль приложения не найден".to_owned()),
            VaultReply::Password(password) => LoadStep::Done(
                Loaded { account: self.account, password },
            ),
            VaultReply::NoEntry => {
                let user = self.account.email.as_str().to_owned();
                LoadStep::AskShared {
                    service: shared_service(),
                    user,
                    then: LoadShared { account: self.account },
                }
            },
        }
    }
}

impl LoadShared {
    /// Takes the password of the shared entry, and keeps it in the program's
    /// own entry for the next time.
    pub fn next(self, reply: VaultReply) -> (step: LoadStep)
        ensures
            match reply {
                VaultReply::Closed => load_fails(step, "Не удалось открыть хранилище паролей"@),
                VaultReply::Failed => load_fails(step, "Пароль приложения не найден"@),
                VaultReply::NoEntry => load_fails(step, "Пароль приложения не найден"@),
                VaultReply::Password(password) => {
                    &&& step matches LoadStep::Keep { service, user, password: kept, then }
                    &&& service@ == app_service()
                    &&& user@ == self.account.email@
                    &&& kept@ == password@
                    &&& then == (Loaded { account: self.account, password })
                },
            },
    {
        match reply {
            VaultReply::Closed => LoadStep::Failed(
                "Не удалось открыть хранилище паролей".to_owned(),
            ),
            VaultReply::Failed => LoadStep::Failed("Пароль приложения не найден".to_owned()),
            VaultReply::NoEntry => LoadStep::Failed("Пароль приложения не найден".to_owned()),
            VaultReply::Password(password) => {
                let user = self.account.email.as_str().to_owned();
                let kept = password.as_str().to_owned();
                LoadStep::Keep {
                    service: own_service(),
                    user,
                    password: kept,
                    then: Loaded { account: self.account, password },
                }
            },
        }
    }
}

/// An entry that is put into the vault.
#[derive(Debug)]
pub struct VaultEntry {
    pub service: String,
    pub user: String,
    pub password: String,
}

/// Whether an entry holds a password for a user of a service.
pub open spec fn is_entry(
    entry: VaultEntry,
    service: Seq<char>,
    user: Seq<char>,
    password: Seq<char>,
) -> bool {
    entry.service@ == service && entry.user@ == user && entry.password@ == password
}

/// The entry for a password that is handed over on the standard input: what
/// was read without the line ends behind it; an error where nothing could be
/// read, and where nothing is left.
pub fn import_password_from_stdin(account: &Account, input: Option<String>) -> (entry: Result<
    VaultEntry,
    String,
>)
    ensures
        entry is Ok <==> input is Some && without_line_end(input->0@).len() > 0,
        entry matches Ok(e) ==> is_entry(
            e,
            app_service(),
            account.email@,
            without_line_end(input->0@),
        ),
        entry matches Err(e) ==> e@ == (if input is None {
            "Не удалось прочитать пароль"@
        } else {
            "Пароль не передан"@
        }),
{
    let input = match input {
        Some(input) => input,
        None => {
            return Err("Не удалось прочитать пароль".to_owned());
        },
    };
    let password = cut_line_end(input.as_str());
    if password.is_empty() {
        return Err("Пароль не передан".to_owned());
    }
    Ok(
        VaultEntry {
            service: own_service(),
            user: account.email.as_str().to_owned(),
            password: password.to_owned(),
        },
    )
}

/// What is said of a password that was put into the vault.
pub fn password_saved(reply: SaveReply) -> (result: Result<(), String>)
    ensures
        match reply {
            SaveReply::Saved => result is Ok,
            SaveReply::Closed => result matches Err(e) && e@
                == "Не удалось открыть хранилище паролей"@,
            SaveReply::Failed => result matches Err(e) && e@ == "Не удалось сохранить пароль"@,
        },
{
    match reply {
        SaveReply::Saved => Ok(()),
        SaveReply::Closed => Err("Не удалось открыть хранилище паролей".to_owned()),
        SaveReply::Failed => Err("Не удалось сохранить пароль".to_owned()),
    }
}

// ---------------------------------------------------------------------------
// Connecting
// ---------------------------------------------------------------------------

/// What went wrong with a connection to the mail server or to the server for
/// outgoing mail; the text is what was reported.
#[derive(Debug)]
pub enum ConnectFailure {
    NoAnswer,
    Refused(String),
    NoTls(String),
    TlsNoAnswer,
    TlsFailed(String),
    LoginNoAnswer,
    LoginFailed(String),
    RelayRefused(String),
    SendNoAnswer,
    SendFailed(String),
}

/// What is said of a connection that failed.
pub open spec fn connect_text(failure: ConnectFailure) -> Seq<char> {
    match failure {
        ConnectFailure::NoAnswer => "Сервер почты не ответил вовремя"@,
        ConnectFailure::Refused(e) => "Не удалось подключиться к почте: "@ + e@,
        ConnectFailure::NoTls(e) => "Не удалось подготовить защищённое соединение: "@ + e@,
        ConnectFailure::TlsNoAnswer => "Защищённое соединение не ответило вовремя"@,
        ConnectFailure::TlsFailed(e) => "Ошибка защищённого соединения: "@ + e@,
        ConnectFailure::LoginNoAnswer => "Вход в почту не завершился вовремя"@,
        ConnectFailure::LoginFailed(e) => "Не удалось войти в почту: "@ + e@,
        ConnectFailure::RelayRefused(e) => "Не удалось подготовить отправку: "@ + e@,
        ConnectFailure::SendNoAnswer => "Сервер отправки не ответил вовремя"@,
        ConnectFailure::SendFailed(e) => "Не удалось отправить письмо: "@ + e@,
    }
}

/// Says what went wrong with a connection.
pub fn connect_error(failure: ConnectFailure) -> (text: String)
    ensures
        text@ == connect_text(failure),
{
    match failure {
        ConnectFailure::NoAnswer => "Сервер почты не ответил вовремя".to_owned(),
        ConnectFailure::Refused(e) => prefixed("Не удалось подключиться к почте: ", e.as_str()),
        ConnectFailure::NoTls(e) => prefixed("Не удалось подготовить защищённое соединение: ", e.as_str()),
        ConnectFailure::TlsNoAnswer => "Защищённое соединение не ответило вовремя".to_owned(),
        ConnectFailure::TlsFailed(e) => prefixed("Ошибка защищённого соединения: ", e.as_str()),
        ConnectFailure::LoginNoAnswer => "Вход в почту не завершился вовремя".to_owned(),
        ConnectFailure::LoginFailed(e) => prefixed("Не удалось войти в почту: ", e.as_str()),
        ConnectFailure::RelayRefused(e) => prefixed("Не удалось подготовить отправку: ", e.as_str()),
        ConnectFailure::SendNoAnswer => "Сервер отправки не ответил вовремя".to_owned(),
        ConnectFailure::SendFailed(e) => prefixed("Не удалось отправить письмо: ", e.as_str()),
    }
}

} // verus!
