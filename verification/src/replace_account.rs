//! How the account is replaced by another one: the new one is tried, its
//! password is put into the vault, its settings are written, and then the old
//! one is forgotten. Where something fails, the vault is put right again.

use crate::account::{app_service, cli_service, is_entry, Loaded, SaveReply, VaultEntry};
use crate::model::Account;
use crate::text::{prefixed, trim, trimmed, views};
use vstd::prelude::*;
use vstd::string::*;

verus! {

broadcast use vstd::string::group_string_axioms;

/// A change of what is kept; it does not matter whether it works.
#[derive(Debug)]
pub enum VaultAction {
    /// Put an entry into the vault.
    Save(VaultEntry),
    /// Take an entry out of the vault.
    Forget { service: String, user: String },
    /// Delete the cache of an account.
    Purge { email: String },
}

/// What a change stands for.
#[verifier::ext_equal]
pub enum VaultActionView {
    Save(Seq<char>, Seq<char>, Seq<char>),
    Forget(Seq<char>, Seq<char>),
    Purge(Seq<char>),
}

impl View for VaultAction {
    type V = VaultActionView;

    open spec fn view(&self) -> VaultActionView {
        match self {
            VaultAction::Save(entry) => VaultActionView::Save(
                entry.service@,
                entry.user@,
                entry.password@,
            ),
            VaultAction::Forget { service, user } => VaultActionView::Forget(service@, user@),
            VaultAction::Purge { email } => VaultActionView::Purge(email@),
        }
    }
}

/// What came of trying an account.
#[derive(Debug)]
pub enum CheckReply {
    /// The connection failed.
    Refused(String),
    /// The connection could not be closed.
    NotClosed(String),
    /// The account can be used.
    Passed,
}

/// The next step of replacing the account.
#[allow(inconsistent_fields)]
#[derive(Debug)]
pub enum ReplaceStep {
    /// Load the account that is replaced, if there is one.
    LoadPrevious { then: ReplacePrevious },
    /// Connect with the new account and close the connection again.
    Check { account: Account, password: String, then: ReplaceCheck },
    /// Put the program's own entry into the vault.
    SaveOwn { entry: VaultEntry, then: ReplaceOwn },
    /// Put the shared entry into the vault.
    SaveShared { entry: VaultEntry, then: ReplaceShared },
    /// Write the settings.
    WriteSettings { account: Account, then: ReplaceWrite },
    /// Put right what is kept, and report the result.
    Finish { cleanup: Vec<VaultAction>, result: Result<(), String> },
}

/// Goes on when the account that is replaced is known.
#[derive(Debug)]
pub struct ReplacePrevious {
    pub account: Account,
    pub password: String,
}

/// Goes on when the new account has been tried.
#[derive(Debug)]
pub struct ReplaceCheck {
    pub account: Account,
    pub password: String,
    pub previous: Option<Loaded>,
}

/// Goes on when the program's own entry is in the vault.
#[derive(Debug)]
pub struct ReplaceOwn {
    pub account: Account,
    pub password: String,
    pub previous: Option<Loaded>,
}

/// Goes on when the shared entry is in the vault.
#[derive(Debug)]
pub struct ReplaceShared {
    pub account: Account,
    pub previous: Option<Loaded>,
}

/// Goes on when the settings are written.
#[derive(Debug)]
pub struct ReplaceWrite {
    pub email: String,
    pub previous: Option<Loaded>,
}

/// Whether a step ends with an error, after changes of what is kept.
pub open spec fn ends_with_error(
    step: ReplaceStep,
    changes: Seq<VaultActionView>,
    error: Seq<char>,
) -> bool {
    &&& step matches ReplaceStep::Finish { cleanup, result }
    &&& views(cleanup@) == changes
    &&& result matches Err(e)
    &&& e@ == error
}

/// Whether a step ends well, after changes of what is kept.
pub open spec fn ends_well(step: ReplaceStep, changes: Seq<VaultActionView>) -> bool {
    &&& step matches ReplaceStep::Finish { cleanup, result }
    &&& views(cleanup@) == changes
    &&& result is Ok
}

fn no_actions() -> (actions: Vec<VaultAction>)
    ensures
        actions@ == Seq::<VaultAction>::empty(),
        views(actions@) == Seq::<VaultActionView>::empty(),
{
    let actions: Vec<VaultAction> = Vec::new();
    assert(views(actions@) == Seq::<VaultActionView>::empty());
    actions
}

fn stop(error: String) -> (step: ReplaceStep)
    ensures
        ends_with_error(step, Seq::empty(), error@),
{
    ReplaceStep::Finish { cleanup: no_actions(), result: Err(error) }
}

fn stop_with(prefix: &str, error: String) -> (step: ReplaceStep)
    ensures
        ends_with_error(step, Seq::empty(), prefix@ + error@),
{
    stop(prefixed(prefix, error.as_str()))
}

fn copy_account(account: &Account) -> (copy: Account)
    ensures
        copy@ == account@,
{
    Account {
        email: account.email.as_str().to_owned(),
        imap_host: account.imap_host.as_str().to_owned(),
        imap_port: account.imap_port,
        smtp_host: account.smtp_host.as_str().to_owned(),
        smtp_port: account.smtp_port,
    }
}

fn entry_for(service: &str, user: &str, password: &str) -> (entry: VaultEntry)
    ensures
        is_entry(entry, service@, user@, password@),
{
    VaultEntry {
        service: service.to_owned(),
        user: user.to_owned(),
        password: password.to_owned(),
    }
}

/// Begins to replace the account; an error where the address or the password
/// is missing.
pub fn replace_account(account: Account, password: String) -> (step: ReplaceStep)
    ensures
        if trimmed(account.email@).len() == 0 || password@.len() == 0 {
            ends_with_error(step, Seq::empty(), "Укажите адрес и пароль приложения"@)
        } else {
            step matches ReplaceStep::LoadPrevious { then } && then == (ReplacePrevious {
                account,
                password,
            })
        },
{
    if trim(account.email.as_str()).is_empty() || password.as_str().is_empty() {
        return stop("Укажите адрес и пароль приложения".to_owned());
    }
    ReplaceStep::LoadPrevious { then: ReplacePrevious { account, password } }
}

impl ReplacePrevious {
    /// Tries the new account.
    pub fn next(self, previous: Option<Loaded>) -> (step: ReplaceStep)
        ensures
            step matches ReplaceStep::Check { account, password, then } && account@
                == self.account@ && password@ == self.password@ && then == (ReplaceCheck {
                account: self.account,
                password: self.password,
                previous,
            }),
    {
        let account = copy_account(&self.account);
        let password = self.password.as_str().to_owned();
        ReplaceStep::Check {
            account,
            password,
            then: ReplaceCheck { account: self.account, password: self.password, previous },
        }
    }
}

impl ReplaceCheck {
    /// Puts the password of an account that can be used into the program's own
    /// entry.
    pub fn next(self, reply: CheckReply) -> (step: ReplaceStep)
        ensures
            match reply {
                CheckReply::Refused(error) => ends_with_error(step, Seq::empty(), error@),
                CheckReply::NotClosed(error) => ends_with_error(
                    step,
                    Seq::empty(),
                    "Не удалось завершить проверку аккаунта: "@ + error@,
                ),
                CheckReply::Passed => {
                    &&& step matches ReplaceStep::SaveOwn { entry, then }
                    &&& is_entry(entry, app_service(), self.account.email@, self.password@)
                    &&& then == (ReplaceOwn {
                        account: self.account,
                        password: self.password,
                        previous: self.previous,
                    })
                },
            },
    {
        match reply {
            CheckReply::Refused(error) => stop(error),
            CheckReply::NotClosed(error) => stop_with(
                "Не удалось завершить проверку аккаунта: ",
                error,
            ),
            CheckReply::Passed => {
                let entry = entry_for(
                    "ru.hobbyka.yandex-mail.v2",
                    self.account.email.as_str(),
                    self.password.as_str(),
                );
                ReplaceStep::SaveOwn {
                    entry,
                    then: ReplaceOwn {
                        account: self.account,
                        password: self.password,
                        previous: self.previous,
                    },
                }
            },
        }
    }
}

impl ReplaceOwn {
    /// Puts the password into the shared entry too.
    pub fn next(self, reply: SaveReply) -> (step: ReplaceStep)
        ensures
            match reply {
                SaveReply::Closed => ends_with_error(
                    step,
                    Seq::empty(),
                    "Не удалось открыть хранилище паролей"@,
                ),
                SaveReply::Failed => ends_with_error(
                    step,
                    Seq::empty(),
                    "Не удалось сохранить пароль"@,
                ),
                SaveReply::Saved => {
                    &&& step matches ReplaceStep::SaveShared { entry, then }
                    &&& is_entry(entry, cli_service(), self.account.email@, self.password@)
                    &&& then == (ReplaceShared {
                        account: self.account,
                        previous: self.previous,
                    })
                },
            },
    {
        match reply {
            SaveReply::Closed => stop("Не удалось открыть хранилище паролей".to_owned()),
            SaveReply::Failed => stop("Не удалось сохранить пароль".to_owned()),
            SaveReply::Saved => {
                let entry = entry_for(
                    "email-cli",
                    self.account.email.as_str(),
                    self.password.as_str(),
                );
                ReplaceStep::SaveShared {
                    entry,
                    then: ReplaceShared { account: self.account, previous: self.previous },
                }
            },
        }
    }
}

impl ReplaceShared {
    /// Writes the settings; where the shared entry could not be written, the
    /// program's own one is taken back.
    pub fn next(self, reply: Result<(), String>) -> (step: ReplaceStep)
        ensures
            match reply {
                Err(error) => ends_with_error(
                    step,
                    seq![VaultActionView::Forget(app_service(), self.account.email@)],
                    "Не удалось сохранить пароль для email-cli: "@ + error@,
                ),
                Ok(_) => {
                    &&& step matches ReplaceStep::WriteSettings { account, then }
                    &&& account == self.account
                    &&& then.email@ == self.account.email@
                    &&& then.previous == self.previous
                },
            },
    {
        match reply {
            Ok(_) => {
                let email = self.account.email.as_str().to_owned();
                ReplaceStep::WriteSettings {
                    account: self.account,
                    then: ReplaceWrite { email, previous: self.previous },
                }
            },
            Err(error) => {
                let text = prefixed(
                    "Не удалось сохранить пароль для email-cli: ",
                    error.as_str(),
                );
                let mut cleanup = no_actions();
                cleanup.push(
                    VaultAction::Forget {
                        service: "ru.hobbyka.yandex-mail.v2".to_owned(),
                        user: self.account.email,
                    },
                );
                assert(views(cleanup@) == seq![
                    VaultActionView::Forget(app_service(), self.account.email@),
                ]);
                ReplaceStep::Finish { cleanup, result: Err(text) }
            },
        }
    }
}

/// What is put right where the settings could not be written: the account that
/// is replaced keeps its password, and another one leaves no password behind.
pub open spec fn taken_back(email: Seq<char>, previous: Option<Loaded>) -> Seq<VaultActionView> {
    if previous matches Some(p) && p.account.email@ == email {
        seq![
            VaultActionView::Save(app_service(), email, previous->0.password@),
            VaultActionView::Save(cli_service(), email, previous->0.password@),
        ]
    } else {
        seq![
            VaultActionView::Forget(app_service(), email),
            VaultActionView::Forget(cli_service(), email),
        ]
    }
}

/// What is forgotten when the account is replaced by another one.
pub open spec fn forgotten(email: Seq<char>, previous: Option<Loaded>) -> Seq<VaultActionView> {
    if previous matches Some(p) && p.account.email@ != email {
        let old_email = previous->0.account.email@;
        seq![
            VaultActionView::Purge(old_email),
            VaultActionView::Forget(app_service(), old_email),
            VaultActionView::Forget(cli_service(), old_email),
        ]
    } else {
        Seq::empty()
    }
}

fn take_back(email: &str, previous: &Option<Loaded>) -> (actions: Vec<VaultAction>)
    ensures
        views(actions@) == taken_back(email@, *previous),
{
    let mut actions = no_actions();
    match previous {
        Some(loaded) => {
            if loaded.account.email.as_str().eq(email) {
                let password = loaded.password.as_str();
                actions.push(
                    VaultAction::Save(entry_for("ru.hobbyka.yandex-mail.v2", email, password)),
                );
                actions.push(VaultAction::Save(entry_for("email-cli", email, password)));
                assert(views(actions@) == taken_back(email@, *previous));
                return actions;
            }
        },
        None => {},
    }
    actions.push(
        VaultAction::Forget {
            service: "ru.hobbyka.yandex-mail.v2".to_owned(),
            user: email.to_owned(),
        },
    );
    actions.push(VaultAction::Forget { service: "email-cli".to_owned(), user: email.to_owned() });
    assert(views(actions@) == taken_back(email@, *previous));
    actions
}

fn forget_previous(email: &str, previous: Option<Loaded>) -> (actions: Vec<VaultAction>)
    ensures
        views(actions@) == forgotten(email@, previous),
{
    let mut actions = no_actions();
    match previous {
        Some(loaded) => {
            let old_email = loaded.account.email;
            if !old_email.as_str().eq(email) {
                actions.push(VaultAction::Purge { email: old_email.as_str().to_owned() });
                actions.push(
                    VaultAction::Forget {
                        service: "ru.hobbyka.yandex-mail.v2".to_owned(),
                        user: old_email.as_str().to_owned(),
                    },
                );
                actions.push(
                    VaultAction::Forget { service: "email-cli".to_owned(), user: old_email },
                );
                assert(views(actions@) == forgotten(email@, previous));
            }
        },
        None => {},
    }
    actions
}

impl ReplaceWrite {
    /// Forgets the account that is replaced; where the settings could not be
    /// written, the passwords are put right.
    pub fn next(self, reply: Result<(), String>) -> (step: ReplaceStep)
        ensures
            match reply {
                Err(error) => ends_with_error(
                    step,
                    taken_back(self.email@, self.previous),
                    error@,
                ),
                Ok(_) => ends_well(step, forgotten(self.email@, self.previous)),
            },
    {
        match reply {
            Ok(_) => {
                let cleanup = forget_previous(self.email.as_str(), self.previous);
                ReplaceStep::Finish { cleanup, result: Ok(()) }
            },
            Err(error) => {
                let cleanup = take_back(self.email.as_str(), &self.previous);
                ReplaceStep::Finish { cleanup, result: Err(error) }
            },
        }
    }
}

// ---------------------------------------------------------------------------
// What the vault holds
// ---------------------------------------------------------------------------

/// The passwords in the vault, by service and user, after a change.
pub open spec fn vault_after(
    vault: Map<(Seq<char>, Seq<char>), Seq<char>>,
    change: VaultActionView,
) -> Map<(Seq<char>, Seq<char>), Seq<char>> {
    match change {
        VaultActionView::Save(service, user, password) => vault.insert((service, user), password),
        VaultActionView::Forget(service, user) => vault.remove((service, user)),
        VaultActionView::Purge(_) => vault,
    }
}

/// The passwords in the vault after changes, one after another.
pub open spec fn vault_after_all(
    vault: Map<(Seq<char>, Seq<char>), Seq<char>>,
    changes: Seq<VaultActionView>,
) -> Map<(Seq<char>, Seq<char>), Seq<char>>
    decreases changes.len(),
{
    if changes.len() == 0 {
        vault
    } else {
        vault_after(vault_after_all(vault, changes.drop_last()), changes.last())
    }
}

/// The changes by which the password of a new account comes into the vault.
pub open spec fn password_changes(email: Seq<char>, password: Seq<char>) -> Seq<VaultActionView> {
    seq![
        VaultActionView::Save(app_service(), email, password),
        VaultActionView::Save(cli_service(), email, password),
    ]
}

proof fn services_differ()
    ensures
        app_service() != cli_service(),
{
    reveal_strlit("ru.hobbyka.yandex-mail.v2");
    reveal_strlit("email-cli");
    assert(app_service().len() != cli_service().len());
}

/// When the settings could not be written, the passwords of the new account
/// are as they are for the account that is in use: where the settings named it
/// before, both entries hold its old password, and else there are none. The
/// passwords of all other accounts are untouched.
pub proof fn failed_replacement_takes_passwords_back(
    vault: Map<(Seq<char>, Seq<char>), Seq<char>>,
    email: Seq<char>,
    password: Seq<char>,
    previous: Option<Loaded>,
)
    ensures
        ({
            let after = vault_after_all(
                vault,
                password_changes(email, password) + taken_back(email, previous),
            );
            &&& if previous matches Some(p) && p.account.email@ == email {
                &&& after.dom().contains((app_service(), email))
                &&& after[(app_service(), email)] == previous->0.password@
                &&& after.dom().contains((cli_service(), email))
                &&& after[(cli_service(), email)] == previous->0.password@
            } else {
                &&& !after.dom().contains((app_service(), email))
                &&& !after.dom().contains((cli_service(), email))
            }
            &&& forall|service: Seq<char>, user: Seq<char>|
                user != email ==> (#[trigger] after.dom().contains((service, user))
                    <==> vault.dom().contains((service, user)))
            &&& forall|service: Seq<char>, user: Seq<char>|
                user != email && vault.dom().contains((service, user)) ==> #[trigger] after[(
                service,
                user,
            )] == vault[(service, user)]
        }),
{
    services_differ();
    let back = taken_back(email, previous);
    let changes = password_changes(email, password) + back;
    assert(changes.len() == 4);
    assert(changes.drop_last().drop_last().drop_last().drop_last() == Seq::<
        VaultActionView,
    >::empty());
    reveal_with_fuel(vault_after_all, 5);
    assert(changes.last() == back[1]);
    assert(changes.drop_last().last() == back[0]);
    assert(changes.drop_last().drop_last().last() == password_changes(email, password)[1]);
    assert(changes.drop_last().drop_last().drop_last().last() == password_changes(
        email,
        password,
    )[0]);
}

/// When the account is replaced, both entries of the new one hold its
/// password, the one that is replaced has left none behind, and the passwords
/// of all other accounts are untouched.
pub proof fn replacement_moves_the_password(
    vault: Map<(Seq<char>, Seq<char>), Seq<char>>,
    email: Seq<char>,
    password: Seq<char>,
    previous: Option<Loaded>,
)
    ensures
        ({
            let after = vault_after_all(
                vault,
                password_changes(email, password) + forgotten(email, previous),
            );
            &&& after.dom().contains((app_service(), email))
            &&& after[(app_service(), email)] == password
            &&& after.dom().contains((cli_service(), email))
            &&& after[(cli_service(), email)] == password
            &&& previous matches Some(p) ==> p.account.email@ != email ==> {
                &&& !after.dom().contains((app_service(), p.account.email@))
                &&& !after.dom().contains((cli_service(), p.account.email@))
            }
            &&& forall|service: Seq<char>, user: Seq<char>|
                user != email && (previous matches Some(p) ==> user != p.account.email@) ==> (
                #[trigger] after.dom().contains((service, user)) <==> vault.dom().contains(
                    (service, user),
                ))
            &&& forall|service: Seq<char>, user: Seq<char>|
                user != email && (previous matches Some(p) ==> user != p.account.email@)
                    && vault.dom().contains((service, user)) ==> #[trigger] after[(service, user)]
                    == vault[(service, user)]
        }),
{
    services_differ();
    let gone = forgotten(email, previous);
    let put = password_changes(email, password);
    let changes = put + gone;
    reveal_with_fuel(vault_after_all, 6);
    if previous matches Some(p) && p.account.email@ != email {
        assert(changes.len() == 5);
        assert(changes.last() == gone[2]);
        assert(changes.drop_last().last() == gone[1]);
        assert(changes.drop_last().drop_last().last() == gone[0]);
        assert(changes.drop_last().drop_last().drop_last() == put);
    } else {
        assert(changes == put);
    }
    assert(put.last() == put[1]);
    assert(put.drop_last().last() == put[0]);
    assert(put.drop_last().drop_last() == Seq::<VaultActionView>::empty());
}

} // verus!
