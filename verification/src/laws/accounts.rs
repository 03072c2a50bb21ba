//! What holds of the account and of what is said of it.

use crate::account::{
    app_service, cli_service, connect_text, is_entry, load_fails, ConnectFailure, LoadStep, Loaded,
    VaultEntry,
};
use crate::attachments::{keep_text, KeepFailure};
use crate::replace_account::{
    ends_well, ends_with_error, forgotten, taken_back, ReplaceStep, VaultActionView,
};
use crate::text::views;
use vstd::prelude::*;
use vstd::string::*;

verus! {

broadcast use vstd::string::group_string_axioms;

/// The program has a service of its own in the vault and shares another one.
pub proof fn services_have_names()
    ensures
        app_service() == "ru.hobbyka.yandex-mail.v2"@,
        cli_service() == "email-cli"@,
        app_service() != cli_service(),
{
    reveal_strlit("ru.hobbyka.yandex-mail.v2");
    reveal_strlit("email-cli");
    assert(app_service().len() != cli_service().len());
}

/// A password that is put into the vault lies under its service and its user.
pub proof fn entries_hold_what_is_given(
    entry: VaultEntry,
    service: Seq<char>,
    user: Seq<char>,
    password: Seq<char>,
)
    requires
        is_entry(entry, service, user, password),
    ensures
        entry.service@ == service,
        entry.user@ == user,
        entry.password@ == password,
{
}

/// What cannot be loaded, and what cannot be replaced, is told.
pub proof fn account_failures_are_told(
    load: LoadStep,
    replace: ReplaceStep,
    changes: Seq<VaultActionView>,
    error: Seq<char>,
)
    ensures
        load_fails(load, error) ==> (load matches LoadStep::Failed(text) && text@ == error),
        ends_with_error(replace, changes, error) ==> (replace matches ReplaceStep::Finish {
            result: Err(text),
            ..
        } && text@ == error),
        ends_well(replace, changes) ==> (replace matches ReplaceStep::Finish { result: Ok(_), .. }),
        ends_well(replace, changes) || ends_with_error(replace, changes, error) ==> (replace matches
            ReplaceStep::Finish { cleanup, .. } && views(cleanup@) == changes),
{
}

/// The cache of an account is deleted exactly when another one takes its
/// place, and never that of another account.
pub proof fn cache_goes_with_its_account(
    email: Seq<char>,
    previous: Option<Loaded>,
    other: Seq<char>,
)
    ensures
        forgotten(email, previous).contains(VaultActionView::Purge(other)) <==> previous is Some
            && previous->0.account.email@ == other && other != email,
        !taken_back(email, previous).contains(VaultActionView::Purge(other)),
{
    let gone = forgotten(email, previous);
    if previous is Some && previous->0.account.email@ != email {
        let old_email = previous->0.account.email@;
        assert(gone.len() == 3);
        assert(gone[0] == VaultActionView::Purge(old_email));
        if gone.contains(VaultActionView::Purge(other)) {
            let k = choose|k: int|
                0 <= k < gone.len() && gone[k] == VaultActionView::Purge(other);
            assert(k == 0);
        }
        assert(gone.contains(gone[0]));
    }
}

/// The reason of a failed connection.
pub open spec fn reason_of(failure: ConnectFailure) -> Seq<char> {
    match failure {
        ConnectFailure::Refused(e) => e@,
        ConnectFailure::NoTls(e) => e@,
        ConnectFailure::TlsFailed(e) => e@,
        ConnectFailure::LoginFailed(e) => e@,
        ConnectFailure::RelayRefused(e) => e@,
        ConnectFailure::SendFailed(e) => e@,
        _ => Seq::empty(),
    }
}

/// What is said of a failed connection ends with the reason, if there is one.
pub proof fn connections_tell_the_reason(failure: ConnectFailure)
    ensures
        reason_of(failure).is_suffix_of(connect_text(failure)),
{
    let text = connect_text(failure);
    assert(text.skip(text.len() - reason_of(failure).len()) == reason_of(failure));
}

/// What is said of a file that could not be written ends with the reason, if
/// there is one.
pub proof fn files_tell_the_reason(failure: KeepFailure)
    ensures
        failure matches KeepFailure::Directory(e) ==> e@.is_suffix_of(keep_text(failure)),
        failure matches KeepFailure::Save(e) ==> e@.is_suffix_of(keep_text(failure)),
        failure matches KeepFailure::Prepare(e) ==> e@.is_suffix_of(keep_text(failure)),
{
    let text = keep_text(failure);
    if let KeepFailure::Directory(e) = failure {
        assert(text.skip(text.len() - e@.len()) == e@);
    }
    if let KeepFailure::Save(e) = failure {
        assert(text.skip(text.len() - e@.len()) == e@);
    }
    if let KeepFailure::Prepare(e) = failure {
        assert(text.skip(text.len() - e@.len()) == e@);
    }
}

} // verus!
