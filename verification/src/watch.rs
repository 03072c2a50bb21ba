//! How a folder is watched for new messages.

use vstd::prelude::*;
use vstd::string::*;

verus! {

/// How long the watcher waits before it connects again, in seconds.
pub const RETRY_SECONDS: u64 = 3;

/// How long the mail server may take to answer, in seconds.
pub const ANSWER_SECONDS: u64 = 30;

/// How long closing the connection may take after the server did not answer,
/// in seconds.
pub const LOGOUT_SECONDS: u64 = 2;

/// What the watcher does.
#[derive(Clone, Copy, Debug, PartialEq, Eq, Structural)]
pub enum WatchPhase {
    /// Connect.
    Connect,
    /// Wait before connecting again.
    Pause,
    /// Ask whether the server can announce messages; it works where the
    /// server can.
    AskForIdle,
    /// Open the folder.
    Select,
    /// Close the connection.
    Logout,
    /// Begin to listen.
    BeginIdle,
    /// Wait until the server announces something; it works where that is new
    /// data.
    Listen,
    /// Stop listening.
    EndIdle { changed: bool },
    /// Report that the folder has changed.
    Report,
    /// The folder is not watched any more.
    Stop,
}

/// What the watcher does next, by whether what it did worked.
pub open spec fn watch_next(phase: WatchPhase, worked: bool) -> WatchPhase {
    match phase {
        WatchPhase::Connect => if worked {
            WatchPhase::AskForIdle
        } else {
            WatchPhase::Pause
        },
        WatchPhase::Pause => WatchPhase::Connect,
        WatchPhase::AskForIdle => if worked {
            WatchPhase::Select
        } else {
            WatchPhase::Logout
        },
        WatchPhase::Select => if worked {
            WatchPhase::BeginIdle
        } else {
            WatchPhase::Logout
        },
        WatchPhase::Logout => WatchPhase::Stop,
        WatchPhase::BeginIdle => if worked {
            WatchPhase::Listen
        } else {
            WatchPhase::Stop
        },
        WatchPhase::Listen => WatchPhase::EndIdle { changed: worked },
        WatchPhase::EndIdle { changed } => if changed {
            WatchPhase::Report
        } else {
            WatchPhase::Connect
        },
        WatchPhase::Report => WatchPhase::Connect,
        WatchPhase::Stop => WatchPhase::Stop,
    }
}

/// Begins to watch a folder.
pub fn watch_folder() -> (phase: WatchPhase)
    ensures
        phase == WatchPhase::Connect,
{
    WatchPhase::Connect
}

impl WatchPhase {
    /// What the watcher does next, by whether what it did worked.
    pub fn next(self, worked: bool) -> (phase: WatchPhase)
        ensures
            phase == watch_next(self, worked),
    {
        match self {
            WatchPhase::Connect => if worked {
                WatchPhase::AskForIdle
            } else {
                WatchPhase::Pause
            },
            WatchPhase::Pause => WatchPhase::Connect,
            WatchPhase::AskForIdle => if worked {
                WatchPhase::Select
            } else {
                WatchPhase::Logout
            },
            WatchPhase::Select => if worked {
                WatchPhase::BeginIdle
            } else {
                WatchPhase::Logout
            },
            WatchPhase::Logout => WatchPhase::Stop,
            WatchPhase::BeginIdle => if worked {
                WatchPhase::Listen
            } else {
                WatchPhase::Stop
            },
            WatchPhase::Listen => WatchPhase::EndIdle { changed: worked },
            WatchPhase::EndIdle { changed } => if changed {
                WatchPhase::Report
            } else {
                WatchPhase::Connect
            },
            WatchPhase::Report => WatchPhase::Connect,
            WatchPhase::Stop => WatchPhase::Stop,
        }
    }
}

/// Whether the phase behind a place follows from the one at it and from
/// whether that worked.
pub open spec fn follows_at(phases: Seq<WatchPhase>, worked: Seq<bool>, i: int) -> bool {
    phases[i + 1] == watch_next(phases[i], worked[i])
}

/// The phases of a watcher: each follows from the one in front of it.
pub open spec fn is_watch(phases: Seq<WatchPhase>, worked: Seq<bool>) -> bool {
    &&& phases.len() == worked.len() + 1
    &&& phases[0] == WatchPhase::Connect
    &&& forall|i: int| 0 <= i < worked.len() ==> #[trigger] follows_at(phases, worked, i)
}

/// A change is reported exactly when the server has announced new data: two
/// phases before, the watcher listened and heard of it.
pub proof fn reports_follow_announcements(phases: Seq<WatchPhase>, worked: Seq<bool>, i: int)
    requires
        is_watch(phases, worked),
        0 <= i < worked.len() - 1,
    ensures
        phases[i] == WatchPhase::Listen && worked[i] <==> phases[i + 2] == WatchPhase::Report,
{
    assert(follows_at(phases, worked, i));
    assert(follows_at(phases, worked, i + 1));
}

/// The watcher listens only in a folder that is open on a server that can
/// announce messages: the four phases before saw to that, and all worked.
pub proof fn watcher_listens_in_an_open_folder(
    phases: Seq<WatchPhase>,
    worked: Seq<bool>,
    i: int,
)
    requires
        is_watch(phases, worked),
        0 <= i <= worked.len(),
        phases[i] == WatchPhase::Listen,
    ensures
        i >= 4,
        phases[i - 4] == WatchPhase::Connect && worked[i - 4],
        phases[i - 3] == WatchPhase::AskForIdle && worked[i - 3],
        phases[i - 2] == WatchPhase::Select && worked[i - 2],
        phases[i - 1] == WatchPhase::BeginIdle && worked[i - 1],
{
    assert(follows_at(phases, worked, i - 1));
    assert(follows_at(phases, worked, i - 2));
    assert(follows_at(phases, worked, i - 3));
    assert(follows_at(phases, worked, i - 4));
}

/// A watcher that cannot connect tries again and never stops on that account.
pub proof fn failed_connections_are_tried_again(
    phases: Seq<WatchPhase>,
    worked: Seq<bool>,
    i: int,
)
    requires
        is_watch(phases, worked),
        0 <= i < worked.len() - 1,
        phases[i] == WatchPhase::Connect,
        !worked[i],
    ensures
        phases[i + 1] == WatchPhase::Pause,
        phases[i + 2] == WatchPhase::Connect,
{
    assert(follows_at(phases, worked, i));
    assert(follows_at(phases, worked, i + 1));
}

/// The name under which a change of a folder is reported.
pub fn change_event() -> (name: String)
    ensures
        name@ == "mail-changed"@,
{
    "mail-changed".to_owned()
}

/// What is said where watching cannot be begun.
pub fn watch_error() -> (error: String)
    ensures
        error@ == "Не удалось запустить ожидание писем"@,
{
    "Не удалось запустить ожидание писем".to_owned()
}

/// What is said where watching cannot be ended.
pub fn stop_watching_error() -> (error: String)
    ensures
        error@ == "Не удалось остановить ожидание писем"@,
{
    "Не удалось остановить ожидание писем".to_owned()
}

} // verus!
