//! What holds of the phases in which files are replaced and folders are
//! watched: that what works comes to its end.

use crate::storage::{
    cache_follows, replace_follows, replace_op, CachePhase, FileOp, FileRole, Following,
    ReplacePhase,
};
use crate::watch::{is_watch, WatchPhase};
use vstd::prelude::*;

verus! {

/// How far a phase of replacing the settings is from the end.
pub open spec fn phases_left(phase: ReplacePhase) -> nat {
    match phase {
        ReplacePhase::MakeDirectory => 8,
        ReplacePhase::Write => 7,
        ReplacePhase::RemoveOldBackup => 6,
        ReplacePhase::LookForTarget => 5,
        ReplacePhase::SetAside => 4,
        ReplacePhase::PutInPlace => 3,
        ReplacePhase::LookForBackup => 2,
        ReplacePhase::PutBack => 1,
        ReplacePhase::RemoveBackup => 0,
    }
}

/// Replacing the settings comes to an end, whatever works: every phase is
/// followed by a later one, by success or by failure.
pub proof fn replacing_ends(
    phase: ReplacePhase,
    worked: bool,
    following: Following<ReplacePhase>,
)
    requires
        replace_follows(phase, worked, following),
    ensures
        following matches Following::Next(next) ==> phases_left(next) < phases_left(phase),
{
}

/// Where everything works the settings are replaced: no phase fails, and the
/// new contents are put in place on the way to success.
pub proof fn replacing_succeeds(
    phase: ReplacePhase,
    following: Following<ReplacePhase>,
)
    requires
        replace_follows(phase, true, following),
        phase != ReplacePhase::LookForBackup,
        phase != ReplacePhase::PutBack,
    ensures
        !(following is Failed),
        following is Done <==> phase == ReplacePhase::RemoveBackup,
        following matches Following::Next(next) ==> next != ReplacePhase::LookForBackup && next
            != ReplacePhase::PutBack,
        following == Following::Next(ReplacePhase::RemoveBackup) ==> replace_op(phase) == (
        FileOp::Rename { from: FileRole::Temporary, to: FileRole::Target }),
{
}

/// Where the new contents cannot be written, or cannot be put in place, the
/// settings are not said to be replaced.
pub proof fn failed_replacing_is_told(
    phase: ReplacePhase,
    following: Following<ReplacePhase>,
)
    requires
        replace_follows(phase, false, following),
    ensures
        phase == ReplacePhase::MakeDirectory || phase == ReplacePhase::Write || phase
            == ReplacePhase::SetAside ==> following is Failed,
        phase == ReplacePhase::PutInPlace ==> following == Following::Next(
            ReplacePhase::LookForBackup,
        ),
        phase == ReplacePhase::LookForBackup || phase == ReplacePhase::PutBack ==> following
            is Failed,
        following is Done ==> phase == ReplacePhase::RemoveBackup,
{
}

/// How far a phase of writing a file of the cache is from the end.
pub open spec fn cache_phases_left(phase: CachePhase) -> nat {
    match phase {
        CachePhase::MakeDirectory => 4,
        CachePhase::Write => 3,
        CachePhase::LookForTarget => 2,
        CachePhase::RemoveTarget => 1,
        CachePhase::PutInPlace => 0,
    }
}

/// Writing a file of the cache comes to an end, and with success where
/// everything works; where the contents cannot be written or put in place, the
/// reason is told.
pub proof fn cache_writing_ends(
    phase: CachePhase,
    reply: Result<(), String>,
    following: Following<CachePhase>,
)
    requires
        cache_follows(phase, reply, following),
    ensures
        following matches Following::Next(next) ==> cache_phases_left(next) < cache_phases_left(
            phase,
        ),
        reply is Ok ==> !(following is Failed),
        following is Done <==> phase == CachePhase::PutInPlace && reply is Ok,
        reply matches Err(error) ==> (phase == CachePhase::MakeDirectory || phase
            == CachePhase::Write || phase == CachePhase::PutInPlace ==> (following matches
            Following::Failed(text) && error@.is_suffix_of(text@))),
{
    if let Err(error) = reply {
        if let Following::Failed(text) = following {
            assert(text@.skip(text@.len() - error@.len()) == error@);
        }
    }
}

/// A watcher that has reported a change, or that has waited in vain, connects
/// again; it stops only where the server cannot announce messages, where the
/// folder cannot be opened, or where listening cannot be begun.
pub proof fn watching_goes_on(phases: Seq<WatchPhase>, worked: Seq<bool>, i: int)
    requires
        is_watch(phases, worked),
        0 <= i < worked.len(),
    ensures
        phases[i] == WatchPhase::Report ==> phases[i + 1] == WatchPhase::Connect,
        phases[i] == (WatchPhase::EndIdle { changed: false }) ==> phases[i + 1]
            == WatchPhase::Connect,
        phases[i] == (WatchPhase::EndIdle { changed: true }) ==> phases[i + 1]
            == WatchPhase::Report,
        phases[i + 1] == WatchPhase::Stop ==> {
            ||| phases[i] == WatchPhase::Stop
            ||| phases[i] == WatchPhase::BeginIdle && !worked[i]
            ||| phases[i] == WatchPhase::Logout
        },
        phases[i + 1] == WatchPhase::Logout ==> !worked[i] && (phases[i] == WatchPhase::AskForIdle
            || phases[i] == WatchPhase::Select),
        phases[i] == WatchPhase::Connect && worked[i] ==> phases[i + 1] == WatchPhase::AskForIdle,
        phases[i] == WatchPhase::AskForIdle && worked[i] ==> phases[i + 1] == WatchPhase::Select,
        phases[i] == WatchPhase::Select && worked[i] ==> phases[i + 1] == WatchPhase::BeginIdle,
        phases[i] == WatchPhase::BeginIdle && worked[i] ==> phases[i + 1] == WatchPhase::Listen,
{
    assert(crate::watch::follows_at(phases, worked, i));
}

} // verus!
