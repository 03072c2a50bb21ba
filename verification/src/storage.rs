//! How files are replaced so that a file is never seen half written.
//!
//! The new contents are written to a file beside the one that is replaced, and
//! then put in its place. A phase says what is to be done to the files; the
//! next phase depends on whether that worked.

use crate::text::{prefixed, text_of};
use vstd::prelude::*;
use vstd::string::*;

verus! {

broadcast use vstd::string::group_string_axioms;

/// The files that take part when a file is replaced.
#[derive(Clone, Copy, Debug, PartialEq, Eq, Structural)]
pub enum FileRole {
    /// The file that is replaced.
    Target,
    /// The file beside it that the new contents are written to.
    Temporary,
    /// The file beside it that the old contents are kept in.
    Backup,
}

/// The extension of the name of a file beside the one that is replaced; none
/// for that file itself.
pub fn role_extension(role: FileRole) -> (extension: Option<String>)
    ensures
        text_of(extension) == (match role {
            FileRole::Target => None,
            FileRole::Temporary => Some("new"@),
            FileRole::Backup => Some("old"@),
        }),
{
    match role {
        FileRole::Target => None,
        FileRole::Temporary => Some("new".to_owned()),
        FileRole::Backup => Some("old".to_owned()),
    }
}

/// Something that is done to the files.
#[derive(Clone, Copy, Debug, PartialEq, Eq, Structural)]
pub enum FileOp {
    /// Make the directory of the files, where it is missing.
    MakeDirectory,
    /// Write the new contents to the temporary file.
    WriteTemporary,
    /// Delete a file.
    Remove { role: FileRole },
    /// Look whether a file is there; it works where the file is.
    Look { role: FileRole },
    /// Rename a file; a file of the new name is replaced.
    Rename { from: FileRole, to: FileRole },
}

/// What files hold.
pub type Files = Map<FileRole, Seq<u8>>;

/// What a file holds, if it is there.
pub open spec fn held(files: Files, role: FileRole) -> Option<Seq<u8>> {
    if files.dom().contains(role) {
        Some(files[role])
    } else {
        None
    }
}

/// Whether files are as something leaves them that is done to them. Where
/// writing fails, anything can be in the file that was written to; where
/// something else fails, the files are as before.
pub open spec fn performed(
    files: Files,
    op: FileOp,
    worked: bool,
    contents: Seq<u8>,
    after: Files,
) -> bool {
    match op {
        FileOp::MakeDirectory => after == files,
        FileOp::WriteTemporary => if worked {
            after == files.insert(FileRole::Temporary, contents)
        } else {
            after.remove(FileRole::Temporary) == files.remove(FileRole::Temporary)
        },
        FileOp::Remove { role } => if worked {
            after == files.remove(role)
        } else {
            after == files
        },
        FileOp::Look { role } => after == files && worked == files.dom().contains(role),
        FileOp::Rename { from, to } => if worked {
            files.dom().contains(from) && after == files.remove(from).insert(to, files[from])
        } else {
            after == files
        },
    }
}

// ---------------------------------------------------------------------------
// Settings
// ---------------------------------------------------------------------------

/// How far the replacement of the settings is.
#[derive(Clone, Copy, Debug, PartialEq, Eq, Structural)]
pub enum ReplacePhase {
    MakeDirectory,
    Write,
    RemoveOldBackup,
    LookForTarget,
    SetAside,
    PutInPlace,
    LookForBackup,
    PutBack,
    RemoveBackup,
}

/// What follows a phase.
#[derive(Debug)]
pub enum Following<P> {
    Next(P),
    Done,
    Failed(String),
}

/// What is done to the files in a phase.
pub open spec fn replace_op(phase: ReplacePhase) -> FileOp {
    match phase {
        ReplacePhase::MakeDirectory => FileOp::MakeDirectory,
        ReplacePhase::Write => FileOp::WriteTemporary,
        ReplacePhase::RemoveOldBackup => FileOp::Remove { role: FileRole::Backup },
        ReplacePhase::LookForTarget => FileOp::Look { role: FileRole::Target },
        ReplacePhase::SetAside => FileOp::Rename { from: FileRole::Target, to: FileRole::Backup },
        ReplacePhase::PutInPlace => FileOp::Rename {
            from: FileRole::Temporary,
            to: FileRole::Target,
        },
        ReplacePhase::LookForBackup => FileOp::Look { role: FileRole::Backup },
        ReplacePhase::PutBack => FileOp::Rename { from: FileRole::Backup, to: FileRole::Target },
        ReplacePhase::RemoveBackup => FileOp::Remove { role: FileRole::Backup },
    }
}

/// Whether something follows a phase that worked or did not.
pub open spec fn replace_follows(
    phase: ReplacePhase,
    worked: bool,
    following: Following<ReplacePhase>,
) -> bool {
    match phase {
        ReplacePhase::MakeDirectory => if worked {
            following == Following::Next(ReplacePhase::Write)
        } else {
            following matches Following::Failed(e) && e@ == "Не удалось создать папку настроек"@
        },
        ReplacePhase::Write => if worked {
            following == Following::Next(ReplacePhase::RemoveOldBackup)
        } else {
            following matches Following::Failed(e) && e@ == "Не удалось сохранить настройки"@
        },
        ReplacePhase::RemoveOldBackup => following == Following::Next(
            ReplacePhase::LookForTarget,
        ),
        ReplacePhase::LookForTarget => following == Following::Next(
            if worked {
                ReplacePhase::SetAside
            } else {
                ReplacePhase::PutInPlace
            },
        ),
        ReplacePhase::SetAside => if worked {
            following == Following::Next(ReplacePhase::PutInPlace)
        } else {
            following matches Following::Failed(e) && e@ == "Не удалось заменить настройки"@
        },
        ReplacePhase::PutInPlace => following == Following::Next(
            if worked {
                ReplacePhase::RemoveBackup
            } else {
                ReplacePhase::LookForBackup
            },
        ),
        ReplacePhase::LookForBackup => if worked {
            following == Following::Next(ReplacePhase::PutBack)
        } else {
            following matches Following::Failed(e) && e@ == "Не удалось сохранить настройки"@
        },
        ReplacePhase::PutBack => following matches Following::Failed(e) && e@
            == "Не удалось сохранить настройки"@,
        ReplacePhase::RemoveBackup => following is Done,
    }
}

/// What is said of settings that would lie in no directory.
pub fn settings_path_error() -> (error: String)
    ensures
        error@ == "Некорректный путь настроек"@,
{
    "Некорректный путь настроек".to_owned()
}

/// Begins to replace the settings.
pub fn replace_file() -> (phase: ReplacePhase)
    ensures
        phase == ReplacePhase::MakeDirectory,
{
    ReplacePhase::MakeDirectory
}

impl ReplacePhase {
    /// What is done to the files now.
    pub fn op(self) -> (op: FileOp)
        ensures
            op == replace_op(self),
    {
        match self {
            ReplacePhase::MakeDirectory => FileOp::MakeDirectory,
            ReplacePhase::Write => FileOp::WriteTemporary,
            ReplacePhase::RemoveOldBackup => FileOp::Remove { role: FileRole::Backup },
            ReplacePhase::LookForTarget => FileOp::Look { role: FileRole::Target },
            ReplacePhase::SetAside => FileOp::Rename {
                from: FileRole::Target,
                to: FileRole::Backup,
            },
            ReplacePhase::PutInPlace => FileOp::Rename {
                from: FileRole::Temporary,
                to: FileRole::Target,
            },
            ReplacePhase::LookForBackup => FileOp::Look { role: FileRole::Backup },
            ReplacePhase::PutBack => FileOp::Rename {
                from: FileRole::Backup,
                to: FileRole::Target,
            },
            ReplacePhase::RemoveBackup => FileOp::Remove { role: FileRole::Backup },
        }
    }

    /// What follows, by whether it worked.
    pub fn next(self, worked: bool) -> (following: Following<ReplacePhase>)
        ensures
            replace_follows(self, worked, following),
    {
        match self {
            ReplacePhase::MakeDirectory => if worked {
                Following::Next(ReplacePhase::Write)
            } else {
                Following::Failed("Не удалось создать папку настроек".to_owned())
            },
            ReplacePhase::Write => if worked {
                Following::Next(ReplacePhase::RemoveOldBackup)
            } else {
                Following::Failed("Не удалось сохранить настройки".to_owned())
            },
            ReplacePhase::RemoveOldBackup => Following::Next(ReplacePhase::LookForTarget),
            ReplacePhase::LookForTarget => if worked {
                Following::Next(ReplacePhase::SetAside)
            } else {
                Following::Next(ReplacePhase::PutInPlace)
            },
            ReplacePhase::SetAside => if worked {
                Following::Next(ReplacePhase::PutInPlace)
            } else {
                Following::Failed("Не удалось заменить настройки".to_owned())
            },
            ReplacePhase::PutInPlace => if worked {
                Following::Next(ReplacePhase::RemoveBackup)
            } else {
                Following::Next(ReplacePhase::LookForBackup)
            },
            ReplacePhase::LookForBackup => if worked {
                Following::Next(ReplacePhase::PutBack)
            } else {
                Following::Failed("Не удалось сохранить настройки".to_owned())
            },
            ReplacePhase::PutBack => Following::Failed(
                "Не удалось сохранить настройки".to_owned(),
            ),
            ReplacePhase::RemoveBackup => Following::Done,
        }
    }
}

/// What holds of the files when a phase of the replacement begins. When the
/// replacement began, the file held `before`, and `aside` was left beside it
/// from an earlier one.
pub open spec fn replace_state(
    phase: ReplacePhase,
    files: Files,
    before: Option<Seq<u8>>,
    aside: Option<Seq<u8>>,
    contents: Seq<u8>,
) -> bool {
    let target = held(files, FileRole::Target);
    let backup = held(files, FileRole::Backup);
    let written = held(files, FileRole::Temporary) == Some(contents);
    let kept = if before is Some {
        backup == before
    } else {
        backup == aside || backup is None
    };
    match phase {
        ReplacePhase::MakeDirectory => target == before && backup == aside,
        ReplacePhase::Write => target == before && backup == aside,
        ReplacePhase::RemoveOldBackup => target == before && backup == aside && written,
        ReplacePhase::LookForTarget => target == before && (backup == aside || backup is None)
            && written,
        ReplacePhase::SetAside => target == before && before is Some && written,
        ReplacePhase::PutInPlace => target is None && kept && written,
        ReplacePhase::LookForBackup => target is None && kept,
        ReplacePhase::PutBack => target is None && kept && backup is Some,
        ReplacePhase::RemoveBackup => target == Some(contents) && held(
            files,
            FileRole::Temporary,
        ) is None,
    }
}

/// Whether the settings are whole: the file holds what it held or the new
/// contents; or it is missing, and what it held is kept beside it. Where there
/// was no file, it can also be what was left beside it from an earlier
/// replacement.
pub open spec fn settings_are_whole(
    files: Files,
    before: Option<Seq<u8>>,
    aside: Option<Seq<u8>>,
    contents: Seq<u8>,
) -> bool {
    let target = held(files, FileRole::Target);
    ||| target == before
    ||| target == Some(contents)
    ||| target is None && held(files, FileRole::Backup) == before
    ||| before is None && target == aside
}

/// Whatever works and whatever fails, the settings are whole after every
/// phase, and so in between. When the replacement is done, the file holds the
/// new contents, the temporary file is gone, and what was kept beside it is
/// gone too if it could be deleted. When it fails, the file holds what it held,
/// or that is kept beside it.
pub proof fn replacing_keeps_the_settings_whole(
    phase: ReplacePhase,
    files: Files,
    before: Option<Seq<u8>>,
    aside: Option<Seq<u8>>,
    contents: Seq<u8>,
    worked: bool,
    after: Files,
    following: Following<ReplacePhase>,
)
    requires
        replace_state(phase, files, before, aside, contents),
        performed(files, replace_op(phase), worked, contents, after),
        replace_follows(phase, worked, following),
    ensures
        settings_are_whole(after, before, aside, contents),
        match following {
            Following::Next(next) => replace_state(next, after, before, aside, contents),
            Following::Done => {
                &&& held(after, FileRole::Target) == Some(contents)
                &&& held(after, FileRole::Temporary) is None
                &&& worked ==> held(after, FileRole::Backup) is None
            },
            Following::Failed(_) => {
                ||| held(after, FileRole::Target) == before
                ||| held(after, FileRole::Target) is None && held(after, FileRole::Backup)
                    == before
                ||| before is None && held(after, FileRole::Target) == aside
            },
        },
{
    if phase == ReplacePhase::Write && !worked {
        let trimmed_before = files.remove(FileRole::Temporary);
        let trimmed_after = after.remove(FileRole::Temporary);
        assert(held(trimmed_before, FileRole::Target) == held(files, FileRole::Target));
        assert(held(trimmed_after, FileRole::Target) == held(after, FileRole::Target));
        assert(held(trimmed_before, FileRole::Backup) == held(files, FileRole::Backup));
        assert(held(trimmed_after, FileRole::Backup) == held(after, FileRole::Backup));
    }
}

/// Whether the phase at a place of a replacement left the files as they are
/// behind it, and the next phase followed.
pub open spec fn replaced_at(
    phases: Seq<ReplacePhase>,
    worked: Seq<bool>,
    files: Seq<Files>,
    contents: Seq<u8>,
    i: int,
) -> bool {
    &&& performed(files[i], replace_op(phases[i]), worked[i], contents, files[i + 1])
    &&& replace_follows(phases[i], worked[i], Following::Next(phases[i + 1]))
}

/// The course of a replacement: its phases, whether they worked, and the files
/// in front of each phase.
pub open spec fn is_replacement(
    phases: Seq<ReplacePhase>,
    worked: Seq<bool>,
    files: Seq<Files>,
    contents: Seq<u8>,
) -> bool {
    &&& phases.len() == files.len() == worked.len() + 1
    &&& phases[0] == ReplacePhase::MakeDirectory
    &&& forall|i: int|
        0 <= i < worked.len() ==> #[trigger] replaced_at(phases, worked, files, contents, i)
}

/// In the whole course of a replacement, whatever works and whatever fails,
/// the settings are whole.
pub proof fn settings_stay_whole(
    phases: Seq<ReplacePhase>,
    worked: Seq<bool>,
    files: Seq<Files>,
    contents: Seq<u8>,
    i: int,
)
    requires
        is_replacement(phases, worked, files, contents),
        0 <= i < phases.len(),
    ensures
        settings_are_whole(
            files[i],
            held(files[0], FileRole::Target),
            held(files[0], FileRole::Backup),
            contents,
        ),
        replace_state(
            phases[i],
            files[i],
            held(files[0], FileRole::Target),
            held(files[0], FileRole::Backup),
            contents,
        ),
    decreases i,
{
    if i > 0 {
        settings_stay_whole(phases, worked, files, contents, i - 1);
        assert(replaced_at(phases, worked, files, contents, i - 1));
        replacing_keeps_the_settings_whole(
            phases[i - 1],
            files[i - 1],
            held(files[0], FileRole::Target),
            held(files[0], FileRole::Backup),
            contents,
            worked[i - 1],
            files[i],
            Following::Next(phases[i]),
        );
    }
}

// ---------------------------------------------------------------------------
// The cache
// ---------------------------------------------------------------------------

/// How far the writing of a file of the cache is.
#[derive(Clone, Copy, Debug, PartialEq, Eq, Structural)]
pub enum CachePhase {
    MakeDirectory,
    Write,
    LookForTarget,
    RemoveTarget,
    PutInPlace,
}

/// What is done to the files in a phase.
pub open spec fn cache_op(phase: CachePhase) -> FileOp {
    match phase {
        CachePhase::MakeDirectory => FileOp::MakeDirectory,
        CachePhase::Write => FileOp::WriteTemporary,
        CachePhase::LookForTarget => FileOp::Look { role: FileRole::Target },
        CachePhase::RemoveTarget => FileOp::Remove { role: FileRole::Target },
        CachePhase::PutInPlace => FileOp::Rename {
            from: FileRole::Temporary,
            to: FileRole::Target,
        },
    }
}

/// Whether something follows a phase that worked, or that failed for a reason.
pub open spec fn cache_follows(
    phase: CachePhase,
    reply: Result<(), String>,
    following: Following<CachePhase>,
) -> bool {
    match phase {
        CachePhase::MakeDirectory => match reply {
            Ok(_) => following == Following::Next(CachePhase::Write),
            Err(error) => following matches Following::Failed(e) && e@
                == "Не удалось создать кеш: "@ + error@,
        },
        CachePhase::Write => match reply {
            Ok(_) => following == Following::Next(CachePhase::LookForTarget),
            Err(error) => following matches Following::Failed(e) && e@
                == "Не удалось записать кеш: "@ + error@,
        },
        CachePhase::LookForTarget => following == Following::Next(
            if reply is Ok {
                CachePhase::RemoveTarget
            } else {
                CachePhase::PutInPlace
            },
        ),
        CachePhase::RemoveTarget => following == Following::Next(CachePhase::PutInPlace),
        CachePhase::PutInPlace => match reply {
            Ok(_) => following is Done,
            Err(error) => following matches Following::Failed(e) && e@
                == "Не удалось сохранить кеш: "@ + error@,
        },
    }
}

fn cache_failed(prefix: &str, error: String) -> (following: Following<CachePhase>)
    ensures
        following matches Following::Failed(e) && e@ == prefix@ + error@,
{
    Following::Failed(prefixed(prefix, error.as_str()))
}

/// What is said of a file of the cache that would lie in no directory.
pub fn cache_path_error() -> (error: String)
    ensures
        error@ == "Некорректный путь кеша"@,
{
    "Некорректный путь кеша".to_owned()
}

/// What is said where the directory for caches is not known.
pub fn cache_directory_error() -> (error: String)
    ensures
        error@ == "Не удалось определить папку кеша"@,
{
    "Не удалось определить папку кеша".to_owned()
}

/// What is said of contents that cannot be written down.
pub fn cache_contents_error(error: String) -> (text: String)
    ensures
        text@ == "Не удалось подготовить кеш: "@ + error@,
{
    prefixed("Не удалось подготовить кеш: ", error.as_str())
}

/// Begins to write a file of the cache.
pub fn write_json() -> (phase: CachePhase)
    ensures
        phase == CachePhase::MakeDirectory,
{
    CachePhase::MakeDirectory
}

impl CachePhase {
    /// What is done to the files now.
    pub fn op(self) -> (op: FileOp)
        ensures
            op == cache_op(self),
    {
        match self {
            CachePhase::MakeDirectory => FileOp::MakeDirectory,
            CachePhase::Write => FileOp::WriteTemporary,
            CachePhase::LookForTarget => FileOp::Look { role: FileRole::Target },
            CachePhase::RemoveTarget => FileOp::Remove { role: FileRole::Target },
            CachePhase::PutInPlace => FileOp::Rename {
                from: FileRole::Temporary,
                to: FileRole::Target,
            },
        }
    }

    /// What follows, by whether it worked.
    pub fn next(self, reply: Result<(), String>) -> (following: Following<CachePhase>)
        ensures
            cache_follows(self, reply, following),
    {
        match self {
            CachePhase::MakeDirectory => match reply {
                Ok(_) => Following::Next(CachePhase::Write),
                Err(error) => cache_failed("Не удалось создать кеш: ", error),
            },
            CachePhase::Write => match reply {
                Ok(_) => Following::Next(CachePhase::LookForTarget),
                Err(error) => cache_failed("Не удалось записать кеш: ", error),
            },
            CachePhase::LookForTarget => match reply {
                Ok(_) => Following::Next(CachePhase::RemoveTarget),
                Err(_) => Following::Next(CachePhase::PutInPlace),
            },
            CachePhase::RemoveTarget => Following::Next(CachePhase::PutInPlace),
            CachePhase::PutInPlace => match reply {
                Ok(_) => Following::Done,
                Err(error) => cache_failed("Не удалось сохранить кеш: ", error),
            },
        }
    }
}

/// What holds of the files when a phase begins, where the file held `before`
/// when the writing began.
pub open spec fn cache_state(
    phase: CachePhase,
    files: Files,
    before: Option<Seq<u8>>,
    contents: Seq<u8>,
) -> bool {
    let target = held(files, FileRole::Target);
    let written = held(files, FileRole::Temporary) == Some(contents);
    match phase {
        CachePhase::MakeDirectory => target == before,
        CachePhase::Write => target == before,
        CachePhase::LookForTarget => target == before && written,
        CachePhase::RemoveTarget => target == before && written,
        CachePhase::PutInPlace => (target == before || target is None) && written,
    }
}

/// A file of the cache is never half written: after every phase, and so in
/// between, it holds what it held or the new contents, or it is missing. When
/// it is written, it holds the new contents and the temporary file is gone.
pub proof fn cache_files_are_never_partial(
    phase: CachePhase,
    files: Files,
    before: Option<Seq<u8>>,
    contents: Seq<u8>,
    reply: Result<(), String>,
    after: Files,
    following: Following<CachePhase>,
)
    requires
        cache_state(phase, files, before, contents),
        performed(files, cache_op(phase), reply is Ok, contents, after),
        cache_follows(phase, reply, following),
    ensures
        ({
            let target = held(after, FileRole::Target);
            target == before || target == Some(contents) || target is None
        }),
        match following {
            Following::Next(next) => cache_state(next, after, before, contents),
            Following::Done => held(after, FileRole::Target) == Some(contents) && held(
                after,
                FileRole::Temporary,
            ) is None,
            Following::Failed(_) => true,
        },
{
    if phase == CachePhase::Write && reply is Err {
        let trimmed_before = files.remove(FileRole::Temporary);
        let trimmed_after = after.remove(FileRole::Temporary);
        assert(held(trimmed_before, FileRole::Target) == held(files, FileRole::Target));
        assert(held(trimmed_after, FileRole::Target) == held(after, FileRole::Target));
    }
}

} // verus!
