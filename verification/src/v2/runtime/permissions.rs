//! Private permissions on journals that were created or opened.
use super::super::config::JournalEntry;
use super::super::secure_journal::{FileKind, FileStat};
use super::error::V2GatewayRuntimeError;
use vstd::prelude::*;

verus! {

/// A regular journal that more than its owner may touch.
pub open spec fn permissive(entry: JournalEntry) -> bool {
    entry matches JournalEntry::Found(stat) && stat.file.kind == FileKind::Regular
        && !stat.file.private()
}

/// Whether a journal's permissions are to be tightened.
pub fn needs_hardening(entry: JournalEntry) -> (needed: bool)
    ensures
        needed == permissive(entry),
{
    match entry {
        JournalEntry::Found(stat) => stat.file.kind == FileKind::Regular && !stat.file.is_private(),
        _ => false,
    }
}

/// A journal is missing, or a regular file that is private, if only once its
/// permissions were tightened.
pub open spec fn kept_private(entry: JournalEntry, hardened: Option<FileStat>) -> bool {
    match entry {
        JournalEntry::Missing => true,
        JournalEntry::Unreadable => false,
        JournalEntry::Found(stat) => {
            &&& stat.file.kind == FileKind::Regular
            &&& stat.file.private() || (hardened matches Some(fixed) && fixed.private())
        },
    }
}

/// Refuses a journal that is not private. `hardened` is its entry after its
/// permissions were tightened, where they were; that tightening failed matters
/// only where the file stays permissive.
pub fn enforce_journal_permissions(entry: JournalEntry, hardened: Option<FileStat>) -> (result:
    Result<(), V2GatewayRuntimeError>)
    ensures
        result == if kept_private(entry, hardened) {
            Ok::<(), V2GatewayRuntimeError>(())
        } else {
            Err(V2GatewayRuntimeError::FilesystemRef)
        },
{
    let stat = match entry {
        JournalEntry::Missing => {
            return Ok(());
        },
        JournalEntry::Unreadable => {
            return Err(V2GatewayRuntimeError::FilesystemRef);
        },
        JournalEntry::Found(stat) => stat,
    };
    if stat.file.kind != FileKind::Regular {
        return Err(V2GatewayRuntimeError::FilesystemRef);
    }
    if stat.file.is_private() {
        return Ok(());
    }
    match hardened {
        Some(fixed) => {
            if fixed.is_private() {
                Ok(())
            } else {
                Err(V2GatewayRuntimeError::FilesystemRef)
            }
        },
        None => Err(V2GatewayRuntimeError::FilesystemRef),
    }
}

/// A journal is hardened where it is a regular file that its group or others can
/// touch. It is accepted where there is none, and where it is a regular file that
/// they cannot touch, at once or once it was hardened.
pub proof fn law_journals_are_kept_private(entry: JournalEntry, hardened: Option<FileStat>)
    ensures
        permissive(entry) <==> (entry matches JournalEntry::Found(stat) && stat.file.kind
            is Regular && stat.file.mode % 0o100 != 0),
        kept_private(entry, hardened) <==> {
            ||| entry is Missing
            ||| entry matches JournalEntry::Found(stat) && stat.file.kind is Regular && (
            stat.file.mode % 0o100 == 0 || (hardened matches Some(fixed) && fixed.mode % 0o100
                == 0))
        },
{
    if let JournalEntry::Found(stat) = entry {
        super::super::secure_journal::law_permission_bits(stat.file);
    }
    if let Some(fixed) = hardened {
        super::super::secure_journal::law_permission_bits(fixed);
    }
}

} // verus!
