//! Atomic, permission-checked rewrites of journal files.
//!
//! A rewrite goes through a temporary file beside the journal: it is created
//! exclusively with owner-only permissions, written, synced, checked, and
//! renamed over the journal; the directory is synced and the result checked.
//! Where that fails after the rename, the old journal is put back.
//! The library decides each step; the caller carries it out and reports what
//! came of it.
use vstd::prelude::*;

verus! {

#[derive(Debug, Clone, Copy, PartialEq, Eq, Structural)]
pub enum SecureJournalError {
    /// The journal reference is invalid.
    InvalidReference,
    /// The journal I/O failed.
    Io,
}

/// What a directory entry is, links not followed.
#[derive(Debug, Clone, Copy, PartialEq, Eq, Structural)]
pub enum FileKind {
    Regular,
    Directory,
    Symlink,
    Other,
}

/// A directory entry and its permission bits.
#[derive(Debug, Clone, Copy, PartialEq, Eq, Structural)]
pub struct FileStat {
    pub kind: FileKind,
    pub mode: u32,
}

impl FileStat {
    /// Nobody but the owner has any permission.
    pub open spec fn private(self) -> bool {
        self.mode & 0o077 == 0
    }

    /// Nobody but the owner may write.
    pub open spec fn owner_writable(self) -> bool {
        self.mode & 0o022 == 0
    }

    /// A regular file with owner-only permissions.
    pub open spec fn secure(self) -> bool {
        self.kind == FileKind::Regular && self.private()
    }

    pub fn is_private(&self) -> (private: bool)
        ensures
            private == self.private(),
    {
        self.mode & 0o077 == 0
    }

    pub fn is_owner_writable(&self) -> (owner_writable: bool)
        ensures
            owner_writable == self.owner_writable(),
    {
        self.mode & 0o022 == 0
    }
}

/// Validates the directory of a journal, from its entry: it must exist, be a
/// directory and no link, and not be writable by group or others.
pub fn validate_parent_dir(parent: Option<FileStat>) -> (result: Result<(), SecureJournalError>)
    ensures
        result == if parent_secure(parent) {
            Ok::<(), SecureJournalError>(())
        } else {
            Err(SecureJournalError::InvalidReference)
        },
{
    match parent {
        Some(stat) => if stat.kind == FileKind::Directory && stat.is_owner_writable() {
            Ok(())
        } else {
            Err(SecureJournalError::InvalidReference)
        },
        None => Err(SecureJournalError::InvalidReference),
    }
}

/// See [`validate_parent_dir`].
pub open spec fn parent_secure(parent: Option<FileStat>) -> bool {
    parent matches Some(stat) && stat.kind == FileKind::Directory && stat.owner_writable()
}

/// Validates a journal file, from its entry: a regular file with owner-only
/// permissions. `None` stands for an entry that could not be read; a missing
/// journal is for the caller to treat as empty.
pub fn validate_journal_file(journal: Option<FileStat>) -> (result: Result<(), SecureJournalError>)
    ensures
        result == match journal {
            None => Err::<(), SecureJournalError>(SecureJournalError::Io),
            Some(stat) => if stat.secure() {
                Ok(())
            } else {
                Err(SecureJournalError::InvalidReference)
            },
        },
{
    match journal {
        None => Err(SecureJournalError::Io),
        Some(stat) => if stat.kind == FileKind::Regular && stat.is_private() {
            Ok(())
        } else {
            Err(SecureJournalError::InvalidReference)
        },
    }
}

/// What the directory sync after a rename comes to, from the directory's entry
/// and whether opening and syncing it worked.
pub fn fsync_parent_dir(parent: Option<FileStat>, synced: bool) -> (result: Result<
    (),
    SecureJournalError,
>)
    ensures
        result == if (parent matches Some(stat) && stat.kind == FileKind::Directory) && synced {
            Ok::<(), SecureJournalError>(())
        } else {
            Err(SecureJournalError::Io)
        },
{
    match parent {
        Some(stat) => if stat.kind == FileKind::Directory && synced {
            Ok(())
        } else {
            Err(SecureJournalError::Io)
        },
        None => Err(SecureJournalError::Io),
    }
}

/// What is known of the journal that a rewrite replaces.
#[derive(Debug, Clone, Copy, PartialEq, Eq, Structural)]
pub enum OldJournal {
    /// It was not read, or could not be.
    Unread,
    /// There was none.
    Absent,
    /// A copy of it was taken.
    Copied,
}

/// What to do next in a rewrite.
#[derive(Debug, Clone, Copy, PartialEq, Eq)]
pub enum WriteStep {
    /// Read the entry of the journal's directory.
    InspectParent,
    /// Read the entry of the temporary file.
    InspectStale,
    /// Remove a regular temporary file that a crash left behind.
    RemoveStale,
    /// Create the temporary file exclusively, owner-only.
    CreateTemp,
    /// Write the whole snapshot to it.
    WriteTemp,
    /// Sync it.
    SyncTemp,
    /// Set owner-only permissions on it.
    RestrictTemp,
    /// Read its entry.
    InspectTemp,
    /// Set owner-only permissions on it once more.
    RestrictAgain,
    /// Read its entry once more.
    InspectAgain,
    /// Copy the old journal, in case it is to be put back.
    ReadOld,
    /// Rename it over the journal.
    Rename,
    /// Read the entry of the journal's directory before syncing it.
    InspectDirectory,
    /// Open and sync the journal's directory.
    SyncDirectory,
    /// Read the entry of the journal.
    InspectJournal,
    /// Put the old journal back from its copy, through the temporary file.
    Restore,
    /// Remove the new journal, as there was none before it.
    RemoveNew,
    /// Remove the temporary file; the rewrite has failed.
    DiscardTemp,
    /// Nothing: the rewrite has ended.
    Finished(Result<(), SecureJournalError>),
}

/// What came of a step.
#[derive(Debug, Clone, Copy, PartialEq, Eq, Structural)]
pub enum StepOutcome {
    /// It worked.
    Worked,
    /// There was no such entry.
    Missing,
    /// The entry was read.
    Found(FileStat),
    /// It failed.
    Failed,
}

/// Where a rewrite stands.
pub struct RewriteModel {
    pub step: WriteStep,
    pub old: OldJournal,
}

/// The step after a failure behind the rename: the old journal is put back,
/// where it is known.
pub open spec fn put_back(old: OldJournal) -> WriteStep {
    match old {
        OldJournal::Unread => WriteStep::Finished(Err(SecureJournalError::Io)),
        OldJournal::Absent => WriteStep::RemoveNew,
        OldJournal::Copied => WriteStep::Restore,
    }
}

/// What a rewrite knows of the old journal after a step.
pub open spec fn old_after(rewrite: RewriteModel, outcome: StepOutcome) -> OldJournal {
    if rewrite.step == WriteStep::ReadOld {
        match outcome {
            StepOutcome::Worked => OldJournal::Copied,
            StepOutcome::Missing => OldJournal::Absent,
            _ => OldJournal::Unread,
        }
    } else {
        rewrite.old
    }
}

/// The step after a step.
pub open spec fn next_step(rewrite: RewriteModel, outcome: StepOutcome) -> WriteStep {
    let failed = WriteStep::Finished(Err(SecureJournalError::Io));
    match rewrite.step {
        WriteStep::InspectParent => if outcome matches StepOutcome::Found(stat) && parent_secure(
            Some(stat),
        ) {
            WriteStep::InspectStale
        } else {
            failed
        },
        WriteStep::InspectStale => match outcome {
            StepOutcome::Missing => WriteStep::CreateTemp,
            StepOutcome::Found(stat) => match stat.kind {
                FileKind::Regular => WriteStep::RemoveStale,
                _ => failed,
            },
            _ => failed,
        },
        WriteStep::RemoveStale => WriteStep::CreateTemp,
        WriteStep::CreateTemp => if outcome == StepOutcome::Worked {
            WriteStep::WriteTemp
        } else {
            failed
        },
        WriteStep::WriteTemp => if outcome == StepOutcome::Worked {
            WriteStep::SyncTemp
        } else {
            WriteStep::DiscardTemp
        },
        WriteStep::SyncTemp => if outcome == StepOutcome::Worked {
            WriteStep::RestrictTemp
        } else {
            WriteStep::DiscardTemp
        },
        WriteStep::RestrictTemp => WriteStep::InspectTemp,
        WriteStep::InspectTemp => match outcome {
            StepOutcome::Found(stat) => if stat.secure() {
                WriteStep::ReadOld
            } else if stat.kind == FileKind::Regular {
                WriteStep::RestrictAgain
            } else {
                WriteStep::DiscardTemp
            },
            _ => WriteStep::DiscardTemp,
        },
        WriteStep::RestrictAgain => WriteStep::InspectAgain,
        WriteStep::InspectAgain => match outcome {
            StepOutcome::Found(stat) => if stat.secure() {
                WriteStep::ReadOld
            } else {
                WriteStep::DiscardTemp
            },
            _ => failed,
        },
        WriteStep::ReadOld => WriteStep::Rename,
        WriteStep::Rename => if outcome == StepOutcome::Worked {
            WriteStep::InspectDirectory
        } else {
            WriteStep::DiscardTemp
        },
        WriteStep::InspectDirectory => if outcome matches StepOutcome::Found(stat) && stat.kind
            == FileKind::Directory {
            WriteStep::SyncDirectory
        } else {
            put_back(rewrite.old)
        },
        WriteStep::SyncDirectory => if outcome == StepOutcome::Worked {
            WriteStep::InspectJournal
        } else {
            put_back(rewrite.old)
        },
        WriteStep::InspectJournal => if outcome matches StepOutcome::Found(stat) && stat.secure() {
            WriteStep::Finished(Ok(()))
        } else {
            put_back(rewrite.old)
        },
        WriteStep::Restore | WriteStep::RemoveNew | WriteStep::DiscardTemp => failed,
        WriteStep::Finished(result) => WriteStep::Finished(result),
    }
}

/// Where a rewrite stands after a step.
pub open spec fn advanced(rewrite: RewriteModel, outcome: StepOutcome) -> RewriteModel {
    RewriteModel { step: next_step(rewrite, outcome), old: old_after(rewrite, outcome) }
}

/// One atomic, permission-checked rewrite of a journal.
#[derive(Debug)]
pub struct JournalRewrite {
    step: WriteStep,
    old: OldJournal,
}

impl View for JournalRewrite {
    type V = RewriteModel;

    closed spec fn view(&self) -> RewriteModel {
        RewriteModel { step: self.step, old: self.old }
    }
}

/// Begins a rewrite. Success means that the journal holds the new snapshot,
/// synced and with owner-only permissions. Any failure is reported as `Io` and
/// leaves the old journal intact: one after the rename puts it back.
pub fn secure_atomic_write() -> (rewrite: JournalRewrite)
    ensures
        rewrite@ == (RewriteModel { step: WriteStep::InspectParent, old: OldJournal::Unread }),
{
    JournalRewrite { step: WriteStep::InspectParent, old: OldJournal::Unread }
}

impl JournalRewrite {
    /// The step to carry out.
    pub fn step(&self) -> (step: WriteStep)
        ensures
            step == self@.step,
    {
        self.step
    }

    /// Takes what came of the step.
    pub fn advance(&mut self, outcome: StepOutcome)
        ensures
            final(self)@ == advanced(old(self)@, outcome),
    {
        let failed = WriteStep::Finished(Err(SecureJournalError::Io));
        let worked = outcome == StepOutcome::Worked;
        let found = match outcome {
            StepOutcome::Found(stat) => Some(stat),
            _ => None,
        };
        let put_back = match self.old {
            OldJournal::Unread => failed,
            OldJournal::Absent => WriteStep::RemoveNew,
            OldJournal::Copied => WriteStep::Restore,
        };
        let on = match self.step {
            WriteStep::InspectParent => match validate_parent_dir(found) {
                Ok(_) => WriteStep::InspectStale,
                Err(_) => failed,
            },
            WriteStep::InspectStale => match outcome {
                StepOutcome::Missing => WriteStep::CreateTemp,
                StepOutcome::Found(stat) => match stat.kind {
                    FileKind::Regular => WriteStep::RemoveStale,
                    _ => failed,
                },
                StepOutcome::Worked => failed,
                StepOutcome::Failed => failed,
            },
            WriteStep::RemoveStale => WriteStep::CreateTemp,
            WriteStep::CreateTemp => if worked {
                WriteStep::WriteTemp
            } else {
                failed
            },
            WriteStep::WriteTemp => if worked {
                WriteStep::SyncTemp
            } else {
                WriteStep::DiscardTemp
            },
            WriteStep::SyncTemp => if worked {
                WriteStep::RestrictTemp
            } else {
                WriteStep::DiscardTemp
            },
            WriteStep::RestrictTemp => WriteStep::InspectTemp,
            WriteStep::InspectTemp => match found {
                Some(stat) => if stat.kind != FileKind::Regular {
                    WriteStep::DiscardTemp
                } else if stat.is_private() {
                    WriteStep::ReadOld
                } else {
                    WriteStep::RestrictAgain
                },
                None => WriteStep::DiscardTemp,
            },
            WriteStep::RestrictAgain => WriteStep::InspectAgain,
            WriteStep::InspectAgain => match found {
                Some(stat) => if stat.kind == FileKind::Regular && stat.is_private() {
                    WriteStep::ReadOld
                } else {
                    WriteStep::DiscardTemp
                },
                None => failed,
            },
            WriteStep::ReadOld => {
                self.old = match outcome {
                    StepOutcome::Worked => OldJournal::Copied,
                    StepOutcome::Missing => OldJournal::Absent,
                    StepOutcome::Found(_) => OldJournal::Unread,
                    StepOutcome::Failed => OldJournal::Unread,
                };
                WriteStep::Rename
            },
            WriteStep::Rename => if worked {
                WriteStep::InspectDirectory
            } else {
                WriteStep::DiscardTemp
            },
            WriteStep::InspectDirectory => match fsync_parent_dir(found, true) {
                Ok(_) => WriteStep::SyncDirectory,
                Err(_) => put_back,
            },
            WriteStep::SyncDirectory => if worked {
                WriteStep::InspectJournal
            } else {
                put_back
            },
            WriteStep::InspectJournal => match validate_journal_file(found) {
                Ok(_) => WriteStep::Finished(Ok(())),
                Err(_) => put_back,
            },
            WriteStep::Restore => failed,
            WriteStep::RemoveNew => failed,
            WriteStep::DiscardTemp => failed,
            WriteStep::Finished(result) => WriteStep::Finished(result),
        };
        self.step = on;
    }
}

/// What the outcomes of a rewrite so far have established.
pub struct WriteFacts {
    /// The journal's directory passed its check.
    pub parent_checked: bool,
    /// The temporary file was created by this rewrite.
    pub created: bool,
    /// The whole snapshot was written to it.
    pub written: bool,
    /// It was synced after that.
    pub synced: bool,
    /// Its last entry showed a regular file only the owner may touch.
    pub restricted: bool,
    /// It was renamed over the journal.
    pub renamed: bool,
    /// The directory was synced after that.
    pub directory_synced: bool,
    /// The journal's entry showed a regular file only the owner may touch.
    pub journal_checked: bool,
    /// The old journal was put back from its copy.
    pub restored: bool,
    /// The new journal was removed again.
    pub removed: bool,
}

impl WriteFacts {
    /// What the journal holds by these facts, from what it held and what is
    /// being written.
    pub open spec fn journal(self, old: Option<Seq<u8>>, new: Seq<u8>) -> Option<Seq<u8>> {
        if self.removed {
            None
        } else if self.renamed && !self.restored {
            Some(new)
        } else {
            old
        }
    }
}

/// The facts after a step.
pub open spec fn observed(facts: WriteFacts, step: WriteStep, outcome: StepOutcome) -> WriteFacts {
    let worked = outcome == StepOutcome::Worked;
    match step {
        WriteStep::InspectParent => WriteFacts {
            parent_checked: outcome matches StepOutcome::Found(stat) && parent_secure(Some(stat)),
            ..facts
        },
        WriteStep::CreateTemp => WriteFacts { created: worked, ..facts },
        WriteStep::WriteTemp => WriteFacts { written: worked, ..facts },
        WriteStep::SyncTemp => WriteFacts { synced: worked, ..facts },
        WriteStep::InspectTemp | WriteStep::InspectAgain => WriteFacts {
            restricted: outcome matches StepOutcome::Found(stat) && stat.secure(),
            ..facts
        },
        WriteStep::Rename => WriteFacts { renamed: worked, ..facts },
        WriteStep::SyncDirectory => WriteFacts { directory_synced: worked, ..facts },
        WriteStep::InspectJournal => WriteFacts {
            journal_checked: outcome matches StepOutcome::Found(stat) && stat.secure(),
            ..facts
        },
        WriteStep::Restore => WriteFacts { restored: worked, ..facts },
        WriteStep::RemoveNew => WriteFacts { removed: worked, ..facts },
        _ => facts,
    }
}

/// Where a rewrite stands, and the facts, after a list of outcomes.
pub open spec fn after(outcomes: Seq<StepOutcome>) -> (RewriteModel, WriteFacts)
    decreases outcomes.len(),
{
    if outcomes.len() == 0 {
        (
            RewriteModel { step: WriteStep::InspectParent, old: OldJournal::Unread },
            WriteFacts {
                parent_checked: false,
                created: false,
                written: false,
                synced: false,
                restricted: false,
                renamed: false,
                directory_synced: false,
                journal_checked: false,
                restored: false,
                removed: false,
            },
        )
    } else {
        let (rewrite, facts) = after(outcomes.drop_last());
        (advanced(rewrite, outcomes.last()), observed(facts, rewrite.step, outcomes.last()))
    }
}

/// The journal is replaced only by a file that this rewrite created, wrote in
/// full, synced and found owner-only. A rewrite that succeeds leaves the new
/// snapshot, its directory synced and its entry checked. One that fails says
/// `Io` and leaves what was there, unless the failure came behind the rename
/// and the old journal could not be read before or not be put back after it.
pub proof fn law_rewrite_is_atomic(
    outcomes: Seq<StepOutcome>,
    old: Option<Seq<u8>>,
    new: Seq<u8>,
)
    requires
        after(outcomes).0.old == OldJournal::Absent ==> old is None,
    ensures
        ({
            let (rewrite, facts) = after(outcomes);
            &&& (rewrite.step == WriteStep::Rename || facts.renamed) ==> facts.parent_checked
                && facts.created && facts.written && facts.synced && facts.restricted
            &&& rewrite.step == WriteStep::Finished(Ok(())) ==> facts.journal(old, new) == Some(new)
                && facts.directory_synced && facts.journal_checked
            &&& rewrite.step matches WriteStep::Finished(Err(e)) ==> e == SecureJournalError::Io
            &&& rewrite.step is Finished && facts.journal(old, new) != old ==> facts.renamed && (
            rewrite.step == WriteStep::Finished(Ok(())) || rewrite.old == OldJournal::Unread || (
            rewrite.old == OldJournal::Copied && !facts.restored) || (rewrite.old
                == OldJournal::Absent && !facts.removed))
            &&& !facts.renamed ==> facts.journal(old, new) == old
        }),
{
    lemma_facts(outcomes);
}

/// What each step may rely on.
proof fn lemma_facts(outcomes: Seq<StepOutcome>)
    ensures
        ({
            let (rewrite, facts) = after(outcomes);
            let ready = facts.parent_checked && facts.created && facts.written && facts.synced;
            let replaced = facts.renamed && ready && facts.restricted;
            let kept = !facts.restored && !facts.removed;
            let untouched = !facts.renamed && kept;
            match rewrite.step {
                WriteStep::InspectParent => untouched,
                WriteStep::InspectStale | WriteStep::RemoveStale | WriteStep::CreateTemp =>
                    untouched && facts.parent_checked,
                WriteStep::WriteTemp => untouched && facts.parent_checked && facts.created,
                WriteStep::SyncTemp => untouched && facts.parent_checked && facts.created
                    && facts.written,
                WriteStep::RestrictTemp | WriteStep::InspectTemp | WriteStep::RestrictAgain
                | WriteStep::InspectAgain => untouched && ready,
                WriteStep::ReadOld | WriteStep::Rename => untouched && ready && facts.restricted,
                WriteStep::DiscardTemp => untouched,
                WriteStep::InspectDirectory | WriteStep::SyncDirectory => replaced && kept,
                WriteStep::InspectJournal => replaced && kept && facts.directory_synced,
                WriteStep::Restore => replaced && kept && rewrite.old == OldJournal::Copied,
                WriteStep::RemoveNew => replaced && kept && rewrite.old == OldJournal::Absent,
                WriteStep::Finished(Ok(_)) => replaced && kept && facts.directory_synced
                    && facts.journal_checked,
                WriteStep::Finished(Err(e)) => e == SecureJournalError::Io && (facts.renamed
                    ==> replaced) && (facts.restored ==> facts.renamed && rewrite.old
                    == OldJournal::Copied) && (facts.removed ==> facts.renamed && rewrite.old
                    == OldJournal::Absent),
            }
        }),
    decreases outcomes.len(),
{
    if outcomes.len() > 0 {
        lemma_facts(outcomes.drop_last());
    }
}

/// Steps left at most.
pub open spec fn steps_left(step: WriteStep) -> nat {
    match step {
        WriteStep::InspectParent => 16,
        WriteStep::InspectStale => 15,
        WriteStep::RemoveStale => 14,
        WriteStep::CreateTemp => 13,
        WriteStep::WriteTemp => 12,
        WriteStep::SyncTemp => 11,
        WriteStep::RestrictTemp => 10,
        WriteStep::InspectTemp => 9,
        WriteStep::RestrictAgain => 8,
        WriteStep::InspectAgain => 7,
        WriteStep::ReadOld => 6,
        WriteStep::Rename => 5,
        WriteStep::InspectDirectory => 4,
        WriteStep::SyncDirectory => 3,
        WriteStep::InspectJournal => 2,
        WriteStep::Restore => 1,
        WriteStep::RemoveNew => 1,
        WriteStep::DiscardTemp => 1,
        WriteStep::Finished(_) => 0,
    }
}

/// A rewrite ends, whatever comes of its steps.
pub proof fn law_rewrite_ends(rewrite: RewriteModel, outcome: StepOutcome)
    ensures
        rewrite.step is Finished ==> advanced(rewrite, outcome) == rewrite,
        rewrite.step !is Finished ==> steps_left(advanced(rewrite, outcome).step) < steps_left(
            rewrite.step,
        ),
{
}

/// What the permission bits mean: a private file is one that neither its group nor
/// others can read, write or execute; a file that only its owner can write has
/// neither of the two other write bits.
pub proof fn law_permission_bits(stat: FileStat)
    ensures
        stat.private() <==> stat.mode % 0o100 == 0,
        stat.owner_writable() <==> (stat.mode / 0o20) % 2 == 0 && (stat.mode / 0o2) % 2 == 0,
        stat.secure() <==> stat.kind is Regular && stat.mode % 0o100 == 0,
        stat.private() ==> stat.owner_writable(),
{
    let mode = stat.mode;
    assert((mode & 0o077 == 0) == (mode % 0o100 == 0)) by (bit_vector);
    assert((mode & 0o022 == 0) == ((mode / 0o20) % 2 == 0 && (mode / 0o2) % 2 == 0))
        by (bit_vector);
    assert((mode & 0o077 == 0) ==> (mode & 0o022 == 0)) by (bit_vector);
}

/// A directory that only its owner can write is good enough for a journal; a link to
/// one is not, and neither is anything else.
pub proof fn law_secure_parents(parent: Option<FileStat>)
    ensures
        parent_secure(parent) <==> (parent matches Some(stat) && stat.kind is Directory && (
        stat.mode / 0o20) % 2 == 0 && (stat.mode / 0o2) % 2 == 0),
{
    if let Some(stat) = parent {
        law_permission_bits(stat);
    }
}

/// A rewrite in which every step works ends well, whether or not a crash left a
/// temporary file, and whether or not there was a journal before.
pub proof fn law_a_rewrite_that_works_succeeds(
    parent: FileStat,
    stale: Option<FileStat>,
    temp: FileStat,
    old: StepOutcome,
    directory: FileStat,
    journal: FileStat,
)
    requires
        parent_secure(Some(parent)),
        stale matches Some(stat) ==> stat.kind is Regular,
        temp.secure(),
        directory.kind is Directory,
        journal.secure(),
    ensures
        ({
            let start = RewriteModel { step: WriteStep::InspectParent, old: OldJournal::Unread };
            let inspected = advanced(start, StepOutcome::Found(parent));
            let clear = match stale {
                Some(stat) => advanced(
                    advanced(inspected, StepOutcome::Found(stat)),
                    StepOutcome::Worked,
                ),
                None => advanced(inspected, StepOutcome::Missing),
            };
            let written = advanced(advanced(clear, StepOutcome::Worked), StepOutcome::Worked);
            let synced = advanced(written, StepOutcome::Worked);
            let restricted = advanced(synced, StepOutcome::Worked);
            let checked = advanced(restricted, StepOutcome::Found(temp));
            let renamed = advanced(advanced(checked, old), StepOutcome::Worked);
            let durable = advanced(
                advanced(renamed, StepOutcome::Found(directory)),
                StepOutcome::Worked,
            );
            let last = advanced(durable, StepOutcome::Found(journal));
            &&& inspected.step is InspectStale
            &&& clear.step is CreateTemp
            &&& written.step is SyncTemp
            &&& restricted.step is InspectTemp
            &&& checked.step is ReadOld
            &&& renamed.step is InspectDirectory
            &&& durable.step is InspectJournal
            &&& last.step == WriteStep::Finished(Ok(()))
        }),
{
}

/// Nothing is written into a directory that is not secure, nor over a temporary
/// file that is no regular file.
pub proof fn law_unsafe_places_are_left_alone(old: OldJournal, outcome: StepOutcome)
    ensures
        !(outcome matches StepOutcome::Found(stat) && parent_secure(Some(stat))) ==> advanced(
            RewriteModel { step: WriteStep::InspectParent, old },
            outcome,
        ).step == WriteStep::Finished(Err(SecureJournalError::Io)),
        !(outcome is Missing || (outcome matches StepOutcome::Found(stat) && stat.kind is Regular))
            ==> advanced(RewriteModel { step: WriteStep::InspectStale, old }, outcome).step
            == WriteStep::Finished(Err(SecureJournalError::Io)),
{
}

/// A temporary file that could not be written, synced or made private is discarded,
/// and one that is merely not private yet is given another try. Where it cannot be
/// looked at behind that, it is left.
pub proof fn law_failed_temporaries_are_discarded(old: OldJournal, outcome: StepOutcome)
    ensures
        !(outcome is Worked) ==> {
            &&& advanced(RewriteModel { step: WriteStep::WriteTemp, old }, outcome).step
                is DiscardTemp
            &&& advanced(RewriteModel { step: WriteStep::SyncTemp, old }, outcome).step
                is DiscardTemp
            &&& advanced(RewriteModel { step: WriteStep::Rename, old }, outcome).step
                is DiscardTemp
        },
        outcome matches StepOutcome::Found(stat) ==> {
            let first = advanced(RewriteModel { step: WriteStep::InspectTemp, old }, outcome).step;
            let again = advanced(RewriteModel { step: WriteStep::InspectAgain, old }, outcome).step;
            &&& stat.kind is Regular && stat.mode % 0o100 == 0 ==> first is ReadOld
                && again is ReadOld
            &&& stat.kind is Regular && stat.mode % 0o100 != 0 ==> first is RestrictAgain
                && again is DiscardTemp
            &&& !(stat.kind is Regular) ==> first is DiscardTemp && again is DiscardTemp
        },
        !(outcome is Found) ==> {
            &&& advanced(RewriteModel { step: WriteStep::InspectTemp, old }, outcome).step
                is DiscardTemp
            &&& advanced(RewriteModel { step: WriteStep::InspectAgain, old }, outcome).step
                == WriteStep::Finished(Err(SecureJournalError::Io))
        },
        advanced(RewriteModel { step: WriteStep::DiscardTemp, old }, outcome).step
            == WriteStep::Finished(Err(SecureJournalError::Io)),
{
    if let StepOutcome::Found(stat) = outcome {
        law_permission_bits(stat);
    }
}

/// A journal that was renamed but is not known to be durable and private is put
/// back: from its copy where there is one, and to nothing where there was none.
pub proof fn law_failures_behind_the_rename_put_back(old: OldJournal, outcome: StepOutcome)
    ensures
        ({
            let back = match old {
                OldJournal::Copied => WriteStep::Restore,
                OldJournal::Absent => WriteStep::RemoveNew,
                OldJournal::Unread => WriteStep::Finished(Err(SecureJournalError::Io)),
            };
            let at = |step: WriteStep| advanced(RewriteModel { step, old }, outcome).step;
            &&& !(outcome matches StepOutcome::Found(stat) && stat.kind is Directory) ==> at(
                WriteStep::InspectDirectory,
            ) == back
            &&& !(outcome is Worked) ==> at(WriteStep::SyncDirectory) == back
            &&& !(outcome matches StepOutcome::Found(stat) && stat.kind is Regular && stat.mode
                % 0o100 == 0) ==> at(WriteStep::InspectJournal) == back
            &&& at(WriteStep::Restore) == WriteStep::Finished(Err(SecureJournalError::Io))
            &&& at(WriteStep::RemoveNew) == WriteStep::Finished(Err(SecureJournalError::Io))
        }),
        advanced(RewriteModel { step: WriteStep::ReadOld, old }, outcome).old == match outcome {
            StepOutcome::Worked => OldJournal::Copied,
            StepOutcome::Missing => OldJournal::Absent,
            _ => OldJournal::Unread,
        },
{
    if let StepOutcome::Found(stat) = outcome {
        law_permission_bits(stat);
    }
}

/// A journal is opened where it is a private regular file; one whose entry could not be
/// read is told apart from one that is not.
pub proof fn law_journals_are_private_files(
    journal: Option<FileStat>,
    result: Result<(), SecureJournalError>,
)
    requires
        call_ensures(validate_journal_file, (journal,), result),
    ensures
        journal is None ==> result == Err::<(), _>(SecureJournalError::Io),
        journal matches Some(stat) ==> result == if stat.kind is Regular && stat.mode % 0o100 == 0 {
            Ok::<(), SecureJournalError>(())
        } else {
            Err(SecureJournalError::InvalidReference)
        },
{
    if let Some(stat) = journal {
        law_permission_bits(stat);
    }
}

/// A directory is synced where it is one and syncing it worked.
pub proof fn law_directories_are_synced(
    parent: Option<FileStat>,
    synced: bool,
    result: Result<(), SecureJournalError>,
)
    requires
        call_ensures(fsync_parent_dir, (parent, synced), result),
    ensures
        result is Ok <==> parent is Some && parent->0.kind is Directory && synced,
        result matches Err(e) ==> e == SecureJournalError::Io,
{
}

} // verus!
