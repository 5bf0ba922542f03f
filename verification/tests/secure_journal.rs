use streamguard_gateway::v2::secure_journal::{
    fsync_parent_dir, secure_atomic_write, validate_journal_file, validate_parent_dir, FileKind,
    FileStat, SecureJournalError, StepOutcome, WriteStep,
};

const DIRECTORY: FileStat = FileStat { kind: FileKind::Directory, mode: 0o700 };
const PRIVATE: FileStat = FileStat { kind: FileKind::Regular, mode: 0o600 };
const READABLE: FileStat = FileStat { kind: FileKind::Regular, mode: 0o644 };
const LINK: FileStat = FileStat { kind: FileKind::Symlink, mode: 0o777 };

/// A disk on which everything works, but for one step.
fn outcome(step: WriteStep, odd: Option<(WriteStep, StepOutcome)>) -> StepOutcome {
    if let Some((at, result)) = odd {
        if at == step {
            return result;
        }
    }
    match step {
        WriteStep::InspectParent | WriteStep::InspectDirectory => StepOutcome::Found(DIRECTORY),
        WriteStep::InspectStale => StepOutcome::Missing,
        WriteStep::InspectTemp | WriteStep::InspectAgain | WriteStep::InspectJournal => {
            StepOutcome::Found(PRIVATE)
        }
        _ => StepOutcome::Worked,
    }
}

fn rewrite(odd: Option<(WriteStep, StepOutcome)>) -> Vec<WriteStep> {
    let mut rewrite = secure_atomic_write();
    let mut steps = Vec::new();
    loop {
        let step = rewrite.step();
        steps.push(step);
        if let WriteStep::Finished(_) = step {
            return steps;
        }
        rewrite.advance(outcome(step, odd));
    }
}

fn ending(odd: (WriteStep, StepOutcome)) -> WriteStep {
    *rewrite(Some(odd)).last().unwrap()
}

#[test]
fn secure_journal_creates_private_file_and_validates_tmp_and_dir() {
    let steps = rewrite(None);
    assert_eq!(
        steps,
        vec![
            WriteStep::InspectParent,
            WriteStep::InspectStale,
            WriteStep::CreateTemp,
            WriteStep::WriteTemp,
            WriteStep::SyncTemp,
            WriteStep::RestrictTemp,
            WriteStep::InspectTemp,
            WriteStep::ReadOld,
            WriteStep::Rename,
            WriteStep::InspectDirectory,
            WriteStep::SyncDirectory,
            WriteStep::InspectJournal,
            WriteStep::Finished(Ok(())),
        ]
    );
    assert_eq!(validate_journal_file(Some(PRIVATE)), Ok(()));
    assert_eq!(validate_journal_file(Some(READABLE)), Err(SecureJournalError::InvalidReference));
    assert_eq!(validate_journal_file(Some(LINK)), Err(SecureJournalError::InvalidReference));
    assert_eq!(validate_journal_file(None), Err(SecureJournalError::Io));
    assert_eq!(validate_parent_dir(Some(DIRECTORY)), Ok(()));
    assert_eq!(validate_parent_dir(None), Err(SecureJournalError::InvalidReference));
    let shared = FileStat { kind: FileKind::Directory, mode: 0o770 };
    assert_eq!(validate_parent_dir(Some(shared)), Err(SecureJournalError::InvalidReference));
}

#[test]
fn a_stale_temporary_file_is_removed_and_a_link_is_refused() {
    let stale = (WriteStep::InspectStale, StepOutcome::Found(READABLE));
    let steps = rewrite(Some(stale));
    assert!(steps.contains(&WriteStep::RemoveStale));
    assert_eq!(steps.last(), Some(&WriteStep::Finished(Ok(()))));
    let failed = WriteStep::Finished(Err(SecureJournalError::Io));
    assert_eq!(ending((WriteStep::InspectStale, StepOutcome::Found(LINK))), failed);
    // Only a regular file is removed.
    let directory = rewrite(Some((WriteStep::InspectStale, StepOutcome::Found(DIRECTORY))));
    assert_eq!(directory, vec![WriteStep::InspectParent, WriteStep::InspectStale, failed]);
    assert_eq!(ending((WriteStep::CreateTemp, StepOutcome::Failed)), failed);
}

#[test]
fn a_failure_before_the_rename_leaves_the_journal_alone() {
    for step in [WriteStep::WriteTemp, WriteStep::SyncTemp, WriteStep::Rename] {
        let steps = rewrite(Some((step, StepOutcome::Failed)));
        assert!(steps.contains(&WriteStep::DiscardTemp), "at {step:?}");
        assert!(!steps.contains(&WriteStep::InspectDirectory));
    }
    let permissive = (WriteStep::InspectTemp, StepOutcome::Found(READABLE));
    assert!(rewrite(Some(permissive)).contains(&WriteStep::RestrictAgain));
    let parent = (WriteStep::InspectParent, StepOutcome::Failed);
    assert_eq!(ending(parent), WriteStep::Finished(Err(SecureJournalError::Io)));
    let shared = FileStat { kind: FileKind::Directory, mode: 0o770 };
    let shared = (WriteStep::InspectParent, StepOutcome::Found(shared));
    assert_eq!(ending(shared), WriteStep::Finished(Err(SecureJournalError::Io)));
}

#[test]
fn an_old_journal_that_is_missing_or_unreadable_is_replaced() {
    for outcome in [StepOutcome::Missing, StepOutcome::Failed] {
        let steps = rewrite(Some((WriteStep::ReadOld, outcome)));
        assert!(steps.contains(&WriteStep::Rename));
        assert_eq!(steps.last(), Some(&WriteStep::Finished(Ok(()))));
    }
}

/// The steps where two go differently.
fn rewrite_failing(first: (WriteStep, StepOutcome), then: (WriteStep, StepOutcome)) -> Vec<WriteStep> {
    let mut rewrite = secure_atomic_write();
    let mut steps = Vec::new();
    loop {
        let step = rewrite.step();
        steps.push(step);
        if let WriteStep::Finished(_) = step {
            return steps;
        }
        let odd = if step == first.0 { first } else { then };
        rewrite.advance(outcome(step, Some(odd)));
    }
}

#[test]
fn a_failure_after_the_rename_puts_the_old_journal_back() {
    let failed = WriteStep::Finished(Err(SecureJournalError::Io));
    for odd in [
        (WriteStep::InspectDirectory, StepOutcome::Missing),
        (WriteStep::SyncDirectory, StepOutcome::Failed),
        (WriteStep::InspectJournal, StepOutcome::Found(READABLE)),
        (WriteStep::InspectJournal, StepOutcome::Found(LINK)),
    ] {
        let steps = rewrite(Some(odd));
        assert_eq!(steps[steps.len() - 2..], [WriteStep::Restore, failed]);
        // What was not there is removed again.
        let steps = rewrite_failing((WriteStep::ReadOld, StepOutcome::Missing), odd);
        assert_eq!(steps[steps.len() - 2..], [WriteStep::RemoveNew, failed]);
        // What was not read cannot be put back.
        let steps = rewrite_failing((WriteStep::ReadOld, StepOutcome::Failed), odd);
        assert_eq!(steps[steps.len() - 2..], [odd.0, failed]);
        // A failure to put it back is a failure like any other.
        let steps = rewrite_failing((WriteStep::Restore, StepOutcome::Failed), odd);
        assert_eq!(steps.last(), Some(&failed));
    }
}

#[test]
fn the_directory_must_be_synced() {
    assert_eq!(fsync_parent_dir(Some(DIRECTORY), true), Ok(()));
    assert_eq!(fsync_parent_dir(Some(DIRECTORY), false), Err(SecureJournalError::Io));
    assert_eq!(fsync_parent_dir(Some(LINK), true), Err(SecureJournalError::Io));
    assert_eq!(fsync_parent_dir(None, true), Err(SecureJournalError::Io));
    let failed = WriteStep::Finished(Err(SecureJournalError::Io));
    assert_eq!(ending((WriteStep::SyncDirectory, StepOutcome::Failed)), failed);
    assert_eq!(ending((WriteStep::InspectJournal, StepOutcome::Found(READABLE))), failed);
}
