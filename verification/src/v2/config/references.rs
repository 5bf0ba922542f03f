//! Filesystem references: credentials, trust, policy and journals.
//!
//! Every one is checked by its own directory entry, symbolic links unfollowed,
//! before it is read or opened.
use super::super::paths;
use super::super::paths::{has_trailing_separator, journal_tmp_path, NormalPath};
use super::super::secure_journal;
use super::super::secure_journal::{FileKind, FileStat};
use super::error::V2GatewayConfigError;
use vstd::prelude::*;
use vstd::utf8;

verus! {

/// Longest PEM file.
pub const MAX_PEM_FILE_BYTES: u64 = 1_048_576;

/// Longest controller-trust file.
pub const MAX_CONTROLLER_TRUST_BYTES: u64 = 262_144;

/// Longest policy file.
pub const MAX_POLICY_FILE_BYTES: u64 = 4_096;

/// Longest journal that is opened at all.
pub const MAX_EXISTING_JOURNAL_BYTES: u64 = 16_777_216;

/// Longest path of a filesystem reference.
pub const MAX_REFERENCE_LEN: usize = 4_096;

/// What a file is referenced for.
#[derive(Debug, Clone, Copy, PartialEq, Eq, Structural)]
pub enum RefKind {
    /// Nobody but the owner may touch it.
    PrivateKey,
    /// Nobody but the owner may write it.
    Public,
}

/// A directory entry, its permissions and its length.
#[derive(Debug, Clone, Copy, PartialEq, Eq, Structural)]
pub struct RefStat {
    pub file: FileStat,
    pub len: u64,
}

/// A reference that can be looked up at all.
pub open spec fn path_bounded(path: Seq<char>) -> bool {
    0 < path.len() && utf8::encode_utf8(path).len() <= MAX_REFERENCE_LEN
}

/// A required file is there, regular, bounded and permissioned for its kind.
pub open spec fn required_file_fits(
    path: Seq<char>,
    kind: RefKind,
    max_bytes: u64,
    stat: Option<RefStat>,
) -> bool {
    &&& path_bounded(path)
    &&& stat matches Some(stat) && stat.file.kind == FileKind::Regular && 0 < stat.len <= max_bytes
        && match kind {
        RefKind::PrivateKey => stat.file.private(),
        RefKind::Public => stat.file.owner_writable(),
    }
}

/// Checks a required file by its entry.
pub fn check_required_file(path: &str, kind: RefKind, max_bytes: u64, stat: Option<RefStat>) -> (
    result: Result<(), V2GatewayConfigError>)
    ensures
        result == if required_file_fits(path@, kind, max_bytes, stat) {
            Ok::<(), V2GatewayConfigError>(())
        } else {
            Err(V2GatewayConfigError::FilesystemRef)
        },
{
    if path.is_empty() || path.as_bytes().len() > MAX_REFERENCE_LEN {
        return Err(V2GatewayConfigError::FilesystemRef);
    }
    let stat = match stat {
        Some(stat) => stat,
        None => {
            return Err(V2GatewayConfigError::FilesystemRef);
        },
    };
    if stat.file.kind != FileKind::Regular {
        return Err(V2GatewayConfigError::FilesystemRef);
    }
    if stat.len == 0 || stat.len > max_bytes {
        return Err(V2GatewayConfigError::FilesystemRef);
    }
    let permitted = match kind {
        RefKind::PrivateKey => stat.file.is_private(),
        RefKind::Public => stat.file.is_owner_writable(),
    };
    if permitted {
        Ok(())
    } else {
        Err(V2GatewayConfigError::FilesystemRef)
    }
}

/// A required file as it was found and read.
pub struct RequiredFile {
    pub stat: Option<RefStat>,
    /// Its contents, where they could be read.
    pub contents: Option<Vec<u8>>,
}

/// The contents of a required PEM file.
pub open spec fn pem_contents(path: Seq<char>, kind: RefKind, file: RequiredFile) -> Option<
    Seq<u8>,
> {
    match file.contents {
        Some(contents) if required_file_fits(path, kind, MAX_PEM_FILE_BYTES, file.stat) => Some(
            contents@,
        ),
        _ => None,
    }
}

/// Reads a required PEM file.
pub fn read_required_pem(path: &str, kind: RefKind, file: RequiredFile) -> (result: Result<
    Vec<u8>,
    V2GatewayConfigError,
>)
    ensures
        match pem_contents(path@, kind, file) {
            Some(contents) => result matches Ok(bytes) && bytes@ == contents,
            None => result matches Err(e) && e == V2GatewayConfigError::FilesystemRef,
        },
{
    match check_required_file(path, kind, MAX_PEM_FILE_BYTES, file.stat) {
        Ok(_) => {},
        Err(e) => {
            return Err(e);
        },
    }
    match file.contents {
        Some(contents) => Ok(contents),
        None => Err(V2GatewayConfigError::FilesystemRef),
    }
}

/// The contents of a required file of bounded length. The length is checked
/// once more after reading.
pub open spec fn bounded_contents(path: Seq<char>, max_bytes: u64, file: RequiredFile) -> Option<
    Seq<u8>,
> {
    match file.contents {
        Some(contents) if required_file_fits(path, RefKind::Public, max_bytes, file.stat) && 0
            < contents@.len() <= max_bytes => Some(contents@),
        _ => None,
    }
}

/// Reads a required file of bounded length.
pub fn read_required_bytes(path: &str, max_bytes: u64, file: RequiredFile) -> (result: Result<
    Vec<u8>,
    V2GatewayConfigError,
>)
    ensures
        match bounded_contents(path@, max_bytes, file) {
            Some(contents) => result matches Ok(bytes) && bytes@ == contents,
            None => result matches Err(e) && e == V2GatewayConfigError::FilesystemRef,
        },
{
    match check_required_file(path, RefKind::Public, max_bytes, file.stat) {
        Ok(_) => {},
        Err(e) => {
            return Err(e);
        },
    }
    match file.contents {
        Some(contents) => {
            if contents.len() == 0 || contents.len() as u64 > max_bytes {
                return Err(V2GatewayConfigError::FilesystemRef);
            }
            Ok(contents)
        },
        None => Err(V2GatewayConfigError::FilesystemRef),
    }
}

/// The entry of a journal.
#[derive(Debug, Clone, Copy, PartialEq, Eq, Structural)]
pub enum JournalEntry {
    Missing,
    Unreadable,
    Found(RefStat),
}

/// A journal may be missing where its directory is secure; one that is there
/// must be regular, owner-only and bounded.
pub open spec fn journal_fits(path: Seq<char>, entry: JournalEntry, parent: Option<FileStat>) -> bool {
    &&& path_bounded(path)
    &&& match entry {
        JournalEntry::Found(stat) => stat.file.secure() && stat.len <= MAX_EXISTING_JOURNAL_BYTES,
        JournalEntry::Missing => secure_journal::parent_secure(parent),
        JournalEntry::Unreadable => false,
    }
}

/// Checks a journal reference by its entry and its directory's.
pub fn check_journal_parent(path: &str, entry: JournalEntry, parent: Option<FileStat>) -> (result:
    Result<(), V2GatewayConfigError>)
    ensures
        result == if journal_fits(path@, entry, parent) {
            Ok::<(), V2GatewayConfigError>(())
        } else {
            Err(V2GatewayConfigError::FilesystemRef)
        },
{
    if path.is_empty() || path.as_bytes().len() > MAX_REFERENCE_LEN {
        return Err(V2GatewayConfigError::FilesystemRef);
    }
    let fits = match entry {
        JournalEntry::Found(stat) => stat.file.kind == FileKind::Regular && stat.file.is_private()
            && stat.len <= MAX_EXISTING_JOURNAL_BYTES,
        JournalEntry::Missing => secure_journal::validate_parent_dir(parent).is_ok(),
        JournalEntry::Unreadable => false,
    };
    if fits {
        Ok(())
    } else {
        Err(V2GatewayConfigError::FilesystemRef)
    }
}

/// The two journals and their temporary files are four different files.
pub open spec fn journals_distinct(lease: Seq<u8>, replay: Seq<u8>) -> bool {
    let lease_form = paths::normal_form(lease);
    let replay_form = paths::normal_form(replay);
    let lease_tmp = paths::normal_form(paths::tmp_path(lease));
    let replay_tmp = paths::normal_form(paths::tmp_path(replay));
    &&& !paths::means_directory(lease)
    &&& !paths::means_directory(replay)
    &&& paths::names_file(lease_form)
    &&& paths::names_file(replay_form)
    &&& paths::names_file(lease_tmp)
    &&& paths::names_file(replay_tmp)
    &&& lease_form != lease_tmp
    &&& lease_form != replay_form
    &&& lease_form != replay_tmp
    &&& lease_tmp != replay_form
    &&& lease_tmp != replay_tmp
    &&& replay_form != replay_tmp
}

/// Refuses journals that share a file or a temporary file, by their normal
/// forms alone.
pub fn reject_journal_collisions(lease: &[u8], replay: &[u8]) -> (result: Result<
    (),
    V2GatewayConfigError,
>)
    ensures
        result == if journals_distinct(lease@, replay@) {
            Ok::<(), V2GatewayConfigError>(())
        } else {
            Err(V2GatewayConfigError::FilesystemRef)
        },
{
    if has_trailing_separator(lease) || has_trailing_separator(replay) {
        return Err(V2GatewayConfigError::FilesystemRef);
    }
    let lease_form = NormalPath::of(lease);
    let replay_form = NormalPath::of(replay);
    let lease_tmp = NormalPath::of(journal_tmp_path(lease).as_slice());
    let replay_tmp = NormalPath::of(journal_tmp_path(replay).as_slice());
    if !lease_form.has_file_name() || !replay_form.has_file_name() || !lease_tmp.has_file_name()
        || !replay_tmp.has_file_name() {
        return Err(V2GatewayConfigError::FilesystemRef);
    }
    if lease_form.same(&lease_tmp) || lease_form.same(&replay_form) || lease_form.same(&replay_tmp)
        || lease_tmp.same(&replay_form) || lease_tmp.same(&replay_tmp) || replay_form.same(
        &replay_tmp,
    ) {
        return Err(V2GatewayConfigError::FilesystemRef);
    }
    Ok(())
}

/// A required file is accepted where its path has one to 4,096 bytes and its entry
/// is a regular file, not empty, within its limit, and closed to group and others:
/// to any access where it is a private key, to writing where it is not.
pub proof fn law_required_files(
    path: Seq<char>,
    kind: RefKind,
    max_bytes: u64,
    stat: Option<RefStat>,
)
    ensures
        required_file_fits(path, kind, max_bytes, stat) <==> {
            &&& path.len() >= 1
            &&& utf8::encode_utf8(path).len() <= 4_096
            &&& stat matches Some(stat) && stat.file.kind is Regular && 1 <= stat.len <= max_bytes
                && if kind is PrivateKey {
                stat.file.mode % 0o100 == 0
            } else {
                (stat.file.mode / 0o20) % 2 == 0 && (stat.file.mode / 0o2) % 2 == 0
            }
        },
{
    if let Some(stat) = stat {
        secure_journal::law_permission_bits(stat.file);
    }
}

/// A PEM file that is accepted, up to a mebibyte, and can be read gives its contents;
/// any other gives nothing.
pub proof fn law_pem_files_are_read(path: Seq<char>, kind: RefKind, file: RequiredFile)
    ensures
        pem_contents(path, kind, file) == if file.contents is Some && required_file_fits(
            path,
            kind,
            1_048_576,
            file.stat,
        ) {
            Some(file.contents->0@)
        } else {
            None::<Seq<u8>>
        },
{
}

/// A bounded file that is accepted, and of which no more was read than its limit and
/// not nothing, gives its contents; any other gives nothing.
pub proof fn law_bounded_files_are_read(path: Seq<char>, max_bytes: u64, file: RequiredFile)
    ensures
        bounded_contents(path, max_bytes, file) == if file.contents is Some
            && file.contents->0@.len() >= 1 && file.contents->0@.len() <= max_bytes
            && required_file_fits(path, RefKind::Public, max_bytes, file.stat) {
            Some(file.contents->0@)
        } else {
            None::<Seq<u8>>
        },
{
}

/// A journal is accepted where its path has one to 4,096 bytes, and either it is a
/// private regular file of up to sixteen mebibytes, or there is none yet and its
/// directory is one that only its owner can write.
pub proof fn law_journal_references(
    path: Seq<char>,
    entry: JournalEntry,
    parent: Option<FileStat>,
)
    ensures
        journal_fits(path, entry, parent) <==> {
            &&& path.len() >= 1
            &&& utf8::encode_utf8(path).len() <= 4_096
            &&& match entry {
                JournalEntry::Found(stat) => stat.file.kind is Regular && stat.file.mode % 0o100
                    == 0 && stat.len <= 16_777_216,
                JournalEntry::Missing => parent matches Some(stat) && stat.kind is Directory && (
                stat.mode / 0o20) % 2 == 0 && (stat.mode / 0o2) % 2 == 0,
                JournalEntry::Unreadable => false,
            }
        },
{
    if let JournalEntry::Found(stat) = entry {
        secure_journal::law_permission_bits(stat.file);
    }
    secure_journal::law_secure_parents(parent);
}

/// Whether two journals keep apart does not depend on which is which, and no journal
/// keeps apart from itself.
pub proof fn law_keeping_apart_is_mutual(a: Seq<u8>, b: Seq<u8>)
    ensures
        journals_distinct(a, b) == journals_distinct(b, a),
        !journals_distinct(a, a),
{
}

/// Journals keep apart where all four paths, the two journals' and their temporary
/// files', name files, no path of a journal ends as a directory does, and no two of
/// the four have one normal form.
pub proof fn law_four_files_keep_apart(lease: Seq<u8>, replay: Seq<u8>, i: int, j: int)
    requires
        0 <= i < j < 4,
    ensures
        ({
            let four = seq![lease, paths::tmp_path(lease), replay, paths::tmp_path(replay)];
            &&& journals_distinct(lease, replay) ==> {
                &&& paths::normal_form(four[i]) != paths::normal_form(four[j])
                &&& paths::names_file(paths::normal_form(four[i]))
                &&& paths::names_file(paths::normal_form(four[j]))
                &&& lease.len() > 0 && lease.last() != 0x2f
                &&& replay.len() > 0 && replay.last() != 0x2f
            }
            &&& !journals_distinct(lease, replay) ==> {
                ||| lease.len() == 0 || lease.last() == 0x2f
                ||| replay.len() == 0 || replay.last() == 0x2f
                ||| exists|k: int|
                    0 <= k < 4 && !paths::names_file(paths::normal_form(#[trigger] four[k]))
                ||| exists|k: int, l: int|
                    0 <= k < l < 4 && paths::normal_form(#[trigger] four[k]) == paths::normal_form(
                        #[trigger] four[l],
                    )
            }
        }),
{
    let four = seq![lease, paths::tmp_path(lease), replay, paths::tmp_path(replay)];
    assert(four[0] == lease && four[1] == paths::tmp_path(lease) && four[2] == replay && four[3]
        == paths::tmp_path(replay));
}

} // verus!
