//! The lease journal: fixed-size records, one per session, in session order.
//!
//! A record is magic(4), version(1), state(1), session(16), device(16),
//! ipv4(4), v4len(1), ipv6(16), v6len(1), expires(8): 68 bytes. Version 2
//! persists wall-clock expiries; any other version is refused.
use super::config::MAX_LEASES_HARD_CAP;
use super::lease::{LeaseState, PersistedLease};
use super::model;
use super::store;
use super::store::{listed_leases, StoreError};
use crate::encoding;
use crate::encoding::{append_be, read_be};
use crate::id_map::IdMap;
use crate::ids::{DeviceId, SessionId};
use vstd::prelude::*;

verus! {

pub const JOURNAL_VERSION: u8 = 2;

pub const JOURNAL_RECORD_LEN: usize = 68;

/// `MAX_LEASES_HARD_CAP` records.
pub const MAX_JOURNAL_BYTES: usize = 4_456_448;

/// `SGAL`.
pub open spec fn journal_magic() -> Seq<u8> {
    seq![0x53u8, 0x47u8, 0x41u8, 0x4cu8]
}

/// How a state is written.
pub open spec fn state_wire(state: LeaseState) -> u8 {
    match state {
        LeaseState::Reserved => 0,
        LeaseState::Active => 1,
        LeaseState::ReleasePending => 2,
    }
}

pub fn lease_state_to_wire(state: LeaseState) -> (value: u8)
    ensures
        value == state_wire(state),
{
    match state {
        LeaseState::Reserved => 0,
        LeaseState::Active => 1,
        LeaseState::ReleasePending => 2,
    }
}

pub fn lease_state_from_wire(value: u8) -> (state: Option<LeaseState>)
    ensures
        match state {
            Some(state) => state_wire(state) == value,
            None => value > 2,
        },
{
    match value {
        0 => Some(LeaseState::Reserved),
        1 => Some(LeaseState::Active),
        2 => Some(LeaseState::ReleasePending),
        _ => None,
    }
}

/// Bytes are the record of a lease.
pub open spec fn is_record(bytes: Seq<u8>, lease: PersistedLease) -> bool {
    &&& bytes.len() == JOURNAL_RECORD_LEN
    &&& bytes.subrange(0, 4) == journal_magic()
    &&& bytes[4] == JOURNAL_VERSION
    &&& bytes[5] == state_wire(lease.state)
    &&& encoding::be(bytes.subrange(6, 22)) == lease.session_id.key
    &&& encoding::be(bytes.subrange(22, 38)) == lease.device_id.key
    &&& bytes.subrange(38, 42) == lease.ipv4@
    &&& bytes[42] == lease.ipv4_prefix_len
    &&& bytes.subrange(43, 59) == lease.ipv6_prefix@
    &&& bytes[59] == lease.ipv6_prefix_len
    &&& encoding::be(bytes.subrange(60, 68)) == lease.expires_at_ms
}

/// Appends the record of a lease.
pub fn encode_lease_record(out: &mut Vec<u8>, lease: &PersistedLease)
    ensures
        final(out)@.len() == old(out)@.len() + JOURNAL_RECORD_LEN,
        final(out)@.subrange(0, old(out)@.len() as int) == old(out)@,
        is_record(
            final(out)@.subrange(old(out)@.len() as int, final(out)@.len() as int),
            *lease,
        ),
{
    let ghost base = out@;
    let ghost n = out@.len() as int;
    out.push(0x53);
    out.push(0x47);
    out.push(0x41);
    out.push(0x4c);
    out.push(JOURNAL_VERSION);
    out.push(lease_state_to_wire(lease.state));
    let ghost head = out@;
    append_be(out, lease.session_id.key, 16);
    let ghost with_session = out@;
    append_be(out, lease.device_id.key, 16);
    let ghost with_device = out@;
    let mut i: usize = 0;
    while i < 4
        invariant
            i <= 4,
            out@ == with_device + lease.ipv4@.subrange(0, i as int),
        decreases 4 - i,
    {
        out.push(lease.ipv4[i]);
        i = i + 1;
        assert(out@ =~= with_device + lease.ipv4@.subrange(0, i as int));
    }
    out.push(lease.ipv4_prefix_len);
    let ghost with_v4 = out@;
    let mut j: usize = 0;
    while j < 16
        invariant
            j <= 16,
            out@ == with_v4 + lease.ipv6_prefix@.subrange(0, j as int),
        decreases 16 - j,
    {
        out.push(lease.ipv6_prefix[j]);
        j = j + 1;
        assert(out@ =~= with_v4 + lease.ipv6_prefix@.subrange(0, j as int));
    }
    out.push(lease.ipv6_prefix_len);
    let ghost with_v6 = out@;
    append_be(out, lease.expires_at_ms as u128, 8);
    proof {
        encoding::lemma_radix_values();
        encoding::lemma_to_be_len(lease.session_id.key as nat, 16);
        encoding::lemma_to_be_len(lease.device_id.key as nat, 16);
        encoding::lemma_to_be_len(lease.expires_at_ms as nat, 8);
        encoding::lemma_be_of_to_be(lease.session_id.key as nat, 16);
        encoding::lemma_be_of_to_be(lease.device_id.key as nat, 16);
        encoding::lemma_be_of_to_be(lease.expires_at_ms as nat, 8);
        let r = out@.subrange(n, n + 68);
        assert(lease.ipv4@.subrange(0, 4) =~= lease.ipv4@);
        assert(lease.ipv6_prefix@.subrange(0, 16) =~= lease.ipv6_prefix@);
        assert(head.len() == n + 6 && with_session.len() == n + 22 && with_device.len() == n + 38
            && with_v4.len() == n + 43 && with_v6.len() == n + 60 && out@.len() == n + 68);
        assert(forall|x: int| 0 <= x < n + 60 ==> out@[x] == with_v6[x]);
        assert(forall|x: int| 0 <= x < n + 43 ==> with_v6[x] == with_v4[x]);
        assert(forall|x: int| 0 <= x < n + 38 ==> with_v4[x] == with_device[x]);
        assert(forall|x: int| 0 <= x < n + 22 ==> with_device[x] == with_session[x]);
        assert(forall|x: int| 0 <= x < n + 6 ==> with_session[x] == head[x]);
        assert(r.subrange(0, 4) =~= journal_magic());
        assert(r.subrange(6, 22) =~= encoding::to_be(lease.session_id.key as nat, 16));
        assert(r.subrange(22, 38) =~= encoding::to_be(lease.device_id.key as nat, 16));
        assert(r.subrange(38, 42) =~= lease.ipv4@);
        assert(r.subrange(43, 59) =~= lease.ipv6_prefix@);
        assert(r.subrange(60, 68) =~= encoding::to_be(lease.expires_at_ms as nat, 8));
        assert(out@.subrange(0, n) =~= base);
    }
}

/// Reads the record at `start`.
pub fn decode_lease_record(bytes: &[u8], start: usize) -> (lease: Option<PersistedLease>)
    requires
        start + JOURNAL_RECORD_LEN <= bytes@.len(),
    ensures
        ({
            let record = bytes@.subrange(start as int, start + JOURNAL_RECORD_LEN);
            match lease {
                Some(lease) => is_record(record, lease),
                None => forall|any: PersistedLease| !is_record(record, any),
            }
        }),
{
    let total: usize = bytes.len();
    let ghost record = bytes@.subrange(start as int, start + 68);
    if bytes[start] != 0x53 || bytes[start + 1] != 0x47 || bytes[start + 2] != 0x41 || bytes[start
        + 3] != 0x4c || bytes[start + 4] != JOURNAL_VERSION {
        proof {
            assert forall|any: PersistedLease| !is_record(record, any) by {
                if is_record(record, any) {
                    let head = record.subrange(0, 4);
                    assert(head[0] == record[0] && head[1] == record[1] && head[2] == record[2]
                        && head[3] == record[3]);
                }
            }
        }
        return None;
    }
    let state = match lease_state_from_wire(bytes[start + 5]) {
        Some(state) => state,
        None => {
            return None;
        },
    };
    let session: u128 = read_be(bytes, start + 6, 16);
    let device: u128 = read_be(bytes, start + 22, 16);
    let ipv4: [u8; 4] = [
        bytes[start + 38],
        bytes[start + 39],
        bytes[start + 40],
        bytes[start + 41],
    ];
    let mut ipv6_prefix: [u8; 16] = [0u8; 16];
    let mut i: usize = 0;
    while i < 16
        invariant
            i <= 16,
            start + JOURNAL_RECORD_LEN <= total == bytes@.len(),
            forall|j: int| 0 <= j < i ==> ipv6_prefix@[j] == bytes@[start + 43 + j],
        decreases 16 - i,
    {
        ipv6_prefix[i] = bytes[start + 43 + i];
        i = i + 1;
    }
    let expires: u128 = read_be(bytes, start + 60, 8);
    let lease = PersistedLease {
        session_id: SessionId { key: session },
        device_id: DeviceId { key: device },
        ipv4,
        ipv4_prefix_len: bytes[start + 42],
        ipv6_prefix,
        ipv6_prefix_len: bytes[start + 59],
        state,
        expires_at_ms: expires as u64,
    };
    proof {
        encoding::lemma_radix_values();
        assert(record.subrange(0, 4) =~= journal_magic());
        assert(record.subrange(6, 22) =~= bytes@.subrange(start + 6, start + 22));
        assert(record.subrange(22, 38) =~= bytes@.subrange(start + 22, start + 38));
        assert(record.subrange(38, 42) =~= ipv4@);
        assert(record.subrange(43, 59) =~= ipv6_prefix@);
        assert(record.subrange(60, 68) =~= bytes@.subrange(start + 60, start + 68));
    }
    Some(lease)
}

/// A record determines its lease.
pub proof fn law_record_determines_lease(bytes: Seq<u8>, a: PersistedLease, b: PersistedLease)
    requires
        is_record(bytes, a),
        is_record(bytes, b),
    ensures
        a == b,
{
    assert(a.ipv4 =~= b.ipv4);
    assert(a.ipv6_prefix =~= b.ipv6_prefix);
}

/// A lease determines its record.
pub proof fn law_lease_determines_record(a: Seq<u8>, b: Seq<u8>, lease: PersistedLease)
    requires
        is_record(a, lease),
        is_record(b, lease),
    ensures
        a == b,
{
    encoding::lemma_be_injective(a.subrange(6, 22), b.subrange(6, 22));
    encoding::lemma_be_injective(a.subrange(22, 38), b.subrange(22, 38));
    encoding::lemma_be_injective(a.subrange(60, 68), b.subrange(60, 68));
    assert forall|i: int| 0 <= i < 68 implies a[i] == b[i] by {
        if i < 4 {
            assert(a.subrange(0, 4)[i] == b.subrange(0, 4)[i]);
        } else if 6 <= i < 22 {
            assert(a.subrange(6, 22)[i - 6] == b.subrange(6, 22)[i - 6]);
        } else if 22 <= i < 38 {
            assert(a.subrange(22, 38)[i - 22] == b.subrange(22, 38)[i - 22]);
        } else if 38 <= i < 42 {
            assert(a.subrange(38, 42)[i - 38] == b.subrange(38, 42)[i - 38]);
        } else if 43 <= i < 59 {
            assert(a.subrange(43, 59)[i - 43] == b.subrange(43, 59)[i - 43]);
        } else if 60 <= i {
            assert(a.subrange(60, 68)[i - 60] == b.subrange(60, 68)[i - 60]);
        }
    }
    assert(a =~= b);
}

/// The `i`-th record of a journal.
pub open spec fn record_at(bytes: Seq<u8>, i: int) -> Seq<u8> {
    bytes.subrange(i * 68, i * 68 + 68)
}

/// Bytes are the journal of a list of leases.
pub open spec fn is_journal(bytes: Seq<u8>, leases: Seq<PersistedLease>) -> bool {
    &&& bytes.len() == leases.len() * 68
    &&& forall|i: int| 0 <= i < leases.len() ==> is_record(#[trigger] record_at(bytes, i), leases[i])
}

/// The `i`-th record of bytes is the record of no lease.
pub open spec fn bad_record_at(bytes: Seq<u8>, i: int) -> bool {
    &&& 0 <= i
    &&& i * 68 + 68 <= bytes.len()
    &&& forall|lease: PersistedLease| !#[trigger] is_record(record_at(bytes, i), lease)
}

/// Bytes hold a record that no lease has.
pub open spec fn has_bad_record(bytes: Seq<u8>) -> bool {
    exists|i: int| #[trigger] bad_record_at(bytes, i)
}

/// Reads a whole journal. Trailing bytes, an oversized file and any bad
/// record make it `Corrupt`.
pub fn read_journal(bytes: &[u8]) -> (result: Result<Vec<PersistedLease>, StoreError>)
    ensures
        match result {
            Ok(leases) => is_journal(bytes@, leases@) && bytes@.len() <= MAX_JOURNAL_BYTES,
            Err(e) => e == StoreError::Corrupt && (bytes@.len() > MAX_JOURNAL_BYTES
                || bytes@.len() % 68 != 0 || has_bad_record(bytes@)),
        },
{
    if bytes.len() > MAX_JOURNAL_BYTES {
        return Err(StoreError::Corrupt);
    }
    if bytes.len() % JOURNAL_RECORD_LEN != 0 {
        return Err(StoreError::Corrupt);
    }
    let total: usize = bytes.len() / JOURNAL_RECORD_LEN;
    let mut leases: Vec<PersistedLease> = Vec::new();
    let mut i: usize = 0;
    while i < total
        invariant
            i <= total <= MAX_LEASES_HARD_CAP,
            total * 68 == bytes@.len(),
            leases@.len() == i,
            forall|j: int|
                0 <= j < i ==> is_record(#[trigger] record_at(bytes@, j), leases@[j]),
        decreases total - i,
    {
        match decode_lease_record(bytes, i * JOURNAL_RECORD_LEN) {
            Some(lease) => {
                leases.push(lease);
                assert(is_record(record_at(bytes@, i as int), lease));
            },
            None => {
                assert(bad_record_at(bytes@, i as int));
                return Err(StoreError::Corrupt);
            },
        }
        i = i + 1;
    }
    Ok(leases)
}

/// Writes a whole journal.
pub fn write_journal(leases: &Vec<PersistedLease>) -> (bytes: Vec<u8>)
    ensures
        is_journal(bytes@, leases@),
{
    let mut bytes: Vec<u8> = Vec::new();
    let mut i: usize = 0;
    while i < leases.len()
        invariant
            i <= leases@.len(),
            bytes@.len() == i * 68,
            forall|j: int|
                0 <= j < i ==> is_record(#[trigger] record_at(bytes@, j), leases@[j]),
        decreases leases@.len() - i,
    {
        let ghost before = bytes@;
        encode_lease_record(&mut bytes, &leases[i]);
        proof {
            assert forall|j: int| 0 <= j < i + 1 implies is_record(
                #[trigger] record_at(bytes@, j),
                leases@[j],
            ) by {
                if j < i {
                    assert(record_at(bytes@, j) =~= record_at(before, j)) by {
                        assert(bytes@.subrange(0, before.len() as int) == before);
                        assert forall|x: int| 0 <= x < before.len() implies #[trigger] bytes@[x]
                            == before[x] by {
                            assert(before[x] == bytes@.subrange(0, before.len() as int)[x]);
                        }
                    }
                    assert(is_record(record_at(before, j), leases@[j]));
                }
            }
        }
        i = i + 1;
    }
    bytes
}

/// A journal is read back as the leases it was written from.
pub proof fn law_journal_round_trip(
    bytes: Seq<u8>,
    written: Seq<PersistedLease>,
    read: Seq<PersistedLease>,
)
    requires
        is_journal(bytes, written),
        is_journal(bytes, read),
    ensures
        read == written,
{
    assert forall|i: int| 0 <= i < written.len() implies read[i] == written[i] by {
        let record = record_at(bytes, i);
        assert(is_record(record, written[i]));
        assert(is_record(record, read[i]));
        law_record_determines_lease(record, written[i], read[i]);
    }
    assert(read =~= written);
}

/// Two records name one session.
pub open spec fn repeats_session(leases: Seq<PersistedLease>) -> bool {
    exists|i: int, j: int|
        0 <= i < j < leases.len() && (#[trigger] leases[i]).session_id == (
        #[trigger] leases[j]).session_id
}

/// Bytes are a journal of what a map holds.
pub open spec fn opens_as(bytes: Seq<u8>, contents: Map<u128, PersistedLease>) -> bool {
    exists|leases: Seq<PersistedLease>|
        #[trigger] is_journal(bytes, leases) && store::lists(leases, contents)
}

/// Bytes are the canonical journal of a map: every lease once, in session
/// order.
pub open spec fn journal_of(bytes: Seq<u8>, contents: Map<u128, PersistedLease>) -> bool {
    exists|leases: Seq<PersistedLease>|
        #[trigger] is_journal(bytes, leases) && model::leases_ascend(leases) && store::lists(
            leases,
            contents,
        )
}

/// Bytes are no journal: they are too many, or not whole records, or hold a
/// bad record or two records of one session.
pub open spec fn refused(bytes: Seq<u8>) -> bool {
    ||| bytes.len() > MAX_JOURNAL_BYTES
    ||| bytes.len() % 68 != 0
    ||| has_bad_record(bytes)
    ||| exists|leases: Seq<PersistedLease>|
        #[trigger] is_journal(bytes, leases) && repeats_session(leases)
}

/// Bytes of bounded length that open are not refused, and open as one map
/// only.
pub proof fn lemma_opens_once(
    bytes: Seq<u8>,
    contents: Map<u128, PersistedLease>,
    reopened: Map<u128, PersistedLease>,
)
    requires
        opens_as(bytes, contents),
        bytes.len() <= MAX_JOURNAL_BYTES,
    ensures
        !refused(bytes),
        opens_as(bytes, reopened) ==> reopened == contents,
{
    let written = choose|written: Seq<PersistedLease>|
        #[trigger] is_journal(bytes, written) && store::lists(written, contents);
    assert forall|i: int| !#[trigger] bad_record_at(bytes, i) by {
        if bad_record_at(bytes, i) {
            assert(is_record(record_at(bytes, i), written[i]));
        }
    }
    assert forall|leases: Seq<PersistedLease>|
        #[trigger] is_journal(bytes, leases) implies !repeats_session(leases) by {
        law_journal_round_trip(bytes, written, leases);
    }
    if opens_as(bytes, reopened) {
        let leases = choose|leases: Seq<PersistedLease>|
            #[trigger] is_journal(bytes, leases) && store::lists(leases, reopened);
        law_journal_round_trip(bytes, written, leases);
        assert forall|k: u128| reopened.contains_key(k) == contents.contains_key(k) by {
            if reopened.contains_key(k) {
                let i = choose|i: int|
                    0 <= i < leases.len() && (#[trigger] leases[i]).session_id.key == k;
                assert(contents.contains_key(written[i].session_id.key));
            }
            if contents.contains_key(k) {
                let i = choose|i: int|
                    0 <= i < written.len() && (#[trigger] written[i]).session_id.key == k;
                assert(reopened.contains_key(leases[i].session_id.key));
            }
        }
        assert forall|k: u128| reopened.contains_key(k) implies reopened[k] == contents[k] by {
            let i = choose|i: int|
                0 <= i < leases.len() && (#[trigger] leases[i]).session_id.key == k;
            assert(reopened[leases[i].session_id.key] == leases[i]);
            assert(contents[written[i].session_id.key] == written[i]);
        }
        assert(reopened =~= contents);
    }
}

/// What was written is what a restart reads: the canonical journal of a map
/// within the cap is never refused, and opens as that map and no other.
pub proof fn law_journal_reopens(
    bytes: Seq<u8>,
    contents: Map<u128, PersistedLease>,
    reopened: Map<u128, PersistedLease>,
)
    requires
        journal_of(bytes, contents),
        contents.len() <= MAX_LEASES_HARD_CAP,
    ensures
        !refused(bytes),
        opens_as(bytes, contents),
        opens_as(bytes, reopened) ==> reopened == contents,
{
    let written = choose|written: Seq<PersistedLease>|
        #[trigger] is_journal(bytes, written) && model::leases_ascend(written) && store::lists(
            written,
            contents,
        );
    store::lemma_lists_len(written, contents);
    lemma_opens_once(bytes, contents, reopened);
}

/// The self-hosted durable store without its file: what the journal holds, and
/// the bytes that each change makes of it. A change is committed here only
/// once its bytes are on disk, so a failed rewrite leaves it as it was.
pub struct JournalLeaseStore {
    entries: IdMap<PersistedLease>,
}

impl JournalLeaseStore {
    /// What the journal holds, by session.
    pub closed spec fn contents(&self) -> Map<u128, PersistedLease> {
        self.entries@
    }

    pub closed spec fn wf(&self) -> bool {
        self.entries.wf() && store::filed(self.entries@)
    }

    /// Replays a journal file. A missing file is an empty journal. Bad bytes
    /// and two records of one session are `Corrupt`.
    pub fn open(file: Option<&[u8]>) -> (result: Result<Self, StoreError>)
        ensures
            match file {
                None => result matches Ok(journal) && journal.wf() && journal.contents() == Map::<
                    u128,
                    PersistedLease,
                >::empty(),
                Some(bytes) => {
                    &&& result is Err <==> refused(bytes@)
                    &&& match result {
                        Ok(journal) => journal.wf() && opens_as(bytes@, journal.contents()),
                        Err(e) => e == StoreError::Corrupt,
                    }
                },
            },
    {
        let bytes = match file {
            Some(bytes) => bytes,
            None => {
                return Ok(JournalLeaseStore { entries: IdMap::new() });
            },
        };
        let leases = match read_journal(bytes) {
            Ok(leases) => leases,
            Err(e) => {
                return Err(e);
            },
        };
        let mut entries: IdMap<PersistedLease> = IdMap::new();
        let mut i: usize = 0;
        while i < leases.len()
            invariant
                i <= leases@.len(),
                file == Some(bytes),
                is_journal(bytes@, leases@),
                entries.wf(),
                store::filed(entries@),
                store::lists(leases@.take(i as int), entries@),
            decreases leases@.len() - i,
        {
            let lease = leases[i];
            let ghost before = entries@;
            let ghost shorter = leases@.take(i as int);
            let ghost longer = leases@.take(i + 1);
            if entries.contains(lease.session_id.key) {
                proof {
                    let j = choose|j: int|
                        0 <= j < shorter.len() && (#[trigger] shorter[j]).session_id.key
                            == lease.session_id.key;
                    assert(leases@[j].session_id.key == leases@[i as int].session_id.key);
                    assert(repeats_session(leases@));
                }
                return Err(StoreError::Corrupt);
            }
            entries.insert(lease.session_id.key, lease);
            proof {
                assert forall|j: int| 0 <= j < longer.len() implies entries@.contains_key(
                    (#[trigger] longer[j]).session_id.key,
                ) && entries@[longer[j].session_id.key] == longer[j] by {
                    if j < i {
                        assert(shorter[j] == longer[j]);
                        assert(before.contains_key(shorter[j].session_id.key));
                    }
                }
                assert forall|m: int, n: int| 0 <= m < n < longer.len() implies (
                #[trigger] longer[m]).session_id != (#[trigger] longer[n]).session_id by {
                    assert(shorter[m] == longer[m]);
                    if n < i {
                        assert(shorter[n] == longer[n]);
                    } else {
                        assert(before.contains_key(shorter[m].session_id.key));
                    }
                }
                assert forall|k: u128| #[trigger] entries@.contains_key(k) implies exists|j: int|
                    0 <= j < longer.len() && (#[trigger] longer[j]).session_id.key == k by {
                    if k == lease.session_id.key {
                        assert(longer[i as int].session_id.key == k);
                    } else {
                        assert(before.contains_key(k));
                        let j = choose|j: int|
                            0 <= j < shorter.len() && (#[trigger] shorter[j]).session_id.key == k;
                        assert(longer[j] == shorter[j]);
                    }
                }
            }
            i = i + 1;
        }
        proof {
            assert(leases@.take(i as int) =~= leases@);
            assert(opens_as(bytes@, entries@));
            lemma_opens_once(bytes@, entries@, entries@);
        }
        Ok(JournalLeaseStore { entries })
    }

    /// The leases that a load hands out, in session order.
    pub fn leases(&self) -> (leases: Vec<PersistedLease>)
        requires
            self.wf(),
        ensures
            store::lists(leases@, self.contents()),
            model::leases_ascend(leases@),
    {
        listed_leases(&self.entries)
    }

    /// The journal bytes of a map of leases, or `Io` when there are too many.
    fn bytes_of(entries: &IdMap<PersistedLease>) -> (result: Result<Vec<u8>, StoreError>)
        requires
            entries.wf(),
            store::filed(entries@),
        ensures
            match result {
                Ok(bytes) => journal_of(bytes@, entries@) && entries@.len() <= MAX_LEASES_HARD_CAP,
                Err(e) => e == StoreError::Io && entries@.len() > MAX_LEASES_HARD_CAP,
            },
    {
        if entries.len() > MAX_LEASES_HARD_CAP {
            return Err(StoreError::Io);
        }
        let leases = listed_leases(entries);
        let bytes = write_journal(&leases);
        assert(is_journal(bytes@, leases@) && model::leases_ascend(leases@));
        Ok(bytes)
    }

    /// The bytes to write for a journal that also holds `lease`.
    pub fn stage_persist(&self, lease: &PersistedLease) -> (result: Result<Vec<u8>, StoreError>)
        requires
            self.wf(),
        ensures
            ({
                let next = self.contents().insert(lease.session_id.key, *lease);
                match result {
                    Ok(bytes) => journal_of(bytes@, next) && next.len() <= MAX_LEASES_HARD_CAP,
                    Err(e) => e == StoreError::Io && next.len() > MAX_LEASES_HARD_CAP,
                }
            }),
    {
        let mut entries = copy_entries(&self.entries);
        entries.insert(lease.session_id.key, *lease);
        Self::bytes_of(&entries)
    }

    /// The staged lease is on disk.
    pub fn commit_persist(&mut self, lease: &PersistedLease)
        requires
            old(self).wf(),
        ensures
            final(self).wf(),
            final(self).contents() == old(self).contents().insert(lease.session_id.key, *lease),
    {
        self.entries.insert(lease.session_id.key, *lease);
    }

    /// The bytes to write for a journal without a session.
    pub fn stage_release(&self, session_id: &SessionId) -> (result: Result<Vec<u8>, StoreError>)
        requires
            self.wf(),
        ensures
            ({
                let next = self.contents().remove(session_id.key);
                match result {
                    Ok(bytes) => journal_of(bytes@, next) && next.len() <= MAX_LEASES_HARD_CAP,
                    Err(e) => e == StoreError::Io && next.len() > MAX_LEASES_HARD_CAP,
                }
            }),
    {
        let mut entries = copy_entries(&self.entries);
        let _removed = entries.remove(session_id.key);
        Self::bytes_of(&entries)
    }

    /// The staged release is on disk.
    pub fn commit_release(&mut self, session_id: &SessionId)
        requires
            old(self).wf(),
        ensures
            final(self).wf(),
            final(self).contents() == old(self).contents().remove(session_id.key),
    {
        let _removed = self.entries.remove(session_id.key);
    }
}

fn copy_entries(entries: &IdMap<PersistedLease>) -> (copy: IdMap<PersistedLease>)
    requires
        entries.wf(),
    ensures
        copy.wf(),
        copy@ == entries@,
{
    entries.copied()
}

/// The sixty-eight bytes of a record: `SGAL`, two for the version, the state, the
/// session, the device, the IPv4 host and its prefix length, the IPv6 prefix and
/// its length, and the deadline, each number most significant byte first.
pub proof fn law_record_layout(bytes: Seq<u8>, lease: PersistedLease)
    ensures
        is_record(bytes, lease) <==> {
            &&& bytes.len() == 68
            &&& bytes[0] == 0x53 && bytes[1] == 0x47 && bytes[2] == 0x41 && bytes[3] == 0x4c
            &&& bytes[4] == 2
            &&& bytes[5] == match lease.state {
                LeaseState::Reserved => 0u8,
                LeaseState::Active => 1u8,
                LeaseState::ReleasePending => 2u8,
            }
            &&& encoding::be(bytes.subrange(6, 22)) == lease.session_id.key
            &&& encoding::be(bytes.subrange(22, 38)) == lease.device_id.key
            &&& bytes.subrange(38, 42) == lease.ipv4@
            &&& bytes[42] == lease.ipv4_prefix_len
            &&& bytes.subrange(43, 59) == lease.ipv6_prefix@
            &&& bytes[59] == lease.ipv6_prefix_len
            &&& encoding::be(bytes.subrange(60, 68)) == lease.expires_at_ms
        },
{
    let magic = bytes.subrange(0, 4);
    if is_record(bytes, lease) {
        assert(magic[0] == bytes[0] && magic[1] == bytes[1] && magic[2] == bytes[2] && magic[3]
            == bytes[3]);
    } else if bytes.len() == 68 && bytes[0] == 0x53 && bytes[1] == 0x47 && bytes[2] == 0x41
        && bytes[3] == 0x4c {
        assert(magic =~= journal_magic());
    }
}

/// Bytes are no journal exactly where they are over 4,456,448, or not a whole
/// number of records, or name a session twice, or where some record is that of no
/// lease.
pub proof fn law_what_is_no_journal(bytes: Seq<u8>)
    ensures
        bytes.len() > 4_456_448 ==> refused(bytes),
        bytes.len() % 68 != 0 ==> refused(bytes),
        refused(bytes) && bytes.len() <= 4_456_448 && bytes.len() % 68 == 0 ==> has_bad_record(
            bytes,
        ) || exists|leases: Seq<PersistedLease>, i: int, j: int|
            #![trigger is_journal(bytes, leases), leases[i], leases[j]]
            {
                &&& is_journal(bytes, leases)
                &&& 0 <= i < j < leases.len()
                &&& leases[i].session_id == leases[j].session_id
            },
{
    if refused(bytes) && bytes.len() <= 4_456_448 && bytes.len() % 68 == 0 && !has_bad_record(
        bytes,
    ) {
        let leases = choose|leases: Seq<PersistedLease>|
            #[trigger] is_journal(bytes, leases) && repeats_session(leases);
        let (i, j) = choose|i: int, j: int|
            0 <= i < j < leases.len() && (#[trigger] leases[i]).session_id == (
            #[trigger] leases[j]).session_id;
        assert(is_journal(bytes, leases) && leases[i].session_id == leases[j].session_id);
    }
}

/// A lease is staged where the journal would then hold no more than 65,536, and a
/// release likewise; a missing file is an empty journal.
pub proof fn law_journals_hold_up_to_the_cap(
    journal: &JournalLeaseStore,
    lease: &PersistedLease,
    session_id: &SessionId,
    persisted: Result<Vec<u8>, StoreError>,
    released: Result<Vec<u8>, StoreError>,
    opened: Result<JournalLeaseStore, StoreError>,
)
    requires
        journal.wf(),
        call_ensures(JournalLeaseStore::stage_persist, (journal, lease), persisted),
        call_ensures(JournalLeaseStore::stage_release, (journal, session_id), released),
        call_ensures(JournalLeaseStore::open, (None,), opened),
    ensures
        persisted is Ok <==> journal.contents().insert(lease.session_id.key, *lease).len()
            <= 65_536,
        persisted matches Ok(bytes) ==> journal_of(
            bytes@,
            journal.contents().insert(lease.session_id.key, *lease),
        ),
        released is Ok <==> journal.contents().remove(session_id.key).len() <= 65_536,
        released matches Ok(bytes) ==> journal_of(
            bytes@,
            journal.contents().remove(session_id.key),
        ),
        opened is Ok && opened->Ok_0.contents() == Map::<u128, PersistedLease>::empty(),
{
}

/// The states of a lease are told apart by one byte: zero, one and two. Any other byte
/// is no state.
pub proof fn law_states_are_bytes(value: u8, state: Option<LeaseState>)
    requires
        call_ensures(lease_state_from_wire, (value,), state),
    ensures
        value == 0 <==> state == Some(LeaseState::Reserved),
        value == 1 <==> state == Some(LeaseState::Active),
        value == 2 <==> state == Some(LeaseState::ReleasePending),
        value > 2 <==> state is None,
{
}

} // verus!
