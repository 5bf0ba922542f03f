//! The durable single-gateway ticket redemption journal.
//!
//! A journal is a header that binds it to one gateway name, then fixed-size
//! records: ticket (16), expiry in Unix seconds (8), big-endian. Anything else
//! is corrupt: a bad magic, version or scope, another gateway's name, a
//! partial record, a zero or repeated ticket, a zero expiry, too many records.
use crate::encoding;
use crate::encoding::{append_be, copy_range, read_be, same_bytes};
use crate::id_map;
use crate::id_map::IdMap;
use crate::text::same_text;
use crate::v2::persistence;
use vstd::prelude::*;
use vstd::utf8;

verus! {

pub const REPLAY_JOURNAL_VERSION: u8 = 1;

/// The scope byte of the only supported mode: local single-gateway.
pub const REPLAY_SCOPE_SINGLE: u8 = 0;

pub const REPLAY_RECORD_LEN: usize = 24;

/// Most records that a journal may hold.
pub const MAX_REPLAY_ENTRIES_HARD_CAP: usize = 65_536;

/// Longest gateway name in bytes.
pub const MAX_JOURNAL_GATEWAY_NAME_LEN: usize = 253;

/// A header with the longest name, and the most records there may be.
pub const MAX_REPLAY_JOURNAL_BYTES: usize = 1_573_125;

/// How long beyond its expiry a redeemed ticket is remembered.
pub const REPLAY_EXPIRY_SKEW_SECONDS: u64 = 30;

/// Where tickets may be redeemed. Anything but a single gateway is refused at
/// configuration.
#[derive(Debug, Clone, Copy, PartialEq, Eq, Structural)]
pub enum RedemptionScope {
    SingleGateway,
}

#[derive(Debug, Clone, Copy, PartialEq, Eq, Structural)]
pub enum RedemptionScopeError {
    /// A multi-gateway scope, refused explicitly.
    MultiGatewayRejected,
    /// No scope at all.
    InvalidScope,
}

/// Spellings of a multi-gateway scope.
pub open spec fn names_many_gateways(value: Seq<char>) -> bool {
    value == "multi-gateway"@ || value == "shared"@ || value == "multi"@ || value == "clustered"@
}

impl RedemptionScope {
    /// Only `single-gateway` is accepted.
    pub fn parse(value: &str) -> (result: Result<Self, RedemptionScopeError>)
        ensures
            result == if value@ == "single-gateway"@ {
                Ok::<Self, RedemptionScopeError>(RedemptionScope::SingleGateway)
            } else if names_many_gateways(value@) {
                Err(RedemptionScopeError::MultiGatewayRejected)
            } else {
                Err(RedemptionScopeError::InvalidScope)
            },
    {
        if same_text(value, "single-gateway") {
            Ok(RedemptionScope::SingleGateway)
        } else if same_text(value, "multi-gateway") || same_text(value, "shared") || same_text(
            value,
            "multi",
        ) || same_text(value, "clustered") {
            Err(RedemptionScopeError::MultiGatewayRejected)
        } else {
            Err(RedemptionScopeError::InvalidScope)
        }
    }

    pub fn as_str(self) -> (text: &'static str)
        ensures
            text@ == "single-gateway"@,
    {
        match self {
            RedemptionScope::SingleGateway => "single-gateway",
        }
    }
}

#[derive(Debug, Clone, Copy, PartialEq, Eq, Structural)]
pub enum ReplayJournalError {
    InvalidConfiguration,
    Io,
    Corrupt,
}

/// A name that a journal may be bound to.
pub open spec fn bindable(name: Seq<char>) -> bool {
    &&& name.len() > 0
    &&& utf8::encode_utf8(name).len() <= MAX_JOURNAL_GATEWAY_NAME_LEN
    &&& utf8::is_ascii_chars(name)
}

/// Non-empty ASCII of at most `MAX_JOURNAL_GATEWAY_NAME_LEN` bytes.
fn validate_journal_gateway_name(name: &str) -> (result: Result<(), ReplayJournalError>)
    ensures
        result == if bindable(name@) {
            Ok::<(), ReplayJournalError>(())
        } else {
            Err(ReplayJournalError::InvalidConfiguration)
        },
        bindable(name@) ==> 0 < utf8::encode_utf8(name@).len() <= MAX_JOURNAL_GATEWAY_NAME_LEN,
{
    proof {
        if utf8::is_ascii_chars(name@) {
            utf8::is_ascii_chars_encode_utf8(name@);
        }
    }
    let bytes = name.as_bytes();
    if name.is_empty() || bytes.len() > MAX_JOURNAL_GATEWAY_NAME_LEN || !name.is_ascii() {
        return Err(ReplayJournalError::InvalidConfiguration);
    }
    Ok(())
}

/// The eight bytes before the name: `SGTR`, version, scope, length, zero.
pub open spec fn replay_head(name_len: nat) -> Seq<u8> {
    seq![
        0x53u8,
        0x47u8,
        0x54u8,
        0x52u8,
        REPLAY_JOURNAL_VERSION,
        REPLAY_SCOPE_SINGLE,
        name_len as u8,
        0u8,
    ]
}

/// The ticket of the `i`-th record after the header.
pub open spec fn ticket_bytes(bytes: Seq<u8>, header: nat, i: int) -> Seq<u8> {
    bytes.subrange(header + i * 24, header + i * 24 + 16)
}

/// The expiry of the `i`-th record after the header.
pub open spec fn expiry_bytes(bytes: Seq<u8>, header: nat, i: int) -> Seq<u8> {
    bytes.subrange(header + i * 24 + 16, header + i * 24 + 24)
}

/// Bytes are the journal of a gateway with these tickets and expiries.
pub open spec fn is_replay_journal(
    bytes: Seq<u8>,
    name: Seq<u8>,
    records: Seq<(u128, u64)>,
) -> bool {
    let header = 8 + name.len();
    &&& bytes.len() == header + records.len() * 24
    &&& bytes.subrange(0, 8) == replay_head(name.len())
    &&& bytes.subrange(8, header as int) == name
    &&& forall|i: int|
        0 <= i < records.len() ==> encoding::be(#[trigger] ticket_bytes(bytes, header, i))
            == records[i].0
    &&& forall|i: int|
        0 <= i < records.len() ==> encoding::be(#[trigger] expiry_bytes(bytes, header, i))
            == records[i].1
}

/// Records that a journal may hold.
pub open spec fn acceptable(records: Seq<(u128, u64)>) -> bool {
    &&& records.len() <= MAX_REPLAY_ENTRIES_HARD_CAP
    &&& forall|i: int| 0 <= i < records.len() ==> (#[trigger] records[i]).0 != 0 && records[i].1 != 0
    &&& forall|i: int, j: int|
        0 <= i < j < records.len() ==> (#[trigger] records[i]).0 != (#[trigger] records[j]).0
}

/// Until when a redeemed ticket is remembered.
pub open spec fn retained_until(expiry: u64) -> u64 {
    persistence::saturated(expiry + REPLAY_EXPIRY_SKEW_SECONDS)
}

/// What is remembered of records at a time: for each ticket that is still
/// retained, until when.
pub open spec fn remembers(records: Seq<(u128, u64)>, now: u64, entries: Map<u128, u64>) -> bool {
    &&& forall|i: int|
        0 <= i < records.len() && retained_until((#[trigger] records[i]).1) > now
            ==> entries.contains_key(records[i].0) && entries[records[i].0] == retained_until(
            records[i].1,
        )
    &&& forall|k: u128| #[trigger]
        entries.contains_key(k) ==> exists|i: int|
            0 <= i < records.len() && (#[trigger] records[i]).0 == k && retained_until(records[i].1)
                > now
}

/// A journal file, as reading it turned out.
pub enum ReplayFile {
    Missing,
    /// Its entry or contents could not be read.
    Unreadable,
    /// A link, no regular file, or open to group or others.
    Insecure,
    Present(Vec<u8>),
}

/// Bytes are a journal of a gateway's that may be loaded.
pub open spec fn loadable(bytes: Seq<u8>, name: Seq<u8>) -> bool {
    exists|records: Seq<(u128, u64)>| #[trigger]
        is_replay_journal(bytes, name, records) && acceptable(records)
}

/// Loads a journal. A missing file is an empty journal; tickets that are no
/// longer retained are left out.
pub fn read_replay_journal(file: &ReplayFile, expected_gateway: &str, now_unix_seconds: u64) -> (
    result: Result<IdMap<u64>, ReplayJournalError>)
    ensures
        result matches Ok(entries) ==> entries.wf() && entries@.len()
            <= MAX_REPLAY_ENTRIES_HARD_CAP,
        !bindable(expected_gateway@) ==> result == Err::<IdMap<u64>, ReplayJournalError>(
            ReplayJournalError::InvalidConfiguration,
        ),
        bindable(expected_gateway@) ==> match file {
            ReplayFile::Missing => result matches Ok(entries) && entries@ == Map::<
                u128,
                u64,
            >::empty(),
            ReplayFile::Unreadable => result == Err::<IdMap<u64>, ReplayJournalError>(
                ReplayJournalError::Io,
            ),
            ReplayFile::Insecure => result == Err::<IdMap<u64>, ReplayJournalError>(
                ReplayJournalError::Corrupt,
            ),
            ReplayFile::Present(bytes) => match result {
                Ok(entries) => exists|records: Seq<(u128, u64)>|
                    {
                        &&& #[trigger] is_replay_journal(
                            bytes@,
                            utf8::encode_utf8(expected_gateway@),
                            records,
                        )
                        &&& acceptable(records)
                        &&& remembers(records, now_unix_seconds, entries@)
                    },
                Err(e) => e == ReplayJournalError::Corrupt && !loadable(
                    bytes@,
                    utf8::encode_utf8(expected_gateway@),
                ),
            },
        },
{
    match validate_journal_gateway_name(expected_gateway) {
        Ok(_) => {},
        Err(e) => {
            return Err(e);
        },
    }
    match file {
        ReplayFile::Missing => Ok(IdMap::new()),
        ReplayFile::Unreadable => Err(ReplayJournalError::Io),
        ReplayFile::Insecure => Err(ReplayJournalError::Corrupt),
        ReplayFile::Present(bytes) => parse_replay_journal(
            bytes.as_slice(),
            expected_gateway.as_bytes(),
            now_unix_seconds,
        ),
    }
}

/// The header is that of a gateway's journal with whole records.
pub open spec fn well_headed(bytes: Seq<u8>, name: Seq<u8>) -> bool {
    &&& 8 + name.len() <= bytes.len()
    &&& bytes.subrange(0, 8) == replay_head(name.len())
    &&& bytes.subrange(8, 8 + name.len() as int) == name
    &&& (bytes.len() - 8 - name.len()) % 24 == 0
}

fn has_header(bytes: &[u8], name: &[u8]) -> (fits: bool)
    requires
        0 < name@.len() <= MAX_JOURNAL_GATEWAY_NAME_LEN,
    ensures
        fits == well_headed(bytes@, name@),
{
    let ghost head = bytes@.subrange(0, 8);
    if bytes.len() < 8 {
        return false;
    }
    if bytes[0] != 0x53 || bytes[1] != 0x47 || bytes[2] != 0x54 || bytes[3] != 0x52 || bytes[4]
        != REPLAY_JOURNAL_VERSION || bytes[5] != REPLAY_SCOPE_SINGLE || bytes[6] as usize
        != name.len() || bytes[7] != 0 {
        proof {
            if head == replay_head(name@.len()) {
                assert(head[0] == bytes@[0] && head[1] == bytes@[1] && head[2] == bytes@[2]
                    && head[3] == bytes@[3] && head[4] == bytes@[4] && head[5] == bytes@[5]
                    && head[6] == bytes@[6] && head[7] == bytes@[7]);
            }
        }
        return false;
    }
    assert(head =~= replay_head(name@.len()));
    if bytes.len() < 8 + name.len() {
        return false;
    }
    let stored_name = copy_range(bytes, 8, 8 + name.len());
    if !same_bytes(stored_name.as_slice(), name) {
        return false;
    }
    (bytes.len() - 8 - name.len()) % REPLAY_RECORD_LEN == 0
}

/// What the bytes after a good header spell, record by record.
pub open spec fn spelled(bytes: Seq<u8>, header: nat, count: nat) -> Seq<(u128, u64)> {
    Seq::new(
        count,
        |i: int|
            (
                encoding::be(ticket_bytes(bytes, header, i)) as u128,
                encoding::be(expiry_bytes(bytes, header, i)) as u64,
            ),
    )
}

/// A journal has one reading.
pub proof fn lemma_one_reading(bytes: Seq<u8>, name: Seq<u8>, records: Seq<(u128, u64)>)
    requires
        is_replay_journal(bytes, name, records),
    ensures
        records == spelled(bytes, 8 + name.len(), records.len()),
        well_headed(bytes, name),
        records.len() == (bytes.len() - 8 - name.len()) / 24,
{
    let all = spelled(bytes, 8 + name.len(), records.len());
    assert forall|i: int| 0 <= i < records.len() implies records[i] == all[i] by {
        assert(encoding::be(ticket_bytes(bytes, 8 + name.len(), i)) == records[i].0);
        assert(encoding::be(expiry_bytes(bytes, 8 + name.len(), i)) == records[i].1);
    }
    assert(records =~= all);
}

/// A good header and whole records are a journal of what they spell.
pub proof fn lemma_reading(bytes: Seq<u8>, name: Seq<u8>)
    requires
        well_headed(bytes, name),
    ensures
        is_replay_journal(
            bytes,
            name,
            spelled(
                bytes,
                8 + name.len(),
                ((bytes.len() - 8 - name.len()) / 24) as nat,
            ),
        ),
{
    let header = 8 + name.len();
    let count = ((bytes.len() - 8 - name.len()) / 24) as nat;
    let records = spelled(bytes, header, count);
    encoding::lemma_radix_values();
    assert forall|i: int| 0 <= i < count implies encoding::be(
        #[trigger] ticket_bytes(bytes, header, i),
    ) == records[i].0 by {
        encoding::lemma_be_bound(ticket_bytes(bytes, header, i));
    }
    assert forall|i: int| 0 <= i < count implies encoding::be(
        #[trigger] expiry_bytes(bytes, header, i),
    ) == records[i].1 by {
        encoding::lemma_be_bound(expiry_bytes(bytes, header, i));
    }
}

#[verifier::rlimit(40)]
fn parse_replay_journal(bytes: &[u8], name: &[u8], now_unix_seconds: u64) -> (result: Result<
    IdMap<u64>,
    ReplayJournalError,
>)
    requires
        0 < name@.len() <= MAX_JOURNAL_GATEWAY_NAME_LEN,
    ensures
        match result {
            Ok(entries) => {
                &&& entries.wf()
                &&& entries@.len() <= MAX_REPLAY_ENTRIES_HARD_CAP
                &&& exists|records: Seq<(u128, u64)>|
                    {
                        &&& #[trigger] is_replay_journal(bytes@, name@, records)
                        &&& acceptable(records)
                        &&& remembers(records, now_unix_seconds, entries@)
                    }
            },
            Err(e) => e == ReplayJournalError::Corrupt && !loadable(bytes@, name@),
        },
{
    let ghost header = 8 + name@.len();
    proof {
        assert forall|records: Seq<(u128, u64)>|
            #[trigger] is_replay_journal(bytes@, name@, records) implies records == spelled(
            bytes@,
            header,
            records.len(),
        ) && well_headed(bytes@, name@) && records.len() == (bytes@.len() - header) / 24 by {
            lemma_one_reading(bytes@, name@, records);
        }
    }
    if bytes.len() > MAX_REPLAY_JOURNAL_BYTES {
        return Err(ReplayJournalError::Corrupt);
    }
    if !has_header(bytes, name) {
        return Err(ReplayJournalError::Corrupt);
    }
    let start: usize = 8 + name.len();
    let total: usize = (bytes.len() - start) / REPLAY_RECORD_LEN;
    let ghost records = spelled(bytes@, header, total as nat);
    proof {
        lemma_reading(bytes@, name@);
    }
    if total > MAX_REPLAY_ENTRIES_HARD_CAP {
        return Err(ReplayJournalError::Corrupt);
    }
    let mut entries: IdMap<u64> = IdMap::new();
    let mut seen: IdMap<bool> = IdMap::new();
    let mut i: usize = 0;
    while i < total
        invariant
            i <= total <= MAX_REPLAY_ENTRIES_HARD_CAP,
            header == 8 + name@.len() == start,
            start + total * 24 == bytes@.len(),
            bytes@.len() <= MAX_REPLAY_JOURNAL_BYTES,
            records == spelled(bytes@, header, total as nat),
            is_replay_journal(bytes@, name@, records),
            forall|others: Seq<(u128, u64)>| #[trigger]
                is_replay_journal(bytes@, name@, others) ==> others == spelled(
                    bytes@,
                    header,
                    others.len(),
                ) && others.len() == (bytes@.len() - header) / 24,
            entries.wf(),
            seen.wf(),
            entries@.len() <= i,
            forall|k: u128| #[trigger]
                seen@.contains_key(k) ==> exists|j: int| 0 <= j < i && (#[trigger] records[j]).0 == k,
            forall|j: int| 0 <= j < i ==> seen@.contains_key((#[trigger] records[j]).0),
            acceptable(records.take(i as int)),
            remembers(records.take(i as int), now_unix_seconds, entries@),
        decreases total - i,
    {
        let at: usize = start + i * REPLAY_RECORD_LEN;
        let id: u128 = read_be(bytes, at, 16);
        let expiry_value: u128 = read_be(bytes, at + 16, 8);
        proof {
            encoding::lemma_radix_values();
            assert(ticket_bytes(bytes@, header, i as int) =~= bytes@.subrange(at as int, at + 16));
            assert(expiry_bytes(bytes@, header, i as int) =~= bytes@.subrange(at + 16, at + 24));
        }
        let expiry: u64 = expiry_value as u64;
        assert(records[i as int] == (id, expiry));
        if id == 0 || expiry == 0 {
            proof {
                if loadable(bytes@, name@) {
                    let others = choose|others: Seq<(u128, u64)>| #[trigger]
                        is_replay_journal(bytes@, name@, others) && acceptable(others);
                    assert(others[i as int] == records[i as int]);
                }
            }
            return Err(ReplayJournalError::Corrupt);
        }
        if seen.contains(id) {
            proof {
                let j = choose|j: int| 0 <= j < i && (#[trigger] records[j]).0 == id;
                if loadable(bytes@, name@) {
                    let others = choose|others: Seq<(u128, u64)>| #[trigger]
                        is_replay_journal(bytes@, name@, others) && acceptable(others);
                    assert(others[i as int] == records[i as int]);
                    assert(others[j] == records[j]);
                }
            }
            return Err(ReplayJournalError::Corrupt);
        }
        seen.insert(id, true);
        let until: u64 = expiry.saturating_add(REPLAY_EXPIRY_SKEW_SECONDS);
        let ghost before = entries@;
        let ghost shorter = records.take(i as int);
        let ghost longer = records.take(i + 1);
        proof {
            entries.lemma_finite();
        }
        if until > now_unix_seconds {
            entries.insert(id, until);
        }
        proof {
            assert(longer.drop_last() =~= shorter);
            assert forall|j: int| 0 <= j < longer.len() && retained_until((#[trigger] longer[j]).1)
                > now_unix_seconds implies entries@.contains_key(longer[j].0)
                && entries@[longer[j].0] == retained_until(longer[j].1) by {
                if j < i {
                    assert(shorter[j] == longer[j]);
                    assert(seen@.contains_key(records[j].0));
                    assert(records[j].0 != id) by {
                        assert(acceptable(shorter));
                    }
                }
            }
            assert forall|k: u128| #[trigger] entries@.contains_key(k) implies exists|j: int|
                0 <= j < longer.len() && (#[trigger] longer[j]).0 == k && retained_until(
                    longer[j].1,
                ) > now_unix_seconds by {
                if before.contains_key(k) {
                    let j = choose|j: int|
                        0 <= j < shorter.len() && (#[trigger] shorter[j]).0 == k && retained_until(
                            shorter[j].1,
                        ) > now_unix_seconds;
                    assert(longer[j] == shorter[j]);
                } else {
                    assert(longer[i as int].0 == k);
                }
            }
            assert forall|k: u128| #[trigger] seen@.contains_key(k) implies exists|j: int|
                0 <= j < i + 1 && (#[trigger] records[j]).0 == k by {
                if k == id {
                    assert(records[i as int].0 == k);
                }
            }
        }
        i = i + 1;
    }
    assert(records.take(i as int) =~= records);
    Ok(entries)
}

/// The records that a journal is written from.
pub open spec fn stored_records(listed: Seq<(u128, u64)>) -> Seq<(u128, u64)> {
    listed.map_values(
        |entry: (u128, u64)|
            (entry.0, persistence::saturated(entry.1 - REPLAY_EXPIRY_SKEW_SECONDS)),
    )
}

/// The bytes of a journal, from tickets and until when each is retained.
pub fn rewrite_replay_journal(gateway_name: &str, entries: &IdMap<u64>) -> (result: Result<
    Vec<u8>,
    ReplayJournalError,
>)
    requires
        entries.wf(),
    ensures
        match result {
            Ok(bytes) => {
                &&& bindable(gateway_name@)
                &&& entries@.len() <= MAX_REPLAY_ENTRIES_HARD_CAP
                &&& forall|k: u128| #[trigger]
                    entries@.contains_key(k) ==> entries@[k] > REPLAY_EXPIRY_SKEW_SECONDS
                &&& is_replay_journal(
                    bytes@,
                    utf8::encode_utf8(gateway_name@),
                    stored_records(entries.listed()),
                )
            },
            Err(ReplayJournalError::InvalidConfiguration) => !bindable(gateway_name@),
            Err(e) => {
                &&& e == ReplayJournalError::Io
                &&& bindable(gateway_name@)
                &&& entries@.len() > MAX_REPLAY_ENTRIES_HARD_CAP || exists|k: u128| #[trigger]
                    entries@.contains_key(k) && entries@[k] <= REPLAY_EXPIRY_SKEW_SECONDS
            },
        },
{
    match validate_journal_gateway_name(gateway_name) {
        Ok(_) => {},
        Err(e) => {
            return Err(e);
        },
    }
    let total: usize = entries.len();
    if total > MAX_REPLAY_ENTRIES_HARD_CAP {
        return Err(ReplayJournalError::Io);
    }
    let name = gateway_name.as_bytes();
    let mut bytes: Vec<u8> = Vec::new();
    bytes.push(0x53);
    bytes.push(0x47);
    bytes.push(0x54);
    bytes.push(0x52);
    bytes.push(REPLAY_JOURNAL_VERSION);
    bytes.push(REPLAY_SCOPE_SINGLE);
    bytes.push(name.len() as u8);
    bytes.push(0);
    assert(bytes@ =~= replay_head(name@.len()));
    let mut n: usize = 0;
    while n < name.len()
        invariant
            n <= name@.len(),
            bytes@ == replay_head(name@.len()) + name@.subrange(0, n as int),
        decreases name@.len() - n,
    {
        bytes.push(name[n]);
        n = n + 1;
        assert(bytes@ =~= replay_head(name@.len()) + name@.subrange(0, n as int));
    }
    let ghost header = 8 + name@.len();
    let ghost records = stored_records(entries.listed());
    proof {
        assert(name@.subrange(0, n as int) =~= name@);
        assert(bytes@.subrange(0, 8) =~= replay_head(name@.len()));
        assert(bytes@.subrange(8, header as int) =~= name@);
        assert(is_replay_journal(bytes@, name@, records.take(0)));
    }
    let list = entries.entries();
    let mut i: usize = 0;
    while i < total
        invariant
            entries.wf(),
            bindable(gateway_name@),
            i <= total == entries.listed().len() <= MAX_REPLAY_ENTRIES_HARD_CAP,
            list@ == entries.listed(),
            header == 8 + name@.len(),
            records == stored_records(entries.listed()),
            is_replay_journal(bytes@, name@, records.take(i as int)),
            forall|j: int|
                0 <= j < i ==> (#[trigger] entries.listed()[j]).1 > REPLAY_EXPIRY_SKEW_SECONDS,
        decreases total - i,
    {
        let (key, until) = list[i];
        let expiry: u64 = until.saturating_sub(REPLAY_EXPIRY_SKEW_SECONDS);
        if expiry == 0 {
            proof {
                id_map::lemma_entry(entries.listed(), i as int);
                assert(entries@.contains_key(key));
            }
            return Err(ReplayJournalError::Io);
        }
        let ghost before = bytes@;
        append_be(&mut bytes, key, 16);
        append_be(&mut bytes, expiry as u128, 8);
        proof {
            lemma_append_record(before, name@, records.take(i as int), key, expiry, bytes@);
            assert(records[i as int] == (key, expiry));
            assert(records.take(i as int).push((key, expiry)) =~= records.take(i + 1));
        }
        i = i + 1;
    }
    proof {
        assert(records.take(i as int) =~= records);
        assert forall|k: u128| #[trigger] entries@.contains_key(k) implies entries@[k]
            > REPLAY_EXPIRY_SKEW_SECONDS by {
            id_map::lemma_key_entry(entries.listed(), k);
            let j = id_map::key_index(entries.listed(), k);
            assert(entries.listed()[j].1 > REPLAY_EXPIRY_SKEW_SECONDS);
        }
    }
    Ok(bytes)
}

/// One more record.
proof fn lemma_append_record(
    before: Seq<u8>,
    name: Seq<u8>,
    records: Seq<(u128, u64)>,
    key: u128,
    expiry: u64,
    bytes: Seq<u8>,
)
    requires
        is_replay_journal(before, name, records),
        bytes == before + encoding::to_be(key as nat, 16) + encoding::to_be(expiry as nat, 8),
    ensures
        is_replay_journal(bytes, name, records.push((key, expiry))),
{
    let header = 8 + name.len();
    let more = records.push((key, expiry));
    encoding::lemma_radix_values();
    encoding::lemma_to_be_len(key as nat, 16);
    encoding::lemma_to_be_len(expiry as nat, 8);
    encoding::lemma_be_of_to_be(key as nat, 16);
    encoding::lemma_be_of_to_be(expiry as nat, 8);
    assert(bytes.subrange(0, 8) =~= before.subrange(0, 8));
    assert(bytes.subrange(8, header as int) =~= before.subrange(8, header as int));
    assert forall|i: int| 0 <= i < more.len() implies encoding::be(
        #[trigger] ticket_bytes(bytes, header, i),
    ) == more[i].0 by {
        if i < records.len() {
            assert(ticket_bytes(bytes, header, i) =~= ticket_bytes(before, header, i));
        } else {
            assert(ticket_bytes(bytes, header, i) =~= encoding::to_be(key as nat, 16));
        }
    }
    assert forall|i: int| 0 <= i < more.len() implies encoding::be(
        #[trigger] expiry_bytes(bytes, header, i),
    ) == more[i].1 by {
        if i < records.len() {
            assert(expiry_bytes(bytes, header, i) =~= expiry_bytes(before, header, i));
        } else {
            assert(expiry_bytes(bytes, header, i) =~= encoding::to_be(expiry as nat, 8));
        }
    }
}

/// A redeemed ticket is remembered until thirty seconds after its expiry.
pub proof fn law_tickets_are_remembered_past_their_expiry(expiry: u64)
    ensures
        expiry + 30 <= u64::MAX ==> retained_until(expiry) == expiry + 30,
        expiry + 30 > u64::MAX ==> retained_until(expiry) == u64::MAX,
{
}

/// The bytes of a journal: `SGTR`, one for the version, zero for the scope, the
/// length of the name, zero, the name, and for each record sixteen bytes of ticket
/// and eight of expiry.
pub proof fn law_replay_journal_layout(
    bytes: Seq<u8>,
    name: Seq<u8>,
    records: Seq<(u128, u64)>,
)
    requires
        0 < name.len() <= 253,
    ensures
        is_replay_journal(bytes, name, records) <==> {
            &&& bytes.len() == 8 + name.len() + 24 * records.len()
            &&& bytes[0] == 0x53 && bytes[1] == 0x47 && bytes[2] == 0x54 && bytes[3] == 0x52
            &&& bytes[4] == 1 && bytes[5] == 0 && bytes[6] == name.len() && bytes[7] == 0
            &&& forall|i: int| 0 <= i < name.len() ==> bytes[8 + i] == #[trigger] name[i]
            &&& forall|i: int|
                0 <= i < records.len() ==> {
                    let at = 8 + name.len() + 24 * i;
                    &&& encoding::be(bytes.subrange(at, at + 16)) == (#[trigger] records[i]).0
                    &&& encoding::be(bytes.subrange(at + 16, at + 24)) == records[i].1
                }
        },
{
    let header = 8 + name.len();
    let head = bytes.subrange(0, 8);
    let named = bytes.subrange(8, header as int);
    if is_replay_journal(bytes, name, records) {
        assert(head[0] == bytes[0] && head[1] == bytes[1] && head[2] == bytes[2] && head[3]
            == bytes[3] && head[4] == bytes[4] && head[5] == bytes[5] && head[6] == bytes[6]
            && head[7] == bytes[7]);
        assert forall|i: int| 0 <= i < name.len() implies bytes[8 + i] == #[trigger] name[i] by {
            assert(named[i] == bytes[8 + i]);
        }
        assert forall|i: int| 0 <= i < records.len() implies {
            let at = 8 + name.len() + 24 * i;
            &&& encoding::be(bytes.subrange(at, at + 16)) == (#[trigger] records[i]).0
            &&& encoding::be(bytes.subrange(at + 16, at + 24)) == records[i].1
        } by {
            assert(encoding::be(ticket_bytes(bytes, header, i)) == records[i].0);
            assert(encoding::be(expiry_bytes(bytes, header, i)) == records[i].1);
        }
    }
    if {
        &&& bytes.len() == 8 + name.len() + 24 * records.len()
        &&& bytes[0] == 0x53 && bytes[1] == 0x47 && bytes[2] == 0x54 && bytes[3] == 0x52
        &&& bytes[4] == 1 && bytes[5] == 0 && bytes[6] == name.len() && bytes[7] == 0
        &&& forall|i: int| 0 <= i < name.len() ==> bytes[8 + i] == #[trigger] name[i]
        &&& forall|i: int|
            0 <= i < records.len() ==> {
                let at = 8 + name.len() + 24 * i;
                &&& encoding::be(bytes.subrange(at, at + 16)) == (#[trigger] records[i]).0
                &&& encoding::be(bytes.subrange(at + 16, at + 24)) == records[i].1
            }
    } {
        assert(head =~= replay_head(name.len()));
        assert(named =~= name);
        assert forall|i: int| 0 <= i < records.len() implies encoding::be(
            #[trigger] ticket_bytes(bytes, header, i),
        ) == records[i].0 by {
            assert(records[i] == records[i]);
        }
        assert forall|i: int| 0 <= i < records.len() implies encoding::be(
            #[trigger] expiry_bytes(bytes, header, i),
        ) == records[i].1 by {
            assert(records[i] == records[i]);
        }
    }
}

/// A journal may hold up to 65,536 records, of as many tickets, none of them zero,
/// and none that expired with the epoch.
pub proof fn law_acceptable_records(records: Seq<(u128, u64)>)
    ensures
        acceptable(records) <==> {
            &&& records.len() <= 65_536
            &&& forall|i: int| 0 <= i < records.len() ==> (#[trigger] records[i]).0 > 0
            &&& forall|i: int| 0 <= i < records.len() ==> (#[trigger] records[i]).1 > 0
            &&& forall|i: int, j: int|
                0 <= i < records.len() && 0 <= j < records.len() && i != j ==> (
                #[trigger] records[i]).0 != (#[trigger] records[j]).0
        },
{
    if acceptable(records) {
        assert forall|i: int, j: int|
            0 <= i < records.len() && 0 <= j < records.len() && i != j implies (
        #[trigger] records[i]).0 != (#[trigger] records[j]).0 by {
            if i < j {
                assert(records[i].0 != records[j].0);
            } else {
                assert(records[j].0 != records[i].0);
            }
        }
    }
}

/// What is remembered of some records: every ticket that is not thirty seconds past
/// its expiry yet, until then, and no other.
pub proof fn law_records_are_remembered(
    records: Seq<(u128, u64)>,
    now: u64,
    entries: Map<u128, u64>,
    i: int,
    k: u128,
)
    requires
        remembers(records, now, entries),
        0 <= i < records.len(),
        records[i].1 + 30 <= u64::MAX,
    ensures
        now < records[i].1 + 30 ==> entries.contains_key(records[i].0) && entries[records[i].0]
            == records[i].1 + 30,
        (forall|j: int|
            0 <= j < records.len() ==> (#[trigger] records[j]).0 != k || records[j].1 + 30 <= now)
            ==> !entries.contains_key(k),
{
}

/// Tickets are redeemed at a single gateway or not at all, and each scope that spans
/// gateways is refused as such.
pub proof fn law_scopes(value: &str, result: Result<RedemptionScope, RedemptionScopeError>)
    requires
        call_ensures(RedemptionScope::parse, (value,), result),
    ensures
        result is Ok <==> value@ == "single-gateway"@,
        value@ == "multi-gateway"@ || value@ == "shared"@ || value@ == "multi"@ || value@
            == "clustered"@ ==> result == Err::<RedemptionScope, _>(
            RedemptionScopeError::MultiGatewayRejected,
        ),
        result == Err::<RedemptionScope, _>(RedemptionScopeError::MultiGatewayRejected) ==> value@
            == "multi-gateway"@ || value@ == "shared"@ || value@ == "multi"@ || value@
            == "clustered"@,
{
    reveal_strlit("single-gateway");
    reveal_strlit("multi-gateway");
    reveal_strlit("shared");
    reveal_strlit("multi");
    reveal_strlit("clustered");
    assert("single-gateway"@.len() == 14 && "multi-gateway"@.len() == 13 && "shared"@.len() == 6
        && "multi"@.len() == 5 && "clustered"@.len() == 9);
}

/// A journal may be bound to a name of one to 253 bytes, all of them ASCII.
pub proof fn law_bindable_names(name: Seq<char>)
    ensures
        bindable(name) <==> name.len() >= 1 && utf8::encode_utf8(name).len() <= 253
            && utf8::is_ascii_chars(name),
{
}

/// The records that are written are of the tickets that are remembered, each with the
/// expiry that it was presented with.
pub proof fn law_written_records_keep_the_expiry(listed: Seq<(u128, u64)>, i: int, expiry: u64)
    requires
        0 <= i < listed.len(),
        expiry + 30 <= u64::MAX,
        listed[i].1 == expiry + 30,
    ensures
        stored_records(listed).len() == listed.len(),
        stored_records(listed)[i] == (listed[i].0, expiry),
{
}

} // verus!
