//! The bounded, fail-closed record of redeemed tickets.
//!
//! A live entry is never evicted for capacity; only expiry plus the fixed skew
//! permits removal. A durable cache persists its whole snapshot on every
//! redemption, one at a time, and takes the redemption back when that fails.
use crate::arith;
use crate::arith::count;
use crate::id_map;
use crate::id_map::IdMap;
use crate::ids::TicketId;
use crate::v2::admission::AdmissionError;
use crate::v2::replay;
use crate::v2::replay::{
    read_replay_journal, rewrite_replay_journal, ReplayFile, MAX_REPLAY_ENTRIES_HARD_CAP,
    REPLAY_EXPIRY_SKEW_SECONDS,
};
use vstd::prelude::*;

verus! {

/// Milliseconds within which a redemption must be durable.
pub const REPLAY_JOURNAL_IO_TIMEOUT_MS: u64 = 500;

#[derive(Debug, Clone, Copy, PartialEq, Eq, Structural)]
pub enum ReplayCacheError {
    /// The ticket was redeemed before.
    Replay,
    /// As many tickets are live as may be.
    Capacity,
    /// The redemption could not be made durable.
    Unavailable,
}

#[derive(Debug, Clone, Copy, PartialEq, Eq, Structural)]
pub struct ReplayCacheSnapshot {
    pub entries: usize,
    pub capacity: usize,
    pub replay_rejected: u64,
    pub capacity_rejected: u64,
    pub expired: u64,
    /// Persists to the single-gateway journal.
    pub durable: bool,
}

/// The entries that are still retained at a time.
pub open spec fn live(entries: Map<u128, u64>, now: u64) -> Map<u128, u64> {
    Map::new(|k: u128| entries.contains_key(k) && entries[k] > now, |k: u128| entries[k])
}

/// The state of a cache.
pub struct ReplayModel {
    pub capacity: usize,
    /// Until when each redeemed ticket is retained.
    pub entries: Map<u128, u64>,
    pub replay_rejected: u64,
    pub capacity_rejected: u64,
    pub expired: u64,
    /// The gateway whose journal backs the cache.
    pub gateway: Option<Seq<char>>,
    /// The redemption whose journal is being written, and that journal.
    pub under_way: Option<(u128, Seq<u8>)>,
    /// The journal that was last written.
    pub journal: Seq<u8>,
    /// The entries it was written from.
    pub journaled: Map<u128, u64>,
}

/// Every entry of one map is in the other.
pub open spec fn within(part: Map<u128, u64>, whole: Map<u128, u64>) -> bool {
    forall|k: u128| #[trigger]
        part.contains_key(k) ==> whole.contains_key(k) && whole[k] == part[k]
}

/// Every entry is retained for longer than the skew alone.
pub open spec fn storable(entries: Map<u128, u64>) -> bool {
    forall|k: u128| #[trigger]
        entries.contains_key(k) ==> entries[k] > REPLAY_EXPIRY_SKEW_SECONDS
}

impl ReplayModel {
    pub open spec fn wf(self) -> bool {
        &&& 1 <= self.capacity <= MAX_REPLAY_ENTRIES_HARD_CAP
        &&& self.entries.dom().finite()
        &&& self.entries.len() <= self.capacity
        &&& match self.gateway {
            Some(name) => self.recorded(name),
            None => self.under_way is None,
        }
    }

    /// The journal last written holds every redeemed ticket, but for one whose
    /// own journal is being written.
    pub open spec fn recorded(self, name: Seq<char>) -> bool {
        &&& replay::bindable(name)
        &&& storable(self.entries)
        &&& storable(self.journaled)
        &&& self.journaled.dom().finite()
        &&& self.journaled.len() <= self.capacity
        &&& snapshot_of(self.journal, name, self.journaled)
        &&& match self.under_way {
            None => within(self.entries, self.journaled),
            Some((ticket, bytes)) => {
                &&& self.entries.contains_key(ticket)
                &&& within(self.entries.remove(ticket), self.journaled)
                &&& snapshot_of(bytes, name, self.entries)
            },
        }
    }

    /// Without what is no longer retained.
    pub open spec fn pruned(self, now: u64) -> Self {
        ReplayModel {
            entries: live(self.entries, now),
            expired: arith::counted(
                self.expired,
                self.entries.len() - live(self.entries, now).len(),
            ),
            ..self
        }
    }

    /// Whether a ticket may be redeemed. While the journal of one is being
    /// written, no other may be.
    pub open spec fn verdict(self, ticket: u128, now: u64) -> Result<(), ReplayCacheError> {
        if self.under_way is Some {
            Err(ReplayCacheError::Unavailable)
        } else if live(self.entries, now).contains_key(ticket) {
            Err(ReplayCacheError::Replay)
        } else if live(self.entries, now).len() >= self.capacity {
            Err(ReplayCacheError::Capacity)
        } else {
            Ok(())
        }
    }

    /// After a ticket was presented, before anything is written.
    pub open spec fn presented(self, ticket: u128, expiry: u64, now: u64) -> Self {
        let next = self.pruned(now);
        match self.verdict(ticket, now) {
            Ok(_) => ReplayModel {
                entries: next.entries.insert(ticket, replay::retained_until(expiry)),
                ..next
            },
            Err(ReplayCacheError::Replay) => ReplayModel {
                replay_rejected: arith::counted(next.replay_rejected, 1),
                ..next
            },
            Err(ReplayCacheError::Capacity) => ReplayModel {
                capacity_rejected: arith::counted(next.capacity_rejected, 1),
                ..next
            },
            Err(ReplayCacheError::Unavailable) => self,
        }
    }

    /// While the journal of a redemption is being written.
    pub open spec fn writing(self, ticket: u128, bytes: Seq<u8>) -> Self {
        ReplayModel { under_way: Some((ticket, bytes)), ..self }
    }

    /// After the journal of a redemption was written.
    pub open spec fn written(self, bytes: Seq<u8>) -> Self {
        ReplayModel { under_way: None, journal: bytes, journaled: self.entries, ..self }
    }

    /// After a redemption was taken back.
    pub open spec fn rolled_back(self, ticket: u128) -> Self {
        ReplayModel { entries: self.entries.remove(ticket), under_way: None, ..self }
    }
}

/// Bytes are the journal of a gateway's entries, in ticket order.
pub open spec fn snapshot_of(bytes: Seq<u8>, gateway: Seq<char>, entries: Map<u128, u64>) -> bool {
    exists|listed: Seq<(u128, u64)>|
        {
            &&& #[trigger] id_map::keys_ascend(listed)
            &&& id_map::entries_map(listed) == entries
            &&& replay::is_replay_journal(
                bytes,
                vstd::utf8::encode_utf8(gateway),
                replay::stored_records(listed),
            )
        }
}

/// A redemption that is entered and, where there is a journal, yet to be
/// written.
pub struct Redemption {
    pub ticket_id: TicketId,
    /// What to write to the journal.
    pub journal: Option<Vec<u8>>,
}

impl Redemption {
    /// It is the one that a cache waits for.
    pub open spec fn awaited(self, cache: ReplayModel) -> bool {
        self.journal matches Some(journal) ==> cache.under_way == Some(
            (self.ticket_id.key, journal@),
        )
    }
}

/// A ticket whose redemption stands.
#[derive(Debug, PartialEq, Eq, Structural)]
pub struct RedeemedTicket {
    ticket_id: TicketId,
}

impl RedeemedTicket {
    pub closed spec fn ticket(self) -> TicketId {
        self.ticket_id
    }

    pub fn ticket_id(&self) -> (id: TicketId)
        ensures
            id == self.ticket(),
    {
        self.ticket_id
    }
}

/// What presenting a ticket comes to. A snapshot that cannot be written is
/// taken back at once.
pub open spec fn consume_begun(
    before: ReplayModel,
    ticket: TicketId,
    expiry: u64,
    now: u64,
    result: Result<Redemption, ReplayCacheError>,
    after: ReplayModel,
) -> bool {
    let verdict = before.verdict(ticket.key, now);
    let next = before.presented(ticket.key, expiry, now);
    match verdict {
        Err(e) => result == Err::<Redemption, ReplayCacheError>(e) && after == next,
        Ok(_) => match before.gateway {
            None => {
                &&& result matches Ok(redemption) && redemption.ticket_id == ticket
                    && redemption.journal is None
                &&& after == next
            },
            Some(_) if expiry == 0 => {
                &&& result == Err::<Redemption, ReplayCacheError>(ReplayCacheError::Unavailable)
                &&& after == next.rolled_back(ticket.key)
            },
            Some(gateway) => {
                &&& result matches Ok(redemption)
                &&& redemption.ticket_id == ticket
                &&& redemption.journal matches Some(journal)
                &&& snapshot_of(journal@, gateway, next.entries)
                &&& after == next.writing(ticket.key, journal@)
            },
        },
    }
}

/// What writing the journal of a redemption comes to.
pub open spec fn consume_ended(
    before: ReplayModel,
    redemption: Redemption,
    written: bool,
    result: Result<RedeemedTicket, ReplayCacheError>,
    after: ReplayModel,
) -> bool {
    match redemption.journal {
        Some(_) if !written => {
            &&& result == Err::<RedeemedTicket, ReplayCacheError>(ReplayCacheError::Unavailable)
            &&& after == before.rolled_back(redemption.ticket_id.key)
        },
        journal => {
            &&& result matches Ok(redeemed) && redeemed.ticket() == redemption.ticket_id
            &&& after == match journal {
                Some(bytes) => before.written(bytes@),
                None => before,
            }
        },
    }
}

/// The bounded, atomic record of redeemed tickets.
pub struct ReplayCache {
    capacity: usize,
    entries: IdMap<u64>,
    replay_rejected: u64,
    capacity_rejected: u64,
    expired: u64,
    gateway: Option<String>,
    /// The redemption whose journal is being written.
    under_way: Option<TicketId>,
    staged: Ghost<Seq<u8>>,
    journal: Ghost<Seq<u8>>,
    journaled: Ghost<Map<u128, u64>>,
}

impl View for ReplayCache {
    type V = ReplayModel;

    closed spec fn view(&self) -> ReplayModel {
        ReplayModel {
            capacity: self.capacity,
            entries: self.entries@,
            replay_rejected: self.replay_rejected,
            capacity_rejected: self.capacity_rejected,
            expired: self.expired,
            gateway: match self.gateway {
                Some(name) => Some(name@),
                None => None,
            },
            under_way: match self.under_way {
                Some(ticket) => Some((ticket.key, self.staged@)),
                None => None,
            },
            journal: self.journal@,
            journaled: self.journaled@,
        }
    }
}

/// Leaves out what is no longer retained.
fn prune(entries: &IdMap<u64>, now: u64) -> (kept: IdMap<u64>)
    requires
        entries.wf(),
    ensures
        kept.wf(),
        kept@ == live(entries@, now),
        kept@.len() <= entries@.len(),
        entries@.dom().finite(),
        kept@.dom().finite(),
{
    let list = entries.entries();
    let total: usize = list.len();
    let mut keep: Vec<bool> = Vec::new();
    let mut i: usize = 0;
    while i < total
        invariant
            entries.wf(),
            list@ == entries.listed(),
            i <= total == entries.listed().len(),
            keep@.len() == i,
            forall|j: int| 0 <= j < i ==> #[trigger] keep@[j] == (entries.listed()[j].1 > now),
        decreases total - i,
    {
        keep.push(list[i].1 > now);
        i = i + 1;
    }
    let kept = entries.select(&keep);
    proof {
        entries.lemma_finite();
        assert(kept@ =~= live(entries@, now));
    }
    kept
}

impl ReplayCache {
    pub closed spec fn wf(&self) -> bool {
        &&& self.entries.wf()
        &&& self@.wf()
    }

    /// What is kept of a cache.
    pub proof fn lemma_wf(&self)
        requires
            self.wf(),
        ensures
            self@.wf(),
    {
    }

    /// A cache in memory only.
    pub fn new(capacity: usize) -> (result: Result<Self, AdmissionError>)
        ensures
            match result {
                Ok(cache) => {
                    &&& 1 <= capacity <= MAX_REPLAY_ENTRIES_HARD_CAP
                    &&& cache.wf()
                    &&& cache@ == (ReplayModel {
                        capacity,
                        entries: Map::empty(),
                        replay_rejected: 0,
                        capacity_rejected: 0,
                        expired: 0,
                        gateway: None,
                        under_way: None,
                        journal: Seq::empty(),
                        journaled: Map::empty(),
                    })
                },
                Err(e) => e == AdmissionError::InvalidConfiguration && !(1 <= capacity
                    <= MAX_REPLAY_ENTRIES_HARD_CAP),
            },
    {
        if capacity == 0 || capacity > MAX_REPLAY_ENTRIES_HARD_CAP {
            return Err(AdmissionError::InvalidConfiguration);
        }
        let cache = ReplayCache {
            capacity,
            entries: IdMap::new(),
            replay_rejected: 0,
            capacity_rejected: 0,
            expired: 0,
            gateway: None,
            under_way: None,
            staged: Ghost(Seq::empty()),
            journal: Ghost(Seq::empty()),
            journaled: Ghost(Map::empty()),
        };
        proof {
            cache.entries.lemma_finite();
        }
        Ok(cache)
    }

    /// A cache backed by a gateway's journal, from the journal file as reading
    /// it turned out. Hands back the canonical journal to write: without
    /// expired entries, in order. The cache may be used only once that is on
    /// disk ([`ReplayCache::opened`]).
    pub fn open_durable(
        file: &ReplayFile,
        gateway_name: &str,
        capacity: usize,
        now_unix_seconds: u64,
    ) -> (result: Result<(Self, Vec<u8>), AdmissionError>)
        ensures
            match result {
                Ok((cache, journal)) => {
                    &&& 1 <= capacity <= MAX_REPLAY_ENTRIES_HARD_CAP
                    &&& cache.wf()
                    &&& cache@ == (ReplayModel {
                        capacity,
                        entries: cache@.entries,
                        replay_rejected: 0,
                        capacity_rejected: 0,
                        expired: 0,
                        gateway: Some(gateway_name@),
                        under_way: None,
                        journal: journal@,
                        journaled: cache@.entries,
                    })
                    &&& restored(file, gateway_name@, now_unix_seconds, cache@.entries)
                    &&& snapshot_of(journal@, gateway_name@, cache@.entries)
                },
                Err(AdmissionError::InvalidConfiguration) => !(1 <= capacity
                    <= MAX_REPLAY_ENTRIES_HARD_CAP),
                Err(e) => {
                    &&& e == AdmissionError::ReplayStore
                    &&& 1 <= capacity <= MAX_REPLAY_ENTRIES_HARD_CAP
                    &&& forall|entries: Map<u128, u64>| #[trigger]
                        restored(file, gateway_name@, now_unix_seconds, entries) ==> entries.len()
                            > capacity
                },
            },
    {
        if capacity == 0 || capacity > MAX_REPLAY_ENTRIES_HARD_CAP {
            return Err(AdmissionError::InvalidConfiguration);
        }
        let loaded = match read_replay_journal(file, gateway_name, now_unix_seconds) {
            Ok(loaded) => loaded,
            Err(_) => {
                return Err(AdmissionError::ReplayStore);
            },
        };
        proof {
            loaded.lemma_finite();
            assert(restored(file, gateway_name@, now_unix_seconds, loaded@));
            assert forall|entries: Map<u128, u64>| #[trigger]
                restored(file, gateway_name@, now_unix_seconds, entries) implies entries
                == loaded@ by {
                lemma_restored_once(file, gateway_name@, now_unix_seconds, entries, loaded@);
            }
            assert forall|k: u128| #[trigger] loaded@.contains_key(k) implies loaded@[k]
                > REPLAY_EXPIRY_SKEW_SECONDS by {
                lemma_restored_writable(file, gateway_name@, now_unix_seconds, loaded@, k);
            }
        }
        if loaded.len() > capacity {
            return Err(AdmissionError::ReplayStore);
        }
        match rewrite_replay_journal(gateway_name, &loaded) {
            Ok(journal) => {
                proof {
                    assert(id_map::keys_ascend(loaded.listed()));
                }
                let ghost entries = loaded@;
                let cache = ReplayCache {
                    capacity,
                    entries: loaded,
                    replay_rejected: 0,
                    capacity_rejected: 0,
                    expired: 0,
                    gateway: Some(gateway_name.to_owned()),
                    under_way: None,
                    staged: Ghost(Seq::empty()),
                    journal: Ghost(journal@),
                    journaled: Ghost(entries),
                };
                Ok((cache, journal))
            },
            Err(_) => Err(AdmissionError::ReplayStore),
        }
    }

    /// The cache, once its canonical journal is on disk.
    pub fn opened(self, written: bool) -> (result: Result<Self, AdmissionError>)
        ensures
            result == if written {
                Ok::<Self, AdmissionError>(self)
            } else {
                Err(AdmissionError::ReplayStore)
            },
    {
        if written {
            Ok(self)
        } else {
            Err(AdmissionError::ReplayStore)
        }
    }

    /// Presents a ticket. On success it is entered, and the journal to write
    /// is handed back; the redemption stands once that is on disk
    /// ([`ReplayCache::end_consume`]). Until then no other ticket is redeemed.
    pub fn begin_consume(
        &mut self,
        ticket_id: TicketId,
        ticket_expiry_unix_seconds: u64,
        now_unix_seconds: u64,
    ) -> (result: Result<Redemption, ReplayCacheError>)
        requires
            old(self).wf(),
        ensures
            final(self).wf(),
            consume_begun(
                old(self)@,
                ticket_id,
                ticket_expiry_unix_seconds,
                now_unix_seconds,
                result,
                final(self)@,
            ),
            result matches Ok(redemption) ==> redemption.awaited(final(self)@),
    {
        if self.under_way.is_some() {
            return Err(ReplayCacheError::Unavailable);
        }
        let ghost before = self@;
        let kept = prune(&self.entries, now_unix_seconds);
        let removed: u64 = (self.entries.len() - kept.len()) as u64;
        self.expired = count(self.expired, removed);
        self.entries = kept;
        assert(self@ == before.pruned(now_unix_seconds));
        if self.entries.contains(ticket_id.key) {
            self.replay_rejected = count(self.replay_rejected, 1);
            return Err(ReplayCacheError::Replay);
        }
        if self.entries.len() >= self.capacity {
            self.capacity_rejected = count(self.capacity_rejected, 1);
            return Err(ReplayCacheError::Capacity);
        }
        let ghost pruned = self.entries@;
        let until: u64 = ticket_expiry_unix_seconds.saturating_add(REPLAY_EXPIRY_SKEW_SECONDS);
        self.entries.insert(ticket_id.key, until);
        assert(self@ == before.presented(ticket_id.key, ticket_expiry_unix_seconds, now_unix_seconds));
        proof {
            self.entries.lemma_finite();
            assert(id_map::keys_ascend(self.entries.listed()));
            assert(self.entries@.remove(ticket_id.key) =~= pruned);
        }
        let staged = match &self.gateway {
            Some(gateway) => rewrite_replay_journal(gateway.as_str(), &self.entries),
            None => {
                return Ok(Redemption { ticket_id, journal: None });
            },
        };
        match staged {
            Ok(journal) => {
                assert(self.entries@.contains_key(ticket_id.key));
                self.under_way = Some(ticket_id);
                self.staged = Ghost(journal@);
                Ok(Redemption { ticket_id, journal: Some(journal) })
            },
            Err(_) => {
                let _removed = self.entries.remove(ticket_id.key);
                Err(ReplayCacheError::Unavailable)
            },
        }
    }

    /// Whether the journal of a redemption was written. A failure takes the
    /// redemption back, so that the ticket can be presented again.
    pub fn end_consume(&mut self, redemption: Redemption, written: bool) -> (result: Result<
        RedeemedTicket,
        ReplayCacheError,
    >)
        requires
            old(self).wf(),
            redemption.awaited(old(self)@),
        ensures
            final(self).wf(),
            consume_ended(old(self)@, redemption, written, result, final(self)@),
    {
        let Redemption { ticket_id, journal } = redemption;
        if journal.is_some() {
            self.under_way = None;
            if !written {
                let _removed = self.entries.remove(ticket_id.key);
                proof {
                    self.entries.lemma_finite();
                }
                return Err(ReplayCacheError::Unavailable);
            }
            self.journal = Ghost(journal->Some_0@);
            self.journaled = Ghost(self.entries@);
        }
        Ok(RedeemedTicket { ticket_id })
    }

    /// Redeems a ticket in a cache without a journal.
    pub fn consume(
        &mut self,
        ticket_id: TicketId,
        ticket_expiry_unix_seconds: u64,
        now_unix_seconds: u64,
    ) -> (result: Result<(), ReplayCacheError>)
        requires
            old(self).wf(),
            old(self)@.gateway is None,
        ensures
            final(self).wf(),
            result == old(self)@.verdict(ticket_id.key, now_unix_seconds),
            final(self)@ == old(self)@.presented(
                ticket_id.key,
                ticket_expiry_unix_seconds,
                now_unix_seconds,
            ),
    {
        match self.begin_consume(ticket_id, ticket_expiry_unix_seconds, now_unix_seconds) {
            Ok(_) => Ok(()),
            Err(e) => Err(e),
        }
    }

    /// Persists to the single-gateway journal.
    pub fn is_durable(&self) -> (durable: bool)
        ensures
            durable == (self@.gateway is Some),
    {
        self.gateway.is_some()
    }

    pub fn snapshot(&self) -> (snapshot: ReplayCacheSnapshot)
        requires
            self.wf(),
        ensures
            snapshot == (ReplayCacheSnapshot {
                entries: self@.entries.len() as usize,
                capacity: self@.capacity,
                replay_rejected: self@.replay_rejected,
                capacity_rejected: self@.capacity_rejected,
                expired: self@.expired,
                durable: self@.gateway is Some,
            }),
    {
        ReplayCacheSnapshot {
            entries: self.entries.len(),
            capacity: self.capacity,
            replay_rejected: self.replay_rejected,
            capacity_rejected: self.capacity_rejected,
            expired: self.expired,
            durable: self.gateway.is_some(),
        }
    }
}

/// What a restart restores from a journal file.
pub open spec fn restored(
    file: &ReplayFile,
    gateway: Seq<char>,
    now: u64,
    entries: Map<u128, u64>,
) -> bool {
    &&& replay::bindable(gateway)
    &&& match file {
        ReplayFile::Missing => entries == Map::<u128, u64>::empty(),
        ReplayFile::Present(bytes) => exists|records: Seq<(u128, u64)>|
            {
                &&& #[trigger] replay::is_replay_journal(
                    bytes@,
                    vstd::utf8::encode_utf8(gateway),
                    records,
                )
                &&& replay::acceptable(records)
                &&& replay::remembers(records, now, entries)
            },
        _ => false,
    }
}

/// What is remembered of records is one map.
proof fn lemma_remembers_once(
    records: Seq<(u128, u64)>,
    now: u64,
    a: Map<u128, u64>,
    b: Map<u128, u64>,
)
    requires
        replay::remembers(records, now, a),
        replay::remembers(records, now, b),
    ensures
        a == b,
{
    assert forall|k: u128| a.contains_key(k) implies b.contains_key(k) && a[k] == b[k] by {
        let i = choose|i: int|
            0 <= i < records.len() && (#[trigger] records[i]).0 == k && replay::retained_until(
                records[i].1,
            ) > now;
        assert(records[i].0 == k);
    }
    assert forall|k: u128| b.contains_key(k) implies a.contains_key(k) by {
        let i = choose|i: int|
            0 <= i < records.len() && (#[trigger] records[i]).0 == k && replay::retained_until(
                records[i].1,
            ) > now;
        assert(records[i].0 == k);
    }
    assert(a =~= b);
}

/// A journal file restores one map.
pub proof fn lemma_restored_once(
    file: &ReplayFile,
    gateway: Seq<char>,
    now: u64,
    a: Map<u128, u64>,
    b: Map<u128, u64>,
)
    requires
        restored(file, gateway, now, a),
        restored(file, gateway, now, b),
    ensures
        a == b,
{
    match file {
        ReplayFile::Present(bytes) => {
            let name = vstd::utf8::encode_utf8(gateway);
            let of_a = choose|records: Seq<(u128, u64)>|
                #[trigger] replay::is_replay_journal(bytes@, name, records) && replay::acceptable(
                    records,
                ) && replay::remembers(records, now, a);
            let of_b = choose|records: Seq<(u128, u64)>|
                #[trigger] replay::is_replay_journal(bytes@, name, records) && replay::acceptable(
                    records,
                ) && replay::remembers(records, now, b);
            replay::lemma_one_reading(bytes@, name, of_a);
            replay::lemma_one_reading(bytes@, name, of_b);
            lemma_remembers_once(of_a, now, a, b);
        },
        _ => {},
    }
}

/// What is restored can be written again.
proof fn lemma_restored_writable(
    file: &ReplayFile,
    gateway: Seq<char>,
    now: u64,
    entries: Map<u128, u64>,
    k: u128,
)
    requires
        restored(file, gateway, now, entries),
        entries.contains_key(k),
    ensures
        entries[k] > REPLAY_EXPIRY_SKEW_SECONDS,
{
    match file {
        ReplayFile::Present(bytes) => {
            let name = vstd::utf8::encode_utf8(gateway);
            let records = choose|records: Seq<(u128, u64)>|
                #[trigger] replay::is_replay_journal(bytes@, name, records) && replay::acceptable(
                    records,
                ) && replay::remembers(records, now, entries);
            let i = choose|i: int|
                0 <= i < records.len() && (#[trigger] records[i]).0 == k && replay::retained_until(
                    records[i].1,
                ) > now;
            assert(records[i].1 != 0);
        },
        _ => {},
    }
}

/// A ticket is redeemed once: from its redemption until it is no longer
/// retained, presenting it again is a replay, and presenting any other ticket
/// leaves it redeemed.
pub proof fn law_ticket_is_redeemed_once(
    cache: ReplayModel,
    ticket: u128,
    expiry: u64,
    now: u64,
    other: u128,
    other_expiry: u64,
    later: u64,
)
    requires
        cache.wf(),
        cache.verdict(ticket, now) is Ok,
        later < replay::retained_until(expiry),
    ensures
        ({
            let after = cache.presented(ticket, expiry, now);
            &&& after.verdict(ticket, later) == Err::<(), ReplayCacheError>(
                ReplayCacheError::Replay,
            )
            &&& other != ticket ==> after.presented(
                other,
                other_expiry,
                later,
            ).entries.contains_key(ticket)
            &&& other != ticket ==> after.presented(other, other_expiry, later).entries[ticket]
                == replay::retained_until(expiry)
        }),
{
}

/// A retained ticket stays redeemed, whatever is presented and whether or not
/// another redemption is taken back.
pub proof fn law_redemption_is_kept(
    cache: ReplayModel,
    ticket: u128,
    other: u128,
    other_expiry: u64,
    now: u64,
)
    requires
        cache.entries.contains_key(ticket),
        cache.entries[ticket] > now,
    ensures
        ({
            let after = cache.presented(other, other_expiry, now);
            &&& cache.verdict(ticket, now) == Err::<(), ReplayCacheError>(
                if cache.under_way is Some {
                    ReplayCacheError::Unavailable
                } else {
                    ReplayCacheError::Replay
                },
            )
            &&& after.entries.contains_key(ticket)
            &&& after.entries[ticket] == cache.entries[ticket]
            &&& other != ticket ==> after.rolled_back(other).entries.contains_key(ticket)
            &&& other != ticket ==> after.rolled_back(other).entries[ticket]
                == cache.entries[ticket]
        }),
{
}

/// No more tickets are live than the capacity, and no live one is evicted for
/// room: a full cache refuses.
pub proof fn law_capacity_is_kept(cache: ReplayModel, ticket: u128, expiry: u64, now: u64)
    requires
        cache.wf(),
    ensures
        cache.presented(ticket, expiry, now).entries.len() <= cache.capacity,
        forall|k: u128| #[trigger]
            live(cache.entries, now).contains_key(k) ==> cache.presented(
                ticket,
                expiry,
                now,
            ).entries.contains_key(k),
        live(cache.entries, now).len() >= cache.capacity ==> cache.verdict(ticket, now) is Err,
{
    vstd::set_lib::lemma_len_subset(live(cache.entries, now).dom(), cache.entries.dom());
}

/// A redemption that could not be made durable is undone: the ticket can be
/// presented again, and nothing else has changed but what had expired.
pub proof fn law_failed_redemption_is_undone(
    cache: ReplayModel,
    ticket: u128,
    expiry: u64,
    now: u64,
    bytes: Seq<u8>,
)
    requires
        cache.wf(),
        cache.verdict(ticket, now) is Ok,
    ensures
        cache.presented(ticket, expiry, now).writing(ticket, bytes).rolled_back(ticket)
            == cache.pruned(now),
        cache.pruned(now).verdict(ticket, now) is Ok,
{
    let after = cache.presented(ticket, expiry, now).writing(ticket, bytes).rolled_back(ticket);
    assert(after.entries =~= live(cache.entries, now));
    assert(live(live(cache.entries, now), now) =~= live(cache.entries, now));
}

/// A restart remembers: loading a written journal gives back what is still
/// retained of the entries it was written from, and nothing else. The ticket
/// that is all zeros is outside this: a journal that names it is refused.
pub proof fn law_redemptions_survive_restart(
    file: &ReplayFile,
    gateway: Seq<char>,
    entries: Map<u128, u64>,
    now: u64,
)
    requires
        replay::bindable(gateway),
        file matches ReplayFile::Present(bytes) && snapshot_of(bytes@, gateway, entries),
        entries.len() <= MAX_REPLAY_ENTRIES_HARD_CAP,
        !entries.contains_key(0),
        forall|k: u128| #[trigger]
            entries.contains_key(k) ==> entries[k] > REPLAY_EXPIRY_SKEW_SECONDS,
    ensures
        restored(file, gateway, now, live(entries, now)),
{
    let name = vstd::utf8::encode_utf8(gateway);
    let bytes = file->Present_0@;
    let listed = choose|listed: Seq<(u128, u64)>|
        #[trigger] id_map::keys_ascend(listed) && id_map::entries_map(listed) == entries
            && replay::is_replay_journal(bytes, name, replay::stored_records(listed));
    let records = replay::stored_records(listed);
    id_map::lemma_len(listed);
    assert forall|i: int| 0 <= i < listed.len() implies entries.contains_key(
        (#[trigger] listed[i]).0,
    ) && entries[listed[i].0] == listed[i].1 by {
        id_map::lemma_entry(listed, i);
    }
    assert forall|i: int| 0 <= i < records.len() implies (#[trigger] records[i]).0 != 0
        && records[i].1 != 0 && replay::retained_until(records[i].1) == listed[i].1 by {
        assert(entries.contains_key(listed[i].0));
    }
    assert forall|i: int, j: int| 0 <= i < j < records.len() implies (#[trigger] records[i]).0 != (
    #[trigger] records[j]).0 by {
        assert(listed[i].0 < listed[j].0);
    }
    let kept = live(entries, now);
    assert forall|i: int| 0 <= i < records.len() && replay::retained_until(
        (#[trigger] records[i]).1,
    ) > now implies kept.contains_key(records[i].0) && kept[records[i].0] == replay::retained_until(
        records[i].1,
    ) by {
        assert(entries.contains_key(listed[i].0));
    }
    assert forall|k: u128| #[trigger] kept.contains_key(k) implies exists|i: int|
        0 <= i < records.len() && (#[trigger] records[i]).0 == k && replay::retained_until(
            records[i].1,
        ) > now by {
        id_map::lemma_key_entry(listed, k);
        let i = id_map::key_index(listed, k);
        assert(records[i].0 == k);
    }
    assert(replay::acceptable(records));
    assert(replay::remembers(records, now, kept));
    assert(replay::is_replay_journal(bytes, name, records));
}

/// Redemptions do not overlap: while the journal of one is being written, any
/// other is refused and changes nothing.
pub proof fn law_redemptions_do_not_overlap(
    cache: ReplayModel,
    other: u128,
    expiry: u64,
    now: u64,
)
    requires
        cache.under_way is Some,
    ensures
        cache.verdict(other, now) == Err::<(), ReplayCacheError>(ReplayCacheError::Unavailable),
        cache.presented(other, expiry, now) == cache,
{
}

/// Once a redemption is written, the journal last written is that of the
/// entries.
pub proof fn law_written_journal_is_of_the_entries(cache: ReplayModel)
    requires
        cache.wf(),
        cache.under_way is Some,
    ensures
        ({
            let after = cache.written(cache.under_way->Some_0.1);
            &&& after.wf()
            &&& after.under_way is None
            &&& after.entries == cache.entries
            &&& after.journaled == after.entries
            &&& cache.gateway matches Some(name) && snapshot_of(after.journal, name, after.entries)
        }),
{
}

/// The journal never drops a redeemed ticket: with no redemption under way, a
/// restart from the journal last written restores every ticket that is still
/// retained, as it is retained. The ticket that is all zeros is outside this:
/// a journal that names it is refused.
pub proof fn law_journal_never_drops_a_ticket(cache: ReplayModel, file: &ReplayFile, now: u64)
    requires
        cache.wf(),
        cache.under_way is None,
        file matches ReplayFile::Present(bytes) && bytes@ == cache.journal,
        cache.gateway is Some,
        !cache.journaled.contains_key(0),
    ensures
        restored(file, cache.gateway->Some_0, now, live(cache.journaled, now)),
        within(live(cache.entries, now), live(cache.journaled, now)),
{
    law_redemptions_survive_restart(file, cache.gateway->Some_0, cache.journaled, now);
}

/// A ticket is redeemed unless it was redeemed before and is not forgotten yet, or
/// as many are remembered as may be. Each is remembered until thirty seconds after
/// its expiry, and what is over by now is forgotten; nothing else changes but the
/// count of what was refused.
pub proof fn law_new_tickets_are_redeemed(
    cache: ReplayModel,
    ticket: u128,
    expiry: u64,
    now: u64,
)
    requires
        cache.under_way is None,
    ensures
        ({
            let kept = |k: u128| cache.entries.contains_key(k) && now < cache.entries[k];
            let remembered = cache.entries.dom().filter(|k: u128| now < cache.entries[k]).len();
            let after = cache.presented(ticket, expiry, now);
            let until = if expiry + 30 <= u64::MAX {
                expiry + 30
            } else {
                u64::MAX as int
            };
            let verdict = cache.verdict(ticket, now);
            &&& verdict == if kept(ticket) {
                Err::<(), ReplayCacheError>(ReplayCacheError::Replay)
            } else if remembered >= cache.capacity {
                Err(ReplayCacheError::Capacity)
            } else {
                Ok(())
            }
            &&& forall|k: u128| k != ticket ==> #[trigger] after.entries.contains_key(k) == kept(k)
            &&& forall|k: u128| k != ticket && kept(k) ==> #[trigger] after.entries[k]
                == cache.entries[k]
            &&& verdict is Ok ==> after.entries.contains_key(ticket) && after.entries[ticket]
                == until
            &&& verdict is Err ==> after.entries.contains_key(ticket) == kept(ticket) && (kept(
                ticket,
            ) ==> after.entries[ticket] == cache.entries[ticket])
            &&& after.replay_rejected == if verdict == Err::<(), ReplayCacheError>(
                ReplayCacheError::Replay,
            ) {
                arith::counted(cache.replay_rejected, 1)
            } else {
                cache.replay_rejected
            }
            &&& after.capacity_rejected == if verdict == Err::<(), ReplayCacheError>(
                ReplayCacheError::Capacity,
            ) {
                arith::counted(cache.capacity_rejected, 1)
            } else {
                cache.capacity_rejected
            }
            &&& after.expired == arith::counted(cache.expired, cache.entries.len() - remembered)
            &&& after.capacity == cache.capacity
            &&& after.gateway == cache.gateway
            &&& after.journal == cache.journal
            &&& after.journaled == cache.journaled
            &&& after.under_way is None
        }),
{
    assert(live(cache.entries, now).dom() =~= cache.entries.dom().filter(
        |k: u128| now < cache.entries[k],
    ));
}

/// A redemption stands, for the ticket that was presented, once its journal was
/// written, and at once where the cache has none. One whose journal was not
/// written does not stand, and the ticket is forgotten again.
pub proof fn law_redemptions_stand_once_written(
    before: ReplayModel,
    ticket: TicketId,
    expiry: u64,
    now: u64,
    redemption: Redemption,
    between: ReplayModel,
    written: bool,
    result: Result<RedeemedTicket, ReplayCacheError>,
    after: ReplayModel,
)
    requires
        consume_begun(
            before,
            ticket,
            expiry,
            now,
            Ok::<Redemption, ReplayCacheError>(redemption),
            between,
        ),
        consume_ended(between, redemption, written, result, after),
    ensures
        redemption.journal is Some == before.gateway is Some,
        between.entries.contains_key(ticket.key),
        written || before.gateway is None ==> {
            &&& result matches Ok(redeemed) && redeemed.ticket() == ticket
            &&& after.entries == between.entries
            &&& after.under_way is None
        },
        !written && before.gateway is Some ==> {
            &&& result == Err::<RedeemedTicket, ReplayCacheError>(ReplayCacheError::Unavailable)
            &&& after.entries == between.entries.remove(ticket.key)
            &&& after.under_way is None
            &&& after.journal == before.journal
        },
{
}

/// A ticket that a cache may redeem is redeemed: with a journal to write where the
/// cache has one, and none where it has none. Only a ticket that expired with the
/// epoch cannot be written down.
pub proof fn law_redeemable_tickets_are_taken(
    before: ReplayModel,
    ticket: TicketId,
    expiry: u64,
    now: u64,
    result: Result<Redemption, ReplayCacheError>,
    after: ReplayModel,
)
    requires
        consume_begun(before, ticket, expiry, now, result, after),
        before.verdict(ticket.key, now) is Ok,
        expiry > 0 || before.gateway is None,
    ensures
        result matches Ok(redemption) && redemption.ticket_id == ticket,
{
}

/// A cache remembers one to 65,536 tickets, and begins with none.
pub proof fn law_cache_capacities(
    capacity: usize,
    result: Result<ReplayCache, AdmissionError>,
)
    requires
        call_ensures(ReplayCache::new, (capacity,), result),
    ensures
        result is Ok <==> 1 <= capacity <= 65_536,
        result matches Ok(cache) ==> cache@.capacity == capacity && cache@.entries == Map::<
            u128,
            u64,
        >::empty() && cache@.gateway is None && cache@.under_way is None,
        result matches Err(e) ==> e == AdmissionError::InvalidConfiguration,
{
}

/// What a restart restores: nothing from no journal, nothing at all from one that cannot
/// be read or is not secure, and from any other what is remembered of its records.
pub proof fn law_restarts_restore_the_journal(
    file: &ReplayFile,
    gateway: Seq<char>,
    now: u64,
    entries: Map<u128, u64>,
)
    requires
        restored(file, gateway, now, entries),
    ensures
        file is Missing ==> entries == Map::<u128, u64>::empty(),
        !(file is Unreadable) && !(file is Insecure),
        file matches ReplayFile::Present(bytes) ==> exists|records: Seq<(u128, u64)>|
            replay::remembers(records, now, entries) && #[trigger] replay::is_replay_journal(
                bytes@,
                vstd::utf8::encode_utf8(gateway),
                records,
            ) && replay::acceptable(records),
{
}

/// A cache opens with the tickets that its journal remembers, and with a journal to write
/// that names the gateway. A capacity that no cache may have is what is said first.
pub proof fn law_opened_caches_remember_the_journal(
    file: &ReplayFile,
    gateway_name: &str,
    capacity: usize,
    now: u64,
    result: Result<(ReplayCache, Vec<u8>), AdmissionError>,
)
    requires
        call_ensures(
            ReplayCache::open_durable,
            (file, gateway_name, capacity, now),
            result,
        ),
    ensures
        !(1 <= capacity <= 65_536) <==> result == Err::<(ReplayCache, Vec<u8>), AdmissionError>(
            AdmissionError::InvalidConfiguration,
        ),
        result is Err && 1 <= capacity <= 65_536 ==> result == Err::<
            (ReplayCache, Vec<u8>),
            AdmissionError,
        >(AdmissionError::ReplayStore),
        result matches Ok((cache, journal)) ==> {
            &&& cache@.capacity == capacity
            &&& cache@.gateway == Some(gateway_name@)
            &&& cache@.under_way is None
            &&& cache@.journal == journal@
            &&& file is Missing ==> cache@.entries == Map::<u128, u64>::empty()
            &&& file matches ReplayFile::Present(bytes) ==> exists|records: Seq<(u128, u64)>|
                replay::remembers(records, now, cache@.entries)
                    && #[trigger] replay::is_replay_journal(
                    bytes@,
                    vstd::utf8::encode_utf8(gateway_name@),
                    records,
                )
            &&& snapshot_of(journal@, gateway_name@, cache@.entries)
        },
{
}

} // verus!
