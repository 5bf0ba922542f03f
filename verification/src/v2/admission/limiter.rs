//! Limits on handshakes and ticket verifications in flight.
use super::error::AdmissionError;
use crate::arith;
use crate::arith::count;
use crate::id_map::IdMap;
use vstd::prelude::*;

verus! {

/// Where a handshake comes from.
#[derive(Debug, Clone, Copy, PartialEq, Eq, Structural)]
pub enum SourceAddress {
    V4(u32),
    V6(u128),
}

/// Bounds on handshakes and ticket verifications.
#[derive(Debug, Clone, Copy, PartialEq, Eq, Structural)]
pub struct HandshakeAdmissionLimiterConfig {
    pub source_capacity: usize,
    pub source_ttl_millis: u64,
    pub maximum_per_source_in_flight: usize,
    pub maximum_global_in_flight: usize,
    pub maximum_verification_budget_millis: u64,
}

impl HandshakeAdmissionLimiterConfig {
    /// No bound is zero.
    pub open spec fn valid(self) -> bool {
        &&& self.source_capacity != 0
        &&& self.source_ttl_millis != 0
        &&& self.maximum_per_source_in_flight != 0
        &&& self.maximum_global_in_flight != 0
        &&& self.maximum_verification_budget_millis != 0
    }
}

/// What is kept of a source.
#[derive(Debug, Clone, Copy, PartialEq, Eq, Structural)]
pub struct SourceState {
    pub in_flight: usize,
    pub last_seen_millis: u64,
}

#[derive(Debug, Clone, Copy, PartialEq, Eq, Structural)]
pub enum LimiterError {
    /// Verification took longer than it may.
    BudgetExceeded,
    /// As many sources are known as may be.
    SourceCapacity,
    /// The source has as many in flight as it may.
    SourceInFlight,
    /// As many are in flight as may be.
    GlobalInFlight,
}

#[derive(Debug, Clone, Copy, PartialEq, Eq, Structural)]
pub struct HandshakeAdmissionLimiterSnapshot {
    pub source_entries: usize,
    pub source_capacity: usize,
    pub global_in_flight: usize,
    pub global_in_flight_capacity: usize,
    pub source_capacity_rejected: u64,
    pub source_in_flight_rejected: u64,
    pub global_in_flight_rejected: u64,
    pub deadline_rejected: u64,
    pub expired: u64,
}

/// How often what was refused, and how many sources were forgotten.
#[derive(Debug, Clone, Copy, PartialEq, Eq, Structural)]
pub struct LimiterCounts {
    pub source_capacity_rejected: u64,
    pub source_in_flight_rejected: u64,
    pub global_in_flight_rejected: u64,
    pub deadline_rejected: u64,
    pub expired: u64,
}

impl LimiterCounts {
    pub open spec fn zero() -> Self {
        LimiterCounts {
            source_capacity_rejected: 0,
            source_in_flight_rejected: 0,
            global_in_flight_rejected: 0,
            deadline_rejected: 0,
            expired: 0,
        }
    }
}

/// Time that passed between two readings; none where the clock went back.
pub open spec fn elapsed(since: u64, now: u64) -> int {
    if now >= since {
        now - since
    } else {
        0
    }
}

/// A source is remembered while it has anything in flight, and for a while
/// after it was last seen.
pub open spec fn remembered(source: SourceState, ttl: u64, now: u64) -> bool {
    source.in_flight != 0 || elapsed(source.last_seen_millis, now) < ttl
}

/// The sources that are still remembered.
pub open spec fn fresh(sources: Map<u128, SourceState>, ttl: u64, now: u64) -> Map<
    u128,
    SourceState,
> {
    Map::new(
        |k: u128| sources.contains_key(k) && remembered(sources[k], ttl, now),
        |k: u128| sources[k],
    )
}

/// The state of a limiter.
pub struct LimiterModel {
    pub v4: Map<u128, SourceState>,
    pub v6: Map<u128, SourceState>,
    pub global_in_flight: usize,
    pub counts: LimiterCounts,
}

impl LimiterModel {
    pub open spec fn source(self, address: SourceAddress) -> Option<SourceState> {
        match address {
            SourceAddress::V4(number) => if self.v4.contains_key(number as u128) {
                Some(self.v4[number as u128])
            } else {
                None
            },
            SourceAddress::V6(number) => if self.v6.contains_key(number) {
                Some(self.v6[number])
            } else {
                None
            },
        }
    }

    pub open spec fn put(self, address: SourceAddress, source: SourceState) -> Self {
        match address {
            SourceAddress::V4(number) => LimiterModel {
                v4: self.v4.insert(number as u128, source),
                ..self
            },
            SourceAddress::V6(number) => LimiterModel { v6: self.v6.insert(number, source), ..self },
        }
    }

    /// How many sources are known.
    pub open spec fn known(self) -> nat {
        self.v4.len() + self.v6.len()
    }

    /// The bounds hold.
    pub open spec fn wf(self, config: HandshakeAdmissionLimiterConfig) -> bool {
        &&& self.v4.dom().finite()
        &&& self.v6.dom().finite()
        &&& self.known() <= config.source_capacity
        &&& self.global_in_flight <= config.maximum_global_in_flight
        &&& forall|a: SourceAddress| #[trigger]
            self.source(a) matches Some(s) ==> s.in_flight <= config.maximum_per_source_in_flight
    }

    /// Without the sources that are no longer remembered.
    pub open spec fn pruned(self, ttl: u64, now: u64) -> Self {
        let v4 = fresh(self.v4, ttl, now);
        let v6 = fresh(self.v6, ttl, now);
        LimiterModel {
            v4,
            v6,
            counts: LimiterCounts {
                expired: arith::counted(self.counts.expired, self.known() - v4.len() - v6.len()),
                ..self.counts
            },
            ..self
        }
    }

    /// Whether a permit is granted.
    pub open spec fn verdict(
        self,
        config: HandshakeAdmissionLimiterConfig,
        address: SourceAddress,
        started: u64,
        now: u64,
    ) -> Result<(), LimiterError> {
        let left = self.pruned(config.source_ttl_millis, now);
        if elapsed(started, now) > config.maximum_verification_budget_millis {
            Err(LimiterError::BudgetExceeded)
        } else if self.global_in_flight >= config.maximum_global_in_flight {
            Err(LimiterError::GlobalInFlight)
        } else if left.source(address) is None && left.known() >= config.source_capacity {
            Err(LimiterError::SourceCapacity)
        } else if left.source(address) matches Some(s) && s.in_flight
            >= config.maximum_per_source_in_flight {
            Err(LimiterError::SourceInFlight)
        } else {
            Ok(())
        }
    }

    /// After a permit was asked for.
    pub open spec fn asked(
        self,
        config: HandshakeAdmissionLimiterConfig,
        address: SourceAddress,
        started: u64,
        now: u64,
    ) -> Self {
        let left = self.pruned(config.source_ttl_millis, now);
        match self.verdict(config, address, started, now) {
            Ok(_) => {
                let in_flight = match left.source(address) {
                    Some(s) => s.in_flight,
                    None => 0,
                };
                LimiterModel {
                    global_in_flight: (left.global_in_flight + 1) as usize,
                    ..left.put(
                        address,
                        SourceState {
                            in_flight: (in_flight + 1) as usize,
                            last_seen_millis: now,
                        },
                    )
                }
            },
            Err(LimiterError::BudgetExceeded) => LimiterModel {
                counts: LimiterCounts {
                    deadline_rejected: arith::counted(self.counts.deadline_rejected, 1),
                    ..self.counts
                },
                ..self
            },
            Err(LimiterError::GlobalInFlight) => LimiterModel {
                counts: LimiterCounts {
                    global_in_flight_rejected: arith::counted(
                        left.counts.global_in_flight_rejected,
                        1,
                    ),
                    ..left.counts
                },
                ..left
            },
            Err(LimiterError::SourceCapacity) => LimiterModel {
                counts: LimiterCounts {
                    source_capacity_rejected: arith::counted(
                        left.counts.source_capacity_rejected,
                        1,
                    ),
                    ..left.counts
                },
                ..left
            },
            Err(LimiterError::SourceInFlight) => LimiterModel {
                counts: LimiterCounts {
                    source_in_flight_rejected: arith::counted(
                        left.counts.source_in_flight_rejected,
                        1,
                    ),
                    ..left.counts
                },
                ..left
            },
        }
    }

    /// After a permit of a source was given back.
    pub open spec fn returned(self, address: SourceAddress) -> Self {
        let global_in_flight = if self.global_in_flight == 0 {
            0
        } else {
            (self.global_in_flight - 1) as usize
        };
        let next = match self.source(address) {
            Some(s) => self.put(
                address,
                SourceState {
                    in_flight: if s.in_flight == 0 {
                        0
                    } else {
                        (s.in_flight - 1) as usize
                    },
                    ..s
                },
            ),
            None => self,
        };
        LimiterModel { global_in_flight, ..next }
    }
}

/// Leave to go on. It is given back to the limiter that granted it.
pub struct AdmissionPermit {
    source: SourceAddress,
}

impl AdmissionPermit {
    /// Whose it is.
    pub closed spec fn holder(&self) -> SourceAddress {
        self.source
    }
}

/// Limits handshakes and ticket verifications in flight, by source and in
/// all.
pub struct HandshakeAdmissionLimiter {
    config: HandshakeAdmissionLimiterConfig,
    v4: IdMap<SourceState>,
    v6: IdMap<SourceState>,
    global_in_flight: usize,
    counts: LimiterCounts,
}

impl View for HandshakeAdmissionLimiter {
    type V = LimiterModel;

    closed spec fn view(&self) -> LimiterModel {
        LimiterModel {
            v4: self.v4@,
            v6: self.v6@,
            global_in_flight: self.global_in_flight,
            counts: self.counts,
        }
    }
}

/// Leaves out the sources that are no longer remembered.
fn prune(sources: &IdMap<SourceState>, ttl: u64, now: u64) -> (kept: IdMap<SourceState>)
    requires
        sources.wf(),
    ensures
        kept.wf(),
        kept@ == fresh(sources@, ttl, now),
        kept@.len() <= sources@.len(),
{
    let list = sources.entries();
    let total: usize = list.len();
    let mut keep: Vec<bool> = Vec::new();
    let mut i: usize = 0;
    while i < total
        invariant
            sources.wf(),
            list@ == sources.listed(),
            i <= total == sources.listed().len(),
            keep@.len() == i,
            forall|j: int|
                0 <= j < i ==> #[trigger] keep@[j] == remembered(sources.listed()[j].1, ttl, now),
        decreases total - i,
    {
        let source = list[i].1;
        keep.push(source.in_flight != 0 || now.saturating_sub(source.last_seen_millis) < ttl);
        i = i + 1;
    }
    let kept = sources.select(&keep);
    assert(kept@ =~= fresh(sources@, ttl, now));
    kept
}

impl HandshakeAdmissionLimiter {
    pub closed spec fn settings(&self) -> HandshakeAdmissionLimiterConfig {
        self.config
    }

    pub closed spec fn wf(&self) -> bool {
        &&& self.v4.wf()
        &&& self.v6.wf()
        &&& self.config.valid()
        &&& self@.wf(self.config)
    }

    /// What is kept of a limiter.
    pub proof fn lemma_wf(&self)
        requires
            self.wf(),
        ensures
            self.settings().valid(),
            self@.wf(self.settings()),
    {
    }

    pub fn new(config: HandshakeAdmissionLimiterConfig) -> (result: Result<Self, AdmissionError>)
        ensures
            match result {
                Ok(limiter) => {
                    &&& config.valid()
                    &&& limiter.wf()
                    &&& limiter.settings() == config
                    &&& limiter@ == (LimiterModel {
                        v4: Map::empty(),
                        v6: Map::empty(),
                        global_in_flight: 0,
                        counts: LimiterCounts::zero(),
                    })
                },
                Err(e) => e == AdmissionError::InvalidConfiguration && !config.valid(),
            },
    {
        if config.source_capacity == 0 || config.source_ttl_millis == 0
            || config.maximum_per_source_in_flight == 0 || config.maximum_global_in_flight == 0
            || config.maximum_verification_budget_millis == 0 {
            return Err(AdmissionError::InvalidConfiguration);
        }
        let counts = LimiterCounts {
            source_capacity_rejected: 0,
            source_in_flight_rejected: 0,
            global_in_flight_rejected: 0,
            deadline_rejected: 0,
            expired: 0,
        };
        Ok(
            HandshakeAdmissionLimiter {
                config,
                v4: IdMap::new(),
                v6: IdMap::new(),
                global_in_flight: 0,
                counts,
            },
        )
    }

    fn find(&self, address: SourceAddress) -> (source: Option<SourceState>)
        requires
            self.v4.wf(),
            self.v6.wf(),
        ensures
            source == self@.source(address),
    {
        let found = match address {
            SourceAddress::V4(number) => self.v4.get(number as u128),
            SourceAddress::V6(number) => self.v6.get(number),
        };
        match found {
            Some(source) => Some(*source),
            None => None,
        }
    }

    fn store(&mut self, address: SourceAddress, source: SourceState)
        requires
            old(self).v4.wf(),
            old(self).v6.wf(),
        ensures
            final(self).v4.wf(),
            final(self).v6.wf(),
            final(self)@ == old(self)@.put(address, source),
            final(self).config == old(self).config,
    {
        match address {
            SourceAddress::V4(number) => self.v4.insert(number as u128, source),
            SourceAddress::V6(number) => self.v6.insert(number, source),
        }
    }

    /// Grants or refuses a permit for work that started at
    /// `started_at_millis`.
    pub fn acquire(
        &mut self,
        source: SourceAddress,
        started_at_millis: u64,
        now_millis: u64,
    ) -> (result: Result<AdmissionPermit, LimiterError>)
        requires
            old(self).wf(),
        ensures
            final(self).wf(),
            final(self).settings() == old(self).settings(),
            final(self)@ == old(self)@.asked(
                old(self).settings(),
                source,
                started_at_millis,
                now_millis,
            ),
            match old(self)@.verdict(
                old(self).settings(),
                source,
                started_at_millis,
                now_millis,
            ) {
                Ok(_) => result matches Ok(permit) && permit.holder() == source,
                Err(e) => result == Err::<AdmissionPermit, LimiterError>(e),
            },
    {
        proof {
            law_limits_hold(self@, self.config, source, started_at_millis, now_millis);
        }
        if now_millis.saturating_sub(started_at_millis)
            > self.config.maximum_verification_budget_millis {
            self.counts.deadline_rejected = count(self.counts.deadline_rejected, 1);
            return Err(LimiterError::BudgetExceeded);
        }
        let ghost before = self@;
        let ttl: u64 = self.config.source_ttl_millis;
        let before_known: usize = self.v4.len() + self.v6.len();
        let v4 = prune(&self.v4, ttl, now_millis);
        let v6 = prune(&self.v6, ttl, now_millis);
        let known: usize = v4.len() + v6.len();
        self.v4 = v4;
        self.v6 = v6;
        self.counts.expired = count(self.counts.expired, (before_known - known) as u64);
        assert(self@ == before.pruned(ttl, now_millis));
        if self.global_in_flight >= self.config.maximum_global_in_flight {
            self.counts.global_in_flight_rejected = count(self.counts.global_in_flight_rejected, 1);
            return Err(LimiterError::GlobalInFlight);
        }
        let in_flight: usize = match self.find(source) {
            Some(state) => state.in_flight,
            None => {
                if known >= self.config.source_capacity {
                    self.counts.source_capacity_rejected = count(
                        self.counts.source_capacity_rejected,
                        1,
                    );
                    return Err(LimiterError::SourceCapacity);
                }
                0
            },
        };
        if in_flight >= self.config.maximum_per_source_in_flight {
            self.counts.source_in_flight_rejected = count(self.counts.source_in_flight_rejected, 1);
            return Err(LimiterError::SourceInFlight);
        }
        self.store(source, SourceState { in_flight: in_flight + 1, last_seen_millis: now_millis });
        self.global_in_flight = self.global_in_flight + 1;
        Ok(AdmissionPermit { source })
    }

    /// Takes a permit back.
    pub fn release(&mut self, permit: AdmissionPermit)
        requires
            old(self).wf(),
        ensures
            final(self).wf(),
            final(self).settings() == old(self).settings(),
            final(self)@ == old(self)@.returned(permit.holder()),
    {
        proof {
            law_limits_survive_release(self@, self.config, permit.source);
        }
        let found = self.find(permit.source);
        match found {
            Some(state) => {
                let in_flight: usize = if state.in_flight == 0 {
                    0
                } else {
                    state.in_flight - 1
                };
                self.store(
                    permit.source,
                    SourceState { in_flight, last_seen_millis: state.last_seen_millis },
                );
            },
            None => {},
        }
        if self.global_in_flight > 0 {
            self.global_in_flight = self.global_in_flight - 1;
        }
    }

    pub fn snapshot(&self) -> (snapshot: HandshakeAdmissionLimiterSnapshot)
        requires
            self.wf(),
        ensures
            snapshot == (HandshakeAdmissionLimiterSnapshot {
                source_entries: self@.known() as usize,
                source_capacity: self.settings().source_capacity,
                global_in_flight: self@.global_in_flight,
                global_in_flight_capacity: self.settings().maximum_global_in_flight,
                source_capacity_rejected: self@.counts.source_capacity_rejected,
                source_in_flight_rejected: self@.counts.source_in_flight_rejected,
                global_in_flight_rejected: self@.counts.global_in_flight_rejected,
                deadline_rejected: self@.counts.deadline_rejected,
                expired: self@.counts.expired,
            }),
    {
        HandshakeAdmissionLimiterSnapshot {
            source_entries: self.v4.len() + self.v6.len(),
            source_capacity: self.config.source_capacity,
            global_in_flight: self.global_in_flight,
            global_in_flight_capacity: self.config.maximum_global_in_flight,
            source_capacity_rejected: self.counts.source_capacity_rejected,
            source_in_flight_rejected: self.counts.source_in_flight_rejected,
            global_in_flight_rejected: self.counts.global_in_flight_rejected,
            deadline_rejected: self.counts.deadline_rejected,
            expired: self.counts.expired,
        }
    }
}

/// No request, granted or refused, breaks a bound: sources known, in flight in
/// all, and in flight per source.
pub proof fn law_limits_hold(
    limiter: LimiterModel,
    config: HandshakeAdmissionLimiterConfig,
    address: SourceAddress,
    started: u64,
    now: u64,
)
    requires
        config.valid(),
        limiter.wf(config),
    ensures
        limiter.asked(config, address, started, now).wf(config),
        limiter.pruned(config.source_ttl_millis, now).wf(config),
{
    let ttl = config.source_ttl_millis;
    let left = limiter.pruned(ttl, now);
    vstd::set_lib::lemma_len_subset(left.v4.dom(), limiter.v4.dom());
    vstd::set_lib::lemma_len_subset(left.v6.dom(), limiter.v6.dom());
    assert forall|a: SourceAddress| #[trigger] left.source(a) is Some implies left.source(a)->0.in_flight
        <= config.maximum_per_source_in_flight by {
        assert(limiter.source(a) == left.source(a));
    }
    let after = limiter.asked(config, address, started, now);
    assert forall|a: SourceAddress| #[trigger] after.source(a) is Some implies after.source(a)->0.in_flight
        <= config.maximum_per_source_in_flight by {
        assert(limiter.source(a) is Some || a == address);
        assert(left.source(a) is Some ==> left.source(a)->0.in_flight
            <= config.maximum_per_source_in_flight);
    }
}

/// Giving a permit back breaks no bound.
pub proof fn law_limits_survive_release(
    limiter: LimiterModel,
    config: HandshakeAdmissionLimiterConfig,
    address: SourceAddress,
)
    requires
        limiter.wf(config),
    ensures
        limiter.returned(address).wf(config),
{
    let after = limiter.returned(address);
    assert forall|a: SourceAddress| #[trigger] after.source(a) is Some implies after.source(a)->0.in_flight
        <= config.maximum_per_source_in_flight by {
        assert(limiter.source(a) is Some);
    }
}

/// A permit given back frees what it took: the source and the whole have as
/// many in flight as before it was granted, and no other source is touched.
pub proof fn law_release_frees_what_was_taken(
    limiter: LimiterModel,
    config: HandshakeAdmissionLimiterConfig,
    address: SourceAddress,
    started: u64,
    now: u64,
    other: SourceAddress,
)
    requires
        config.valid(),
        limiter.wf(config),
        limiter.verdict(config, address, started, now) is Ok,
        other != address,
    ensures
        ({
            let left = limiter.pruned(config.source_ttl_millis, now);
            let after = limiter.asked(config, address, started, now).returned(address);
            &&& after.global_in_flight == limiter.global_in_flight
            &&& after.source(address) == Some(
                SourceState {
                    in_flight: match left.source(address) {
                        Some(s) => s.in_flight,
                        None => 0,
                    },
                    last_seen_millis: now,
                },
            )
            &&& after.source(other) == left.source(other)
        }),
{
}

/// A source with anything in flight is never forgotten, so that its permits
/// find it when they are given back.
pub proof fn law_busy_sources_are_remembered(
    limiter: LimiterModel,
    config: HandshakeAdmissionLimiterConfig,
    address: SourceAddress,
    busy: SourceAddress,
    started: u64,
    now: u64,
)
    requires
        config.valid(),
        limiter.wf(config),
        limiter.source(busy) matches Some(s) && s.in_flight > 0,
    ensures
        limiter.asked(config, address, started, now).source(busy) matches Some(s) && s.in_flight
            >= limiter.source(busy)->0.in_flight,
{
    let left = limiter.pruned(config.source_ttl_millis, now);
    assert(left.source(busy) == limiter.source(busy));
    assert(limiter.source(busy)->0.in_flight <= config.maximum_per_source_in_flight);
}

/// A source that was seen, and is not forgotten yet: it has something in flight,
/// or was last seen less than the TTL ago.
pub open spec fn still_known(source: SourceState, ttl: u64, now: u64) -> bool {
    ||| source.in_flight > 0
    ||| now < source.last_seen_millis
    ||| now - source.last_seen_millis < ttl
}

/// How many of some sources are not forgotten yet.
pub open spec fn still_known_of(sources: Map<u128, SourceState>, ttl: u64, now: u64) -> nat {
    sources.dom().filter(|k: u128| still_known(sources[k], ttl, now)).len()
}

/// When a permit is granted and when not. Work that took longer than its budget is
/// refused whatever else holds; then the limit on all work in flight counts; then,
/// for a source that is known, the limit on its own work, and for another the
/// limit on sources. What none of them refuses is granted.
pub proof fn law_permits_are_granted_within_the_limits(
    limiter: LimiterModel,
    config: HandshakeAdmissionLimiterConfig,
    address: SourceAddress,
    started: u64,
    now: u64,
)
    requires
        config.valid(),
    ensures
        ({
            let ttl = config.source_ttl_millis;
            let late = now > started && now - started > config.maximum_verification_budget_millis;
            let known = limiter.source(address) matches Some(s) && still_known(s, ttl, now);
            let sources = still_known_of(limiter.v4, ttl, now) + still_known_of(
                limiter.v6,
                ttl,
                now,
            );
            limiter.verdict(config, address, started, now) == if late {
                Err::<(), LimiterError>(LimiterError::BudgetExceeded)
            } else if limiter.global_in_flight >= config.maximum_global_in_flight {
                Err(LimiterError::GlobalInFlight)
            } else if known && limiter.source(address)->0.in_flight
                >= config.maximum_per_source_in_flight {
                Err(LimiterError::SourceInFlight)
            } else if !known && sources >= config.source_capacity {
                Err(LimiterError::SourceCapacity)
            } else {
                Ok(())
            }
        }),
{
    let ttl = config.source_ttl_millis;
    let left = limiter.pruned(ttl, now);
    assert(left.v4.dom() =~= limiter.v4.dom().filter(
        |k: u128| still_known(limiter.v4[k], ttl, now),
    ));
    assert(left.v6.dom() =~= limiter.v6.dom().filter(
        |k: u128| still_known(limiter.v6[k], ttl, now),
    ));
}

/// A granted permit puts one more in flight, for its source, which is seen now,
/// and in all. Nothing is put in flight by a refusal. Sources that are not
/// forgotten are left as they are, but for the one that is granted a permit, and
/// forgotten ones are gone, unless the work was over its budget: then nothing is
/// looked at.
pub proof fn law_permits_put_one_in_flight(
    limiter: LimiterModel,
    config: HandshakeAdmissionLimiterConfig,
    address: SourceAddress,
    started: u64,
    now: u64,
    other: SourceAddress,
)
    requires
        config.valid(),
        limiter.wf(config),
        config.maximum_global_in_flight < usize::MAX,
        config.maximum_per_source_in_flight < usize::MAX,
    ensures
        ({
            let ttl = config.source_ttl_millis;
            let after = limiter.asked(config, address, started, now);
            let kept = |a: SourceAddress|
                match limiter.source(a) {
                    Some(s) if still_known(s, ttl, now) => Some(s),
                    _ => None::<SourceState>,
                };
            match limiter.verdict(config, address, started, now) {
                Ok(_) => {
                    &&& after.global_in_flight == limiter.global_in_flight + 1
                    &&& after.source(address) matches Some(s) && s.last_seen_millis == now
                        && s.in_flight == match kept(address) {
                        Some(s) => s.in_flight + 1,
                        None => 1,
                    }
                    &&& other != address ==> after.source(other) == kept(other)
                },
                Err(LimiterError::BudgetExceeded) => {
                    &&& after.global_in_flight == limiter.global_in_flight
                    &&& after.v4 == limiter.v4
                    &&& after.v6 == limiter.v6
                },
                Err(_) => {
                    &&& after.global_in_flight == limiter.global_in_flight
                    &&& after.source(other) == kept(other)
                },
            }
        }),
{
    let ttl = config.source_ttl_millis;
    let left = limiter.pruned(ttl, now);
    assert(left.source(other) is Some ==> limiter.source(other) is Some);
    assert(limiter.source(address) is Some ==> limiter.source(address)->0.in_flight
        <= config.maximum_per_source_in_flight);
}

/// Each refusal is counted under its own reason, and as many sources as were
/// forgotten are counted as expired.
pub proof fn law_refusals_are_counted(
    limiter: LimiterModel,
    config: HandshakeAdmissionLimiterConfig,
    address: SourceAddress,
    started: u64,
    now: u64,
)
    requires
        config.valid(),
        limiter.v4.dom().finite(),
        limiter.v6.dom().finite(),
    ensures
        ({
            let ttl = config.source_ttl_millis;
            let after = limiter.asked(config, address, started, now).counts;
            let before = limiter.counts;
            let verdict = limiter.verdict(config, address, started, now);
            let step = |counter: u64, error: LimiterError|
                if verdict == Err::<(), LimiterError>(error) {
                    arith::counted(counter, 1)
                } else {
                    counter
                };
            &&& after.deadline_rejected == step(
                before.deadline_rejected,
                LimiterError::BudgetExceeded,
            )
            &&& after.global_in_flight_rejected == step(
                before.global_in_flight_rejected,
                LimiterError::GlobalInFlight,
            )
            &&& after.source_capacity_rejected == step(
                before.source_capacity_rejected,
                LimiterError::SourceCapacity,
            )
            &&& after.source_in_flight_rejected == step(
                before.source_in_flight_rejected,
                LimiterError::SourceInFlight,
            )
            &&& after.expired == if verdict == Err::<(), LimiterError>(
                LimiterError::BudgetExceeded,
            ) {
                before.expired
            } else {
                arith::counted(
                    before.expired,
                    limiter.v4.len() + limiter.v6.len() - still_known_of(limiter.v4, ttl, now)
                        - still_known_of(limiter.v6, ttl, now),
                )
            }
        }),
{
    let ttl = config.source_ttl_millis;
    let left = limiter.pruned(ttl, now);
    assert(left.v4.dom() =~= limiter.v4.dom().filter(
        |k: u128| still_known(limiter.v4[k], ttl, now),
    ));
    assert(left.v6.dom() =~= limiter.v6.dom().filter(
        |k: u128| still_known(limiter.v6[k], ttl, now),
    ));
}

/// A permit that is given back takes one out of flight, for its source and in
/// all. When the source was last seen, every other source and all counts stay.
pub proof fn law_returned_permits_leave_flight(
    limiter: LimiterModel,
    address: SourceAddress,
    other: SourceAddress,
)
    ensures
        ({
            let after = limiter.returned(address);
            &&& limiter.global_in_flight > 0 ==> after.global_in_flight
                == limiter.global_in_flight - 1
            &&& limiter.global_in_flight == 0 ==> after.global_in_flight == 0
            &&& limiter.source(address) is None ==> after.source(address) is None
            &&& limiter.source(address) matches Some(s) ==> after.source(address) == Some(
                SourceState {
                    in_flight: if s.in_flight > 0 {
                        (s.in_flight - 1) as usize
                    } else {
                        0
                    },
                    last_seen_millis: s.last_seen_millis,
                },
            )
            &&& other != address ==> after.source(other) == limiter.source(other)
            &&& after.counts == limiter.counts
        }),
{
}

/// Before its first handshake a limiter has counted nothing.
pub proof fn law_limiters_begin_with_nothing_counted()
    ensures
        ({
            let z = LimiterCounts::zero();
            &&& z.source_capacity_rejected == 0
            &&& z.source_in_flight_rejected == 0
            &&& z.global_in_flight_rejected == 0
            &&& z.deadline_rejected == 0
            &&& z.expired == 0
        }),
{
}

} // verus!
