//! The gateway engine: the state it mirrors from its tunnel driver, and the
//! sole uplink ingress.
use super::address_pool::{AddressPool, AddressPoolError, LeaseStore};
use super::forwarding;
use super::forwarding::{
    ForwardError, ForwardedUplink, ForwarderSnapshot, SinkSnapshot, UplinkForwarder,
    V2ForwardingSink, V2TunNatEgress,
};
use super::packet;
use super::packet::clone_packet;
use super::persistence::PoolTime;
use crate::arith;
use crate::ids::SessionId;
use bytes::Bytes;
use vstd::prelude::*;

verus! {

/// What a tunnel driver failed at.
#[derive(Debug, Clone, Copy, PartialEq, Eq, Structural)]
pub enum FailureKind {
    Read,
    Write,
    /// It was dropped without being joined.
    JoinRequired,
}

/// A durable driver failure.
#[derive(Debug, Clone, Copy, PartialEq, Eq, Structural)]
pub struct DriverFailure {
    pub kind: FailureKind,
}

/// The driver's worker could not be joined.
#[derive(Debug, Clone, Copy, PartialEq, Eq, Structural)]
pub enum DriverError {
    JoinFailed,
}

/// The state of the engine.
#[derive(Debug, Clone, Copy, PartialEq, Eq, Structural)]
pub enum V2GatewayEngineState {
    /// The driver is owned and has not failed.
    Running,
    /// The driver failed. The first failure stays.
    Terminal(DriverFailure),
    /// The engine was shut down without a failure.
    Closed,
}

impl V2GatewayEngineState {
    /// After the driver's failure was looked at.
    pub open spec fn synced(self, failure: Option<DriverFailure>) -> Self {
        match (self, failure) {
            (V2GatewayEngineState::Running, Some(failure)) => V2GatewayEngineState::Terminal(
                failure,
            ),
            _ => self,
        }
    }

    /// After the driver was joined.
    pub open spec fn joined(self, failure: Option<DriverFailure>) -> Self {
        match (self, failure) {
            (V2GatewayEngineState::Running, Some(failure)) => V2GatewayEngineState::Terminal(
                failure,
            ),
            (V2GatewayEngineState::Running, None) => V2GatewayEngineState::Closed,
            _ => self,
        }
    }
}

/// Why the session map refused to bind a datagram to its connection.
#[derive(Debug, Clone, Copy, PartialEq, Eq, Structural)]
pub enum V2SessionManagerError {
    UnknownConnection,
    BindingMismatch,
    StaleKeyEpoch,
    InvalidDirection,
    /// Expired, idle, or unavailable.
    Refused,
}

/// Why an uplink was not forwarded. The connection is checked before the
/// source, and the lease is renewed only after both.
#[derive(Debug, Clone, Copy, PartialEq, Eq, Structural)]
pub enum UplinkIngestError {
    /// The address pool or the session map is not attached.
    NotAttached,
    BindingRejected(V2SessionManagerError),
    Rejected(ForwardError),
    LeaseRejected(AddressPoolError),
}

/// What an engine holds.
pub struct EngineModel {
    pub state: V2GatewayEngineState,
    pub forwarder: Option<ForwarderSnapshot>,
    pub sessions: bool,
    pub sink: SinkSnapshot,
}

/// The engine.
pub struct V2GatewayEngine {
    state: V2GatewayEngineState,
    forwarder: Option<UplinkForwarder>,
    sessions: bool,
    sink: V2ForwardingSink,
}

impl View for V2GatewayEngine {
    type V = EngineModel;

    closed spec fn view(&self) -> EngineModel {
        EngineModel {
            state: self.state,
            forwarder: match self.forwarder {
                Some(forwarder) => Some(forwarder@),
                None => None,
            },
            sessions: self.sessions,
            sink: self.sink.counts(),
        }
    }
}

/// How the ingress of one datagram ends, given what the session map said of
/// its connection.
pub open spec fn ingest_ends<S: LeaseStore>(
    before: EngineModel,
    pool_before: AddressPool<S>,
    bound: Result<SessionId, V2SessionManagerError>,
    payload: Seq<u8>,
    now: PoolTime,
    result: Result<ForwardedUplink, UplinkIngestError>,
    after: EngineModel,
    pool_after: AddressPool<S>,
) -> bool {
    match (before.forwarder, before.sessions, bound) {
        (Some(forwarder), true, Ok(session)) => {
            let parsed = forwarding::source_of(payload, forwarder.maximum_packet_bytes);
            let validation = forwarding::validation(
                pool_before.model(),
                pool_before.shape(),
                forwarder.maximum_packet_bytes,
                session.key,
                payload,
            );
            let counted = EngineModel {
                forwarder: Some(forwarder.after(parsed, validation)),
                ..before
            };
            match validation {
                Err(e) => {
                    &&& result == Err::<ForwardedUplink, UplinkIngestError>(
                        UplinkIngestError::Rejected(e),
                    )
                    &&& after == counted
                    &&& pool_after == pool_before
                },
                Ok(source) => match result {
                    Ok(forwarded) => {
                        &&& AddressPool::<S>::renew_ends(
                            pool_before,
                            session.key,
                            now,
                            Ok(()),
                            pool_after,
                        )
                        &&& forwarded.parts() == (session, source, payload)
                        &&& after == EngineModel {
                            sink: SinkSnapshot {
                                forwarded: arith::counted(before.sink.forwarded, 1),
                                bytes_forwarded: arith::counted(
                                    before.sink.bytes_forwarded,
                                    payload.len() as int,
                                ),
                            },
                            ..counted
                        }
                    },
                    Err(e) => {
                        &&& e matches UplinkIngestError::LeaseRejected(refusal)
                            && AddressPool::<S>::renew_ends(
                            pool_before,
                            session.key,
                            now,
                            Err(refusal),
                            pool_after,
                        )
                        &&& after == counted
                    },
                },
            }
        },
        (Some(_), true, Err(e)) => {
            &&& result == Err::<ForwardedUplink, UplinkIngestError>(
                UplinkIngestError::BindingRejected(e),
            )
            &&& after == before
            &&& pool_after == pool_before
        },
        _ => {
            &&& result == Err::<ForwardedUplink, UplinkIngestError>(UplinkIngestError::NotAttached)
            &&& after == before
            &&& pool_after == pool_before
        },
    }
}

impl V2GatewayEngine {
    /// Takes over a driver, which may have failed already.
    pub fn new(failure: Option<DriverFailure>) -> (engine: Self)
        ensures
            engine@ == (EngineModel {
                state: V2GatewayEngineState::Running.synced(failure),
                forwarder: None,
                sessions: false,
                sink: SinkSnapshot { forwarded: 0, bytes_forwarded: 0 },
            }),
    {
        let state = match failure {
            Some(failure) => V2GatewayEngineState::Terminal(failure),
            None => V2GatewayEngineState::Running,
        };
        V2GatewayEngine { state, forwarder: None, sessions: false, sink: V2ForwardingSink::new() }
    }

    /// Attaches the lease check. Attaching again replaces it; the egress counts
    /// go on.
    pub fn attach_uplink(&mut self, maximum_packet_bytes: usize) -> (result: Result<
        (),
        ForwardError,
    >)
        ensures
            ({
                let fits = forwarding::MIN_MAXIMUM_PACKET_BYTES <= maximum_packet_bytes
                    <= forwarding::MAX_PACKET_BYTES_HARD_CAP;
                &&& result == if fits {
                    Ok::<(), ForwardError>(())
                } else {
                    Err(ForwardError::InvalidLength)
                }
                &&& final(self)@ == if fits {
                    EngineModel {
                        forwarder: Some(
                            ForwarderSnapshot {
                                validated: 0,
                                parse_dropped: 0,
                                spoof_dropped: 0,
                                maximum_packet_bytes,
                            },
                        ),
                        ..old(self)@
                    }
                } else {
                    old(self)@
                }
            }),
    {
        match UplinkForwarder::new(maximum_packet_bytes) {
            Ok(forwarder) => {
                self.forwarder = Some(forwarder);
                Ok(())
            },
            Err(e) => Err(e),
        }
    }

    /// Attaches the session map.
    pub fn attach_session_manager(&mut self)
        ensures
            final(self)@ == (EngineModel { sessions: true, ..old(self)@ }),
    {
        self.sessions = true;
    }

    /// The sole uplink ingress; both clock domains read the same.
    pub fn ingest_uplink<S: LeaseStore>(
        &mut self,
        pool: &mut AddressPool<S>,
        bound: Result<SessionId, V2SessionManagerError>,
        payload: &Bytes,
        now_ms: u64,
    ) -> (result: Result<ForwardedUplink, UplinkIngestError>)
        requires
            old(pool).wf(),
        ensures
            final(pool).wf(),
            final(pool).shape() == old(pool).shape(),
            ingest_ends(
                old(self)@,
                *old(pool),
                bound,
                packet::contents(*payload),
                PoolTime { monotonic_ms: now_ms, wall_ms: now_ms },
                result,
                final(self)@,
                *final(pool),
            ),
    {
        self.ingest_uplink_at_time(pool, bound, payload, PoolTime::from_monotonic(now_ms))
    }

    /// The sole uplink ingress. `bound` is what the session map says of the
    /// datagram's connection: the session it belongs to, or why it belongs to
    /// none.
    pub fn ingest_uplink_at_time<S: LeaseStore>(
        &mut self,
        pool: &mut AddressPool<S>,
        bound: Result<SessionId, V2SessionManagerError>,
        payload: &Bytes,
        now: PoolTime,
    ) -> (result: Result<ForwardedUplink, UplinkIngestError>)
        requires
            old(pool).wf(),
        ensures
            final(pool).wf(),
            final(pool).shape() == old(pool).shape(),
            ingest_ends(
                old(self)@,
                *old(pool),
                bound,
                packet::contents(*payload),
                now,
                result,
                final(self)@,
                *final(pool),
            ),
    {
        if !self.sessions {
            return Err(UplinkIngestError::NotAttached);
        }
        let forwarder = match &mut self.forwarder {
            Some(forwarder) => forwarder,
            None => {
                return Err(UplinkIngestError::NotAttached);
            },
        };
        let session_id = match bound {
            Ok(session_id) => session_id,
            Err(e) => {
                return Err(UplinkIngestError::BindingRejected(e));
            },
        };
        let validated = match forwarder.validate(pool, session_id, clone_packet(payload)) {
            Ok(validated) => validated,
            Err(e) => {
                return Err(UplinkIngestError::Rejected(e));
            },
        };
        match pool.renew_at_time(session_id, now) {
            Ok(_) => {},
            Err(e) => {
                return Err(UplinkIngestError::LeaseRejected(e));
            },
        }
        Ok(self.sink.emit_validated(validated))
    }

    pub fn uplink_attached(&self) -> (attached: bool)
        ensures
            attached == (self@.forwarder is Some),
    {
        self.forwarder.is_some()
    }

    pub fn sessions_attached(&self) -> (attached: bool)
        ensures
            attached == self@.sessions,
    {
        self.sessions
    }

    /// Whether datagrams can be taken in at all.
    pub fn ingress_ready(&self) -> (ready: bool)
        ensures
            ready == (self@.forwarder is Some && self@.sessions),
    {
        self.forwarder.is_some() && self.sessions
    }

    pub fn uplink_forwarder_snapshot(&self) -> (snapshot: Option<ForwarderSnapshot>)
        ensures
            snapshot == self@.forwarder,
    {
        match &self.forwarder {
            Some(forwarder) => Some(forwarder.snapshot()),
            None => None,
        }
    }

    pub fn uplink_sink_snapshot(&self) -> (snapshot: SinkSnapshot)
        ensures
            snapshot == self@.sink,
    {
        self.sink.snapshot()
    }

    /// The same counts through the egress.
    pub fn uplink_egress_snapshot(&self) -> (snapshot: SinkSnapshot)
        ensures
            snapshot == self@.sink,
    {
        self.sink.egress_snapshot()
    }

    /// Takes a driver failure in. Only a running engine changes.
    pub fn sync_state(&mut self, failure: Option<DriverFailure>)
        ensures
            final(self)@ == (EngineModel {
                state: old(self)@.state.synced(failure),
                ..old(self)@
            }),
    {
        if self.state == V2GatewayEngineState::Running {
            if let Some(failure) = failure {
                self.state = V2GatewayEngineState::Terminal(failure);
            }
        }
    }

    pub fn state(&self) -> (state: V2GatewayEngineState)
        ensures
            state == self@.state,
    {
        self.state
    }

    pub fn is_terminal(&self) -> (terminal: bool)
        ensures
            terminal == (self@.state is Terminal),
    {
        match self.state {
            V2GatewayEngineState::Terminal(_) => true,
            _ => false,
        }
    }

    pub fn failure(&self) -> (failure: Option<DriverFailure>)
        ensures
            failure == match self@.state {
                V2GatewayEngineState::Terminal(failure) => Some(failure),
                _ => None,
            },
    {
        match self.state {
            V2GatewayEngineState::Terminal(failure) => Some(failure),
            _ => None,
        }
    }

    /// The end of a shutdown, from how joining the driver went: `None` where
    /// there was no driver left to join.
    pub fn shutdown(self, joined: Option<Result<Option<DriverFailure>, DriverError>>) -> (result:
        Result<V2GatewayEngineState, DriverError>)
        ensures
            result == match joined {
                None => Ok::<V2GatewayEngineState, DriverError>(self@.state),
                Some(Ok(failure)) => Ok(self@.state.joined(failure)),
                Some(Err(e)) => Err(e),
            },
    {
        match joined {
            None => Ok(self.state),
            Some(Err(e)) => Err(e),
            Some(Ok(failure)) => {
                if self.state == V2GatewayEngineState::Running {
                    match failure {
                        Some(failure) => Ok(V2GatewayEngineState::Terminal(failure)),
                        None => Ok(V2GatewayEngineState::Closed),
                    }
                } else {
                    Ok(self.state)
                }
            },
        }
    }
}

/// The first failure stays: an engine that is not running changes neither when
/// a failure is reported nor when its driver is joined.
pub proof fn law_terminal_is_sticky(
    state: V2GatewayEngineState,
    failure: Option<DriverFailure>,
    later: Option<DriverFailure>,
)
    ensures
        state !is Running ==> state.synced(failure) == state && state.joined(failure) == state,
        failure matches Some(first) ==> V2GatewayEngineState::Running.synced(failure).synced(
            later,
        ).joined(later) == V2GatewayEngineState::Terminal(first),
        state.joined(failure) !is Running,
{
}

/// Nothing leaves for the host stack, and no lease is renewed, unless the
/// datagram was bound to a session and its source is leased to that session.
pub proof fn law_only_bound_and_leased_uplinks_leave<S: LeaseStore>(
    before: EngineModel,
    pool_before: AddressPool<S>,
    bound: Result<SessionId, V2SessionManagerError>,
    payload: Seq<u8>,
    now: PoolTime,
    result: Result<ForwardedUplink, UplinkIngestError>,
    after: EngineModel,
    pool_after: AddressPool<S>,
)
    requires
        ingest_ends(before, pool_before, bound, payload, now, result, after, pool_after),
    ensures
        result is Err ==> after.sink == before.sink,
        result is Ok ==> before.sessions && before.forwarder is Some && bound is Ok
            && forwarding::validation(
            pool_before.model(),
            pool_before.shape(),
            before.forwarder->0.maximum_packet_bytes,
            bound->Ok_0.key,
            payload,
        ) is Ok,
        (bound is Err || !before.sessions || before.forwarder is None) ==> after == before
            && pool_after == pool_before,
        result matches Err(UplinkIngestError::Rejected(_)) ==> pool_after == pool_before,
{
}

/// Why a datagram is not taken in: the lease check or the session map is missing, or
/// the datagram belongs to no session, or its source is not leased to its session, or
/// the lease could not be renewed; checked in that order.
pub proof fn law_refused_uplinks_say_why<S: LeaseStore>(
    before: EngineModel,
    pool_before: AddressPool<S>,
    bound: Result<SessionId, V2SessionManagerError>,
    payload: Seq<u8>,
    now: PoolTime,
    result: Result<ForwardedUplink, UplinkIngestError>,
    after: EngineModel,
    pool_after: AddressPool<S>,
)
    requires
        ingest_ends(before, pool_before, bound, payload, now, result, after, pool_after),
    ensures
        ({
            let ready = before.forwarder is Some && before.sessions;
            let validation = forwarding::validation(
                pool_before.model(),
                pool_before.shape(),
                before.forwarder->0.maximum_packet_bytes,
                bound->Ok_0.key,
                payload,
            );
            &&& !ready ==> result == Err::<ForwardedUplink, _>(UplinkIngestError::NotAttached)
            &&& ready && bound is Err ==> result == Err::<ForwardedUplink, _>(
                UplinkIngestError::BindingRejected(bound->Err_0),
            )
            &&& ready && bound is Ok && validation is Err ==> result == Err::<ForwardedUplink, _>(
                UplinkIngestError::Rejected(validation->Err_0),
            )
            &&& ready && bound is Ok && validation is Ok ==> (result matches Err(e) ==> e
                is LeaseRejected)
        }),
{
}

/// A datagram of a session, from a source that is leased to it, leaves for the host
/// stack as it came, is counted with its length, and renews the lease, wherever the
/// lease has not run out, nothing else is under way for the session, and no store can
/// refuse the renewal.
pub proof fn law_bound_and_leased_uplinks_leave<S: LeaseStore>(
    before: EngineModel,
    pool_before: AddressPool<S>,
    session: SessionId,
    payload: Seq<u8>,
    now: PoolTime,
    result: Result<ForwardedUplink, UplinkIngestError>,
    after: EngineModel,
    pool_after: AddressPool<S>,
)
    requires
        pool_before.wf(),
        before.forwarder is Some,
        before.sessions,
        before.sink.forwarded < u64::MAX,
        before.sink.bytes_forwarded + payload.len() <= u64::MAX,
        forwarding::validation(
            pool_before.model(),
            pool_before.shape(),
            before.forwarder->0.maximum_packet_bytes,
            session.key,
            payload,
        ) is Ok,
        pool_before.store() is None,
        !pool_before.model().parked.contains_key(session.key),
        now.monotonic_ms < pool_before.model().active[session.key].expires_at_ms,
        ingest_ends(
            before,
            pool_before,
            Ok::<SessionId, V2SessionManagerError>(session),
            payload,
            now,
            result,
            after,
            pool_after,
        ),
    ensures
        result is Ok,
        result->Ok_0.parts().0 == session,
        result->Ok_0.parts().2 == payload,
        after.sink.forwarded == before.sink.forwarded + 1,
        after.sink.bytes_forwarded == before.sink.bytes_forwarded + payload.len(),
        pool_after.model().active.contains_key(session.key),
        pool_after.model().active[session.key].expires_at_ms == if now.monotonic_ms
            + pool_before.shape().lease_ttl <= u64::MAX {
            now.monotonic_ms + pool_before.shape().lease_ttl
        } else {
            u64::MAX as int
        },
{
}

/// A running engine becomes terminal with the failure that its driver reports, closed
/// where it is joined without one, and otherwise goes on.
pub proof fn law_drivers_decide_the_state(failure: DriverFailure)
    ensures
        V2GatewayEngineState::Running.synced(None) is Running,
        V2GatewayEngineState::Running.synced(Some(failure)) == V2GatewayEngineState::Terminal(
            failure,
        ),
        V2GatewayEngineState::Running.joined(None) is Closed,
        V2GatewayEngineState::Running.joined(Some(failure)) == V2GatewayEngineState::Terminal(
            failure,
        ),
{
}

/// An engine without a driver stays as it is when it is shut down. A driver that ended
/// ends a running engine: closed, or with its failure. One that cannot be joined says so.
pub proof fn law_shutdown_follows_the_driver(
    engine: V2GatewayEngine,
    joined: Option<Result<Option<DriverFailure>, DriverError>>,
    result: Result<V2GatewayEngineState, DriverError>,
)
    requires
        call_ensures(V2GatewayEngine::shutdown, (engine, joined), result),
    ensures
        joined is None ==> result == Ok::<V2GatewayEngineState, DriverError>(engine@.state),
        joined matches Some(Err(e)) ==> result == Err::<V2GatewayEngineState, DriverError>(e),
        joined matches Some(Ok(failure)) ==> result == Ok::<V2GatewayEngineState, DriverError>(
            if !(engine@.state is Running) {
                engine@.state
            } else if failure is Some {
                V2GatewayEngineState::Terminal(failure->0)
            } else {
                V2GatewayEngineState::Closed
            },
        ),
{
}

} // verus!
