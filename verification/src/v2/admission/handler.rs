//! Ticket admission: permit, verification, redemption, reservation, in that
//! order. Each stage hands out the value that the next one takes, so none can
//! be left out, and every way out gives the permit back.
use super::error::{AdmissionError, TicketVerificationError};
use super::limiter::{
    AdmissionPermit, HandshakeAdmissionLimiter, HandshakeAdmissionLimiterConfig,
    HandshakeAdmissionLimiterSnapshot, LimiterModel, SourceAddress,
};
use super::replay_cache;
use super::replay_cache::{
    RedeemedTicket, Redemption, ReplayCache, ReplayCacheError, ReplayCacheSnapshot, ReplayModel,
};
use crate::arith;
use crate::arith::count;
use crate::ids::{DeviceId, OrganizationId, SessionId, TicketId};
use crate::v2::persistence;
use crate::v2::persistence::{seconds_to_millis, PersistenceError};
use vstd::prelude::*;

verus! {

/// Admission time in two domains: monotonic for budgets and deadlines, Unix
/// time for ticket claims.
#[derive(Debug, Clone, Copy, PartialEq, Eq, Structural)]
pub struct AdmissionTime {
    pub unix_seconds: u64,
    pub monotonic_millis: u64,
}

/// What a verified ticket claims.
#[derive(Clone, Copy, PartialEq, Eq, Structural)]
pub struct VerifiedAdmissionTicket {
    pub ticket_id: TicketId,
    pub session_id: SessionId,
    pub device_id: DeviceId,
    pub organization_id: OrganizationId,
    pub expires_at_unix_seconds: u64,
    pub policy_version: u64,
}

/// Whose session is admitted.
#[derive(Clone, Copy, PartialEq, Eq, Structural)]
pub struct SessionOwner {
    session_id: SessionId,
    device_id: DeviceId,
    organization_id: OrganizationId,
}

impl SessionOwner {
    pub closed spec fn parts(self) -> (SessionId, DeviceId, OrganizationId) {
        (self.session_id, self.device_id, self.organization_id)
    }

    pub fn from_ticket(ticket: &VerifiedAdmissionTicket) -> (owner: Self)
        ensures
            owner.parts() == (ticket.session_id, ticket.device_id, ticket.organization_id),
    {
        SessionOwner {
            session_id: ticket.session_id,
            device_id: ticket.device_id,
            organization_id: ticket.organization_id,
        }
    }

    pub fn session_id(&self) -> (id: SessionId)
        ensures
            id == self.parts().0,
    {
        self.session_id
    }

    pub fn device_id(&self) -> (id: DeviceId)
        ensures
            id == self.parts().1,
    {
        self.device_id
    }

    pub fn organization_id(&self) -> (id: OrganizationId)
        ensures
            id == self.parts().2,
    {
        self.organization_id
    }
}

/// A session that was admitted.
#[derive(Clone, Copy, PartialEq, Eq, Structural)]
pub struct AdmissionAccepted {
    owner: SessionOwner,
    expires_at_unix_seconds: u64,
    policy_version: u64,
}

impl AdmissionAccepted {
    /// The owner, the expiry and the policy version.
    pub closed spec fn parts(self) -> (SessionOwner, u64, u64) {
        (self.owner, self.expires_at_unix_seconds, self.policy_version)
    }

    pub fn owner(&self) -> (owner: SessionOwner)
        ensures
            owner == self.parts().0,
    {
        self.owner
    }

    pub fn expires_at_unix_seconds(&self) -> (seconds: u64)
        ensures
            seconds == self.parts().1,
    {
        self.expires_at_unix_seconds
    }

    pub fn policy_version(&self) -> (version: u64)
        ensures
            version == self.parts().2,
    {
        self.policy_version
    }
}

/// How often what happened.
#[derive(Debug, Clone, Copy, PartialEq, Eq, Structural)]
pub struct AdmissionCounts {
    pub admitted: u64,
    pub limiter_rejected: u64,
    pub ticket_rejected: u64,
    pub controller_unavailable: u64,
    pub provisioning_rejected: u64,
}

impl AdmissionCounts {
    pub open spec fn zero() -> Self {
        AdmissionCounts {
            admitted: 0,
            limiter_rejected: 0,
            ticket_rejected: 0,
            controller_unavailable: 0,
            provisioning_rejected: 0,
        }
    }

    pub open spec fn limited(self) -> Self {
        AdmissionCounts { limiter_rejected: arith::counted(self.limiter_rejected, 1), ..self }
    }

    pub open spec fn refused(self, error: TicketVerificationError) -> Self {
        match error {
            TicketVerificationError::ControllerUnavailable => AdmissionCounts {
                controller_unavailable: arith::counted(self.controller_unavailable, 1),
                ..self
            },
            TicketVerificationError::Rejected => AdmissionCounts {
                ticket_rejected: arith::counted(self.ticket_rejected, 1),
                ..self
            },
        }
    }

    pub open spec fn ended(self, reserved: bool) -> Self {
        if reserved {
            AdmissionCounts { admitted: arith::counted(self.admitted, 1), ..self }
        } else {
            AdmissionCounts {
                provisioning_rejected: arith::counted(self.provisioning_rejected, 1),
                ..self
            }
        }
    }
}

/// Admission counts with the occupancy of the bounded state behind them.
#[derive(Debug, Clone, Copy, PartialEq, Eq, Structural)]
pub struct AdmissionMetricsSnapshot {
    pub admitted: u64,
    pub limiter_rejected: u64,
    pub ticket_rejected: u64,
    pub controller_unavailable: u64,
    pub provisioning_rejected: u64,
    pub replay: ReplayCacheSnapshot,
    pub limiter: HandshakeAdmissionLimiterSnapshot,
}

/// An admission whose ticket is to be verified.
pub struct PendingTicket {
    permit: AdmissionPermit,
    now: AdmissionTime,
}

impl PendingTicket {
    /// Where it comes from and when it is decided.
    pub closed spec fn parts(&self) -> (SourceAddress, AdmissionTime) {
        (self.permit.holder(), self.now)
    }
}

/// An admission whose ticket is to be redeemed.
pub struct PendingRedemption {
    permit: AdmissionPermit,
    now: AdmissionTime,
    ticket: VerifiedAdmissionTicket,
}

/// What is asked of the record of redeemed tickets.
#[derive(Clone, Copy, PartialEq, Eq, Structural)]
pub struct RedemptionRequest {
    pub ticket_id: TicketId,
    pub expires_at_unix_seconds: u64,
    pub now_unix_seconds: u64,
}

impl PendingRedemption {
    pub closed spec fn parts(&self) -> (SourceAddress, AdmissionTime, VerifiedAdmissionTicket) {
        (self.permit.holder(), self.now, self.ticket)
    }

    pub fn request(&self) -> (request: RedemptionRequest)
        ensures
            ({
                let (_, now, ticket) = self.parts();
                &&& request.ticket_id == ticket.ticket_id
                &&& request.expires_at_unix_seconds == ticket.expires_at_unix_seconds
                &&& request.now_unix_seconds == now.unix_seconds
            }),
    {
        RedemptionRequest {
            ticket_id: self.ticket.ticket_id,
            expires_at_unix_seconds: self.ticket.expires_at_unix_seconds,
            now_unix_seconds: self.now.unix_seconds,
        }
    }
}

/// What a redemption on the persistence queue comes to. Work that the queue
/// did not take, or that was not run in time, is not available.
pub fn queued_redemption(
    outcome: Result<Result<RedeemedTicket, ReplayCacheError>, PersistenceError>,
) -> (redeemed: Result<RedeemedTicket, ReplayCacheError>)
    ensures
        redeemed == match outcome {
            Ok(redeemed) => redeemed,
            Err(_) => Err(ReplayCacheError::Unavailable),
        },
{
    match outcome {
        Ok(redeemed) => redeemed,
        Err(_) => Err(ReplayCacheError::Unavailable),
    }
}

/// An admission whose session is to be reserved.
pub struct PendingReservation {
    permit: AdmissionPermit,
    now: AdmissionTime,
    ticket: VerifiedAdmissionTicket,
}

/// What is asked of the session map.
#[derive(Clone, Copy, PartialEq, Eq, Structural)]
pub struct ReservationRequest {
    pub owner: SessionOwner,
    pub expires_at_monotonic_ms: u64,
    pub now_ms: u64,
}

/// A ticket's expiry as a monotonic deadline.
pub open spec fn session_deadline(expires_at_unix_seconds: u64, now: AdmissionTime) -> u64 {
    let left = persistence::saturated(expires_at_unix_seconds - now.unix_seconds);
    persistence::saturated(now.monotonic_millis + persistence::saturated(left * 1_000))
}

/// A session's deadline lies as far ahead of the monotonic clock as the ticket's
/// expiry lies ahead of the Unix clock. An expired ticket leaves no time at all,
/// and a deadline that the clock cannot show is the last instant that it can.
pub proof fn law_sessions_end_with_their_tickets(expires_at_unix_seconds: u64, now: AdmissionTime)
    ensures
        expires_at_unix_seconds <= now.unix_seconds ==> session_deadline(
            expires_at_unix_seconds,
            now,
        ) == now.monotonic_millis,
        expires_at_unix_seconds >= now.unix_seconds && now.monotonic_millis + (
        expires_at_unix_seconds - now.unix_seconds) * 1_000 <= u64::MAX ==> session_deadline(
            expires_at_unix_seconds,
            now,
        ) - now.monotonic_millis == (expires_at_unix_seconds - now.unix_seconds) * 1_000,
        now.monotonic_millis + (expires_at_unix_seconds - now.unix_seconds) * 1_000 > u64::MAX
            ==> session_deadline(expires_at_unix_seconds, now) == u64::MAX,
{
}

/// The same ticket ends a session at the same instant, however far both clocks
/// went on together before it was taken.
pub proof fn law_deadlines_do_not_move(
    expires_at_unix_seconds: u64,
    earlier: AdmissionTime,
    later: AdmissionTime,
)
    requires
        earlier.unix_seconds <= later.unix_seconds <= expires_at_unix_seconds,
        later.monotonic_millis - earlier.monotonic_millis == (later.unix_seconds
            - earlier.unix_seconds) * 1_000,
    ensures
        session_deadline(expires_at_unix_seconds, later) == session_deadline(
            expires_at_unix_seconds,
            earlier,
        ),
{
}

impl PendingReservation {
    pub closed spec fn parts(&self) -> (SourceAddress, AdmissionTime, VerifiedAdmissionTicket) {
        (self.permit.holder(), self.now, self.ticket)
    }

    pub fn request(&self) -> (request: ReservationRequest)
        ensures
            ({
                let (_, now, ticket) = self.parts();
                &&& request.owner.parts() == (
                    ticket.session_id,
                    ticket.device_id,
                    ticket.organization_id,
                )
                &&& request.expires_at_monotonic_ms == session_deadline(
                    ticket.expires_at_unix_seconds,
                    now,
                )
                &&& request.now_ms == now.monotonic_millis
            }),
    {
        let left: u64 = self.ticket.expires_at_unix_seconds.saturating_sub(self.now.unix_seconds);
        ReservationRequest {
            owner: SessionOwner::from_ticket(&self.ticket),
            expires_at_monotonic_ms: self.now.monotonic_millis.saturating_add(
                seconds_to_millis(left),
            ),
            now_ms: self.now.monotonic_millis,
        }
    }
}

/// A redemption error as an admission error.
pub open spec fn admission_error(error: ReplayCacheError) -> AdmissionError {
    match error {
        ReplayCacheError::Replay => AdmissionError::Replay,
        ReplayCacheError::Capacity => AdmissionError::ReplayCapacity,
        ReplayCacheError::Unavailable => AdmissionError::Unavailable,
    }
}

fn to_admission_error(error: ReplayCacheError) -> (converted: AdmissionError)
    ensures
        converted == admission_error(error),
{
    match error {
        ReplayCacheError::Replay => AdmissionError::Replay,
        ReplayCacheError::Capacity => AdmissionError::ReplayCapacity,
        ReplayCacheError::Unavailable => AdmissionError::Unavailable,
    }
}

/// The state of admission.
pub struct AdmissionModel {
    pub limiter: LimiterModel,
    pub replay: ReplayModel,
    pub counts: AdmissionCounts,
}

/// Ticket admission.
pub struct AdmissionHandler {
    limiter: HandshakeAdmissionLimiter,
    replay_cache: ReplayCache,
    counts: AdmissionCounts,
}

impl View for AdmissionHandler {
    type V = AdmissionModel;

    closed spec fn view(&self) -> AdmissionModel {
        AdmissionModel {
            limiter: self.limiter@,
            replay: self.replay_cache@,
            counts: self.counts,
        }
    }
}

impl AdmissionHandler {
    pub closed spec fn limits(&self) -> HandshakeAdmissionLimiterConfig {
        self.limiter.settings()
    }

    pub closed spec fn wf(&self) -> bool {
        self.limiter.wf() && self.replay_cache.wf()
    }

    pub fn new(limiter: HandshakeAdmissionLimiter, replay_cache: ReplayCache) -> (handler: Self)
        requires
            limiter.wf(),
            replay_cache.wf(),
        ensures
            handler.wf(),
            handler.limits() == limiter.settings(),
            handler@ == (AdmissionModel {
                limiter: limiter@,
                replay: replay_cache@,
                counts: AdmissionCounts::zero(),
            }),
    {
        AdmissionHandler {
            limiter,
            replay_cache,
            counts: AdmissionCounts {
                admitted: 0,
                limiter_rejected: 0,
                ticket_rejected: 0,
                controller_unavailable: 0,
                provisioning_rejected: 0,
            },
        }
    }

    pub fn metrics(&self) -> (snapshot: AdmissionMetricsSnapshot)
        requires
            self.wf(),
        ensures
            snapshot.admitted == self@.counts.admitted,
            snapshot.limiter_rejected == self@.counts.limiter_rejected,
            snapshot.ticket_rejected == self@.counts.ticket_rejected,
            snapshot.controller_unavailable == self@.counts.controller_unavailable,
            snapshot.provisioning_rejected == self@.counts.provisioning_rejected,
            snapshot.replay.entries == self@.replay.entries.len(),
            snapshot.replay.capacity == self@.replay.capacity,
            snapshot.replay.replay_rejected == self@.replay.replay_rejected,
            snapshot.replay.capacity_rejected == self@.replay.capacity_rejected,
            snapshot.replay.expired == self@.replay.expired,
            snapshot.replay.durable == (self@.replay.gateway is Some),
            snapshot.limiter.source_entries == self@.limiter.known(),
            snapshot.limiter.source_capacity == self.limits().source_capacity,
            snapshot.limiter.global_in_flight == self@.limiter.global_in_flight,
            snapshot.limiter.global_in_flight_capacity == self.limits().maximum_global_in_flight,
            snapshot.limiter.source_capacity_rejected
                == self@.limiter.counts.source_capacity_rejected,
            snapshot.limiter.source_in_flight_rejected
                == self@.limiter.counts.source_in_flight_rejected,
            snapshot.limiter.global_in_flight_rejected
                == self@.limiter.counts.global_in_flight_rejected,
            snapshot.limiter.deadline_rejected == self@.limiter.counts.deadline_rejected,
            snapshot.limiter.expired == self@.limiter.counts.expired,
    {
        proof {
            self.limiter.lemma_wf();
            self.replay_cache.lemma_wf();
        }
        AdmissionMetricsSnapshot {
            admitted: self.counts.admitted,
            limiter_rejected: self.counts.limiter_rejected,
            ticket_rejected: self.counts.ticket_rejected,
            controller_unavailable: self.counts.controller_unavailable,
            provisioning_rejected: self.counts.provisioning_rejected,
            replay: self.replay_cache.snapshot(),
            limiter: self.limiter.snapshot(),
        }
    }

    /// A permit for one handshake.
    pub fn acquire_handshake(&mut self, source: SourceAddress, now: AdmissionTime) -> (result:
        Result<AdmissionPermit, AdmissionError>)
        requires
            old(self).wf(),
        ensures
            final(self).wf(),
            final(self).limits() == old(self).limits(),
            ({
                let at = now.monotonic_millis;
                let verdict = old(self)@.limiter.verdict(old(self).limits(), source, at, at);
                &&& match verdict {
                    Ok(_) => result matches Ok(permit) && permit.holder() == source,
                    Err(_) => result == Err::<AdmissionPermit, AdmissionError>(
                        AdmissionError::Limited,
                    ),
                }
                &&& final(self)@ == (AdmissionModel {
                    limiter: old(self)@.limiter.asked(old(self).limits(), source, at, at),
                    counts: if verdict is Ok {
                        old(self)@.counts
                    } else {
                        old(self)@.counts.limited()
                    },
                    ..old(self)@
                })
            }),
    {
        let at: u64 = now.monotonic_millis;
        match self.limiter.acquire(source, at, at) {
            Ok(permit) => Ok(permit),
            Err(_) => {
                self.counts.limiter_rejected = count(self.counts.limiter_rejected, 1);
                Err(AdmissionError::Limited)
            },
        }
    }

    /// Takes the permit of a handshake back.
    pub fn release_handshake(&mut self, permit: AdmissionPermit)
        requires
            old(self).wf(),
        ensures
            final(self).wf(),
            final(self).limits() == old(self).limits(),
            final(self)@ == (AdmissionModel {
                limiter: old(self)@.limiter.returned(permit.holder()),
                ..old(self)@
            }),
    {
        self.limiter.release(permit);
    }

    /// Begins an admission that started at `started_at_monotonic_millis`.
    pub fn begin_admit(
        &mut self,
        source: SourceAddress,
        started_at_monotonic_millis: u64,
        now: AdmissionTime,
    ) -> (result: Result<PendingTicket, AdmissionError>)
        requires
            old(self).wf(),
        ensures
            final(self).wf(),
            final(self).limits() == old(self).limits(),
            ({
                let started = started_at_monotonic_millis;
                let at = now.monotonic_millis;
                let verdict = old(self)@.limiter.verdict(old(self).limits(), source, started, at);
                &&& match verdict {
                    Ok(_) => result matches Ok(pending) && pending.parts() == (source, now),
                    Err(_) => result == Err::<PendingTicket, AdmissionError>(
                        AdmissionError::Limited,
                    ),
                }
                &&& final(self)@ == (AdmissionModel {
                    limiter: old(self)@.limiter.asked(old(self).limits(), source, started, at),
                    counts: if verdict is Ok {
                        old(self)@.counts
                    } else {
                        old(self)@.counts.limited()
                    },
                    ..old(self)@
                })
            }),
    {
        match self.limiter.acquire(source, started_at_monotonic_millis, now.monotonic_millis) {
            Ok(permit) => Ok(PendingTicket { permit, now }),
            Err(_) => {
                self.counts.limiter_rejected = count(self.counts.limiter_rejected, 1);
                Err(AdmissionError::Limited)
            },
        }
    }

    /// The ticket was verified or refused.
    pub fn ticket_verified(
        &mut self,
        pending: PendingTicket,
        outcome: Result<VerifiedAdmissionTicket, TicketVerificationError>,
    ) -> (result: Result<PendingRedemption, AdmissionError>)
        requires
            old(self).wf(),
        ensures
            final(self).wf(),
            final(self).limits() == old(self).limits(),
            ({
                let (source, now) = pending.parts();
                match outcome {
                    Err(e) => {
                        &&& result == Err::<PendingRedemption, AdmissionError>(
                            AdmissionError::Ticket(e),
                        )
                        &&& final(self)@ == (AdmissionModel {
                            limiter: old(self)@.limiter.returned(source),
                            counts: old(self)@.counts.refused(e),
                            ..old(self)@
                        })
                    },
                    Ok(ticket) => {
                        &&& result matches Ok(redeeming) && redeeming.parts() == (
                            source,
                            now,
                            ticket,
                        )
                        &&& final(self)@ == old(self)@
                    },
                }
            }),
    {
        let PendingTicket { permit, now } = pending;
        match outcome {
            Ok(ticket) => Ok(PendingRedemption { permit, now, ticket }),
            Err(error) => {
                match error {
                    TicketVerificationError::ControllerUnavailable => {
                        self.counts.controller_unavailable = count(
                            self.counts.controller_unavailable,
                            1,
                        );
                    },
                    TicketVerificationError::Rejected => {
                        self.counts.ticket_rejected = count(self.counts.ticket_rejected, 1);
                    },
                }
                self.limiter.release(permit);
                Err(AdmissionError::Ticket(error))
            },
        }
    }

    /// Whether redemptions are written to a journal, and so belong on the
    /// persistence queue.
    pub fn is_durable(&self) -> (durable: bool)
        ensures
            durable == (self@.replay.gateway is Some),
    {
        self.replay_cache.is_durable()
    }

    /// Enters a ticket as redeemed, and hands out the journal to write. A
    /// durable redemption is begun and ended within one piece of queued work.
    pub fn begin_redeem(&mut self, request: RedemptionRequest) -> (result: Result<
        Redemption,
        ReplayCacheError,
    >)
        requires
            old(self).wf(),
        ensures
            final(self).wf(),
            final(self).limits() == old(self).limits(),
            replay_cache::consume_begun(
                old(self)@.replay,
                request.ticket_id,
                request.expires_at_unix_seconds,
                request.now_unix_seconds,
                result,
                final(self)@.replay,
            ),
            result matches Ok(redemption) ==> redemption.awaited(final(self)@.replay),
            final(self)@ == (AdmissionModel { replay: final(self)@.replay, ..old(self)@ }),
    {
        self.replay_cache.begin_consume(
            request.ticket_id,
            request.expires_at_unix_seconds,
            request.now_unix_seconds,
        )
    }

    /// Whether the journal was written. A failed write takes the redemption
    /// back.
    pub fn end_redeem(&mut self, redemption: Redemption, written: bool) -> (result: Result<
        RedeemedTicket,
        ReplayCacheError,
    >)
        requires
            old(self).wf(),
            redemption.awaited(old(self)@.replay),
        ensures
            final(self).wf(),
            final(self).limits() == old(self).limits(),
            replay_cache::consume_ended(
                old(self)@.replay,
                redemption,
                written,
                result,
                final(self)@.replay,
            ),
            final(self)@ == (AdmissionModel { replay: final(self)@.replay, ..old(self)@ }),
    {
        self.replay_cache.end_consume(redemption, written)
    }

    /// The ticket is redeemed or not. What was redeemed has to be the ticket
    /// that was verified.
    pub fn redeemed(
        &mut self,
        pending: PendingRedemption,
        outcome: Result<RedeemedTicket, ReplayCacheError>,
    ) -> (result: Result<PendingReservation, AdmissionError>)
        requires
            old(self).wf(),
        ensures
            final(self).wf(),
            final(self).limits() == old(self).limits(),
            ({
                let (source, now, ticket) = pending.parts();
                let freed = AdmissionModel {
                    limiter: old(self)@.limiter.returned(source),
                    ..old(self)@
                };
                match outcome {
                    Err(e) => {
                        &&& result == Err::<PendingReservation, AdmissionError>(
                            admission_error(e),
                        )
                        &&& final(self)@ == freed
                    },
                    Ok(redeemed) if redeemed.ticket() != ticket.ticket_id => {
                        &&& result == Err::<PendingReservation, AdmissionError>(
                            AdmissionError::Unavailable,
                        )
                        &&& final(self)@ == freed
                    },
                    Ok(_) => {
                        &&& result matches Ok(reserving) && reserving.parts() == (
                            source,
                            now,
                            ticket,
                        )
                        &&& final(self)@ == old(self)@
                    },
                }
            }),
    {
        let PendingRedemption { permit, now, ticket } = pending;
        let error = match outcome {
            Ok(redeemed) => {
                if redeemed.ticket_id() == ticket.ticket_id {
                    return Ok(PendingReservation { permit, now, ticket });
                }
                ReplayCacheError::Unavailable
            },
            Err(error) => error,
        };
        self.limiter.release(permit);
        Err(to_admission_error(error))
    }

    /// The session map took or refused the reservation. Either way the permit
    /// is given back.
    pub fn end_admit(&mut self, pending: PendingReservation, reserved: bool) -> (result: Result<
        AdmissionAccepted,
        AdmissionError,
    >)
        requires
            old(self).wf(),
        ensures
            final(self).wf(),
            final(self).limits() == old(self).limits(),
            ({
                let (source, now, ticket) = pending.parts();
                &&& if reserved {
                    result matches Ok(accepted) && accepted.parts().0.parts() == (
                        ticket.session_id,
                        ticket.device_id,
                        ticket.organization_id,
                    ) && accepted.parts().1 == ticket.expires_at_unix_seconds
                        && accepted.parts().2 == ticket.policy_version
                } else {
                    result == Err::<AdmissionAccepted, AdmissionError>(
                        AdmissionError::ProvisioningRejected,
                    )
                }
                &&& final(self)@ == (AdmissionModel {
                    limiter: old(self)@.limiter.returned(source),
                    counts: old(self)@.counts.ended(reserved),
                    ..old(self)@
                })
            }),
    {
        let PendingReservation { permit, now: _, ticket } = pending;
        self.limiter.release(permit);
        if reserved {
            self.counts.admitted = count(self.counts.admitted, 1);
            Ok(
                AdmissionAccepted {
                    owner: SessionOwner::from_ticket(&ticket),
                    expires_at_unix_seconds: ticket.expires_at_unix_seconds,
                    policy_version: ticket.policy_version,
                },
            )
        } else {
            self.counts.provisioning_rejected = count(self.counts.provisioning_rejected, 1);
            Err(AdmissionError::ProvisioningRejected)
        }
    }
}

/// A refusal is counted under its own reason, and so is an admission: nothing else
/// is counted with it.
pub proof fn law_admissions_are_counted_once(counts: AdmissionCounts)
    requires
        counts.admitted < u64::MAX,
        counts.limiter_rejected < u64::MAX,
        counts.ticket_rejected < u64::MAX,
        counts.controller_unavailable < u64::MAX,
        counts.provisioning_rejected < u64::MAX,
    ensures
        counts.limited() == (AdmissionCounts {
            limiter_rejected: (counts.limiter_rejected + 1) as u64,
            ..counts
        }),
        counts.refused(TicketVerificationError::Rejected) == (AdmissionCounts {
            ticket_rejected: (counts.ticket_rejected + 1) as u64,
            ..counts
        }),
        counts.refused(TicketVerificationError::ControllerUnavailable) == (AdmissionCounts {
            controller_unavailable: (counts.controller_unavailable + 1) as u64,
            ..counts
        }),
        counts.ended(true) == (AdmissionCounts {
            admitted: (counts.admitted + 1) as u64,
            ..counts
        }),
        counts.ended(false) == (AdmissionCounts {
            provisioning_rejected: (counts.provisioning_rejected + 1) as u64,
            ..counts
        }),
{
}

/// A client learns that its ticket was used before, or that no more can be
/// remembered, and otherwise only that redemption is not available. No two of these
/// are told alike.
pub proof fn law_redemption_errors_are_told_apart(a: ReplayCacheError, b: ReplayCacheError)
    ensures
        admission_error(a) == admission_error(b) ==> a == b,
        admission_error(a) is Replay <==> a is Replay,
        admission_error(a) is ReplayCapacity <==> a is Capacity,
        admission_error(a) is Unavailable <==> a is Unavailable,
{
}

/// What is asked of the session map: the ticket's session, for the ticket's device and
/// organization, until as far ahead of the monotonic clock as the ticket's expiry lies
/// ahead of the Unix clock.
pub proof fn law_reservations_are_for_the_ticket(
    pending: &PendingReservation,
    request: ReservationRequest,
)
    requires
        call_ensures(PendingReservation::request, (pending,), request),
    ensures
        ({
            let (_, now, ticket) = pending.parts();
            let left = ticket.expires_at_unix_seconds - now.unix_seconds;
            &&& request.owner.parts().0 == ticket.session_id
            &&& request.owner.parts().1 == ticket.device_id
            &&& request.owner.parts().2 == ticket.organization_id
            &&& request.now_ms == now.monotonic_millis
            &&& left <= 0 ==> request.expires_at_monotonic_ms == request.now_ms
            &&& left >= 0 && request.now_ms + left * 1_000 <= u64::MAX
                ==> request.expires_at_monotonic_ms - request.now_ms == left * 1_000
            &&& request.now_ms + left * 1_000 > u64::MAX ==> request.expires_at_monotonic_ms
                == u64::MAX
        }),
{
}

/// What is asked of the record of redeemed tickets: the ticket, until its own expiry, as
/// of the Unix clock. And work that was not run redeemed nothing.
pub proof fn law_redemptions_are_of_the_ticket(
    pending: &PendingRedemption,
    request: RedemptionRequest,
    outcome: Result<Result<RedeemedTicket, ReplayCacheError>, PersistenceError>,
    redeemed: Result<RedeemedTicket, ReplayCacheError>,
)
    requires
        call_ensures(PendingRedemption::request, (pending,), request),
        call_ensures(queued_redemption, (outcome,), redeemed),
    ensures
        request.ticket_id == pending.parts().2.ticket_id,
        request.expires_at_unix_seconds == pending.parts().2.expires_at_unix_seconds,
        request.now_unix_seconds == pending.parts().1.unix_seconds,
        outcome matches Ok(answer) ==> redeemed == answer,
        outcome is Err ==> redeemed == Err::<RedeemedTicket, _>(ReplayCacheError::Unavailable),
{
}

/// Before its first hello a handler has counted nothing.
pub proof fn law_handlers_begin_with_nothing_counted()
    ensures
        ({
            let z = AdmissionCounts::zero();
            &&& z.admitted == 0
            &&& z.limiter_rejected == 0
            &&& z.ticket_rejected == 0
            &&& z.controller_unavailable == 0
            &&& z.provisioning_rejected == 0
        }),
{
}

} // verus!
