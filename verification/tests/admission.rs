use streamguard_gateway::ids::{DeviceId, OrganizationId, SessionId, TicketId};
use streamguard_gateway::v2::admission::replay_cache::REPLAY_JOURNAL_IO_TIMEOUT_MS;
use streamguard_gateway::v2::admission::{
    queued_redemption, AdmissionError, AdmissionHandler, AdmissionTime, BoundedClientHello, HandshakeAdmissionLimiter,
    HandshakeAdmissionLimiterConfig, LimiterError, RedeemedTicket, RedemptionRequest, ReplayCache,
    ReplayCacheError, SourceAddress, TicketVerificationError, VerifiedAdmissionTicket,
};
use streamguard_gateway::v2::control::ControlMessage;
use streamguard_gateway::v2::persistence::{PersistenceError, PERSISTENCE_IO_TIMEOUT_MS};
use streamguard_gateway::v2::replay::ReplayFile;

fn limits() -> HandshakeAdmissionLimiterConfig {
    HandshakeAdmissionLimiterConfig {
        source_capacity: 2,
        source_ttl_millis: 10,
        maximum_per_source_in_flight: 1,
        maximum_global_in_flight: 2,
        maximum_verification_budget_millis: 5,
    }
}

fn limiter() -> HandshakeAdmissionLimiter {
    HandshakeAdmissionLimiter::new(limits()).ok().unwrap()
}

/// `192.0.2.host`.
fn source(host: u32) -> SourceAddress {
    SourceAddress::V4(0xc000_0200 + host)
}

fn ticket(byte: u8) -> VerifiedAdmissionTicket {
    VerifiedAdmissionTicket {
        ticket_id: TicketId::from_bytes([byte; 16]),
        session_id: SessionId::from_bytes([byte + 1; 16]),
        device_id: DeviceId::from_bytes([byte + 2; 16]),
        organization_id: OrganizationId::from_bytes([byte + 3; 16]),
        expires_at_unix_seconds: 2_000,
        policy_version: 7,
    }
}

fn at(unix_seconds: u64, monotonic_millis: u64) -> AdmissionTime {
    AdmissionTime { unix_seconds, monotonic_millis }
}

/// Redeems a ticket, with its journal written or not.
fn redeem(
    handler: &mut AdmissionHandler,
    request: RedemptionRequest,
    written: bool,
) -> Result<RedeemedTicket, ReplayCacheError> {
    let redemption = handler.begin_redeem(request)?;
    handler.end_redeem(redemption, written)
}

fn request(byte: u8) -> RedemptionRequest {
    RedemptionRequest {
        ticket_id: TicketId::from_bytes([byte; 16]),
        expires_at_unix_seconds: 2_000,
        now_unix_seconds: 1_000,
    }
}

#[test]
fn limiter_enforces_pre_handshake_capacity_ttl_deadline_and_raii_release() {
    let mut limiter = limiter();
    let first = limiter.acquire(source(1), 0, 0).ok().unwrap();
    assert!(matches!(limiter.acquire(source(1), 0, 0), Err(LimiterError::SourceInFlight)));
    let second = limiter.acquire(source(2), 0, 0).ok().unwrap();
    assert!(matches!(limiter.acquire(source(3), 0, 0), Err(LimiterError::GlobalInFlight)));
    limiter.release(first);
    limiter.release(second);
    let third = limiter.acquire(source(3), 11, 11);
    assert!(third.is_ok());
    limiter.release(third.ok().unwrap());
    assert!(matches!(limiter.acquire(source(4), 0, 6), Err(LimiterError::BudgetExceeded)));
    let mut source_limiter = HandshakeAdmissionLimiter::new(HandshakeAdmissionLimiterConfig {
        source_capacity: 1,
        ..limits()
    })
    .ok()
    .unwrap();
    let permit = source_limiter.acquire(source(20), 0, 0).ok().unwrap();
    source_limiter.release(permit);
    assert!(matches!(
        source_limiter.acquire(source(21), 0, 0),
        Err(LimiterError::SourceCapacity)
    ));
    assert!(source_limiter.acquire(source(21), 11, 11).is_ok());
    let snapshot = source_limiter.snapshot();
    assert_eq!(snapshot.source_capacity_rejected, 1);
    assert_eq!(snapshot.expired, 1);
}

#[test]
fn address_families_are_told_apart() {
    let mut limiter = limiter();
    assert!(limiter.acquire(SourceAddress::V4(5), 0, 0).is_ok());
    assert!(limiter.acquire(SourceAddress::V6(5), 0, 0).is_ok());
}

#[test]
fn no_limit_may_be_zero() {
    for broken in [
        HandshakeAdmissionLimiterConfig { source_capacity: 0, ..limits() },
        HandshakeAdmissionLimiterConfig { source_ttl_millis: 0, ..limits() },
        HandshakeAdmissionLimiterConfig { maximum_per_source_in_flight: 0, ..limits() },
        HandshakeAdmissionLimiterConfig { maximum_global_in_flight: 0, ..limits() },
        HandshakeAdmissionLimiterConfig { maximum_verification_budget_millis: 0, ..limits() },
    ] {
        assert!(matches!(
            HandshakeAdmissionLimiter::new(broken),
            Err(AdmissionError::InvalidConfiguration)
        ));
    }
}

#[test]
fn a_ticket_admits_once() {
    let mut handler = AdmissionHandler::new(limiter(), ReplayCache::new(4).ok().unwrap());
    let pending = handler.begin_admit(source(1), 100, at(1_000, 101)).ok().unwrap();
    let redemption = handler.ticket_verified(pending, Ok(ticket(1))).ok().unwrap();
    assert!(!handler.is_durable());
    let redeemed = redeem(&mut handler, redemption.request(), true);
    let reservation = handler.redeemed(redemption, redeemed).ok().unwrap();
    let request = reservation.request();
    assert_eq!(request.owner.session_id(), SessionId::from_bytes([2; 16]));
    assert_eq!(request.expires_at_monotonic_ms, 101 + 1_000_000);
    assert_eq!(request.now_ms, 101);
    let accepted = handler.end_admit(reservation, true).ok().unwrap();
    assert_eq!(accepted.owner().device_id(), DeviceId::from_bytes([3; 16]));
    assert_eq!(accepted.expires_at_unix_seconds(), 2_000);
    assert_eq!(accepted.policy_version(), 7);

    let pending = handler.begin_admit(source(1), 102, at(1_000, 102)).ok().unwrap();
    let redemption = handler.ticket_verified(pending, Ok(ticket(1))).ok().unwrap();
    let redeemed = redeem(&mut handler, redemption.request(), true);
    assert!(matches!(handler.redeemed(redemption, redeemed), Err(AdmissionError::Replay)));
    let metrics = handler.metrics();
    assert_eq!(metrics.admitted, 1);
    assert_eq!(metrics.replay.replay_rejected, 1);
    assert_eq!(metrics.limiter.global_in_flight, 0, "every way out gives the permit back");
}

#[test]
fn refusals_are_counted_by_their_reason() {
    let mut handler = AdmissionHandler::new(limiter(), ReplayCache::new(4).ok().unwrap());
    let permit = handler.acquire_handshake(source(1), at(1_000, 1)).ok().unwrap();
    assert!(matches!(
        handler.acquire_handshake(source(1), at(1_000, 1)),
        Err(AdmissionError::Limited)
    ));
    handler.release_handshake(permit);
    for error in [TicketVerificationError::Rejected, TicketVerificationError::ControllerUnavailable] {
        let pending = handler.begin_admit(source(1), 1, at(1_000, 1)).ok().unwrap();
        match handler.ticket_verified(pending, Err(error)) {
            Err(AdmissionError::Ticket(found)) => assert_eq!(found, error),
            _ => panic!("a ticket that does not verify is refused"),
        }
    }
    let pending = handler.begin_admit(source(1), 1, at(1_000, 1)).ok().unwrap();
    let redemption = handler.ticket_verified(pending, Ok(ticket(9))).ok().unwrap();
    let redeemed = redeem(&mut handler, redemption.request(), true);
    let reservation = handler.redeemed(redemption, redeemed).ok().unwrap();
    assert!(matches!(
        handler.end_admit(reservation, false),
        Err(AdmissionError::ProvisioningRejected)
    ));
    let metrics = handler.metrics();
    assert_eq!(metrics.limiter_rejected, 1);
    assert_eq!(metrics.ticket_rejected, 1);
    assert_eq!(metrics.controller_unavailable, 1);
    assert_eq!(metrics.provisioning_rejected, 1);
    assert_eq!(metrics.admitted, 0);
}

fn durable(gateway: &str) -> AdmissionHandler {
    let (cache, _) =
        ReplayCache::open_durable(&ReplayFile::Missing, gateway, 4, 1_000).ok().unwrap();
    AdmissionHandler::new(limiter(), cache.opened(true).ok().unwrap())
}

#[test]
fn durable_consume_async_persists_without_blocking_the_listener() {
    let mut handler = durable("healthy.test");
    assert!(handler.is_durable());
    let redemption = handler.begin_redeem(request(21)).ok().unwrap();
    let journal = redemption.journal.clone().unwrap();
    // Another admission goes on while the journal is being written.
    let other = handler.begin_admit(source(2), 1, at(1_000, 1));
    assert!(other.is_ok());
    let redeemed = handler.end_redeem(redemption, true).ok().unwrap();
    assert_eq!(redeemed.ticket_id(), TicketId::from_bytes([21; 16]));
    assert_eq!(handler.metrics().replay.entries, 1);
    let file = ReplayFile::Present(journal);
    let (reopened, _) = ReplayCache::open_durable(&file, "healthy.test", 4, 1_000).ok().unwrap();
    assert_eq!(reopened.snapshot().entries, 1);
}

#[test]
fn durable_consume_async_is_time_bounded_and_shutdown_survives_blocked_journal() {
    let mut handler = durable("blocked.test");
    let pending = handler.begin_admit(source(1), 1, at(1_000, 1)).ok().unwrap();
    let waiting = handler.ticket_verified(pending, Ok(ticket(11))).ok().unwrap();
    // The journal is blocked: the caller gives up, and gets its permit back.
    let blocked = handler.begin_redeem(waiting.request()).ok().unwrap();
    let given_up = queued_redemption(Err(PersistenceError::Timeout));
    assert_eq!(given_up, Err(ReplayCacheError::Unavailable));
    assert!(matches!(
        handler.redeemed(waiting, given_up),
        Err(AdmissionError::Unavailable)
    ));
    assert_eq!(handler.metrics().limiter.global_in_flight, 0);
    // Nothing else is redeemed meanwhile, so no journal can overtake another.
    assert_eq!(
        redeem(&mut handler, request(12), true),
        Err(ReplayCacheError::Unavailable)
    );
    // The blocked write lands, and the next ticket is redeemed after it.
    assert!(handler.end_redeem(blocked, true).is_ok());
    let redemption = handler.begin_redeem(request(12)).ok().unwrap();
    let journal = redemption.journal.clone().unwrap();
    assert!(handler.end_redeem(redemption, true).is_ok());
    assert_eq!(redeem(&mut handler, request(11), true), Err(ReplayCacheError::Replay));
    let file = ReplayFile::Present(journal);
    let (reopened, _) = ReplayCache::open_durable(&file, "blocked.test", 4, 1_000).ok().unwrap();
    assert_eq!(reopened.snapshot().entries, 2, "the journal drops no redeemed ticket");
}

#[test]
fn a_redemption_that_failed_can_be_tried_again() {
    let mut handler = durable("gw");
    assert_eq!(
        redeem(&mut handler, request(5), false),
        Err(ReplayCacheError::Unavailable)
    );
    assert_eq!(handler.metrics().replay.entries, 0);
    assert!(redeem(&mut handler, request(5), true).is_ok());
    assert_eq!(redeem(&mut handler, request(5), true), Err(ReplayCacheError::Replay));
    assert_eq!(handler.metrics().replay.entries, 1);
}

#[test]
fn only_the_verified_ticket_counts_as_redeemed() {
    let mut handler = durable("gw");
    let pending = handler.begin_admit(source(1), 1, at(1_000, 1)).ok().unwrap();
    let waiting = handler.ticket_verified(pending, Ok(ticket(1))).ok().unwrap();
    let other = redeem(&mut handler, request(2), true);
    assert!(other.is_ok());
    assert!(matches!(handler.redeemed(waiting, other), Err(AdmissionError::Unavailable)));
    assert_eq!(handler.metrics().limiter.global_in_flight, 0);
}

#[test]
fn a_hello_asks_for_a_bounded_gateway_name() {
    let hello = |name: &str| {
        BoundedClientHello::from_control_message(&ControlMessage::ClientHello {
            device_id: DeviceId::from_bytes([4; 16]),
            requested_gateway: name.to_string(),
            ticket: "ticket".to_string(),
        })
    };
    let found = hello("iad-1.example.test").ok().unwrap();
    assert_eq!(found.requested_gateway(), "iad-1.example.test");
    assert_eq!(found.ticket(), "ticket");
    assert_eq!(found.device_id(), DeviceId::from_bytes([4; 16]));
    assert!(hello(&"a".repeat(253)).is_ok());
    for name in [String::new(), "a".repeat(254), "gatew\u{e4}y".to_string()] {
        assert!(matches!(hello(&name), Err(AdmissionError::InvalidHello)));
    }
    assert!(BoundedClientHello::from_control_message(&ControlMessage::Ack).is_err());
}

#[test]
fn a_queue_that_cannot_answer_is_unavailable_whatever_the_ticket() {
    let mut handler = durable("gw");
    assert!(redeem(&mut handler, request(1), true).is_ok());
    for error in [PersistenceError::Full, PersistenceError::Closed, PersistenceError::Timeout] {
        assert_eq!(queued_redemption(Err(error)), Err(ReplayCacheError::Unavailable));
    }
    let replayed = redeem(&mut handler, request(1), true);
    assert_eq!(queued_redemption(Ok(replayed)), Err(ReplayCacheError::Replay));
    assert_eq!(REPLAY_JOURNAL_IO_TIMEOUT_MS, PERSISTENCE_IO_TIMEOUT_MS);
}
