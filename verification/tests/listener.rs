use streamguard_gateway::ids::{DeviceId, OrganizationId, SessionId, TicketId};
use streamguard_gateway::time::Span;
use streamguard_gateway::v2::address_pool::AssignedAddresses;
use streamguard_gateway::v2::admission::{
    AdmissionAccepted, AdmissionHandler, AdmissionTime, HandshakeAdmissionLimiter,
    HandshakeAdmissionLimiterConfig, ReplayCache, SourceAddress,
    VerifiedAdmissionTicket,
};
use streamguard_gateway::v2::control::{ControlMessage, PathId, RejectCode, SafeModePolicy};
use streamguard_gateway::v2::listener::{
    accept_one, advance_admission_time, AcceptFlow, AcceptOutcome, AcceptStep, AdmitResponse,
    ControlDeadlines, ControlOutcome, ControlStep, PathRequest, RejectReason, ReplyKind, SessionAdmitTemplate,
    V2AdmissionListenerConfig, V2AdmissionListenerError, V2AdmittedConnection,
};

fn accepted(expires_at_unix_seconds: u64) -> AdmissionAccepted {
    let limiter = HandshakeAdmissionLimiter::new(HandshakeAdmissionLimiterConfig {
        source_capacity: 2,
        source_ttl_millis: 10,
        maximum_per_source_in_flight: 1,
        maximum_global_in_flight: 2,
        maximum_verification_budget_millis: 5,
    })
    .ok()
    .unwrap();
    let mut handler = AdmissionHandler::new(limiter, ReplayCache::new(2).ok().unwrap());
    let now = AdmissionTime { unix_seconds: 1_000, monotonic_millis: 1 };
    let pending = handler.begin_admit(SourceAddress::V4(1), 1, now).ok().unwrap();
    let ticket = VerifiedAdmissionTicket {
        ticket_id: TicketId::from_bytes([1; 16]),
        session_id: SessionId::from_bytes([2; 16]),
        device_id: DeviceId::from_bytes([3; 16]),
        organization_id: OrganizationId::from_bytes([4; 16]),
        expires_at_unix_seconds,
        policy_version: 7,
    };
    let redemption = handler.ticket_verified(pending, Ok(ticket)).ok().unwrap();
    let begun = handler.begin_redeem(redemption.request()).ok().unwrap();
    let redeemed = handler.end_redeem(begun, true);
    let reservation = handler.redeemed(redemption, redeemed).ok().unwrap();
    handler.end_admit(reservation, true).ok().unwrap()
}

const LEASE: AssignedAddresses = AssignedAddresses {
    ipv4: [10, 64, 0, 2],
    ipv4_prefix_len: 24,
    ipv6_prefix: [0xfd; 16],
    ipv6_prefix_len: 64,
};

/// What each step of an accept gives where it works.
fn accept_outcome(step: AcceptStep) -> AcceptOutcome {
    match step {
        AcceptStep::ReadHello => AcceptOutcome::Hello(5),
        AcceptStep::Admit => AcceptOutcome::Admitted(accepted(2_000)),
        AcceptStep::CommitLease(_) => AcceptOutcome::Leased(LEASE),
        _ => AcceptOutcome::Worked,
    }
}

/// Runs an accept where a step fails, and lists its steps.
fn run_accept(fails: Option<AcceptStep>) -> Vec<AcceptStep> {
    let mut flow = accept_one();
    let mut steps = Vec::new();
    loop {
        let step = flow.step();
        steps.push(step);
        if let AcceptStep::Finished(_) = step {
            return steps;
        }
        let outcome =
            if fails == Some(step) { AcceptOutcome::Failed } else { accept_outcome(step) };
        flow.advance(outcome);
    }
}

fn response() -> AdmitResponse {
    AdmitResponse { transaction_id: 5, admitted: accepted(2_000), lease: LEASE }
}

#[test]
fn an_accept_answers_only_once_everything_is_durable() {
    let steps = run_accept(None);
    let admitted = accepted(2_000);
    assert!(
        steps
            == vec![
                AcceptStep::Accept,
                AcceptStep::AcquirePermit,
                AcceptStep::Handshake,
                AcceptStep::ReleasePermit,
                AcceptStep::IdentifyPeer,
                AcceptStep::OpenControl,
                AcceptStep::ReadHello,
                AcceptStep::CheckHello,
                AcceptStep::SweepSessions,
                AcceptStep::SweepPool,
                AcceptStep::Admit,
                AcceptStep::ReserveLease(admitted),
                AcceptStep::CommitSession(admitted),
                AcceptStep::CommitLease(admitted),
                AcceptStep::BuildResponse(response()),
                AcceptStep::WriteResponse(response()),
                AcceptStep::Finished(Ok(admitted)),
            ]
    );
}

/// An accept at the step that builds the answer.
fn accept_at_response(expires_at_unix_seconds: u64) -> AcceptFlow {
    let mut flow = accept_one();
    loop {
        match flow.step() {
            AcceptStep::BuildResponse(_) => return flow,
            AcceptStep::Admit => {
                flow.advance(AcceptOutcome::Admitted(accepted(expires_at_unix_seconds)))
            }
            step => flow.advance(accept_outcome(step)),
        }
    }
}

#[test]
fn the_answer_is_of_the_admission_and_its_lease() {
    let template = SessionAdmitTemplate::new(SafeModePolicy::new(b"policy"));
    let mut flow = accept_at_response(2_000);
    let frame = flow.build_response(&template).unwrap();
    assert!(flow.step() == AcceptStep::WriteResponse(response()));
    assert_eq!(frame.transaction_id, 5);
    match frame.message {
        ControlMessage::SessionAdmit {
            session_id,
            expires_at_ms,
            policy_epoch,
            assigned_ipv4,
            assigned_ipv6_prefix,
            ..
        } => {
            assert_eq!(session_id, SessionId::from_bytes([2; 16]));
            assert_eq!(expires_at_ms, 2_000_000);
            assert_eq!(policy_epoch, 7);
            assert_eq!(assigned_ipv4, LEASE.ipv4);
            assert_eq!(assigned_ipv6_prefix, LEASE.ipv6_prefix);
        }
        _ => panic!("no session admit"),
    }
    // It is built once, and not without an expiry in milliseconds.
    assert!(flow.build_response(&template).is_none());
    assert!(flow.step() == AcceptStep::WriteResponse(response()));
    let mut flow = accept_at_response(u64::MAX);
    assert!(flow.build_response(&template).is_none());
    assert!(flow.step() == AcceptStep::ReleaseLease(accepted(u64::MAX)));
}

#[test]
fn a_failed_accept_undoes_what_it_did() {
    let admitted = accepted(2_000);
    let steps = run_accept(Some(AcceptStep::WriteResponse(response())));
    let tail = &steps[steps.len() - 4..];
    assert!(
        tail
            == &[
                AcceptStep::ReleaseLease(admitted),
                AcceptStep::CloseSession(admitted),
                AcceptStep::CloseConnection,
                AcceptStep::Finished(Err(V2AdmissionListenerError::ResponseWrite)),
            ]
    );
    let steps = run_accept(Some(AcceptStep::ReserveLease(admitted)));
    assert!(steps.contains(&AcceptStep::AbortAdmission(admitted)));
    assert!(!steps.contains(&AcceptStep::ReleaseLease(admitted)));
    for (step, error) in [
        (AcceptStep::Accept, V2AdmissionListenerError::EndpointClosed),
        (AcceptStep::AcquirePermit, V2AdmissionListenerError::Limited),
        (AcceptStep::Handshake, V2AdmissionListenerError::Handshake),
        (AcceptStep::IdentifyPeer, V2AdmissionListenerError::PeerIdentity),
        (AcceptStep::OpenControl, V2AdmissionListenerError::ControlStream),
        (AcceptStep::ReadHello, V2AdmissionListenerError::InvalidControl),
        (AcceptStep::CheckHello, V2AdmissionListenerError::InvalidControl),
        (AcceptStep::SweepSessions, V2AdmissionListenerError::AdmissionRejected),
        (AcceptStep::Admit, V2AdmissionListenerError::AdmissionRejected),
        (AcceptStep::ReserveLease(admitted), V2AdmissionListenerError::AddressPool),
        (AcceptStep::CommitSession(admitted), V2AdmissionListenerError::AdmissionRejected),
        (AcceptStep::CommitLease(admitted), V2AdmissionListenerError::AddressPool),
        (AcceptStep::BuildResponse(response()), V2AdmissionListenerError::InvalidAdmission),
    ] {
        let steps = run_accept(Some(step));
        assert!(steps.last() == Some(&AcceptStep::Finished(Err(error))), "{error:?}");
    }
}

#[test]
fn deadlines_are_told_from_failures() {
    let mut flow = accept_one();
    flow.advance(AcceptOutcome::Worked);
    flow.advance(AcceptOutcome::Worked);
    assert!(flow.step() == AcceptStep::Handshake);
    flow.advance(AcceptOutcome::TimedOut);
    assert!(flow.step() == AcceptStep::ReleasePermit);
    flow.advance(AcceptOutcome::Worked);
    assert!(
        flow.step() == AcceptStep::Finished(Err(V2AdmissionListenerError::HandshakeDeadline))
    );
}

fn attach(nonce: u128) -> ControlOutcome {
    ControlOutcome::Request {
        transaction_id: 5,
        request: PathRequest::Attach { path_nonce: nonce, path_epoch: 1, key_epoch: 2 },
    }
}

/// Brings a connection's request past the sweeps.
fn dispatched(connection: &mut V2AdmittedConnection, request: ControlOutcome) -> ControlStep {
    connection.handle_next_control();
    assert_eq!(connection.step(), ControlStep::ReadFrame);
    connection.advance(request);
    assert_eq!(connection.step(), ControlStep::SweepSessions);
    connection.advance(ControlOutcome::Worked);
    assert_eq!(connection.step(), ControlStep::SweepPool);
    connection.advance(ControlOutcome::Worked);
    connection.step()
}

fn attached_connection() -> V2AdmittedConnection {
    let mut connection = V2AdmittedConnection::new(accepted(2_000));
    assert_eq!(dispatched(&mut connection, attach(9)), ControlStep::RecordActivity);
    connection.advance(ControlOutcome::Worked);
    assert_eq!(connection.step(), ControlStep::CheckAttach { path_epoch: 1, key_epoch: 2 });
    connection.advance(ControlOutcome::Worked);
    assert_eq!(connection.step(), ControlStep::RenewLease);
    connection.advance(ControlOutcome::Worked);
    assert_eq!(connection.step(), ControlStep::ReserveAttach { path_epoch: 1, key_epoch: 2 });
    connection.advance(ControlOutcome::Worked);
    assert_eq!(connection.step(), ControlStep::CommitAttach);
    let path_id = PathId { value: 3 };
    connection.advance(ControlOutcome::Attached { path_id, path_epoch: 1, key_epoch: 2 });
    connection
}

fn reply_of(connection: &V2AdmittedConnection) -> ReplyKind {
    match connection.step() {
        ControlStep::WriteReply(reply) => {
            assert_eq!(reply.transaction_id, 5);
            reply.kind
        }
        step => panic!("no reply at {step:?}"),
    }
}

#[test]
fn an_attach_is_answered_after_its_lease_is_renewed() {
    let mut connection = attached_connection();
    let path_id = PathId { value: 3 };
    assert_eq!(
        reply_of(&connection),
        ReplyKind::PathAttached { session_id: SessionId::from_bytes([2; 16]), path_id, path_epoch: 1 }
    );
    connection.advance(ControlOutcome::Worked);
    assert_eq!(connection.step(), ControlStep::Finished(Ok(())));
    // The same attach again is answered from the binding; another is refused.
    assert!(matches!(dispatched(&mut connection, attach(9)), ControlStep::ValidatePath(_)));
    connection.advance(ControlOutcome::Worked);
    assert_eq!(connection.step(), ControlStep::RenewLease);
    connection.advance(ControlOutcome::Worked);
    assert!(matches!(reply_of(&connection), ReplyKind::PathAttached { .. }));
    connection.advance(ControlOutcome::Worked);
    dispatched(&mut connection, attach(10));
    assert_eq!(reply_of(&connection), ReplyKind::Reject(RejectReason::AlreadyAttached));
}

#[test]
fn a_failed_renewal_closes_the_session_unanswered() {
    let mut connection = V2AdmittedConnection::new(accepted(2_000));
    dispatched(&mut connection, attach(9));
    connection.advance(ControlOutcome::Worked);
    connection.advance(ControlOutcome::Worked);
    assert_eq!(connection.step(), ControlStep::RenewLease);
    connection.advance(ControlOutcome::Failed);
    assert_eq!(connection.step(), ControlStep::CloseExpiredSession);
    connection.advance(ControlOutcome::Worked);
    assert_eq!(
        connection.step(),
        ControlStep::Finished(Err(V2AdmissionListenerError::AddressPool))
    );
}

#[test]
fn a_refused_attach_is_answered_without_renewal() {
    let mut connection = V2AdmittedConnection::new(accepted(2_000));
    dispatched(&mut connection, attach(9));
    connection.advance(ControlOutcome::Worked);
    assert_eq!(connection.step(), ControlStep::CheckAttach { path_epoch: 1, key_epoch: 2 });
    connection.advance(ControlOutcome::Failed);
    assert_eq!(reply_of(&connection), ReplyKind::Reject(RejectReason::AttachRejected));
    connection.advance(ControlOutcome::Worked);
    assert_eq!(connection.step(), ControlStep::Finished(Ok(())));
}

#[test]
fn an_attach_that_fails_after_its_renewal_is_rejected() {
    for (reserved, reason) in
        [(false, RejectReason::AttachRejected), (true, RejectReason::AttachNotCommitted)]
    {
        let mut connection = V2AdmittedConnection::new(accepted(2_000));
        dispatched(&mut connection, attach(9));
        for _ in 0..3 {
            connection.advance(ControlOutcome::Worked);
        }
        assert_eq!(connection.step(), ControlStep::ReserveAttach { path_epoch: 1, key_epoch: 2 });
        if reserved {
            connection.advance(ControlOutcome::Worked);
        }
        connection.advance(ControlOutcome::Failed);
        assert_eq!(reply_of(&connection), ReplyKind::Reject(reason));
    }
}

#[test]
fn detach_close_and_foreign_requests_are_answered() {
    let mut connection = attached_connection();
    connection.advance(ControlOutcome::Worked);
    let path_id = PathId { value: 3 };
    let request = PathRequest::Detach { path_id, path_epoch: 1 };
    dispatched(&mut connection, ControlOutcome::Request { transaction_id: 5, request });
    connection.advance(ControlOutcome::Worked);
    assert_eq!(connection.step(), ControlStep::CheckDetach { path_id, path_epoch: 1 });
    connection.advance(ControlOutcome::Failed);
    assert_eq!(reply_of(&connection), ReplyKind::Reject(RejectReason::DetachRejected));
    connection.advance(ControlOutcome::Worked);
    assert_eq!(connection.step(), ControlStep::Finished(Ok(())));

    dispatched(&mut connection, ControlOutcome::Request { transaction_id: 5, request });
    connection.advance(ControlOutcome::Worked);
    connection.advance(ControlOutcome::Worked);
    assert_eq!(connection.step(), ControlStep::RenewLease);
    connection.advance(ControlOutcome::Worked);
    assert_eq!(connection.step(), ControlStep::DetachPath { path_id, path_epoch: 1 });
    connection.advance(ControlOutcome::Detached(true));
    assert_eq!(reply_of(&connection), ReplyKind::Ack);
    connection.advance(ControlOutcome::Worked);

    let foreign =
        ControlOutcome::Request { transaction_id: 5, request: PathRequest::Foreign };
    dispatched(&mut connection, foreign);
    assert_eq!(reply_of(&connection), ReplyKind::Reject(RejectReason::NotForThisConnection));
    connection.advance(ControlOutcome::Worked);

    let close = ControlOutcome::Request { transaction_id: 5, request: PathRequest::Close };
    assert_eq!(dispatched(&mut connection, close), ControlStep::CloseSession);
    connection.advance(ControlOutcome::Worked);
    assert_eq!(reply_of(&connection), ReplyKind::Ack);
}

#[test]
fn messages_for_another_session_are_foreign() {
    let connection = V2AdmittedConnection::new(accepted(2_000));
    let own = SessionId::from_bytes([2; 16]);
    let other = SessionId::from_bytes([9; 16]);
    assert_eq!(connection.classify(&ControlMessage::Close { session_id: own }), PathRequest::Close);
    assert_eq!(
        connection.classify(&ControlMessage::Close { session_id: other }),
        PathRequest::Foreign
    );
    assert_eq!(connection.classify(&ControlMessage::Ack), PathRequest::Foreign);
    assert_eq!(
        connection.classify(&ControlMessage::PathAttach {
            session_id: own,
            path_nonce: 1,
            path_epoch: 2,
            key_epoch: 3
        }),
        PathRequest::Attach { path_nonce: 1, path_epoch: 2, key_epoch: 3 }
    );
}

#[test]
fn rejections_have_their_code_and_text() {
    assert_eq!(RejectReason::AlreadyAttached.code(), RejectCode::StaleEpoch);
    assert_eq!(RejectReason::AlreadyAttached.text(), "connection is already attached");
    assert_eq!(RejectReason::DetachRejected.code(), RejectCode::UnknownPath);
    assert_eq!(RejectReason::NotForThisConnection.code(), RejectCode::InvalidDirection);
    assert_eq!(RejectReason::AttachRejected.text(), "path attach rejected");
}

#[test]
fn a_session_admit_carries_the_lease_and_the_policy() {
    let template = SessionAdmitTemplate::new(SafeModePolicy::new(b"policy"));
    let lease = AssignedAddresses {
        ipv4: [10, 64, 0, 2],
        ipv4_prefix_len: 24,
        ipv6_prefix: [0xfd; 16],
        ipv6_prefix_len: 64,
    };
    let frame = template.frame(11, accepted(2_000), &lease).ok().unwrap();
    assert_eq!(frame.transaction_id, 11);
    match frame.message {
        ControlMessage::SessionAdmit {
            session_id,
            expires_at_ms,
            policy_epoch,
            assigned_ipv4,
            assigned_ipv6_prefix_len,
            safe_mode_policy,
            ..
        } => {
            assert_eq!(session_id, SessionId::from_bytes([2; 16]));
            assert_eq!(expires_at_ms, 2_000_000);
            assert_eq!(policy_epoch, 7);
            assert_eq!(assigned_ipv4, [10, 64, 0, 2]);
            assert_eq!(assigned_ipv6_prefix_len, 64);
            assert_eq!(&safe_mode_policy.encoded()[..], b"policy");
        }
        _ => panic!("an admission is answered by its admit"),
    }
    assert!(matches!(
        template.frame(11, accepted(u64::MAX), &lease),
        Err(V2AdmissionListenerError::InvalidAdmission)
    ));
}

#[test]
fn listener_bounds_must_not_be_zero() {
    let deadlines =
        ControlDeadlines { read: Span::from_millis(100), write: Span::from_millis(100) };
    let config = V2AdmissionListenerConfig::with_control(deadlines, 4_096);
    assert_eq!(config.handshake_timeout, Span::from_secs(5));
    assert_eq!(config.check(), Ok(()));
    let zero = Span::from_millis(0);
    for broken in [
        V2AdmissionListenerConfig { handshake_timeout: zero, ..config },
        V2AdmissionListenerConfig { control_stream_timeout: zero, ..config },
        V2AdmissionListenerConfig { control_frame_limit: 0, ..config },
        V2AdmissionListenerConfig {
            control_deadlines: ControlDeadlines { read: zero, ..deadlines },
            ..config
        },
    ] {
        assert_eq!(broken.check(), Err(V2AdmissionListenerError::InvalidConfiguration));
    }
    let base = AdmissionTime { unix_seconds: 10, monotonic_millis: 20 };
    let later = advance_admission_time(base, Span::new(2, 500_000_000));
    assert_eq!(later, AdmissionTime { unix_seconds: 12, monotonic_millis: 2_520 });
    let end = AdmissionTime { unix_seconds: u64::MAX, monotonic_millis: u64::MAX };
    assert_eq!(advance_admission_time(end, Span::from_secs(1)), end);
}
