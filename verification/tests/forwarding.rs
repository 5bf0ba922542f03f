use bytes::Bytes;
use streamguard_gateway::ids::{DeviceId, SessionId};
use streamguard_gateway::v2::address_pool::{
    AddressPool, AddressPoolConfig, AssignedAddresses, InMemoryLeaseStore,
};
use streamguard_gateway::v2::forwarding::{
    parse_ipv4_source, parse_ipv6_source, ForwardError, ForwardedUplink, IpSource, SinkSnapshot,
    UplinkForwarder, V2ForwardingSink, V2TunNatEgress, ValidatedUplink,
};

type Pool = AddressPool<InMemoryLeaseStore>;

fn config(maximum_leases: usize) -> AddressPoolConfig {
    AddressPoolConfig::new(
        [10, 64, 0, 0],
        24,
        [10, 64, 0, 1],
        vec![],
        [0xfd, 0, 0, 0, 0, 0, 0, 0, 0, 0, 0, 0, 0, 0, 0, 0],
        48,
        maximum_leases,
        5_000,
        60_000,
        maximum_leases,
    )
    .unwrap()
}

fn pool_with_two() -> (Pool, SessionId, AssignedAddresses) {
    let mut pool = Pool::new(config(4)).unwrap();
    let session = SessionId::from_bytes([7; 16]);
    let device = DeviceId::from_bytes([8; 16]);
    let lease = pool.reserve(session, device, 1_000).unwrap();
    pool.commit(session, 1_000).unwrap();
    (pool, session, lease)
}

fn ipv4_packet(src: [u8; 4], dst: [u8; 4]) -> Bytes {
    let mut packet = vec![0u8; 20];
    packet[0] = 0x45;
    packet[2..4].copy_from_slice(&20u16.to_be_bytes());
    packet[8] = 64;
    packet[9] = 6;
    packet[12..16].copy_from_slice(&src);
    packet[16..20].copy_from_slice(&dst);
    Bytes::from(packet)
}

fn ipv6_packet(src: [u8; 16], dst: [u8; 16]) -> Bytes {
    let mut packet = vec![0u8; 40];
    packet[0] = 0x60;
    packet[4..6].copy_from_slice(&0u16.to_be_bytes());
    packet[6] = 6;
    packet[7] = 64;
    packet[8..24].copy_from_slice(&src);
    packet[24..40].copy_from_slice(&dst);
    Bytes::from(packet)
}

fn refused(result: Result<ValidatedUplink, ForwardError>) -> ForwardError {
    match result {
        Ok(_) => panic!("the packet passed"),
        Err(error) => error,
    }
}

#[test]
fn valid_ipv4_and_ipv6_uplinks_pass_sealed_validation() {
    let (pool, session, lease) = pool_with_two();
    let mut forwarder = UplinkForwarder::new(1_500).unwrap();
    let v4 = ipv4_packet(lease.ipv4, [8, 8, 8, 8]);
    let validated = forwarder.validate(&pool, session, v4.clone()).ok().unwrap();
    assert_eq!(validated.session_id(), session);
    assert_eq!(validated.source(), IpSource::V4(lease.ipv4));
    assert_eq!(validated.packet(), &v4);
    let mut v6_src = [0u8; 16];
    v6_src[0..8].copy_from_slice(&lease.ipv6_prefix[0..8]);
    v6_src[15] = 0x42;
    let v6 = ipv6_packet(v6_src, [0x20, 1, 0x0d, 0xb8, 0, 0, 0, 0, 0, 0, 0, 0, 0, 0, 0, 1]);
    let validated_v6 = forwarder.validate(&pool, session, v6.clone()).ok().unwrap();
    assert_eq!(validated_v6.source(), IpSource::V6(v6_src));
    assert!(validated_v6.source().is_v6() && !validated_v6.source().is_v4());
    assert_eq!(validated_v6.into_packet(), v6);
    let snapshot = forwarder.snapshot();
    assert_eq!(snapshot.validated, 2);
    assert_eq!(snapshot.parse_dropped, 0);
    assert_eq!(snapshot.spoof_dropped, 0);
}

#[test]
fn spoofed_sources_are_dropped_before_forwarding() {
    let (mut pool, session, lease) = pool_with_two();
    let other_session = SessionId::from_bytes([9; 16]);
    let other_device = DeviceId::from_bytes([10; 16]);
    let other_lease = pool.reserve(other_session, other_device, 1_000).unwrap();
    pool.commit(other_session, 1_000).unwrap();
    let mut forwarder = UplinkForwarder::new(1_500).unwrap();
    let spoofed = forwarder.validate(&pool, session, ipv4_packet(other_lease.ipv4, [8, 8, 8, 8]));
    assert_eq!(refused(spoofed), ForwardError::SourceMismatch);
    let gateway = forwarder.validate(&pool, session, ipv4_packet([10, 64, 0, 1], [8, 8, 8, 8]));
    assert_eq!(refused(gateway), ForwardError::SourceMismatch);
    let mut outside = [0u8; 16];
    outside[0..8].copy_from_slice(&other_lease.ipv6_prefix[0..8]);
    outside[15] = 0x99;
    let foreign = forwarder.validate(&pool, session, ipv6_packet(outside, [0x20; 16]));
    assert_eq!(refused(foreign), ForwardError::SourceMismatch);
    let unknown = SessionId::from_bytes([77; 16]);
    let unleased = forwarder.validate(&pool, unknown, ipv4_packet(lease.ipv4, [8, 8, 8, 8]));
    assert_eq!(refused(unleased), ForwardError::UnknownSession);
    let snapshot = forwarder.snapshot();
    assert_eq!(snapshot.validated, 0);
    assert_eq!(snapshot.spoof_dropped, 4);
    assert_eq!(snapshot.parse_dropped, 0);
}

#[test]
fn malformed_packets_are_parse_dropped_without_state_lookup() {
    let (pool, session, _) = pool_with_two();
    let mut forwarder = UplinkForwarder::new(1_500).unwrap();
    let empty = forwarder.validate(&pool, session, Bytes::new());
    assert_eq!(refused(empty), ForwardError::Empty);
    let short = forwarder.validate(&pool, session, Bytes::from(vec![0x40; 8]));
    assert_eq!(refused(short), ForwardError::Truncated);
    let mut bad_version = ipv4_packet([10, 64, 0, 2], [8, 8, 8, 8]).to_vec();
    bad_version[0] = 0x70;
    let versioned = forwarder.validate(&pool, session, Bytes::from(bad_version));
    assert_eq!(refused(versioned), ForwardError::UnknownVersion);
    let mut bad_len = ipv4_packet([10, 64, 0, 2], [8, 8, 8, 8]).to_vec();
    bad_len[2..4].copy_from_slice(&30u16.to_be_bytes());
    let lengthened = forwarder.validate(&pool, session, Bytes::from(bad_len));
    assert_eq!(refused(lengthened), ForwardError::InvalidLength);
    let oversized = forwarder.validate(&pool, session, Bytes::from(vec![0x45; 1_501]));
    assert_eq!(refused(oversized), ForwardError::TooLarge);
    let snapshot = forwarder.snapshot();
    assert_eq!(snapshot.parse_dropped, 5);
    assert_eq!(snapshot.spoof_dropped, 0);
}

#[test]
fn headers_and_sources_are_checked() {
    let (pool, session, _) = pool_with_two();
    let mut forwarder = UplinkForwarder::new(1_500).unwrap();
    let mut short_header = ipv4_packet([10, 64, 0, 2], [8, 8, 8, 8]).to_vec();
    short_header[0] = 0x44;
    let header = forwarder.validate(&pool, session, Bytes::from(short_header));
    assert_eq!(refused(header), ForwardError::InvalidHeader);
    let unspecified = forwarder.validate(&pool, session, ipv4_packet([0; 4], [8, 8, 8, 8]));
    assert_eq!(refused(unspecified), ForwardError::InvalidSource);
    let unspecified = forwarder.validate(&pool, session, ipv6_packet([0; 16], [0x20; 16]));
    assert_eq!(refused(unspecified), ForwardError::InvalidSource);
    let mut long = ipv6_packet([0xfd; 16], [0x20; 16]).to_vec();
    long.push(0);
    let lengthened = forwarder.validate(&pool, session, Bytes::from(long));
    assert_eq!(refused(lengthened), ForwardError::InvalidLength);
}

#[test]
fn invalid_forwarder_config_is_rejected() {
    assert!(UplinkForwarder::new(64).is_err());
    assert!(UplinkForwarder::new(70_000).is_err());
    assert!(UplinkForwarder::new(1_279).is_err());
    assert!(UplinkForwarder::new(1_280).is_ok());
    assert!(UplinkForwarder::new(65_535).is_ok());
    assert!(UplinkForwarder::new(65_536).is_err());
}

#[test]
fn validated_uplink_debug_never_includes_payload_contents() {
    let (pool, session, lease) = pool_with_two();
    let mut forwarder = UplinkForwarder::new(1_500).unwrap();
    let validated = forwarder
        .validate(&pool, session, ipv4_packet(lease.ipv4, [8, 8, 8, 8]))
        .ok()
        .unwrap();
    let debug = format!("{:?}", validated.summary());
    assert!(debug.contains("packet_len"));
    assert!(!debug.contains("8, 8, 8, 8"));
}

#[test]
fn forwarding_reserved_lease_never_authorizes_payload() {
    let mut pool = Pool::new(config(4)).unwrap();
    let session = SessionId::from_bytes([21; 16]);
    let device = DeviceId::from_bytes([22; 16]);
    let reserved = pool.reserve(session, device, 1_000).unwrap();
    let mut forwarder = UplinkForwarder::new(1_500).unwrap();
    let early = forwarder.validate(&pool, session, ipv4_packet(reserved.ipv4, [8, 8, 8, 8]));
    assert_eq!(refused(early), ForwardError::UnknownSession);
    assert_eq!(forwarder.snapshot().spoof_dropped, 1);
    assert_eq!(forwarder.snapshot().validated, 0);
    pool.commit(session, 1_000).unwrap();
    assert!(forwarder
        .validate(&pool, session, ipv4_packet(reserved.ipv4, [8, 8, 8, 8]))
        .is_ok());
}

#[test]
fn sealed_sink_only_forwards_validated_uplinks() {
    let (pool, session, lease) = pool_with_two();
    let mut forwarder = UplinkForwarder::new(1_500).unwrap();
    let mut sink = V2ForwardingSink::new();
    let validated = forwarder
        .validate(&pool, session, ipv4_packet(lease.ipv4, [8, 8, 8, 8]))
        .ok()
        .unwrap();
    let packet_len = validated.packet_len();
    let session_id = validated.session_id();
    let source = validated.source();
    let forwarded = sink.submit(validated);
    assert_eq!(forwarded.session_id(), session_id);
    assert_eq!(forwarded.source(), source);
    assert_eq!(forwarded.packet_len(), packet_len);
    assert_eq!(forwarded.packet().len(), packet_len);
    let snapshot = sink.snapshot();
    assert_eq!(snapshot.forwarded, 1);
    assert_eq!(snapshot.bytes_forwarded, packet_len as u64);
    let debug = format!("{:?}", forwarded.summary());
    assert!(debug.contains("packet_len"));
    assert!(!debug.contains("8, 8, 8, 8"));
    let unknown = SessionId::from_bytes([77; 16]);
    assert!(forwarder
        .validate(&pool, unknown, ipv4_packet(lease.ipv4, [8, 8, 8, 8]))
        .is_err());
    assert_eq!(sink.snapshot().forwarded, 1, "failed validation must not reach the sink");
}

#[test]
fn sink_default_matches_new_and_counts_bytes() {
    let (pool, session, lease) = pool_with_two();
    let mut forwarder = UplinkForwarder::new(1_500).unwrap();
    let mut sink = V2ForwardingSink::default();
    assert_eq!(sink.snapshot(), SinkSnapshot { forwarded: 0, bytes_forwarded: 0 });
    for _ in 0..2 {
        let validated = forwarder
            .validate(&pool, session, ipv4_packet(lease.ipv4, [8, 8, 8, 8]))
            .ok()
            .unwrap();
        let _ = sink.submit(validated);
    }
    assert_eq!(sink.snapshot().forwarded, 2);
    assert_eq!(sink.snapshot().bytes_forwarded, 40);
}

fn through<E: V2TunNatEgress>(egress: &mut E, validated: ValidatedUplink) -> ForwardedUplink {
    egress.emit_validated(validated)
}

#[test]
fn uplink_tun_nat_egress_contract_only_accepts_validated_uplinks() {
    let (pool, session, lease) = pool_with_two();
    let mut forwarder = UplinkForwarder::new(1_500).unwrap();
    let mut sink = V2ForwardingSink::new();
    let packet = ipv4_packet(lease.ipv4, [8, 8, 8, 8]);
    let validated = forwarder.validate(&pool, session, packet.clone()).ok().unwrap();
    let forwarded = through(&mut sink, validated);
    assert_eq!(forwarded.session_id(), session);
    assert_eq!(forwarded.packet(), &packet);
    assert_eq!(sink.snapshot().forwarded, 1);
    assert_eq!(sink.egress_snapshot(), sink.snapshot());
    let spoofed = ipv4_packet([10, 64, 0, 99], [8, 8, 8, 8]);
    assert!(forwarder.validate(&pool, session, spoofed).is_err());
    assert_eq!(sink.egress_snapshot().forwarded, 1, "failed validation must not reach the egress");
}

#[test]
fn an_empty_packet_is_truncated_for_either_parser() {
    assert_eq!(parse_ipv4_source(&[]), Err(ForwardError::Truncated));
    assert_eq!(parse_ipv6_source(&[]), Err(ForwardError::Truncated));
}
