use bytes::Bytes;
use streamguard_gateway::ids::SessionId;
use streamguard_gateway::tunnel::{
    control_reply, downlink_envelope, downlink_sent, downlink_step, parse_flow, probe_reply,
    reverse_key, session_prefix, verify_init, Binding, Counters, DownlinkStep, Envelope, FirstFrame,
    FlowTable, PacketType, PathId, Reader, ReaderStep,
};

fn icmp(src: [u8; 4], dst: [u8; 4], id: u16) -> Vec<u8> {
    let mut packet = vec![0u8; 32];
    packet[0] = 0x45;
    packet[9] = 1;
    packet[12..16].copy_from_slice(&src);
    packet[16..20].copy_from_slice(&dst);
    packet[24..26].copy_from_slice(&id.to_be_bytes());
    packet
}

fn envelope(packet_type: PacketType, session: u8, path: u64, sequence: u64, payload: &[u8]) -> Envelope {
    Envelope {
        version: 1,
        packet_type,
        flags: 0,
        path_id: PathId { value: path },
        session_id: SessionId::from_bytes([session; 16]),
        sequence,
        timestamp_ms: 7,
        payload: Bytes::copy_from_slice(payload),
    }
}

#[test]
fn flow_key_is_symmetric_for_icmp() {
    let packet = icmp([10, 0, 85, 2], [8, 8, 8, 8], 0x1234);
    let key = parse_flow(&packet).expect("key");
    let rev = reverse_key(key);
    assert_eq!(key.0[0..4], rev.0[4..8]);
    assert_eq!(key.0[4..8], rev.0[0..4]);
    assert_eq!(key.0[8..11], rev.0[8..11], "proto+id unchanged in reverse");
}

#[test]
fn replies_find_the_session_that_asked() {
    let client = SessionId::from_bytes([5; 16]);
    let mut flows = FlowTable::new();
    let request = icmp([10, 0, 85, 2], [8, 8, 8, 8], 0x1234);
    flows.learn(parse_flow(&request).unwrap(), client);
    let reply = icmp([8, 8, 8, 8], [10, 0, 85, 2], 0x1234);
    assert_eq!(flows.route(&reply), Some(client));
    assert_eq!(flows.route(&icmp([8, 8, 4, 4], [10, 0, 85, 2], 0x1234)), None);
    assert_eq!(flows.lookup(parse_flow(&request).unwrap()), Some(client));
    assert!(parse_flow(&[0x45; 10]).is_none());
}

#[test]
fn an_init_must_be_for_its_own_session() {
    let id = SessionId::from_bytes([0, 0, 1, 2, 9, 9, 9, 9, 9, 9, 9, 9, 9, 9, 9, 9]);
    assert_eq!(session_prefix(id), 0x0102);
    assert!(matches!(verify_init(0x0102, Ok(id)), Ok(found) if found == id));
    assert_eq!(
        verify_init(0x0103, Ok(id)),
        Err("ticket session id does not match Init sid".to_string())
    );
    assert_eq!(verify_init(1, Err("expired".to_string())), Err("expired".to_string()));
}

#[test]
fn replies_keep_the_identity_of_what_they_answer() {
    let probe = envelope(PacketType::Probe, 3, 8, 44, b"ping");
    let status = probe_reply(2, &probe);
    assert_eq!(status.packet_type, PacketType::PathStatus);
    assert_eq!(status.version, 2);
    assert_eq!(status.sequence, 44);
    assert_eq!(status.payload, probe.payload);
    let reply = control_reply(&probe, Bytes::from_static(b"ok"));
    assert_eq!(reply.packet_type, PacketType::Control);
    assert_eq!(reply.payload, Bytes::from_static(b"ok"));
    let down = downlink_envelope(1, probe.session_id, probe.path_id, 9, b"data");
    assert_eq!(down.packet_type, PacketType::Data);
    assert_eq!(down.payload, Bytes::from_static(b"data"));
    assert_eq!(down.sequence, 9);
}

#[test]
fn a_reader_serves_an_accredited_connection() {
    let mut counters = Counters::default();
    let mut flows = FlowTable::new();
    let mut reader = Reader::new();
    assert_eq!(reader.step(), ReaderStep::ReceiveFirst);
    let id = SessionId::from_bytes([3; 16]);
    let first = FirstFrame::Init { sid: session_prefix(id), verified: Ok(id) };
    assert!(reader.begin(first, &mut counters).is_none());
    assert_eq!(reader.step(), ReaderStep::Acknowledge { sid: session_prefix(id) });
    assert_eq!(counters.paths, 1);
    reader.act(true, &mut counters);
    assert_eq!(reader.step(), ReaderStep::Receive);

    let packet = icmp([10, 0, 85, 2], [8, 8, 8, 8], 7);
    let data = envelope(PacketType::Data, 3, 8, 1, &packet);
    reader.receive(Some(&data));
    assert_eq!(reader.step(), ReaderStep::Bind);
    let binding = Binding { new_session: true, path_added: true, accepted: true };
    reader.bind(&data, binding, &mut flows, &mut counters);
    assert_eq!(reader.step(), ReaderStep::WriteToHost);
    assert_eq!(counters.sessions, 1);
    assert_eq!(counters.frames_to_host, 1);
    assert_eq!(flows.route(&icmp([8, 8, 8, 8], [10, 0, 85, 2], 7)), Some(data.session_id));
    reader.act(true, &mut counters);

    let again = Binding { new_session: false, path_added: false, accepted: false };
    reader.receive(Some(&data));
    reader.bind(&data, again, &mut flows, &mut counters);
    assert_eq!(reader.step(), ReaderStep::Receive);
    assert_eq!(counters.duplicates_dropped, 1);

    // A frame for another session ends an accredited connection.
    let foreign = envelope(PacketType::Data, 4, 8, 2, &packet);
    reader.receive(Some(&foreign));
    assert_eq!(reader.step(), ReaderStep::Evict);
    assert_eq!(reader.evictions().len(), 1);
    reader.evicted(&vec![true], &mut counters);
    assert_eq!(counters.paths_evicted, 1);
    assert_eq!(reader.step(), ReaderStep::Ended);
}

#[test]
fn a_refused_init_ends_the_connection() {
    let mut counters = Counters::default();
    let mut reader = Reader::new();
    let first = FirstFrame::Init { sid: 9, verified: Err("forged".to_string()) };
    assert_eq!(reader.begin(first, &mut counters), Some("forged".to_string()));
    assert_eq!(reader.step(), ReaderStep::Refuse { sid: 9 });
    assert_eq!(counters.auth_rejections, 1);
    reader.act(true, &mut counters);
    assert_eq!(reader.step(), ReaderStep::Ended);
}

#[test]
fn a_connection_that_opens_with_traffic_is_neither_counted_nor_bound() {
    let mut counters = Counters::default();
    let mut reader = Reader::new();
    assert!(reader.begin(FirstFrame::Traffic, &mut counters).is_none());
    assert_eq!(reader.step(), ReaderStep::Ended);
    assert_eq!(counters, Counters::default());
    let data = envelope(PacketType::Data, 3, 8, 1, b"");
    let mut unaccredited = Reader::new();
    unaccredited.receive(Some(&data));
    assert_eq!(unaccredited.step(), ReaderStep::Ended);
    assert!(unaccredited.evictions().is_empty());
}

/// An IPv4 packet of a protocol whose first four bytes are two ports.
fn ported(protocol: u8, src: ([u8; 4], u16), dst: ([u8; 4], u16)) -> Vec<u8> {
    let mut packet = vec![0u8; 28];
    packet[0] = 0x45;
    packet[9] = protocol;
    packet[12..16].copy_from_slice(&src.0);
    packet[16..20].copy_from_slice(&dst.0);
    packet[20..22].copy_from_slice(&src.1.to_be_bytes());
    packet[22..24].copy_from_slice(&dst.1.to_be_bytes());
    packet
}

#[test]
fn udp_and_tcp_replies_find_the_session_that_asked() {
    let client = ([10, 0, 85, 2], 5000);
    let server = ([8, 8, 8, 8], 53);
    let session = SessionId::from_bytes([5; 16]);
    for protocol in [6, 17] {
        let mut flows = FlowTable::new();
        flows.learn(parse_flow(&ported(protocol, client, server)).unwrap(), session);
        assert_eq!(flows.route(&ported(protocol, server, client)), Some(session));
        assert_eq!(flows.route(&ported(protocol, server, ([10, 0, 85, 2], 5001))), None);
    }
}

#[test]
fn protocols_without_ports_are_known_by_their_first_two_bytes() {
    let client = [10, 0, 85, 2];
    let server = [8, 8, 8, 8];
    let session = SessionId::from_bytes([5; 16]);
    for protocol in [47, 99] {
        let mut flows = FlowTable::new();
        flows.learn(parse_flow(&ported(protocol, (client, 7), (server, 0x0800))).unwrap(), session);
        assert_eq!(flows.route(&ported(protocol, (server, 7), (client, 0x0800))), Some(session));
        // The two bytes behind them decide nothing.
        assert_eq!(flows.route(&ported(protocol, (server, 7), (client, 0))), Some(session));
        assert_eq!(flows.route(&ported(protocol, (server, 0x0800), (client, 7))), None);
    }
}

#[test]
fn probes_selections_and_keepalives_are_counted() {
    let mut counters = Counters::default();
    let mut flows = FlowTable::new();
    let mut reader = Reader::new();
    let id = SessionId::from_bytes([3; 16]);
    let first = FirstFrame::Init { sid: session_prefix(id), verified: Ok(id) };
    assert!(reader.begin(first, &mut counters).is_none());
    reader.act(true, &mut counters);
    let known = Binding { new_session: false, path_added: false, accepted: true };
    for (packet_type, step) in [
        (PacketType::Probe, ReaderStep::AnswerProbe),
        (PacketType::Control, ReaderStep::ApplyControl),
        (PacketType::Keepalive, ReaderStep::Receive),
    ] {
        let frame = envelope(packet_type, 3, 8, 1, b"");
        reader.receive(Some(&frame));
        reader.bind(&frame, known, &mut flows, &mut counters);
        assert_eq!(reader.step(), step);
        reader.act(true, &mut counters);
    }
    assert_eq!(counters.probes_replied, 1);
    assert_eq!(counters.path_selects, 1);
    assert_eq!(counters.keepalives, 1);
    reader.receive(None);
    assert_eq!(reader.step(), ReaderStep::Ended);
}

#[test]
fn downlinks_need_a_known_flow_and_an_active_path() {
    let client = SessionId::from_bytes([5; 16]);
    let path_id = PathId { value: 2 };
    let mut flows = FlowTable::new();
    flows.learn(parse_flow(&icmp([10, 0, 85, 2], [8, 8, 8, 8], 1)).unwrap(), client);
    let reply = icmp([8, 8, 8, 8], [10, 0, 85, 2], 1);
    assert_eq!(
        downlink_step(flows.route(&reply), Some(4), Some(path_id)),
        DownlinkStep::Send { session_id: client, sequence: 4, path_id }
    );
    assert_eq!(downlink_step(flows.route(&reply), Some(4), None), DownlinkStep::Drop);
    assert_eq!(downlink_step(flows.route(&reply), None, Some(path_id)), DownlinkStep::Drop);
    assert_eq!(downlink_step(flows.route(&[0u8; 3]), Some(4), Some(path_id)), DownlinkStep::Drop);
    let mut counters = Counters::default();
    downlink_sent(true, &mut counters);
    downlink_sent(false, &mut counters);
    assert_eq!(counters.datagrams_to_client, 1);
}
