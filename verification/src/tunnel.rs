//! The tunnel: authenticating a path, demultiplexing its envelopes, and
//! routing replies back to the session that asked.
//!
//! The caller receives and sends envelopes, verifies tickets, keeps the
//! sessions with their paths and reorder windows, and writes to the host; what
//! each envelope leads to is decided here.
use crate::arith;
use crate::arith::{count, count_flags};
use crate::encoding;
use crate::encoding::read_be;
use crate::id_map::IdMap;
use crate::ids::SessionId;
use crate::v2::packet;
use crate::v2::packet::{as_slice, clone_packet, copy_from_slice};
use bytes::Bytes;
use vstd::prelude::*;

verus! {

/// What the tunnel has done.
#[derive(Debug, Clone, Copy, PartialEq, Eq, Structural)]
pub struct Counters {
    pub sessions: u64,
    /// Connections that passed the bootstrap handshake.
    pub paths: u64,
    /// Bootstrap handshakes that were refused.
    pub auth_rejections: u64,
    /// Packets written to the host.
    pub frames_to_host: u64,
    /// Envelopes sent to clients.
    pub datagrams_to_client: u64,
    /// Envelopes that the reorder window refused.
    pub duplicates_dropped: u64,
    pub keepalives: u64,
    /// Path selections that were applied.
    pub path_selects: u64,
    /// Paths removed because their connection died.
    pub paths_evicted: u64,
    /// Health probes that were answered.
    pub probes_replied: u64,
}

impl Counters {
    pub open spec fn zero() -> Self {
        Counters {
            sessions: 0,
            paths: 0,
            auth_rejections: 0,
            frames_to_host: 0,
            datagrams_to_client: 0,
            duplicates_dropped: 0,
            keepalives: 0,
            path_selects: 0,
            paths_evicted: 0,
            probes_replied: 0,
        }
    }
}

impl Default for Counters {
    fn default() -> (counters: Self)
        ensures
            counters == Self::zero(),
    {
        Counters {
            sessions: 0,
            paths: 0,
            auth_rejections: 0,
            frames_to_host: 0,
            datagrams_to_client: 0,
            duplicates_dropped: 0,
            keepalives: 0,
            path_selects: 0,
            paths_evicted: 0,
            probes_replied: 0,
        }
    }
}

/// What a flow is known by: source, destination, protocol, and the echo
/// identifier or source port.
#[derive(Debug, Clone, Copy, PartialEq, Eq)]
pub struct FlowKey(pub [u8; 11]);

/// Bytes 12 to 20 of an IPv4 packet are its source and destination.
pub open spec fn flow_of(packet: Seq<u8>) -> Option<Seq<u8>> {
    let header = (packet[0] % 16) * 4;
    let at = identifier_at(packet);
    if packet.len() < 20 || packet[0] / 16 != 4 || packet.len() < header + 4 || packet.len() < at
        + 2 {
        None
    } else {
        Some(packet.subrange(12, 20) + seq![packet[9], packet[at], packet[at + 1]])
    }
}

/// The flow of an IPv4 packet. Echo packets are told apart by their
/// identifier, everything else by the first two bytes after the header.
pub fn parse_flow(packet: &[u8]) -> (key: Option<FlowKey>)
    ensures
        match key {
            Some(key) => flow_of(packet@) == Some(key.0@),
            None => flow_of(packet@) is None,
        },
{
    if packet.len() < 20 || packet[0] / 16 != 4 {
        return None;
    }
    let header: usize = (packet[0] % 16) as usize * 4;
    if packet.len() < header + 4 {
        return None;
    }
    let proto: u8 = packet[9];
    let at: usize = if proto == 1 {
        header + 4
    } else {
        header
    };
    if packet.len() < at + 2 {
        return None;
    }
    let key: [u8; 11] = [
        packet[12],
        packet[13],
        packet[14],
        packet[15],
        packet[16],
        packet[17],
        packet[18],
        packet[19],
        proto,
        packet[at],
        packet[at + 1],
    ];
    assert(key@ =~= packet@.subrange(12, 20) + seq![
        packet@[9],
        packet@[at as int],
        packet@[at + 1],
    ]);
    Some(FlowKey(key))
}

/// A flow seen from the other side.
pub open spec fn reversed(key: Seq<u8>) -> Seq<u8> {
    key.subrange(4, 8) + key.subrange(0, 4) + key.subrange(8, 11)
}

/// Swaps source and destination.
pub fn reverse_key(key: FlowKey) -> (reverse: FlowKey)
    ensures
        reverse.0@ == reversed(key.0@),
{
    let k = key.0;
    let reverse: [u8; 11] = [k[4], k[5], k[6], k[7], k[0], k[1], k[2], k[3], k[8], k[9], k[10]];
    assert(reverse@ =~= reversed(key.0@));
    FlowKey(reverse)
}

/// Reversing twice is nothing.
pub proof fn law_reversal_is_an_involution(key: Seq<u8>)
    requires
        key.len() == 11,
    ensures
        reversed(reversed(key)) == key,
        reversed(key).subrange(0, 4) == key.subrange(4, 8),
        reversed(key).subrange(4, 8) == key.subrange(0, 4),
        reversed(key).subrange(8, 11) == key.subrange(8, 11),
{
    assert(reversed(reversed(key)) =~= key);
    assert(reversed(key).subrange(0, 4) =~= key.subrange(4, 8));
    assert(reversed(key).subrange(4, 8) =~= key.subrange(0, 4));
    assert(reversed(key).subrange(8, 11) =~= key.subrange(8, 11));
}

/// Which session each flow belongs to.
pub struct FlowTable {
    flows: IdMap<SessionId>,
}

impl View for FlowTable {
    type V = Map<Seq<u8>, SessionId>;

    closed spec fn view(&self) -> Map<Seq<u8>, SessionId> {
        Map::new(
            |key: Seq<u8>|
                key.len() == 11 && self.flows@.contains_key(encoding::be(key) as u128),
            |key: Seq<u8>| self.flows@[encoding::be(key) as u128],
        )
    }
}

/// A flow key as a number.
fn flow_number(key: FlowKey) -> (number: u128)
    ensures
        number == encoding::be(key.0@),
{
    assert(key.0@.subrange(0, 11) =~= key.0@);
    read_be(key.0.as_slice(), 0, 11)
}

/// Flow keys are determined by their numbers.
proof fn lemma_flow_numbers(a: Seq<u8>, b: Seq<u8>)
    requires
        a.len() == 11,
        b.len() == 11,
        encoding::be(a) as u128 == encoding::be(b) as u128,
    ensures
        a == b,
{
    encoding::lemma_radix_values();
    encoding::lemma_radix_monotone(11, 16);
    encoding::lemma_be_bound(a);
    encoding::lemma_be_bound(b);
    encoding::lemma_be_injective(a, b);
}

impl FlowTable {
    pub closed spec fn wf(&self) -> bool {
        self.flows.wf()
    }

    pub fn new() -> (table: Self)
        ensures
            table.wf(),
            table@ == Map::<Seq<u8>, SessionId>::empty(),
    {
        let table = FlowTable { flows: IdMap::new() };
        assert(table@ =~= Map::<Seq<u8>, SessionId>::empty());
        table
    }

    /// Learns whose flow a key is.
    pub fn learn(&mut self, key: FlowKey, session_id: SessionId)
        requires
            old(self).wf(),
        ensures
            final(self).wf(),
            final(self)@ == old(self)@.insert(key.0@, session_id),
    {
        let number: u128 = flow_number(key);
        self.flows.insert(number, session_id);
        proof {
            let before = old(self)@;
            assert forall|k: Seq<u8>|
                self@.contains_key(k) == before.insert(key.0@, session_id).contains_key(k) by {
                if k.len() == 11 && encoding::be(k) as u128 == number {
                    lemma_flow_numbers(k, key.0@);
                }
            }
            assert forall|k: Seq<u8>| self@.contains_key(k) implies self@[k] == before.insert(
                key.0@,
                session_id,
            )[k] by {
                if encoding::be(k) as u128 == number {
                    lemma_flow_numbers(k, key.0@);
                }
            }
            assert(self@ =~= before.insert(key.0@, session_id));
        }
    }

    /// Whose flow a key is.
    pub fn lookup(&self, key: FlowKey) -> (session_id: Option<SessionId>)
        requires
            self.wf(),
        ensures
            session_id == if self@.contains_key(key.0@) {
                Some(self@[key.0@])
            } else {
                None
            },
    {
        match self.flows.get(flow_number(key)) {
            Some(session_id) => Some(*session_id),
            None => None,
        }
    }

    /// The session that a packet from the host answers: the one whose flow the
    /// packet's flow is, seen from the other side.
    pub fn route(&self, packet: &[u8]) -> (session_id: Option<SessionId>)
        requires
            self.wf(),
        ensures
            session_id == routed(self@, packet@),
    {
        let key = match parse_flow(packet) {
            Some(key) => key,
            None => {
                return None;
            },
        };
        self.lookup(answered_flow(packet, key))
    }
}

/// TCP and UDP, whose packets carry a source and a destination port.
pub open spec fn ported(protocol: u8) -> bool {
    protocol == 6 || protocol == 17
}

/// The flow that a packet answers: its own seen from the other side, with the
/// packet's destination port, where it has one, in place of the source port.
pub open spec fn answered(packet: Seq<u8>, key: Seq<u8>) -> Seq<u8> {
    if ported(packet[9]) {
        let at = (packet[0] % 16) * 4 + 2;
        reversed(key).subrange(0, 9) + seq![packet[at], packet[at + 1]]
    } else {
        reversed(key)
    }
}

/// See [`answered`].
fn answered_flow(packet: &[u8], key: FlowKey) -> (flow: FlowKey)
    requires
        flow_of(packet@) == Some(key.0@),
    ensures
        flow.0@ == answered(packet@, key.0@),
{
    let reverse = reverse_key(key);
    if packet[9] != 6 && packet[9] != 17 {
        return reverse;
    }
    let at: usize = (packet[0] % 16) as usize * 4 + 2;
    let k = reverse.0;
    let flow: [u8; 11] = [
        k[0],
        k[1],
        k[2],
        k[3],
        k[4],
        k[5],
        k[6],
        k[7],
        k[8],
        packet[at],
        packet[at + 1],
    ];
    assert(flow@ =~= answered(packet@, key.0@));
    FlowKey(flow)
}

/// See [`FlowTable::route`].
pub open spec fn routed(flows: Map<Seq<u8>, SessionId>, packet: Seq<u8>) -> Option<SessionId> {
    match flow_of(packet) {
        Some(key) => if flows.contains_key(answered(packet, key)) {
            Some(flows[answered(packet, key)])
        } else {
            None
        },
        None => None,
    }
}

/// Where the identifier of a packet is: the echo identifier, or whatever
/// follows the header.
pub open spec fn identifier_at(packet: Seq<u8>) -> int {
    (packet[0] % 16) * 4 + if packet[9] == 1 {
        4int
    } else {
        0
    }
}

/// A packet goes back the way another came: addresses swapped, the protocol
/// the same, and the ports swapped or, where there are none, the same
/// identifier.
pub open spec fn answers(reply: Seq<u8>, request: Seq<u8>) -> bool {
    let at = identifier_at(reply);
    let from = identifier_at(request);
    &&& reply.subrange(12, 16) == request.subrange(16, 20)
    &&& reply.subrange(16, 20) == request.subrange(12, 16)
    &&& reply[9] == request[9]
    &&& if ported(reply[9]) {
        &&& reply.subrange(at + 2, at + 4) == request.subrange(from, from + 2)
        &&& reply.subrange(at, at + 2) == request.subrange(from + 2, from + 4)
    } else {
        reply.subrange(at, at + 2) == request.subrange(from, from + 2)
    }
}

/// A reply finds the session that asked: once a session's packet was learnt,
/// any packet that goes back the way it came is routed to that session.
pub proof fn law_replies_find_their_session(
    flows: Map<Seq<u8>, SessionId>,
    session_id: SessionId,
    request: Seq<u8>,
    reply: Seq<u8>,
)
    requires
        flow_of(request) is Some,
        flow_of(reply) is Some,
        answers(reply, request),
    ensures
        answered(reply, flow_of(reply)->0) == flow_of(request)->0,
        routed(flows.insert(flow_of(request)->0, session_id), reply) == Some(session_id),
{
    let asked = flow_of(request)->0;
    let back = answered(reply, flow_of(reply)->0);
    let at = identifier_at(reply);
    let from = identifier_at(request);
    assert(asked.len() == 11 && back.len() == 11);
    assert forall|i: int| 0 <= i < 11 implies back[i] == asked[i] by {
        if i < 4 {
            assert(reply.subrange(16, 20)[i] == request.subrange(12, 16)[i]);
        } else if i < 8 {
            assert(reply.subrange(12, 16)[i - 4] == request.subrange(16, 20)[i - 4]);
        } else if i > 8 {
            if ported(reply[9]) {
                assert(reply.subrange(at + 2, at + 4)[i - 9] == request.subrange(from, from + 2)[i
                    - 9]);
            } else {
                assert(reply.subrange(at, at + 2)[i - 9] == request.subrange(from, from + 2)[i - 9]);
            }
        }
    }
    assert(back =~= asked);
}

/// Every IPv4 packet that reaches as far as its identifier has a flow, whatever
/// else its header says: its source, its destination, its protocol and the two
/// bytes of the identifier. Nothing else has one.
pub proof fn law_every_ipv4_packet_has_a_flow(packet: Seq<u8>)
    ensures
        flow_of(packet) is Some <==> {
            &&& packet.len() >= 20
            &&& packet[0] / 16 == 4
            &&& packet.len() >= (packet[0] % 16) * 4 + if packet[9] == 1 {
                6int
            } else {
                4int
            }
        },
        flow_of(packet) matches Some(key) ==> {
            let at = (packet[0] % 16) * 4 + if packet[9] == 1 {
                4int
            } else {
                0int
            };
            &&& key.len() == 11
            &&& forall|i: int| 0 <= i < 8 ==> key[i] == packet[12 + i]
            &&& key[8] == packet[9]
            &&& key[9] == packet[at]
            &&& key[10] == packet[at + 1]
        },
{
}

/// A packet from the host belongs to the session that its way back was learnt
/// for, and to none where it was learnt for none. The way back is from the
/// packet's destination to its source, by its protocol, with its destination
/// port under TCP and UDP, its echo identifier under ICMP, and otherwise the two
/// bytes after its header.
pub proof fn law_packets_are_routed_by_the_way_back(
    flows: Map<Seq<u8>, SessionId>,
    packet: Seq<u8>,
    back: Seq<u8>,
)
    requires
        packet.len() >= 20,
        packet[0] / 16 == 4,
        packet.len() >= (packet[0] % 16) * 4 + if packet[9] == 1 {
            6int
        } else {
            4int
        },
        back.len() == 11,
        forall|i: int| 0 <= i < 4 ==> back[i] == packet[16 + i],
        forall|i: int| 4 <= i < 8 ==> back[i] == packet[8 + i],
        back[8] == packet[9],
        ({
            let header = (packet[0] % 16) * 4;
            let at = if packet[9] == 1 {
                header + 4
            } else if packet[9] == 6 || packet[9] == 17 {
                header + 2
            } else {
                header as int
            };
            back[9] == packet[at] && back[10] == packet[at + 1]
        }),
    ensures
        routed(flows, packet) == if flows.contains_key(back) {
            Some(flows[back])
        } else {
            None::<SessionId>
        },
{
    law_every_ipv4_packet_has_a_flow(packet);
    let key = flow_of(packet)->0;
    assert(answered(packet, key) =~= back);
}

/// What cannot be a flow is routed nowhere.
pub proof fn law_only_flows_are_routed(flows: Map<Seq<u8>, SessionId>, packet: Seq<u8>)
    requires
        packet.len() < 20 || packet[0] / 16 != 4 || packet.len() < (packet[0] % 16) * 4
            + if packet[9] == 1 {
            6int
        } else {
            4int
        },
    ensures
        routed(flows, packet) is None,
{
    law_every_ipv4_packet_has_a_flow(packet);
}

/// A path of a session.
#[derive(Debug, Clone, Copy, PartialEq, Eq, Structural)]
pub struct PathId {
    pub value: u64,
}

#[derive(Debug, Clone, Copy, PartialEq, Eq, Structural)]
pub enum PacketType {
    Data,
    Duplicate,
    Control,
    Keepalive,
    Probe,
    PathStatus,
    Other,
}

/// One datagram of a path.
pub struct Envelope {
    pub version: u8,
    pub packet_type: PacketType,
    pub flags: u16,
    pub path_id: PathId,
    pub session_id: SessionId,
    pub sequence: u64,
    pub timestamp_ms: u64,
    pub payload: Bytes,
}

impl Envelope {
    /// Everything but the payload, and the payload's bytes.
    pub open spec fn parts(&self) -> (u8, PacketType, u16, PathId, SessionId, u64, u64, Seq<u8>) {
        (
            self.version,
            self.packet_type,
            self.flags,
            self.path_id,
            self.session_id,
            self.sequence,
            self.timestamp_ms,
            packet::contents(self.payload),
        )
    }
}

/// The first four bytes of a session identifier, as a number.
pub open spec fn prefix_of(session: u128) -> nat {
    session as nat / 0x1_0000_0000_0000_0000_0000_0000
}

pub fn session_prefix(id: SessionId) -> (prefix: u32)
    ensures
        prefix == prefix_of(id.key),
{
    (id.key / 0x1_0000_0000_0000_0000_0000_0000) as u32
}

/// The prefix is what the first four bytes spell.
pub proof fn law_prefix_is_the_first_four_bytes(bytes: Seq<u8>)
    requires
        bytes.len() == 16,
    ensures
        prefix_of(encoding::be(bytes) as u128) == encoding::be(bytes.subrange(0, 4)),
{
    let high = bytes.subrange(0, 4);
    let low = bytes.subrange(4, 16);
    assert(bytes =~= high + low);
    encoding::lemma_be_concat(high, low);
    encoding::lemma_be_bound(low);
    encoding::lemma_be_bound(bytes);
    encoding::lemma_radix_values();
    reveal_with_fuel(encoding::radix, 13);
    let unit = encoding::radix(12) as int;
    assert(unit == 0x1_0000_0000_0000_0000_0000_0000);
    vstd::arithmetic::div_mod::lemma_fundamental_div_mod_converse(
        encoding::be(bytes) as int,
        unit,
        encoding::be(high) as int,
        encoding::be(low) as int,
    );
}

/// The answer to the client of `init`, with an encoded control message.
pub fn control_reply(init: &Envelope, encoded: Bytes) -> (reply: Envelope)
    ensures
        reply.parts() == (
            init.version,
            PacketType::Control,
            0u16,
            init.path_id,
            init.session_id,
            init.sequence,
            init.timestamp_ms,
            packet::contents(encoded),
        ),
{
    Envelope {
        version: init.version,
        packet_type: PacketType::Control,
        flags: 0,
        path_id: init.path_id,
        session_id: init.session_id,
        sequence: init.sequence,
        timestamp_ms: init.timestamp_ms,
        payload: encoded,
    }
}

/// The answer to a health probe: the probe itself as a path status.
pub fn probe_reply(version: u8, probe: &Envelope) -> (status: Envelope)
    ensures
        status.parts() == (
            version,
            PacketType::PathStatus,
            0u16,
            probe.path_id,
            probe.session_id,
            probe.sequence,
            probe.timestamp_ms,
            probe.parts().7,
        ),
{
    Envelope {
        version,
        packet_type: PacketType::PathStatus,
        flags: 0,
        path_id: probe.path_id,
        session_id: probe.session_id,
        sequence: probe.sequence,
        timestamp_ms: probe.timestamp_ms,
        payload: clone_packet(&probe.payload),
    }
}

/// A packet from the host, wrapped for a session's active path.
pub fn downlink_envelope(
    version: u8,
    session_id: SessionId,
    path_id: PathId,
    sequence: u64,
    packet: &[u8],
) -> (envelope: Envelope)
    ensures
        envelope.parts() == (
            version,
            PacketType::Data,
            0u16,
            path_id,
            session_id,
            sequence,
            0u64,
            packet@,
        ),
{
    Envelope {
        version,
        packet_type: PacketType::Data,
        flags: 0,
        path_id,
        session_id,
        sequence,
        timestamp_ms: 0,
        payload: copy_from_slice(packet),
    }
}

/// What an init is told whose ticket was issued for another session.
pub open spec fn mismatch_text() -> Seq<char> {
    "ticket session id does not match Init sid"@
}

/// The session that an init is for: the one its ticket was issued for, where
/// that is the one it names. Otherwise why it is refused.
pub fn verify_init(sid: u32, verified: Result<SessionId, String>) -> (result: Result<
    SessionId,
    String,
>)
    ensures
        match verified {
            Err(reason) => result matches Err(said) && said == reason,
            Ok(id) => if prefix_of(id.key) == sid {
                result matches Ok(session) && session == id
            } else {
                result matches Err(said) && said@ == mismatch_text()
            },
        },
{
    match verified {
        Err(reason) => Err(reason),
        Ok(id) => if session_prefix(id) == sid {
            Ok(id)
        } else {
            Err("ticket session id does not match Init sid".to_owned())
        },
    }
}

/// The first frame of a connection.
pub enum FirstFrame {
    /// Nothing came.
    Lost,
    /// An init, with what verifying its ticket came to.
    Init { sid: u32, verified: Result<SessionId, String> },
    /// Any other control frame, or one that cannot be decoded.
    OtherControl,
    /// Anything that is no control frame.
    Traffic,
}

/// What the session said of an envelope.
#[derive(Debug, Clone, Copy, PartialEq, Eq, Structural)]
pub struct Binding {
    /// The session had no path before.
    pub new_session: bool,
    /// The path was added for this connection.
    pub path_added: bool,
    /// The reorder window took the envelope's sequence number.
    pub accepted: bool,
}

/// What to do next for a connection.
#[derive(Debug, Clone, Copy, PartialEq, Eq, Structural)]
pub enum ReaderStep {
    /// Receive the first frame.
    ReceiveFirst,
    /// Acknowledge the init.
    Acknowledge { sid: u32 },
    /// Refuse the init.
    Refuse { sid: u32 },
    /// Receive an envelope.
    Receive,
    /// Bind the envelope's path to its session, and ask its reorder window
    /// where the envelope is sequenced.
    Bind,
    /// Write the envelope's payload to the host.
    WriteToHost,
    /// Decode the envelope's payload and apply a path selection, if it is one.
    ApplyControl,
    /// Answer the envelope as a health probe.
    AnswerProbe,
    /// Remove the paths that this connection bound from their sessions.
    Evict,
    /// Nothing: the connection is done with.
    Ended,
}

/// The step after an envelope was bound.
pub open spec fn action_for(packet_type: PacketType, accepted: bool) -> ReaderStep {
    match packet_type {
        PacketType::Data | PacketType::Duplicate => if accepted {
            ReaderStep::WriteToHost
        } else {
            ReaderStep::Receive
        },
        PacketType::Control => ReaderStep::ApplyControl,
        PacketType::Probe => ReaderStep::AnswerProbe,
        _ => ReaderStep::Receive,
    }
}

/// The counters after an envelope was bound.
pub open spec fn counted_for(
    counters: Counters,
    packet_type: PacketType,
    binding: Binding,
) -> Counters {
    let counters = if binding.new_session {
        Counters { sessions: arith::counted(counters.sessions, 1), ..counters }
    } else {
        counters
    };
    match packet_type {
        PacketType::Data | PacketType::Duplicate => if binding.accepted {
            Counters { frames_to_host: arith::counted(counters.frames_to_host, 1), ..counters }
        } else {
            Counters {
                duplicates_dropped: arith::counted(counters.duplicates_dropped, 1),
                ..counters
            }
        },
        PacketType::Keepalive => Counters {
            keepalives: arith::counted(counters.keepalives, 1),
            ..counters
        },
        _ => counters,
    }
}

/// The flows after an envelope was bound.
pub open spec fn learnt(
    flows: Map<Seq<u8>, SessionId>,
    envelope: &Envelope,
    accepted: bool,
) -> Map<Seq<u8>, SessionId> {
    match (
        action_for(envelope.packet_type, accepted),
        flow_of(packet::contents(envelope.payload)),
    ) {
        (ReaderStep::WriteToHost, Some(key)) => flows.insert(key, envelope.session_id),
        _ => flows,
    }
}

/// The state of a reader.
pub struct ReaderModel {
    pub step: ReaderStep,
    /// The session that the connection was accredited for.
    pub accredited: Option<SessionId>,
    /// The paths that this connection bound.
    pub bound: Seq<(SessionId, PathId)>,
}

impl ReaderModel {
    pub open spec fn at(self, step: ReaderStep) -> Self {
        ReaderModel { step, ..self }
    }

    /// Where a connection that is lost goes: nothing is left to do where it
    /// bound nothing.
    pub open spec fn lost(self) -> Self {
        if self.bound.len() == 0 {
            self.at(ReaderStep::Ended)
        } else {
            self.at(ReaderStep::Evict)
        }
    }

    /// After the first frame.
    pub open spec fn begun(self, first: FirstFrame) -> Self {
        match first {
            FirstFrame::Lost | FirstFrame::OtherControl | FirstFrame::Traffic => self.at(
                ReaderStep::Ended,
            ),
            FirstFrame::Init { sid, verified } => if verified matches Ok(id) && prefix_of(id.key)
                == sid {
                ReaderModel {
                    accredited: Some(verified->Ok_0),
                    step: ReaderStep::Acknowledge { sid },
                    ..self
                }
            } else {
                self.at(ReaderStep::Refuse { sid })
            },
        }
    }

    /// After an envelope was received, or the connection lost.
    pub open spec fn received(self, session: Option<SessionId>) -> Self {
        match session {
            None => self.lost(),
            Some(session) => match self.accredited {
                Some(accredited) if prefix_of(session.key) == prefix_of(accredited.key) => self.at(
                    ReaderStep::Bind,
                ),
                _ => self.lost(),
            },
        }
    }

    /// After an envelope was bound.
    pub open spec fn bound_by(self, envelope: &Envelope, binding: Binding) -> Self {
        ReaderModel {
            bound: if binding.path_added {
                self.bound.push((envelope.session_id, envelope.path_id))
            } else {
                self.bound
            },
            step: action_for(envelope.packet_type, binding.accepted),
            ..self
        }
    }

    /// After what an envelope led to was done.
    pub open spec fn acted(self) -> Self {
        match self.step {
            ReaderStep::Refuse { .. } => self.at(ReaderStep::Ended),
            ReaderStep::Evict => self.at(ReaderStep::Ended),
            ReaderStep::Ended => self,
            _ => self.at(ReaderStep::Receive),
        }
    }
}

/// The counters after the first frame.
pub open spec fn counted_first(counters: Counters, first: FirstFrame) -> Counters {
    match first {
        FirstFrame::Lost | FirstFrame::OtherControl | FirstFrame::Traffic => counters,
        FirstFrame::Init { sid, verified } => if verified matches Ok(id) && prefix_of(id.key)
            == sid {
            Counters { paths: arith::counted(counters.paths, 1), ..counters }
        } else {
            Counters { auth_rejections: arith::counted(counters.auth_rejections, 1), ..counters }
        },
    }
}

/// The counters after a step was carried out, well or not.
pub open spec fn counted_act(counters: Counters, step: ReaderStep, worked: bool) -> Counters {
    match step {
        ReaderStep::ApplyControl if worked => Counters {
            path_selects: arith::counted(counters.path_selects, 1),
            ..counters
        },
        ReaderStep::AnswerProbe if worked => Counters {
            probes_replied: arith::counted(counters.probes_replied, 1),
            ..counters
        },
        _ => counters,
    }
}

/// The reader of one connection.
pub struct Reader {
    step: ReaderStep,
    accredited: Option<SessionId>,
    binds: Vec<(SessionId, PathId)>,
}

impl View for Reader {
    type V = ReaderModel;

    closed spec fn view(&self) -> ReaderModel {
        ReaderModel { step: self.step, accredited: self.accredited, bound: self.binds@ }
    }
}

impl Reader {
    pub fn new() -> (reader: Self)
        ensures
            reader@ == (ReaderModel {
                step: ReaderStep::ReceiveFirst,
                accredited: None,
                bound: Seq::empty(),
            }),
    {
        Reader { step: ReaderStep::ReceiveFirst, accredited: None, binds: Vec::new() }
    }

    pub fn step(&self) -> (step: ReaderStep)
        ensures
            step == self@.step,
    {
        self.step
    }

    /// Decides on the first frame. It must be an init whose ticket verifies
    /// for the session it names; a connection that opens with anything else is
    /// done with, and counted nowhere. Hands back why an init is refused.
    pub fn begin(&mut self, first: FirstFrame, counters: &mut Counters) -> (refusal: Option<
        String,
    >)
        ensures
            final(self)@ == old(self)@.begun(first),
            *final(counters) == counted_first(*old(counters), first),
            match first {
                FirstFrame::Init { sid, verified: Ok(id) } => if prefix_of(id.key) == sid {
                    refusal is None
                } else {
                    refusal matches Some(said) && said@ == mismatch_text()
                },
                FirstFrame::Init { sid, verified: Err(reason) } => refusal matches Some(said)
                    && said == reason,
                _ => refusal is None,
            },
    {
        match first {
            FirstFrame::Lost => {
                self.step = ReaderStep::Ended;
                None
            },
            FirstFrame::OtherControl => {
                self.step = ReaderStep::Ended;
                None
            },
            FirstFrame::Traffic => {
                self.step = ReaderStep::Ended;
                None
            },
            FirstFrame::Init { sid, verified } => match verify_init(sid, verified) {
                Ok(id) => {
                    counters.paths = count(counters.paths, 1);
                    self.accredited = Some(id);
                    self.step = ReaderStep::Acknowledge { sid };
                    None
                },
                Err(why) => {
                    counters.auth_rejections = count(counters.auth_rejections, 1);
                    self.step = ReaderStep::Refuse { sid };
                    Some(why)
                },
            },
        }
    }

    fn lose(&mut self)
        ensures
            final(self)@ == old(self)@.lost(),
    {
        self.step = if self.binds.len() == 0 {
            ReaderStep::Ended
        } else {
            ReaderStep::Evict
        };
    }

    /// Takes an envelope, or that the connection was lost. An envelope of
    /// another session than the connection was accredited for ends it, and so
    /// does any envelope where it was accredited for none.
    pub fn receive(&mut self, envelope: Option<&Envelope>)
        ensures
            final(self)@ == old(self)@.received(
                match envelope {
                    Some(envelope) => Some(envelope.session_id),
                    None => None,
                },
            ),
    {
        match envelope {
            None => {
                self.lose();
            },
            Some(envelope) => {
                let foreign = match self.accredited {
                    Some(accredited) => session_prefix(envelope.session_id) != session_prefix(
                        accredited,
                    ),
                    None => true,
                };
                if foreign {
                    self.lose();
                } else {
                    self.step = ReaderStep::Bind;
                }
            },
        }
    }

    /// Whether the reorder window is asked about an envelope at all.
    pub fn is_sequenced(envelope: &Envelope) -> (sequenced: bool)
        ensures
            sequenced == (envelope.packet_type is Data || envelope.packet_type is Duplicate),
    {
        match envelope.packet_type {
            PacketType::Data => true,
            PacketType::Duplicate => true,
            _ => false,
        }
    }

    /// Decides what an envelope leads to, given what its session said of it.
    /// What is written to the host has its flow learnt first.
    pub fn bind(
        &mut self,
        envelope: &Envelope,
        binding: Binding,
        flows: &mut FlowTable,
        counters: &mut Counters,
    )
        requires
            old(flows).wf(),
        ensures
            final(flows).wf(),
            final(self)@ == old(self)@.bound_by(envelope, binding),
            *final(counters) == counted_for(*old(counters), envelope.packet_type, binding),
            final(flows)@ == learnt(old(flows)@, envelope, binding.accepted),
    {
        if binding.path_added {
            self.binds.push((envelope.session_id, envelope.path_id));
        }
        if binding.new_session {
            counters.sessions = count(counters.sessions, 1);
        }
        self.step = match envelope.packet_type {
            PacketType::Data | PacketType::Duplicate => {
                if binding.accepted {
                    counters.frames_to_host = count(counters.frames_to_host, 1);
                    match parse_flow(as_slice(&envelope.payload)) {
                        Some(key) => {
                            flows.learn(key, envelope.session_id);
                        },
                        None => {},
                    }
                    ReaderStep::WriteToHost
                } else {
                    counters.duplicates_dropped = count(counters.duplicates_dropped, 1);
                    ReaderStep::Receive
                }
            },
            PacketType::Control => ReaderStep::ApplyControl,
            PacketType::Keepalive => {
                counters.keepalives = count(counters.keepalives, 1);
                ReaderStep::Receive
            },
            PacketType::Probe => ReaderStep::AnswerProbe,
            PacketType::PathStatus => ReaderStep::Receive,
            PacketType::Other => ReaderStep::Receive,
        };
    }

    /// What the step asked for was done, well or not.
    pub fn act(&mut self, worked: bool, counters: &mut Counters)
        ensures
            final(self)@ == old(self)@.acted(),
            *final(counters) == counted_act(*old(counters), old(self)@.step, worked),
    {
        self.step = match self.step {
            ReaderStep::Refuse { .. } => ReaderStep::Ended,
            ReaderStep::Evict => ReaderStep::Ended,
            ReaderStep::Ended => ReaderStep::Ended,
            ReaderStep::ApplyControl => {
                if worked {
                    counters.path_selects = count(counters.path_selects, 1);
                }
                ReaderStep::Receive
            },
            ReaderStep::AnswerProbe => {
                if worked {
                    counters.probes_replied = count(counters.probes_replied, 1);
                }
                ReaderStep::Receive
            },
            _ => ReaderStep::Receive,
        };
    }

    /// The paths to remove from their sessions once the connection is gone.
    pub fn evictions(&self) -> (paths: &Vec<(SessionId, PathId)>)
        ensures
            paths@ == self@.bound,
    {
        &self.binds
    }

    /// Which of those paths were still there.
    pub fn evicted(&mut self, removed: &Vec<bool>, counters: &mut Counters)
        ensures
            final(self)@ == old(self)@.at(ReaderStep::Ended),
            *final(counters) == (Counters {
                paths_evicted: arith::counted(
                    old(counters).paths_evicted,
                    arith::flagged(removed@) as int,
                ),
                ..*old(counters)
            }),
    {
        counters.paths_evicted = count(counters.paths_evicted, count_flags(removed));
        self.step = ReaderStep::Ended;
    }
}

/// Only an accredited connection binds, and it binds envelopes of its own
/// session only: any other ends it, and what it had bound is evicted.
pub proof fn law_accredited_connections_keep_to_their_session(
    reader: ReaderModel,
    session: SessionId,
)
    ensures
        reader.received(Some(session)).step is Bind ==> (reader.accredited matches Some(accredited)
            && prefix_of(session.key) == prefix_of(accredited.key)),
        !(reader.accredited matches Some(accredited) && prefix_of(session.key) == prefix_of(
            accredited.key,
        )) ==> reader.received(Some(session)) == reader.lost(),
        reader.received(Some(session)).accredited == reader.accredited,
{
}

/// A connection is accredited, and counted as a path, only by an init whose
/// ticket verified for the session that the init names. Any other first frame
/// ends it without an envelope bound.
pub proof fn law_accreditation_needs_a_verified_ticket(
    reader: ReaderModel,
    first: FirstFrame,
    counters: Counters,
)
    requires
        reader.accredited is None,
    ensures
        reader.begun(first).accredited matches Some(id) ==> (first matches FirstFrame::Init {
            sid,
            verified,
        } && verified == Ok::<SessionId, String>(id) && prefix_of(id.key) == sid),
        reader.begun(first).accredited is None ==> reader.begun(first).acted().step is Ended
            && reader.begun(first).bound == reader.bound && counted_first(counters, first).paths
            == counters.paths,
{
}

/// A lost connection leaves nothing bound behind: unless it bound nothing, its
/// paths are evicted before it is done with.
pub proof fn law_lost_connections_evict_their_paths(reader: ReaderModel)
    ensures
        reader.received(None).step is Ended ==> reader.bound.len() == 0,
        reader.received(None).bound == reader.bound,
        reader.bound.len() > 0 ==> reader.received(None).step is Evict,
{
}

/// An envelope of data, sent for the first time or again, is written to the host
/// exactly when the reorder window accepted its sequence number. It is then
/// counted as a frame to the host, and its flow is learnt for its session; else
/// it is counted as a dropped duplicate, and nothing is learnt.
pub proof fn law_accepted_data_reaches_the_host(
    reader: ReaderModel,
    envelope: &Envelope,
    binding: Binding,
    flows: Map<Seq<u8>, SessionId>,
    counters: Counters,
)
    requires
        envelope.packet_type is Data || envelope.packet_type is Duplicate,
        counters.sessions < u64::MAX,
        counters.frames_to_host < u64::MAX,
        counters.duplicates_dropped < u64::MAX,
    ensures
        binding.accepted ==> reader.bound_by(envelope, binding).step is WriteToHost,
        !binding.accepted ==> reader.bound_by(envelope, binding).step is Receive,
        counted_for(counters, envelope.packet_type, binding) == (Counters {
            sessions: (counters.sessions + if binding.new_session {
                1int
            } else {
                0
            }) as u64,
            frames_to_host: (counters.frames_to_host + if binding.accepted {
                1int
            } else {
                0
            }) as u64,
            duplicates_dropped: (counters.duplicates_dropped + if binding.accepted {
                0int
            } else {
                1
            }) as u64,
            ..counters
        }),
        ({
            let packet = packet::contents(envelope.payload);
            let header = (packet[0] % 16) * 4;
            let at = if packet[9] == 1 {
                header + 4
            } else {
                header as int
            };
            let flow = seq![
                packet[12],
                packet[13],
                packet[14],
                packet[15],
                packet[16],
                packet[17],
                packet[18],
                packet[19],
                packet[9],
                packet[at],
                packet[at + 1],
            ];
            learnt(flows, envelope, binding.accepted) == if binding.accepted && packet.len() >= 20
                && packet[0] / 16 == 4 && packet.len() >= header + 4 && packet.len() >= at + 2 {
                flows.insert(flow, envelope.session_id)
            } else {
                flows
            }
        }),
{
    let packet = packet::contents(envelope.payload);
    law_every_ipv4_packet_has_a_flow(packet);
    if flow_of(packet) is Some {
        let at = identifier_at(packet);
        assert(flow_of(packet)->0 =~= seq![
            packet[12],
            packet[13],
            packet[14],
            packet[15],
            packet[16],
            packet[17],
            packet[18],
            packet[19],
            packet[9],
            packet[at],
            packet[at + 1],
        ]);
    }
}

/// What carries no data is never written to the host and teaches no flow.
/// Control messages are applied, probes answered, and keepalives counted;
/// anything else only binds its path.
pub proof fn law_what_carries_no_data_teaches_no_flow(
    reader: ReaderModel,
    envelope: &Envelope,
    binding: Binding,
    flows: Map<Seq<u8>, SessionId>,
    counters: Counters,
)
    requires
        !(envelope.packet_type is Data || envelope.packet_type is Duplicate),
        counters.sessions < u64::MAX,
        counters.keepalives < u64::MAX,
    ensures
        reader.bound_by(envelope, binding).step == match envelope.packet_type {
            PacketType::Control => ReaderStep::ApplyControl,
            PacketType::Probe => ReaderStep::AnswerProbe,
            _ => ReaderStep::Receive,
        },
        counted_for(counters, envelope.packet_type, binding) == (Counters {
            sessions: (counters.sessions + if binding.new_session {
                1int
            } else {
                0
            }) as u64,
            keepalives: (counters.keepalives + if envelope.packet_type is Keepalive {
                1int
            } else {
                0
            }) as u64,
            ..counters
        }),
        learnt(flows, envelope, binding.accepted) == flows,
{
}

/// A reply to what a session wrote to the host comes back to that session: the
/// addresses swapped, the protocol the same, and the ports swapped under TCP and
/// UDP, else the same echo identifier or the same two bytes after the header.
pub proof fn law_replies_to_accepted_data_are_routed_back(
    flows: Map<Seq<u8>, SessionId>,
    envelope: &Envelope,
    reply: Seq<u8>,
)
    requires
        envelope.packet_type is Data || envelope.packet_type is Duplicate,
        ({
            let request = packet::contents(envelope.payload);
            let asked = (request[0] % 16) * 4;
            let came = (reply[0] % 16) * 4;
            let room = if request[9] == 1 {
                6int
            } else {
                4int
            };
            &&& request.len() >= 20 && request[0] / 16 == 4 && request.len() >= asked + room
            &&& reply.len() >= 20 && reply[0] / 16 == 4 && reply.len() >= came + room
            &&& forall|i: int| 12 <= i < 16 ==> reply[i + 4] == #[trigger] request[i]
            &&& forall|i: int| 16 <= i < 20 ==> reply[i - 4] == #[trigger] request[i]
            &&& reply[9] == request[9]
            &&& if request[9] == 1 {
                reply[came + 4] == request[asked + 4] && reply[came + 5] == request[asked + 5]
            } else if request[9] == 6 || request[9] == 17 {
                reply[came + 2] == request[asked] && reply[came + 3] == request[asked + 1]
            } else {
                reply[came as int] == request[asked as int] && reply[came + 1] == request[asked + 1]
            }
        }),
    ensures
        routed(learnt(flows, envelope, true), reply) == Some(envelope.session_id),
{
    let request = packet::contents(envelope.payload);
    law_every_ipv4_packet_has_a_flow(request);
    let flow = flow_of(request)->0;
    assert forall|i: int| 4 <= i < 8 implies flow[i] == reply[8 + i] by {
        assert(reply[8 + i] == request[12 + i]);
    }
    law_packets_are_routed_by_the_way_back(learnt(flows, envelope, true), reply, flow);
}

/// Binding adds the envelope's path to what the connection bound exactly where
/// it was added for it, and never changes whom the connection is accredited for.
pub proof fn law_added_paths_are_bound(
    reader: ReaderModel,
    envelope: &Envelope,
    binding: Binding,
)
    ensures
        binding.path_added ==> reader.bound_by(envelope, binding).bound == reader.bound + seq![
            (envelope.session_id, envelope.path_id),
        ],
        !binding.path_added ==> reader.bound_by(envelope, binding).bound == reader.bound,
        reader.bound_by(envelope, binding).accredited == reader.accredited,
{
    assert(reader.bound.push((envelope.session_id, envelope.path_id)) =~= reader.bound + seq![
        (envelope.session_id, envelope.path_id),
    ]);
}

/// An init whose ticket verified for a session with the prefix that the init
/// names is acknowledged and counted as a path. One whose ticket did not verify,
/// or verified for a session with another prefix, is refused and counted as a
/// rejection. Whatever else comes first ends the connection and is counted
/// nowhere.
pub proof fn law_first_frames_decide(reader: ReaderModel, first: FirstFrame, counters: Counters)
    requires
        counters.paths < u64::MAX,
        counters.auth_rejections < u64::MAX,
    ensures
        reader.begun(first).bound == reader.bound,
        first matches FirstFrame::Init { sid, verified: Ok(id) } ==> if sid as int
            * 0x1_0000_0000_0000_0000_0000_0000 <= id.key < (sid + 1)
            * 0x1_0000_0000_0000_0000_0000_0000 {
            &&& reader.begun(first).step == (ReaderStep::Acknowledge { sid })
            &&& reader.begun(first).accredited == Some(id)
            &&& counted_first(counters, first) == (Counters {
                paths: (counters.paths + 1) as u64,
                ..counters
            })
        } else {
            &&& reader.begun(first).step == (ReaderStep::Refuse { sid })
            &&& reader.begun(first).accredited == reader.accredited
            &&& counted_first(counters, first) == (Counters {
                auth_rejections: (counters.auth_rejections + 1) as u64,
                ..counters
            })
        },
        first matches FirstFrame::Init { sid, verified: Err(_) } ==> reader.begun(first).step == (
        ReaderStep::Refuse { sid }) && reader.begun(first).accredited == reader.accredited
            && counted_first(counters, first) == (Counters {
            auth_rejections: (counters.auth_rejections + 1) as u64,
            ..counters
        }),
        !(first is Init) ==> reader.begun(first).step is Ended && reader.begun(first).accredited
            == reader.accredited && counted_first(counters, first) == counters,
{
}

/// A connection goes on with an envelope of any session that has the prefix of
/// the one it was accredited for.
pub proof fn law_envelopes_of_the_session_are_bound(
    reader: ReaderModel,
    accredited: SessionId,
    session: SessionId,
)
    requires
        reader.accredited == Some(accredited),
        session.key / 0x1_0000_0000_0000_0000_0000_0000 == accredited.key
            / 0x1_0000_0000_0000_0000_0000_0000,
    ensures
        reader.received(Some(session)).step is Bind,
        reader.received(Some(session)).bound == reader.bound,
        reader.received(Some(session)).accredited == reader.accredited,
{
}

/// After an acknowledgement, a write, a control message or a probe, well done or
/// not, the next envelope is received. A path selection that was applied is
/// counted, and so is a probe that was answered, and nothing else. A refusal or
/// an eviction is the end.
pub proof fn law_work_goes_on(reader: ReaderModel, worked: bool, counters: Counters)
    requires
        counters.path_selects < u64::MAX,
        counters.probes_replied < u64::MAX,
    ensures
        reader.step is Acknowledge || reader.step is WriteToHost || reader.step is ApplyControl
            || reader.step is AnswerProbe ==> reader.acted().step is Receive,
        reader.step is Refuse || reader.step is Evict || reader.step is Ended
            ==> reader.acted().step is Ended,
        reader.acted().bound == reader.bound,
        reader.acted().accredited == reader.accredited,
        counted_act(counters, reader.step, worked) == (Counters {
            path_selects: (counters.path_selects + if worked && reader.step is ApplyControl {
                1int
            } else {
                0
            }) as u64,
            probes_replied: (counters.probes_replied + if worked && reader.step is AnswerProbe {
                1int
            } else {
                0
            }) as u64,
            ..counters
        }),
{
}

/// What to do with a packet that came from the host.
#[derive(Debug, Clone, Copy, PartialEq, Eq, Structural)]
pub enum DownlinkStep {
    /// Send it to the client.
    Send { session_id: SessionId, sequence: u64, path_id: PathId },
    /// Drop it: it answers no session, or one without a path.
    Drop,
}

/// Where a packet from the host goes, once its session gave out a sequence
/// number and named its active path.
pub fn downlink_step(
    session_id: Option<SessionId>,
    sequence: Option<u64>,
    active_path: Option<PathId>,
) -> (step: DownlinkStep)
    ensures
        step == match (session_id, sequence, active_path) {
            (Some(session_id), Some(sequence), Some(path_id)) => DownlinkStep::Send {
                session_id,
                sequence,
                path_id,
            },
            _ => DownlinkStep::Drop,
        },
{
    match (session_id, sequence, active_path) {
        (Some(session_id), Some(sequence), Some(path_id)) => DownlinkStep::Send {
            session_id,
            sequence,
            path_id,
        },
        _ => DownlinkStep::Drop,
    }
}

/// An envelope was sent to a client or not.
pub fn downlink_sent(sent: bool, counters: &mut Counters)
    ensures
        *final(counters) == if sent {
            Counters {
                datagrams_to_client: arith::counted(old(counters).datagrams_to_client, 1),
                ..*old(counters)
            }
        } else {
            *old(counters)
        },
{
    if sent {
        counters.datagrams_to_client = count(counters.datagrams_to_client, 1);
    }
}

/// An init is for the session of its ticket where that has the prefix that the init
/// names, and is refused otherwise; a ticket that did not verify says why itself.
pub proof fn law_inits_are_for_their_tickets(
    sid: u32,
    verified: Result<SessionId, String>,
    result: Result<SessionId, String>,
)
    requires
        call_ensures(verify_init, (sid, verified), result),
    ensures
        verified matches Ok(id) ==> (result is Ok <==> id.key
            / 0x1_0000_0000_0000_0000_0000_0000 == sid),
        result matches Ok(id) ==> verified == Ok::<SessionId, String>(id),
        verified matches Err(reason) ==> result == Err::<SessionId, String>(reason),
        verified is Ok && result is Err ==> result->Err_0@
            == "ticket session id does not match Init sid"@,
{
}

/// An answer on a control stream mirrors the init that it answers, but for its payload;
/// the answer to a probe is the probe itself, told apart only as a path status; and a
/// packet from the host is wrapped for one path of one session. None has flags.
pub proof fn law_envelopes_mirror_what_they_answer(
    init: &Envelope,
    encoded: Bytes,
    reply: Envelope,
    version: u8,
    probe: &Envelope,
    status: Envelope,
)
    requires
        call_ensures(control_reply, (init, encoded), reply),
        call_ensures(probe_reply, (version, probe), status),
    ensures
        reply.packet_type is Control,
        reply.flags == 0,
        reply.version == init.version,
        reply.path_id == init.path_id,
        reply.session_id == init.session_id,
        reply.sequence == init.sequence,
        reply.timestamp_ms == init.timestamp_ms,
        packet::contents(reply.payload) == packet::contents(encoded),
        status.packet_type is PathStatus,
        status.flags == 0,
        status.version == version,
        status.path_id == probe.path_id,
        status.session_id == probe.session_id,
        status.sequence == probe.sequence,
        status.timestamp_ms == probe.timestamp_ms,
        packet::contents(status.payload) == packet::contents(probe.payload),
{
}

/// A packet from the host goes to the session that it answers, on that session's
/// active path and under the sequence number that the session gave out, as it is.
/// Where any of these is missing it is dropped.
pub proof fn law_packets_from_the_host_are_wrapped(
    session_id: Option<SessionId>,
    sequence: Option<u64>,
    active_path: Option<PathId>,
    step: DownlinkStep,
    version: u8,
    packet: &[u8],
    envelope: Envelope,
)
    requires
        call_ensures(downlink_step, (session_id, sequence, active_path), step),
        call_ensures(
            downlink_envelope,
            (version, session_id->0, active_path->0, sequence->0, packet),
            envelope,
        ),
    ensures
        step is Send <==> session_id is Some && sequence is Some && active_path is Some,
        step matches DownlinkStep::Send { session_id: id, sequence: number, path_id } ==> session_id
            == Some(id) && sequence == Some(number) && active_path == Some(path_id)
            && envelope.session_id == id && envelope.sequence == number && envelope.path_id
            == path_id,
        envelope.packet_type is Data,
        envelope.version == version,
        envelope.flags == 0,
        envelope.timestamp_ms == 0,
        packet::contents(envelope.payload) == packet@,
{
}

/// Only data is sequenced, sent for the first time or again.
pub proof fn law_data_is_sequenced(envelope: &Envelope, sequenced: bool)
    requires
        call_ensures(Reader::is_sequenced, (envelope,), sequenced),
    ensures
        envelope.packet_type is Data || envelope.packet_type is Duplicate ==> sequenced,
        !(envelope.packet_type is Data || envelope.packet_type is Duplicate) ==> !sequenced,
{
}

/// The flow that is read from a packet is the packet's, and its reverse swaps the two
/// addresses and keeps the rest.
pub proof fn law_flows_are_read(
    packet: &[u8],
    key: Option<FlowKey>,
    reverse: FlowKey,
)
    requires
        call_ensures(parse_flow, (packet,), key),
        call_ensures(reverse_key, (key->0,), reverse),
    ensures
        key is Some <==> {
            &&& packet@.len() >= 20
            &&& packet@[0] / 16 == 4
            &&& packet@.len() >= (packet@[0] % 16) * 4 + if packet@[9] == 1 {
                6int
            } else {
                4int
            }
        },
        key matches Some(key) ==> {
            &&& forall|i: int| 0 <= i < 8 ==> key.0@[i] == packet@[12 + i]
            &&& forall|i: int| 0 <= i < 4 ==> reverse.0@[i] == packet@[16 + i]
            &&& forall|i: int| 4 <= i < 8 ==> reverse.0@[i] == packet@[8 + i]
            &&& forall|i: int| 8 <= i < 11 ==> reverse.0@[i] == key.0@[i]
        },
{
    law_every_ipv4_packet_has_a_flow(packet@);
}

/// Before its first frame a tunnel has counted nothing.
pub proof fn law_tunnels_begin_with_nothing_counted()
    ensures
        ({
            let z = Counters::zero();
            &&& z.sessions == 0
            &&& z.paths == 0
            &&& z.auth_rejections == 0
            &&& z.frames_to_host == 0
            &&& z.datagrams_to_client == 0
            &&& z.duplicates_dropped == 0
            &&& z.keepalives == 0
            &&& z.path_selects == 0
            &&& z.paths_evicted == 0
            &&& z.probes_replied == 0
        }),
{
}

} // verus!
