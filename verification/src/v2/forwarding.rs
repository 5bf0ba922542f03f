//! Uplink source validation: a packet is forwarded only when its source is
//! the address that its session was leased.
//!
//! Length and framing are checked before any lease is looked up. No ports are
//! read, so fragments are safe.
use super::address_pool::model::PoolModel;
use super::address_pool::{AddressPool, AssignedAddresses, LeaseStore, PoolShape};
use super::packet;
use super::packet::as_slice;
use crate::arith;
use crate::arith::count;
use crate::encoding;
use crate::encoding::{copy_range, same_bytes};
use crate::ids::SessionId;
use bytes::Bytes;
use vstd::arithmetic::power2;
use vstd::prelude::*;

verus! {

/// Smallest IPv4 packet: a header without options.
pub const MIN_PACKET_BYTES: usize = 20;

/// Smallest IPv6 packet: the fixed header.
pub const MIN_IPV6_BYTES: usize = 40;

/// Smallest maximum that a forwarder may be given.
pub const MIN_MAXIMUM_PACKET_BYTES: usize = 1_280;

/// Largest packet that IP can frame.
pub const MAX_PACKET_BYTES_HARD_CAP: usize = 65_535;

/// The source of an uplink packet.
#[derive(Debug, Clone, Copy, PartialEq, Eq)]
pub enum IpSource {
    V4([u8; 4]),
    V6([u8; 16]),
}

/// A source as its bytes.
pub enum SourceModel {
    V4(Seq<u8>),
    V6(Seq<u8>),
}

impl View for IpSource {
    type V = SourceModel;

    open spec fn view(&self) -> SourceModel {
        match self {
            IpSource::V4(bytes) => SourceModel::V4(bytes@),
            IpSource::V6(bytes) => SourceModel::V6(bytes@),
        }
    }
}

impl IpSource {
    pub fn is_v4(self) -> (is: bool)
        ensures
            is == (self is V4),
    {
        match self {
            IpSource::V4(_) => true,
            IpSource::V6(_) => false,
        }
    }

    pub fn is_v6(self) -> (is: bool)
        ensures
            is == (self is V6),
    {
        match self {
            IpSource::V4(_) => false,
            IpSource::V6(_) => true,
        }
    }
}

#[derive(Debug, Clone, Copy, PartialEq, Eq, Structural)]
pub enum ForwardError {
    Empty,
    TooLarge,
    Truncated,
    InvalidHeader,
    InvalidLength,
    UnknownVersion,
    InvalidSource,
    UnknownSession,
    SourceMismatch,
}

/// Two bytes as a number.
pub open spec fn be16(packet: Seq<u8>, at: int) -> int {
    packet[at] * 256 + packet[at + 1]
}

/// The source of an IPv4 packet that is framed as its header says.
pub open spec fn ipv4_source(packet: Seq<u8>) -> Result<SourceModel, ForwardError> {
    let header = (packet[0] % 16) * 4;
    if packet.len() < MIN_PACKET_BYTES {
        Err(ForwardError::Truncated)
    } else if header < MIN_PACKET_BYTES {
        Err(ForwardError::InvalidHeader)
    } else if packet.len() < header {
        Err(ForwardError::Truncated)
    } else if be16(packet, 2) < header || be16(packet, 2) != packet.len() {
        Err(ForwardError::InvalidLength)
    } else if encoding::be(packet.subrange(12, 16)) == 0 {
        Err(ForwardError::InvalidSource)
    } else {
        Ok(SourceModel::V4(packet.subrange(12, 16)))
    }
}

/// The source of an IPv6 packet that is framed as its header says.
pub open spec fn ipv6_source(packet: Seq<u8>) -> Result<SourceModel, ForwardError> {
    if packet.len() < MIN_IPV6_BYTES {
        Err(ForwardError::Truncated)
    } else if MIN_IPV6_BYTES + be16(packet, 4) != packet.len() {
        Err(ForwardError::InvalidLength)
    } else if encoding::be(packet.subrange(8, 24)) == 0 {
        Err(ForwardError::InvalidSource)
    } else {
        Ok(SourceModel::V6(packet.subrange(8, 24)))
    }
}

/// The source of a packet of at most `maximum` bytes.
pub open spec fn source_of(packet: Seq<u8>, maximum: usize) -> Result<SourceModel, ForwardError> {
    if packet.len() == 0 {
        Err(ForwardError::Empty)
    } else if packet.len() > maximum {
        Err(ForwardError::TooLarge)
    } else if packet[0] / 16 == 4 {
        ipv4_source(packet)
    } else if packet[0] / 16 == 6 {
        ipv6_source(packet)
    } else {
        Err(ForwardError::UnknownVersion)
    }
}

/// Whether a source may be used by the holder of a lease. The gateway's own
/// address never may.
pub open spec fn bound_to(
    source: SourceModel,
    lease: Option<AssignedAddresses>,
    gateway: nat,
) -> Result<(), ForwardError> {
    match lease {
        None => Err(ForwardError::UnknownSession),
        Some(lease) => match source {
            SourceModel::V4(bytes) => if encoding::be(bytes) != gateway && bytes == lease.ipv4@ {
                Ok(())
            } else {
                Err(ForwardError::SourceMismatch)
            },
            SourceModel::V6(bytes) => if bytes.subrange(0, 8) == lease.ipv6_prefix@.subrange(0, 8) {
                Ok(())
            } else {
                Err(ForwardError::SourceMismatch)
            },
        },
    }
}

/// The source of an IPv4 packet.
pub fn parse_ipv4_source(packet: &[u8]) -> (result: Result<IpSource, ForwardError>)
    ensures
        match ipv4_source(packet@) {
            Ok(source) => result matches Ok(found) && found@ == source,
            Err(e) => result == Err::<IpSource, ForwardError>(e),
        },
{
    if packet.len() < MIN_PACKET_BYTES {
        return Err(ForwardError::Truncated);
    }
    let header: usize = (packet[0] % 16) as usize * 4;
    if header < MIN_PACKET_BYTES {
        return Err(ForwardError::InvalidHeader);
    }
    if packet.len() < header {
        return Err(ForwardError::Truncated);
    }
    let total: usize = packet[2] as usize * 256 + packet[3] as usize;
    if total < header {
        return Err(ForwardError::InvalidLength);
    }
    if total != packet.len() {
        return Err(ForwardError::InvalidLength);
    }
    let source: [u8; 4] = [packet[12], packet[13], packet[14], packet[15]];
    assert(source@ =~= packet@.subrange(12, 16));
    if encoding::be_u32(source) == 0 {
        return Err(ForwardError::InvalidSource);
    }
    Ok(IpSource::V4(source))
}

/// The source of an IPv6 packet.
pub fn parse_ipv6_source(packet: &[u8]) -> (result: Result<IpSource, ForwardError>)
    ensures
        match ipv6_source(packet@) {
            Ok(source) => result matches Ok(found) && found@ == source,
            Err(e) => result == Err::<IpSource, ForwardError>(e),
        },
{
    if packet.len() < MIN_IPV6_BYTES {
        return Err(ForwardError::Truncated);
    }
    let payload: usize = packet[4] as usize * 256 + packet[5] as usize;
    if MIN_IPV6_BYTES + payload != packet.len() {
        return Err(ForwardError::InvalidLength);
    }
    let mut source: [u8; 16] = [0u8; 16];
    let mut i: usize = 0;
    while i < 16
        invariant
            i <= 16,
            packet@.len() >= MIN_IPV6_BYTES,
            forall|j: int| 0 <= j < i ==> source@[j] == packet@[8 + j],
        decreases 16 - i,
    {
        source[i] = packet[8 + i];
        i = i + 1;
    }
    assert(source@ =~= packet@.subrange(8, 24));
    if encoding::be_u128(source) == 0 {
        return Err(ForwardError::InvalidSource);
    }
    Ok(IpSource::V6(source))
}

/// What may be logged of an uplink: never its contents.
#[derive(Debug, Clone, Copy, PartialEq, Eq, Structural)]
pub struct UplinkSummary {
    pub packet_len: usize,
    pub is_v4: bool,
}

/// A validated uplink. Only [`UplinkForwarder::validate`] makes one, and
/// forwarding takes nothing else.
pub struct ValidatedUplink {
    session_id: SessionId,
    source: IpSource,
    packet: Bytes,
}

impl ValidatedUplink {
    /// The session, the source and the packet.
    pub closed spec fn parts(&self) -> (SessionId, SourceModel, Seq<u8>) {
        (self.session_id, self.source@, packet::contents(self.packet))
    }

    pub fn session_id(&self) -> (id: SessionId)
        ensures
            id == self.parts().0,
    {
        self.session_id
    }

    pub fn source(&self) -> (source: IpSource)
        ensures
            source@ == self.parts().1,
    {
        self.source
    }

    pub fn packet(&self) -> (packet: &Bytes)
        ensures
            packet::contents(*packet) == self.parts().2,
    {
        &self.packet
    }

    pub fn into_packet(self) -> (packet: Bytes)
        ensures
            packet::contents(packet) == self.parts().2,
    {
        self.packet
    }

    pub fn packet_len(&self) -> (len: usize)
        ensures
            len == self.parts().2.len(),
    {
        as_slice(&self.packet).len()
    }

    pub fn summary(&self) -> (summary: UplinkSummary)
        ensures
            summary.packet_len == self.parts().2.len(),
            summary.is_v4 == (self.parts().1 is V4),
    {
        UplinkSummary { packet_len: self.packet_len(), is_v4: self.source.is_v4() }
    }
}

#[derive(Debug, Clone, Copy, PartialEq, Eq, Structural)]
pub struct ForwarderSnapshot {
    pub validated: u64,
    pub parse_dropped: u64,
    pub spoof_dropped: u64,
    pub maximum_packet_bytes: usize,
}

/// Validates uplink sources against the address pool.
pub struct UplinkForwarder {
    maximum_packet_bytes: usize,
    validated: u64,
    parse_dropped: u64,
    spoof_dropped: u64,
}

impl View for UplinkForwarder {
    type V = ForwarderSnapshot;

    closed spec fn view(&self) -> ForwarderSnapshot {
        ForwarderSnapshot {
            validated: self.validated,
            parse_dropped: self.parse_dropped,
            spoof_dropped: self.spoof_dropped,
            maximum_packet_bytes: self.maximum_packet_bytes,
        }
    }
}

/// The lease that authorizes a session's payload: a committed one only.
pub open spec fn authorizing(pool: PoolModel, session: u128) -> Option<AssignedAddresses> {
    if pool.active.contains_key(session) {
        Some(pool.active[session].addresses)
    } else {
        None
    }
}

/// What becomes of an uplink packet of a session: the source to forward it
/// with, or why it is dropped.
pub open spec fn validation(
    pool: PoolModel,
    shape: PoolShape,
    maximum: usize,
    session: u128,
    packet: Seq<u8>,
) -> Result<SourceModel, ForwardError> {
    match source_of(packet, maximum) {
        Err(e) => Err(e),
        Ok(source) => match bound_to(source, authorizing(pool, session), shape.gateway) {
            Err(e) => Err(e),
            Ok(_) => Ok(source),
        },
    }
}

impl ForwarderSnapshot {
    /// After a packet was validated or dropped.
    pub open spec fn after(
        self,
        parsed: Result<SourceModel, ForwardError>,
        result: Result<SourceModel, ForwardError>,
    ) -> Self {
        if parsed is Err {
            ForwarderSnapshot { parse_dropped: arith::counted(self.parse_dropped, 1), ..self }
        } else if result is Err {
            ForwarderSnapshot { spoof_dropped: arith::counted(self.spoof_dropped, 1), ..self }
        } else {
            ForwarderSnapshot { validated: arith::counted(self.validated, 1), ..self }
        }
    }
}

impl UplinkForwarder {
    /// `InvalidLength` unless the maximum covers the smallest IPv6 link and
    /// no more than IP can frame.
    pub fn new(maximum_packet_bytes: usize) -> (result: Result<Self, ForwardError>)
        ensures
            match result {
                Ok(forwarder) => {
                    &&& MIN_MAXIMUM_PACKET_BYTES <= maximum_packet_bytes
                        <= MAX_PACKET_BYTES_HARD_CAP
                    &&& forwarder@ == (ForwarderSnapshot {
                        validated: 0,
                        parse_dropped: 0,
                        spoof_dropped: 0,
                        maximum_packet_bytes,
                    })
                },
                Err(e) => e == ForwardError::InvalidLength && !(MIN_MAXIMUM_PACKET_BYTES
                    <= maximum_packet_bytes <= MAX_PACKET_BYTES_HARD_CAP),
            },
    {
        if maximum_packet_bytes < MIN_MAXIMUM_PACKET_BYTES || maximum_packet_bytes
            > MAX_PACKET_BYTES_HARD_CAP {
            return Err(ForwardError::InvalidLength);
        }
        Ok(
            UplinkForwarder {
                maximum_packet_bytes,
                validated: 0,
                parse_dropped: 0,
                spoof_dropped: 0,
            },
        )
    }

    /// Parses a packet, binds its source to the session's committed lease, and
    /// seals the result. Anything else is dropped and counted.
    pub fn validate<S: LeaseStore>(
        &mut self,
        pool: &AddressPool<S>,
        session_id: SessionId,
        packet: Bytes,
    ) -> (result: Result<ValidatedUplink, ForwardError>)
        requires
            pool.wf(),
        ensures
            ({
                let bytes = packet::contents(packet);
                let parsed = source_of(bytes, old(self)@.maximum_packet_bytes);
                let expected = validation(
                    pool.model(),
                    pool.shape(),
                    old(self)@.maximum_packet_bytes,
                    session_id.key,
                    bytes,
                );
                &&& match expected {
                    Ok(source) => result matches Ok(uplink) && uplink.parts() == (
                        session_id,
                        source,
                        bytes,
                    ),
                    Err(e) => result == Err::<ValidatedUplink, ForwardError>(e),
                }
                &&& final(self)@ == old(self)@.after(parsed, expected)
            }),
    {
        let source = match self.parse_source(as_slice(&packet)) {
            Ok(source) => source,
            Err(e) => {
                return Err(e);
            },
        };
        let lease = match pool.lookup_active(session_id) {
            Some(lease) => lease,
            None => {
                self.spoof_dropped = count(self.spoof_dropped, 1);
                return Err(ForwardError::UnknownSession);
            },
        };
        let gateway = pool.config().ipv4_gateway();
        let bound = match source {
            IpSource::V4(bytes) => {
                proof {
                    if encoding::be(bytes@) == encoding::be(gateway@) {
                        encoding::lemma_be_injective(bytes@, gateway@);
                    }
                }
                !same_bytes(bytes.as_slice(), gateway.as_slice()) && same_bytes(
                    bytes.as_slice(),
                    lease.ipv4.as_slice(),
                )
            },
            IpSource::V6(bytes) => {
                let network = copy_range(bytes.as_slice(), 0, 8);
                let leased = copy_range(lease.ipv6_prefix.as_slice(), 0, 8);
                same_bytes(network.as_slice(), leased.as_slice())
            },
        };
        if !bound {
            self.spoof_dropped = count(self.spoof_dropped, 1);
            return Err(ForwardError::SourceMismatch);
        }
        self.validated = count(self.validated, 1);
        Ok(ValidatedUplink { session_id, source, packet })
    }

    fn parse_source(&mut self, packet: &[u8]) -> (result: Result<IpSource, ForwardError>)
        ensures
            ({
                let expected = source_of(packet@, old(self)@.maximum_packet_bytes);
                &&& match expected {
                    Ok(source) => result matches Ok(found) && found@ == source && *final(self)
                        == *old(self),
                    Err(e) => result == Err::<IpSource, ForwardError>(e) && final(self)@ == (
                    ForwarderSnapshot {
                        parse_dropped: arith::counted(old(self)@.parse_dropped, 1),
                        ..old(self)@
                    }),
                }
            }),
    {
        let result = if packet.len() == 0 {
            Err(ForwardError::Empty)
        } else if packet.len() > self.maximum_packet_bytes {
            Err(ForwardError::TooLarge)
        } else if packet[0] / 16 == 4 {
            parse_ipv4_source(packet)
        } else if packet[0] / 16 == 6 {
            parse_ipv6_source(packet)
        } else {
            Err(ForwardError::UnknownVersion)
        };
        if result.is_err() {
            self.parse_dropped = count(self.parse_dropped, 1);
        }
        result
    }

    pub fn snapshot(&self) -> (snapshot: ForwarderSnapshot)
        ensures
            snapshot == self@,
    {
        ForwarderSnapshot {
            validated: self.validated,
            parse_dropped: self.parse_dropped,
            spoof_dropped: self.spoof_dropped,
            maximum_packet_bytes: self.maximum_packet_bytes,
        }
    }
}

/// A validated packet released for the host stack.
pub struct ForwardedUplink {
    session_id: SessionId,
    source: IpSource,
    packet: Bytes,
}

impl ForwardedUplink {
    /// The session, the source and the packet.
    pub closed spec fn parts(&self) -> (SessionId, SourceModel, Seq<u8>) {
        (self.session_id, self.source@, packet::contents(self.packet))
    }

    pub fn session_id(&self) -> (id: SessionId)
        ensures
            id == self.parts().0,
    {
        self.session_id
    }

    pub fn source(&self) -> (source: IpSource)
        ensures
            source@ == self.parts().1,
    {
        self.source
    }

    pub fn packet(&self) -> (packet: &Bytes)
        ensures
            packet::contents(*packet) == self.parts().2,
    {
        &self.packet
    }

    pub fn into_packet(self) -> (packet: Bytes)
        ensures
            packet::contents(packet) == self.parts().2,
    {
        self.packet
    }

    pub fn packet_len(&self) -> (len: usize)
        ensures
            len == self.parts().2.len(),
    {
        as_slice(&self.packet).len()
    }

    pub fn summary(&self) -> (summary: UplinkSummary)
        ensures
            summary.packet_len == self.parts().2.len(),
            summary.is_v4 == (self.parts().1 is V4),
    {
        UplinkSummary { packet_len: self.packet_len(), is_v4: self.source.is_v4() }
    }
}

#[derive(Debug, Clone, Copy, PartialEq, Eq, Structural)]
pub struct SinkSnapshot {
    pub forwarded: u64,
    pub bytes_forwarded: u64,
}

/// The bytes of some packets.
pub open spec fn bytes_of(packets: Seq<Seq<u8>>) -> nat
    decreases packets.len(),
{
    if packets.len() == 0 {
        0
    } else {
        bytes_of(packets.drop_last()) + packets.last().len()
    }
}

impl SinkSnapshot {
    /// After one packet left.
    pub open spec fn emitted(self, packet: Seq<u8>) -> Self {
        SinkSnapshot {
            forwarded: arith::counted(self.forwarded, 1),
            bytes_forwarded: arith::counted(self.bytes_forwarded, packet.len() as int),
        }
    }

    /// After some packets left, one after another.
    pub open spec fn emitted_all(self, packets: Seq<Seq<u8>>) -> Self
        decreases packets.len(),
    {
        if packets.len() == 0 {
            self
        } else {
            self.emitted_all(packets.drop_last()).emitted(packets.last())
        }
    }
}

/// Where validated uplinks leave for the host stack. There is no other way
/// out: nothing here takes raw bytes and a session.
pub trait V2TunNatEgress {
    /// Packets and bytes that left.
    spec fn counts(&self) -> SinkSnapshot;

    fn emit_validated(&mut self, validated: ValidatedUplink) -> (forwarded: ForwardedUplink)
        ensures
            forwarded.parts() == validated.parts(),
            final(self).counts() == old(self).counts().emitted(validated.parts().2),
    ;

    fn egress_snapshot(&self) -> (snapshot: SinkSnapshot)
        ensures
            snapshot == self.counts(),
    ;
}

/// The egress that seals and counts.
pub struct V2ForwardingSink {
    forwarded: u64,
    bytes_forwarded: u64,
}

impl V2ForwardingSink {
    pub fn new() -> (sink: Self)
        ensures
            sink.counts() == (SinkSnapshot { forwarded: 0, bytes_forwarded: 0 }),
    {
        V2ForwardingSink { forwarded: 0, bytes_forwarded: 0 }
    }

    /// Forwards one validated uplink.
    pub fn submit(&mut self, validated: ValidatedUplink) -> (forwarded: ForwardedUplink)
        ensures
            forwarded.parts() == validated.parts(),
            final(self).counts() == old(self).counts().emitted(validated.parts().2),
    {
        let len: u64 = validated.packet_len() as u64;
        self.forwarded = count(self.forwarded, 1);
        self.bytes_forwarded = count(self.bytes_forwarded, len);
        ForwardedUplink {
            session_id: validated.session_id,
            source: validated.source,
            packet: validated.packet,
        }
    }

    pub fn snapshot(&self) -> (snapshot: SinkSnapshot)
        ensures
            snapshot == self.counts(),
    {
        SinkSnapshot { forwarded: self.forwarded, bytes_forwarded: self.bytes_forwarded }
    }
}

impl Default for V2ForwardingSink {
    fn default() -> (sink: Self)
        ensures
            sink.counts() == (SinkSnapshot { forwarded: 0, bytes_forwarded: 0 }),
    {
        Self::new()
    }
}

impl V2TunNatEgress for V2ForwardingSink {
    closed spec fn counts(&self) -> SinkSnapshot {
        SinkSnapshot { forwarded: self.forwarded, bytes_forwarded: self.bytes_forwarded }
    }

    fn emit_validated(&mut self, validated: ValidatedUplink) -> (forwarded: ForwardedUplink) {
        self.submit(validated)
    }

    fn egress_snapshot(&self) -> (snapshot: SinkSnapshot) {
        self.snapshot()
    }
}

/// A sink's totals are those of what left through it: after some packets, as
/// many more packets and as many more bytes, up to wrapping.
pub proof fn law_sink_totals_add_up(before: SinkSnapshot, packets: Seq<Seq<u8>>)
    requires
        forall|i: int| 0 <= i < packets.len() ==> (#[trigger] packets[i]).len() <= u64::MAX,
    ensures
        before.emitted_all(packets).forwarded == (before.forwarded + packets.len())
            % 0x1_0000_0000_0000_0000,
        before.emitted_all(packets).bytes_forwarded == (before.bytes_forwarded + bytes_of(packets))
            % 0x1_0000_0000_0000_0000,
    decreases packets.len(),
{
    if packets.len() > 0 {
        law_sink_totals_add_up(before, packets.drop_last());
        let last = packets.last();
        assert(packets[packets.len() - 1] == last);
        lemma_counted_wraps(before.forwarded + packets.len() - 1, 1);
        lemma_counted_wraps(
            before.bytes_forwarded + bytes_of(packets.drop_last()),
            last.len() as int,
        );
    }
}

/// Counting wraps as the total does.
proof fn lemma_counted_wraps(total: int, n: int)
    requires
        0 <= total,
        0 <= n <= u64::MAX,
    ensures
        arith::counted((total % 0x1_0000_0000_0000_0000) as u64, n) == (total + n)
            % 0x1_0000_0000_0000_0000,
{
    let m: int = 0x1_0000_0000_0000_0000;
    vstd::arithmetic::div_mod::lemma_add_mod_noop(total, n, m);
    vstd::arithmetic::div_mod::lemma_small_mod(n as nat, m as nat);
    let r = total % m;
    if r + n < m {
        vstd::arithmetic::div_mod::lemma_small_mod((r + n) as nat, m as nat);
    } else {
        vstd::arithmetic::div_mod::lemma_mod_sub_multiples_vanish(r + n, m);
        vstd::arithmetic::div_mod::lemma_small_mod((r + n - m) as nat, m as nat);
    }
}

/// What validates was sent from the lease of its session: the IPv4 host it
/// holds, which is not the gateway's, or an address in its `/64`.
pub proof fn law_validated_sources_are_leased(
    pool: PoolModel,
    shape: PoolShape,
    maximum: usize,
    session: u128,
    packet: Seq<u8>,
)
    requires
        validation(pool, shape, maximum, session, packet) is Ok,
    ensures
        pool.active.contains_key(session),
        packet.len() <= maximum,
        ({
            let lease = pool.active[session].addresses;
            match validation(pool, shape, maximum, session, packet)->Ok_0 {
                SourceModel::V4(bytes) => bytes == lease.ipv4@ && encoding::be(bytes)
                    != shape.gateway && bytes == packet.subrange(12, 16),
                SourceModel::V6(bytes) => bytes.subrange(0, 8) == lease.ipv6_prefix@.subrange(0, 8)
                    && bytes == packet.subrange(8, 24),
            }
        }),
{
}

/// An IPv4 packet is forwarded exactly where it is within the maximum, framed as
/// its header says, and sent from the host that its session was leased, which is
/// neither zero nor the gateway. Nothing else that it carries is looked at.
pub proof fn law_leased_ipv4_sources_validate(
    pool: PoolModel,
    shape: PoolShape,
    maximum: usize,
    session: u128,
    packet: Seq<u8>,
)
    requires
        packet.len() > 0,
        packet[0] / 16 == 4,
    ensures
        ({
            let header = (packet[0] % 16) * 4;
            let source = packet.subrange(12, 16);
            let leased = {
                &&& 20 <= header <= packet.len() <= maximum
                &&& packet[2] * 256 + packet[3] == packet.len()
                &&& pool.active.contains_key(session)
                &&& source == pool.active[session].addresses.ipv4@
                &&& !(packet[12] == 0 && packet[13] == 0 && packet[14] == 0 && packet[15] == 0)
                &&& packet[12] * 0x100_0000 + packet[13] * 0x1_0000 + packet[14] * 0x100
                    + packet[15] != shape.gateway
            };
            &&& leased ==> validation(pool, shape, maximum, session, packet) == Ok::<
                SourceModel,
                ForwardError,
            >(SourceModel::V4(source))
            &&& !leased ==> validation(pool, shape, maximum, session, packet) is Err
        }),
{
    if packet.len() >= 20 {
        encoding::lemma_be_of_four(packet.subrange(12, 16));
    }
}

/// An IPv6 packet is forwarded exactly where it is within the maximum, framed as
/// its header says, and sent from an address of the `/64` that its session was
/// leased, which is not all zero. The last eight bytes of that address are the
/// sender's own choice.
pub proof fn law_leased_ipv6_sources_validate(
    pool: PoolModel,
    shape: PoolShape,
    maximum: usize,
    session: u128,
    packet: Seq<u8>,
)
    requires
        packet.len() > 0,
        packet[0] / 16 == 6,
    ensures
        ({
            let source = packet.subrange(8, 24);
            let leased = {
                &&& 40 <= packet.len() <= maximum
                &&& 40 + packet[4] * 256 + packet[5] == packet.len()
                &&& pool.active.contains_key(session)
                &&& forall|i: int|
                    0 <= i < 8 ==> source[i] == pool.active[session].addresses.ipv6_prefix@[i]
                &&& exists|i: int| 0 <= i < 16 && source[i] != 0
            };
            &&& leased ==> validation(pool, shape, maximum, session, packet) == Ok::<
                SourceModel,
                ForwardError,
            >(SourceModel::V6(source))
            &&& !leased ==> validation(pool, shape, maximum, session, packet) is Err
        }),
{
    let source = packet.subrange(8, 24);
    if packet.len() >= 40 {
        encoding::lemma_be_zero(source);
        if pool.active.contains_key(session) {
            let prefix = pool.active[session].addresses.ipv6_prefix@;
            if forall|i: int| 0 <= i < 8 ==> source[i] == prefix[i] {
                assert(source.subrange(0, 8) =~= prefix.subrange(0, 8));
            }
            if source.subrange(0, 8) == prefix.subrange(0, 8) {
                assert forall|i: int| 0 <= i < 8 implies source[i] == prefix[i] by {
                    assert(source.subrange(0, 8)[i] == prefix.subrange(0, 8)[i]);
                }
            }
        }
    }
}

/// Why a packet is dropped before any lease is looked up: it is empty, over the
/// maximum, of neither version, shorter than its header, of an IPv4 header that
/// is too short to be one, of another length than its header says, or from no
/// address at all. What is wrong first in that order is what is said.
pub proof fn law_malformed_packets_say_why(packet: Seq<u8>, maximum: usize)
    ensures
        source_of(packet, maximum) is Err ==> source_of(packet, maximum)->Err_0 == {
            let version = packet[0] / 16;
            let header = if version == 4 {
                (packet[0] % 16) * 4
            } else {
                40int
            };
            if packet.len() == 0 {
                ForwardError::Empty
            } else if packet.len() > maximum {
                ForwardError::TooLarge
            } else if version != 4 && version != 6 {
                ForwardError::UnknownVersion
            } else if packet.len() < 20 || version == 6 && packet.len() < 40 {
                ForwardError::Truncated
            } else if header < 20 {
                ForwardError::InvalidHeader
            } else if packet.len() < header {
                ForwardError::Truncated
            } else if version == 4 && packet[2] * 256 + packet[3] != packet.len() || version == 6
                && 40 + packet[4] * 256 + packet[5] != packet.len() {
                ForwardError::InvalidLength
            } else {
                ForwardError::InvalidSource
            }
        },
{
}

/// Why a well-formed packet is dropped: its session holds no committed lease, or
/// the lease is of another source.
pub proof fn law_unleased_packets_say_why(
    pool: PoolModel,
    shape: PoolShape,
    maximum: usize,
    session: u128,
    packet: Seq<u8>,
)
    requires
        source_of(packet, maximum) is Ok,
        validation(pool, shape, maximum, session, packet) is Err,
    ensures
        validation(pool, shape, maximum, session, packet)->Err_0 == if pool.active.contains_key(
            session,
        ) {
            ForwardError::SourceMismatch
        } else {
            ForwardError::UnknownSession
        },
{
}

/// Every packet is counted once: as validated where it is forwarded, as spoofed
/// where only the lease was in its way, and else as malformed.
pub proof fn law_every_packet_is_counted_once(
    before: ForwarderSnapshot,
    pool: PoolModel,
    shape: PoolShape,
    session: u128,
    packet: Seq<u8>,
)
    requires
        before.validated < u64::MAX,
        before.parse_dropped < u64::MAX,
        before.spoof_dropped < u64::MAX,
    ensures
        ({
            let maximum = before.maximum_packet_bytes;
            let result = validation(pool, shape, maximum, session, packet);
            before.after(source_of(packet, maximum), result) == match result {
                Ok(_) => ForwarderSnapshot { validated: (before.validated + 1) as u64, ..before },
                Err(ForwardError::UnknownSession | ForwardError::SourceMismatch) => {
                    ForwarderSnapshot { spoof_dropped: (before.spoof_dropped + 1) as u64, ..before }
                },
                Err(_) => ForwarderSnapshot {
                    parse_dropped: (before.parse_dropped + 1) as u64,
                    ..before
                },
            }
        }),
{
}

/// No packet validates for two sessions: nobody can send from what another
/// session was leased.
pub proof fn law_sources_are_not_shared(
    pool: PoolModel,
    shape: PoolShape,
    maximum: usize,
    a: u128,
    b: u128,
    packet: Seq<u8>,
)
    requires
        shape.valid(),
        pool.wf(shape),
        a != b,
        validation(pool, shape, maximum, a, packet) is Ok,
    ensures
        validation(pool, shape, maximum, b, packet) is Err,
{
    if pool.active.contains_key(b) {
        let of_a = pool.active[a].addresses;
        let of_b = pool.active[b].addresses;
        assert(pool.live(a) && pool.live(b));
        assert(pool.pair_of(a) == Some(of_a) && pool.pair_of(b) == Some(of_b));
        let prefix_a = of_a.ipv6_prefix@;
        let prefix_b = of_b.ipv6_prefix@;
        if prefix_a.subrange(0, 8) == prefix_b.subrange(0, 8) {
            lemma_network_determines_prefix(prefix_a, prefix_b);
        }
    }
}

/// Two prefixes with nothing past their first eight bytes that share those
/// are one.
proof fn lemma_network_determines_prefix(a: Seq<u8>, b: Seq<u8>)
    requires
        a.len() == 16,
        b.len() == 16,
        a.subrange(0, 8) == b.subrange(0, 8),
        encoding::be(a) % power2::pow2(64) == 0,
        encoding::be(b) % power2::pow2(64) == 0,
    ensures
        encoding::be(a) == encoding::be(b),
{
    lemma_low_half_is_zero(a);
    lemma_low_half_is_zero(b);
}

proof fn lemma_low_half_is_zero(s: Seq<u8>)
    requires
        s.len() == 16,
        encoding::be(s) % power2::pow2(64) == 0,
    ensures
        encoding::be(s) == encoding::be(s.subrange(0, 8)) * power2::pow2(64),
{
    let high = s.subrange(0, 8);
    let low = s.subrange(8, 16);
    assert(s =~= high + low);
    encoding::lemma_be_concat(high, low);
    encoding::lemma_be_bound(low);
    encoding::lemma_radix_values();
    power2::lemma2_to64_rest();
    let unit = power2::pow2(64) as int;
    vstd::arithmetic::div_mod::lemma_mod_multiples_vanish(
        encoding::be(high) as int,
        encoding::be(low) as int,
        unit,
    );
    vstd::arithmetic::div_mod::lemma_small_mod(encoding::be(low), power2::pow2(64));
    assert(unit * encoding::be(high) == encoding::be(high) * unit) by (nonlinear_arith);
}

/// A reserved lease authorizes no payload: until it is committed, every
/// packet of its session is dropped.
pub proof fn law_reserved_leases_authorize_nothing(
    pool: PoolModel,
    shape: PoolShape,
    maximum: usize,
    session: u128,
    packet: Seq<u8>,
)
    requires
        !pool.active.contains_key(session),
    ensures
        validation(pool, shape, maximum, session, packet) is Err,
        source_of(packet, maximum) is Ok ==> validation(pool, shape, maximum, session, packet)
            == Err::<SourceModel, ForwardError>(ForwardError::UnknownSession),
{
}

/// A forwarder takes packets of up to 1,280 to 65,535 bytes, and begins with nothing
/// counted.
pub proof fn law_forwarder_maxima(
    maximum_packet_bytes: usize,
    result: Result<UplinkForwarder, ForwardError>,
)
    requires
        call_ensures(UplinkForwarder::new, (maximum_packet_bytes,), result),
    ensures
        result is Ok <==> 1_280 <= maximum_packet_bytes <= 65_535,
        result matches Ok(forwarder) ==> {
            &&& forwarder@.maximum_packet_bytes == maximum_packet_bytes
            &&& forwarder@.validated == 0
            &&& forwarder@.parse_dropped == 0
            &&& forwarder@.spoof_dropped == 0
        },
        result matches Err(e) ==> e == ForwardError::InvalidLength,
{
}

} // verus!
