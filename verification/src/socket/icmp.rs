//! The ICMP carrier: echo framing and the pseudo-sockets built on it.
//!
//! An echo message has no ports, so the identifier and the sequence number
//! carry them. The identifier is always the port of the side that sends echo
//! requests, so that a NAT on the path, which keys on the identifier, lets the
//! replies through.

use crate::address::SocketAddress;
use crate::bytes::{
    be16, ends_with, high_byte, low_byte, slice_head, slice_tail, tail, u16_from_be, u16_to_be,
    widen, without_suffix,
};
use crate::socket::SocketError;
use ether_helper::{
    calc_icmpv4_checksum, calc_icmpv6_checksum, icmpv4_checksum, icmpv6_checksum,
    ipv4_header_accepted, ipv4_header_len, ipv4_payload_len, ipv4_total_len, IcmpSlice,
    MAX_V6_MESSAGE_LEN,
};
use vstd::prelude::*;

pub mod ether_helper;

verus! {

/// Type of an ICMPv4 echo request.
pub const V4_ECHO_REQUEST: u8 = 8;

/// Type of an ICMPv4 echo reply.
pub const V4_ECHO_REPLY: u8 = 0;

/// Type of an ICMPv6 echo request.
pub const V6_ECHO_REQUEST: u8 = 128;

/// Type of an ICMPv6 echo reply.
pub const V6_ECHO_REPLY: u8 = 129;

/// Number of bytes of an echo header.
pub const ECHO_HEADER_LEN: usize = 8;

/// Number of bytes of the tag that ends the payload of every echo reply sent here.
pub const ECHO_REPLY_MAGIC_LEN: usize = 3;

/// The tag that ends the payload of every echo reply sent here. A reply
/// without it was made by some kernel in answer to a request, and is ignored.
pub const ECHO_REPLY_MAGIC: [u8; 3] = [0x24, 0x74, 0x33];

/// The bytes of the tag.
pub open spec fn echo_reply_magic() -> Seq<u8> {
    seq![ECHO_REPLY_MAGIC[0], ECHO_REPLY_MAGIC[1], ECHO_REPLY_MAGIC[2]]
}

/// The type byte of an echo message.
pub open spec fn echo_type(is_ipv6: bool, is_echo_request: bool) -> u8 {
    if is_ipv6 {
        if is_echo_request {
            V6_ECHO_REQUEST
        } else {
            V6_ECHO_REPLY
        }
    } else {
        if is_echo_request {
            V4_ECHO_REQUEST
        } else {
            V4_ECHO_REPLY
        }
    }
}

/// What an echo message carries for the forwarder.
pub struct EchoMessage {
    pub payload: Seq<u8>,
    pub src_port: u16,
    pub dst_port: u16,
}

/// The payload as it goes on the wire: a reply gets the tag appended.
pub open spec fn framed_payload(payload: Seq<u8>, is_echo_request: bool) -> Seq<u8> {
    if is_echo_request {
        payload
    } else {
        payload + echo_reply_magic()
    }
}

/// The identifier of an echo message between two ports.
pub open spec fn echo_id(src_port: u16, dst_port: u16, is_echo_request: bool) -> u16 {
    if is_echo_request {
        src_port
    } else {
        dst_port
    }
}

/// The sequence number of an echo message between two ports.
pub open spec fn echo_seq(src_port: u16, dst_port: u16, is_echo_request: bool) -> u16 {
    if is_echo_request {
        dst_port
    } else {
        src_port
    }
}

/// Bytes five to eight of an echo message: identifier, then sequence number.
pub open spec fn echo_words(id: u16, seq: u16) -> Seq<u8> {
    seq![high_byte(id), low_byte(id), high_byte(seq), low_byte(seq)]
}

/// The eight bytes of an echo header with code 0.
pub open spec fn echo_header(message_type: u8, checksum: u16, id: u16, seq: u16) -> Seq<u8> {
    seq![message_type, 0u8, high_byte(checksum), low_byte(checksum)] + echo_words(id, seq)
}

/// The checksum of an echo message from `source` to `dst`: of the message
/// alone for IPv4, of the message after the pseudo-header for IPv6.
pub open spec fn echo_checksum(
    source: SocketAddress,
    dst: SocketAddress,
    message_type: u8,
    id: u16,
    seq: u16,
    body: Seq<u8>,
) -> u16 {
    match source {
        SocketAddress::V4 { .. } => icmpv4_checksum(message_type, 0, echo_words(id, seq), body),
        SocketAddress::V6 { ip, .. } => icmpv6_checksum(
            message_type,
            0,
            echo_words(id, seq),
            ip,
            dst.spec_ipv6_bits(),
            body,
        ),
    }
}

/// Whether a payload fits in an echo message sent from `source`. ICMPv4 sets
/// no limit of its own.
pub open spec fn craftable(payload: Seq<u8>, source: SocketAddress, is_echo_request: bool) -> bool {
    source is V6 ==> framed_payload(payload, is_echo_request).len() + ECHO_HEADER_LEN
        <= MAX_V6_MESSAGE_LEN
}

/// The echo message that carries `payload` from `source` to `dst`.
pub open spec fn crafted(
    payload: Seq<u8>,
    source: SocketAddress,
    dst: SocketAddress,
    is_echo_request: bool,
) -> Seq<u8> {
    let body = framed_payload(payload, is_echo_request);
    let id = echo_id(source.spec_port(), dst.spec_port(), is_echo_request);
    let seq = echo_seq(source.spec_port(), dst.spec_port(), is_echo_request);
    let message_type = echo_type(source is V6, is_echo_request);
    echo_header(message_type, echo_checksum(source, dst, message_type, id, seq, body), id, seq)
        + body
}

/// Where the ICMP message starts in what a raw socket delivered. An IPv6 raw
/// socket delivers the message alone. An IPv4 raw socket delivers the IP header
/// first: the message is then the last bytes of the packet, as many as the
/// header says the payload has.
pub open spec fn message_start(packet: Seq<u8>, is_ipv6: bool) -> Option<int> {
    if is_ipv6 {
        Some(0)
    } else if !ipv4_header_accepted(packet) {
        None
    } else {
        let ip_payload_len = ipv4_total_len(packet) - ipv4_header_len(packet);
        if ip_payload_len > packet.len() {
            None
        } else {
            Some(packet.len() - ip_payload_len)
        }
    }
}

/// What an ICMP message carries, if it is an echo message of this forwarder:
/// code 0, an echo type of the family, and for a reply the tag at its end,
/// which is taken off. The identifier is the source port of a request and the
/// destination port of a reply.
pub open spec fn echo_message(message: Seq<u8>, is_ipv6: bool) -> Option<EchoMessage> {
    let id = be16(message[4], message[5]);
    let seq = be16(message[6], message[7]);
    let body = tail(message, 8);
    if message.len() < ECHO_HEADER_LEN || (is_ipv6 && message.len() > MAX_V6_MESSAGE_LEN) {
        None
    } else if message[1] != 0 {
        None
    } else if message[0] == echo_type(is_ipv6, true) {
        Some(EchoMessage { payload: body, src_port: id, dst_port: seq })
    } else if message[0] == echo_type(is_ipv6, false) && ends_with(body, echo_reply_magic()) {
        Some(
            EchoMessage {
                payload: without_suffix(body, ECHO_REPLY_MAGIC_LEN as nat),
                src_port: seq,
                dst_port: id,
            },
        )
    } else {
        None
    }
}

/// What a packet from a raw socket carries for the forwarder, if anything.
pub open spec fn parsed(packet: Seq<u8>, is_ipv6: bool) -> Option<EchoMessage> {
    match message_start(packet, is_ipv6) {
        Some(start) => echo_message(tail(packet, start), is_ipv6),
        None => None,
    }
}

/// A payload with the synthetic ports it travels between.
#[derive(Debug)]
pub struct IcmpPacket<'a> {
    pub payload: &'a [u8],
    pub src_port: u16,
    pub dst_port: u16,
}

impl<'a> View for IcmpPacket<'a> {
    type V = EchoMessage;

    open spec fn view(&self) -> EchoMessage {
        EchoMessage { payload: self.payload@, src_port: self.src_port, dst_port: self.dst_port }
    }
}

/// The view of a packet that may be absent.
pub open spec fn packet_view(packet: Option<IcmpPacket<'_>>) -> Option<EchoMessage> {
    match packet {
        Some(packet) => Some(packet@),
        None => None,
    }
}

/// Whether a payload ends with the tag of an echo reply.
fn ends_with_magic(payload: &[u8]) -> (result: bool)
    ensures
        result == ends_with(payload@, echo_reply_magic()),
{
    let len = payload.len();
    if len < 3 {
        return false;
    }
    let result = payload[len - 3] == ECHO_REPLY_MAGIC[0] && payload[len - 2] == ECHO_REPLY_MAGIC[1]
        && payload[len - 1] == ECHO_REPLY_MAGIC[2];
    proof {
        let end = tail(payload@, len - 3);
        if result {
            assert(end =~= echo_reply_magic());
        } else {
            assert(end[0] == payload@[len - 3]);
            assert(end[1] == payload@[len - 2]);
            assert(end[2] == payload@[len - 1]);
        }
    }
    result
}

/// Builds the echo message that carries `payload` from `source_addr` to
/// `dst_addr`: a request, or a reply with the tag appended to the payload.
pub fn craft_icmp_packet(
    payload: &[u8],
    source_addr: &SocketAddress,
    dst_addr: &SocketAddress,
    is_echo_request: bool,
) -> (result: Result<Vec<u8>, SocketError>)
    requires
        *source_addr is V6 ==> *dst_addr is V6,
        payload@.len() + ECHO_HEADER_LEN + ECHO_REPLY_MAGIC_LEN <= usize::MAX,
    ensures
        result is Ok <==> craftable(payload@, *source_addr, is_echo_request),
        result matches Ok(packet) ==> packet@ == crafted(
            payload@,
            *source_addr,
            *dst_addr,
            is_echo_request,
        ),
        result matches Err(error) ==> error == SocketError::InvalidInput,
{
    let mut body: Vec<u8> = Vec::with_capacity(payload.len() + ECHO_REPLY_MAGIC_LEN);
    body.extend_from_slice(payload);
    if !is_echo_request {
        body.push(ECHO_REPLY_MAGIC[0]);
        body.push(ECHO_REPLY_MAGIC[1]);
        body.push(ECHO_REPLY_MAGIC[2]);
    }
    assert(body@ =~= framed_payload(payload@, is_echo_request));

    let (id, seq) = if is_echo_request {
        (source_addr.port(), dst_addr.port())
    } else {
        (dst_addr.port(), source_addr.port())
    };
    let (id_high, id_low) = u16_to_be(id);
    let (seq_high, seq_low) = u16_to_be(seq);
    let bytes5to8: [u8; 4] = [id_high, id_low, seq_high, seq_low];
    assert(bytes5to8@ =~= echo_words(id, seq));

    let (message_type, checksum) = match source_addr {
        SocketAddress::V4 { .. } => {
            let message_type = if is_echo_request {
                V4_ECHO_REQUEST
            } else {
                V4_ECHO_REPLY
            };
            (message_type, calc_icmpv4_checksum(message_type, 0, bytes5to8, body.as_slice()))
        },
        SocketAddress::V6 { ip, .. } => {
            let message_type = if is_echo_request {
                V6_ECHO_REQUEST
            } else {
                V6_ECHO_REPLY
            };
            let sum = calc_icmpv6_checksum(
                message_type,
                0,
                bytes5to8,
                *ip,
                dst_addr.ipv6_bits(),
                body.as_slice(),
            );
            match sum {
                Ok(checksum) => (message_type, checksum),
                Err(_) => {
                    return Err(SocketError::InvalidInput);
                },
            }
        },
    };
    Ok(assemble_echo(message_type, checksum, id, seq, body.as_slice()))
}

/// Puts an echo message together: the header with code 0 and the given
/// checksum, identifier and sequence number, then the body.
pub fn assemble_echo(message_type: u8, checksum: u16, id: u16, seq: u16, body: &[u8]) -> (message:
    Vec<u8>)
    requires
        body@.len() + ECHO_HEADER_LEN <= usize::MAX,
    ensures
        message@ == echo_header(message_type, checksum, id, seq) + body@,
{
    let (checksum_high, checksum_low) = u16_to_be(checksum);
    let (id_high, id_low) = u16_to_be(id);
    let (seq_high, seq_low) = u16_to_be(seq);
    let mut message: Vec<u8> = Vec::with_capacity(ECHO_HEADER_LEN + body.len());
    message.push(message_type);
    message.push(0);
    message.push(checksum_high);
    message.push(checksum_low);
    message.push(id_high);
    message.push(id_low);
    message.push(seq_high);
    message.push(seq_low);
    assert(message@ =~= echo_header(message_type, checksum, id, seq));
    message.extend_from_slice(body);
    message
}

/// Reads what a raw ICMP socket delivered: strips the IP header where the
/// family has one, accepts only echo messages with code 0, takes the ports from
/// identifier and sequence number, and checks and removes the tag of a reply.
pub fn parse_icmp_packet(packet: &[u8], is_ipv6: bool) -> (result: Option<IcmpPacket<'_>>)
    ensures
        packet_view(result) == parsed(packet@, is_ipv6),
{
    let payload_start_index = if is_ipv6 {
        0
    } else {
        let ip_payload_len = match ipv4_payload_len(packet) {
            Ok(len) => widen(len),
            Err(_) => {
                return None;
            },
        };
        if ip_payload_len > packet.len() {
            return None;
        }
        packet.len() - ip_payload_len
    };
    let message = slice_tail(packet, payload_start_index);

    let icmp = match IcmpSlice::from_slice(is_ipv6, message) {
        Some(icmp) => icmp,
        None => {
            return None;
        },
    };
    let echo_request = if is_ipv6 {
        V6_ECHO_REQUEST
    } else {
        V4_ECHO_REQUEST
    };
    let echo_reply = if is_ipv6 {
        V6_ECHO_REPLY
    } else {
        V4_ECHO_REPLY
    };
    let is_echo_request = icmp.type_u8() == echo_request;
    let is_echo_reply = icmp.type_u8() == echo_reply;
    if !(is_echo_request || is_echo_reply) || icmp.code_u8() != 0 {
        return None;
    }
    let bytes5to8 = icmp.bytes5to8();
    let id = u16_from_be(bytes5to8[0], bytes5to8[1]);
    let seq = u16_from_be(bytes5to8[2], bytes5to8[3]);
    assert(bytes5to8@[0] == message@[4] && bytes5to8@[1] == message@[5]);
    assert(bytes5to8@[2] == message@[6] && bytes5to8@[3] == message@[7]);

    let body = icmp.payload();
    assert(body@ =~= tail(message@, 8));
    let payload = if is_echo_request {
        body
    } else {
        if !ends_with_magic(body) {
            return None;
        }
        slice_head(body, body.len() - ECHO_REPLY_MAGIC_LEN)
    };
    let (src_port, dst_port) = if is_echo_reply {
        (seq, id)
    } else {
        (id, seq)
    };
    Some(IcmpPacket { payload, src_port, dst_port })
}


/// What the pseudo-socket bound to `local` makes of a packet that the raw
/// socket read from `from_addr`: the payload and the sender with its synthetic
/// port, if the packet is an echo message for the port of `local`.
pub open spec fn received(
    local: SocketAddress,
    packet: Seq<u8>,
    from_addr: SocketAddress,
) -> Option<(Seq<u8>, SocketAddress)> {
    match parsed(packet, local is V6) {
        Some(message) => if message.dst_port == local.spec_port() {
            Some((message.payload, from_addr.with_port(message.src_port)))
        } else {
            None
        },
        None => None,
    }
}

/// A datagram socket over echo messages, for the listening side: it answers
/// with echo replies.
///
/// The port is that of a real datagram socket, bound for nothing else than to
/// keep the port from other users of the host.
#[derive(Clone, Copy, Debug, PartialEq, Eq, Structural)]
pub struct IcmpSocket {
    /// The address of the reservation socket.
    pub udp_socket_addr: SocketAddress,
}

impl IcmpSocket {
    /// The pseudo-socket whose reservation socket the system bound to `addr`.
    pub fn bind(addr: &SocketAddress) -> (socket: Self)
        ensures
            socket.udp_socket_addr == *addr,
    {
        IcmpSocket { udp_socket_addr: *addr }
    }

    /// What goes to the raw socket to send `buffer` to `to`: an echo reply with
    /// the tag, and `to` with its port set to zero, which the system demands of
    /// an ICMPv6 destination.
    pub fn send_to(&self, buffer: &[u8], to: &SocketAddress) -> (result: Result<
        (Vec<u8>, SocketAddress),
        SocketError,
    >)
        requires
            self.udp_socket_addr is V6 ==> *to is V6,
            buffer@.len() + ECHO_HEADER_LEN + ECHO_REPLY_MAGIC_LEN <= usize::MAX,
        ensures
            result is Ok <==> craftable(buffer@, self.udp_socket_addr, false),
            result matches Ok((packet, target)) ==> packet@ == crafted(
                buffer@,
                self.udp_socket_addr,
                *to,
                false,
            ) && target == to.with_port(0),
            result matches Err(error) ==> error == SocketError::InvalidInput,
    {
        let packet = match craft_icmp_packet(buffer, &self.udp_socket_addr, to, false) {
            Ok(packet) => packet,
            Err(error) => {
                return Err(error);
            },
        };
        let mut to_addr = *to;
        to_addr.set_port(0);
        Ok((packet, to_addr))
    }

    /// What a packet that the raw socket read from `from_addr` holds for this
    /// socket: nothing unless it is an echo message for the local port, else
    /// the payload and the sender, whose port is the synthetic source port.
    pub fn recv_from<'a>(&self, packet: &'a [u8], from_addr: &SocketAddress) -> (result: Option<
        (&'a [u8], SocketAddress),
    >)
        ensures
            match result {
                Some((payload, sender)) => received(self.udp_socket_addr, packet@, *from_addr)
                    == Some((payload@, sender)),
                None => received(self.udp_socket_addr, packet@, *from_addr) is None,
            },
    {
        let local_addr = self.udp_socket_addr;
        let message = match parse_icmp_packet(packet, local_addr.is_ipv6()) {
            Some(message) => message,
            None => {
                return None;
            },
        };
        if message.dst_port != local_addr.port() {
            return None;
        }
        let mut sender = *from_addr;
        sender.set_port(message.src_port);
        Some((message.payload, sender))
    }

    pub fn local_addr(&self) -> (addr: SocketAddress)
        ensures
            addr == self.udp_socket_addr,
    {
        self.udp_socket_addr
    }
}

/// A datagram socket over echo messages, for the upstream side of a peer: it
/// sends echo requests to one destination.
#[derive(Clone, Copy, Debug, PartialEq, Eq, Structural)]
pub struct NonBlockingIcmpSocket {
    pub icmp_socket: IcmpSocket,
    /// The default destination, once set: the port goes into every message,
    /// and for IPv6 the address goes into the checksum.
    pub connected_addr: Option<SocketAddress>,
}

impl NonBlockingIcmpSocket {
    /// The pseudo-socket whose reservation socket the system bound to `addr`,
    /// with no default destination yet.
    pub fn bind(addr: &SocketAddress) -> (socket: Self)
        ensures
            socket.icmp_socket.udp_socket_addr == *addr,
            socket.connected_addr is None,
    {
        NonBlockingIcmpSocket { icmp_socket: IcmpSocket::bind(addr), connected_addr: None }
    }

    /// What goes to the raw socket to send `buffer` to the default
    /// destination: an echo request from the local port to the port of that
    /// destination.
    pub fn send(&self, buffer: &[u8]) -> (result: Result<Vec<u8>, SocketError>)
        requires
            self.icmp_socket.udp_socket_addr is V6 ==> (self.connected_addr matches Some(dst)
                ==> dst is V6),
            buffer@.len() + ECHO_HEADER_LEN + ECHO_REPLY_MAGIC_LEN <= usize::MAX,
        ensures
            match self.connected_addr {
                None => result == Err::<Vec<u8>, SocketError>(SocketError::NotConnected),
                Some(dst) => {
                    &&& result is Ok <==> craftable(buffer@, self.icmp_socket.udp_socket_addr, true)
                    &&& result matches Ok(packet) ==> packet@ == crafted(
                        buffer@,
                        self.icmp_socket.udp_socket_addr,
                        dst,
                        true,
                    )
                    &&& result matches Err(error) ==> error == SocketError::InvalidInput
                },
            },
    {
        let dst_addr = match self.connected_addr {
            Some(dst_addr) => dst_addr,
            None => {
                return Err(SocketError::NotConnected);
            },
        };
        craft_icmp_packet(buffer, &self.icmp_socket.udp_socket_addr, &dst_addr, true)
    }

    /// Makes `addr` the default destination. The result is the address to hand
    /// to the raw socket: `addr` with its port set to zero.
    pub fn connect(&mut self, addr: &SocketAddress) -> (target: SocketAddress)
        ensures
            final(self).connected_addr == Some(*addr),
            final(self).icmp_socket == old(self).icmp_socket,
            target == addr.with_port(0),
    {
        self.connected_addr = Some(*addr);
        let mut target = *addr;
        target.set_port(0);
        target
    }

    pub fn local_addr(&self) -> (addr: SocketAddress)
        ensures
            addr == self.icmp_socket.udp_socket_addr,
    {
        self.icmp_socket.local_addr()
    }
}


/// Whether `header` is the IPv4 header of a packet that carries `message` and
/// nothing else: a header that can be read, as long as itself says, and whose
/// total length is that of header and message together.
pub open spec fn ipv4_header_of(header: Seq<u8>, message: Seq<u8>) -> bool {
    &&& ipv4_header_accepted(header)
    &&& ipv4_header_len(header) == header.len()
    &&& ipv4_total_len(header) == header.len() + message.len()
}

/// Header stripping. What an IPv4 raw socket delivers, a header and then the
/// message, is read as the message alone, from the offset that the header
/// gives as its length. What an IPv6 raw socket delivers is the message, read
/// from offset zero. Both families read the same slice.
pub proof fn lemma_header_stripping(header: Seq<u8>, message: Seq<u8>)
    requires
        ipv4_header_of(header, message),
    ensures
        message_start(header + message, false) == Some(header.len() as int),
        tail(header + message, header.len() as int) == message,
        parsed(header + message, false) == echo_message(message, false),
        message_start(message, true) == Some(0int),
        tail(message, 0) == message,
        parsed(message, true) == echo_message(message, true),
{
    let packet = header + message;
    assert(packet[0] == header[0]);
    assert(packet[2] == header[2]);
    assert(packet[3] == header[3]);
    assert(tail(packet, header.len() as int) =~= message);
    assert(tail(message, 0) =~= message);
}

/// The bytes of a crafted echo message, one by one.
proof fn lemma_crafted_bytes(
    payload: Seq<u8>,
    source: SocketAddress,
    dst: SocketAddress,
    is_echo_request: bool,
)
    ensures
        ({
            let message = crafted(payload, source, dst, is_echo_request);
            let id = echo_id(source.spec_port(), dst.spec_port(), is_echo_request);
            let seq = echo_seq(source.spec_port(), dst.spec_port(), is_echo_request);
            &&& message.len() == 8 + framed_payload(payload, is_echo_request).len()
            &&& message[0] == echo_type(source is V6, is_echo_request)
            &&& message[1] == 0
            &&& be16(message[4], message[5]) == id
            &&& be16(message[6], message[7]) == seq
            &&& tail(message, 8) == framed_payload(payload, is_echo_request)
        }),
{
    let message = crafted(payload, source, dst, is_echo_request);
    let id = echo_id(source.spec_port(), dst.spec_port(), is_echo_request);
    let seq = echo_seq(source.spec_port(), dst.spec_port(), is_echo_request);
    crate::bytes::lemma_be16_of_bytes(id);
    crate::bytes::lemma_be16_of_bytes(seq);
    assert(message[4] == high_byte(id));
    assert(message[5] == low_byte(id));
    assert(message[6] == high_byte(seq));
    assert(message[7] == low_byte(seq));
    assert(tail(message, 8) =~= framed_payload(payload, is_echo_request));
}

/// Framing round trip. Reading a crafted echo message gives back the payload
/// and the two ports, whichever side crafted it: the tag that a reply carries
/// is checked and taken off.
pub proof fn lemma_echo_round_trip(
    payload: Seq<u8>,
    source: SocketAddress,
    dst: SocketAddress,
    is_echo_request: bool,
)
    requires
        craftable(payload, source, is_echo_request),
    ensures
        echo_message(crafted(payload, source, dst, is_echo_request), source is V6) == Some(
            EchoMessage { payload, src_port: source.spec_port(), dst_port: dst.spec_port() },
        ),
{
    lemma_crafted_bytes(payload, source, dst, is_echo_request);
    let message = crafted(payload, source, dst, is_echo_request);
    let body = framed_payload(payload, is_echo_request);
    if !is_echo_request {
        assert(tail(body, body.len() - 3) =~= echo_reply_magic());
        assert(without_suffix(body, 3) =~= payload);
    }
}

/// Framing round trip over an IPv6 raw socket, which delivers the message alone.
pub proof fn lemma_round_trip_v6(
    payload: Seq<u8>,
    source: SocketAddress,
    dst: SocketAddress,
    is_echo_request: bool,
)
    requires
        source is V6,
        craftable(payload, source, is_echo_request),
    ensures
        parsed(crafted(payload, source, dst, is_echo_request), true) == Some(
            EchoMessage { payload, src_port: source.spec_port(), dst_port: dst.spec_port() },
        ),
{
    lemma_echo_round_trip(payload, source, dst, is_echo_request);
    let message = crafted(payload, source, dst, is_echo_request);
    assert(tail(message, 0) =~= message);
}

/// Framing round trip over an IPv4 raw socket, which delivers the IP header
/// before the message.
pub proof fn lemma_round_trip_v4(
    header: Seq<u8>,
    payload: Seq<u8>,
    source: SocketAddress,
    dst: SocketAddress,
    is_echo_request: bool,
)
    requires
        source is V4,
        ipv4_header_of(header, crafted(payload, source, dst, is_echo_request)),
    ensures
        parsed(header + crafted(payload, source, dst, is_echo_request), false) == Some(
            EchoMessage { payload, src_port: source.spec_port(), dst_port: dst.spec_port() },
        ),
{
    lemma_echo_round_trip(payload, source, dst, is_echo_request);
    lemma_header_stripping(header, crafted(payload, source, dst, is_echo_request));
}


/// An echo hop delivers, over IPv6. What the upstream pseudo-socket bound to
/// `near` sends to its default destination `far` is, for the listening
/// pseudo-socket bound to `far`, the payload, sent from the address that the
/// raw socket names with the port of `near`.
pub proof fn lemma_request_is_received_v6(
    payload: Seq<u8>,
    near: SocketAddress,
    far: SocketAddress,
    from_addr: SocketAddress,
)
    requires
        near is V6,
        far is V6,
        craftable(payload, near, true),
    ensures
        received(far, crafted(payload, near, far, true), from_addr) == Some(
            (payload, from_addr.with_port(near.spec_port())),
        ),
{
    lemma_round_trip_v6(payload, near, far, true);
}

/// An echo hop delivers, over IPv4, where the raw socket delivers the IP
/// header before the message.
pub proof fn lemma_request_is_received_v4(
    header: Seq<u8>,
    payload: Seq<u8>,
    near: SocketAddress,
    far: SocketAddress,
    from_addr: SocketAddress,
)
    requires
        near is V4,
        far is V4,
        ipv4_header_of(header, crafted(payload, near, far, true)),
    ensures
        received(far, header + crafted(payload, near, far, true), from_addr) == Some(
            (payload, from_addr.with_port(near.spec_port())),
        ),
{
    lemma_round_trip_v4(header, payload, near, far, true);
}

} // verus!
