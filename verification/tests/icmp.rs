use etherparse::{Icmpv4Slice, Icmpv4Type, Icmpv6Slice, Icmpv6Type};
use forwarder::address::SocketAddress;
use forwarder::socket::icmp::ether_helper::IcmpSlice;
use forwarder::socket::icmp::{
    assemble_echo, craft_icmp_packet, parse_icmp_packet, IcmpSocket, NonBlockingIcmpSocket,
    V4_ECHO_REPLY, V4_ECHO_REQUEST, V6_ECHO_REPLY, V6_ECHO_REQUEST,
};
use forwarder::socket::SocketError;

const MAGIC: [u8; 3] = [0x24, 0x74, 0x33];

fn v4(port: u16) -> SocketAddress {
    SocketAddress::new_v4(127, 0, 0, 1, port)
}

fn v6(ip: u128, port: u16) -> SocketAddress {
    SocketAddress::new_v6(ip, port)
}

/// The ones-complement sum of RFC 1071 over 16-bit words, folded to 16 bits.
fn ones_complement_sum(bytes: &[u8]) -> u16 {
    let mut sum: u32 = 0;
    let mut index = 0;
    while index < bytes.len() {
        let high = bytes[index] as u32;
        let low = if index + 1 < bytes.len() { bytes[index + 1] as u32 } else { 0 };
        sum += (high << 8) | low;
        index += 2;
    }
    while sum > 0xffff {
        sum = (sum & 0xffff) + (sum >> 16);
    }
    sum as u16
}

/// A 20-byte IPv4 header for an ICMP payload of `payload_len` bytes.
fn ipv4_header(payload_len: usize) -> Vec<u8> {
    let total = (20 + payload_len) as u16;
    let mut header = vec![
        0x45, 0, (total >> 8) as u8, total as u8, 0, 0, 0, 0, 64, 1, 0, 0, 127, 0, 0, 1, 127, 0, 0,
        1,
    ];
    let sum = !ones_complement_sum(&header);
    header[10] = (sum >> 8) as u8;
    header[11] = sum as u8;
    header
}

fn raw_v4(message: &[u8]) -> Vec<u8> {
    let mut packet = ipv4_header(message.len());
    packet.extend_from_slice(message);
    packet
}

#[test]
fn echo_types_are_those_of_the_decoder() {
    assert_eq!(V4_ECHO_REQUEST, etherparse::icmpv4::TYPE_ECHO_REQUEST);
    assert_eq!(V4_ECHO_REPLY, etherparse::icmpv4::TYPE_ECHO_REPLY);
    assert_eq!(V6_ECHO_REQUEST, etherparse::icmpv6::TYPE_ECHO_REQUEST);
    assert_eq!(V6_ECHO_REPLY, etherparse::icmpv6::TYPE_ECHO_REPLY);
}

#[test]
fn crafted_v4_request_bytes() {
    let packet = craft_icmp_packet(b"hello", &v4(1010), &v4(8000), true).unwrap();
    // type 8, code 0, checksum, id 1010 = 0x03f2, seq 8000 = 0x1f40, payload
    assert_eq!(packet.len(), 13);
    assert_eq!(packet[0], 8);
    assert_eq!(packet[1], 0);
    assert_eq!(&packet[4..8], &[0x03, 0xf2, 0x1f, 0x40]);
    assert_eq!(&packet[8..], b"hello");
    // 0x0800 + 0x03f2 + 0x1f40 + "he" 0x6865 + "ll" 0x6c6c + "o\0" 0x6f00 = 0x16f03
    // folded 0x6f04, complemented 0x90fb
    assert_eq!(&packet[2..4], &[0x90, 0xfb]);
}

#[test]
fn crafted_v4_reply_swaps_the_ports_and_appends_the_tag() {
    let packet = craft_icmp_packet(b"hi", &v4(8000), &v4(1010), false).unwrap();
    assert_eq!(packet.len(), 8 + 2 + 3);
    assert_eq!(packet[0], 0);
    assert_eq!(packet[1], 0);
    // the identifier stays the port of the side that sends requests
    assert_eq!(&packet[4..8], &[0x03, 0xf2, 0x1f, 0x40]);
    assert_eq!(&packet[8..10], b"hi");
    assert_eq!(&packet[10..], &MAGIC);
}

#[test]
fn crafted_v4_checksum_sums_to_all_ones() {
    for payload in [&b""[..], b"a", b"hello", b"hello world!", &[0xffu8; 33][..]] {
        for is_request in [true, false] {
            let packet = craft_icmp_packet(payload, &v4(40000), &v4(38810), is_request).unwrap();
            assert_eq!(ones_complement_sum(&packet), 0xffff);
        }
    }
}

#[test]
fn crafted_v6_checksum_sums_to_all_ones_with_the_pseudo_header() {
    let source = v6(0xfe80_0000_0000_0000_0000_0000_0000_0001, 40000);
    let dst = v6(0x2001_0db8_0000_0000_0000_ff00_0042_8329, 38816);
    for payload in [&b""[..], b"a", b"hello", &[0x80u8; 17][..]] {
        for is_request in [true, false] {
            let packet = craft_icmp_packet(payload, &source, &dst, is_request).unwrap();
            let mut summed = Vec::new();
            summed.extend_from_slice(&0xfe80_0000_0000_0000_0000_0000_0000_0001u128.to_be_bytes());
            summed.extend_from_slice(&0x2001_0db8_0000_0000_0000_ff00_0042_8329u128.to_be_bytes());
            summed.extend_from_slice(&(packet.len() as u32).to_be_bytes());
            summed.extend_from_slice(&[0, 0, 0, 58]);
            summed.extend_from_slice(&packet);
            assert_eq!(ones_complement_sum(&summed), 0xffff);
        }
    }
}

#[test]
fn crafted_v4_echo_is_accepted_by_the_decoder() {
    let packet = craft_icmp_packet(b"hello", &v4(1010), &v4(8000), true).unwrap();
    let slice = Icmpv4Slice::from_slice(&packet).unwrap();
    let header = slice.header();
    match header.icmp_type {
        Icmpv4Type::EchoRequest(echo) => {
            assert_eq!(echo.id, 1010);
            assert_eq!(echo.seq, 8000);
        }
        _ => panic!("not an echo request"),
    }
    assert_eq!(header.checksum, header.icmp_type.calc_checksum(slice.payload()));
    assert_eq!(slice.payload(), b"hello");

    let packet = craft_icmp_packet(b"hi", &v4(8000), &v4(1010), false).unwrap();
    let slice = Icmpv4Slice::from_slice(&packet).unwrap();
    let header = slice.header();
    match header.icmp_type {
        Icmpv4Type::EchoReply(echo) => {
            assert_eq!(echo.id, 1010);
            assert_eq!(echo.seq, 8000);
        }
        _ => panic!("not an echo reply"),
    }
    assert_eq!(header.checksum, header.icmp_type.calc_checksum(slice.payload()));
}

#[test]
fn crafted_v6_echo_is_accepted_by_the_decoder() {
    let source = v6(1, 1010);
    let dst = v6(1, 8000);
    for is_request in [true, false] {
        let packet = craft_icmp_packet(b"hello", &source, &dst, is_request).unwrap();
        let slice = Icmpv6Slice::from_slice(&packet).unwrap();
        assert!(slice.is_checksum_valid(1u128.to_be_bytes(), 1u128.to_be_bytes()));
        match slice.icmp_type() {
            Icmpv6Type::EchoRequest(echo) => {
                assert!(is_request);
                assert_eq!((echo.id, echo.seq), (1010, 8000));
            }
            Icmpv6Type::EchoReply(echo) => {
                assert!(!is_request);
                assert_eq!((echo.id, echo.seq), (8000, 1010));
            }
            _ => panic!("not an echo message"),
        }
    }
}

#[test]
fn v6_checksum_depends_on_the_addresses() {
    let one = craft_icmp_packet(b"hello", &v6(1, 5), &v6(1, 6), true).unwrap();
    let other = craft_icmp_packet(b"hello", &v6(1, 5), &v6(2, 6), true).unwrap();
    assert_ne!(&one[2..4], &other[2..4]);
    assert_eq!(&one[4..], &other[4..]);
}

#[test]
fn round_trip_v6() {
    let source = v6(1, 40000);
    let dst = v6(1, 38816);
    for is_request in [true, false] {
        for payload in [&b""[..], b"hello", b"$t3", &[0u8; 1400][..]] {
            let packet = craft_icmp_packet(payload, &source, &dst, is_request).unwrap();
            let parsed = parse_icmp_packet(&packet, true).unwrap();
            assert_eq!(parsed.payload, payload);
            assert_eq!(parsed.src_port, 40000);
            assert_eq!(parsed.dst_port, 38816);
        }
    }
}

#[test]
fn round_trip_v4_behind_an_ip_header() {
    for is_request in [true, false] {
        for payload in [&b""[..], b"hello", b"hi", &[7u8; 1400][..]] {
            let message = craft_icmp_packet(payload, &v4(40000), &v4(38810), is_request).unwrap();
            let packet = raw_v4(&message);
            let parsed = parse_icmp_packet(&packet, false).unwrap();
            assert_eq!(parsed.payload, payload);
            assert_eq!(parsed.src_port, 40000);
            assert_eq!(parsed.dst_port, 38810);
        }
    }
}

#[test]
fn v4_header_with_options_is_stripped_by_its_own_length() {
    let message = craft_icmp_packet(b"hello", &v4(1), &v4(2), true).unwrap();
    let total = (24 + message.len()) as u16;
    let mut packet = vec![
        0x46, 0, (total >> 8) as u8, total as u8, 0, 0, 0, 0, 64, 1, 0, 0, 10, 0, 0, 1, 10, 0, 0,
        2, 1, 1, 1, 1,
    ];
    packet.extend_from_slice(&message);
    let parsed = parse_icmp_packet(&packet, false).unwrap();
    assert_eq!(parsed.payload, b"hello");
    assert_eq!((parsed.src_port, parsed.dst_port), (1, 2));
}

#[test]
fn v4_and_v6_read_the_same_slice() {
    let mut message = vec![128u8, 0, 0, 0, 0x12, 0x34, 0x56, 0x78];
    message.extend_from_slice(b"payload");
    let over_v6 = parse_icmp_packet(&message, true).unwrap();
    assert_eq!(over_v6.payload, b"payload");
    assert_eq!((over_v6.src_port, over_v6.dst_port), (0x1234, 0x5678));

    message[0] = 8;
    let packet = raw_v4(&message);
    let over_v4 = parse_icmp_packet(&packet, false).unwrap();
    assert_eq!(over_v4.payload, b"payload");
    assert_eq!((over_v4.src_port, over_v4.dst_port), (0x1234, 0x5678));
}

#[test]
fn v4_message_without_ip_header_is_dropped() {
    let message = craft_icmp_packet(b"hello", &v4(1), &v4(2), true).unwrap();
    assert!(parse_icmp_packet(&message, false).is_none());
}

#[test]
fn v4_packet_shorter_than_its_header_says_is_dropped() {
    let message = craft_icmp_packet(b"hello", &v4(1), &v4(2), true).unwrap();
    let mut packet = raw_v4(&message);
    // total length 1000, far beyond the 33 bytes that are there
    packet[2] = 0x03;
    packet[3] = 0xe8;
    assert!(parse_icmp_packet(&packet, false).is_none());
    // total length below the header length
    packet[2] = 0;
    packet[3] = 19;
    assert!(parse_icmp_packet(&packet, false).is_none());
    // not version 4
    let mut packet = raw_v4(&message);
    packet[0] = 0x65;
    assert!(parse_icmp_packet(&packet, false).is_none());
    // header length of four words
    packet[0] = 0x44;
    assert!(parse_icmp_packet(&packet, false).is_none());
    assert!(parse_icmp_packet(&packet[..19], false).is_none());
    assert!(parse_icmp_packet(&[], false).is_none());
}

#[test]
fn v4_message_is_the_end_of_the_packet() {
    // The header says 16 bytes of payload; the packet holds 4 bytes more
    // between header and message, which are skipped.
    let message = craft_icmp_packet(b"hello wo", &v4(3), &v4(4), true).unwrap();
    assert_eq!(message.len(), 16);
    let mut packet = ipv4_header(16);
    packet.extend_from_slice(&[9, 9, 9, 9]);
    packet.extend_from_slice(&message);
    let parsed = parse_icmp_packet(&packet, false).unwrap();
    assert_eq!(parsed.payload, b"hello wo");
    assert_eq!((parsed.src_port, parsed.dst_port), (3, 4));
}

#[test]
fn other_types_and_codes_are_dropped() {
    let mut message = craft_icmp_packet(b"hello", &v6(1, 1), &v6(1, 2), true).unwrap();
    assert!(parse_icmp_packet(&message, true).is_some());
    message[1] = 1;
    assert!(parse_icmp_packet(&message, true).is_none());
    message[1] = 0;
    message[0] = 1;
    assert!(parse_icmp_packet(&message, true).is_none());
    message[0] = 8;
    assert!(parse_icmp_packet(&message, true).is_none());
    message[0] = 128;
    assert!(parse_icmp_packet(&message[..7], true).is_none());
    assert!(parse_icmp_packet(&message[..8], true).is_some());

    let mut message = craft_icmp_packet(b"hello", &v4(1), &v4(2), true).unwrap();
    message[0] = 128;
    assert!(parse_icmp_packet(&raw_v4(&message), false).is_none());
    message[0] = 3;
    assert!(parse_icmp_packet(&raw_v4(&message), false).is_none());
    message[0] = 13;
    assert!(parse_icmp_packet(&raw_v4(&message), false).is_none());
    let timestamp = [13u8, 0, 0, 0, 0, 1, 0, 2, 0, 0, 0, 0, 0, 0, 0, 0, 0, 0, 0, 0];
    assert!(parse_icmp_packet(&raw_v4(&timestamp), false).is_none());
}

#[test]
fn reply_without_the_tag_is_dropped() {
    let mut reply = vec![129u8, 0, 0, 0, 0, 1, 0, 2];
    reply.extend_from_slice(b"hello");
    assert!(parse_icmp_packet(&reply, true).is_none());
    reply.extend_from_slice(&MAGIC);
    let parsed = parse_icmp_packet(&reply, true).unwrap();
    assert_eq!(parsed.payload, b"hello");
    // a reply carries the sender in the sequence number
    assert_eq!((parsed.src_port, parsed.dst_port), (2, 1));

    let short = [129u8, 0, 0, 0, 0, 1, 0, 2, 0x74, 0x33];
    assert!(parse_icmp_packet(&short, true).is_none());
    let only_tag = [129u8, 0, 0, 0, 0, 1, 0, 2, 0x24, 0x74, 0x33];
    assert_eq!(parse_icmp_packet(&only_tag, true).unwrap().payload, b"");
    let wrong_tag = [129u8, 0, 0, 0, 0, 1, 0, 2, 0x24, 0x74, 0x34];
    assert!(parse_icmp_packet(&wrong_tag, true).is_none());
}

#[test]
fn request_keeps_a_payload_that_ends_like_the_tag() {
    let mut request = vec![128u8, 0, 0, 0, 0, 1, 0, 2];
    request.extend_from_slice(b"abc");
    request.extend_from_slice(&MAGIC);
    let parsed = parse_icmp_packet(&request, true).unwrap();
    assert_eq!(parsed.payload, &[b'a', b'b', b'c', 0x24, 0x74, 0x33]);
    assert_eq!((parsed.src_port, parsed.dst_port), (1, 2));
}

#[test]
fn slice_reads_what_the_decoder_reads() {
    let message = [8u8, 0, 0xaa, 0xbb, 1, 2, 3, 4, 5, 6, 7];
    let slice = IcmpSlice::from_slice(false, &message).unwrap();
    assert_eq!(slice.type_u8(), 8);
    assert_eq!(slice.code_u8(), 0);
    assert_eq!(slice.bytes5to8(), [1, 2, 3, 4]);
    assert_eq!(slice.payload(), &[5, 6, 7]);
    let slice = IcmpSlice::from_slice(true, &message).unwrap();
    assert_eq!(slice.type_u8(), 8);
    assert_eq!(slice.bytes5to8(), [1, 2, 3, 4]);
    assert_eq!(slice.payload(), &[5, 6, 7]);
    assert!(IcmpSlice::from_slice(false, &message[..7]).is_none());
    assert!(IcmpSlice::from_slice(true, &message[..7]).is_none());
    // a timestamp message has twenty bytes, all of them header
    let mut timestamp = [0u8; 20];
    timestamp[0] = 14;
    assert_eq!(IcmpSlice::from_slice(false, &timestamp).unwrap().payload(), &[0u8; 0]);
    assert!(IcmpSlice::from_slice(false, &timestamp[..19]).is_none());
    assert_eq!(IcmpSlice::from_slice(true, &timestamp).unwrap().payload().len(), 12);
    timestamp[1] = 1;
    assert_eq!(IcmpSlice::from_slice(false, &timestamp[..19]).unwrap().payload().len(), 11);
}

#[test]
fn listening_socket_answers_with_replies_to_port_zero() {
    let socket = IcmpSocket::bind(&v4(38810));
    assert_eq!(socket.local_addr(), v4(38810));
    let (packet, target) = socket.send_to(b"hi", &v4(40000)).unwrap();
    assert_eq!(target, v4(0));
    assert_eq!(packet, craft_icmp_packet(b"hi", &v4(38810), &v4(40000), false).unwrap());
    assert_eq!(packet[0], 0);
    // identifier: the port of the requesting side; sequence: the local port
    assert_eq!(&packet[4..8], &[0x9c, 0x40, 0x97, 0x9a]);

    let socket = IcmpSocket::bind(&v6(1, 38816));
    let to = SocketAddress::V6 { ip: 7, port: 40000, flowinfo: 5, scope_id: 3 };
    let (packet, target) = socket.send_to(b"hi", &to).unwrap();
    assert_eq!(target, SocketAddress::V6 { ip: 7, port: 0, flowinfo: 5, scope_id: 3 });
    assert_eq!(packet[0], 129);
}

#[test]
fn listening_socket_takes_only_what_is_for_its_port() {
    let socket = IcmpSocket::bind(&v4(38810));
    let request = craft_icmp_packet(b"hello", &v4(40000), &v4(38810), true).unwrap();
    let from = v4(0);
    let raw = raw_v4(&request);
    let (payload, sender) = socket.recv_from(&raw, &from).unwrap();
    assert_eq!(payload, b"hello");
    assert_eq!(sender, v4(40000));

    let other = craft_icmp_packet(b"hello", &v4(40000), &v4(38811), true).unwrap();
    assert!(socket.recv_from(&raw_v4(&other), &from).is_none());
    assert!(socket.recv_from(&request, &from).is_none());
    assert!(socket.recv_from(b"junk", &from).is_none());
}

#[test]
fn upstream_socket_sends_requests_once_connected() {
    let mut socket = NonBlockingIcmpSocket::bind(&v4(40000));
    assert_eq!(socket.local_addr(), v4(40000));
    assert_eq!(socket.send(b"hello"), Err(SocketError::NotConnected));
    let target = socket.connect(&v4(38810));
    assert_eq!(target, v4(0));
    assert_eq!(socket.connected_addr, Some(v4(38810)));
    let packet = socket.send(b"hello").unwrap();
    assert_eq!(packet, craft_icmp_packet(b"hello", &v4(40000), &v4(38810), true).unwrap());
    assert_eq!(packet[0], 8);
    assert_eq!(&packet[4..8], &[0x9c, 0x40, 0x97, 0x9a]);
}

#[test]
fn echo_hop_carries_a_conversation() {
    // near side: upstream pseudo-socket on port 40000, connected to the far side
    let mut near = NonBlockingIcmpSocket::bind(&v4(40000));
    near.connect(&v4(38810));
    // far side: listening pseudo-socket on port 38810
    let far = IcmpSocket::bind(&v4(38810));

    let request = near.send(b"hello").unwrap();
    let raw = raw_v4(&request);
    let (payload, sender) = far.recv_from(&raw, &v4(0)).unwrap();
    assert_eq!(payload, b"hello");
    assert_eq!(sender, v4(40000));

    let (reply, _) = far.send_to(b"hi", &sender).unwrap();
    let raw = raw_v4(&reply);
    let parsed = parse_icmp_packet(&raw, false).unwrap();
    assert_eq!(parsed.payload, b"hi");
    assert_eq!(parsed.dst_port, 40000);
    assert_eq!(parsed.src_port, 38810);
}

#[test]
fn assembled_echo_bytes() {
    assert_eq!(
        assemble_echo(8, 0x90fb, 1010, 8000, b"hello"),
        [8, 0, 0x90, 0xfb, 0x03, 0xf2, 0x1f, 0x40, b'h', b'e', b'l', b'l', b'o']
    );
    assert_eq!(assemble_echo(129, 1, 0xffff, 0x0100, b""), [129, 0, 0, 1, 0xff, 0xff, 1, 0]);
    assert_eq!(
        assemble_echo(8, 0x90fb, 1010, 8000, b"hello"),
        craft_icmp_packet(b"hello", &v4(1010), &v4(8000), true).unwrap()
    );
}
