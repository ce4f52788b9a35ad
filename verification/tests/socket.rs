use forwarder::address::SocketAddress;
use forwarder::bytes::{slice_head, slice_tail, u16_from_be, u16_to_be, widen};
use forwarder::socket::icmp::{craft_icmp_packet, IcmpSocket, NonBlockingIcmpSocket};
use forwarder::socket::udp::{NonBlockingUdpSocket, UdpSocket};
use forwarder::socket::{NonBlockingSocket, Socket, SocketError};
use forwarder::text::{parse_decimal, parse_group, parse_octet, split_bytes};
use forwarder::uri::Protocol;

fn v4(port: u16) -> SocketAddress {
    SocketAddress::new_v4(10, 0, 0, 1, port)
}

#[test]
fn address_from_octets() {
    assert_eq!(
        SocketAddress::new_v4(127, 0, 0, 1, 8000),
        SocketAddress::V4 { ip: 0x7f00_0001, port: 8000 }
    );
    assert_eq!(
        SocketAddress::new_v4(255, 254, 253, 252, 0),
        SocketAddress::V4 { ip: 0xfffe_fdfc, port: 0 }
    );
    assert_eq!(
        SocketAddress::new_v6(7, 9),
        SocketAddress::V6 { ip: 7, port: 9, flowinfo: 0, scope_id: 0 }
    );
}

#[test]
fn address_port_is_read_and_replaced() {
    let mut addr = v4(8000);
    assert_eq!(addr.port(), 8000);
    assert!(addr.is_ipv4());
    assert!(!addr.is_ipv6());
    assert_eq!(addr.ipv6_bits(), 0);
    addr.set_port(0);
    assert_eq!(addr, v4(0));

    let mut addr = SocketAddress::V6 { ip: 5, port: 1, flowinfo: 2, scope_id: 3 };
    assert!(addr.is_ipv6());
    assert_eq!(addr.ipv6_bits(), 5);
    addr.set_port(65535);
    assert_eq!(addr, SocketAddress::V6 { ip: 5, port: 65535, flowinfo: 2, scope_id: 3 });
}

#[test]
fn words_in_network_order() {
    assert_eq!(u16_to_be(0x1234), (0x12, 0x34));
    assert_eq!(u16_to_be(0), (0, 0));
    assert_eq!(u16_to_be(0xffff), (0xff, 0xff));
    assert_eq!(u16_from_be(0x12, 0x34), 0x1234);
    assert_eq!(u16_from_be(0xff, 0xff), 0xffff);
    for word in [0u16, 1, 255, 256, 38801, 65535] {
        let (high, low) = u16_to_be(word);
        assert_eq!([high, low], word.to_be_bytes());
        assert_eq!(u16_from_be(high, low), word);
    }
    assert_eq!(widen(65535), 65535usize);
}

#[test]
fn slices_of_slices() {
    let bytes = [1u8, 2, 3, 4];
    assert_eq!(slice_tail(&bytes, 1), &[2, 3, 4]);
    assert_eq!(slice_tail(&bytes, 4), &[0u8; 0]);
    assert_eq!(slice_head(&bytes, 3), &[1, 2, 3]);
    assert_eq!(slice_head(&bytes, 0), &[0u8; 0]);
}

#[test]
fn texts_are_split_at_every_separator() {
    assert_eq!(split_bytes(b"", b'/'), vec![b"".to_vec()]);
    assert_eq!(split_bytes(b"abc", b'/'), vec![b"abc".to_vec()]);
    assert_eq!(split_bytes(b"a/b", b'/'), vec![b"a".to_vec(), b"b".to_vec()]);
    assert_eq!(split_bytes(b"/", b'/'), vec![b"".to_vec(), b"".to_vec()]);
    assert_eq!(
        split_bytes(b"/a//b/", b'/'),
        vec![b"".to_vec(), b"a".to_vec(), b"".to_vec(), b"b".to_vec(), b"".to_vec()]
    );
}

#[test]
fn numerals() {
    assert_eq!(parse_decimal(b"0", 0xffff), Some(0));
    assert_eq!(parse_decimal(b"65535", 0xffff), Some(65535));
    assert_eq!(parse_decimal(b"65536", 0xffff), None);
    assert_eq!(parse_decimal(b"00000000000000000000065535", 0xffff), Some(65535));
    assert_eq!(parse_decimal(b"4294967295", 0xffff_ffff), Some(4294967295));
    assert_eq!(parse_decimal(b"4294967296", 0xffff_ffff), None);
    assert_eq!(parse_decimal(b"99999999999999999999999999", 0xffff_ffff), None);
    assert_eq!(parse_decimal(b"", 0xffff), None);
    assert_eq!(parse_decimal(b"12a", 0xffff), None);
    assert_eq!(parse_decimal(b"-1", 0xffff), None);

    assert_eq!(parse_octet(b"0"), Some(0));
    assert_eq!(parse_octet(b"255"), Some(255));
    assert_eq!(parse_octet(b"256"), None);
    assert_eq!(parse_octet(b"00"), None);
    assert_eq!(parse_octet(b"010"), None);
    assert_eq!(parse_octet(b"1000"), None);
    assert_eq!(parse_octet(b""), None);

    assert_eq!(parse_group(b"0"), Some(0));
    assert_eq!(parse_group(b"ffff"), Some(0xffff));
    assert_eq!(parse_group(b"FfFf"), Some(0xffff));
    assert_eq!(parse_group(b"0db8"), Some(0x0db8));
    assert_eq!(parse_group(b"a"), Some(10));
    assert_eq!(parse_group(b"00001"), None);
    assert_eq!(parse_group(b"g"), None);
    assert_eq!(parse_group(b""), None);
}

#[test]
fn datagram_socket_passes_everything_through() {
    let socket = Socket::bind(Protocol::Udp, &v4(38801));
    assert_eq!(socket, Socket::Udp(UdpSocket::bind(&v4(38801))));
    assert_eq!(socket.local_addr(), v4(38801));
    assert_eq!(socket.send_to(b"hello", &v4(5)), Ok((b"hello".to_vec(), v4(5))));
    assert_eq!(socket.send_to(b"", &v4(5)), Ok((Vec::new(), v4(5))));
    assert_eq!(socket.recv_from(b"hello", &v4(5)), Some((&b"hello"[..], v4(5))));
    assert_eq!(socket.recv_from(b"", &v4(5)), Some((&b""[..], v4(5))));
}

#[test]
fn echo_socket_frames_what_it_sends() {
    let socket = Socket::bind(Protocol::Icmp, &v4(38810));
    assert_eq!(socket, Socket::Icmp(IcmpSocket::bind(&v4(38810))));
    assert_eq!(socket.local_addr(), v4(38810));
    let (packet, target) = socket.send_to(b"hello", &v4(5)).unwrap();
    assert_eq!(packet, craft_icmp_packet(b"hello", &v4(38810), &v4(5), false).unwrap());
    assert_eq!(target, v4(0));
    assert_eq!(socket.recv_from(b"hello", &v4(5)), None);
}

#[test]
fn upstream_sockets_of_both_carriers() {
    let mut udp = NonBlockingSocket::bind(Protocol::Udp, &v4(40000));
    assert_eq!(udp, NonBlockingSocket::Udp(NonBlockingUdpSocket::bind(&v4(40000))));
    assert_eq!(udp.local_addr(), v4(40000));
    assert_eq!(udp.send(b"hello"), Ok(b"hello".to_vec()));
    assert_eq!(udp.connect(&v4(38802)), v4(38802));
    assert_eq!(udp, NonBlockingSocket::Udp(NonBlockingUdpSocket::bind(&v4(40000))));
    assert_eq!(udp.send(b"hello"), Ok(b"hello".to_vec()));

    let mut echo = NonBlockingSocket::bind(Protocol::Icmp, &v4(40000));
    assert_eq!(echo, NonBlockingSocket::Icmp(NonBlockingIcmpSocket::bind(&v4(40000))));
    assert_eq!(echo.local_addr(), v4(40000));
    assert_eq!(echo.send(b"hello"), Err(SocketError::NotConnected));
    assert_eq!(echo.connect(&v4(38810)), v4(0));
    assert_eq!(
        echo.send(b"hello"),
        Ok(craft_icmp_packet(b"hello", &v4(40000), &v4(38810), true).unwrap())
    );
}

#[test]
fn datagram_socket_inside() {
    let mut udp = NonBlockingSocket::bind(Protocol::Udp, &v4(40000));
    match udp.as_mut_udp() {
        Some(inner) => {
            assert_eq!(inner.local_addr(), v4(40000));
            assert_eq!(inner.recv(b"hello"), b"hello");
            inner.local_addr = v4(40001);
        }
        None => panic!("a datagram socket"),
    }
    assert_eq!(udp.local_addr(), v4(40001));
    let mut echo = NonBlockingSocket::bind(Protocol::Icmp, &v4(40000));
    assert!(echo.as_mut_udp().is_none());
}
