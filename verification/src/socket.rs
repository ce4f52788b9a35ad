//! The two carriers behind one narrow surface.
//!
//! A socket here is what the forwarder knows of a socket of the system: the
//! address it is bound to and, for the echo carrier, its default destination.
//! Its methods say what goes to the system for a datagram to send, and what a
//! datagram that came from the system holds. Reading and writing is the
//! caller's part.

use crate::address::SocketAddress;
use crate::uri::{Protocol, Uri};
use icmp::{craftable, crafted, received, IcmpSocket, NonBlockingIcmpSocket};
use udp::{NonBlockingUdpSocket, UdpSocket};
use vstd::prelude::*;
use vstd::slice::slice_to_vec;

pub mod icmp;
pub mod udp;

verus! {

/// The carrier of a socket.
pub type SocketProtocol = Protocol;

/// The endpoint of a socket.
pub type SocketUri = Uri;

/// Why a pseudo-socket could not build a datagram.
#[derive(Clone, Copy, Debug, PartialEq, Eq, Structural)]
pub enum SocketError {
    /// `send` on a socket whose default destination was never set.
    NotConnected,
    /// The payload is too large for the carrier.
    InvalidInput,
}

/// Largest payload for which the length of a framed datagram is sure to fit in `usize`.
pub open spec fn max_payload_len() -> int {
    usize::MAX - 11
}

/// The listening socket of a forwarder, on either carrier.
#[derive(Clone, Copy, Debug, PartialEq, Eq, Structural)]
pub enum Socket {
    Udp(UdpSocket),
    Icmp(IcmpSocket),
}

impl Socket {
    /// The address that the socket is bound to.
    pub open spec fn spec_local_addr(&self) -> SocketAddress {
        match *self {
            Socket::Udp(inner) => inner.local_addr,
            Socket::Icmp(inner) => inner.udp_socket_addr,
        }
    }

    /// What goes on the wire for `buffer` sent to `to`, and to which address
    /// of the system: the datagram itself on the DGRAM carrier, an echo reply
    /// to port zero on the echo carrier.
    pub open spec fn sent_to(&self, buffer: Seq<u8>, to: SocketAddress) -> Option<
        (Seq<u8>, SocketAddress),
    > {
        match *self {
            Socket::Udp(_) => Some((buffer, to)),
            Socket::Icmp(inner) => if craftable(buffer, inner.udp_socket_addr, false) {
                Some((crafted(buffer, inner.udp_socket_addr, to, false), to.with_port(0)))
            } else {
                None
            },
        }
    }

    /// What a datagram read from the system holds: itself on the DGRAM
    /// carrier, the payload of an echo message for the local port on the echo
    /// carrier.
    pub open spec fn received_from(&self, datagram: Seq<u8>, from_addr: SocketAddress) -> Option<
        (Seq<u8>, SocketAddress),
    > {
        match *self {
            Socket::Udp(_) => Some((datagram, from_addr)),
            Socket::Icmp(inner) => received(inner.udp_socket_addr, datagram, from_addr),
        }
    }

    /// Whether a datagram can be built for `to`: always on the DGRAM carrier;
    /// on the echo carrier an IPv6 socket reaches IPv6 addresses only, whose
    /// bits go into the checksum.
    pub open spec fn reaches(&self, to: SocketAddress) -> bool {
        self.spec_local_addr() is V6 && *self is Icmp ==> to is V6
    }

    /// Whether a datagram can be built for `to`.
    pub fn can_send_to(&self, to: &SocketAddress) -> (result: bool)
        ensures
            result == self.reaches(*to),
    {
        match self {
            Socket::Udp(_) => true,
            Socket::Icmp(inner) => !inner.local_addr().is_ipv6() || to.is_ipv6(),
        }
    }

    /// The socket of carrier `protocol` that the system bound to `addr`.
    pub fn bind(protocol: Protocol, addr: &SocketAddress) -> (socket: Self)
        ensures
            socket.spec_local_addr() == *addr,
            socket is Udp <==> protocol is Udp,
    {
        match protocol {
            Protocol::Udp => Socket::Udp(UdpSocket::bind(addr)),
            Protocol::Icmp => Socket::Icmp(IcmpSocket::bind(addr)),
        }
    }

    /// What a datagram that the system read from `from_addr` holds for the
    /// forwarder: the payload and its sender, or nothing where the datagram is
    /// not for this socket.
    pub fn recv_from<'a>(&self, datagram: &'a [u8], from_addr: &SocketAddress) -> (result: Option<
        (&'a [u8], SocketAddress),
    >)
        ensures
            match result {
                Some((payload, sender)) => self.received_from(datagram@, *from_addr) == Some(
                    (payload@, sender),
                ),
                None => self.received_from(datagram@, *from_addr) is None,
            },
    {
        match self {
            Socket::Udp(inner) => Some(inner.recv_from(datagram, from_addr)),
            Socket::Icmp(inner) => inner.recv_from(datagram, from_addr),
        }
    }

    /// What to hand to the system to send `buffer` to `to`: the bytes and the
    /// destination.
    pub fn send_to(&self, buffer: &[u8], to: &SocketAddress) -> (result: Result<
        (Vec<u8>, SocketAddress),
        SocketError,
    >)
        requires
            self.reaches(*to),
            buffer@.len() <= max_payload_len(),
        ensures
            match self.sent_to(buffer@, *to) {
                Some((bytes, target)) => result matches Ok((packet, addr)) && packet@ == bytes
                    && addr == target,
                None => result == Err::<(Vec<u8>, SocketAddress), SocketError>(
                    SocketError::InvalidInput,
                ),
            },
    {
        match self {
            Socket::Udp(inner) => {
                let (bytes, target) = inner.send_to(buffer, to);
                Ok((slice_to_vec(bytes), target))
            },
            Socket::Icmp(inner) => inner.send_to(buffer, to),
        }
    }

    #[verifier::when_used_as_spec(spec_local_addr)]
    pub fn local_addr(&self) -> (addr: SocketAddress)
        ensures
            addr == self.spec_local_addr(),
    {
        match self {
            Socket::Udp(inner) => inner.local_addr(),
            Socket::Icmp(inner) => inner.local_addr(),
        }
    }
}

/// The upstream socket of a peer, on either carrier.
#[derive(Clone, Copy, Debug, PartialEq, Eq, Structural)]
pub enum NonBlockingSocket {
    Udp(NonBlockingUdpSocket),
    Icmp(NonBlockingIcmpSocket),
}

impl NonBlockingSocket {
    /// The address that the socket is bound to.
    pub open spec fn spec_local_addr(&self) -> SocketAddress {
        match *self {
            NonBlockingSocket::Udp(inner) => inner.local_addr,
            NonBlockingSocket::Icmp(inner) => inner.icmp_socket.udp_socket_addr,
        }
    }

    /// The port that the socket is bound to.
    pub open spec fn spec_local_port(&self) -> u16 {
        self.spec_local_addr().spec_port()
    }

    /// Whether a datagram can be built for the default destination: always on
    /// the DGRAM carrier, where the system keeps the destination; on the echo
    /// carrier once the destination is set, and of the family of the socket.
    pub open spec fn sendable(&self) -> bool {
        match *self {
            NonBlockingSocket::Udp(_) => true,
            NonBlockingSocket::Icmp(inner) => inner.icmp_socket.udp_socket_addr is V6 ==> (
            inner.connected_addr matches Some(dst) ==> dst is V6),
        }
    }

    /// What goes on the wire for `buffer` sent to the default destination: the
    /// datagram itself on the DGRAM carrier, an echo request on the echo
    /// carrier.
    pub open spec fn sent(&self, buffer: Seq<u8>) -> Result<Seq<u8>, SocketError> {
        match *self {
            NonBlockingSocket::Udp(_) => Ok(buffer),
            NonBlockingSocket::Icmp(inner) => match inner.connected_addr {
                None => Err(SocketError::NotConnected),
                Some(dst) => if craftable(buffer, inner.icmp_socket.udp_socket_addr, true) {
                    Ok(crafted(buffer, inner.icmp_socket.udp_socket_addr, dst, true))
                } else {
                    Err(SocketError::InvalidInput)
                },
            },
        }
    }

    /// The socket after `addr` became its default destination.
    pub open spec fn connected_to(&self, addr: SocketAddress) -> NonBlockingSocket {
        match *self {
            NonBlockingSocket::Udp(inner) => *self,
            NonBlockingSocket::Icmp(inner) => NonBlockingSocket::Icmp(
                NonBlockingIcmpSocket {
                    icmp_socket: inner.icmp_socket,
                    connected_addr: Some(addr),
                },
            ),
        }
    }

    /// The address that the system is told to connect to for the default
    /// destination `addr`: on the echo carrier the port is set to zero.
    pub open spec fn connect_target(&self, addr: SocketAddress) -> SocketAddress {
        match *self {
            NonBlockingSocket::Udp(_) => addr,
            NonBlockingSocket::Icmp(_) => addr.with_port(0),
        }
    }

    /// Whether a datagram can be built for the default destination.
    pub fn is_sendable(&self) -> (result: bool)
        ensures
            result == self.sendable(),
    {
        match self {
            NonBlockingSocket::Udp(_) => true,
            NonBlockingSocket::Icmp(inner) => match inner.connected_addr {
                Some(dst) => !inner.local_addr().is_ipv6() || dst.is_ipv6(),
                None => true,
            },
        }
    }

    /// The socket of carrier `protocol` bound to `addr`, with no default
    /// destination yet.
    pub open spec fn bind_spec(protocol: Protocol, addr: SocketAddress) -> NonBlockingSocket {
        match protocol {
            Protocol::Udp => NonBlockingSocket::Udp(NonBlockingUdpSocket { local_addr: addr }),
            Protocol::Icmp => NonBlockingSocket::Icmp(
                NonBlockingIcmpSocket {
                    icmp_socket: IcmpSocket { udp_socket_addr: addr },
                    connected_addr: None,
                },
            ),
        }
    }

    /// The socket of carrier `protocol` that the system bound to `addr`, with
    /// no default destination yet.
    pub fn bind(protocol: Protocol, addr: &SocketAddress) -> (socket: Self)
        ensures
            socket == Self::bind_spec(protocol, *addr),
    {
        match protocol {
            Protocol::Udp => NonBlockingSocket::Udp(NonBlockingUdpSocket::bind(addr)),
            Protocol::Icmp => NonBlockingSocket::Icmp(NonBlockingIcmpSocket::bind(addr)),
        }
    }

    /// The DGRAM socket inside, if that is the carrier.
    pub fn as_mut_udp(&mut self) -> (result: Option<&mut NonBlockingUdpSocket>)
        ensures
            match result {
                Some(inner) => *old(self) == NonBlockingSocket::Udp(*inner) && *final(self)
                    == NonBlockingSocket::Udp(*final(inner)),
                None => *old(self) is Icmp && *final(self) == *old(self),
            },
    {
        match self {
            NonBlockingSocket::Udp(inner) => Some(inner),
            _ => None,
        }
    }

    /// Makes `addr` the default destination, and says which address to hand to
    /// the system for it.
    pub fn connect(&mut self, addr: &SocketAddress) -> (target: SocketAddress)
        ensures
            *final(self) == old(self).connected_to(*addr),
            target == old(self).connect_target(*addr),
    {
        match self {
            NonBlockingSocket::Udp(inner) => inner.connect(addr),
            NonBlockingSocket::Icmp(inner) => inner.connect(addr),
        }
    }

    /// What to hand to the system to send `buffer` to the default destination.
    pub fn send(&self, buffer: &[u8]) -> (result: Result<Vec<u8>, SocketError>)
        requires
            self.sendable(),
            buffer@.len() <= max_payload_len(),
        ensures
            match self.sent(buffer@) {
                Ok(bytes) => result matches Ok(packet) && packet@ == bytes,
                Err(error) => result == Err::<Vec<u8>, SocketError>(error),
            },
    {
        match self {
            NonBlockingSocket::Udp(inner) => Ok(slice_to_vec(inner.send(buffer))),
            NonBlockingSocket::Icmp(inner) => inner.send(buffer),
        }
    }

    #[verifier::when_used_as_spec(spec_local_addr)]
    pub fn local_addr(&self) -> (addr: SocketAddress)
        ensures
            addr == self.spec_local_addr(),
    {
        match self {
            NonBlockingSocket::Udp(inner) => inner.local_addr(),
            NonBlockingSocket::Icmp(inner) => inner.local_addr(),
        }
    }
}

} // verus!
