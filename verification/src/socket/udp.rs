//! The DGRAM carrier: a datagram goes out as it came in.

use crate::address::SocketAddress;
use vstd::prelude::*;

verus! {

/// A bound datagram socket, as far as the forwarder reasons about it: the
/// address it is bound to.
#[derive(Clone, Copy, Debug, PartialEq, Eq, Structural)]
pub struct UdpSocket {
    pub local_addr: SocketAddress,
}

impl UdpSocket {
    /// The socket that the system bound to `address`.
    pub fn bind(address: &SocketAddress) -> (socket: Self)
        ensures
            socket.local_addr == *address,
    {
        UdpSocket { local_addr: *address }
    }

    /// What a datagram read from the socket holds: itself, from whom it came.
    pub fn recv_from<'a>(&self, datagram: &'a [u8], from_addr: &SocketAddress) -> (result: (
        &'a [u8],
        SocketAddress,
    ))
        ensures
            result.0@ == datagram@,
            result.1 == *from_addr,
    {
        (datagram, *from_addr)
    }

    /// What goes to the system to send `buffer` to `to`: both unchanged.
    pub fn send_to<'a>(&self, buffer: &'a [u8], to: &SocketAddress) -> (result: (
        &'a [u8],
        SocketAddress,
    ))
        ensures
            result.0@ == buffer@,
            result.1 == *to,
    {
        (buffer, *to)
    }

    pub fn local_addr(&self) -> (addr: SocketAddress)
        ensures
            addr == self.local_addr,
    {
        self.local_addr
    }
}

/// A bound non-blocking datagram socket: the upstream socket of a peer on the
/// DGRAM carrier.
#[derive(Clone, Copy, Debug, PartialEq, Eq, Structural)]
pub struct NonBlockingUdpSocket {
    pub local_addr: SocketAddress,
}

impl NonBlockingUdpSocket {
    /// The socket that the system bound to `address`.
    pub fn bind(address: &SocketAddress) -> (socket: Self)
        ensures
            socket.local_addr == *address,
    {
        NonBlockingUdpSocket { local_addr: *address }
    }

    /// What goes to the system to send `buffer` to the default destination: `buffer`.
    pub fn send<'a>(&self, buffer: &'a [u8]) -> (datagram: &'a [u8])
        ensures
            datagram@ == buffer@,
    {
        buffer
    }

    /// The address to hand to the system to make `addr` the default destination: `addr`.
    pub fn connect(&mut self, addr: &SocketAddress) -> (target: SocketAddress)
        ensures
            target == *addr,
            *final(self) == *old(self),
    {
        *addr
    }

    /// What a datagram read from the socket holds: itself.
    pub fn recv<'a>(&self, datagram: &'a [u8]) -> (payload: &'a [u8])
        ensures
            payload@ == datagram@,
    {
        datagram
    }

    pub fn local_addr(&self) -> (addr: SocketAddress)
        ensures
            addr == self.local_addr,
    {
        self.local_addr
    }
}

} // verus!
