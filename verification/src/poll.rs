//! Readiness: which upstream socket has a datagram to read.
//!
//! On the DGRAM carrier the system tells, by a token that is the local port
//! of the socket. On the echo carrier one raw socket reads every message of
//! the host, and the synthetic destination port tells.

use crate::address::SocketAddress;
use crate::peer::PeerManager;
use crate::socket::icmp::{parse_icmp_packet, parsed};
use crate::socket::NonBlockingSocket;
use crate::{applicable, on_peer_recv, relayed};
use vstd::prelude::*;
use vstd::slice::slice_to_vec;

verus! {

/// A registration or deregistration that the readiness facility refused.
#[derive(Clone, Copy, Debug, PartialEq, Eq, Structural)]
pub struct RegistryError;

/// Where the upstream sockets are registered for readiness.
pub trait Registry {
    /// Registers a socket for read-readiness, under its local port as token.
    fn register(&self, socket: &NonBlockingSocket) -> (result: Result<(), RegistryError>);

    /// Takes a socket out of the readiness set.
    fn deregister(&self, socket: &NonBlockingSocket) -> (result: Result<(), RegistryError>);
}

/// The registry of the echo carrier, which has nothing to register: the one
/// raw socket reads for every peer.
#[derive(Clone, Copy, Debug)]
pub struct IcmpRegistry;

impl Registry for IcmpRegistry {
    fn register(&self, _socket: &NonBlockingSocket) -> (result: Result<(), RegistryError>)
        ensures
            result is Ok,
    {
        Ok(())
    }

    fn deregister(&self, _socket: &NonBlockingSocket) -> (result: Result<(), RegistryError>)
        ensures
            result is Ok,
    {
        Ok(())
    }
}

/// The token under which the readiness facility of the system knows the
/// upstream socket with the local port `port`.
pub fn port_token(port: u16) -> (token: usize)
    ensures
        token == port,
        token_port(token) == port,
{
    port as usize
}

/// The local port that a token of the readiness facility stands for.
pub open spec fn token_port(token: usize) -> u16 {
    (token % 0x10000) as u16
}

/// The local port that a token of the readiness facility stands for.
pub fn port_of_token(token: usize) -> (port: u16)
    ensures
        port == token_port(token),
{
    (token % 0x10000) as u16
}

/// The receiver of the echo carrier for one IP family: every echo message
/// that reaches the host passes through it, and the synthetic destination port
/// says which peer a message is for.
#[derive(Clone, Copy, Debug)]
pub struct IcmpPoll {
    pub is_ipv6: bool,
}

impl IcmpPoll {
    /// The registry that goes with this receiver.
    pub fn get_registry(&self) -> (registry: IcmpRegistry) {
        IcmpRegistry
    }

    /// One round of the receiver. Reads what the raw socket delivered, finds
    /// the peer on the synthetic destination port, marks it as used and applies
    /// the passphrase to the payload. The result is the client to send the
    /// payload to, and the payload; or nothing, where the packet is no echo
    /// message of a forwarder or no peer has that port.
    pub fn poll<R: Registry>(
        &self,
        peer_manager: &mut PeerManager<R>,
        packet: &[u8],
        passphrase: Option<&str>,
    ) -> (result: Option<(SocketAddress, Vec<u8>)>)
        requires
            parsed(packet@, self.is_ipv6) matches Some(message) ==> applicable(
                passphrase,
                message.payload.len(),
            ),
        ensures
            final(peer_manager).spec_registry() == old(peer_manager).spec_registry(),
            match parsed(packet@, self.is_ipv6) {
                Some(message) if old(peer_manager).by_port().contains_key(message.dst_port) => {
                    let known = old(peer_manager).by_port()[message.dst_port].with_used(true);
                    &&& result matches Some((client_addr, payload))
                    &&& client_addr == known.client_addr
                    &&& payload@ == relayed(message.payload, passphrase)
                    &&& final(peer_manager).by_port() == old(peer_manager).by_port().insert(
                        message.dst_port,
                        known,
                    )
                    &&& final(peer_manager).by_client_addr() == old(
                        peer_manager,
                    ).by_client_addr().insert(known.client_addr, known)
                },
                _ => {
                    &&& result is None
                    &&& final(peer_manager).by_port() == old(peer_manager).by_port()
                    &&& final(peer_manager).by_client_addr() == old(peer_manager).by_client_addr()
                },
            },
    {
        let message = match parse_icmp_packet(packet, self.is_ipv6) {
            Some(message) => message,
            None => {
                return None;
            },
        };
        if peer_manager.find_peer_with_port(&message.dst_port).is_none() {
            return None;
        }
        let mut payload = slice_to_vec(message.payload);
        match on_peer_recv(peer_manager, message.dst_port, payload.as_mut_slice(), passphrase) {
            Some(client_addr) => Some((client_addr, payload)),
            None => None,
        }
    }
}

} // verus!
