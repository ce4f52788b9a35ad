//! A connectionless datagram forwarder, as a verified core without I/O.
//!
//! The library holds the parts of a forwarder that decide and compute: the
//! repeating-key XOR transform, the endpoint grammar, the echo framing of the
//! ICMP carrier, the pseudo-sockets that give that carrier ports, the peer
//! table with its two indexes, the idle-peer sweep and the per-datagram steps
//! of the engine. Reading and writing sockets is left to the caller.

use crate::address::SocketAddress;
use crate::encryption::{
    key_byte, lemma_xor_mismatch, lemma_xor_round_trip, xor_encrypt, xor_spec,
};
use crate::peer::{Peer, PeerManager};
use crate::poll::Registry;
use crate::socket::{NonBlockingSocket, Socket, SocketError};
use vstd::prelude::*;
use vstd::slice::slice_to_vec;
use vstd::string::StringSliceAdditionalSpecFns;

pub mod address;
pub mod bytes;
pub mod encryption;
pub mod peer;
pub mod poll;
pub mod reaper;
pub mod socket;
pub mod text;
pub mod uri;

verus! {

/// Size of every buffer that receives or sends a datagram: the largest IP datagram.
pub const MAX_PACKET_SIZE: usize = 65535;

/// Seconds between two sweeps of the peer table. A peer that carries nothing
/// for two sweeps in a row is gone after the second.
pub const CLEANUP_INTERVAL_SECS: u64 = 7 * 60;

/// Whether a passphrase can be applied to a datagram of `len` bytes: an empty
/// passphrase has no byte to apply to a byte of the datagram.
pub open spec fn applicable(passphrase: Option<&str>, len: nat) -> bool {
    passphrase matches Some(phrase) ==> phrase.spec_bytes().len() > 0 || len == 0
}

/// Whether a passphrase can be applied to a datagram of `len` bytes.
pub fn is_applicable(passphrase: Option<&str>, len: usize) -> (result: bool)
    ensures
        result == applicable(passphrase, len as nat),
{
    match passphrase {
        Some(phrase) => phrase.as_bytes().len() > 0 || len == 0,
        None => true,
    }
}

/// A payload as it leaves a hop: XORed with the passphrase where one is
/// configured, untouched where none is.
pub open spec fn relayed(payload: Seq<u8>, passphrase: Option<&str>) -> Seq<u8> {
    match passphrase {
        Some(phrase) => xor_spec(payload, phrase.spec_bytes()),
        None => payload,
    }
}

/// Applies the passphrase of the hop, if any, to a payload in place.
pub fn relay(buffer: &mut [u8], passphrase: Option<&str>)
    requires
        applicable(passphrase, old(buffer)@.len()),
    ensures
        final(buffer)@ == relayed(old(buffer)@, passphrase),
{
    match passphrase {
        Some(phrase) => xor_encrypt(buffer, phrase),
        None => {},
    }
}

/// What the engine does with a datagram that the listening socket read.
#[derive(Debug)]
pub enum Ingress {
    /// The datagram is not for this forwarder: nothing to do.
    Ignored,
    /// The client is known: `payload` goes out on the upstream socket of `peer`.
    Forward { peer: Peer, payload: Vec<u8> },
    /// The client is new: a peer is to be created for it, and `payload` goes
    /// out on its upstream socket.
    NewClient { client_addr: SocketAddress, payload: Vec<u8> },
}

/// The way in. Takes what the listening socket read from `from_addr`, applies
/// the passphrase, and looks the client up. A known client has its peer marked
/// as used.
pub fn on_client_datagram<R: Registry>(
    socket: &Socket,
    peer_manager: &mut PeerManager<R>,
    datagram: &[u8],
    from_addr: &SocketAddress,
    passphrase: Option<&str>,
) -> (action: Ingress)
    requires
        socket.received_from(datagram@, *from_addr) matches Some((received, _)) ==> applicable(
            passphrase,
            received.len(),
        ),
    ensures
        final(peer_manager).spec_registry() == old(peer_manager).spec_registry(),
        match socket.received_from(datagram@, *from_addr) {
            None => {
                &&& action is Ignored
                &&& final(peer_manager).by_port() == old(peer_manager).by_port()
                &&& final(peer_manager).by_client_addr() == old(peer_manager).by_client_addr()
            },
            Some((received, client)) => if old(peer_manager).by_client_addr().contains_key(
                client,
            ) {
                let known = old(peer_manager).by_client_addr()[client].with_used(true);
                &&& action matches Ingress::Forward { peer, payload }
                &&& peer == known
                &&& payload@ == relayed(received, passphrase)
                &&& final(peer_manager).by_port() == old(peer_manager).by_port().insert(
                    known.spec_local_port(),
                    known,
                )
                &&& final(peer_manager).by_client_addr() == old(
                    peer_manager,
                ).by_client_addr().insert(client, known)
            } else {
                &&& action matches Ingress::NewClient { client_addr, payload }
                &&& client_addr == client
                &&& payload@ == relayed(received, passphrase)
                &&& final(peer_manager).by_port() == old(peer_manager).by_port()
                &&& final(peer_manager).by_client_addr() == old(peer_manager).by_client_addr()
            },
        },
{
    let (received, client_addr) = match socket.recv_from(datagram, from_addr) {
        Some(received) => received,
        None => {
            return Ingress::Ignored;
        },
    };
    let mut payload = slice_to_vec(received);
    relay(payload.as_mut_slice(), passphrase);
    match peer_manager.use_peer_with_client_addr(&client_addr) {
        Some(peer) => Ingress::Forward { peer, payload },
        None => Ingress::NewClient { client_addr, payload },
    }
}

/// The way back. Takes a payload that came in on the upstream socket with the
/// local port `port`, marks the peer of that socket as used, applies the
/// passphrase in place, and says which client the payload goes to. Where no
/// peer has that port, the payload is dropped: nothing changes.
pub fn on_peer_recv<R: Registry>(
    peer_manager: &mut PeerManager<R>,
    port: u16,
    buffer: &mut [u8],
    passphrase: Option<&str>,
) -> (client_addr: Option<SocketAddress>)
    requires
        applicable(passphrase, old(buffer)@.len()),
    ensures
        final(peer_manager).spec_registry() == old(peer_manager).spec_registry(),
        if old(peer_manager).by_port().contains_key(port) {
            let known = old(peer_manager).by_port()[port].with_used(true);
            &&& client_addr == Some(known.client_addr)
            &&& final(buffer)@ == relayed(old(buffer)@, passphrase)
            &&& final(peer_manager).by_port() == old(peer_manager).by_port().insert(port, known)
            &&& final(peer_manager).by_client_addr() == old(peer_manager).by_client_addr().insert(
                known.client_addr,
                known,
            )
        } else {
            &&& client_addr is None
            &&& final(buffer)@ == old(buffer)@
            &&& final(peer_manager).by_port() == old(peer_manager).by_port()
            &&& final(peer_manager).by_client_addr() == old(peer_manager).by_client_addr()
        },
{
    match peer_manager.use_peer_with_port(&port) {
        Some(peer) => {
            relay(buffer, passphrase);
            Some(peer.client_addr)
        },
        None => None,
    }
}

/// Payload transparency. With no passphrase a payload leaves a hop as it came
/// in; and on the DGRAM carrier the payload is the datagram, on the way in and
/// on the way out. So what a peer sends upstream on a hop without passphrase is
/// what the client sent.
pub proof fn lemma_hop_transparent(
    listening: Socket,
    upstream: NonBlockingSocket,
    datagram: Seq<u8>,
    from_addr: SocketAddress,
)
    requires
        listening is Udp,
        upstream is Udp,
    ensures
        relayed(datagram, None) == datagram,
        listening.received_from(datagram, from_addr) == Some((datagram, from_addr)),
        upstream.sent(relayed(datagram, None)) == Ok::<Seq<u8>, SocketError>(datagram),
{
}

/// Two hops with the same passphrase deliver a payload unmodified.
pub proof fn lemma_two_hops_restore(payload: Seq<u8>, passphrase: Option<&str>)
    ensures
        relayed(relayed(payload, passphrase), passphrase) == payload,
{
    match passphrase {
        Some(phrase) => lemma_xor_round_trip(payload, phrase.spec_bytes()),
        None => {},
    }
}

/// Two hops with different passphrases garble a payload: it comes out
/// unmodified only if the two passphrases, each repeated, agree all along it.
pub proof fn lemma_two_hops_garble(payload: Seq<u8>, first: &str, second: &str)
    ensures
        relayed(relayed(payload, Some(first)), Some(second)) == payload <==> forall|i: int|
            0 <= i < payload.len() ==> key_byte(first.spec_bytes(), i) == #[trigger] key_byte(
                second.spec_bytes(),
                i,
            ),
{
    lemma_xor_mismatch(payload, first.spec_bytes(), second.spec_bytes());
}

} // verus!
