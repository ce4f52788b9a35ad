//! Peers and the table that finds them by client address and by local port.

use crate::address::SocketAddress;
use crate::poll::{Registry, RegistryError};
use crate::socket::NonBlockingSocket;
use crate::uri::Uri;
use std::collections::BTreeMap;
use vstd::prelude::*;
use vstd::std_specs::btree::spec_keys_iter;
use vstd::std_specs::iter::IteratorSpec;

verus! {

/// The record of one client: its address as seen on the listening socket, the
/// upstream socket that carries its datagrams on, and whether it carried any
/// since the last sweep.
#[derive(Clone, Copy, Debug, PartialEq, Eq, Structural)]
pub struct Peer {
    pub socket: NonBlockingSocket,
    pub client_addr: SocketAddress,
    pub used: bool,
}

impl Peer {
    /// The local port of the upstream socket: the second key of the table.
    pub open spec fn spec_local_port(&self) -> u16 {
        self.socket.spec_local_port()
    }

    /// The peer with its flag set to `used`.
    pub open spec fn with_used(&self, used: bool) -> Peer {
        Peer { socket: self.socket, client_addr: self.client_addr, used }
    }

    /// Whether two records stand for the same peer: same client, same local port.
    pub open spec fn same_peer(&self, other: Peer) -> bool {
        self.client_addr == other.client_addr && self.spec_local_port() == other.spec_local_port()
    }

    /// The peer for the client at `client_addr`, whose upstream socket the
    /// system bound to `local_addr` and which forwards to `remote_uri`. It is
    /// born used. The second result is the address to connect the socket of
    /// the system to.
    pub fn new(remote_uri: &Uri, local_addr: &SocketAddress, client_addr: SocketAddress) -> (result:
        (Peer, SocketAddress))
        ensures
            result.0.socket.spec_local_addr() == *local_addr,
            result.0.socket == NonBlockingSocket::bind_spec(
                remote_uri.protocol,
                *local_addr,
            ).connected_to(remote_uri.addr),
            result.0.client_addr == client_addr,
            result.0.used,
            result.1 == result.0.socket.connect_target(remote_uri.addr),
    {
        let mut socket = NonBlockingSocket::bind(remote_uri.protocol, local_addr);
        let target = socket.connect(&remote_uri.addr);
        (Peer { socket, client_addr, used: true }, target)
    }

    /// Marks the peer as having carried traffic, which keeps the next sweep from
    /// evicting it.
    pub fn set_used(&mut self)
        ensures
            *final(self) == old(self).with_used(true),
    {
        self.used = true;
    }

    /// Clears the mark, and says whether it was set.
    pub fn reset_used(&mut self) -> (was_used: bool)
        ensures
            was_used == old(self).used,
            *final(self) == old(self).with_used(false),
    {
        let was_used = self.used;
        self.used = false;
        was_used
    }

    pub fn get_client_addr(&self) -> (addr: &SocketAddress)
        ensures
            *addr == self.client_addr,
    {
        &self.client_addr
    }

    #[verifier::when_used_as_spec(spec_local_port)]
    pub fn local_port(&self) -> (port: u16)
        ensures
            port == self.spec_local_port(),
    {
        self.socket.local_addr().port()
    }
}

/// What the client index is keyed by: the family, then the fields of the address.
pub type AddrKey = (u8, u128, u16, u32, u32);

/// The key of an address in the client index. No two addresses share one.
pub open spec fn addr_key(addr: SocketAddress) -> AddrKey {
    match addr {
        SocketAddress::V4 { ip, port } => (4u8, ip as u128, port, 0u32, 0u32),
        SocketAddress::V6 { ip, port, flowinfo, scope_id } => (6u8, ip, port, flowinfo, scope_id),
    }
}

fn key_of(addr: &SocketAddress) -> (key: AddrKey)
    ensures
        key == addr_key(*addr),
{
    match *addr {
        SocketAddress::V4 { ip, port } => (4u8, ip as u128, port, 0u32, 0u32),
        SocketAddress::V6 { ip, port, flowinfo, scope_id } => (6u8, ip, port, flowinfo, scope_id),
    }
}

/// Two addresses with the same key are the same address.
pub proof fn lemma_addr_key_injective(a: SocketAddress, b: SocketAddress)
    ensures
        addr_key(a) == addr_key(b) <==> a == b,
{
}

/// Why a peer was not installed.
#[derive(Clone, Copy, Debug, PartialEq, Eq, Structural)]
pub enum AddPeerError {
    /// The table already holds a peer for that client, or one on that local port.
    Occupied,
    /// The readiness facility refused the upstream socket.
    Registration,
}

/// Why the removal of a peer was not clean.
#[derive(Clone, Copy, Debug, PartialEq, Eq, Structural)]
pub enum RemovePeerError {
    /// The table holds no such peer.
    NotFound,
    /// The peer left the table, but the readiness facility refused to let its
    /// socket go.
    Deregistration,
}

/// Whether `list` holds each peer of `peers` once, and nothing else.
#[verifier::opaque]
pub open spec fn lists(list: Seq<Peer>, peers: Map<u16, Peer>) -> bool {
    &&& forall|i: int|
        0 <= i < list.len() ==> peers.contains_key(#[trigger] list[i].spec_local_port())
            && peers[list[i].spec_local_port()] == list[i]
    &&& forall|port: u16|
        peers.contains_key(port) ==> exists|i: int|
            0 <= i < list.len() && #[trigger] list[i].spec_local_port() == port
    &&& forall|i: int, j: int|
        0 <= i < j < list.len() ==> #[trigger] list[i].spec_local_port()
            != #[trigger] list[j].spec_local_port()
}

/// What a list of all the peers says of each of its items: the item is the
/// peer on its port, and no other item has that port.
pub proof fn lemma_listed(list: Seq<Peer>, peers: Map<u16, Peer>, i: int)
    requires
        lists(list, peers),
        0 <= i < list.len(),
    ensures
        peers.contains_key(list[i].spec_local_port()),
        peers[list[i].spec_local_port()] == list[i],
        forall|j: int|
            0 <= j < list.len() && j != i ==> (#[trigger] list[j]).spec_local_port()
                != list[i].spec_local_port(),
{
    reveal(lists);
    assert forall|j: int| 0 <= j < list.len() && j != i implies (
    #[trigger] list[j]).spec_local_port() != list[i].spec_local_port() by {
        if j < i {
            assert(list[j].spec_local_port() != list[i].spec_local_port());
        } else {
            assert(list[i].spec_local_port() != list[j].spec_local_port());
        }
    }
}

/// A list of all the peers has an item for every port that has a peer.
pub proof fn lemma_listed_port(list: Seq<Peer>, peers: Map<u16, Peer>, port: u16) -> (i: int)
    requires
        lists(list, peers),
        peers.contains_key(port),
    ensures
        0 <= i < list.len(),
        list[i].spec_local_port() == port,
        list[i] == peers[port],
{
    reveal(lists);
    let i = choose|i: int| 0 <= i < list.len() && #[trigger] list[i].spec_local_port() == port;
    i
}

/// The two indexes of the table: from client address to local port, and from
/// local port to the peer.
struct Indexes {
    client_addr_to_peers: BTreeMap<AddrKey, u16>,
    port_to_peers: BTreeMap<u16, Peer>,
}

impl Indexes {
    spec fn by_port(&self) -> Map<u16, Peer> {
        self.port_to_peers@
    }

    spec fn by_client_addr(&self) -> Map<SocketAddress, Peer> {
        Map::new(
            |addr: SocketAddress| self.client_addr_to_peers@.contains_key(addr_key(addr)),
            |addr: SocketAddress| self.port_to_peers@[self.client_addr_to_peers@[addr_key(addr)]],
        )
    }

    /// Every entry of one index has its counterpart in the other.
    spec fn wf(&self) -> bool {
        &&& forall|port: u16| #[trigger]
            self.port_to_peers@.contains_key(port) ==> {
                let peer = self.port_to_peers@[port];
                &&& peer.spec_local_port() == port
                &&& self.client_addr_to_peers@.contains_key(addr_key(peer.client_addr))
                &&& self.client_addr_to_peers@[addr_key(peer.client_addr)] == port
            }
        &&& forall|key: AddrKey| #[trigger]
            self.client_addr_to_peers@.contains_key(key) ==> {
                let port = self.client_addr_to_peers@[key];
                &&& self.port_to_peers@.contains_key(port)
                &&& addr_key(self.port_to_peers@[port].client_addr) == key
            }
    }

    fn new() -> (indexes: Self)
        ensures
            indexes.wf(),
            indexes.by_port() == Map::<u16, Peer>::empty(),
            indexes.by_client_addr() == Map::<SocketAddress, Peer>::empty(),
    {
        let indexes = Indexes {
            client_addr_to_peers: BTreeMap::new(),
            port_to_peers: BTreeMap::new(),
        };
        assert(indexes.by_client_addr() =~= Map::<SocketAddress, Peer>::empty());
        indexes
    }

    fn find_by_client_addr(&self, addr: &SocketAddress) -> (result: Option<&Peer>)
        requires
            self.wf(),
        ensures
            match result {
                Some(peer) => self.by_client_addr().contains_key(*addr)
                    && self.by_client_addr()[*addr] == *peer,
                None => !self.by_client_addr().contains_key(*addr),
            },
    {
        let key = key_of(addr);
        match self.client_addr_to_peers.get(&key) {
            Some(port) => self.port_to_peers.get(port),
            None => None,
        }
    }

    fn find_by_port(&self, port: &u16) -> (result: Option<&Peer>)
        ensures
            match result {
                Some(peer) => self.by_port().contains_key(*port) && self.by_port()[*port] == *peer,
                None => !self.by_port().contains_key(*port),
            },
    {
        self.port_to_peers.get(port)
    }

    fn list(&self) -> (all: Vec<Peer>)
        requires
            self.wf(),
        ensures
            lists(all@, self.by_port()),
    {
        let mut all: Vec<Peer> = Vec::new();
        let ghost ports = spec_keys_iter(&self.port_to_peers).remaining();
        for port in it: self.port_to_peers.keys()
            invariant
                self.wf(),
                it.seq() == ports,
                ports.unref().to_set() == self.port_to_peers@.dom(),
                ports.no_duplicates(),
                all@.len() == it.index(),
                forall|i: int|
                    0 <= i < all@.len() ==> (#[trigger] all@[i]).spec_local_port() == *ports[i]
                        && self.port_to_peers@.contains_key(*ports[i])
                        && self.port_to_peers@[*ports[i]] == all@[i],
        {
            assert(ports.unref().to_set().contains(ports.unref()[it.index()]));
            match self.port_to_peers.get(port) {
                Some(peer) => {
                    all.push(*peer);
                },
                None => {},
            }
        }
        proof {
            reveal(lists);
            assert forall|port: u16| self.by_port().contains_key(port) implies exists|i: int|
                0 <= i < all@.len() && #[trigger] all@[i].spec_local_port() == port by {
                assert(ports.unref().to_set().contains(port));
                let i = choose|i: int| 0 <= i < ports.len() && ports.unref()[i] == port;
                assert(all@[i].spec_local_port() == port);
            }
            assert forall|i: int, j: int| 0 <= i < j < all@.len() implies (
            #[trigger] all@[i]).spec_local_port() != (#[trigger] all@[j]).spec_local_port() by {
                assert(ports[i] != ports[j]);
            }
        }
        all
    }

    /// Puts a peer into both indexes.
    fn insert(&mut self, new_peer: Peer)
        requires
            old(self).wf(),
            !old(self).by_client_addr().contains_key(new_peer.client_addr),
            !old(self).by_port().contains_key(new_peer.spec_local_port()),
        ensures
            final(self).wf(),
            final(self).by_port() == old(self).by_port().insert(
                new_peer.spec_local_port(),
                new_peer,
            ),
            final(self).by_client_addr() == old(self).by_client_addr().insert(
                new_peer.client_addr,
                new_peer,
            ),
    {
        let port = new_peer.local_port();
        let key = key_of(&new_peer.client_addr);
        self.client_addr_to_peers.insert(key, port);
        self.port_to_peers.insert(port, new_peer);
        proof {
            assert forall|addr: SocketAddress|
                addr != new_peer.client_addr implies #[trigger] addr_key(addr) != key by {
                lemma_addr_key_injective(addr, new_peer.client_addr);
            }
            assert(final(self).by_client_addr() =~= old(self).by_client_addr().insert(
                new_peer.client_addr,
                new_peer,
            ));
        }
    }

    /// Takes the peer on `port`, which is `found`, out of both indexes.
    fn take(&mut self, port: u16, found: Peer)
        requires
            old(self).wf(),
            old(self).by_port().contains_key(port),
            old(self).by_port()[port] == found,
        ensures
            final(self).wf(),
            final(self).by_port() == old(self).by_port().remove(port),
            final(self).by_client_addr() == old(self).by_client_addr().remove(found.client_addr),
    {
        let key = key_of(&found.client_addr);
        self.client_addr_to_peers.remove(&key);
        self.port_to_peers.remove(&port);
        proof {
            assert forall|addr: SocketAddress|
                addr != found.client_addr implies #[trigger] addr_key(addr) != key by {
                lemma_addr_key_injective(addr, found.client_addr);
            }
            assert(final(self).by_client_addr() =~= old(self).by_client_addr().remove(
                found.client_addr,
            ));
        }
    }

    /// Writes `peer` over the entry on its port, which is the same peer with
    /// whatever mark.
    fn store(&mut self, peer: Peer)
        requires
            old(self).wf(),
            old(self).by_port().contains_key(peer.spec_local_port()),
            old(self).by_port()[peer.spec_local_port()].same_peer(peer),
        ensures
            final(self).wf(),
            final(self).by_port() == old(self).by_port().insert(peer.spec_local_port(), peer),
            final(self).by_client_addr() == old(self).by_client_addr().insert(
                peer.client_addr,
                peer,
            ),
    {
        let port = peer.local_port();
        self.port_to_peers.insert(port, peer);
        proof {
            assert forall|addr: SocketAddress|
                addr != peer.client_addr implies #[trigger] addr_key(addr) != addr_key(
                    peer.client_addr,
                ) by {
                lemma_addr_key_injective(addr, peer.client_addr);
            }
            assert(final(self).by_client_addr() =~= old(self).by_client_addr().insert(
                peer.client_addr,
                peer,
            ));
        }
    }

    /// What the two indexes say of each other.
    proof fn lemma_agree(&self)
        requires
            self.wf(),
        ensures
            forall|addr: SocketAddress| #[trigger]
                self.by_client_addr().contains_key(addr) ==> {
                    let peer = self.by_client_addr()[addr];
                    &&& peer.client_addr == addr
                    &&& self.by_port().contains_key(peer.spec_local_port())
                    &&& self.by_port()[peer.spec_local_port()] == peer
                },
            forall|port: u16| #[trigger]
                self.by_port().contains_key(port) ==> {
                    let peer = self.by_port()[port];
                    &&& peer.spec_local_port() == port
                    &&& self.by_client_addr().contains_key(peer.client_addr)
                    &&& self.by_client_addr()[peer.client_addr] == peer
                },
    {
        assert forall|addr: SocketAddress| #[trigger]
            self.by_client_addr().contains_key(addr) implies {
            let peer = self.by_client_addr()[addr];
            &&& peer.client_addr == addr
            &&& self.by_port().contains_key(peer.spec_local_port())
            &&& self.by_port()[peer.spec_local_port()] == peer
        } by {
            let key = addr_key(addr);
            assert(self.client_addr_to_peers@.contains_key(key));
            let peer = self.by_client_addr()[addr];
            lemma_addr_key_injective(peer.client_addr, addr);
        }
    }
}

/// The peers of a forwarder, found by client address on the way in and by
/// local port on the way back.
///
/// Two indexes are kept: from client address to local port, and from local
/// port to the peer. A peer is in both or in neither: that is the invariant of
/// the type.
pub struct PeerManager<R: Registry> {
    indexes: Indexes,
    registry: R,
}

impl<R: Registry> PeerManager<R> {
    /// The index by local port.
    pub closed spec fn by_port(&self) -> Map<u16, Peer> {
        self.indexes.by_port()
    }

    /// The index by client address.
    pub closed spec fn by_client_addr(&self) -> Map<SocketAddress, Peer> {
        self.indexes.by_client_addr()
    }

    /// The registry that the table registers upstream sockets with.
    pub closed spec fn spec_registry(&self) -> R {
        self.registry
    }

    /// The invariant of the table: every entry of one index has its
    /// counterpart in the other.
    #[verifier::type_invariant]
    pub closed spec fn wf(&self) -> bool {
        self.indexes.wf()
    }

    /// Whether the table holds the peer that `peer` stands for.
    pub open spec fn holds(&self, peer: Peer) -> bool {
        self.by_port().contains_key(peer.spec_local_port())
            && self.by_port()[peer.spec_local_port()].same_peer(peer)
    }

    /// Whether the table has room for `peer`: no peer for its client yet, and
    /// none on its local port.
    pub open spec fn admits(&self, peer: Peer) -> bool {
        !self.by_client_addr().contains_key(peer.client_addr) && !self.by_port().contains_key(
            peer.spec_local_port(),
        )
    }

    /// An empty table that registers with `registry`.
    pub fn new(registry: R) -> (manager: Self)
        ensures
            manager.by_port() == Map::<u16, Peer>::empty(),
            manager.by_client_addr() == Map::<SocketAddress, Peer>::empty(),
            manager.spec_registry() == registry,
    {
        PeerManager { indexes: Indexes::new(), registry }
    }

    /// Installs a peer whose registration had the outcome `registered`: into
    /// both indexes if the table has room for it and the registration
    /// succeeded, else not at all.
    pub fn install(&mut self, new_peer: Peer, registered: Result<(), RegistryError>) -> (result:
        Result<Peer, AddPeerError>)
        ensures
            final(self).spec_registry() == old(self).spec_registry(),
            if !old(self).admits(new_peer) {
                &&& result == Err::<Peer, AddPeerError>(AddPeerError::Occupied)
                &&& final(self).by_port() == old(self).by_port()
                &&& final(self).by_client_addr() == old(self).by_client_addr()
            } else if registered is Err {
                &&& result == Err::<Peer, AddPeerError>(AddPeerError::Registration)
                &&& final(self).by_port() == old(self).by_port()
                &&& final(self).by_client_addr() == old(self).by_client_addr()
            } else {
                &&& result == Ok::<Peer, AddPeerError>(new_peer)
                &&& final(self).by_port() == old(self).by_port().insert(
                    new_peer.spec_local_port(),
                    new_peer,
                )
                &&& final(self).by_client_addr() == old(self).by_client_addr().insert(
                    new_peer.client_addr,
                    new_peer,
                )
            },
    {
        proof {
            use_type_invariant(&*self);
        }
        if self.indexes.find_by_client_addr(&new_peer.client_addr).is_some()
            || self.indexes.find_by_port(&new_peer.local_port()).is_some() {
            return Err(AddPeerError::Occupied);
        }
        if registered.is_err() {
            return Err(AddPeerError::Registration);
        }
        let mut indexes = Indexes::new();
        std::mem::swap(&mut indexes, &mut self.indexes);
        indexes.insert(new_peer);
        self.indexes = indexes;
        Ok(new_peer)
    }

    /// Registers the upstream socket of a new peer and installs the peer: both
    /// or neither. A peer for which the table has no room is not registered.
    pub fn add_peer(&mut self, new_peer: Peer) -> (result: Result<Peer, AddPeerError>)
        ensures
            final(self).spec_registry() == old(self).spec_registry(),
            match result {
                Ok(peer) => {
                    &&& peer == new_peer
                    &&& old(self).admits(new_peer)
                    &&& final(self).by_port() == old(self).by_port().insert(
                        new_peer.spec_local_port(),
                        new_peer,
                    )
                    &&& final(self).by_client_addr() == old(self).by_client_addr().insert(
                        new_peer.client_addr,
                        new_peer,
                    )
                },
                Err(error) => {
                    &&& error is Occupied <==> !old(self).admits(new_peer)
                    &&& final(self).by_port() == old(self).by_port()
                    &&& final(self).by_client_addr() == old(self).by_client_addr()
                },
            },
    {
        if self.find_peer_with_client_addr(&new_peer.client_addr).is_some()
            || self.find_peer_with_port(&new_peer.local_port()).is_some() {
            return Err(AddPeerError::Occupied);
        }
        let registered = self.registry.register(&new_peer.socket);
        self.install(new_peer, registered)
    }

    /// The peer of the client at `addr`, if the table holds one.
    pub fn find_peer_with_client_addr(&self, addr: &SocketAddress) -> (result: Option<&Peer>)
        ensures
            match result {
                Some(peer) => self.by_client_addr().contains_key(*addr)
                    && self.by_client_addr()[*addr] == *peer,
                None => !self.by_client_addr().contains_key(*addr),
            },
    {
        proof {
            use_type_invariant(self);
        }
        self.indexes.find_by_client_addr(addr)
    }

    /// The peer whose upstream socket has the local port `port`, if the table
    /// holds one.
    pub fn find_peer_with_port(&self, port: &u16) -> (result: Option<&Peer>)
        ensures
            match result {
                Some(peer) => self.by_port().contains_key(*port) && self.by_port()[*port] == *peer,
                None => !self.by_port().contains_key(*port),
            },
    {
        self.indexes.find_by_port(port)
    }

    /// Every peer of the table, once. The order is not promised.
    pub fn get_all(&self) -> (all: Vec<Peer>)
        ensures
            lists(all@, self.by_port()),
    {
        proof {
            use_type_invariant(self);
        }
        self.indexes.list()
    }

    /// Takes a peer out of both indexes, then out of the readiness set. A
    /// failure to deregister is reported and changes nothing: the peer has left
    /// the table.
    pub fn remove_peer(&mut self, peer: &Peer) -> (result: Result<(), RemovePeerError>)
        ensures
            final(self).spec_registry() == old(self).spec_registry(),
            result == Err::<(), RemovePeerError>(RemovePeerError::NotFound) <==> !old(self).holds(
                *peer,
            ),
            old(self).holds(*peer) ==> {
                &&& final(self).by_port() == old(self).by_port().remove(peer.spec_local_port())
                &&& final(self).by_client_addr() == old(self).by_client_addr().remove(
                    peer.client_addr,
                )
            },
            !old(self).holds(*peer) ==> {
                &&& final(self).by_port() == old(self).by_port()
                &&& final(self).by_client_addr() == old(self).by_client_addr()
            },
    {
        proof {
            use_type_invariant(&*self);
        }
        let port = peer.local_port();
        let found = match self.indexes.find_by_port(&port) {
            Some(found) => *found,
            None => {
                return Err(RemovePeerError::NotFound);
            },
        };
        if found.client_addr != peer.client_addr {
            return Err(RemovePeerError::NotFound);
        }
        let mut indexes = Indexes::new();
        std::mem::swap(&mut indexes, &mut self.indexes);
        indexes.take(port, found);
        self.indexes = indexes;
        match self.registry.deregister(&found.socket) {
            Ok(()) => Ok(()),
            Err(_) => Err(RemovePeerError::Deregistration),
        }
    }

    /// Writes `peer` over the record of the same peer, if the table holds it,
    /// and says whether it does.
    pub fn update_peer(&mut self, peer: Peer) -> (updated: bool)
        ensures
            final(self).spec_registry() == old(self).spec_registry(),
            updated == old(self).holds(peer),
            updated ==> {
                &&& final(self).by_port() == old(self).by_port().insert(
                    peer.spec_local_port(),
                    peer,
                )
                &&& final(self).by_client_addr() == old(self).by_client_addr().insert(
                    peer.client_addr,
                    peer,
                )
            },
            !updated ==> {
                &&& final(self).by_port() == old(self).by_port()
                &&& final(self).by_client_addr() == old(self).by_client_addr()
            },
    {
        proof {
            use_type_invariant(&*self);
        }
        let held = match self.indexes.find_by_port(&peer.local_port()) {
            Some(found) => found.client_addr == peer.client_addr,
            None => false,
        };
        if held {
            let mut indexes = Indexes::new();
            std::mem::swap(&mut indexes, &mut self.indexes);
            indexes.store(peer);
            self.indexes = indexes;
        }
        held
    }

    /// Marks the peer of the client at `addr` as used, and hands it out.
    pub fn use_peer_with_client_addr(&mut self, addr: &SocketAddress) -> (result: Option<Peer>)
        ensures
            final(self).spec_registry() == old(self).spec_registry(),
            match result {
                Some(peer) => {
                    &&& old(self).by_client_addr().contains_key(*addr)
                    &&& peer == old(self).by_client_addr()[*addr].with_used(true)
                    &&& final(self).by_port() == old(self).by_port().insert(
                        peer.spec_local_port(),
                        peer,
                    )
                    &&& final(self).by_client_addr() == old(self).by_client_addr().insert(
                        *addr,
                        peer,
                    )
                },
                None => {
                    &&& !old(self).by_client_addr().contains_key(*addr)
                    &&& final(self).by_port() == old(self).by_port()
                    &&& final(self).by_client_addr() == old(self).by_client_addr()
                },
            },
    {
        let mut peer = match self.find_peer_with_client_addr(addr) {
            Some(peer) => *peer,
            None => {
                return None;
            },
        };
        proof {
            use_type_invariant(&*self);
            self.lemma_indexes_agree();
        }
        peer.set_used();
        self.update_peer(peer);
        Some(peer)
    }

    /// Marks the peer on the local port `port` as used, and hands it out.
    pub fn use_peer_with_port(&mut self, port: &u16) -> (result: Option<Peer>)
        ensures
            final(self).spec_registry() == old(self).spec_registry(),
            match result {
                Some(peer) => {
                    &&& old(self).by_port().contains_key(*port)
                    &&& peer == old(self).by_port()[*port].with_used(true)
                    &&& final(self).by_port() == old(self).by_port().insert(*port, peer)
                    &&& final(self).by_client_addr() == old(self).by_client_addr().insert(
                        peer.client_addr,
                        peer,
                    )
                },
                None => {
                    &&& !old(self).by_port().contains_key(*port)
                    &&& final(self).by_port() == old(self).by_port()
                    &&& final(self).by_client_addr() == old(self).by_client_addr()
                },
            },
    {
        let mut peer = match self.find_peer_with_port(port) {
            Some(peer) => *peer,
            None => {
                return None;
            },
        };
        proof {
            use_type_invariant(&*self);
            self.lemma_indexes_agree();
        }
        peer.set_used();
        self.update_peer(peer);
        Some(peer)
    }

    /// The two indexes hold the same peers, and each finds what the other
    /// holds: a peer found by a client address has that client address and is
    /// what its local port finds, and a peer found by a local port has that
    /// local port and is what its client address finds.
    pub proof fn lemma_indexes_agree(&self)
        requires
            self.wf(),
        ensures
            forall|addr: SocketAddress| #[trigger]
                self.by_client_addr().contains_key(addr) ==> {
                    let peer = self.by_client_addr()[addr];
                    &&& peer.client_addr == addr
                    &&& self.by_port().contains_key(peer.spec_local_port())
                    &&& self.by_port()[peer.spec_local_port()] == peer
                },
            forall|port: u16| #[trigger]
                self.by_port().contains_key(port) ==> {
                    let peer = self.by_port()[port];
                    &&& peer.spec_local_port() == port
                    &&& self.by_client_addr().contains_key(peer.client_addr)
                    &&& self.by_client_addr()[peer.client_addr] == peer
                },
    {
        self.indexes.lemma_agree();
    }

    /// No two peers of the table share a local port, and no two share a client
    /// address.
    pub proof fn lemma_keys_unique(&self, a: SocketAddress, b: SocketAddress)
        requires
            self.wf(),
            self.by_client_addr().contains_key(a),
            self.by_client_addr().contains_key(b),
        ensures
            self.by_client_addr()[a].spec_local_port() == self.by_client_addr()[b].spec_local_port()
                <==> a == b,
            self.by_client_addr()[a].client_addr == self.by_client_addr()[b].client_addr <==> a
                == b,
    {
        self.lemma_indexes_agree();
    }
}

} // verus!
