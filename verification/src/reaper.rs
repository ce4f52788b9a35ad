//! The reaper: the sweep that bounds the life of a peer that carries nothing.
//!
//! Every peer has a mark that traffic in either direction sets. A sweep evicts
//! the peers without the mark and clears the mark of the others, so a peer
//! that stays silent is gone after the second sweep at the latest.

use crate::address::SocketAddress;
use crate::peer::{lemma_listed, lemma_listed_port, lists, Peer, PeerManager};
use crate::poll::Registry;
use vstd::prelude::*;

verus! {

/// What a sweep leaves of an index: the peers that carried traffic, each with
/// its mark cleared.
pub open spec fn swept<K>(peers: Map<K, Peer>) -> Map<K, Peer> {
    Map::new(
        |key: K| peers.contains_key(key) && peers[key].used,
        |key: K| peers[key].with_used(false),
    )
}

/// The peers that a sweep evicts: those that carried no traffic since the last one.
pub open spec fn idle<K>(peers: Map<K, Peer>) -> Map<K, Peer> {
    Map::new(|key: K| peers.contains_key(key) && !peers[key].used, |key: K| peers[key])
}

/// The empty list lists no peers.
proof fn lemma_lists_empty()
    ensures
        lists(Seq::<Peer>::empty(), Map::<u16, Peer>::empty()),
{
    reveal(lists);
}

/// A list of all the peers, with one more peer on a port that had none, lists
/// the peers with that one added.
proof fn lemma_lists_push(list: Seq<Peer>, peers: Map<u16, Peer>, peer: Peer)
    requires
        lists(list, peers),
        !peers.contains_key(peer.spec_local_port()),
    ensures
        lists(list.push(peer), peers.insert(peer.spec_local_port(), peer)),
{
    reveal(lists);
    let longer = list.push(peer);
    let more = peers.insert(peer.spec_local_port(), peer);
    assert forall|port: u16| more.contains_key(port) implies exists|i: int|
        0 <= i < longer.len() && #[trigger] longer[i].spec_local_port() == port by {
        if port == peer.spec_local_port() {
            assert(longer[list.len() as int].spec_local_port() == port);
        } else {
            let i = choose|i: int|
                0 <= i < list.len() && #[trigger] list[i].spec_local_port() == port;
            assert(longer[i].spec_local_port() == port);
        }
    }
    assert forall|i: int| 0 <= i < longer.len() implies more.contains_key(
        #[trigger] longer[i].spec_local_port(),
    ) && more[longer[i].spec_local_port()] == longer[i] by {
        if i < list.len() {
            assert(longer[i] == list[i]);
            assert(peers.contains_key(list[i].spec_local_port()));
        }
    }
    assert forall|i: int, j: int| 0 <= i < j < longer.len() implies (
    #[trigger] longer[i]).spec_local_port() != (#[trigger] longer[j]).spec_local_port() by {
        assert(longer[i] == list[i]);
        assert(peers.contains_key(list[i].spec_local_port()));
        if j < list.len() {
            assert(longer[j] == list[j]);
        }
    }
}

/// How far a sweep has come once it has dealt with the ports in `done`: the
/// peers on those ports are evicted or have their mark cleared, the others are
/// as they were.
spec fn partly_swept(peers: Map<u16, Peer>, done: Set<u16>) -> Map<u16, Peer> {
    Map::new(
        |port: u16| peers.contains_key(port) && (done.contains(port) ==> peers[port].used),
        |port: u16|
            if done.contains(port) {
                peers[port].with_used(false)
            } else {
                peers[port]
            },
    )
}

/// The peers on the ports in `done` that a sweep evicts.
spec fn partly_idle(peers: Map<u16, Peer>, done: Set<u16>) -> Map<u16, Peer> {
    Map::new(
        |port: u16| peers.contains_key(port) && !peers[port].used && done.contains(port),
        |port: u16| peers[port],
    )
}

/// One step of a sweep: dealing with the peer on one more port.
proof fn lemma_sweep_step(peers: Map<u16, Peer>, done: Set<u16>, port: u16)
    requires
        peers.contains_key(port),
        !done.contains(port),
    ensures
        partly_swept(peers, done).contains_key(port),
        partly_swept(peers, done)[port] == peers[port],
        peers[port].used ==> partly_swept(peers, done.insert(port)) == partly_swept(
            peers,
            done,
        ).insert(port, peers[port].with_used(false)),
        peers[port].used ==> partly_idle(peers, done.insert(port)) == partly_idle(peers, done),
        !peers[port].used ==> partly_swept(peers, done.insert(port)) == partly_swept(
            peers,
            done,
        ).remove(port),
        !peers[port].used ==> partly_idle(peers, done.insert(port)) == partly_idle(
            peers,
            done,
        ).insert(port, peers[port]),
        !partly_idle(peers, done).contains_key(port),
{
    if peers[port].used {
        assert(partly_swept(peers, done.insert(port)) =~= partly_swept(peers, done).insert(
            port,
            peers[port].with_used(false),
        ));
        assert(partly_idle(peers, done.insert(port)) =~= partly_idle(peers, done));
    } else {
        assert(partly_swept(peers, done.insert(port)) =~= partly_swept(peers, done).remove(port));
        assert(partly_idle(peers, done.insert(port)) =~= partly_idle(peers, done).insert(
            port,
            peers[port],
        ));
    }
}

/// The two ends of a sweep: nothing is done before its first step, and it is
/// done once it has dealt with every port that has a peer.
proof fn lemma_sweep_ends(peers: Map<u16, Peer>, done: Set<u16>)
    ensures
        partly_swept(peers, Set::<u16>::empty()) == peers,
        partly_idle(peers, Set::<u16>::empty()) == Map::<u16, Peer>::empty(),
        peers.dom().subset_of(done) ==> partly_swept(peers, done) == swept(peers),
        peers.dom().subset_of(done) ==> partly_idle(peers, done) == idle(peers),
{
    assert(partly_swept(peers, Set::<u16>::empty()) =~= peers);
    assert(partly_idle(peers, Set::<u16>::empty()) =~= Map::<u16, Peer>::empty());
    if peers.dom().subset_of(done) {
        assert(partly_swept(peers, done) =~= swept(peers));
        assert(partly_idle(peers, done) =~= idle(peers));
    }
}

/// The sweep. Evicts every peer that carried no traffic since the last sweep,
/// and clears the mark of the others. The evicted peers are handed out, for
/// their sockets to be closed. A peer whose socket the readiness facility does
/// not let go is evicted all the same.
pub fn try_cleanup<R: Registry>(peer_manager: &mut PeerManager<R>) -> (evicted: Vec<Peer>)
    ensures
        final(peer_manager).spec_registry() == old(peer_manager).spec_registry(),
        final(peer_manager).by_port() == swept(old(peer_manager).by_port()),
        final(peer_manager).by_client_addr() == swept(old(peer_manager).by_client_addr()),
        lists(evicted@, idle(old(peer_manager).by_port())),
{
    proof {
        use_type_invariant(&*peer_manager);
    }
    let ghost before = old(peer_manager).by_port();
    let ghost mut done: Set<u16> = Set::empty();
    let all = peer_manager.get_all();
    let mut evicted: Vec<Peer> = Vec::new();
    let mut index: usize = 0;
    proof {
        lemma_sweep_ends(before, done);
        lemma_lists_empty();
    }
    while index < all.len()
        invariant
            index <= all@.len(),
            peer_manager.spec_registry() == old(peer_manager).spec_registry(),
            lists(all@, before),
            forall|j: int| 0 <= j < index ==> done.contains((#[trigger] all@[j]).spec_local_port()),
            forall|j: int|
                index <= j < all@.len() ==> !done.contains((#[trigger] all@[j]).spec_local_port()),
            peer_manager.by_port() == partly_swept(before, done),
            lists(evicted@, partly_idle(before, done)),
        decreases all@.len() - index,
    {
        let mut peer = all[index];
        let ghost port = peer.spec_local_port();
        proof {
            lemma_listed(all@, before, index as int);
            lemma_sweep_step(before, done, port);
        }
        let used = peer.reset_used();
        if used {
            peer_manager.update_peer(peer);
        } else {
            let _ = peer_manager.remove_peer(&all[index]);
            proof {
                lemma_lists_push(evicted@, partly_idle(before, done), all@[index as int]);
            }
            evicted.push(all[index]);
        }
        proof {
            done = done.insert(port);
        }
        index += 1;
    }
    proof {
        assert forall|port: u16| before.contains_key(port) implies done.contains(port) by {
            let j = lemma_listed_port(all@, before, port);
            assert(done.contains(all@[j].spec_local_port()));
        }
        lemma_sweep_ends(before, done);
        use_type_invariant(&*peer_manager);
        lemma_swept_client_index(*old(peer_manager), *peer_manager);
    }
    evicted
}

/// Two tables of which the second holds by port what a sweep leaves of the
/// first, hold by client address what a sweep leaves of the first as well.
pub proof fn lemma_swept_client_index<R: Registry>(before: PeerManager<R>, after: PeerManager<R>)
    requires
        before.wf(),
        after.wf(),
        after.by_port() == swept(before.by_port()),
    ensures
        after.by_client_addr() == swept(before.by_client_addr()),
{
    before.lemma_indexes_agree();
    after.lemma_indexes_agree();
    let left = after.by_client_addr();
    let right = swept(before.by_client_addr());
    assert forall|addr: SocketAddress| left.contains_key(addr) implies right.contains_key(addr)
        && left[addr] == right[addr] by {
        let peer = left[addr];
        let port = peer.spec_local_port();
        assert(after.by_port().contains_key(port));
        assert(before.by_port().contains_key(port));
        let origin = before.by_port()[port];
        assert(before.by_client_addr().contains_key(origin.client_addr));
    }
    assert forall|addr: SocketAddress| right.contains_key(addr) implies left.contains_key(addr) by {
        let origin = before.by_client_addr()[addr];
        let port = origin.spec_local_port();
        assert(before.by_port().contains_key(port));
        assert(after.by_port().contains_key(port));
        let peer = after.by_port()[port];
        assert(after.by_client_addr().contains_key(peer.client_addr));
    }
    assert(left =~= right);
}

/// A peer that carries no traffic between two sweeps is gone after the second:
/// if an index holds for `key`, before the second sweep, at most what the first
/// sweep left there, the second sweep leaves nothing there. This holds of the
/// index by local port and of the index by client address alike.
pub proof fn lemma_reap_bound<K>(before: Map<K, Peer>, between: Map<K, Peer>, key: K)
    requires
        between.contains_key(key) ==> swept(before).contains_key(key) && between[key] == swept(
            before,
        )[key],
    ensures
        !swept(between).contains_key(key),
{
}

/// A peer that carried traffic since the last sweep outlives the next one.
pub proof fn lemma_used_peer_survives<K>(peers: Map<K, Peer>, key: K)
    requires
        peers.contains_key(key),
        peers[key].used,
    ensures
        swept(peers).contains_key(key),
        swept(peers)[key] == peers[key].with_used(false),
{
}

} // verus!
