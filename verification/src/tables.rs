//! The tables that the event loop owns: connected peers, what each peer is
//! believed to hold, and the local callers that wait for a reply.

use std::collections::HashMap;
use vstd::prelude::*;

use crate::bytemap::{lemma_paired_remove, ByteMap};
use crate::ident::{Cid, PeerId};
use crate::summary::CacheSummary;

verus! {

/// Identifier that the request/response layer gives to an outbound request.
pub type RequestId = u64;

/// `s` with `x` taken out, the others in their order.
pub open spec fn seq_without(s: Seq<Seq<u8>>, x: Seq<u8>) -> Seq<Seq<u8>> {
    if s.contains(x) {
        s.remove(s.index_of(x))
    } else {
        s
    }
}

/// Taking a value out of a sequence without duplicates leaves the others,
/// and leaves no duplicates.
pub proof fn lemma_seq_without(s: Seq<Seq<u8>>, x: Seq<u8>)
    requires
        s.no_duplicates(),
    ensures
        seq_without(s, x).no_duplicates(),
        forall|y: Seq<u8>| seq_without(s, x).contains(y) <==> (s.contains(y) && y != x),
{
    if s.contains(x) {
        let i = s.index_of(x);
        assert(0 <= i < s.len() && s[i] == x);
        lemma_paired_remove::<int>(s, Seq::new(s.len(), |n: int| n), i);
    }
}

/// The currently connected peers, in the order in which they connected.
#[derive(Debug)]
pub struct PeerTable {
    map: ByteMap<()>,
}

impl View for PeerTable {
    type V = Seq<Seq<u8>>;

    closed spec fn view(&self) -> Seq<Seq<u8>> {
        self.map.keys()
    }
}

impl PeerTable {
    pub closed spec fn wf(&self) -> bool {
        self.map.wf()
    }

    /// No peer stands twice in the table.
    pub proof fn lemma_distinct(&self)
        requires
            self.wf(),
        ensures
            self@.no_duplicates(),
    {
        self.map.lemma_shape();
    }

    pub fn new() -> (table: PeerTable)
        ensures
            table.wf(),
            table@ == Seq::<Seq<u8>>::empty(),
    {
        PeerTable { map: ByteMap::new() }
    }

    pub fn len(&self) -> (n: usize)
        requires
            self.wf(),
        ensures
            n == self@.len(),
    {
        self.map.len()
    }

    pub fn is_empty(&self) -> (empty: bool)
        requires
            self.wf(),
        ensures
            empty == (self@.len() == 0),
    {
        self.map.len() == 0
    }

    pub fn contains(&self, peer: &PeerId) -> (held: bool)
        requires
            self.wf(),
        ensures
            held == self@.contains(peer@),
    {
        self.map.contains_key(peer.as_bytes())
    }

    /// Adds `peer` at the end unless it is there. Says whether it was added.
    pub fn insert(&mut self, peer: &PeerId) -> (added: bool)
        requires
            old(self).wf(),
        ensures
            final(self).wf(),
            added == !old(self)@.contains(peer@),
            final(self)@ == (if added {
                old(self)@.push(peer@)
            } else {
                old(self)@
            }),
    {
        if self.map.contains_key(peer.as_bytes()) {
            false
        } else {
            self.map.insert(peer.to_bytes(), ());
            true
        }
    }

    /// Takes `peer` out. Says whether it was there.
    pub fn remove(&mut self, peer: &PeerId) -> (removed: bool)
        requires
            old(self).wf(),
        ensures
            final(self).wf(),
            removed == old(self)@.contains(peer@),
            final(self)@ == seq_without(old(self)@, peer@),
    {
        proof {
            self.map.lemma_shape();
        }
        self.map.remove(peer.as_bytes()).is_some()
    }

    /// The peer at a place of the table.
    pub fn peer_at(&self, i: usize) -> (peer: PeerId)
        requires
            self.wf(),
            i < self@.len(),
        ensures
            peer@ == self@[i as int],
    {
        PeerId::from_bytes(crate::ident::copy_bytes(self.map.key_at(i)))
    }

    /// All peers of the table, in its order.
    pub fn snapshot(&self) -> (peers: Vec<PeerId>)
        requires
            self.wf(),
        ensures
            peer_views(peers@) == self@,
    {
        let mut peers: Vec<PeerId> = Vec::new();
        let mut i: usize = 0;
        while i < self.len()
            invariant
                self.wf(),
                i <= self@.len(),
                peers@.len() == i,
                forall|n: int| 0 <= n < i ==> peers@[n]@ == self@[n],
            decreases self@.len() - i,
        {
            peers.push(self.peer_at(i));
            i += 1;
        }
        assert(peer_views(peers@) =~= self@);
        peers
    }
}

/// The identities that a sequence of peers stands for.
pub open spec fn peer_views(peers: Seq<PeerId>) -> Seq<Seq<u8>> {
    Seq::new(peers.len(), |i: int| peers[i]@)
}

/// What each peer last said that it holds.
#[derive(Debug)]
pub struct PeerContentMap {
    map: ByteMap<CacheSummary>,
}

impl View for PeerContentMap {
    type V = Map<Seq<u8>, Seq<bool>>;

    closed spec fn view(&self) -> Map<Seq<u8>, Seq<bool>> {
        self.map@.map_values(|s: CacheSummary| s@)
    }
}

impl PeerContentMap {
    pub closed spec fn wf(&self) -> bool {
        self.map.wf()
    }

    pub fn new() -> (table: PeerContentMap)
        ensures
            table.wf(),
            table@ == Map::<Seq<u8>, Seq<bool>>::empty(),
    {
        let table = PeerContentMap { map: ByteMap::new() };
        assert(table@ =~= Map::<Seq<u8>, Seq<bool>>::empty());
        table
    }

    /// Stores `summary` as what `peer` holds, in place of what was stored.
    pub fn insert(&mut self, peer: &PeerId, summary: CacheSummary)
        requires
            old(self).wf(),
        ensures
            final(self).wf(),
            final(self)@ == old(self)@.insert(peer@, summary@),
    {
        self.map.insert(peer.to_bytes(), summary);
        assert(self@ =~= old(self)@.insert(peer@, summary@));
    }

    /// Forgets what `peer` holds.
    pub fn remove(&mut self, peer: &PeerId)
        requires
            old(self).wf(),
        ensures
            final(self).wf(),
            final(self)@ == old(self)@.remove(peer@),
    {
        self.map.remove(peer.as_bytes());
        assert(self@ =~= old(self)@.remove(peer@));
    }

    /// What `peer` last said that it holds, if it said anything.
    pub fn get(&self, peer: &PeerId) -> (summary: Option<&CacheSummary>)
        requires
            self.wf(),
        ensures
            summary is Some <==> self@.contains_key(peer@),
            summary matches Some(s) ==> s@ == self@[peer@],
    {
        self.map.get(peer.as_bytes())
    }

    pub fn contains(&self, peer: &PeerId) -> (held: bool)
        requires
            self.wf(),
        ensures
            held == self@.contains_key(peer@),
    {
        self.map.contains_key(peer.as_bytes())
    }

    pub fn len(&self) -> (n: usize)
        requires
            self.wf(),
        ensures
            n == self@.len(),
    {
        proof {
            self.map.lemma_shape();
            assert(self@.dom() =~= self.map@.dom());
            assert(self.map@.dom() =~= self.map.keys().to_set());
            self.map.keys().unique_seq_to_set();
        }
        self.map.len()
    }
}

/// The local callers that wait for each block, in the order in which they
/// asked. A block with no caller waiting has no entry.
#[derive(Debug)]
pub struct BlockWaiters<R> {
    map: ByteMap<Vec<R>>,
}

impl<R> View for BlockWaiters<R> {
    type V = Map<Seq<u8>, Seq<R>>;

    closed spec fn view(&self) -> Map<Seq<u8>, Seq<R>> {
        self.map@.map_values(|list: Vec<R>| list@)
    }
}

impl<R> BlockWaiters<R> {
    pub closed spec fn wf(&self) -> bool {
        &&& self.map.wf()
        &&& forall|k: Seq<u8>| #[trigger] self.map@.contains_key(k) ==> self.map@[k]@.len() > 0
    }

    /// Every entry holds at least one waiter.
    pub proof fn lemma_entries_nonempty(&self)
        requires
            self.wf(),
        ensures
            forall|k: Seq<u8>| #[trigger] self@.contains_key(k) ==> self@[k].len() > 0,
    {
        assert forall|k: Seq<u8>| #[trigger] self@.contains_key(k) implies self@[k].len() > 0 by {
            assert(self.map@.contains_key(k));
        }
    }

    pub fn new() -> (table: BlockWaiters<R>)
        ensures
            table.wf(),
            table@ == Map::<Seq<u8>, Seq<R>>::empty(),
    {
        let table = BlockWaiters { map: ByteMap::new() };
        assert(table@ =~= Map::<Seq<u8>, Seq<R>>::empty());
        table
    }

    pub fn is_empty(&self) -> (empty: bool)
        requires
            self.wf(),
        ensures
            empty == (self@ == Map::<Seq<u8>, Seq<R>>::empty()),
    {
        let n = self.map.len();
        proof {
            self.map.lemma_shape();
            if n == 0 {
                assert(self@ =~= Map::<Seq<u8>, Seq<R>>::empty());
            } else {
                let k = self.map.keys()[0];
                assert(self.map.keys().contains(k));
                assert(self@.contains_key(k));
            }
        }
        n == 0
    }

    pub fn contains(&self, cid: &Cid) -> (held: bool)
        requires
            self.wf(),
        ensures
            held == self@.contains_key(cid@),
    {
        self.map.contains_key(cid.as_bytes())
    }

    /// Appends `waiter` to those that wait for `cid`. Says whether it is the
    /// first: the caller then has a fetch to start.
    pub fn insert(&mut self, cid: &Cid, waiter: R) -> (first: bool)
        requires
            old(self).wf(),
        ensures
            final(self).wf(),
            first == !old(self)@.contains_key(cid@),
            final(self)@ == old(self)@.insert(
                cid@,
                if first {
                    seq![waiter]
                } else {
                    old(self)@[cid@].push(waiter)
                },
            ),
    {
        match self.map.remove(cid.as_bytes()) {
            Some(list) => {
                let mut list = list;
                let ghost prior = list@;
                list.push(waiter);
                self.map.insert(cid.to_bytes(), list);
                proof {
                    assert(prior == old(self)@[cid@]);
                    assert(self@ =~= old(self)@.insert(cid@, prior.push(waiter)));
                }
                false
            },
            None => {
                let mut list: Vec<R> = Vec::new();
                list.push(waiter);
                self.map.insert(cid.to_bytes(), list);
                proof {
                    assert(list@ =~= seq![waiter]);
                    assert(self@ =~= old(self)@.insert(cid@, seq![waiter]));
                }
                true
            },
        }
    }

    /// Takes out all that wait for `cid`, first come first.
    pub fn remove(&mut self, cid: &Cid) -> (waiters: Option<Vec<R>>)
        requires
            old(self).wf(),
        ensures
            final(self).wf(),
            final(self)@ == old(self)@.remove(cid@),
            waiters is Some <==> old(self)@.contains_key(cid@),
            waiters matches Some(list) ==> list@ == old(self)@[cid@] && list@.len() > 0,
    {
        let waiters = self.map.remove(cid.as_bytes());
        proof {
            assert(self@ =~= old(self)@.remove(cid@));
            if waiters is Some {
                assert(old(self).map@.contains_key(cid@));
            }
        }
        waiters
    }
}

/// Outbound requests that await their response, each with the caller to
/// hand the response to.
#[derive(Debug)]
pub struct PendingResponses<R> {
    map: HashMap<u64, R>,
}

impl<R> View for PendingResponses<R> {
    type V = Map<u64, R>;

    closed spec fn view(&self) -> Map<u64, R> {
        self.map@
    }
}

impl<R> PendingResponses<R> {
    pub fn new() -> (table: PendingResponses<R>)
        ensures
            table@ == Map::<u64, R>::empty(),
    {
        PendingResponses { map: HashMap::new() }
    }

    /// Records that `waiter` awaits the response to `request`.
    pub fn insert(&mut self, request: RequestId, waiter: R)
        ensures
            final(self)@ == old(self)@.insert(request, waiter),
    {
        self.map.insert(request, waiter);
    }

    /// Takes out the caller that awaits the response to `request`.
    pub fn remove(&mut self, request: RequestId) -> (waiter: Option<R>)
        ensures
            final(self)@ == old(self)@.remove(request),
            waiter == (if old(self)@.contains_key(request) {
                Some(old(self)@[request])
            } else {
                None
            }),
    {
        self.map.remove(&request)
    }

    pub fn is_empty(&self) -> (empty: bool)
        ensures
            empty == (self@ == Map::<u64, R>::empty()),
    {
        let empty = self.map.is_empty();
        proof {
            if empty {
                assert(self@ =~= Map::<u64, R>::empty());
            }
        }
        empty
    }
}

} // verus!
