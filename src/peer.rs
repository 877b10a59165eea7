//! Peers and the peer table: which nodes were seen, where, over which
//! convergence layers, and when.

use vstd::prelude::*;

use crate::cla::{known_cla, is_known_cla, ClaSender, SenderView};
use crate::keys::{keys_unique, lemma_push_unique, lemma_update_unique};
use crate::eid::{EidView, EndpointId};

verus! {

/// How a peer came to be known: from configuration (it never expires) or
/// from discovery (it expires when not seen for a while).
#[derive(Clone, Copy, Debug, PartialEq, Eq, Structural)]
pub enum PeerType {
    Static,
    Dynamic,
}

/// A peer: its endpoint, its address, how it came to be known, the
/// convergence layers it advertised (name and port), and when it was last
/// seen (DTN time in milliseconds).
pub struct DtnPeer {
    pub eid: EndpointId,
    pub addr: String,
    pub con_type: PeerType,
    pub cla_list: Vec<(String, Option<u16>)>,
    pub last_contact: u64,
}

/// What a peer is, as plain values.
pub struct PeerView {
    pub eid: EidView,
    pub addr: Seq<char>,
    pub con_type: PeerType,
    pub cla_list: Seq<(Seq<char>, Option<u16>)>,
    pub last_contact: u64,
}

impl View for DtnPeer {
    type V = PeerView;

    open spec fn view(&self) -> PeerView {
        PeerView {
            eid: self.eid@,
            addr: self.addr@,
            con_type: self.con_type,
            cla_list: self.cla_list@.map_values(|c: (String, Option<u16>)| (c.0@, c.1)),
            last_contact: self.last_contact,
        }
    }
}

/// Whether a peer is still to be kept at time `now`: a static peer always, a
/// dynamic one while less than `timeout` milliseconds passed since it was seen.
pub open spec fn peer_valid(p: PeerView, now: u64, timeout: u64) -> bool {
    p.con_type == PeerType::Static || (now as int) - (p.last_contact as int) < timeout as int
}

/// The first of the advertised layers that this node can use, from position
/// `k` on, as a sender descriptor towards `addr`.
pub open spec fn first_cla_from(
    addr: Seq<char>,
    list: Seq<(Seq<char>, Option<u16>)>,
    k: int,
) -> Option<SenderView>
    decreases list.len() - k,
{
    if k < 0 || k >= list.len() {
        None
    } else if is_known_cla(list[k].0) {
        Some(SenderView { remote: addr, port: list[k].1, agent: list[k].0 })
    } else {
        first_cla_from(addr, list, k + 1)
    }
}

/// The sender descriptor for the first layer of a peer that this node can
/// use.
pub open spec fn first_cla_of(p: PeerView) -> Option<SenderView> {
    first_cla_from(p.addr, p.cla_list, 0)
}

/// The node name of the first peer of `s`, from position `k` on, at address
/// `addr`.
pub open spec fn node_at_addr_from(s: Seq<PeerView>, addr: Seq<char>, k: int) -> Option<Seq<char>>
    decreases s.len() - k,
{
    if k < 0 || k >= s.len() {
        None
    } else if s[k].addr == addr {
        Some(s[k].eid.node)
    } else {
        node_at_addr_from(s, addr, k + 1)
    }
}

/// The node name of the first peer of `s` at address `addr`.
pub open spec fn node_at_addr(s: Seq<PeerView>, addr: Seq<char>) -> Option<Seq<char>> {
    node_at_addr_from(s, addr, 0)
}

/// The peers of `s` that a sweep at time `now` keeps, in order.
pub open spec fn kept_peers(s: Seq<PeerView>, now: u64, timeout: u64) -> Seq<PeerView>
    decreases s.len(),
{
    if s.len() == 0 {
        Seq::empty()
    } else {
        let rest = kept_peers(s.drop_last(), now, timeout);
        if peer_valid(s.last(), now, timeout) {
            rest.push(s.last())
        } else {
            rest
        }
    }
}

/// Whether no two peers of `s` have the same node name.
pub open spec fn nodes_unique(s: Seq<PeerView>) -> bool {
    keys_unique(s, |p: PeerView| p.eid.node)
}

/// Whether a peer of `s` has the node name `node`.
pub open spec fn has_node(s: Seq<PeerView>, node: Seq<char>) -> bool {
    exists|i: int| 0 <= i < s.len() && #[trigger] s[i].eid.node == node
}

/// The position of the peer with node name `node` in `s`.
pub open spec fn node_position(s: Seq<PeerView>, node: Seq<char>) -> int {
    choose|i: int| 0 <= i < s.len() && #[trigger] s[i].eid.node == node
}

proof fn lemma_node_position(s: Seq<PeerView>, node: Seq<char>, i: int)
    requires
        nodes_unique(s),
        0 <= i < s.len(),
        s[i].eid.node == node,
    ensures
        has_node(s, node),
        node_position(s, node) == i,
{
    assert(has_node(s, node));
    let k = node_position(s, node);
    assert(s[k].eid.node == node);
}

/// Every peer that a sweep keeps was in the table before.
pub proof fn lemma_kept_peers_from(s: Seq<PeerView>, now: u64, timeout: u64)
    ensures
        forall|k: int|
            0 <= k < kept_peers(s, now, timeout).len() ==> s.contains(
                #[trigger] kept_peers(s, now, timeout)[k],
            ),
    decreases s.len(),
{
    if s.len() > 0 {
        let d = s.drop_last();
        lemma_kept_peers_from(d, now, timeout);
        let rest = kept_peers(d, now, timeout);
        assert forall|k: int|
            0 <= k < kept_peers(s, now, timeout).len() implies s.contains(
                #[trigger] kept_peers(s, now, timeout)[k],
            ) by {
            if k < rest.len() {
                let i = choose|i: int| 0 <= i < d.len() && d[i] == rest[k];
                assert(s[i] == kept_peers(s, now, timeout)[k]);
            } else {
                assert(s[s.len() - 1] == kept_peers(s, now, timeout)[k]);
            }
        }
    }
}

proof fn lemma_kept_peers_unique(s: Seq<PeerView>, now: u64, timeout: u64)
    requires
        nodes_unique(s),
    ensures
        nodes_unique(kept_peers(s, now, timeout)),
    decreases s.len(),
{
    if s.len() > 0 {
        let d = s.drop_last();
        assert(nodes_unique(d));
        lemma_kept_peers_unique(d, now, timeout);
        lemma_kept_peers_from(d, now, timeout);
        let rest = kept_peers(d, now, timeout);
        if peer_valid(s.last(), now, timeout) {
            let r = rest.push(s.last());
            assert forall|i: int, j: int|
                0 <= i < r.len() && 0 <= j < r.len() && i != j implies #[trigger] r[i].eid.node
                != #[trigger] r[j].eid.node by {
                if i < rest.len() && j < rest.len() {
                    assert(r[i] == rest[i] && r[j] == rest[j]);
                } else if i < rest.len() {
                    assert(d.contains(rest[i]));
                    let a = choose|a: int| 0 <= a < d.len() && d[a] == rest[i];
                    assert(s[a] == d[a]);
                    assert(s[s.len() - 1] == r[j]);
                } else {
                    assert(d.contains(rest[j]));
                    let a = choose|a: int| 0 <= a < d.len() && d[a] == rest[j];
                    assert(s[a] == d[a]);
                    assert(s[s.len() - 1] == r[i]);
                }
            }
        }
    }
}

proof fn lemma_kept_peers_contains(s: Seq<PeerView>, now: u64, timeout: u64, p: PeerView)
    ensures
        kept_peers(s, now, timeout).contains(p) <==> (s.contains(p) && peer_valid(p, now, timeout)),
    decreases s.len(),
{
    if s.len() > 0 {
        let d = s.drop_last();
        let x = s.last();
        lemma_kept_peers_contains(d, now, timeout, p);
        let rest = kept_peers(d, now, timeout);
        let kept = kept_peers(s, now, timeout);
        if s.contains(p) {
            let i = choose|i: int| 0 <= i < s.len() && s[i] == p;
            if i < d.len() {
                assert(d[i] == p);
            }
        }
        if d.contains(p) {
            let i = choose|i: int| 0 <= i < d.len() && d[i] == p;
            assert(s[i] == p);
        }
        if kept.contains(p) {
            let k = choose|k: int| 0 <= k < kept.len() && kept[k] == p;
            if k < rest.len() {
                assert(rest[k] == p);
            }
        }
        if peer_valid(x, now, timeout) {
            if rest.contains(p) {
                let k = choose|k: int| 0 <= k < rest.len() && rest[k] == p;
                assert(kept[k] == p);
            }
            assert(kept[rest.len() as int] == x);
        }
        assert(s[s.len() - 1] == x);
    }
}

/// The sweep keeps exactly the valid peers: a static peer stays however long
/// it went unseen, and a dynamic peer unseen for the timeout or longer is gone.
pub proof fn lemma_peer_expiry(s: Seq<PeerView>, now: u64, timeout: u64, p: PeerView)
    requires
        s.contains(p),
    ensures
        kept_peers(s, now, timeout).contains(p) <==> peer_valid(p, now, timeout),
        p.con_type == PeerType::Static ==> kept_peers(s, now, timeout).contains(p),
        p.con_type == PeerType::Dynamic && (now as int) - (p.last_contact as int) >= timeout
            ==> !kept_peers(s, now, timeout).contains(p),
{
    lemma_kept_peers_contains(s, now, timeout, p);
}

impl DtnPeer {
    /// The node name of the peer.
    pub fn node_name(&self) -> (r: String)
        ensures
            r@ == self.eid.node@,
    {
        self.eid.node.clone()
    }

    /// Whether the peer is to be kept at time `now` under the timeout
    /// `timeout` (milliseconds).
    pub fn still_valid(&self, now: u64, timeout: u64) -> (r: bool)
        ensures
            r == peer_valid(self@, now, timeout),
    {
        match self.con_type {
            PeerType::Static => true,
            PeerType::Dynamic => now < self.last_contact || now - self.last_contact < timeout,
        }
    }

    /// A sender descriptor for the first advertised layer that this node can
    /// use.
    pub fn first_cla(&self) -> (r: Option<ClaSender>)
        ensures
            r matches Some(c) ==> first_cla_of(self@) == Some(c@),
            r is None ==> first_cla_of(self@) is None,
    {
        let mut k: usize = 0;
        while k < self.cla_list.len()
            invariant
                k <= self@.cla_list.len(),
                self@.cla_list.len() == self.cla_list@.len(),
                first_cla_from(self@.addr, self@.cla_list, 0) == first_cla_from(
                    self@.addr,
                    self@.cla_list,
                    k as int,
                ),
            decreases self.cla_list@.len() - k,
        {
            if known_cla(&self.cla_list[k].0) {
                return Some(
                    ClaSender {
                        remote: self.addr.clone(),
                        port: self.cla_list[k].1,
                        agent: self.cla_list[k].0.clone(),
                    },
                );
            }
            k = k + 1;
        }
        None
    }

    /// A copy of this peer.
    pub fn copy(&self) -> (r: DtnPeer)
        ensures
            r@ == self@,
    {
        let mut clas: Vec<(String, Option<u16>)> = Vec::new();
        let mut k: usize = 0;
        while k < self.cla_list.len()
            invariant
                k <= self.cla_list@.len(),
                clas@.len() == k,
                forall|j: int|
                    0 <= j < k ==> (#[trigger] clas@[j]).0@ == self.cla_list@[j].0@ && clas@[j].1
                        == self.cla_list@[j].1,
            decreases self.cla_list@.len() - k,
        {
            let name = self.cla_list[k].0.clone();
            clas.push((name, self.cla_list[k].1));
            k = k + 1;
        }
        assert(clas@.map_values(|c: (String, Option<u16>)| (c.0@, c.1)) =~= self.cla_list@.map_values(
            |c: (String, Option<u16>)| (c.0@, c.1),
        ));
        DtnPeer {
            eid: self.eid.copy(),
            addr: self.addr.clone(),
            con_type: self.con_type,
            cla_list: clas,
            last_contact: self.last_contact,
        }
    }
}

/// The peers that this node knows, one per node name.
pub struct PeerTable {
    peers: Vec<DtnPeer>,
}

impl View for PeerTable {
    type V = Seq<PeerView>;

    closed spec fn view(&self) -> Seq<PeerView> {
        self.peers@.map_values(|p: DtnPeer| p@)
    }
}

impl PeerTable {
    /// The table's invariant: node names are unique.
    pub open spec fn wf(&self) -> bool {
        nodes_unique(self@)
    }

    /// An empty table.
    pub fn new() -> (r: PeerTable)
        ensures
            r@ == Seq::<PeerView>::empty(),
            r.wf(),
    {
        PeerTable { peers: Vec::new() }
    }

    /// The number of known peers.
    pub fn count(&self) -> (r: usize)
        ensures
            r == self@.len(),
    {
        self.peers.len()
    }

    /// The peer at position `i`.
    pub fn get(&self, i: usize) -> (r: &DtnPeer)
        requires
            i < self@.len(),
        ensures
            r@ == self@[i as int],
    {
        &self.peers[i]
    }

    /// Forgets every peer.
    pub fn clear(&mut self)
        ensures
            final(self)@ == Seq::<PeerView>::empty(),
            final(self).wf(),
    {
        self.peers = Vec::new();
        assert(self@ =~= Seq::<PeerView>::empty());
    }

    /// Where the peer with node name `node` stands, if it is known.
    fn position(&self, node: &String) -> (r: Option<usize>)
        requires
            self.wf(),
        ensures
            r is None <==> !has_node(self@, node@),
            r matches Some(i) ==> i < self@.len() && self@[i as int].eid.node == node@ && i
                == node_position(self@, node@),
    {
        let mut i: usize = 0;
        while i < self.peers.len()
            invariant
                i <= self@.len(),
                self.wf(),
                forall|k: int| 0 <= k < i ==> #[trigger] self@[k].eid.node != node@,
            decreases self@.len() - i,
        {
            if self.peers[i].eid.node == *node {
                proof {
                    lemma_node_position(self@, node@, i as int);
                }
                return Some(i);
            }
            i = i + 1;
        }
        None
    }

    /// Adds a peer, or refreshes the entry of its node (address, layers, last
    /// contact and all). True where the node was not known before.
    pub fn add(&mut self, peer: DtnPeer) -> (r: bool)
        requires
            old(self).wf(),
        ensures
            final(self).wf(),
            r == !has_node(old(self)@, peer.eid.node@),
            r ==> final(self)@ == old(self)@.push(peer@),
            !r ==> final(self)@ == old(self)@.update(
                node_position(old(self)@, peer.eid.node@),
                peer@,
            ),
    {
        let ghost pv = peer@;
        match self.position(&peer.eid.node) {
            Some(i) => {
                self.peers.set(i, peer);
                proof {
                    let o = old(self)@;
                    assert(self@ =~= o.update(i as int, pv));
                    lemma_update_unique(o, |p: PeerView| p.eid.node, i as int, pv);
                }
                false
            },
            None => {
                self.peers.push(peer);
                proof {
                    let o = old(self)@;
                    assert(self@ =~= o.push(pv));
                    lemma_push_unique(o, |p: PeerView| p.eid.node, pv);
                }
                true
            },
        }
    }

    /// A copy of the peer on the node of `eid`.
    pub fn get_for_node(&self, eid: &EndpointId) -> (r: Option<DtnPeer>)
        requires
            self.wf(),
        ensures
            r is Some <==> has_node(self@, eid.node@),
            r matches Some(p) ==> p@ == self@[node_position(self@, eid.node@)],
    {
        match self.position(&eid.node) {
            Some(i) => Some(self.peers[i].copy()),
            None => None,
        }
    }

    /// The sender descriptor for the first usable layer of the peer on the
    /// node of `eid`.
    pub fn cla_for_node(&self, eid: &EndpointId) -> (r: Option<ClaSender>)
        requires
            self.wf(),
        ensures
            !has_node(self@, eid.node@) ==> r is None,
            has_node(self@, eid.node@) ==> match r {
                Some(c) => first_cla_of(self@[node_position(self@, eid.node@)]) == Some(c@),
                None => first_cla_of(self@[node_position(self@, eid.node@)]) is None,
            },
    {
        match self.position(&eid.node) {
            Some(i) => self.peers[i].first_cla(),
            None => None,
        }
    }

    /// The node name of the first peer (in table order) at address `addr`.
    pub fn find_by_remote(&self, addr: &String) -> (r: Option<String>)
        ensures
            match r {
                Some(n) => node_at_addr(self@, addr@) == Some(n@),
                None => node_at_addr(self@, addr@) is None,
            },
    {
        let mut i: usize = 0;
        while i < self.peers.len()
            invariant
                i <= self@.len(),
                node_at_addr(self@, addr@) == node_at_addr_from(self@, addr@, i as int),
            decreases self@.len() - i,
        {
            if self.peers[i].addr == *addr {
                return Some(self.peers[i].node_name());
            }
            i = i + 1;
        }
        None
    }

    /// The peers that are still valid at time `now` under the timeout
    /// `timeout`, in order, as a table of their own.
    pub fn valid_peers(&self, now: u64, timeout: u64) -> (r: PeerTable)
        requires
            self.wf(),
        ensures
            r.wf(),
            r@ == kept_peers(self@, now, timeout),
    {
        let ghost o = self@;
        let mut r = PeerTable::new();
        let mut i: usize = 0;
        while i < self.peers.len()
            invariant
                i <= o.len(),
                o == self@,
                r@ == kept_peers(o.subrange(0, i as int), now, timeout),
            decreases o.len() - i,
        {
            proof {
                let s = o.subrange(0, i as int + 1);
                assert(s.drop_last() =~= o.subrange(0, i as int));
                assert(s.last() == self.peers@[i as int]@);
            }
            if self.peers[i].still_valid(now, timeout) {
                let p = self.peers[i].copy();
                let ghost before = r@;
                r.peers.push(p);
                proof {
                    assert(r@ =~= before.push(p@));
                }
            }
            i = i + 1;
        }
        proof {
            assert(o.subrange(0, o.len() as int) =~= o);
            lemma_kept_peers_unique(o, now, timeout);
        }
        r
    }

    /// Drops the peers that are no longer valid at time `now` under the
    /// timeout `timeout`; keeps the others in order.
    pub fn remove_expired(&mut self, now: u64, timeout: u64)
        requires
            old(self).wf(),
        ensures
            final(self).wf(),
            final(self)@ == kept_peers(old(self)@, now, timeout),
    {
        *self = self.valid_peers(now, timeout);
    }
}

} // verus!
