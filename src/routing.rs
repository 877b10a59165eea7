//! Routing agents: given a stored bundle and the known peers, they pick the
//! next hops. Epidemic routing remembers, per bundle, the peers it was already
//! handed to; flooding hands every bundle to every peer; a sink relays nothing.

use vstd::prelude::*;

use crate::bundlepack::BundlePack;
use crate::cla::{ClaSender, SenderView};
use crate::eid::EndpointId;
use crate::peer::{first_cla_of, PeerTable, PeerView};

verus! {

/// Events that a routing agent learns of.
pub enum RoutingNotifcation {
    /// Sending the bundle (first) to the peer with the node name (second)
    /// failed.
    SendingFailed(String, String),
    /// A bundle (its identifier) arrived, from the peer with the node name
    /// given where it came from a peer.
    IncomingBundle(String, Option<String>),
    /// A peer was seen.
    EncounteredPeer(EndpointId),
}

/// A record of which bundles (first) went to which nodes (second).
pub type History = Set<(Seq<char>, Seq<char>)>;

/// The peers of `peers` that epidemic routing picks for bundle `bid` under
/// history `h`: those with a usable convergence layer that the bundle did not
/// go to yet, in table order.
pub open spec fn epidemic_chosen(h: History, bid: Seq<char>, peers: Seq<PeerView>) -> Seq<PeerView>
    decreases peers.len(),
{
    if peers.len() == 0 {
        Seq::empty()
    } else {
        let rest = epidemic_chosen(h, bid, peers.drop_last());
        let p = peers.last();
        if first_cla_of(p) is Some && !h.contains((bid, p.eid.node)) {
            rest.push(p)
        } else {
            rest
        }
    }
}

/// The peers of `peers` that flooding picks: all with a usable convergence
/// layer, in table order.
pub open spec fn flooding_chosen(peers: Seq<PeerView>) -> Seq<PeerView>
    decreases peers.len(),
{
    if peers.len() == 0 {
        Seq::empty()
    } else {
        let rest = flooding_chosen(peers.drop_last());
        if first_cla_of(peers.last()) is Some {
            rest.push(peers.last())
        } else {
            rest
        }
    }
}

/// The sender descriptors for the chosen peers.
pub open spec fn senders_of(ps: Seq<PeerView>) -> Seq<SenderView> {
    ps.map_values(|p: PeerView| first_cla_of(p)->0)
}

/// History `h` with bundle `bid` recorded as sent to every node of `ps`.
pub open spec fn record(h: History, bid: Seq<char>, ps: Seq<PeerView>) -> History {
    h.union(
        Set::new(
            |t: (Seq<char>, Seq<char>)|
                t.0 == bid && exists|k: int| 0 <= k < ps.len() && #[trigger] ps[k].eid.node == t.1,
        ),
    )
}

/// The view of each sender descriptor of `v`.
pub open spec fn sender_views(v: Seq<ClaSender>) -> Seq<SenderView> {
    v.map_values(|c: ClaSender| c@)
}

/// History `h` after notification `n`: a failed send is forgotten, so that the
/// bundle may go to that node again; a bundle that came from a peer is
/// recorded as known there.
pub open spec fn history_after(h: History, n: RoutingNotifcation) -> History {
    match n {
        RoutingNotifcation::SendingFailed(bid, node) => h.remove((bid@, node@)),
        RoutingNotifcation::IncomingBundle(bid, from) => match from {
            Some(node) => h.insert((bid@, node@)),
            None => h,
        },
        RoutingNotifcation::EncounteredPeer(_) => h,
    }
}

proof fn lemma_epidemic_chosen_contains(h: History, bid: Seq<char>, peers: Seq<PeerView>, q: PeerView)
    ensures
        epidemic_chosen(h, bid, peers).contains(q) <==> (peers.contains(q) && first_cla_of(q) is Some
            && !h.contains((bid, q.eid.node))),
    decreases peers.len(),
{
    if peers.len() > 0 {
        let d = peers.drop_last();
        let x = peers.last();
        lemma_epidemic_chosen_contains(h, bid, d, q);
        let rest = epidemic_chosen(h, bid, d);
        let c = epidemic_chosen(h, bid, peers);
        if peers.contains(q) {
            let i = choose|i: int| 0 <= i < peers.len() && peers[i] == q;
            if i < d.len() {
                assert(d[i] == q);
            }
        }
        if d.contains(q) {
            let i = choose|i: int| 0 <= i < d.len() && d[i] == q;
            assert(peers[i] == q);
        }
        if c.contains(q) {
            let k = choose|k: int| 0 <= k < c.len() && c[k] == q;
            if k < rest.len() {
                assert(rest[k] == q);
            }
        }
        if first_cla_of(x) is Some && !h.contains((bid, x.eid.node)) {
            if rest.contains(q) {
                let k = choose|k: int| 0 <= k < rest.len() && rest[k] == q;
                assert(c[k] == q);
            }
            assert(c[rest.len() as int] == x);
        }
        assert(peers[peers.len() - 1] == x);
    }
}

/// Epidemic routing hands a bundle to a node once. After a choice for bundle
/// `bid` that included peer `done_peer`, with no failure recorded in between, the
/// next choice leaves out every peer on `done_peer`'s node, and it still includes a
/// reachable peer `new_peer` to which the bundle never went.
pub proof fn lemma_epidemic_no_resend(
    h: History,
    bid: Seq<char>,
    first: Seq<PeerView>,
    later: Seq<PeerView>,
    done_peer: PeerView,
    new_peer: PeerView,
)
    requires
        epidemic_chosen(h, bid, first).contains(done_peer),
        later.contains(new_peer),
        first_cla_of(new_peer) is Some,
        !record(h, bid, epidemic_chosen(h, bid, first)).contains((bid, new_peer.eid.node)),
    ensures
        ({
            let next = epidemic_chosen(record(h, bid, epidemic_chosen(h, bid, first)), bid, later);
            &&& forall|k: int| 0 <= k < next.len() ==> (#[trigger] next[k]).eid.node != done_peer.eid.node
            &&& next.contains(new_peer)
        }),
{
    let c1 = epidemic_chosen(h, bid, first);
    let h1 = record(h, bid, c1);
    let next = epidemic_chosen(h1, bid, later);
    let k1 = choose|k: int| 0 <= k < c1.len() && c1[k] == done_peer;
    assert(c1[k1].eid.node == done_peer.eid.node);
    assert(h1.contains((bid, done_peer.eid.node)));
    assert forall|k: int| 0 <= k < next.len() implies (#[trigger] next[k]).eid.node != done_peer.eid.node by {
        assert(next.contains(next[k]));
        lemma_epidemic_chosen_contains(h1, bid, later, next[k]);
    }
    lemma_epidemic_chosen_contains(h1, bid, later, new_peer);
}

/// A sink relays nothing: whatever it is asked, it picks no peer.
pub proof fn lemma_sink_never_relays(agent: RoutingAgentsEnum, bid: Seq<char>, peers: Seq<PeerView>)
    requires
        agent is SinkRoutingAgent,
    ensures
        agent.chosen(bid, peers) == Seq::<PeerView>::empty(),
        senders_of(agent.chosen(bid, peers)).len() == 0,
{
}

/// Epidemic routing: relays a bundle to every reachable peer that it did not
/// go to yet.
pub struct EpidemicRoutingAgent {
    history: Vec<(String, String)>,
}

/// The pairs of bundle and node recorded in `v`, as a set of texts.
pub open spec fn pair_set(v: Seq<(String, String)>) -> History {
    Set::new(
        |t: (Seq<char>, Seq<char>)|
            exists|i: int| 0 <= i < v.len() && (#[trigger] v[i]).0@ == t.0 && v[i].1@ == t.1,
    )
}

proof fn lemma_pair_set_push(v: Seq<(String, String)>, x: (String, String))
    ensures
        pair_set(v.push(x)) == pair_set(v).insert((x.0@, x.1@)),
{
    let w = v.push(x);
    assert forall|t: (Seq<char>, Seq<char>)|
        pair_set(w).contains(t) == pair_set(v).insert((x.0@, x.1@)).contains(t) by {
        if pair_set(v).contains(t) {
            let i = choose|i: int| 0 <= i < v.len() && (#[trigger] v[i]).0@ == t.0 && v[i].1@ == t.1;
            assert(w[i] == v[i]);
        }
        if t == (x.0@, x.1@) {
            assert(w[v.len() as int] == x);
        }
        if pair_set(w).contains(t) {
            let i = choose|i: int| 0 <= i < w.len() && (#[trigger] w[i]).0@ == t.0 && w[i].1@ == t.1;
            if i < v.len() {
                assert(w[i] == v[i]);
            }
        }
    }
    assert(pair_set(w) =~= pair_set(v).insert((x.0@, x.1@)));
}

impl View for EpidemicRoutingAgent {
    type V = History;

    closed spec fn view(&self) -> History {
        pair_set(self.history@)
    }
}

impl EpidemicRoutingAgent {
    /// An agent that has sent nothing yet.
    pub fn new() -> (r: EpidemicRoutingAgent)
        ensures
            r@ == History::empty(),
    {
        let r = EpidemicRoutingAgent { history: Vec::new() };
        assert(r@ =~= History::empty());
        r
    }

    /// Whether bundle `bid` is recorded as sent to node `node`.
    fn knows(&self, bid: &String, node: &String) -> (r: bool)
        ensures
            r == self@.contains((bid@, node@)),
    {
        let mut i: usize = 0;
        while i < self.history.len()
            invariant
                i <= self.history@.len(),
                forall|k: int|
                    0 <= k < i ==> !((#[trigger] self.history@[k]).0@ == bid@ && self.history@[k].1@
                        == node@),
            decreases self.history@.len() - i,
        {
            if self.history[i].0 == *bid && self.history[i].1 == *node {
                assert(self@.contains((bid@, node@)));
                return true;
            }
            i = i + 1;
        }
        false
    }

    /// Records bundle `bid` as sent to node `node`.
    fn add(&mut self, bid: &String, node: &String)
        ensures
            final(self)@ == old(self)@.insert((bid@, node@)),
    {
        if !self.knows(bid, node) {
            let entry = (bid.clone(), node.clone());
            proof {
                lemma_pair_set_push(self.history@, entry);
            }
            self.history.push(entry);
        } else {
            assert(old(self)@.insert((bid@, node@)) =~= old(self)@);
        }
    }

    /// Forgets that bundle `bid` went to node `node`.
    fn remove(&mut self, bid: &String, node: &String)
        ensures
            final(self)@ == old(self)@.remove((bid@, node@)),
    {
        let ghost target = (bid@, node@);
        let mut kept: Vec<(String, String)> = Vec::new();
        let mut i: usize = 0;
        assert(pair_set(kept@) =~= pair_set(self.history@.subrange(0, 0)).remove(target));
        while i < self.history.len()
            invariant
                i <= self.history@.len(),
                self.history == old(self).history,
                target == (bid@, node@),
                pair_set(kept@) == pair_set(self.history@.subrange(0, i as int)).remove(target),
            decreases self.history@.len() - i,
        {
            let ghost sub = self.history@.subrange(0, i as int);
            proof {
                assert(self.history@.subrange(0, i as int + 1) =~= sub.push(self.history@[i as int]));
                lemma_pair_set_push(sub, self.history@[i as int]);
            }
            let same_bid = self.history[i].0 == *bid;
            let same_node = self.history[i].1 == *node;
            if !(same_bid && same_node) {
                let entry = (self.history[i].0.clone(), self.history[i].1.clone());
                proof {
                    let hv = (self.history@[i as int].0@, self.history@[i as int].1@);
                    assert((entry.0@, entry.1@) == hv);
                    assert(hv != target);
                    lemma_pair_set_push(kept@, entry);
                    assert(pair_set(kept@.push(entry)) =~= pair_set(sub.push(self.history@[i as int])).remove(target));
                }
                kept.push(entry);
            } else {
                assert((self.history@[i as int].0@, self.history@[i as int].1@) == target);
                assert(pair_set(kept@) =~= pair_set(sub.push(self.history@[i as int])).remove(target));
            }
            i = i + 1;
        }
        proof {
            assert(self.history@.subrange(0, self.history@.len() as int) =~= self.history@);
        }
        self.history = kept;
    }

    /// Takes note of an event.
    pub fn notify(&mut self, notification: RoutingNotifcation)
        ensures
            final(self)@ == history_after(old(self)@, notification),
    {
        match notification {
            RoutingNotifcation::SendingFailed(bid, node) => self.remove(&bid, &node),
            RoutingNotifcation::IncomingBundle(bid, from) => match from {
                Some(node) => self.add(&bid, &node),
                None => {},
            },
            RoutingNotifcation::EncounteredPeer(_) => {},
        }
    }

    /// Picks the peers that the bundle of `bp` did not go to yet and that
    /// have a usable layer, and records it as sent to them. The bundle is
    /// kept for peers met later.
    pub fn sender_for_bundle(&mut self, bp: &BundlePack, peers: &PeerTable) -> (r: (
        Vec<ClaSender>,
        bool,
    ))
        ensures
            sender_views(r.0@) == senders_of(epidemic_chosen(old(self)@, bp.bundle.id@, peers@)),
            !r.1,
            final(self)@ == record(
                old(self)@,
                bp.bundle.id@,
                epidemic_chosen(old(self)@, bp.bundle.id@, peers@),
            ),
    {
        let bid = &bp.bundle.id;
        let ghost h = self@;
        let mut clas: Vec<ClaSender> = Vec::new();
        let mut nodes: Vec<String> = Vec::new();
        let mut i: usize = 0;
        while i < peers.count()
            invariant
                i <= peers@.len(),
                self@ == h,
                nodes@.len() == clas@.len(),
                sender_views(clas@) == senders_of(
                    epidemic_chosen(h, bid@, peers@.subrange(0, i as int)),
                ),
                forall|k: int|
                    0 <= k < nodes@.len() ==> (#[trigger] nodes@[k])@ == epidemic_chosen(
                        h,
                        bid@,
                        peers@.subrange(0, i as int),
                    )[k].eid.node,
            decreases peers@.len() - i,
        {
            let p = peers.get(i);
            let ghost sub = peers@.subrange(0, i as int + 1);
            proof {
                assert(sub.drop_last() =~= peers@.subrange(0, i as int));
                assert(sub.last() == p@);
            }
            let ghost prev = epidemic_chosen(h, bid@, peers@.subrange(0, i as int));
            match p.first_cla() {
                Some(c) => {
                    if !self.knows(bid, &p.eid.node) {
                        let ghost before = clas@;
                        let ghost nbefore = nodes@;
                        let ghost cv = c@;
                        clas.push(c);
                        nodes.push(p.node_name());
                        proof {
                            assert(epidemic_chosen(h, bid@, sub) == prev.push(p@));
                            assert(sender_views(clas@) =~= sender_views(before).push(cv));
                            assert(senders_of(prev.push(p@)) =~= senders_of(prev).push(cv));
                            assert forall|k: int| 0 <= k < nodes@.len() implies (#[trigger] nodes@[k])@
                                == epidemic_chosen(h, bid@, sub)[k].eid.node by {
                                if k < nbefore.len() {
                                    assert(nodes@[k] == nbefore[k]);
                                }
                            }
                        }
                    }
                },
                None => {},
            }
            i = i + 1;
        }
        let ghost chosen = epidemic_chosen(h, bid@, peers@);
        proof {
            assert(peers@.subrange(0, peers@.len() as int) =~= peers@);
        }
        let mut j: usize = 0;
        while j < nodes.len()
            invariant
                j <= nodes@.len(),
                nodes@.len() == chosen.len(),
                forall|k: int| 0 <= k < nodes@.len() ==> (#[trigger] nodes@[k])@ == chosen[k].eid.node,
                self@ == record(h, bid@, chosen.subrange(0, j as int)),
            decreases nodes@.len() - j,
        {
            let ghost before = self@;
            self.add(bid, &nodes[j]);
            proof {
                let s2 = chosen.subrange(0, j as int + 1);
                assert forall|t: (Seq<char>, Seq<char>)|
                    self@.contains(t) == record(h, bid@, s2).contains(t) by {
                    if t.0 == bid@ && exists|k: int| 0 <= k < s2.len() && #[trigger] s2[k].eid.node == t.1 {
                        let k = choose|k: int| 0 <= k < s2.len() && #[trigger] s2[k].eid.node == t.1;
                        if k < j {
                            assert(chosen.subrange(0, j as int)[k].eid.node == t.1);
                        }
                    }
                    if t.0 == bid@ && exists|k: int|
                        0 <= k < j && #[trigger] chosen.subrange(0, j as int)[k].eid.node == t.1 {
                        let k = choose|k: int|
                            0 <= k < j && #[trigger] chosen.subrange(0, j as int)[k].eid.node == t.1;
                        assert(s2[k].eid.node == t.1);
                    }
                    if t == (bid@, nodes@[j as int]@) {
                        assert(s2[j as int].eid.node == t.1);
                    }
                }
                assert(self@ =~= record(h, bid@, s2));
            }
            j = j + 1;
        }
        proof {
            assert(chosen.subrange(0, chosen.len() as int) =~= chosen);
        }
        (clas, false)
    }
}

/// Flooding: relays every bundle to every reachable peer.
#[derive(Clone, Copy, Debug)]
pub struct FloodingRoutingAgent {}

impl FloodingRoutingAgent {
    /// A flooding agent.
    pub fn new() -> (r: FloodingRoutingAgent) {
        FloodingRoutingAgent {  }
    }

    /// Picks every peer that has a usable layer.
    pub fn sender_for_bundle(&self, bp: &BundlePack, peers: &PeerTable) -> (r: (Vec<ClaSender>, bool))
        ensures
            sender_views(r.0@) == senders_of(flooding_chosen(peers@)),
            !r.1,
    {
        let mut clas: Vec<ClaSender> = Vec::new();
        let mut i: usize = 0;
        while i < peers.count()
            invariant
                i <= peers@.len(),
                sender_views(clas@) == senders_of(flooding_chosen(peers@.subrange(0, i as int))),
            decreases peers@.len() - i,
        {
            let p = peers.get(i);
            let ghost sub = peers@.subrange(0, i as int + 1);
            proof {
                assert(sub.drop_last() =~= peers@.subrange(0, i as int));
                assert(sub.last() == p@);
            }
            let ghost prev = flooding_chosen(peers@.subrange(0, i as int));
            match p.first_cla() {
                Some(c) => {
                    let ghost before = clas@;
                    let ghost cv = c@;
                    clas.push(c);
                    proof {
                        assert(sender_views(clas@) =~= sender_views(before).push(cv));
                        assert(senders_of(prev.push(p@)) =~= senders_of(prev).push(cv));
                    }
                },
                None => {},
            }
            i = i + 1;
        }
        proof {
            assert(peers@.subrange(0, peers@.len() as int) =~= peers@);
        }
        (clas, false)
    }
}

/// A sink: accepts bundles and relays none.
#[derive(Clone, Copy, Debug)]
pub struct SinkRoutingAgent {}

impl SinkRoutingAgent {
    /// A sink agent.
    pub fn new() -> (r: SinkRoutingAgent) {
        SinkRoutingAgent {  }
    }

    /// Picks no peer, whatever the bundle.
    pub fn sender_for_bundle(&self, bp: &BundlePack, peers: &PeerTable) -> (r: (Vec<ClaSender>, bool))
        ensures
            r.0@.len() == 0,
            !r.1,
    {
        (Vec::new(), false)
    }
}

/// The routing agents that a node can run; one is active.
pub enum RoutingAgentsEnum {
    EpidemicRoutingAgent(EpidemicRoutingAgent),
    FloodingRoutingAgent(FloodingRoutingAgent),
    SinkRoutingAgent(SinkRoutingAgent),
}

impl RoutingAgentsEnum {
    /// What the agent remembers of sent bundles (empty but for epidemic
    /// routing).
    pub open spec fn history(&self) -> History {
        match self {
            RoutingAgentsEnum::EpidemicRoutingAgent(e) => e@,
            _ => History::empty(),
        }
    }

    /// The peers that the agent picks for bundle `bid` among `peers`.
    pub open spec fn chosen(&self, bid: Seq<char>, peers: Seq<PeerView>) -> Seq<PeerView> {
        match self {
            RoutingAgentsEnum::EpidemicRoutingAgent(e) => epidemic_chosen(e@, bid, peers),
            RoutingAgentsEnum::FloodingRoutingAgent(_) => flooding_chosen(peers),
            RoutingAgentsEnum::SinkRoutingAgent(_) => Seq::empty(),
        }
    }

    /// The peers that an agent of this kind picks for bundle `bid` among
    /// `peers` under history `h`.
    pub open spec fn choose_under(&self, h: History, bid: Seq<char>, peers: Seq<PeerView>) -> Seq<
        PeerView,
    > {
        match self {
            RoutingAgentsEnum::EpidemicRoutingAgent(_) => epidemic_chosen(h, bid, peers),
            RoutingAgentsEnum::FloodingRoutingAgent(_) => flooding_chosen(peers),
            RoutingAgentsEnum::SinkRoutingAgent(_) => Seq::empty(),
        }
    }

    /// Whether two agents are of the same kind.
    pub open spec fn same_kind(&self, other: &RoutingAgentsEnum) -> bool {
        match (self, other) {
            (RoutingAgentsEnum::EpidemicRoutingAgent(_), RoutingAgentsEnum::EpidemicRoutingAgent(_)) => true,
            (RoutingAgentsEnum::FloodingRoutingAgent(_), RoutingAgentsEnum::FloodingRoutingAgent(_)) => true,
            (RoutingAgentsEnum::SinkRoutingAgent(_), RoutingAgentsEnum::SinkRoutingAgent(_)) => true,
            _ => false,
        }
    }

    /// Takes note of an event; only epidemic routing keeps anything of it.
    pub fn notify(&mut self, notification: RoutingNotifcation)
        ensures
            final(self).same_kind(old(self)),
            *old(self) is EpidemicRoutingAgent ==> final(self).history() == history_after(
                old(self).history(),
                notification,
            ),
            !(*old(self) is EpidemicRoutingAgent) ==> *final(self) == *old(self),
    {
        match self {
            RoutingAgentsEnum::EpidemicRoutingAgent(e) => e.notify(notification),
            _ => {},
        }
    }

    /// The senders for the bundle of `bp`, and whether the bundle may be
    /// dropped once sent.
    pub fn sender_for_bundle(&mut self, bp: &BundlePack, peers: &PeerTable) -> (r: (
        Vec<ClaSender>,
        bool,
    ))
        ensures
            sender_views(r.0@) == senders_of(old(self).chosen(bp.bundle.id@, peers@)),
            !r.1,
            final(self).same_kind(old(self)),
            !(*old(self) is EpidemicRoutingAgent) ==> *final(self) == *old(self),
            final(self).history() == if *old(self) is EpidemicRoutingAgent {
                record(old(self).history(), bp.bundle.id@, old(self).chosen(bp.bundle.id@, peers@))
            } else {
                old(self).history()
            },
    {
        match self {
            RoutingAgentsEnum::EpidemicRoutingAgent(e) => e.sender_for_bundle(bp, peers),
            RoutingAgentsEnum::FloodingRoutingAgent(f) => f.sender_for_bundle(bp, peers),
            RoutingAgentsEnum::SinkRoutingAgent(s) => {
                let r = s.sender_for_bundle(bp, peers);
                assert(sender_views(r.0@) =~= senders_of(Seq::<PeerView>::empty()));
                r
            },
        }
    }
}

/// Whether `name` names a routing agent.
pub open spec fn is_routing_name(name: Seq<char>) -> bool {
    name == "flooding"@ || name == "epidemic"@ || name == "sink"@
}

/// The routing agent called `name` (`flooding`, `epidemic` or `sink`), fresh;
/// `None` for any other name.
pub fn new(name: &str) -> (r: Option<RoutingAgentsEnum>)
    ensures
        r is Some <==> is_routing_name(name@),
        name@ == "flooding"@ ==> r matches Some(RoutingAgentsEnum::FloodingRoutingAgent(_)),
        name@ == "epidemic"@ ==> (r matches Some(a) && a is EpidemicRoutingAgent && a.history()
            == History::empty()),
        name@ == "sink"@ ==> r matches Some(RoutingAgentsEnum::SinkRoutingAgent(_)),
{
    proof {
        reveal_strlit("flooding");
        reveal_strlit("epidemic");
        reveal_strlit("sink");
    }
    assert("epidemic"@[0] != "flooding"@[0]);
    assert("sink"@[0] != "flooding"@[0]);
    assert("sink"@[0] != "epidemic"@[0]);
    let n = name.to_owned();
    if n == String::from_str("flooding") {
        Some(RoutingAgentsEnum::FloodingRoutingAgent(FloodingRoutingAgent::new()))
    } else if n == String::from_str("epidemic") {
        Some(RoutingAgentsEnum::EpidemicRoutingAgent(EpidemicRoutingAgent::new()))
    } else if n == String::from_str("sink") {
        Some(RoutingAgentsEnum::SinkRoutingAgent(SinkRoutingAgent::new()))
    } else {
        None
    }
}

} // verus!
