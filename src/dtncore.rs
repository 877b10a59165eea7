//! The node's core: registered endpoints, convergence layers, services and
//! the active routing agent; the statistics; and the node context that holds
//! them together with the configuration, the peer table and the store.

use vstd::prelude::*;

use crate::application_agent::ApplicationAgentEnum;
use crate::keys::{keys_unique, lemma_push_unique, lemma_update_unique};
use crate::bundle::Bundle;
use crate::cla::CLAEnum;
use crate::dtnconfig::{tags_unique, DtnConfig};
use crate::eid::EndpointId;
use crate::peer::{kept_peers, PeerTable};
use crate::routing::{EpidemicRoutingAgent, RoutingAgentsEnum};
use crate::bundle::lifetime_exceeded;
use crate::processing::{forward, forward_post, forwardable, ForwardAction};
use crate::store::{awaits_forwarding, position_of, BundleStore};

verus! {

/// A counter one step on, held at its largest value.
pub open spec fn bumped(n: u64) -> u64 {
    if n == u64::MAX {
        n
    } else {
        (n + 1) as u64
    }
}

/// Counts one more, stopping at the largest value.
pub fn bump(n: u64) -> (r: u64)
    ensures
        r == bumped(n),
{
    if n == u64::MAX {
        n
    } else {
        n + 1
    }
}

/// The node's counters.
#[derive(Clone, Copy, Debug, PartialEq, Eq, Structural)]
pub struct DtnStatistics {
    /// Bundles received and stored.
    pub incoming: u64,
    /// Bundles received again and dropped.
    pub dups: u64,
    /// Bundles forwarded to at least one peer.
    pub outgoing: u64,
    /// Bundles delivered to a local endpoint.
    pub delivered: u64,
    /// Bundles dropped because their lifetime ran out.
    pub broken: u64,
}

impl DtnStatistics {
    /// All counters at zero.
    pub fn new() -> (r: DtnStatistics)
        ensures
            r == (DtnStatistics { incoming: 0, dups: 0, outgoing: 0, delivered: 0, broken: 0 }),
    {
        DtnStatistics { incoming: 0, dups: 0, outgoing: 0, delivered: 0, broken: 0 }
    }
}

/// Whether no two endpoints of `eps` have the same identifier.
pub open spec fn endpoints_unique(eps: Seq<ApplicationAgentEnum>) -> bool {
    keys_unique(eps, |e: ApplicationAgentEnum| e.eid_view().text)
}

/// Whether an endpoint of `eps` has the identifier written `text`.
pub open spec fn has_endpoint(eps: Seq<ApplicationAgentEnum>, text: Seq<char>) -> bool {
    exists|i: int| 0 <= i < eps.len() && (#[trigger] eps[i]).eid_view().text == text
}

/// Where the endpoint written `text` is in `eps`.
pub open spec fn endpoint_position(eps: Seq<ApplicationAgentEnum>, text: Seq<char>) -> int {
    choose|i: int| 0 <= i < eps.len() && (#[trigger] eps[i]).eid_view().text == text
}

/// The node's core.
pub struct DtnCore {
    pub endpoints: Vec<ApplicationAgentEnum>,
    pub cl_list: Vec<CLAEnum>,
    /// Services by tag; one entry per tag.
    pub service_list: Vec<(u8, String)>,
    pub routing_agent: RoutingAgentsEnum,
}

impl DtnCore {
    /// The core's invariant: each endpoint is registered once, and each
    /// service tag is listed once.
    pub open spec fn wf(&self) -> bool {
        &&& endpoints_unique(self.endpoints@)
        &&& tags_unique(self.service_list@)
    }

    /// A core with no endpoint, layer or service, routing epidemically.
    pub fn new() -> (r: DtnCore)
        ensures
            r.wf(),
            r.endpoints@.len() == 0,
            r.cl_list@.len() == 0,
            r.service_list@.len() == 0,
            r.routing_agent is EpidemicRoutingAgent,
            r.routing_agent.history().is_empty(),
    {
        DtnCore {
            endpoints: Vec::new(),
            cl_list: Vec::new(),
            service_list: Vec::new(),
            routing_agent: RoutingAgentsEnum::EpidemicRoutingAgent(EpidemicRoutingAgent::new()),
        }
    }

    /// Where the endpoint written `text` is registered, if it is.
    fn find_endpoint(&self, text: &String) -> (r: Option<usize>)
        requires
            self.wf(),
        ensures
            r is None <==> !has_endpoint(self.endpoints@, text@),
            r matches Some(i) ==> i < self.endpoints@.len() && i == endpoint_position(
                self.endpoints@,
                text@,
            ) && self.endpoints@[i as int].eid_view().text == text@,
    {
        let mut i: usize = 0;
        while i < self.endpoints.len()
            invariant
                i <= self.endpoints@.len(),
                self.wf(),
                forall|k: int| 0 <= k < i ==> (#[trigger] self.endpoints@[k]).eid_view().text != text@,
            decreases self.endpoints@.len() - i,
        {
            if self.endpoints[i].eid().text == *text {
                proof {
                    assert(has_endpoint(self.endpoints@, text@));
                    let k = endpoint_position(self.endpoints@, text@);
                    assert(self.endpoints@[k].eid_view().text == text@);
                }
                return Some(i);
            }
            i = i + 1;
        }
        None
    }

    /// Whether an endpoint written `text` is registered.
    pub fn find_local(&self, text: &String) -> (r: bool)
        requires
            self.wf(),
        ensures
            r == has_endpoint(self.endpoints@, text@),
    {
        self.find_endpoint(text).is_some()
    }

    /// Whether an endpoint with identifier `eid` is registered.
    pub fn is_in_endpoints(&self, eid: &EndpointId) -> (r: bool)
        requires
            self.wf(),
        ensures
            r == has_endpoint(self.endpoints@, eid.text@),
    {
        self.find_endpoint(&eid.text).is_some()
    }

    /// Registers an application agent, unless one with its endpoint is
    /// registered already.
    pub fn register_application_agent(&mut self, aa: ApplicationAgentEnum)
        requires
            old(self).wf(),
        ensures
            final(self).wf(),
            final(self).cl_list == old(self).cl_list,
            final(self).service_list == old(self).service_list,
            final(self).routing_agent == old(self).routing_agent,
            has_endpoint(old(self).endpoints@, aa.eid_view().text) ==> final(self).endpoints
                == old(self).endpoints,
            !has_endpoint(old(self).endpoints@, aa.eid_view().text) ==> final(self).endpoints@
                == old(self).endpoints@.push(aa),
    {
        if !self.is_in_endpoints(aa.eid()) {
            let ghost a = aa;
            self.endpoints.push(aa);
            proof {
                let o = old(self).endpoints@;
                assert(self.endpoints@ == o.push(a));
                lemma_push_unique(o, |e: ApplicationAgentEnum| e.eid_view().text, a);
            }
        }
    }

    /// Queues `bundle` at the endpoint written `text`; false (and nothing
    /// done) where no such endpoint is registered.
    pub fn deliver(&mut self, text: &String, bundle: Bundle) -> (r: bool)
        requires
            old(self).wf(),
        ensures
            final(self).wf(),
            r == has_endpoint(old(self).endpoints@, text@),
            final(self).cl_list == old(self).cl_list,
            final(self).service_list == old(self).service_list,
            final(self).routing_agent == old(self).routing_agent,
            final(self).endpoints@.len() == old(self).endpoints@.len(),
            !r ==> final(self).endpoints == old(self).endpoints,
            r ==> ({
                let k = endpoint_position(old(self).endpoints@, text@);
                &&& forall|j: int|
                    0 <= j < old(self).endpoints@.len() && j != k ==> #[trigger] final(self).endpoints@[j] == old(self).endpoints@[j]
                &&& final(self).endpoints@[k].eid_view() == old(self).endpoints@[k].eid_view()
                &&& final(self).endpoints@[k].queue() == old(self).endpoints@[k].queue().push(
                    bundle@,
                )
            }),
    {
        match self.find_endpoint(text) {
            Some(i) => {
                let ghost bv = bundle@;
                let mut eps: Vec<ApplicationAgentEnum> = Vec::new();
                std::mem::swap(&mut eps, &mut self.endpoints);
                let mut agent = eps.remove(i);
                agent.push(bundle);
                eps.insert(i, agent);
                self.endpoints = eps;
                proof {
                    let o = old(self).endpoints@;
                    assert forall|j: int| 0 <= j < o.len() && j != i implies #[trigger] self.endpoints@[j]
                        == o[j] by {
                        if j < i {
                            assert(self.endpoints@[j] == o.remove(i as int)[j]);
                        } else {
                            assert(self.endpoints@[j] == o.remove(i as int)[j - 1]);
                        }
                    }
                    assert(self.endpoints@ =~= o.update(i as int, self.endpoints@[i as int]));
                    lemma_update_unique(o, |e: ApplicationAgentEnum| e.eid_view().text, i as int, self.endpoints@[i as int]);
                }
                true
            },
            None => false,
        }
    }

    /// Takes the oldest bundle off the queue of the endpoint `eid`; `None`
    /// where it is not registered or nothing waits there.
    pub fn pickup(&mut self, eid: &EndpointId) -> (r: Option<Bundle>)
        requires
            old(self).wf(),
        ensures
            final(self).wf(),
            final(self).endpoints@.len() == old(self).endpoints@.len(),
            !has_endpoint(old(self).endpoints@, eid.text@) ==> r is None && final(self).endpoints
                == old(self).endpoints,
            has_endpoint(old(self).endpoints@, eid.text@) ==> ({
                let k = endpoint_position(old(self).endpoints@, eid.text@);
                let q = old(self).endpoints@[k].queue();
                &&& forall|j: int|
                    0 <= j < old(self).endpoints@.len() && j != k ==> #[trigger] final(self).endpoints@[j] == old(self).endpoints@[j]
                &&& final(self).endpoints@[k].eid_view() == old(self).endpoints@[k].eid_view()
                &&& q.len() == 0 ==> r is None && final(self).endpoints@[k].queue() == q
                &&& q.len() > 0 ==> (r matches Some(b) && b@ == q[0] && final(self).endpoints@[k].queue() == q.drop_first())
            }),
    {
        match self.find_endpoint(&eid.text) {
            Some(i) => {
                let mut eps: Vec<ApplicationAgentEnum> = Vec::new();
                std::mem::swap(&mut eps, &mut self.endpoints);
                let mut agent = eps.remove(i);
                let r = agent.pop();
                eps.insert(i, agent);
                self.endpoints = eps;
                proof {
                    let o = old(self).endpoints@;
                    assert forall|j: int| 0 <= j < o.len() && j != i implies #[trigger] self.endpoints@[j]
                        == o[j] by {
                        if j < i {
                            assert(self.endpoints@[j] == o.remove(i as int)[j]);
                        } else {
                            assert(self.endpoints@[j] == o.remove(i as int)[j - 1]);
                        }
                    }
                    assert(self.endpoints@ =~= o.update(i as int, self.endpoints@[i as int]));
                    lemma_update_unique(o, |e: ApplicationAgentEnum| e.eid_view().text, i as int, self.endpoints@[i as int]);
                }
                r
            },
            None => None,
        }
    }
}

impl Default for DtnCore {
    /// A core with no endpoint, layer or service, routing epidemically.
    fn default() -> (r: DtnCore)
        ensures
            r.wf(),
            r.endpoints@.len() == 0,
            r.cl_list@.len() == 0,
            r.service_list@.len() == 0,
            r.routing_agent is EpidemicRoutingAgent,
            r.routing_agent.history().is_empty(),
    {
        DtnCore::new()
    }
}

/// Everything a node holds: configuration, core, peers, store and
/// statistics.
pub struct DtnNode {
    pub config: DtnConfig,
    pub core: DtnCore,
    pub peers: PeerTable,
    pub store: BundleStore,
    pub stats: DtnStatistics,
}

impl DtnNode {
    /// The node's invariant: that of each part.
    pub open spec fn wf(&self) -> bool {
        &&& self.config.wf()
        &&& self.core.wf()
        &&& self.peers.wf()
        &&& self.store.wf()
    }

    /// A node with configuration `config` and routing agent `routing_agent`:
    /// no endpoint, layer, peer or bundle yet, counters at zero.
    pub fn new(config: DtnConfig, routing_agent: RoutingAgentsEnum) -> (r: DtnNode)
        requires
            config.wf(),
        ensures
            r.wf(),
            r.config == config,
            r.core.routing_agent == routing_agent,
            r.core.endpoints@.len() == 0,
            r.core.cl_list@.len() == 0,
            r.core.service_list@.len() == 0,
            r.peers@.len() == 0,
            r.store@.len() == 0,
            r.stats == (DtnStatistics { incoming: 0, dups: 0, outgoing: 0, delivered: 0, broken: 0 }),
    {
        let mut core = DtnCore::new();
        core.routing_agent = routing_agent;
        DtnNode {
            config,
            core,
            peers: PeerTable::new(),
            store: BundleStore::new(),
            stats: DtnStatistics::new(),
        }
    }
}

/// Drops the dynamic peers not seen within the configured peer timeout at
/// time `now`; static peers stay.
pub fn process_peers(node: &mut DtnNode, now: u64)
    requires
        old(node).wf(),
    ensures
        final(node).wf(),
        final(node).peers@ == kept_peers(old(node).peers@, now, old(node).config.peer_timeout),
        final(node).config == old(node).config,
        final(node).core == old(node).core,
        final(node).store == old(node).store,
        final(node).stats == old(node).stats,
{
    let timeout = node.config.peer_timeout;
    node.peers.remove_expired(now, timeout);
}

/// Whether `states` (each well formed) runs from its first to its last node
/// through one forwarding step per identifier of `ids`, at time `now`, with the results
/// `actions`.
pub open spec fn forward_chain(
    states: Seq<DtnNode>,
    ids: Seq<Seq<char>>,
    now: u64,
    actions: Seq<ForwardAction>,
) -> bool {
    &&& states.len() == ids.len() + 1
    &&& actions.len() == ids.len()
    &&& forall|k: int| 0 <= k < states.len() ==> (#[trigger] states[k]).wf()
    &&& forall|k: int|
        0 <= k < ids.len() ==> #[trigger] forward_post(states[k], states[k + 1], ids[k], now, actions[k])
}

/// Whether `ids` lists the bundles of node `n` that wait for a routing
/// decision or to be forwarded, each once, oldest first.
pub open spec fn waiting_oldest_first(n: DtnNode, ids: Seq<Seq<char>>) -> bool {
    &&& forall|k: int|
        0 <= k < ids.len() ==> n.store.contains(#[trigger] ids[k]) && awaits_forwarding(
            n.store.pack_of(ids[k]),
        )
    &&& forall|j: int|
        0 <= j < n.store@.len() && awaits_forwarding(#[trigger] n.store@[j]) ==> exists|k: int|
            0 <= k < ids.len() && #[trigger] ids[k] == n.store@[j].bundle.id
    &&& forall|a: int, b: int| 0 <= a < b < ids.len() ==> #[trigger] ids[a] != #[trigger] ids[b]
    &&& forall|a: int, b: int|
        0 <= a < b < ids.len() ==> n.store.pack_of(#[trigger] ids[a]).bundle.creation_time
            <= n.store.pack_of(#[trigger] ids[b]).bundle.creation_time
}

/// Forwards again, at DTN time `now`, every bundle that waits for a routing
/// decision or to be forwarded, oldest (by creation time) first, one
/// forwarding step each: a bundle whose lifetime ran out is deleted and not
/// sent, one without a route stays waiting, and a step's result never stops
/// the next. Returns the identifiers in that order and the step results; the
/// caller carries out the transfers and reports them back.
pub fn process_bundles(node: &mut DtnNode, now: u64) -> (r: (Vec<String>, Vec<ForwardAction>))
    requires
        old(node).wf(),
    ensures
        final(node).wf(),
        waiting_oldest_first(*old(node), r.0@.map_values(|s: String| s@)),
        exists|states: Seq<DtnNode>|
            {
                &&& states[0] == *old(node)
                &&& states.last() == *final(node)
                &&& forward_chain(states, r.0@.map_values(|s: String| s@), now, r.1@)
            },
{
    let ids = node.store.ids_oldest_first();
    let ghost idv = ids@.map_values(|s: String| s@);
    let ghost start = *node;
    proof {
        assert forall|k: int| 0 <= k < idv.len() implies #[trigger] idv[k] == ids@[k]@ by {}
        assert forall|j: int|
            0 <= j < start.store@.len() && awaits_forwarding(#[trigger] start.store@[j]) implies exists|k: int|
                0 <= k < idv.len() && #[trigger] idv[k] == start.store@[j].bundle.id by {
            let k = choose|k: int| 0 <= k < ids@.len() && (#[trigger] ids@[k])@ == start.store@[j].bundle.id;
            assert(idv[k] == ids@[k]@);
        }
        assert forall|a: int, b: int| 0 <= a < b < idv.len() implies #[trigger] idv[a] != #[trigger] idv[b] by {
            assert(idv[a] == ids@[a]@ && idv[b] == ids@[b]@);
        }
        assert forall|a: int, b: int|
            0 <= a < b < idv.len() implies start.store.pack_of(#[trigger] idv[a]).bundle.creation_time
                <= start.store.pack_of(#[trigger] idv[b]).bundle.creation_time by {
            assert(idv[a] == ids@[a]@ && idv[b] == ids@[b]@);
        }
        assert(waiting_oldest_first(start, idv));
    }
    let mut actions: Vec<ForwardAction> = Vec::new();
    let ghost mut states: Seq<DtnNode> = seq![*node];
    let mut k: usize = 0;
    while k < ids.len()
        invariant
            k <= ids@.len(),
            idv == ids@.map_values(|s: String| s@),
            node.wf(),
            states.len() == k + 1,
            actions@.len() == k,
            states[0] == start,
            states.last() == *node,
            forall|j: int| 0 <= j < states.len() ==> (#[trigger] states[j]).wf(),
            forall|j: int|
                0 <= j < k ==> #[trigger] forward_post(states[j], states[j + 1], idv[j], now, actions@[j]),
        decreases ids@.len() - k,
    {
        let ghost before = *node;
        let a = forward(node, ids[k].as_str(), now);
        proof {
            let old_states = states;
            states = states.push(*node);
            assert forall|j: int| 0 <= j < states.len() implies (#[trigger] states[j]).wf() by {
                if j < old_states.len() {
                    assert(states[j] == old_states[j]);
                }
            }
            assert(idv[k as int] == ids@[k as int]@);
            assert forall|j: int|
                0 <= j < k + 1 implies #[trigger] forward_post(states[j], states[j + 1], idv[j], now, (actions@.push(a))[j]) by {
                if j < k {
                    assert(states[j] == old_states[j] && states[j + 1] == old_states[j + 1]);
                } else {
                    assert(states[j] == before);
                }
            }
        }
        actions.push(a);
        k = k + 1;
    }
    proof {
        assert(forward_chain(states, idv, now, actions@));
        assert(states[0] == start && states.last() == *node);
    }
    (ids, actions)
}

/// A forwarding step for another bundle never brings back a bundle that is
/// not stored.
pub proof fn lemma_forward_keeps_absent(
    o: DtnNode,
    n: DtnNode,
    step_id: Seq<char>,
    now: u64,
    r: ForwardAction,
    id: Seq<char>,
)
    requires
        o.store.wf(),
        forward_post(o, n, step_id, now, r),
        !o.store.contains(id),
    ensures
        !n.store.contains(id),
{
    if o.store.contains(step_id) {
        let pos = position_of(o.store@, step_id);
        assert(o.store@[pos].bundle.id == step_id);
        if n.store.contains(id) {
            let j = choose|j: int| 0 <= j < n.store@.len() && #[trigger] n.store@[j].bundle.id == id;
            let p = o.store.pack_of(step_id);
            if lifetime_exceeded(p.bundle, now) {
                let j2 = if j < pos { j } else { j + 1 };
                assert(n.store@[j] == o.store@.remove(pos)[j]);
                assert(o.store@[j2].bundle.id == id);
            } else if forwardable(p.status) {
                if j != pos {
                    assert(o.store@[j].bundle.id == id);
                }
            } else {
                assert(o.store@[j].bundle.id == id);
            }
        }
    }
}

proof fn lemma_chain_keeps_absent(
    states: Seq<DtnNode>,
    ids: Seq<Seq<char>>,
    now: u64,
    actions: Seq<ForwardAction>,
    id: Seq<char>,
    m: int,
    j: int,
)
    requires
        forward_chain(states, ids, now, actions),
        0 <= m <= j < states.len(),
        !states[m].store.contains(id),
    ensures
        !states[j].store.contains(id),
    decreases j - m,
{
    if m < j {
        assert(forward_post(states[m], states[m + 1], ids[m], now, actions[m]));
        assert(states[m].wf());
        lemma_forward_keeps_absent(states[m], states[m + 1], ids[m], now, actions[m], id);
        lemma_chain_keeps_absent(states, ids, now, actions, id, m + 1, j);
    }
}

/// In a sweep, a bundle whose lifetime has run out when its turn comes is
/// deleted, and no later step of the sweep finds it stored again, so it is
/// never handed to a transfer.
pub proof fn lemma_sweep_deletes_expired(
    states: Seq<DtnNode>,
    ids: Seq<Seq<char>>,
    now: u64,
    actions: Seq<ForwardAction>,
    k: int,
)
    requires
        forward_chain(states, ids, now, actions),
        0 <= k < ids.len(),
        states[k].store.contains(ids[k]),
        lifetime_exceeded(states[k].store.pack_of(ids[k]).bundle, now),
    ensures
        actions[k] is Expired,
        forall|j: int| k < j < states.len() ==> !(#[trigger] states[j]).store.contains(ids[k]),
        forall|j: int|
            k < j < ids.len() ==> !((#[trigger] actions[j]) matches ForwardAction::Transfer(plan)
                && plan.bundle_id@ == ids[k]),
{
    assert(forward_post(states[k], states[k + 1], ids[k], now, actions[k]));
    assert forall|j: int| k < j < states.len() implies !(#[trigger] states[j]).store.contains(ids[k]) by {
        lemma_chain_keeps_absent(states, ids, now, actions, ids[k], k + 1, j);
    }
    assert forall|j: int|
        k < j < ids.len() implies !((#[trigger] actions[j]) matches ForwardAction::Transfer(plan)
            && plan.bundle_id@ == ids[k]) by {
        assert(forward_post(states[j], states[j + 1], ids[j], now, actions[j]));
        assert(!states[j].store.contains(ids[k]));
    }
}

} // verus!
