//! The processing engine: receipt, local delivery, forwarding and the
//! bookkeeping after a transfer. Transfers themselves are the caller's: a
//! forwarding step returns what to send where, and the caller reports back
//! how each send went.

use vstd::prelude::*;

use crate::bundle::{bp7_bundle, copy_bytes, lifetime_exceeded, Bundle, BundleView};
use crate::bundlepack::{BundleStatus, PackView};
use crate::cla::{ClaSender, SenderView};
use crate::dtncore::{bump, bumped, has_endpoint, DtnNode, DtnStatistics};
use crate::routing::{
    history_after, record, senders_of, sender_views, History, RoutingAgentsEnum, RoutingNotifcation,
};
use crate::peer::{kept_peers, PeerView};
use crate::store::{exactly_one, holds_id, ids_unique, position_of};

verus! {

/// What to send: the bundle's identifier and serialized form, the senders
/// to hand it to, and whether the bundle may be dropped once sent.
pub struct TransferPlan {
    pub bundle_id: String,
    pub bytes: Vec<u8>,
    pub senders: Vec<ClaSender>,
    pub delete_afterwards: bool,
}

/// The result of a forwarding step.
pub enum ForwardAction {
    /// No bundle with this identifier is stored.
    Missing,
    /// The bundle's lifetime ran out: it was deleted, and nothing is sent.
    Expired,
    /// The bundle was delivered or forwarded already; nothing was done.
    Finished,
    /// No peer to send to: the bundle waits for the next sweep.
    NoRoute,
    /// Send the bundle as the plan says, then report back.
    Transfer(TransferPlan),
}

/// Whether a bundle in status `s` is (still) to be forwarded.
pub open spec fn forwardable(s: BundleStatus) -> bool {
    s == BundleStatus::Received || s == BundleStatus::Dispatching || s == BundleStatus::Forwarding
}

/// The addresses that a list of senders points to.
pub open spec fn remotes(senders: Seq<SenderView>) -> Seq<Seq<char>> {
    senders.map_values(|s: SenderView| s.remote)
}

/// A pack after a forwarding attempt towards `senders`: waiting in
/// `Forwarding`; where something is to be sent, one attempt more and the
/// senders' addresses noted.
pub open spec fn after_attempt(p: PackView, senders: Seq<SenderView>) -> PackView {
    if senders.len() == 0 {
        PackView { status: BundleStatus::Forwarding, ..p }
    } else {
        PackView {
            status: BundleStatus::Forwarding,
            attempts: bumped(p.attempts),
            last_peers: remotes(senders),
            ..p
        }
    }
}

/// A routing agent's history after a choice of `chosen` for bundle `bid`:
/// recorded where the agent routes epidemically.
pub open spec fn history_after_choice(
    a: RoutingAgentsEnum,
    bid: Seq<char>,
    chosen: Seq<crate::peer::PeerView>,
) -> History {
    if a is EpidemicRoutingAgent {
        record(a.history(), bid, chosen)
    } else {
        a.history()
    }
}

/// The addresses of the senders, in order.
fn sender_remotes(senders: &Vec<ClaSender>) -> (r: Vec<String>)
    ensures
        r@.map_values(|s: String| s@) == remotes(sender_views(senders@)),
{
    let mut r: Vec<String> = Vec::new();
    let mut i: usize = 0;
    while i < senders.len()
        invariant
            i <= senders@.len(),
            r@.len() == i,
            forall|k: int| 0 <= k < i ==> (#[trigger] r@[k])@ == senders@[k].remote@,
        decreases senders@.len() - i,
    {
        r.push(senders[i].remote.clone());
        i = i + 1;
    }
    assert(r@.map_values(|s: String| s@) =~= remotes(sender_views(senders@)));
    r
}

/// What a forwarding step for identifier `id` at time `now` does to node
/// `o`, giving node `n` and result `r`.
pub open spec fn forward_post(o: DtnNode, n: DtnNode, id: Seq<char>, now: u64, r: ForwardAction) -> bool {
    &&& n.config == o.config
    &&& n.peers == o.peers
    &&& n.core.endpoints == o.core.endpoints
    &&& n.core.cl_list == o.core.cl_list
    &&& n.core.service_list == o.core.service_list
    &&& !o.store.contains(id) ==> r is Missing && n.store@ == o.store@
            && n.core.routing_agent == o.core.routing_agent && n.stats
            == o.stats
    &&& o.store.contains(id) ==> ({
            let p = o.store.pack_of(id);
            let pos = position_of(o.store@, id);
            let agent = o.core.routing_agent;
            let chosen = agent.chosen(id, kept_peers(o.peers@, now, o.config.peer_timeout));
            &&& lifetime_exceeded(p.bundle, now) ==> {
                &&& r is Expired
                &&& n.store@ == o.store@.remove(pos)
                &&& !n.store.contains(id)
                &&& n.core.routing_agent == agent
                &&& n.stats == (DtnStatistics { broken: bumped(o.stats.broken), ..o.stats })
            }
            &&& !lifetime_exceeded(p.bundle, now) && !forwardable(p.status) ==> {
                &&& r is Finished
                &&& n.store@ == o.store@
                &&& n.core.routing_agent == agent
                &&& n.stats == o.stats
            }
            &&& !lifetime_exceeded(p.bundle, now) && forwardable(p.status) ==> {
                &&& n.store@ == o.store@.update(pos, after_attempt(p, senders_of(chosen)))
                &&& n.stats == o.stats
                &&& n.core.routing_agent.same_kind(&agent)
                &&& n.core.routing_agent.history() == history_after_choice(agent, id, chosen)
                &&& chosen.len() == 0 ==> r is NoRoute
                &&& chosen.len() > 0 ==> (r matches ForwardAction::Transfer(plan) && plan.bundle_id@ == id
                    && plan.bytes@ == p.bundle.bytes && sender_views(plan.senders@) == senders_of(chosen)
                    && !plan.delete_afterwards)
            }
        })
}

/// One forwarding step for the stored bundle `id` at DTN time `now`. A
/// bundle whose lifetime ran out is deleted and not sent. Otherwise the
/// routing agent picks among the peers that are still valid; the bundle
/// waits in `Forwarding`, and
/// where there are peers, the step says what to send to whom.
pub fn forward(node: &mut DtnNode, id: &str, now: u64) -> (r: ForwardAction)
    requires
        old(node).wf(),
    ensures
        final(node).wf(),
        forward_post(*old(node), *final(node), id@, now, r),
{
    let mut pack = match node.store.get_metadata(id) {
        Some(p) => p,
        None => return ForwardAction::Missing,
    };
    let ghost pos = position_of(node.store@, id@);
    if pack.bundle.is_lifetime_exceeded(now) {
        let _ = node.store.remove(id);
        node.stats.broken = bump(node.stats.broken);
        return ForwardAction::Expired;
    }
    if pack.status == BundleStatus::Received {
        let _ = pack.transition(BundleStatus::Dispatching);
    }
    if !(pack.status == BundleStatus::Dispatching || pack.status == BundleStatus::Forwarding) {
        return ForwardAction::Finished;
    }
    let _ = pack.transition(BundleStatus::Forwarding);
    let valid = node.peers.valid_peers(now, node.config.peer_timeout);
    let (senders, delete_afterwards) = node.core.routing_agent.sender_for_bundle(&pack, &valid);
    if senders.len() == 0 {
        let _ = node.store.update_metadata(pack);
        return ForwardAction::NoRoute;
    }
    pack.attempts = bump(pack.attempts);
    pack.last_peers = sender_remotes(&senders);
    let bytes = copy_bytes(&pack.bundle.bytes);
    let _ = node.store.update_metadata(pack);
    ForwardAction::Transfer(
        TransferPlan { bundle_id: id.to_owned(), bytes, senders, delete_afterwards },
    )
}

/// What became of a received bundle.
pub enum ReceiveOutcome {
    /// A bundle with its identifier was stored already: dropped.
    Duplicate,
    /// Delivered to a local endpoint.
    Delivered,
    /// Stored and given to forwarding, with this result.
    Forward(ForwardAction),
}

/// A pack for bundle `b`, received at time `now`, in status `st`.
pub open spec fn fresh_pack(b: BundleView, now: u64, st: BundleStatus) -> PackView {
    PackView { bundle: b, status: st, received_at: now, attempts: 0, last_peers: Seq::empty() }
}

/// How receiving bundle `b` at time `now` turns store `s0` into `s1`: a
/// stored identifier leaves the store as it was; a new bundle is stored once,
/// unless its lifetime ran out before it could be forwarded.
pub open spec fn store_after_receive(
    s0: Seq<PackView>,
    s1: Seq<PackView>,
    b: BundleView,
    now: u64,
) -> bool {
    &&& holds_id(s0, b.id) ==> s1 == s0
    &&& !holds_id(s0, b.id) && !lifetime_exceeded(b, now) ==> exists|p: PackView|
        p.bundle == b && s1 == s0.push(p)
    &&& !holds_id(s0, b.id) && lifetime_exceeded(b, now) ==> s1 == s0 || exists|p: PackView|
        p.bundle == b && s1 == s0.push(p)
}

/// Receiving a bundle twice leaves exactly one pack with its identifier,
/// where its lifetime had not run out at the first receipt.
pub proof fn lemma_receive_dedup(
    s0: Seq<PackView>,
    s1: Seq<PackView>,
    s2: Seq<PackView>,
    b: BundleView,
    now1: u64,
    now2: u64,
)
    requires
        ids_unique(s0),
        store_after_receive(s0, s1, b, now1),
        store_after_receive(s1, s2, b, now2),
        !lifetime_exceeded(b, now1),
    ensures
        exactly_one(s2, b.id),
{
    if holds_id(s0, b.id) {
        let i = choose|i: int| 0 <= i < s0.len() && #[trigger] s0[i].bundle.id == b.id;
        assert(s2 == s0);
        assert(exactly_one(s2, b.id)) by {
            assert forall|j: int| 0 <= j < s2.len() && #[trigger] s2[j].bundle.id == b.id implies j == i by {}
        }
    } else {
        let p = choose|p: PackView| p.bundle == b && s1 == s0.push(p);
        let i = s0.len() as int;
        assert(s1[i].bundle.id == b.id);
        assert(holds_id(s1, b.id));
        assert(s2 == s1);
        assert forall|j: int| 0 <= j < s2.len() && #[trigger] s2[j].bundle.id == b.id implies j == i by {
            if j < i {
                assert(s0[j] == s1[j]);
                assert(holds_id(s0, b.id));
            }
        }
    }
}

/// History `h` after hearing that bundle `bid` arrived, from the node named
/// `from` where it came from a peer.
pub open spec fn incoming_history(h: History, bid: Seq<char>, from: Option<String>) -> History {
    match from {
        Some(f) => h.insert((bid, f@)),
        None => h,
    }
}

/// Whether a bundle `b` received at time `now` goes to a local endpoint of
/// node `o`: its destination is registered there and its lifetime has not
/// run out.
pub open spec fn delivers_locally(o: DtnNode, b: BundleView, now: u64) -> bool {
    has_endpoint(o.core.endpoints@, b.destination) && !lifetime_exceeded(b, now)
}

/// What receiving bundle `b` at time `now`, from the node named `from` where
/// known, does to node `o`, giving node `n` and outcome `r`.
pub open spec fn receive_post(
    o: DtnNode,
    n: DtnNode,
    b: BundleView,
    from: Option<String>,
    now: u64,
    r: ReceiveOutcome,
) -> bool {
    &&& n.config == o.config
    &&& n.peers == o.peers
    &&& n.core.cl_list == o.core.cl_list
    &&& n.core.service_list == o.core.service_list
    &&& store_after_receive(o.store@, n.store@, b, now)
    &&& o.store.contains(b.id) ==> {
        &&& r is Duplicate
        &&& n.store@ == o.store@
        &&& n.core == o.core
        &&& n.stats == (DtnStatistics { dups: bumped(o.stats.dups), ..o.stats })
    }
    &&& !o.store.contains(b.id) && delivers_locally(o, b, now) ==> {
        let k = crate::dtncore::endpoint_position(o.core.endpoints@, b.destination);
        &&& r is Delivered
        &&& n.store@ == o.store@.push(fresh_pack(b, now, BundleStatus::Delivered))
        &&& n.core.endpoints@.len() == o.core.endpoints@.len()
        &&& forall|j: int|
            0 <= j < o.core.endpoints@.len() && j != k ==> #[trigger] n.core.endpoints@[j]
                == o.core.endpoints@[j]
        &&& n.core.endpoints@[k].eid_view() == o.core.endpoints@[k].eid_view()
        &&& n.core.endpoints@[k].queue() == o.core.endpoints@[k].queue().push(b)
        &&& n.core.routing_agent.same_kind(&o.core.routing_agent)
        &&& o.core.routing_agent is EpidemicRoutingAgent ==> n.core.routing_agent.history()
            == incoming_history(o.core.routing_agent.history(), b.id, from)
        &&& n.stats == (DtnStatistics {
            incoming: bumped(o.stats.incoming),
            delivered: bumped(o.stats.delivered),
            ..o.stats
        })
    }
    &&& !o.store.contains(b.id) && !delivers_locally(o, b, now) ==> {
        let agent = o.core.routing_agent;
        let h = incoming_history(agent.history(), b.id, from);
        let chosen = agent.choose_under(h, b.id, kept_peers(o.peers@, now, o.config.peer_timeout));
        &&& r is Forward
        &&& n.core.endpoints == o.core.endpoints
        &&& n.core.routing_agent.same_kind(&agent)
        &&& lifetime_exceeded(b, now) ==> {
            &&& r matches ReceiveOutcome::Forward(ForwardAction::Expired)
            &&& n.store@ == o.store@
            &&& agent is EpidemicRoutingAgent ==> n.core.routing_agent.history() == h
            &&& n.stats == (DtnStatistics {
                incoming: bumped(o.stats.incoming),
                broken: bumped(o.stats.broken),
                ..o.stats
            })
        }
        &&& !lifetime_exceeded(b, now) ==> {
            &&& n.store@ == o.store@.push(
                after_attempt(fresh_pack(b, now, BundleStatus::Dispatching), senders_of(chosen)),
            )
            &&& agent is EpidemicRoutingAgent ==> n.core.routing_agent.history() == record(h, b.id, chosen)
            &&& n.stats == (DtnStatistics { incoming: bumped(o.stats.incoming), ..o.stats })
            &&& chosen.len() == 0 ==> (r matches ReceiveOutcome::Forward(ForwardAction::NoRoute))
            &&& chosen.len() > 0 ==> (r matches ReceiveOutcome::Forward(ForwardAction::Transfer(plan))
                && plan.bundle_id@ == b.id && plan.bytes@ == b.bytes && sender_views(plan.senders@)
                == senders_of(chosen) && !plan.delete_afterwards)
        }
    }
}

/// Receives bundle `b` at DTN time `now`, from the peer with node name
/// `from` where it came from a peer. A bundle with a stored identifier is
/// dropped. Otherwise it is stored and the routing agent told; a bundle for a
/// local endpoint whose lifetime has not run out is delivered there, any
/// other is forwarded (which deletes it where its lifetime ran out).
pub fn receive(node: &mut DtnNode, b: Bundle, from: Option<String>, now: u64) -> (r: ReceiveOutcome)
    requires
        old(node).wf(),
    ensures
        final(node).wf(),
        receive_post(*old(node), *final(node), b@, from, now, r),
{
    if node.store.has_item(b.id.as_str()) {
        node.stats.dups = bump(node.stats.dups);
        proof {
            let s = old(node).store@;
            let i = choose|i: int| 0 <= i < s.len() && #[trigger] s[i].bundle.id == b.id@;
        }
        return ReceiveOutcome::Duplicate;
    }
    let ghost bv = b@;
    let ghost b0 = b;
    let ghost from0 = from;
    let ghost s0 = node.store@;
    let id = b.id.clone();
    let destination = b.destination.clone();
    let local = node.core.find_local(&destination) && !b.is_lifetime_exceeded(now);
    let copy = if local {
        Some(b.copy())
    } else {
        None
    };
    let _ = node.store.push(b, now);
    node.stats.incoming = bump(node.stats.incoming);
    node.core.routing_agent.notify(RoutingNotifcation::IncomingBundle(id.clone(), from));
    let mut pack = match node.store.get_metadata(id.as_str()) {
        Some(p) => p,
        None => {
            proof {
                assert(node.store@[s0.len() as int].bundle.id == id@);
            }
            return ReceiveOutcome::Duplicate;
        },
    };
    proof {
        assert(node.store@.subrange(0, s0.len() as int) =~= s0);
        crate::store::lemma_position_last(s0, node.store@, id@);
    }
    let _ = pack.transition(BundleStatus::Dispatching);
    match copy {
        Some(c) => {
            let _ = pack.transition(BundleStatus::Delivered);
            let _ = node.store.update_metadata(pack);
            let _ = node.core.deliver(&destination, c);
            node.stats.delivered = bump(node.stats.delivered);
            proof {
                assert(node.store@ =~= s0.push(fresh_pack(bv, now, BundleStatus::Delivered)));
                assert(fresh_pack(bv, now, BundleStatus::Delivered).bundle == bv);
                let agent = old(node).core.routing_agent;
                if agent is EpidemicRoutingAgent {
                    assert(history_after(agent.history(), RoutingNotifcation::IncomingBundle(b0.id, from0))
                        =~= incoming_history(agent.history(), bv.id, from0));
                }
            }
            ReceiveOutcome::Delivered
        },
        None => {
            let _ = node.store.update_metadata(pack);
            let ghost mid = node.store@;
            proof {
                assert(mid =~= s0.push(fresh_pack(bv, now, BundleStatus::Dispatching)));
                assert(mid.subrange(0, s0.len() as int) =~= s0);
                crate::store::lemma_position_last(s0, mid, id@);
            }
            let ghost agent1 = node.core.routing_agent;
            let ghost peers1 = kept_peers(node.peers@, now, node.config.peer_timeout);
            proof {
                let agent = old(node).core.routing_agent;
                if agent is EpidemicRoutingAgent {
                    assert(history_after(agent.history(), RoutingNotifcation::IncomingBundle(b0.id, from0))
                        =~= incoming_history(agent.history(), bv.id, from0));
                }
            }
            let a = forward(node, id.as_str(), now);
            proof {
                if lifetime_exceeded(bv, now) {
                    assert(node.store@ =~= s0);
                } else {
                    let agent = old(node).core.routing_agent;
                    let h = incoming_history(agent.history(), bv.id, from0);
                    let chosen = agent1.chosen(id@, peers1);
                    assert(chosen == agent.choose_under(h, id@, peers1));
                    let p = after_attempt(fresh_pack(bv, now, BundleStatus::Dispatching), senders_of(chosen));
                    assert(node.store@ =~= s0.push(p));
                    assert(p.bundle == bv);
                }
            }
            ReceiveOutcome::Forward(a)
        },
    }
}

/// How the sends of a transfer went, as reported by the caller.
pub enum CompletionOutcome {
    /// No bundle with this identifier is stored (any more).
    Missing,
    /// At least one send succeeded: the bundle is forwarded.
    Forwarded,
    /// Every send failed: the bundle waits for the next sweep.
    Pending,
    /// A send succeeded, but the bundle no longer waited to be forwarded.
    Unchanged,
}

/// The views of a transfer's results.
pub open spec fn result_views(v: Seq<(ClaSender, bool)>) -> Seq<(SenderView, bool)> {
    v.map_values(|t: (ClaSender, bool)| (t.0@, t.1))
}

/// Whether some send succeeded.
pub open spec fn any_sent(v: Seq<(SenderView, bool)>) -> bool {
    exists|k: int| 0 <= k < v.len() && (#[trigger] v[k]).1
}

/// The pairs of bundle `bid` with the node of each of the first `upto` peers
/// of `peers` that is at address `addr`.
pub open spec fn failed_at(bid: Seq<char>, peers: Seq<PeerView>, addr: Seq<char>, upto: int) -> History {
    Set::new(
        |t: (Seq<char>, Seq<char>)|
            t.0 == bid && exists|i: int|
                0 <= i < upto && (#[trigger] peers[i]).addr == addr && peers[i].eid.node == t.1,
    )
}

/// History `h` once every failed send of bundle `bid` in `results` is
/// forgotten for every node (in `peers`) at the sender's address.
pub open spec fn forget_failures(
    h: History,
    bid: Seq<char>,
    peers: Seq<PeerView>,
    results: Seq<(SenderView, bool)>,
) -> History
    decreases results.len(),
{
    if results.len() == 0 {
        h
    } else {
        let rest = forget_failures(h, bid, peers, results.drop_last());
        let last = results.last();
        if !last.1 {
            rest.difference(failed_at(bid, peers, last.0.remote, peers.len() as int))
        } else {
            rest
        }
    }
}

/// Tells the routing agent that sending bundle `bid` to address `remote`
/// failed, once for each peer at that address.
fn forget_at_address(node: &mut DtnNode, bid: &String, remote: &String)
    requires
        old(node).wf(),
    ensures
        final(node).wf(),
        final(node).config == old(node).config,
        final(node).peers == old(node).peers,
        final(node).store == old(node).store,
        final(node).stats == old(node).stats,
        final(node).core.endpoints == old(node).core.endpoints,
        final(node).core.cl_list == old(node).core.cl_list,
        final(node).core.service_list == old(node).core.service_list,
        final(node).core.routing_agent.same_kind(&old(node).core.routing_agent),
        old(node).core.routing_agent is EpidemicRoutingAgent ==> final(node).core.routing_agent.history()
            == old(node).core.routing_agent.history().difference(
            failed_at(bid@, old(node).peers@, remote@, old(node).peers@.len() as int),
        ),
{
    let ghost h0 = node.core.routing_agent.history();
    let ghost agent0 = node.core.routing_agent;
    let mut j: usize = 0;
    assert(h0.difference(failed_at(bid@, node.peers@, remote@, 0)) =~= h0);
    while j < node.peers.count()
        invariant
            j <= node.peers@.len(),
            node.wf(),
            node.config == old(node).config,
            node.peers == old(node).peers,
            node.store == old(node).store,
            node.stats == old(node).stats,
            node.core.endpoints == old(node).core.endpoints,
            node.core.cl_list == old(node).core.cl_list,
            node.core.service_list == old(node).core.service_list,
            agent0 == old(node).core.routing_agent,
            h0 == agent0.history(),
            node.core.routing_agent.same_kind(&agent0),
            agent0 is EpidemicRoutingAgent ==> node.core.routing_agent.history() == h0.difference(
                failed_at(bid@, node.peers@, remote@, j as int),
            ),
        decreases node.peers@.len() - j,
    {
        let ghost prev = node.core.routing_agent.history();
        let at_remote = node.peers.get(j).addr == *remote;
        let name = node.peers.get(j).node_name();
        let ghost pj = node.peers@[j as int];
        if at_remote {
            node.core.routing_agent.notify(RoutingNotifcation::SendingFailed(bid.clone(), name));
        }
        proof {
            if agent0 is EpidemicRoutingAgent {
                let next = h0.difference(failed_at(bid@, node.peers@, remote@, j as int + 1));
                assert forall|t: (Seq<char>, Seq<char>)|
                    node.core.routing_agent.history().contains(t) == next.contains(t) by {
                    if failed_at(bid@, node.peers@, remote@, j as int + 1).contains(t)
                        && !failed_at(bid@, node.peers@, remote@, j as int).contains(t) {
                        let i = choose|i: int|
                            0 <= i < j + 1 && (#[trigger] node.peers@[i]).addr == remote@
                                && node.peers@[i].eid.node == t.1;
                        assert(i == j);
                    }
                    if failed_at(bid@, node.peers@, remote@, j as int).contains(t) {
                        let i = choose|i: int|
                            0 <= i < j && (#[trigger] node.peers@[i]).addr == remote@
                                && node.peers@[i].eid.node == t.1;
                        assert(failed_at(bid@, node.peers@, remote@, j as int + 1).contains(t));
                    }
                    if at_remote && t == (bid@, pj.eid.node) {
                        assert(failed_at(bid@, node.peers@, remote@, j as int + 1).contains(t));
                    }
                }
                assert(node.core.routing_agent.history() =~= next);
            }
        }
        j = j + 1;
    }
}

/// Takes note of how the sends of a transfer of bundle `id` went: each
/// failure is told to the routing agent for every peer at the failed
/// address, so that it may be tried again.
/// Where a send succeeded and the bundle waited to be forwarded, it is
/// forwarded: removed where `delete_afterwards` holds, kept as `Forwarded`
/// otherwise. Where every send failed the bundle stays waiting.
pub fn forward_completed(
    node: &mut DtnNode,
    id: &str,
    results: &Vec<(ClaSender, bool)>,
    delete_afterwards: bool,
) -> (r: CompletionOutcome)
    requires
        old(node).wf(),
    ensures
        final(node).wf(),
        final(node).config == old(node).config,
        final(node).peers == old(node).peers,
        final(node).core.endpoints == old(node).core.endpoints,
        final(node).core.cl_list == old(node).core.cl_list,
        final(node).core.service_list == old(node).core.service_list,
        final(node).core.routing_agent.same_kind(&old(node).core.routing_agent),
        old(node).core.routing_agent is EpidemicRoutingAgent ==> final(node).core.routing_agent.history()
            == forget_failures(
            old(node).core.routing_agent.history(),
            id@,
            old(node).peers@,
            result_views(results@),
        ),
        ({
            let sent = any_sent(result_views(results@));
            let p = old(node).store.pack_of(id@);
            let pos = position_of(old(node).store@, id@);
            &&& !old(node).store.contains(id@) ==> r is Missing && final(node).store@ == old(node).store@
                && final(node).stats == old(node).stats
            &&& old(node).store.contains(id@) && !sent ==> r is Pending && final(node).store@ == old(
                node,
            ).store@ && final(node).stats == old(node).stats
            &&& old(node).store.contains(id@) && sent && p.status != BundleStatus::Forwarding ==> r is Unchanged
                && final(node).store@ == old(node).store@ && final(node).stats == old(node).stats
            &&& old(node).store.contains(id@) && sent && p.status == BundleStatus::Forwarding ==> {
                &&& r is Forwarded
                &&& final(node).stats == (DtnStatistics { outgoing: bumped(old(node).stats.outgoing), ..old(node).stats })
                &&& delete_afterwards ==> final(node).store@ == old(node).store@.remove(pos)
                &&& !delete_afterwards ==> final(node).store@ == old(node).store@.update(
                    pos,
                    PackView { status: BundleStatus::Forwarded, ..p },
                )
            }
        }),
{
    let ghost rv = result_views(results@);
    let ghost agent0 = node.core.routing_agent;
    let key = id.to_owned();
    let mut sent = false;
    let mut i: usize = 0;
    while i < results.len()
        invariant
            i <= results@.len(),
            rv == result_views(results@),
            key@ == id@,
            node.wf(),
            node.config == old(node).config,
            node.peers == old(node).peers,
            node.store == old(node).store,
            node.stats == old(node).stats,
            node.core.endpoints == old(node).core.endpoints,
            node.core.cl_list == old(node).core.cl_list,
            node.core.service_list == old(node).core.service_list,
            agent0 == old(node).core.routing_agent,
            node.core.routing_agent.same_kind(&agent0),
            agent0 is EpidemicRoutingAgent ==> node.core.routing_agent.history() == forget_failures(
                agent0.history(),
                id@,
                node.peers@,
                rv.subrange(0, i as int),
            ),
            sent == any_sent(rv.subrange(0, i as int)),
        decreases results@.len() - i,
    {
        let ghost sub = rv.subrange(0, i as int + 1);
        proof {
            assert(sub.drop_last() =~= rv.subrange(0, i as int));
            assert(sub.last() == rv[i as int]);
        }
        if results[i].1 {
            sent = true;
            proof {
                assert(sub[i as int].1);
            }
        } else {
            forget_at_address(node, &key, &results[i].0.remote);
        }
        proof {
            if any_sent(sub) && !any_sent(rv.subrange(0, i as int)) {
                let k = choose|k: int| 0 <= k < sub.len() && (#[trigger] sub[k]).1;
                if k < i {
                    assert(rv.subrange(0, i as int)[k] == sub[k]);
                }
            }
            if any_sent(rv.subrange(0, i as int)) {
                let k = choose|k: int| 0 <= k < i && (#[trigger] rv.subrange(0, i as int)[k]).1;
                assert(sub[k] == rv.subrange(0, i as int)[k]);
            }
        }
        i = i + 1;
    }
    proof {
        assert(rv.subrange(0, rv.len() as int) =~= rv);
    }
    let mut pack = match node.store.get_metadata(id) {
        Some(p) => p,
        None => return CompletionOutcome::Missing,
    };
    if !sent {
        return CompletionOutcome::Pending;
    }
    if pack.status != BundleStatus::Forwarding {
        return CompletionOutcome::Unchanged;
    }
    let _ = pack.transition(BundleStatus::Forwarded);
    node.stats.outgoing = bump(node.stats.outgoing);
    if delete_afterwards {
        let _ = node.store.remove(id);
    } else {
        let _ = node.store.update_metadata(pack);
    }
    CompletionOutcome::Forwarded
}

/// Sends a bundle that originates here, at DTN time `now`: it is stored
/// (where its identifier is not stored yet) and forwarded, with no check for
/// local delivery.
pub fn send_bundle(node: &mut DtnNode, b: Bundle, now: u64) -> (r: ForwardAction)
    requires
        old(node).wf(),
    ensures
        final(node).wf(),
        old(node).store.contains(b.id@) ==> forward_post(*old(node), *final(node), b.id@, now, r),
        !old(node).store.contains(b.id@) ==> ({
            let chosen = old(node).core.routing_agent.chosen(
                b.id@,
                kept_peers(old(node).peers@, now, old(node).config.peer_timeout),
            );
            &&& final(node).config == old(node).config
            &&& final(node).peers == old(node).peers
            &&& final(node).core.endpoints == old(node).core.endpoints
            &&& lifetime_exceeded(b@, now) ==> r is Expired && final(node).store@ == old(node).store@
                && final(node).stats == (DtnStatistics { broken: bumped(old(node).stats.broken), ..old(node).stats })
            &&& !lifetime_exceeded(b@, now) ==> {
                &&& final(node).stats == old(node).stats
                &&& final(node).store@ == old(node).store@.push(
                    after_attempt(fresh_pack(b@, now, BundleStatus::Received), senders_of(chosen)),
                )
                &&& final(node).core.routing_agent.history() == history_after_choice(
                    old(node).core.routing_agent,
                    b.id@,
                    chosen,
                )
                &&& chosen.len() == 0 ==> r is NoRoute
                &&& chosen.len() > 0 ==> (r matches ForwardAction::Transfer(plan) && plan.bundle_id@
                    == b.id@ && plan.bytes@ == b.bytes@ && sender_views(plan.senders@) == senders_of(chosen)
                    && !plan.delete_afterwards)
            }
        }),
{
    let id = b.id.clone();
    let ghost bv = b@;
    let ghost s0 = node.store@;
    let pushed = node.store.push(b, now);
    proof {
        if pushed is Ok {
            assert(node.store@.subrange(0, s0.len() as int) =~= s0);
            crate::store::lemma_position_last(s0, node.store@, id@);
        }
    }
    let a = forward(node, id.as_str(), now);
    proof {
        if pushed is Ok {
            if lifetime_exceeded(bv, now) {
                assert(node.store@ =~= s0);
            } else {
                let chosen = old(node).core.routing_agent.chosen(
                    id@,
                    kept_peers(old(node).peers@, now, old(node).config.peer_timeout),
                );
                assert(node.store@ =~= s0.push(
                    after_attempt(fresh_pack(bv, now, BundleStatus::Received), senders_of(chosen)),
                ));
            }
        }
    }
    a
}

/// Why received bytes were turned away.
#[derive(Clone, Copy, Debug, PartialEq, Eq, Structural)]
pub enum PushError {
    /// The bytes are no bundle.
    Malformed,
}

/// The bundle that bp7 reads from `bytes` (meaningful where it reads one),
/// holding those bytes.
pub open spec fn decoded_view(bytes: Seq<u8>) -> BundleView {
    let t = bp7_bundle(bytes)->0;
    BundleView {
        id: t.0,
        source: t.1,
        destination: t.2,
        creation_time: t.3,
        sequence: t.4,
        lifetime: t.5,
        bytes,
    }
}

/// Receives serialized bytes at DTN time `now`, from the peer with node name
/// `from` where known. Bytes that are no bundle are turned away and change
/// nothing; the bundle that bp7 reads from them is received as `receive`
/// does.
pub fn receive_bytes(node: &mut DtnNode, bytes: Vec<u8>, from: Option<String>, now: u64) -> (r: Result<
    ReceiveOutcome,
    PushError,
>)
    requires
        old(node).wf(),
    ensures
        final(node).wf(),
        r is Err <==> bp7_bundle(bytes@) is None,
        r is Err ==> *final(node) == *old(node),
        r matches Ok(outcome) ==> receive_post(*old(node), *final(node), decoded_view(bytes@), from, now, outcome),
{
    match Bundle::decode(bytes) {
        Some(b) => {
            proof {
                assert(b@ == decoded_view(b.bytes@));
            }
            Ok(receive(node, b, from, now))
        },
        None => Err(PushError::Malformed),
    }
}

} // verus!
