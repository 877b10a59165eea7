//! Operations on the node's parts: convergence layers and services of the
//! core, discovery destinations of the configuration, the peer table, the
//! store and the routing agent.

use vstd::prelude::*;

use crate::bundle::Bundle;
use crate::bundlepack::{BundlePack, PackView};
use crate::cla::{CLAEnum, ClaSender};
use crate::dtnconfig::{dest_position, has_dest, same_but_destinations, DtnConfig};
use crate::dtncore::DtnCore;
use crate::eid::EndpointId;
use crate::keys::{lemma_push_unique, lemma_update_unique};
use crate::peer::{first_cla_of, has_node, node_at_addr, node_position, DtnPeer, PeerTable, PeerView};
use crate::routing::{history_after, RoutingNotifcation};
use crate::store::{kept_after_sweep, position_of, BundleStore, StoreError};

verus! {

/// The services as tag and text.
pub open spec fn service_views(v: Seq<(u8, String)>) -> Seq<(u8, Seq<char>)> {
    v.map_values(|s: (u8, String)| (s.0, s.1@))
}

/// The first position of the service with tag `tag`.
pub open spec fn tag_position_from(v: Seq<(u8, String)>, tag: u8, k: int) -> int
    decreases v.len() - k,
{
    if k < 0 || k >= v.len() {
        v.len() as int
    } else if v[k].0 == tag {
        k
    } else {
        tag_position_from(v, tag, k + 1)
    }
}

/// Adds a convergence layer to the core.
pub fn cla_add(core: &mut DtnCore, cla: CLAEnum)
    requires
        old(core).wf(),
    ensures
        final(core).wf(),
        final(core).cl_list@ == old(core).cl_list@.push(cla),
        final(core).endpoints == old(core).endpoints,
        final(core).service_list == old(core).service_list,
        final(core).routing_agent == old(core).routing_agent,
{
    core.cl_list.push(cla);
}

/// Lists service `service` under tag `tag`, in place of the one listed under
/// that tag where there is one.
pub fn service_add(core: &mut DtnCore, tag: u8, service: String)
    requires
        old(core).wf(),
    ensures
        final(core).wf(),
        final(core).endpoints == old(core).endpoints,
        final(core).cl_list == old(core).cl_list,
        final(core).routing_agent == old(core).routing_agent,
        ({
            let o = old(core).service_list@;
            let k = tag_position_from(o, tag, 0);
            &&& k < o.len() ==> service_views(final(core).service_list@) == service_views(o).update(
                k,
                (tag, service@),
            )
            &&& k == o.len() ==> service_views(final(core).service_list@) == service_views(o).push(
                (tag, service@),
            )
        }),
{
    let ghost o = core.service_list@;
    let mut k: usize = 0;
    while k < core.service_list.len()
        invariant
            k <= o.len(),
            core.service_list@ == o,
            o == old(core).service_list@,
            core.endpoints == old(core).endpoints,
            core.cl_list == old(core).cl_list,
            core.routing_agent == old(core).routing_agent,
            core.wf(),
            tag_position_from(o, tag, 0) == tag_position_from(o, tag, k as int),
            forall|j: int| 0 <= j < k ==> (#[trigger] o[j]).0 != tag,
        decreases o.len() - k,
    {
        if core.service_list[k].0 == tag {
            let ghost sv = service@;
            let entry = (tag, service);
            proof {
                lemma_update_unique(o, |s: (u8, String)| s.0, k as int, entry);
            }
            core.service_list.set(k, entry);
            assert(service_views(core.service_list@) =~= service_views(o).update(k as int, (tag, sv)));
            return;
        }
        k = k + 1;
    }
    let ghost sv = service@;
    let entry = (tag, service);
    proof {
        lemma_push_unique(o, |s: (u8, String)| s.0, entry);
    }
    core.service_list.push(entry);
    assert(service_views(core.service_list@) =~= service_views(o).push((tag, sv)));
}

/// Lists a discovery destination with sequence number zero (or resets it).
pub fn add_discovery_destination(config: &mut DtnConfig, destination: &str)
    requires
        old(config).wf(),
    ensures
        final(config).wf(),
        same_but_destinations(*old(config), *final(config)),
        !has_dest(old(config).dests(), destination@) ==> final(config).dests() == old(config).dests().push(
            (destination@, 0u32),
        ),
        has_dest(old(config).dests(), destination@) ==> final(config).dests() == old(config).dests().update(
            dest_position(old(config).dests(), destination@),
            (destination@, 0u32),
        ),
{
    config.add_discovery_destination(destination);
}

/// Sets a discovery destination's sequence number to zero, where it is
/// listed.
pub fn reset_sequence(config: &mut DtnConfig, destination: &str)
    requires
        old(config).wf(),
    ensures
        final(config).wf(),
        same_but_destinations(*old(config), *final(config)),
        !has_dest(old(config).dests(), destination@) ==> final(config).dests() == old(config).dests(),
        has_dest(old(config).dests(), destination@) ==> final(config).dests() == old(config).dests().update(
            dest_position(old(config).dests(), destination@),
            (destination@, 0u32),
        ),
{
    config.reset_sequence(destination);
}

/// A discovery destination's sequence number; zero where it is not listed.
pub fn get_sequence(config: &DtnConfig, destination: &str) -> (r: u32)
    requires
        config.wf(),
    ensures
        r == if has_dest(config.dests(), destination@) {
            config.dests()[dest_position(config.dests(), destination@)].1
        } else {
            0
        },
{
    config.get_sequence(destination)
}

/// Adds or refreshes a peer; true where its node was not known before.
pub fn peers_add(peers: &mut PeerTable, peer: DtnPeer) -> (r: bool)
    requires
        old(peers).wf(),
    ensures
        final(peers).wf(),
        r == !has_node(old(peers)@, peer.eid.node@),
        r ==> final(peers)@ == old(peers)@.push(peer@),
        !r ==> final(peers)@ == old(peers)@.update(node_position(old(peers)@, peer.eid.node@), peer@),
{
    peers.add(peer)
}

/// The number of known peers.
pub fn peers_count(peers: &PeerTable) -> (r: usize)
    ensures
        r == peers@.len(),
{
    peers.count()
}

/// Forgets every peer.
pub fn peers_clear(peers: &mut PeerTable)
    ensures
        final(peers)@ == Seq::<PeerView>::empty(),
        final(peers).wf(),
{
    peers.clear()
}

/// A copy of the peer on the node of `eid`.
pub fn peers_get_for_node(peers: &PeerTable, eid: &EndpointId) -> (r: Option<DtnPeer>)
    requires
        peers.wf(),
    ensures
        r is Some <==> has_node(peers@, eid.node@),
        r matches Some(p) ==> p@ == peers@[node_position(peers@, eid.node@)],
{
    peers.get_for_node(eid)
}

/// Whether `eid` is on this node: its node id is the host's.
pub fn is_local_node_id(config: &DtnConfig, eid: &EndpointId) -> (r: bool)
    ensures
        r == (eid.node_id@ == config.host_eid.node_id@),
{
    eid.node_id == config.host_eid.node_id
}

/// The sender descriptor for the first usable layer of the peer on the node
/// of `eid`.
pub fn peers_cla_for_node(peers: &PeerTable, eid: &EndpointId) -> (r: Option<ClaSender>)
    requires
        peers.wf(),
    ensures
        !has_node(peers@, eid.node@) ==> r is None,
        has_node(peers@, eid.node@) ==> match r {
            Some(c) => first_cla_of(peers@[node_position(peers@, eid.node@)]) == Some(c@),
            None => first_cla_of(peers@[node_position(peers@, eid.node@)]) is None,
        },
{
    peers.cla_for_node(eid)
}

/// The node name of the first peer at address `addr`.
pub fn peer_find_by_remote(peers: &PeerTable, addr: &String) -> (r: Option<String>)
    ensures
        match r {
            Some(n) => node_at_addr(peers@, addr@) == Some(n@),
            None => node_at_addr(peers@, addr@) is None,
        },
{
    peers.find_by_remote(addr)
}

/// Stores a new bundle received at time `now`.
pub fn store_push_bundle(store: &mut BundleStore, bndl: Bundle, now: u64) -> (r: Result<(), StoreError>)
    requires
        old(store).wf(),
    ensures
        final(store).wf(),
        r is Err <==> old(store).contains(bndl.id@),
        r is Err ==> final(store)@ == old(store)@,
        r is Ok ==> final(store)@ == old(store)@.push(
            crate::processing::fresh_pack(bndl@, now, crate::bundlepack::BundleStatus::Received),
        ),
{
    store.push(bndl, now)
}

/// Removes a stored bundle; an error where it is not stored.
pub fn store_remove(store: &mut BundleStore, bid: &str) -> (r: Result<(), StoreError>)
    requires
        old(store).wf(),
    ensures
        final(store).wf(),
        r is Ok <==> old(store).contains(bid@),
        r is Err ==> final(store)@ == old(store)@,
        r is Ok ==> final(store)@ == old(store)@.remove(position_of(old(store)@, bid@)),
{
    store.remove(bid)
}

/// Replaces the processing state of a stored pack, keeping its bundle; an
/// error where the bundle is not stored.
pub fn store_update_metadata(store: &mut BundleStore, bp: BundlePack) -> (r: Result<(), StoreError>)
    requires
        old(store).wf(),
    ensures
        final(store).wf(),
        r is Ok <==> old(store).contains(bp.bundle.id@),
        r is Err ==> final(store)@ == old(store)@,
        r is Ok ==> final(store)@ == old(store)@.update(
            position_of(old(store)@, bp.bundle.id@),
            PackView { bundle: old(store).pack_of(bp.bundle.id@).bundle, ..bp@ },
        ),
{
    store.update_metadata(bp)
}

/// Whether a bundle is stored.
pub fn store_has_item(store: &BundleStore, bid: &str) -> (r: bool)
    requires
        store.wf(),
    ensures
        r == store.contains(bid@),
{
    store.has_item(bid)
}

/// A copy of a stored bundle.
pub fn store_get_bundle(store: &BundleStore, bpid: &str) -> (r: Option<Bundle>)
    requires
        store.wf(),
    ensures
        r is Some <==> store.contains(bpid@),
        r matches Some(b) ==> b@ == store.pack_of(bpid@).bundle,
{
    store.get_bundle(bpid)
}

/// A copy of a stored pack.
pub fn store_get_metadata(store: &BundleStore, bpid: &str) -> (r: Option<BundlePack>)
    requires
        store.wf(),
    ensures
        r is Some <==> store.contains(bpid@),
        r matches Some(p) ==> p@ == store.pack_of(bpid@),
{
    store.get_metadata(bpid)
}

/// Drops the waiting bundles whose lifetime ran out at time `now`.
pub fn store_delete_expired(store: &mut BundleStore, now: u64)
    requires
        old(store).wf(),
    ensures
        final(store).wf(),
        final(store)@ == kept_after_sweep(old(store)@, now),
{
    store.delete_expired(now)
}

/// Tells the routing agent of an event.
pub fn routing_notify(core: &mut DtnCore, notification: RoutingNotifcation)
    ensures
        final(core).endpoints == old(core).endpoints,
        final(core).cl_list == old(core).cl_list,
        final(core).service_list == old(core).service_list,
        final(core).routing_agent.same_kind(&old(core).routing_agent),
        old(core).routing_agent is EpidemicRoutingAgent ==> final(core).routing_agent.history()
            == history_after(old(core).routing_agent.history(), notification),
{
    core.routing_agent.notify(notification)
}

} // verus!
