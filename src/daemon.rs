//! Setting a node up from its configuration: routing agent, convergence
//! layer, static peers and local endpoints.

use vstd::prelude::*;

use crate::application_agent::{ApplicationAgentEnum, SimpleApplicationAgent};
use crate::cla::{CLAEnum, HttpConvergenceLayer};
use crate::dtnconfig::DtnConfig;
use crate::dtncore::{has_endpoint, DtnNode};
use crate::eid::{bp7_eid, bp7_new_endpoint, resolve_endpoint};
use crate::peer::{has_node, node_position, PeerView};
use crate::routing::{is_routing_name, new as new_routing_agent};

verus! {

/// Why a node cannot be set up from a configuration.
#[derive(Clone, Copy, Debug, PartialEq, Eq, Structural)]
pub enum SetupError {
    /// The configured routing agent is none of `flooding`, `epidemic`, `sink`.
    UnknownRoutingAgent,
    /// A configured endpoint is neither an endpoint identifier nor a service
    /// name on the host's node.
    InvalidEndpoint,
}

/// The identifier (as text) that an endpoint entry stands for on the node
/// written `host`: the entry itself where it is an identifier, else a
/// service of that name on the host's node.
pub open spec fn resolved_text(host: Seq<char>, e: Seq<char>) -> Option<Seq<char>> {
    if bp7_eid(e) is Some {
        Some((bp7_eid(e)->0).0)
    } else if bp7_new_endpoint(host, e) is Some {
        Some((bp7_new_endpoint(host, e)->0).0)
    } else {
        None
    }
}

/// Table `t` after adding or refreshing peer `p`.
pub open spec fn with_peer(t: Seq<PeerView>, p: PeerView) -> Seq<PeerView> {
    if has_node(t, p.eid.node) {
        t.update(node_position(t, p.eid.node), p)
    } else {
        t.push(p)
    }
}

/// An empty table after adding the peers of `ps` in order.
pub open spec fn with_peers(ps: Seq<PeerView>) -> Seq<PeerView>
    decreases ps.len(),
{
    if ps.len() == 0 {
        Seq::empty()
    } else {
        with_peer(with_peers(ps.drop_last()), ps.last())
    }
}

/// A node set up from `cfg`, its node id taken from the host endpoint: the
/// routing agent that `cfg` names, an HTTP convergence layer on the web port,
/// the static peers, and an application agent for the host endpoint and for
/// each configured endpoint.
pub fn init_node(cfg: DtnConfig) -> (r: Result<DtnNode, SetupError>)
    requires
        cfg.wf(),
    ensures
        r matches Err(SetupError::UnknownRoutingAgent) <==> !is_routing_name(cfg.routing@),
        r matches Err(SetupError::InvalidEndpoint) <==> is_routing_name(cfg.routing@) && exists|k: int|
            0 <= k < cfg.endpoints@.len() && resolved_text(
                cfg.host_eid.text@,
                (#[trigger] cfg.endpoints@[k])@,
            ) is None,
        r matches Ok(node) ==> {
            &&& node.wf()
            &&& node.config == (DtnConfig { nodeid: cfg.host_eid.text, ..cfg })
            &&& node.core.cl_list@ == seq![
                CLAEnum::HttpConvergenceLayer(HttpConvergenceLayer { local_port: cfg.webport }),
            ]
            &&& node.core.service_list@.len() == 0
            &&& node.peers@ == with_peers(cfg.statics@.map_values(|p: crate::peer::DtnPeer| p@))
            &&& node.store@.len() == 0
            &&& has_endpoint(node.core.endpoints@, cfg.host_eid.text@)
            &&& forall|k: int|
                0 <= k < cfg.endpoints@.len() ==> has_endpoint(
                    node.core.endpoints@,
                    resolved_text(cfg.host_eid.text@, (#[trigger] cfg.endpoints@[k])@)->0,
                )
            &&& forall|j: int|
                0 <= j < node.core.endpoints@.len() ==> (#[trigger] node.core.endpoints@[j]).eid_view().text
                    == cfg.host_eid.text@ || exists|k: int|
                    0 <= k < cfg.endpoints@.len() && resolved_text(
                        cfg.host_eid.text@,
                        (#[trigger] cfg.endpoints@[k])@,
                    ) == Some(node.core.endpoints@[j].eid_view().text)
            &&& cfg.routing@ == "epidemic"@ ==> node.core.routing_agent is EpidemicRoutingAgent
                && node.core.routing_agent.history().is_empty()
            &&& cfg.routing@ == "flooding"@ ==> node.core.routing_agent is FloodingRoutingAgent
            &&& cfg.routing@ == "sink"@ ==> node.core.routing_agent is SinkRoutingAgent
        },
{
    let agent = match new_routing_agent(cfg.routing.as_str()) {
        Some(a) => a,
        None => return Err(SetupError::UnknownRoutingAgent),
    };
    let ghost c0 = cfg;
    let mut node = DtnNode::new(cfg, agent);
    node.config.nodeid = node.config.host_eid.text.clone();
    let ghost c = node.config;
    assert(c == (DtnConfig { nodeid: c0.host_eid.text, ..c0 }));
    assert(is_routing_name(c.routing@));
    let webport = node.config.webport;
    node.core.cl_list.push(CLAEnum::HttpConvergenceLayer(HttpConvergenceLayer::new(None, webport)));
    assert(node.core.cl_list@ =~= seq![
        CLAEnum::HttpConvergenceLayer(HttpConvergenceLayer { local_port: c.webport }),
    ]);
    let ghost statics = c.statics@.map_values(|p: crate::peer::DtnPeer| p@);
    let mut i: usize = 0;
    assert(node.peers@ =~= with_peers(statics.subrange(0, 0)));
    while i < node.config.statics.len()
        invariant
            i <= statics.len(),
            node.config == c,
            statics == c.statics@.map_values(|p: crate::peer::DtnPeer| p@),
            node.wf(),
            node.peers@ == with_peers(statics.subrange(0, i as int)),
            node.core.cl_list@ == seq![
                CLAEnum::HttpConvergenceLayer(HttpConvergenceLayer { local_port: c.webport }),
            ],
            node.core.service_list@.len() == 0,
            node.core.endpoints@.len() == 0,
            node.core.routing_agent == agent,
            node.store@.len() == 0,
        decreases statics.len() - i,
    {
        let p = node.config.statics[i].copy();
        proof {
            let sub = statics.subrange(0, i as int + 1);
            assert(sub.drop_last() =~= statics.subrange(0, i as int));
            assert(sub.last() == p@);
        }
        let _ = node.peers.add(p);
        i = i + 1;
    }
    assert(statics.subrange(0, statics.len() as int) =~= statics);
    let host = node.config.host_eid.copy();
    let ghost before = node.core.endpoints@;
    node.core.register_application_agent(
        ApplicationAgentEnum::SimpleApplicationAgent(SimpleApplicationAgent::with(host.copy())),
    );
    proof {
        if !has_endpoint(before, c.host_eid.text@) {
            assert(node.core.endpoints@[before.len() as int].eid_view().text == c.host_eid.text@);
        }
    }
    let mut k: usize = 0;
    while k < node.config.endpoints.len()
        invariant
            k <= c.endpoints@.len(),
            c0 == cfg,
            c == (DtnConfig { nodeid: c0.host_eid.text, ..c0 }),
            is_routing_name(c.routing@),
            node.config == c,
            host == c.host_eid,
            node.wf(),
            node.peers@ == with_peers(statics),
            node.core.cl_list@ == seq![
                CLAEnum::HttpConvergenceLayer(HttpConvergenceLayer { local_port: c.webport }),
            ],
            node.core.service_list@.len() == 0,
            node.core.routing_agent == agent,
            node.store@.len() == 0,
            has_endpoint(node.core.endpoints@, c.host_eid.text@),
            forall|m: int|
                0 <= m < k ==> resolved_text(c.host_eid.text@, (#[trigger] c.endpoints@[m])@) is Some
                    && has_endpoint(
                    node.core.endpoints@,
                    resolved_text(c.host_eid.text@, c.endpoints@[m]@)->0,
                ),
            forall|j: int|
                0 <= j < node.core.endpoints@.len() ==> (#[trigger] node.core.endpoints@[j]).eid_view().text
                    == c.host_eid.text@ || exists|m: int|
                    0 <= m < k && resolved_text(c.host_eid.text@, (#[trigger] c.endpoints@[m])@)
                        == Some(node.core.endpoints@[j].eid_view().text),
        decreases c.endpoints@.len() - k,
    {
        let ghost before = node.core.endpoints@;
        match resolve_endpoint(&host, node.config.endpoints[k].as_str()) {
            Some(eid) => {
                let ghost t = eid.text@;
                assert(resolved_text(c.host_eid.text@, c.endpoints@[k as int]@) == Some(t));
                node.core.register_application_agent(
                    ApplicationAgentEnum::SimpleApplicationAgent(SimpleApplicationAgent::with(eid)),
                );
                proof {
                    let after = node.core.endpoints@;
                    assert forall|x: int| 0 <= x < before.len() implies #[trigger] after[x] == before[x] by {}
                    if !has_endpoint(before, t) {
                        assert(after[before.len() as int].eid_view().text == t);
                    }
                    assert forall|m: int|
                        0 <= m < k + 1 implies resolved_text(c.host_eid.text@, (#[trigger] c.endpoints@[m])@) is Some
                            && has_endpoint(after, resolved_text(c.host_eid.text@, c.endpoints@[m]@)->0) by {
                        if m < k {
                            let x = choose|x: int| 0 <= x < before.len() && (#[trigger] before[x]).eid_view().text
                                == resolved_text(c.host_eid.text@, c.endpoints@[m]@)->0;
                            assert(after[x] == before[x]);
                        }
                    }
                    let x0 = choose|x: int| 0 <= x < before.len() && (#[trigger] before[x]).eid_view().text
                        == c.host_eid.text@;
                    assert(after[x0] == before[x0]);
                    assert forall|j: int|
                        0 <= j < after.len() implies (#[trigger] after[j]).eid_view().text == c.host_eid.text@
                            || exists|m: int|
                            0 <= m < k + 1 && resolved_text(c.host_eid.text@, (#[trigger] c.endpoints@[m])@)
                                == Some(after[j].eid_view().text) by {
                        if j < before.len() {
                            assert(after[j] == before[j]);
                        } else {
                            assert(resolved_text(c.host_eid.text@, c.endpoints@[k as int]@) == Some(
                                after[j].eid_view().text,
                            ));
                        }
                    }
                }
            },
            None => {
                proof {
                    assert(resolved_text(c.host_eid.text@, c.endpoints@[k as int]@) is None);
                    assert(exists|m: int|
                        0 <= m < c.endpoints@.len() && resolved_text(
                            c.host_eid.text@,
                            (#[trigger] c.endpoints@[m])@,
                        ) is None);
                }
                return Err(SetupError::InvalidEndpoint);
            },
        }
        k = k + 1;
    }
    Ok(node)
}

} // verus!
