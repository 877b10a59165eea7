use std::convert::TryInto;

use dtn7::bundle::Bundle;
use dtn7::bundlepack::BundleStatus;
use dtn7::cla::ClaSender;
use dtn7::daemon::{init_node, SetupError};
use dtn7::dtnconfig::DtnConfig;
use dtn7::dtncore::{process_bundles, process_peers, DtnNode};
use dtn7::eid::EndpointId;
use dtn7::peer::{DtnPeer, PeerType};
use dtn7::processing::{
    forward, forward_completed, receive, receive_bytes, send_bundle, CompletionOutcome,
    ForwardAction, PushError, ReceiveOutcome,
};
use dtn7::janitor::janitor;
use dtn7::routing;

fn eid(s: &str) -> EndpointId {
    EndpointId::parse(s).expect("endpoint parses")
}

fn bundle(id: &str, dst: &str, created: u64, lifetime: u64) -> Bundle {
    Bundle {
        id: id.to_string(),
        source: "dtn://src/".to_string(),
        destination: dst.to_string(),
        creation_time: created,
        sequence: 0,
        lifetime,
        bytes: vec![1, 2, 3],
    }
}

fn peer(node: &str, addr: &str, con_type: PeerType, last_contact: u64) -> DtnPeer {
    DtnPeer {
        eid: eid(&format!("dtn://{}/", node)),
        addr: addr.to_string(),
        con_type,
        cla_list: vec![("http".to_string(), Some(3000))],
        last_contact,
    }
}

fn node_with(routing_name: &str, endpoints: Vec<String>) -> DtnNode {
    let mut cfg = DtnConfig::with_node_name("n1").expect("node id parses");
    cfg.routing = routing_name.to_string();
    cfg.endpoints = endpoints;
    init_node(cfg).ok().expect("node sets up")
}

fn remotes(a: &ForwardAction) -> Vec<String> {
    match a {
        ForwardAction::Transfer(plan) => plan.senders.iter().map(|s| s.remote.clone()).collect(),
        _ => Vec::new(),
    }
}

#[test]
fn receive_twice_keeps_one_pack() {
    let mut node = node_with("epidemic", vec![]);
    let b = bundle("dtn://src/-1000-0", "dtn://far/inbox", 1000, 60_000);
    let first = receive(&mut node, b.copy(), None, 1500);
    assert!(matches!(first, ReceiveOutcome::Forward(ForwardAction::NoRoute)));
    let second = receive(&mut node, b, None, 1600);
    assert!(matches!(second, ReceiveOutcome::Duplicate));
    assert_eq!(node.store.len(), 1);
    assert_eq!(node.stats.dups, 1);
    assert_eq!(node.stats.incoming, 1);
}

#[test]
fn expired_bundle_is_deleted_not_sent() {
    let mut node = node_with("epidemic", vec![]);
    node.peers.add(peer("peer1", "10.0.0.1", PeerType::Dynamic, 1000));
    let b = bundle("dtn://src/-1000-0", "dtn://far/inbox", 1000, 500);
    let r = receive(&mut node, b, None, 2000);
    assert!(matches!(r, ReceiveOutcome::Forward(ForwardAction::Expired)));
    assert!(!node.store.has_item("dtn://src/-1000-0"));
    assert_eq!(node.stats.broken, 1);
    assert!(matches!(forward(&mut node, "dtn://src/-1000-0", 2000), ForwardAction::Missing));
}

#[test]
fn forward_deletes_a_pending_bundle_once_its_lifetime_ran_out() {
    let mut node = node_with("epidemic", vec![]);
    let b = bundle("dtn://src/-1000-0", "dtn://far/inbox", 1000, 500);
    let r = receive(&mut node, b, None, 1200);
    assert!(matches!(r, ReceiveOutcome::Forward(ForwardAction::NoRoute)));
    assert_eq!(node.store.pending(), vec!["dtn://src/-1000-0".to_string()]);
    node.peers.add(peer("peer1", "10.0.0.1", PeerType::Dynamic, 1000));
    assert!(matches!(forward(&mut node, "dtn://src/-1000-0", 1500), ForwardAction::Expired));
    assert_eq!(node.store.len(), 0);
}

#[test]
fn local_delivery_reaches_the_endpoint_queue() {
    let mut node = node_with("epidemic", vec!["in".to_string()]);
    node.peers.add(peer("peer1", "10.0.0.1", PeerType::Dynamic, 1000));
    let dst = eid("dtn://n1/in");
    let b = bundle("dtn://src/-1000-0", &dst.text, 1000, 60_000);
    let r = receive(&mut node, b, None, 1500);
    assert!(matches!(r, ReceiveOutcome::Delivered));
    let pack = node.store.get_metadata("dtn://src/-1000-0").expect("stored");
    assert_eq!(pack.status, BundleStatus::Delivered);
    let got = node.core.pickup(&dst).expect("delivered bundle");
    assert_eq!(got.id, "dtn://src/-1000-0");
    assert!(node.core.pickup(&dst).is_none());
    assert_eq!(node.stats.delivered, 1);
}

#[test]
fn scenario_epidemic_forwarding_to_the_fresh_peer() {
    let mut node = node_with("epidemic", vec![]);
    let now: u64 = 100_000;
    node.peers.add(peer("peer1", "10.0.0.1", PeerType::Dynamic, now));
    node.peers.add(peer("peer2", "10.0.0.2", PeerType::Dynamic, now - 21_000));
    process_peers(&mut node, now);
    assert_eq!(node.peers.count(), 1);
    let b = bundle("dtn://src/-99000-0", "dtn://far/inbox", 99_000, 60_000);
    let r = receive(&mut node, b, None, now);
    let plan = match r {
        ReceiveOutcome::Forward(ForwardAction::Transfer(plan)) => plan,
        _ => panic!("expected a transfer"),
    };
    assert_eq!(plan.senders.len(), 1);
    assert_eq!(plan.senders[0].remote, "10.0.0.1");
    assert_eq!(plan.bytes, vec![1, 2, 3]);
    let results: Vec<(ClaSender, bool)> = vec![(plan.senders[0].copy(), true)];
    let done = forward_completed(&mut node, &plan.bundle_id, &results, plan.delete_afterwards);
    assert!(matches!(done, CompletionOutcome::Forwarded));
    assert!(node.store.pending().is_empty());
    let pack = node.store.get_metadata("dtn://src/-99000-0").expect("kept for dedup");
    assert_eq!(pack.status, BundleStatus::Forwarded);
    assert_eq!(pack.attempts, 1);
    assert_eq!(node.stats.outgoing, 1);
}

#[test]
fn failed_send_leaves_bundle_pending_and_retries_that_peer() {
    let mut node = node_with("epidemic", vec![]);
    node.peers.add(peer("peer1", "10.0.0.1", PeerType::Dynamic, 1000));
    let b = bundle("dtn://src/-1000-0", "dtn://far/inbox", 1000, 60_000);
    let plan = match receive(&mut node, b, None, 1000) {
        ReceiveOutcome::Forward(ForwardAction::Transfer(plan)) => plan,
        _ => panic!("expected a transfer"),
    };
    let results: Vec<(ClaSender, bool)> = vec![(plan.senders[0].copy(), false)];
    let done = forward_completed(&mut node, &plan.bundle_id, &results, false);
    assert!(matches!(done, CompletionOutcome::Pending));
    assert_eq!(node.store.pending(), vec!["dtn://src/-1000-0".to_string()]);
    let again = forward(&mut node, "dtn://src/-1000-0", 2000);
    assert_eq!(remotes(&again), vec!["10.0.0.1".to_string()]);
    let pack = node.store.get_metadata("dtn://src/-1000-0").expect("stored");
    assert_eq!(pack.attempts, 2);
}

#[test]
fn delete_afterwards_removes_the_bundle() {
    let mut node = node_with("flooding", vec![]);
    node.peers.add(peer("peer1", "10.0.0.1", PeerType::Dynamic, 1000));
    let b = bundle("dtn://src/-1000-0", "dtn://far/inbox", 1000, 60_000);
    let plan = match receive(&mut node, b, None, 1000) {
        ReceiveOutcome::Forward(ForwardAction::Transfer(plan)) => plan,
        _ => panic!("expected a transfer"),
    };
    let results: Vec<(ClaSender, bool)> = vec![(plan.senders[0].copy(), true)];
    let done = forward_completed(&mut node, &plan.bundle_id, &results, true);
    assert!(matches!(done, CompletionOutcome::Forwarded));
    assert_eq!(node.store.len(), 0);
    let missing = forward_completed(&mut node, &plan.bundle_id, &results, true);
    assert!(matches!(missing, CompletionOutcome::Missing));
}

#[test]
fn completion_on_a_bundle_no_longer_waiting_changes_nothing() {
    let mut node = node_with("epidemic", vec!["in".to_string()]);
    let b = bundle("dtn://src/-1000-0", "dtn://n1/in", 1000, 60_000);
    receive(&mut node, b, None, 1000);
    let s = ClaSender { remote: "10.0.0.1".to_string(), port: None, agent: "http".to_string() };
    let done = forward_completed(&mut node, "dtn://src/-1000-0", &vec![(s, true)], false);
    assert!(matches!(done, CompletionOutcome::Unchanged));
    assert!(matches!(forward(&mut node, "dtn://src/-1000-0", 1000), ForwardAction::Finished));
}

#[test]
fn send_bundle_skips_local_delivery() {
    let mut node = node_with("flooding", vec!["in".to_string()]);
    node.peers.add(peer("peer1", "10.0.0.1", PeerType::Static, 0));
    let b = bundle("dtn://n1/-1000-0", "dtn://n1/in", 1000, 60_000);
    let a = send_bundle(&mut node, b.copy(), 1000);
    assert_eq!(remotes(&a), vec!["10.0.0.1".to_string()]);
    let a2 = send_bundle(&mut node, b, 1000);
    assert_eq!(remotes(&a2), vec!["10.0.0.1".to_string()]);
    assert_eq!(node.store.len(), 1);
}

#[test]
fn janitor_orders_waiting_bundles_oldest_first() {
    let mut node = node_with("sink", vec![]);
    receive(&mut node, bundle("c", "dtn://far/x", 3000, 60_000), None, 3000);
    receive(&mut node, bundle("a", "dtn://far/x", 1000, 60_000), None, 3000);
    receive(&mut node, bundle("b", "dtn://far/x", 2000, 60_000), None, 3000);
    let (ids, actions) = process_bundles(&mut node, 3000);
    assert_eq!(ids, vec!["a".to_string(), "b".to_string(), "c".to_string()]);
    assert!(actions.iter().all(|a| matches!(a, ForwardAction::NoRoute)));
}

#[test]
fn static_peer_survives_sweep_dynamic_does_not() {
    let mut node = node_with("epidemic", vec![]);
    let now: u64 = 100_000;
    let timeout = node.config.peer_timeout;
    node.peers.add(peer("d", "10.0.0.1", PeerType::Dynamic, now - (timeout + 1000)));
    node.peers.add(peer("s", "10.0.0.2", PeerType::Static, now - (timeout + 1000)));
    node.peers.add(peer("f", "10.0.0.3", PeerType::Dynamic, now - (timeout - 1)));
    process_peers(&mut node, now);
    assert!(node.peers.get_for_node(&eid("dtn://d/")).is_none());
    assert!(node.peers.get_for_node(&eid("dtn://s/")).is_some());
    assert!(node.peers.get_for_node(&eid("dtn://f/")).is_some());
    assert_eq!(node.peers.count(), 2);
}

#[test]
fn malformed_bytes_are_turned_away() {
    let mut node = node_with("epidemic", vec![]);
    let r = receive_bytes(&mut node, vec![0xff, 0x00, 0x13], None, 1000);
    assert!(matches!(r, Err(PushError::Malformed)));
    assert_eq!(node.store.len(), 0);
}

#[test]
fn bytes_of_a_real_bundle_are_received() {
    let dst: bp7::EndpointID = "dtn://far/inbox".try_into().unwrap();
    let src: bp7::EndpointID = "dtn://src/".try_into().unwrap();
    let pblock = bp7::primary::PrimaryBlockBuilder::default()
        .destination(dst)
        .source(src.clone())
        .report_to(src)
        .creation_timestamp(bp7::CreationTimestamp::with_time_and_seq(1000, 7))
        .lifetime(std::time::Duration::from_secs(60))
        .build()
        .unwrap();
    let mut b = bp7::bundle::BundleBuilder::default()
        .primary(pblock)
        .canonicals(vec![bp7::canonical::new_payload_block(
            bp7::flags::BlockControlFlags::empty(),
            b"hello".to_vec(),
        )])
        .build()
        .unwrap();
    let bytes = b.to_cbor();
    let decoded = Bundle::decode(bytes.clone()).expect("decodes");
    assert_eq!(decoded.id, "dtn://src/-1000-7");
    assert_eq!(decoded.source, "dtn://src/");
    assert_eq!(decoded.destination, "dtn://far/inbox");
    assert_eq!(decoded.creation_time, 1000);
    assert_eq!(decoded.sequence, 7);
    assert_eq!(decoded.lifetime, 60_000);
    assert_eq!(decoded.bytes, bytes);
    let mut node = node_with("epidemic", vec![]);
    let r = receive_bytes(&mut node, bytes.clone(), None, 2000);
    assert!(matches!(r, Ok(ReceiveOutcome::Forward(ForwardAction::NoRoute))));
    let r2 = receive_bytes(&mut node, bytes, None, 2000);
    assert!(matches!(r2, Ok(ReceiveOutcome::Duplicate)));
}

#[test]
fn setup_rejects_unknown_routing_and_bad_endpoints() {
    let mut cfg = DtnConfig::with_node_name("n1").unwrap();
    cfg.routing = "magic".to_string();
    assert!(matches!(init_node(cfg), Err(SetupError::UnknownRoutingAgent)));
    let mut cfg = DtnConfig::with_node_name("n1").unwrap();
    cfg.endpoints = vec!["in".to_string(), "dtn://other/x".to_string()];
    let node = init_node(cfg).ok().unwrap();
    assert!(node.core.is_in_endpoints(&eid("dtn://n1/in")));
    assert!(node.core.is_in_endpoints(&eid("dtn://other/x")));
    assert!(node.core.is_in_endpoints(&eid("dtn://n1/")));
    assert_eq!(node.core.endpoints.len(), 3);
    assert_eq!(node.core.cl_list.len(), 1);
    assert_eq!(node.core.cl_list[0].port(), 3000);
    let mut cfg = DtnConfig::with_node_name("n1").unwrap();
    cfg.host_eid = eid("dtn:none");
    cfg.endpoints = vec!["in".to_string()];
    assert!(matches!(init_node(cfg), Err(SetupError::InvalidEndpoint)));
}

#[test]
fn setup_adds_static_peers() {
    let mut cfg = DtnConfig::with_node_name("n1").unwrap();
    cfg.statics = vec![peer("s1", "10.0.0.5", PeerType::Static, 0)];
    let node = init_node(cfg).ok().unwrap();
    assert_eq!(node.peers.count(), 1);
    assert_eq!(node.peers.get(0).addr, "10.0.0.5");
    assert!(routing::new("sink").is_some());
}

#[test]
fn janitor_sweeps_peers_then_forwards_oldest_first() {
    let mut node = node_with("epidemic", vec![]);
    let now: u64 = 100_000;
    receive(&mut node, bundle("young", "dtn://far/x", 90_000, 60_000), None, now);
    receive(&mut node, bundle("old", "dtn://far/x", 80_000, 60_000), None, now);
    receive(&mut node, bundle("gone", "dtn://far/x", 1_000, 60_000), None, 2_000);
    node.peers.add(peer("fresh", "10.0.0.1", PeerType::Dynamic, now));
    node.peers.add(peer("stale", "10.0.0.2", PeerType::Dynamic, now - 30_000));
    let (ids, actions) = janitor(&mut node, now);
    assert_eq!(node.peers.count(), 1);
    assert_eq!(ids, vec!["gone".to_string(), "old".to_string(), "young".to_string()]);
    assert!(matches!(actions[0], ForwardAction::Expired));
    assert_eq!(remotes(&actions[1]), vec!["10.0.0.1".to_string()]);
    assert_eq!(remotes(&actions[2]), vec!["10.0.0.1".to_string()]);
    assert!(!node.store.has_item("gone"));
    let (ids2, actions2) = janitor(&mut node, now);
    assert_eq!(ids2.len(), 2);
    assert!(actions2.iter().all(|a| remotes(a).is_empty()));
}

#[test]
fn routing_skips_stale_peers_without_a_sweep() {
    let mut node = node_with("epidemic", vec![]);
    let now: u64 = 100_000;
    node.peers.add(peer("peer1", "10.0.0.1", PeerType::Dynamic, now));
    node.peers.add(peer("peer2", "10.0.0.2", PeerType::Dynamic, now - 21_000));
    let b = bundle("dtn://src/-99000-0", "dtn://far/inbox", 99_000, 60_000);
    let r = receive(&mut node, b, None, now);
    let plan = match r {
        ReceiveOutcome::Forward(ForwardAction::Transfer(plan)) => plan,
        _ => panic!("expected a transfer"),
    };
    assert_eq!(plan.senders.len(), 1);
    assert_eq!(plan.senders[0].remote, "10.0.0.1");
    assert_eq!(node.peers.count(), 2);
}

#[test]
fn expired_bundle_for_a_local_endpoint_is_not_delivered() {
    let mut node = node_with("epidemic", vec!["in".to_string()]);
    let dst = eid("dtn://n1/in");
    let b = bundle("dtn://src/-1000-0", &dst.text, 1000, 500);
    let r = receive(&mut node, b, None, 5000);
    assert!(matches!(r, ReceiveOutcome::Forward(ForwardAction::Expired)));
    assert!(node.core.pickup(&dst).is_none());
    assert_eq!(node.store.len(), 0);
}

#[test]
fn setup_takes_the_node_id_from_the_host_endpoint() {
    let mut cfg = DtnConfig::with_node_name("n1").unwrap();
    cfg.nodeid = "stale".to_string();
    let node = init_node(cfg).ok().unwrap();
    assert_eq!(node.config.nodeid, "dtn://n1/");
}

#[test]
fn failed_send_is_forgotten_for_every_peer_at_the_address() {
    let mut node = node_with("epidemic", vec![]);
    node.peers.add(peer("peer1", "10.0.0.1", PeerType::Dynamic, 1000));
    node.peers.add(peer("peer2", "10.0.0.1", PeerType::Dynamic, 1000));
    let b = bundle("dtn://src/-1000-0", "dtn://far/inbox", 1000, 60_000);
    let plan = match receive(&mut node, b, None, 1000) {
        ReceiveOutcome::Forward(ForwardAction::Transfer(plan)) => plan,
        _ => panic!("expected a transfer"),
    };
    assert_eq!(plan.senders.len(), 2);
    let results: Vec<(ClaSender, bool)> = vec![(plan.senders[1].copy(), false)];
    forward_completed(&mut node, &plan.bundle_id, &results, false);
    let again = forward(&mut node, "dtn://src/-1000-0", 2000);
    assert_eq!(remotes(&again), vec!["10.0.0.1".to_string(), "10.0.0.1".to_string()]);
}
