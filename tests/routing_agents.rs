use dtn7::bundle::Bundle;
use dtn7::bundlepack::BundlePack;
use dtn7::eid::EndpointId;
use dtn7::peer::{DtnPeer, PeerTable, PeerType};
use dtn7::routing::{
    new, EpidemicRoutingAgent, FloodingRoutingAgent, RoutingAgentsEnum, RoutingNotifcation,
    SinkRoutingAgent,
};

fn peer(node: &str, addr: &str, clas: Vec<(String, Option<u16>)>) -> DtnPeer {
    DtnPeer {
        eid: EndpointId::parse(&format!("dtn://{}/", node)).unwrap(),
        addr: addr.to_string(),
        con_type: PeerType::Dynamic,
        cla_list: clas,
        last_contact: 0,
    }
}

fn http() -> Vec<(String, Option<u16>)> {
    vec![("http".to_string(), Some(3000))]
}

fn pack(id: &str) -> BundlePack {
    let b = Bundle {
        id: id.to_string(),
        source: "dtn://src/".to_string(),
        destination: "dtn://far/x".to_string(),
        creation_time: 1,
        sequence: 0,
        lifetime: 1000,
        bytes: vec![],
    };
    BundlePack::new(b, 0)
}

fn remotes(r: &(Vec<dtn7::cla::ClaSender>, bool)) -> Vec<String> {
    r.0.iter().map(|s| s.remote.clone()).collect()
}

#[test]
fn epidemic_does_not_resend_to_a_peer() {
    let mut agent = EpidemicRoutingAgent::new();
    let mut peers = PeerTable::new();
    peers.add(peer("peer1", "10.0.0.1", http()));
    let bp = pack("b1");
    let first = agent.sender_for_bundle(&bp, &peers);
    assert_eq!(remotes(&first), vec!["10.0.0.1".to_string()]);
    assert!(!first.1);
    peers.add(peer("peer2", "10.0.0.2", http()));
    let second = agent.sender_for_bundle(&bp, &peers);
    assert_eq!(remotes(&second), vec!["10.0.0.2".to_string()]);
    let third = agent.sender_for_bundle(&bp, &peers);
    assert!(third.0.is_empty());
    let other = agent.sender_for_bundle(&pack("b2"), &peers);
    assert_eq!(remotes(&other), vec!["10.0.0.1".to_string(), "10.0.0.2".to_string()]);
}

#[test]
fn epidemic_retries_a_peer_after_a_failure() {
    let mut agent = EpidemicRoutingAgent::new();
    let mut peers = PeerTable::new();
    peers.add(peer("peer1", "10.0.0.1", http()));
    let bp = pack("b1");
    agent.sender_for_bundle(&bp, &peers);
    agent.notify(RoutingNotifcation::SendingFailed("b1".to_string(), "peer1".to_string()));
    let again = agent.sender_for_bundle(&bp, &peers);
    assert_eq!(remotes(&again), vec!["10.0.0.1".to_string()]);
}

#[test]
fn epidemic_skips_the_peer_a_bundle_came_from() {
    let mut agent = EpidemicRoutingAgent::new();
    let mut peers = PeerTable::new();
    peers.add(peer("peer1", "10.0.0.1", http()));
    peers.add(peer("peer2", "10.0.0.2", http()));
    agent.notify(RoutingNotifcation::IncomingBundle("b1".to_string(), Some("peer1".to_string())));
    let r = agent.sender_for_bundle(&pack("b1"), &peers);
    assert_eq!(remotes(&r), vec!["10.0.0.2".to_string()]);
}

#[test]
fn epidemic_skips_peers_without_a_usable_layer() {
    let mut agent = EpidemicRoutingAgent::new();
    let mut peers = PeerTable::new();
    peers.add(peer("peer1", "10.0.0.1", vec![("tcp".to_string(), Some(16162))]));
    peers.add(peer("peer2", "10.0.0.2", vec![("tcp".to_string(), None), ("http".to_string(), None)]));
    let r = agent.sender_for_bundle(&pack("b1"), &peers);
    assert_eq!(r.0.len(), 1);
    assert_eq!(r.0[0].remote, "10.0.0.2");
    assert_eq!(r.0[0].port, None);
    assert_eq!(r.0[0].agent, "http");
}

#[test]
fn epidemic_with_no_peers_picks_nobody() {
    let mut agent = EpidemicRoutingAgent::new();
    let peers = PeerTable::new();
    let r = agent.sender_for_bundle(&pack("b1"), &peers);
    assert!(r.0.is_empty());
}

#[test]
fn flooding_sends_to_every_peer_every_time() {
    let agent = FloodingRoutingAgent::new();
    let mut peers = PeerTable::new();
    peers.add(peer("peer1", "10.0.0.1", http()));
    peers.add(peer("peer2", "10.0.0.2", http()));
    let bp = pack("b1");
    let a = agent.sender_for_bundle(&bp, &peers);
    let b = agent.sender_for_bundle(&bp, &peers);
    assert_eq!(remotes(&a), vec!["10.0.0.1".to_string(), "10.0.0.2".to_string()]);
    assert_eq!(remotes(&b), remotes(&a));
    assert!(!a.1);
}

#[test]
fn sink_never_relays() {
    let agent = SinkRoutingAgent::new();
    let mut peers = PeerTable::new();
    peers.add(peer("peer1", "10.0.0.1", http()));
    let r = agent.sender_for_bundle(&pack("b1"), &peers);
    assert!(r.0.is_empty());
    let mut any = new("sink").unwrap();
    let r2 = any.sender_for_bundle(&pack("b2"), &peers);
    assert!(r2.0.is_empty());
}

#[test]
fn routing_agents_by_name() {
    assert!(matches!(new("epidemic"), Some(RoutingAgentsEnum::EpidemicRoutingAgent(_))));
    assert!(matches!(new("flooding"), Some(RoutingAgentsEnum::FloodingRoutingAgent(_))));
    assert!(matches!(new("sink"), Some(RoutingAgentsEnum::SinkRoutingAgent(_))));
    assert!(new("Epidemic").is_none());
    assert!(new("").is_none());
}
