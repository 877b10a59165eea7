use dtn7::application_agent::{ApplicationAgentEnum, SimpleApplicationAgent};
use dtn7::bundle::Bundle;
use dtn7::bundlepack::{BundlePack, BundleStatus, IllegalTransition};
use dtn7::cla::{convergence_layer_agents, decimal_text, CLAEnum, ClaSender, HttpConvergenceLayer};
use dtn7::dtnconfig::{rnd_node_name, ConfigError, DtnConfig};
use dtn7::dtncore::{bump, DtnCore};
use dtn7::eid::{resolve_endpoint, EndpointId};
use dtn7::httpd::{require_localhost, RemoteIp};
use dtn7::peer::{DtnPeer, PeerTable, PeerType};
use dtn7::store::{BundleStore, StoreError};
use dtn7::utils::{
    get_sequence, is_local_node_id, peer_find_by_remote, peers_cla_for_node, service_add,
    store_delete_expired,
};

fn bundle(id: &str, created: u64, lifetime: u64) -> Bundle {
    Bundle {
        id: id.to_string(),
        source: "dtn://src/".to_string(),
        destination: "dtn://far/x".to_string(),
        creation_time: created,
        sequence: 0,
        lifetime,
        bytes: vec![9],
    }
}

#[test]
fn endpoint_ids_are_read_by_bp7() {
    let e = EndpointId::parse("dtn://node1/incoming").unwrap();
    assert_eq!(e.text, "dtn://node1/incoming");
    assert_eq!(e.node, "node1");
    assert_eq!(e.node_id, "dtn://node1/");
    let n = EndpointId::parse("dtn://node1").unwrap();
    assert_eq!(n.text, "dtn://node1/");
    let ipn = EndpointId::parse("ipn:23.4").unwrap();
    assert_eq!(ipn.node, "23");
    assert!(EndpointId::parse("http://x").is_none());
    assert!(EndpointId::parse("garbage").is_none());
    let none = EndpointId::parse("dtn:none").unwrap();
    assert_eq!(none.node, "");
    assert!(EndpointId::parse("dtn://none").is_none());
    assert!(DtnConfig::with_node_name("none").is_none());
}

#[test]
fn new_endpoint_and_resolution() {
    let host = EndpointId::parse("dtn://n1/").unwrap();
    let svc = host.new_endpoint("in").unwrap();
    assert_eq!(svc.text, "dtn://n1/in");
    assert_eq!(resolve_endpoint(&host, "in").unwrap().text, "dtn://n1/in");
    assert_eq!(resolve_endpoint(&host, "dtn://x/y").unwrap().text, "dtn://x/y");
    let none = EndpointId::parse("dtn:none").unwrap();
    assert!(none.new_endpoint("in").is_none());
}

#[test]
fn lifetime_check() {
    let b = bundle("a", 1000, 500);
    assert!(!b.is_lifetime_exceeded(1499));
    assert!(b.is_lifetime_exceeded(1500));
    let no_clock = bundle("b", 0, 1);
    assert!(!no_clock.is_lifetime_exceeded(u64::MAX));
    let long = bundle("c", 10, u64::MAX);
    assert!(!long.is_lifetime_exceeded(u64::MAX));
}

#[test]
fn store_operations() {
    let mut store = BundleStore::new();
    assert_eq!(store.push(bundle("a", 1, 100), 5), Ok(()));
    assert_eq!(store.push(bundle("a", 1, 100), 6), Err(StoreError::AlreadyExists));
    assert!(store.has_item("a"));
    assert_eq!(store.get_bundle("a").unwrap().bytes, vec![9]);
    let mut p = store.get_metadata("a").unwrap();
    assert_eq!(p.status, BundleStatus::Received);
    assert_eq!(p.received_at, 5);
    p.transition(BundleStatus::Dispatching).unwrap();
    store.update_metadata(p).unwrap();
    assert_eq!(store.forwarding(), vec!["a".to_string()]);
    assert!(store.pending().is_empty());
    assert_eq!(store.get_metadata("a").unwrap().status, BundleStatus::Dispatching);
    let missing = BundlePack::new(bundle("zz", 1, 1), 0);
    assert_eq!(store.update_metadata(missing), Err(StoreError::NotFound));
    let mut other = BundlePack::new(bundle("a", 77, 5), 9);
    other.status = BundleStatus::Forwarding;
    other.bundle.bytes = vec![4, 4];
    store.update_metadata(other).unwrap();
    assert_eq!(store.get_bundle("a").unwrap().bytes, vec![9]);
    assert_eq!(store.get_bundle("a").unwrap().creation_time, 1);
    assert_eq!(store.get_metadata("a").unwrap().status, BundleStatus::Forwarding);
    assert_eq!(store.pending(), vec!["a".to_string()]);
    assert_eq!(store.remove("zz"), Err(StoreError::NotFound));
    assert_eq!(store.remove("a"), Ok(()));
    assert_eq!(store.len(), 0);
    assert!(store.get_metadata("a").is_none());
}

#[test]
fn sweep_drops_only_expired_waiting_bundles() {
    let mut store = BundleStore::new();
    store.push(bundle("old", 1000, 10), 0).unwrap();
    store.push(bundle("young", 1000, 100_000), 0).unwrap();
    store.push(bundle("received", 1000, 10), 0).unwrap();
    for id in ["old", "young"] {
        let mut p = store.get_metadata(id).unwrap();
        p.transition(BundleStatus::Dispatching).unwrap();
        p.transition(BundleStatus::Forwarding).unwrap();
        store.update_metadata(p).unwrap();
    }
    store_delete_expired(&mut store, 5000);
    assert!(!store.has_item("old"));
    assert!(store.has_item("young"));
    assert!(store.has_item("received"));
}

#[test]
fn state_machine_rejects_illegal_moves() {
    let mut p = BundlePack::new(bundle("a", 1, 1), 0);
    assert_eq!(
        p.transition(BundleStatus::Forwarded),
        Err(IllegalTransition { from: BundleStatus::Received, to: BundleStatus::Forwarded })
    );
    assert_eq!(p.status, BundleStatus::Received);
    p.transition(BundleStatus::Dispatching).unwrap();
    p.transition(BundleStatus::Delivered).unwrap();
    assert!(p.transition(BundleStatus::Forwarding).is_err());
    assert!(p.transition(BundleStatus::Deleted).is_ok());
}

#[test]
fn peer_table_add_refresh_and_lookup() {
    let mut t = PeerTable::new();
    let mk = |addr: &str, last: u64| DtnPeer {
        eid: EndpointId::parse("dtn://peer1/").unwrap(),
        addr: addr.to_string(),
        con_type: PeerType::Dynamic,
        cla_list: vec![("http".to_string(), Some(3000))],
        last_contact: last,
    };
    assert!(t.add(mk("10.0.0.1", 1)));
    assert!(!t.add(mk("10.0.0.9", 2)));
    assert_eq!(t.count(), 1);
    let eid = EndpointId::parse("dtn://peer1/in").unwrap();
    let p = t.get_for_node(&eid).unwrap();
    assert_eq!(p.addr, "10.0.0.9");
    assert_eq!(p.last_contact, 2);
    assert_eq!(peer_find_by_remote(&t, &"10.0.0.9".to_string()), Some("peer1".to_string()));
    assert_eq!(peer_find_by_remote(&t, &"10.0.0.1".to_string()), None);
    let c = peers_cla_for_node(&t, &eid).unwrap();
    assert_eq!(c.destination(), "10.0.0.9:3000");
    t.clear();
    assert_eq!(t.count(), 0);
}

#[test]
fn sender_destination_and_transfer() {
    let s = ClaSender { remote: "192.168.1.7".to_string(), port: Some(8080), agent: "http".to_string() };
    assert_eq!(s.destination(), "192.168.1.7:8080");
    let (cla, dest) = s.transfer(3000).unwrap();
    assert_eq!(dest, "192.168.1.7:8080");
    assert_eq!(cla.port(), 3000);
    assert_eq!(cla.name(), "http");
    let bare = ClaSender { remote: "10.1.1.1".to_string(), port: None, agent: "http".to_string() };
    assert_eq!(bare.destination(), "10.1.1.1");
    let zero = ClaSender { remote: "h".to_string(), port: Some(0), agent: "http".to_string() };
    assert_eq!(zero.destination(), "h:0");
    let unknown = ClaSender { remote: "h".to_string(), port: None, agent: "tcp".to_string() };
    assert!(unknown.transfer(3000).is_none());
    assert_eq!(convergence_layer_agents(), vec!["http".to_string()]);
    assert_eq!(HttpConvergenceLayer::new(Some(1234), 3000).port(), 1234);
    assert_eq!(HttpConvergenceLayer::new(None, 3000).port(), 3000);
    assert_eq!(CLAEnum::HttpConvergenceLayer(HttpConvergenceLayer::new(None, 80)).port(), 80);
}

#[test]
fn config_defaults() {
    let c = DtnConfig::with_node_name("abc").unwrap();
    assert_eq!(c.nodeid, "dtn://abc/");
    assert_eq!(c.host_eid.node, "abc");
    assert_eq!(c.webport, 3000);
    assert_eq!(c.peer_timeout, 20_000);
    assert_eq!(c.janitor_interval, 10_000);
    assert_eq!(c.announcement_interval, 2_000);
    assert_eq!(c.routing, "epidemic");
    assert!(c.v4 && !c.v6);
    let r = DtnConfig::new();
    assert_eq!(r.host_eid.node.len(), 10);
}

#[test]
fn random_node_names() {
    let a = rnd_node_name();
    assert_eq!(a.len(), 10);
    assert!(a.chars().all(|c| c.is_ascii_alphanumeric()));
}

#[test]
fn config_set_takes_everything() {
    let mut c = DtnConfig::with_node_name("abc").unwrap();
    let mut d = DtnConfig::with_node_name("xyz").unwrap();
    d.webport = 8080;
    d.v6 = true;
    d.nodeid = "stale".to_string();
    c.set(d);
    assert_eq!(c.nodeid, "dtn://xyz/");
    assert_eq!(c.webport, 8080);
    assert!(c.v6);
}

#[test]
fn discovery_destinations_defaults() {
    let mut c = DtnConfig::with_node_name("abc").unwrap();
    c.check_destinations().unwrap();
    assert_eq!(c.destinations(), vec![("224.0.0.26:3003".to_string(), 0)]);
    let mut both = DtnConfig::with_node_name("abc").unwrap();
    both.v6 = true;
    both.check_destinations().unwrap();
    assert_eq!(both.destinations().len(), 2);
    let mut v6 = DtnConfig::with_node_name("abc").unwrap();
    v6.v4 = false;
    v6.v6 = true;
    v6.check_destinations().unwrap();
    assert_eq!(v6.destinations(), vec![("[FF02::1]:3003".to_string(), 0)]);
    let mut none = DtnConfig::with_node_name("abc").unwrap();
    none.v4 = false;
    assert_eq!(none.check_destinations(), Err(ConfigError::NoIpDestinations));
    let mut given = DtnConfig::with_node_name("abc").unwrap();
    given.v4 = false;
    given.add_discovery_destination("10.0.0.255:3003");
    assert_eq!(given.check_destinations(), Ok(()));
    assert_eq!(given.destinations(), vec![("10.0.0.255:3003".to_string(), 0)]);
}

#[test]
fn beacon_sequence_numbers_wrap() {
    let mut c = DtnConfig::with_node_name("abc").unwrap();
    c.add_discovery_destination("d");
    c.update_beacon_sequence_number("d");
    c.update_beacon_sequence_number("d");
    assert_eq!(get_sequence(&c, "d"), 2);
    c.update_beacon_sequence_number("unknown");
    assert_eq!(get_sequence(&c, "unknown"), 0);
    c.discovery_destinations[0].1 = u32::MAX;
    c.update_beacon_sequence_number("d");
    assert_eq!(get_sequence(&c, "d"), 0);
    c.update_beacon_sequence_number("d");
    c.reset_sequence("d");
    assert_eq!(c.get_sequence("d"), 0);
    c.add_discovery_destination("d");
    assert_eq!(c.destinations().len(), 1);
}

#[test]
fn local_node_ids() {
    let c = DtnConfig::with_node_name("n1").unwrap();
    assert!(is_local_node_id(&c, &EndpointId::parse("dtn://n1/in").unwrap()));
    assert!(!is_local_node_id(&c, &EndpointId::parse("dtn://n2/in").unwrap()));
}

#[test]
fn core_registration_and_services() {
    let mut core = DtnCore::new();
    let e = EndpointId::parse("dtn://n1/in").unwrap();
    core.register_application_agent(ApplicationAgentEnum::SimpleApplicationAgent(
        SimpleApplicationAgent::with(e.copy()),
    ));
    core.register_application_agent(ApplicationAgentEnum::SimpleApplicationAgent(
        SimpleApplicationAgent::with(e.copy()),
    ));
    assert_eq!(core.endpoints.len(), 1);
    assert!(core.is_in_endpoints(&e));
    assert!(!core.deliver(&"dtn://n1/other".to_string(), bundle("a", 1, 1)));
    assert!(core.deliver(&e.text, bundle("a", 1, 1)));
    assert!(core.deliver(&e.text, bundle("b", 1, 1)));
    assert_eq!(core.pickup(&e).unwrap().id, "a");
    assert_eq!(core.pickup(&e).unwrap().id, "b");
    service_add(&mut core, 7, "chat".to_string());
    service_add(&mut core, 7, "news".to_string());
    service_add(&mut core, 8, "x".to_string());
    assert_eq!(core.service_list, vec![(7, "news".to_string()), (8, "x".to_string())]);
    let d = DtnCore::default();
    assert!(d.endpoints.is_empty());
}

#[test]
fn counters_stop_at_the_largest_value() {
    assert_eq!(bump(0), 1);
    assert_eq!(bump(u64::MAX), u64::MAX);
}

#[test]
fn only_local_requests_may_push() {
    assert!(require_localhost(false, Some(RemoteIp::V4([127, 0, 0, 1]))));
    assert!(require_localhost(false, Some(RemoteIp::V4([127, 1, 2, 3]))));
    assert!(!require_localhost(false, Some(RemoteIp::V4([10, 0, 0, 1]))));
    assert!(require_localhost(true, Some(RemoteIp::V4([10, 0, 0, 1]))));
    assert!(require_localhost(false, Some(RemoteIp::V6([0, 0, 0, 0, 0, 0, 0, 1]))));
    assert!(require_localhost(false, Some(RemoteIp::V6([0, 0, 0, 0, 0, 0xffff, 0x7f00, 1]))));
    assert!(!require_localhost(false, Some(RemoteIp::V6([0xfe80, 0, 0, 0, 0, 0, 0, 1]))));
    assert!(!require_localhost(false, None));
}

#[test]
fn ports_in_decimal() {
    assert_eq!(decimal_text(0), "0");
    assert_eq!(decimal_text(7), "7");
    assert_eq!(decimal_text(10), "10");
    assert_eq!(decimal_text(3000), "3000");
    assert_eq!(decimal_text(65535), "65535");
}
