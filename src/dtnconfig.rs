//! The node's configuration, and the discovery beacons' sequence numbers.

use rand::Rng;
use vstd::prelude::*;

use crate::keys::{keys_unique, lemma_push_unique, lemma_update_unique};
use crate::eid::{bp7_eid, is_dtn_uri, parts_of, EndpointId};
use crate::peer::DtnPeer;

verus! {

/// Why a configuration cannot be used.
#[derive(Clone, Copy, Debug, PartialEq, Eq, Structural)]
pub enum ConfigError {
    /// Neither IPv4 nor IPv6 is enabled, so no discovery destination can be
    /// chosen.
    NoIpDestinations,
}

/// The node's settings. Durations are in milliseconds.
pub struct DtnConfig {
    pub debug: bool,
    pub unsafe_httpd: bool,
    pub v4: bool,
    pub v6: bool,
    pub custom_timeout: bool,
    pub enable_period: bool,
    pub nodeid: String,
    pub host_eid: EndpointId,
    pub webport: u16,
    pub announcement_interval: u64,
    /// Where discovery beacons go, each with its next sequence number; one
    /// entry per destination.
    pub discovery_destinations: Vec<(String, u32)>,
    pub janitor_interval: u64,
    pub endpoints: Vec<String>,
    pub services: Vec<(u8, String)>,
    pub routing: String,
    pub peer_timeout: u64,
    pub statics: Vec<DtnPeer>,
    pub generate_status_reports: bool,
}

/// The discovery destinations as text, with their sequence numbers.
pub open spec fn dest_views(v: Seq<(String, u32)>) -> Seq<(Seq<char>, u32)> {
    v.map_values(|d: (String, u32)| (d.0@, d.1))
}

/// Whether no destination appears twice.
pub open spec fn dests_unique(v: Seq<(Seq<char>, u32)>) -> bool {
    keys_unique(v, |d: (Seq<char>, u32)| d.0)
}

/// Whether no service tag appears twice.
pub open spec fn tags_unique(v: Seq<(u8, String)>) -> bool {
    keys_unique(v, |s: (u8, String)| s.0)
}

/// Whether configurations `a` and `b` agree on every setting but the
/// discovery destinations.
pub open spec fn same_but_destinations(a: DtnConfig, b: DtnConfig) -> bool {
    &&& a.debug == b.debug
    &&& a.unsafe_httpd == b.unsafe_httpd
    &&& a.v4 == b.v4
    &&& a.v6 == b.v6
    &&& a.custom_timeout == b.custom_timeout
    &&& a.enable_period == b.enable_period
    &&& a.nodeid == b.nodeid
    &&& a.host_eid == b.host_eid
    &&& a.webport == b.webport
    &&& a.announcement_interval == b.announcement_interval
    &&& a.janitor_interval == b.janitor_interval
    &&& a.endpoints == b.endpoints
    &&& a.services == b.services
    &&& a.routing == b.routing
    &&& a.peer_timeout == b.peer_timeout
    &&& a.statics == b.statics
    &&& a.generate_status_reports == b.generate_status_reports
}

/// Whether destination `d` is listed.
pub open spec fn has_dest(v: Seq<(Seq<char>, u32)>, d: Seq<char>) -> bool {
    exists|i: int| 0 <= i < v.len() && (#[trigger] v[i]).0 == d
}

/// Where destination `d` is listed.
pub open spec fn dest_position(v: Seq<(Seq<char>, u32)>, d: Seq<char>) -> int {
    choose|i: int| 0 <= i < v.len() && (#[trigger] v[i]).0 == d
}

/// The sequence number after `n`: one more, and zero after the largest.
pub open spec fn next_sequence(n: u32) -> u32 {
    if n == u32::MAX {
        0
    } else {
        (n + 1) as u32
    }
}

/// The default IPv4 discovery destination.
pub open spec fn ipv4_discovery() -> Seq<char> {
    "224.0.0.26:3003"@
}

/// The default IPv6 discovery destination.
pub open spec fn ipv6_discovery() -> Seq<char> {
    "[FF02::1]:3003"@
}

/// The discovery destinations chosen where none is given, for the enabled IP
/// versions (none where neither is).
pub open spec fn default_destinations(v4: bool, v6: bool) -> Seq<(Seq<char>, u32)> {
    if v4 && v6 {
        seq![(ipv4_discovery(), 0u32), (ipv6_discovery(), 0u32)]
    } else if v4 {
        seq![(ipv4_discovery(), 0u32)]
    } else if v6 {
        seq![(ipv6_discovery(), 0u32)]
    } else {
        Seq::empty()
    }
}

/// Whether a text is ten ASCII letters and digits.
pub open spec fn is_node_name(s: Seq<char>) -> bool {
    s.len() == 10 && forall|i: int|
        0 <= i < s.len() ==> ('0' <= #[trigger] s[i] <= '9' || 'a' <= s[i] <= 'z' || 'A' <= s[i]
            <= 'Z')
}

/// A random node name: ten characters drawn from ASCII letters and digits.
///
/// Relies on rand's `thread_rng` sampled from `Alphanumeric`: each draw is
/// an ASCII letter or digit.
#[verifier::external_body]
pub fn rnd_node_name() -> (r: String)
    ensures
        is_node_name(r@),
{
    rand::thread_rng().sample_iter(&rand::distributions::Alphanumeric).take(10).map(char::from).collect()
}

/// A copy of the discovery destinations.
fn copy_dests(v: &Vec<(String, u32)>) -> (r: Vec<(String, u32)>)
    ensures
        dest_views(r@) == dest_views(v@),
{
    let mut r: Vec<(String, u32)> = Vec::new();
    let mut i: usize = 0;
    while i < v.len()
        invariant
            i <= v@.len(),
            r@.len() == i,
            forall|k: int| 0 <= k < i ==> (#[trigger] r@[k]).0@ == v@[k].0@ && r@[k].1 == v@[k].1,
        decreases v@.len() - i,
    {
        let name = v[i].0.clone();
        r.push((name, v[i].1));
        i = i + 1;
    }
    assert(dest_views(r@) =~= dest_views(v@));
    r
}

impl DtnConfig {
    /// The configuration's invariant: each discovery destination and each
    /// service tag is listed once.
    pub open spec fn wf(&self) -> bool {
        &&& dests_unique(dest_views(self.discovery_destinations@))
        &&& tags_unique(self.services@)
    }

    /// The discovery destinations as text, with their sequence numbers.
    pub open spec fn dests(&self) -> Seq<(Seq<char>, u32)> {
        dest_views(self.discovery_destinations@)
    }

    /// The defaults for a node called `name`: node id `dtn://<name>`, IPv4
    /// only, web port 3000, announcements every 2 s, a janitor run every 10 s,
    /// peers dropped after 20 s unseen, epidemic routing, nothing else set.
    /// `None` only where `name` is `none`, which bp7 rejects.
    pub fn with_node_name(name: &str) -> (r: Option<DtnConfig>)
        ensures
            r is Some <==> bp7_eid("dtn://"@ + name@) is Some,
            name@ != "none"@ ==> r is Some,
            r matches Some(c) ==> {
                &&& bp7_eid("dtn://"@ + name@) == Some(parts_of(c.host_eid@))
                &&& c.nodeid@ == c.host_eid.text@
                &&& c.wf()
                &&& !c.debug && !c.unsafe_httpd && c.v4 && !c.v6
                &&& !c.custom_timeout && !c.enable_period && !c.generate_status_reports
                &&& c.webport == 3000
                &&& c.announcement_interval == 2000
                &&& c.janitor_interval == 10000
                &&& c.peer_timeout == 20000
                &&& c.routing@ == "epidemic"@
                &&& c.discovery_destinations@.len() == 0
                &&& c.endpoints@.len() == 0
                &&& c.services@.len() == 0
                &&& c.statics@.len() == 0
            },
    {
        let text = String::from_str("dtn://").concat(name);
        proof {
            reveal_strlit("dtn://");
            reveal_strlit("dtn://none");
            reveal_strlit("none");
            let t = text@;
            assert(t.subrange(0, 6) =~= "dtn://"@);
            if name@ != "none"@ && t == "dtn://none"@ {
                assert(name@ =~= t.subrange(6, t.len() as int));
                assert("dtn://none"@.subrange(6, 10) =~= "none"@);
            }
        }
        match EndpointId::parse(text.as_str()) {
            Some(host_eid) => {
                let c = DtnConfig {
                    debug: false,
                    unsafe_httpd: false,
                    v4: true,
                    v6: false,
                    custom_timeout: false,
                    enable_period: false,
                    nodeid: host_eid.text.clone(),
                    host_eid,
                    webport: 3000,
                    announcement_interval: 2000,
                    discovery_destinations: Vec::new(),
                    janitor_interval: 10000,
                    endpoints: Vec::new(),
                    services: Vec::new(),
                    routing: String::from_str("epidemic"),
                    peer_timeout: 20000,
                    statics: Vec::new(),
                    generate_status_reports: false,
                };
                Some(c)
            },
            None => None,
        }
    }

    /// The defaults for a node with a random name of ten ASCII letters and
    /// digits (see `with_node_name`).
    pub fn new() -> (r: DtnConfig)
        ensures
            r.wf(),
            exists|name: Seq<char>|
                is_node_name(name) && bp7_eid("dtn://"@ + name) == Some(parts_of(r.host_eid@)),
            r.nodeid@ == r.host_eid.text@,
            r.webport == 3000,
            !r.debug && !r.unsafe_httpd && !r.custom_timeout && !r.enable_period,
            !r.generate_status_reports,
            r.peer_timeout == 20000,
            r.janitor_interval == 10000,
            r.announcement_interval == 2000,
            r.routing@ == "epidemic"@,
            r.v4 && !r.v6,
            r.discovery_destinations@.len() == 0,
            r.endpoints@.len() == 0,
            r.services@.len() == 0,
            r.statics@.len() == 0,
    {
        let name = rnd_node_name();
        proof {
            reveal_strlit("none");
        }
        match DtnConfig::with_node_name(name.as_str()) {
            Some(c) => c,
            None => unreached(),
        }
    }

    /// Takes over every setting of `cfg`; the node id becomes the text of
    /// `cfg`'s host endpoint.
    pub fn set(&mut self, cfg: DtnConfig)
        ensures
            final(self).nodeid@ == cfg.host_eid.text@,
            final(self).debug == cfg.debug,
            final(self).unsafe_httpd == cfg.unsafe_httpd,
            final(self).v4 == cfg.v4,
            final(self).v6 == cfg.v6,
            final(self).custom_timeout == cfg.custom_timeout,
            final(self).enable_period == cfg.enable_period,
            final(self).host_eid == cfg.host_eid,
            final(self).webport == cfg.webport,
            final(self).announcement_interval == cfg.announcement_interval,
            final(self).discovery_destinations == cfg.discovery_destinations,
            final(self).janitor_interval == cfg.janitor_interval,
            final(self).endpoints == cfg.endpoints,
            final(self).services == cfg.services,
            final(self).routing == cfg.routing,
            final(self).peer_timeout == cfg.peer_timeout,
            final(self).statics == cfg.statics,
            final(self).generate_status_reports == cfg.generate_status_reports,
    {
        self.debug = cfg.debug;
        self.unsafe_httpd = cfg.unsafe_httpd;
        self.v4 = cfg.v4;
        self.v6 = cfg.v6;
        self.custom_timeout = cfg.custom_timeout;
        self.enable_period = cfg.enable_period;
        self.nodeid = cfg.host_eid.text.clone();
        self.host_eid = cfg.host_eid;
        self.webport = cfg.webport;
        self.announcement_interval = cfg.announcement_interval;
        self.discovery_destinations = cfg.discovery_destinations;
        self.janitor_interval = cfg.janitor_interval;
        self.endpoints = cfg.endpoints;
        self.services = cfg.services;
        self.routing = cfg.routing;
        self.peer_timeout = cfg.peer_timeout;
        self.statics = cfg.statics;
        self.generate_status_reports = cfg.generate_status_reports;
    }

    /// Where no discovery destination is given, takes the defaults for the
    /// enabled IP versions; an error where neither IPv4 nor IPv6 is enabled.
    pub fn check_destinations(&mut self) -> (r: Result<(), ConfigError>)
        requires
            old(self).wf(),
        ensures
            final(self).wf(),
            same_but_destinations(*old(self), *final(self)),
            r is Err <==> old(self).dests().len() == 0 && !old(self).v4 && !old(self).v6,
            r matches Err(e) ==> e == ConfigError::NoIpDestinations,
            old(self).dests().len() > 0 ==> final(self).dests() == old(self).dests(),
            old(self).dests().len() == 0 ==> final(self).dests() == default_destinations(
                old(self).v4,
                old(self).v6,
            ),
    {
        proof {
            reveal_strlit("224.0.0.26:3003");
            reveal_strlit("[FF02::1]:3003");
        }
        if self.discovery_destinations.len() == 0 {
            if !self.v4 && !self.v6 {
                return Err(ConfigError::NoIpDestinations);
            }
            if self.v4 {
                self.discovery_destinations.push((String::from_str("224.0.0.26:3003"), 0));
            }
            if self.v6 {
                self.discovery_destinations.push((String::from_str("[FF02::1]:3003"), 0));
            }
            assert(self.dests() =~= default_destinations(self.v4, self.v6));
            assert(ipv4_discovery()[0] != ipv6_discovery()[0]);
        }
        Ok(())
    }

    /// Where destination `d` is listed, if it is.
    fn dest_index(&self, d: &str) -> (r: Option<usize>)
        requires
            self.wf(),
        ensures
            r is None <==> !has_dest(self.dests(), d@),
            r matches Some(i) ==> i < self.dests().len() && self.dests()[i as int].0 == d@ && i
                == dest_position(self.dests(), d@),
    {
        let key = d.to_owned();
        let mut i: usize = 0;
        while i < self.discovery_destinations.len()
            invariant
                i <= self.dests().len(),
                key@ == d@,
                self.wf(),
                forall|k: int| 0 <= k < i ==> (#[trigger] self.dests()[k]).0 != d@,
            decreases self.dests().len() - i,
        {
            if self.discovery_destinations[i].0 == key {
                proof {
                    assert(self.dests()[i as int].0 == d@);
                    assert(has_dest(self.dests(), d@));
                    let k = dest_position(self.dests(), d@);
                    assert(self.dests()[k].0 == d@);
                }
                return Some(i);
            }
            i = i + 1;
        }
        None
    }

    /// Advances the beacon sequence number of destination `destination`
    /// (from the largest back to zero); nothing where it is not listed.
    pub fn update_beacon_sequence_number(&mut self, destination: &str)
        requires
            old(self).wf(),
        ensures
            final(self).wf(),
            same_but_destinations(*old(self), *final(self)),
            !has_dest(old(self).dests(), destination@) ==> final(self).dests() == old(self).dests(),
            has_dest(old(self).dests(), destination@) ==> final(self).dests() == old(self).dests().update(
                dest_position(old(self).dests(), destination@),
                (
                    destination@,
                    next_sequence(old(self).dests()[dest_position(old(self).dests(), destination@)].1),
                ),
            ),
    {
        match self.dest_index(destination) {
            Some(i) => {
                let n = self.discovery_destinations[i].1;
                let next: u32 = if n == u32::MAX {
                    0
                } else {
                    n + 1
                };
                let name = self.discovery_destinations[i].0.clone();
                self.discovery_destinations.set(i, (name, next));
                proof {
                    let o = old(self).dests();
                    assert(self.dests() =~= o.update(i as int, (destination@, next)));
                    lemma_update_unique(o, |d: (Seq<char>, u32)| d.0, i as int, (destination@, next));
                }
            },
            None => {},
        }
    }

    /// Lists destination `destination` with sequence number zero, or resets
    /// it to zero where it is listed.
    pub fn add_discovery_destination(&mut self, destination: &str)
        requires
            old(self).wf(),
        ensures
            final(self).wf(),
            same_but_destinations(*old(self), *final(self)),
            !has_dest(old(self).dests(), destination@) ==> final(self).dests() == old(self).dests().push(
                (destination@, 0u32),
            ),
            has_dest(old(self).dests(), destination@) ==> final(self).dests() == old(self).dests().update(
                dest_position(old(self).dests(), destination@),
                (destination@, 0u32),
            ),
    {
        match self.dest_index(destination) {
            Some(i) => {
                self.reset_at(i, destination);
            },
            None => {
                self.discovery_destinations.push((destination.to_owned(), 0));
                proof {
                    let o = old(self).dests();
                    assert(self.dests() =~= o.push((destination@, 0u32)));
                    lemma_push_unique(o, |d: (Seq<char>, u32)| d.0, (destination@, 0u32));
                }
            },
        }
    }

    /// Sets the sequence number of the destination at position `i` to zero.
    fn reset_at(&mut self, i: usize, destination: &str)
        requires
            old(self).wf(),
            i < old(self).dests().len(),
            old(self).dests()[i as int].0 == destination@,
        ensures
            final(self).wf(),
            same_but_destinations(*old(self), *final(self)),
            final(self).dests() == old(self).dests().update(i as int, (destination@, 0u32)),
    {
        let name = self.discovery_destinations[i].0.clone();
        self.discovery_destinations.set(i, (name, 0));
        proof {
            let o = old(self).dests();
            assert(self.dests() =~= o.update(i as int, (destination@, 0u32)));
            lemma_update_unique(o, |d: (Seq<char>, u32)| d.0, i as int, (destination@, 0u32));
        }
    }

    /// Sets the sequence number of destination `destination` to zero; nothing
    /// where it is not listed.
    pub fn reset_sequence(&mut self, destination: &str)
        requires
            old(self).wf(),
        ensures
            final(self).wf(),
            same_but_destinations(*old(self), *final(self)),
            !has_dest(old(self).dests(), destination@) ==> final(self).dests() == old(self).dests(),
            has_dest(old(self).dests(), destination@) ==> final(self).dests() == old(self).dests().update(
                dest_position(old(self).dests(), destination@),
                (destination@, 0u32),
            ),
    {
        match self.dest_index(destination) {
            Some(i) => self.reset_at(i, destination),
            None => {},
        }
    }

    /// The sequence number of destination `destination`; zero where it is not
    /// listed.
    pub fn get_sequence(&self, destination: &str) -> (r: u32)
        requires
            self.wf(),
        ensures
            r == if has_dest(self.dests(), destination@) {
                self.dests()[dest_position(self.dests(), destination@)].1
            } else {
                0
            },
    {
        match self.dest_index(destination) {
            Some(i) => self.discovery_destinations[i].1,
            None => 0,
        }
    }

    /// A copy of the discovery destinations.
    pub fn destinations(&self) -> (r: Vec<(String, u32)>)
        ensures
            dest_views(r@) == self.dests(),
    {
        copy_dests(&self.discovery_destinations)
    }
}

} // verus!
