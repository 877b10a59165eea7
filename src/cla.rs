//! Convergence layer agents: the transports that carry bundles to peers, and
//! the descriptor that a routing decision hands to them.

use vstd::prelude::*;

verus! {

/// A routing decision's target: a peer's address, the port where it listens
/// (if it advertised one) and the name of the convergence layer to use.
pub struct ClaSender {
    pub remote: String,
    pub port: Option<u16>,
    pub agent: String,
}

/// What a sender descriptor is, as plain values.
pub struct SenderView {
    pub remote: Seq<char>,
    pub port: Option<u16>,
    pub agent: Seq<char>,
}

impl View for ClaSender {
    type V = SenderView;

    open spec fn view(&self) -> SenderView {
        SenderView { remote: self.remote@, port: self.port, agent: self.agent@ }
    }
}

/// The names of the convergence layers that this node can use.
pub open spec fn cla_names() -> Seq<Seq<char>> {
    seq!["http"@]
}

/// Whether `name` names a convergence layer that this node can use.
pub open spec fn is_known_cla(name: Seq<char>) -> bool {
    cla_names().contains(name)
}

/// The decimal digit for `d` (below ten).
pub open spec fn digit_char(d: int) -> char {
    if d == 0 {
        '0'
    } else if d == 1 {
        '1'
    } else if d == 2 {
        '2'
    } else if d == 3 {
        '3'
    } else if d == 4 {
        '4'
    } else if d == 5 {
        '5'
    } else if d == 6 {
        '6'
    } else if d == 7 {
        '7'
    } else if d == 8 {
        '8'
    } else {
        '9'
    }
}

/// The decimal text of `n`, without leading zeros.
pub open spec fn decimal(n: nat) -> Seq<char>
    decreases n,
{
    if n < 10 {
        seq![digit_char(n as int)]
    } else {
        decimal(n / 10).push(digit_char((n % 10) as int))
    }
}

/// The address that a sender descriptor points to: the peer's address, with
/// `:port` where a port is known.
pub open spec fn destination_of(s: SenderView) -> Seq<char> {
    match s.port {
        Some(p) => s.remote + seq![':'] + decimal(p as nat),
        None => s.remote,
    }
}

/// The text of a decimal digit.
fn digit_text(d: u16) -> (r: &'static str)
    requires
        d < 10,
    ensures
        r@ == seq![digit_char(d as int)],
{
    proof {
        reveal_strlit("0");
        reveal_strlit("1");
        reveal_strlit("2");
        reveal_strlit("3");
        reveal_strlit("4");
        reveal_strlit("5");
        reveal_strlit("6");
        reveal_strlit("7");
        reveal_strlit("8");
        reveal_strlit("9");
    }
    let r = if d == 0 {
        "0"
    } else if d == 1 {
        "1"
    } else if d == 2 {
        "2"
    } else if d == 3 {
        "3"
    } else if d == 4 {
        "4"
    } else if d == 5 {
        "5"
    } else if d == 6 {
        "6"
    } else if d == 7 {
        "7"
    } else if d == 8 {
        "8"
    } else {
        "9"
    };
    assert(r@ =~= seq![digit_char(d as int)]);
    r
}

/// The decimal text of `n`, without leading zeros.
pub fn decimal_text(n: u16) -> (r: String)
    ensures
        r@ == decimal(n as nat),
{
    let mut r = String::from_str(digit_text(n % 10));
    let mut m: u16 = n / 10;
    while m > 0
        invariant
            m > 0 ==> decimal(n as nat) == decimal(m as nat) + r@,
            m == 0 ==> decimal(n as nat) == r@,
        decreases m,
    {
        let ghost old_r = r@;
        let d = String::from_str(digit_text(m % 10));
        r = d.concat(r.as_str());
        proof {
            if m < 10 {
                assert(decimal(m as nat) =~= seq![digit_char(m as int)]);
            } else {
                assert(decimal(m as nat) == decimal((m / 10) as nat).push(digit_char((m % 10) as int)));
                assert(decimal((m / 10) as nat) + r@ =~= decimal(m as nat) + old_r);
            }
        }
        m = m / 10;
    }
    r
}

/// The HTTP convergence layer: bundles are posted to `/push` on the peer.
#[derive(Clone, Copy, Debug)]
pub struct HttpConvergenceLayer {
    pub local_port: u16,
}

impl HttpConvergenceLayer {
    /// An HTTP convergence layer listening on `port`, or on the node's web
    /// port `webport` where no port is given.
    pub fn new(port: Option<u16>, webport: u16) -> (r: HttpConvergenceLayer)
        ensures
            r.local_port == match port {
                Some(p) => p,
                None => webport,
            },
    {
        HttpConvergenceLayer {
            local_port: match port {
                Some(p) => p,
                None => webport,
            },
        }
    }

    /// The port where this layer listens.
    pub fn port(&self) -> (r: u16)
        ensures
            r == self.local_port,
    {
        self.local_port
    }

    /// The layer's name.
    pub fn name(&self) -> (r: String)
        ensures
            r@ == "http"@,
    {
        String::from_str("http")
    }
}

/// The convergence layers that a node can run.
#[derive(Clone, Copy, Debug)]
pub enum CLAEnum {
    HttpConvergenceLayer(HttpConvergenceLayer),
}

impl CLAEnum {
    /// The port where the layer listens.
    pub fn port(&self) -> (r: u16)
        ensures
            r == match self {
                CLAEnum::HttpConvergenceLayer(h) => h.local_port,
            },
    {
        match self {
            CLAEnum::HttpConvergenceLayer(h) => h.port(),
        }
    }

    /// The layer's name.
    pub fn name(&self) -> (r: String)
        ensures
            r@ == "http"@,
    {
        match self {
            CLAEnum::HttpConvergenceLayer(h) => h.name(),
        }
    }
}

/// The names of the convergence layers that this node can use.
pub fn convergence_layer_agents() -> (r: Vec<String>)
    ensures
        r@.map_values(|s: String| s@) == cla_names(),
{
    let r = vec![String::from_str("http")];
    assert(r@.map_values(|s: String| s@) =~= cla_names());
    r
}

/// Whether `name` names a convergence layer that this node can use.
pub fn known_cla(name: &String) -> (r: bool)
    ensures
        r == is_known_cla(name@),
{
    let http = String::from_str("http");
    let r = *name == http;
    proof {
        if is_known_cla(name@) {
            let k = choose|k: int| 0 <= k < cla_names().len() && cla_names()[k] == name@;
            assert(k == 0);
        }
        if r {
            assert(cla_names()[0] == name@);
        }
    }
    r
}

impl ClaSender {
    /// A copy of this descriptor.
    pub fn copy(&self) -> (r: ClaSender)
        ensures
            r@ == self@,
    {
        ClaSender { remote: self.remote.clone(), port: self.port, agent: self.agent.clone() }
    }

    /// The address to hand to the transport: the peer's address, with
    /// `:port` where a port is known.
    pub fn destination(&self) -> (r: String)
        ensures
            r@ == destination_of(self@),
    {
        match self.port {
            Some(p) => {
                proof {
                    reveal_strlit(":");
                }
                let with_colon = self.remote.clone().concat(":");
                with_colon.concat(decimal_text(p).as_str())
            },
            None => self.remote.clone(),
        }
    }

    /// What a transfer needs: the convergence layer that the descriptor names
    /// (set up to send, so on the node's web port `webport`) and the address to
    /// send to. `None` where the name is no layer this node can use.
    pub fn transfer(&self, webport: u16) -> (r: Option<(CLAEnum, String)>)
        ensures
            r is Some <==> is_known_cla(self.agent@),
            r matches Some((c, d)) ==> d@ == destination_of(self@) && c == CLAEnum::HttpConvergenceLayer(
                HttpConvergenceLayer { local_port: webport },
            ),
    {
        if known_cla(&self.agent) {
            let sender = CLAEnum::HttpConvergenceLayer(HttpConvergenceLayer::new(None, webport));
            Some((sender, self.destination()))
        } else {
            None
        }
    }
}

} // verus!
