//! Endpoint identifiers, parsed by bp7 and held as plain text.

use vstd::prelude::*;

verus! {

/// An endpoint identifier in its canonical text form (`dtn://node/service`,
/// `ipn:1.2`, `dtn:none`), with the node name and node id that bp7 derives
/// from it. Both are empty for `dtn:none`.
pub struct EndpointId {
    pub text: String,
    pub node: String,
    pub node_id: String,
}

/// What an endpoint identifier is, as text.
pub struct EidView {
    pub text: Seq<char>,
    pub node: Seq<char>,
    pub node_id: Seq<char>,
}

impl View for EndpointId {
    type V = EidView;

    open spec fn view(&self) -> EidView {
        EidView { text: self.text@, node: self.node@, node_id: self.node_id@ }
    }
}

/// What bp7 makes of a text: the canonical text, the node name and the node
/// id of the endpoint, or nothing where it rejects the text.
pub uninterp spec fn bp7_eid(s: Seq<char>) -> Option<(Seq<char>, Seq<char>, Seq<char>)>;

/// What bp7 makes of the endpoint `ep` on the node of the endpoint `host`
/// (both as text).
pub uninterp spec fn bp7_new_endpoint(host: Seq<char>, ep: Seq<char>) -> Option<
    (Seq<char>, Seq<char>, Seq<char>),
>;

/// Whether a text is `dtn://` followed by anything but `none`: bp7 reads
/// every such text as a `dtn` endpoint.
pub open spec fn is_dtn_uri(s: Seq<char>) -> bool {
    s.len() >= 6 && s.subrange(0, 6) == "dtn://"@ && s != "dtn://none"@
}

/// The parts of an endpoint as bp7 reports them, as one value.
pub open spec fn parts_of(v: EidView) -> (Seq<char>, Seq<char>, Seq<char>) {
    (v.text, v.node, v.node_id)
}

/// Relies on bp7's `EndpointID::try_from(&str)`, its `Display`, `node` and
/// `node_id`: parses a text and reports the endpoint's parts. `try_from`
/// splits at the first `:`, and for the scheme `dtn` with a part that starts
/// with `//` and is not `//none` it returns `EndpointID::with_dtn`, which
/// accepts every such part.
#[verifier::external_body]
fn bp7_parse(s: &str) -> (r: Option<(String, String, String)>)
    ensures
        match r {
            Some(t) => bp7_eid(s@) == Some((t.0@, t.1@, t.2@)),
            None => bp7_eid(s@) is None,
        },
        is_dtn_uri(s@) ==> r is Some,
{
    match bp7::EndpointID::try_from(s) {
        Ok(e) => Some((e.to_string(), e.node().unwrap_or_default(), e.node_id().unwrap_or_default())),
        Err(_) => None,
    }
}

/// Relies on bp7's `EndpointID::new_endpoint`: the endpoint `ep` on the node
/// of the endpoint written `host`.
#[verifier::external_body]
fn bp7_endpoint_on(host: &str, ep: &str) -> (r: Option<(String, String, String)>)
    ensures
        match r {
            Some(t) => bp7_new_endpoint(host@, ep@) == Some((t.0@, t.1@, t.2@)),
            None => bp7_new_endpoint(host@, ep@) is None,
        },
{
    let h = match bp7::EndpointID::try_from(host) {
        Ok(h) => h,
        Err(_) => return None,
    };
    match h.new_endpoint(ep) {
        Ok(e) => Some((e.to_string(), e.node().unwrap_or_default(), e.node_id().unwrap_or_default())),
        Err(_) => None,
    }
}

impl EndpointId {
    /// Parses an endpoint identifier; `None` where bp7 rejects the text.
    pub fn parse(s: &str) -> (r: Option<EndpointId>)
        ensures
            r is Some <==> bp7_eid(s@) is Some,
            is_dtn_uri(s@) ==> r is Some,
            r matches Some(e) ==> bp7_eid(s@) == Some(parts_of(e@)),
    {
        match bp7_parse(s) {
            Some((text, node, node_id)) => Some(EndpointId { text, node, node_id }),
            None => None,
        }
    }

    /// The endpoint with service `ep` on this endpoint's node; `None` where
    /// bp7 rejects it (as it does for `dtn:none`).
    pub fn new_endpoint(&self, ep: &str) -> (r: Option<EndpointId>)
        ensures
            r is Some <==> bp7_new_endpoint(self.text@, ep@) is Some,
            r matches Some(e) ==> bp7_new_endpoint(self.text@, ep@) == Some(parts_of(e@)),
    {
        match bp7_endpoint_on(self.text.as_str(), ep) {
            Some((text, node, node_id)) => Some(EndpointId { text, node, node_id }),
            None => None,
        }
    }

    /// A copy of this identifier.
    pub fn copy(&self) -> (r: EndpointId)
        ensures
            r == *self,
    {
        EndpointId { text: self.text.clone(), node: self.node.clone(), node_id: self.node_id.clone() }
    }
}

/// The endpoint that an entry of a node's endpoint list stands for: the entry
/// itself where bp7 reads it as an endpoint identifier, else a service of that
/// name on the host's node.
pub fn resolve_endpoint(host: &EndpointId, e: &str) -> (r: Option<EndpointId>)
    ensures
        bp7_eid(e@) is Some ==> r is Some && bp7_eid(e@) == Some(parts_of(r->0@)),
        bp7_eid(e@) is None ==> (r is Some <==> bp7_new_endpoint(host.text@, e@) is Some),
        bp7_eid(e@) is None && r is Some ==> bp7_new_endpoint(host.text@, e@) == Some(
            parts_of(r->0@),
        ),
{
    match EndpointId::parse(e) {
        Some(eid) => Some(eid),
        None => host.new_endpoint(e),
    }
}

} // verus!
