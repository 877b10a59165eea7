//! Application agents: the local endpoints that bundles are delivered to,
//! each with a queue from which the application picks them up.

use vstd::prelude::*;

use crate::bundle::{Bundle, BundleView};
use crate::eid::{EidView, EndpointId};

verus! {

/// The views of a sequence of bundles.
pub open spec fn bundle_views(v: Seq<Bundle>) -> Seq<BundleView> {
    v.map_values(|b: Bundle| b@)
}

/// An endpoint with a first-in, first-out queue of delivered bundles.
pub struct SimpleApplicationAgent {
    eid: EndpointId,
    bundles: Vec<Bundle>,
}

impl SimpleApplicationAgent {
    /// The agent's endpoint.
    pub closed spec fn eid_view(&self) -> EidView {
        self.eid@
    }

    /// The bundles waiting for pickup, oldest first.
    pub closed spec fn queue(&self) -> Seq<BundleView> {
        bundle_views(self.bundles@)
    }

    /// An agent for endpoint `eid`, with nothing delivered yet.
    pub fn with(eid: EndpointId) -> (r: SimpleApplicationAgent)
        ensures
            r.eid_view() == eid@,
            r.queue() == Seq::<BundleView>::empty(),
    {
        let r = SimpleApplicationAgent { eid, bundles: Vec::new() };
        assert(r.queue() =~= Seq::<BundleView>::empty());
        r
    }

    /// The agent's endpoint.
    pub fn eid(&self) -> (r: &EndpointId)
        ensures
            r@ == self.eid_view(),
    {
        &self.eid
    }

    /// Queues a delivered bundle.
    pub fn push(&mut self, bundle: Bundle)
        ensures
            final(self).eid_view() == old(self).eid_view(),
            final(self).queue() == old(self).queue().push(bundle@),
    {
        let ghost bv = bundle@;
        self.bundles.push(bundle);
        assert(self.queue() =~= old(self).queue().push(bv));
    }

    /// Takes the oldest delivered bundle off the queue.
    pub fn pop(&mut self) -> (r: Option<Bundle>)
        ensures
            final(self).eid_view() == old(self).eid_view(),
            old(self).queue().len() == 0 ==> r is None && final(self).queue() == old(self).queue(),
            old(self).queue().len() > 0 ==> (r matches Some(b) && b@ == old(self).queue()[0]
                && final(self).queue() == old(self).queue().drop_first()),
    {
        if self.bundles.len() == 0 {
            None
        } else {
            let b = self.bundles.remove(0);
            assert(self.queue() =~= old(self).queue().drop_first());
            Some(b)
        }
    }
}

/// The kinds of application agent.
pub enum ApplicationAgentEnum {
    SimpleApplicationAgent(SimpleApplicationAgent),
}

impl ApplicationAgentEnum {
    /// The agent's endpoint.
    pub open spec fn eid_view(&self) -> EidView {
        match self {
            ApplicationAgentEnum::SimpleApplicationAgent(a) => a.eid_view(),
        }
    }

    /// The bundles waiting for pickup, oldest first.
    pub open spec fn queue(&self) -> Seq<BundleView> {
        match self {
            ApplicationAgentEnum::SimpleApplicationAgent(a) => a.queue(),
        }
    }

    /// The agent's endpoint.
    pub fn eid(&self) -> (r: &EndpointId)
        ensures
            r@ == self.eid_view(),
    {
        match self {
            ApplicationAgentEnum::SimpleApplicationAgent(a) => a.eid(),
        }
    }

    /// Queues a delivered bundle.
    pub fn push(&mut self, bundle: Bundle)
        ensures
            final(self).eid_view() == old(self).eid_view(),
            final(self).queue() == old(self).queue().push(bundle@),
    {
        match self {
            ApplicationAgentEnum::SimpleApplicationAgent(a) => a.push(bundle),
        }
    }

    /// Takes the oldest delivered bundle off the queue.
    pub fn pop(&mut self) -> (r: Option<Bundle>)
        ensures
            final(self).eid_view() == old(self).eid_view(),
            old(self).queue().len() == 0 ==> r is None && final(self).queue() == old(self).queue(),
            old(self).queue().len() > 0 ==> (r matches Some(b) && b@ == old(self).queue()[0]
                && final(self).queue() == old(self).queue().drop_first()),
    {
        match self {
            ApplicationAgentEnum::SimpleApplicationAgent(a) => a.pop(),
        }
    }
}

} // verus!
