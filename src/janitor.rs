//! The periodic sweep: expired peers go, and every bundle that waits is
//! forwarded again, oldest first.

use vstd::prelude::*;

use crate::dtncore::{forward_chain, process_bundles, process_peers, waiting_oldest_first, DtnNode};
use crate::peer::kept_peers;
use crate::processing::ForwardAction;

verus! {

/// One sweep at DTN time `now`: drops the dynamic peers not seen within the
/// peer timeout, then forwards every waiting bundle again, oldest first (see
/// `process_bundles`). Returns the bundles' identifiers in that order and the
/// step results; the caller carries out the transfers.
pub fn janitor(node: &mut DtnNode, now: u64) -> (r: (Vec<String>, Vec<ForwardAction>))
    requires
        old(node).wf(),
    ensures
        final(node).wf(),
        exists|swept: DtnNode, states: Seq<DtnNode>|
            {
                &&& swept.peers@ == kept_peers(old(node).peers@, now, old(node).config.peer_timeout)
                &&& swept.wf()
                &&& swept.config == old(node).config
                &&& swept.core == old(node).core
                &&& swept.store == old(node).store
                &&& swept.stats == old(node).stats
                &&& waiting_oldest_first(swept, r.0@.map_values(|s: String| s@))
                &&& states[0] == swept
                &&& states.last() == *final(node)
                &&& forward_chain(states, r.0@.map_values(|s: String| s@), now, r.1@)
            },
{
    process_peers(node, now);
    let ghost swept = *node;
    let r = process_bundles(node, now);
    proof {
        let states = choose|states: Seq<DtnNode>|
            {
                &&& states[0] == swept
                &&& states.last() == *node
                &&& forward_chain(states, r.0@.map_values(|s: String| s@), now, r.1@)
            };
        assert(states[0] == swept && states.last() == *node);
    }
    r
}

} // verus!
