//! The store's unit of record: a bundle with its processing state, and the
//! state machine that this state follows.

use vstd::prelude::*;

use crate::bundle::{copy_strings, Bundle, BundleView};

verus! {

/// Where a bundle stands in its processing.
#[derive(Clone, Copy, Debug, PartialEq, Eq, Structural)]
pub enum BundleStatus {
    /// Just stored.
    Received,
    /// A routing decision was asked for.
    Dispatching,
    /// Handed to a local endpoint; kept for pickup.
    Delivered,
    /// Waiting to be sent to one or more peers.
    Forwarding,
    /// Accepted by at least one peer.
    Forwarded,
    /// Dropped: lifetime exceeded or duplicate.
    Deleted,
}

/// The moves of the state machine: `Received` to `Dispatching`, on to
/// `Delivered` or `Forwarding`, `Forwarding` to itself (a retry) or to
/// `Forwarded`, and any state to `Deleted`.
pub open spec fn may_transition(from: BundleStatus, to: BundleStatus) -> bool {
    match (from, to) {
        (_, BundleStatus::Deleted) => true,
        (BundleStatus::Received, BundleStatus::Dispatching) => true,
        (BundleStatus::Dispatching, BundleStatus::Delivered) => true,
        (BundleStatus::Dispatching, BundleStatus::Forwarding) => true,
        (BundleStatus::Forwarding, BundleStatus::Forwarding) => true,
        (BundleStatus::Forwarding, BundleStatus::Forwarded) => true,
        _ => false,
    }
}

/// A move that the state machine does not allow.
#[derive(Clone, Copy, Debug, PartialEq, Eq, Structural)]
pub struct IllegalTransition {
    pub from: BundleStatus,
    pub to: BundleStatus,
}

/// Whether the state machine allows the move from `from` to `to`.
pub fn transition_allowed(from: BundleStatus, to: BundleStatus) -> (r: bool)
    ensures
        r == may_transition(from, to),
{
    match (from, to) {
        (_, BundleStatus::Deleted) => true,
        (BundleStatus::Received, BundleStatus::Dispatching) => true,
        (BundleStatus::Dispatching, BundleStatus::Delivered) => true,
        (BundleStatus::Dispatching, BundleStatus::Forwarding) => true,
        (BundleStatus::Forwarding, BundleStatus::Forwarding) => true,
        (BundleStatus::Forwarding, BundleStatus::Forwarded) => true,
        _ => false,
    }
}

/// A bundle with its processing state: status, time of receipt, number of
/// forwarding attempts and the addresses of the peers of the last attempt.
pub struct BundlePack {
    pub bundle: Bundle,
    pub status: BundleStatus,
    pub received_at: u64,
    pub attempts: u64,
    pub last_peers: Vec<String>,
}

/// What a bundle pack is, as plain values.
pub struct PackView {
    pub bundle: BundleView,
    pub status: BundleStatus,
    pub received_at: u64,
    pub attempts: u64,
    pub last_peers: Seq<Seq<char>>,
}

impl View for BundlePack {
    type V = PackView;

    open spec fn view(&self) -> PackView {
        PackView {
            bundle: self.bundle@,
            status: self.status,
            received_at: self.received_at,
            attempts: self.attempts,
            last_peers: self.last_peers@.map_values(|s: String| s@),
        }
    }
}

impl BundlePack {
    /// A pack for a bundle just received at time `now`.
    pub fn new(bundle: Bundle, now: u64) -> (r: BundlePack)
        ensures
            r@ == (PackView {
                bundle: bundle@,
                status: BundleStatus::Received,
                received_at: now,
                attempts: 0,
                last_peers: Seq::empty(),
            }),
    {
        let r = BundlePack {
            bundle,
            status: BundleStatus::Received,
            received_at: now,
            attempts: 0,
            last_peers: Vec::new(),
        };
        assert(r@.last_peers =~= Seq::<Seq<char>>::empty());
        r
    }

    /// The identifier of the bundle held.
    pub fn id(&self) -> (r: &String)
        ensures
            r@ == self.bundle.id@,
    {
        &self.bundle.id
    }

    /// Moves the pack to status `to` where the state machine allows it; else
    /// leaves it as it was.
    pub fn transition(&mut self, to: BundleStatus) -> (r: Result<(), IllegalTransition>)
        ensures
            r is Ok <==> may_transition(old(self).status, to),
            r is Ok ==> final(self)@ == (PackView { status: to, ..old(self)@ }),
            r matches Err(e) ==> final(self)@ == old(self)@ && e == (IllegalTransition {
                from: old(self).status,
                to,
            }),
    {
        if transition_allowed(self.status, to) {
            self.status = to;
            Ok(())
        } else {
            Err(IllegalTransition { from: self.status, to })
        }
    }

    /// A copy of this pack.
    pub fn copy(&self) -> (r: BundlePack)
        ensures
            r@ == self@,
    {
        BundlePack {
            bundle: self.bundle.copy(),
            status: self.status,
            received_at: self.received_at,
            attempts: self.attempts,
            last_peers: copy_strings(&self.last_peers),
        }
    }
}

} // verus!
