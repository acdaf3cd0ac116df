//! References to actors, and the wait of a lookup for the answers of peers.
use vstd::prelude::*;
use crate::ids::{ActorId, ActorIdModel};

verus! {

/// The address of an actor: its identifier and the endpoint `C` that
/// messages for it are sent through. Cloning a reference duplicates the
/// endpoint only, never the actor.
#[derive(Clone, Debug)]
pub struct ActorRef<C> {
    actor_id: ActorId,
    sender: C,
}

impl<C> ActorRef<C> {
    /// The identifier of the actor referenced.
    pub closed spec fn id(&self) -> ActorIdModel {
        self.actor_id@
    }

    /// The endpoint messages are sent through.
    pub closed spec fn endpoint(&self) -> C {
        self.sender
    }

    /// The reference to `actor_id` through `sender`.
    pub fn new(actor_id: ActorId, sender: C) -> (r: ActorRef<C>)
        ensures
            r.id() == actor_id@,
            r.endpoint() == sender,
    {
        ActorRef { actor_id, sender }
    }

    /// A copy of the identifier of the actor referenced.
    pub fn clone_id(&self) -> (r: ActorId)
        ensures
            r@ == self.id(),
    {
        self.actor_id.copy()
    }

    /// The endpoint messages are sent through.
    pub fn sender(&self) -> (r: &C)
        ensures
            *r == self.endpoint(),
    {
        &self.sender
    }
}

/// A lookup waiting on the answers of peers: it ends at the first positive
/// answer, or once every peer has answered.
pub struct LookupWait {
    awaiting: usize,
    found: bool,
}

impl LookupWait {
    /// Answers still to come.
    pub closed spec fn remaining(&self) -> nat {
        self.awaiting as nat
    }

    /// Whether a positive answer arrived.
    pub closed spec fn has_found(&self) -> bool {
        self.found
    }

    /// Whether the wait is over.
    pub open spec fn finished(&self) -> bool {
        self.has_found() || self.remaining() == 0
    }

    /// A wait for the answers of `peers` peers.
    pub fn new(peers: usize) -> (r: LookupWait)
        ensures
            r.remaining() == peers,
            !r.has_found(),
    {
        LookupWait { awaiting: peers, found: false }
    }

    /// Whether the wait is over.
    pub fn is_done(&self) -> (r: bool)
        ensures
            r == self.finished(),
    {
        self.found || self.awaiting == 0
    }

    /// Records one answer: positive ends the wait, negative counts one peer off.
    pub fn record(&mut self, positive: bool)
        requires
            !old(self).finished(),
        ensures
            final(self).has_found() == positive,
            final(self).remaining() == old(self).remaining() - 1,
    {
        self.awaiting = self.awaiting - 1;
        self.found = positive;
    }
}

} // verus!
