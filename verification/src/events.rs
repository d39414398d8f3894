//! Routing of server events to accounts: each account gets its own event
//! channel, created when its first client subscribes; an event is published
//! on its owner's channel only, and dropped when the owner has none. The
//! channels themselves are held by the caller, by the slot numbers given
//! here.

use std::collections::HashMap;
use vstd::prelude::*;

use crate::ids::UserId;

verus! {

broadcast use vstd::std_specs::hash::group_hash_axioms;

/// The channel slot of each account that has one; slots are numbered
/// `0, 1, …` in order of creation.
pub struct EventRoutes {
    slots: HashMap<u128, usize>,
    count: usize,
}

/// Slots are below the number of channels, and no two accounts share one.
pub open spec fn routes_wf(slots: Map<u128, usize>, count: nat) -> bool {
    &&& forall|u: u128| #[trigger] slots.dom().contains(u) ==> slots[u] < count
    &&& forall|u: u128, v: u128|
        #[trigger] slots.dom().contains(u) && #[trigger] slots.dom().contains(v) && u != v
            ==> slots[u] != slots[v]
}

impl EventRoutes {
    /// Channel slot of each account that has one.
    pub closed spec fn slots(&self) -> Map<u128, usize> {
        self.slots@
    }

    /// Number of channels created.
    pub closed spec fn channel_count(&self) -> nat {
        self.count as nat
    }

    #[verifier::type_invariant]
    spec fn well_formed(&self) -> bool {
        routes_wf(self.slots@, self.count as nat)
    }

    /// Routes with no channel.
    pub fn new() -> (r: Self)
        ensures
            routes_wf(r.slots(), r.channel_count()),
            r.slots() == Map::<u128, usize>::empty(),
            r.channel_count() == 0,
    {
        EventRoutes { slots: HashMap::new(), count: 0 }
    }

    /// Number of channels created.
    pub fn channels(&self) -> (r: usize)
        ensures
            r == self.channel_count(),
    {
        self.count
    }

    /// Slot of the channel on which an event owned by `user` is published:
    /// that account's channel, or none (the event is dropped) when no
    /// client of the account ever subscribed.
    pub fn publish_slot(&self, user: UserId) -> (r: Option<usize>)
        ensures
            routes_wf(self.slots(), self.channel_count()),
            r == (if self.slots().dom().contains(user.0) {
                Some(self.slots()[user.0])
            } else {
                None
            }),
    {
        proof {
            use_type_invariant(self);
        }
        match self.slots.get(&user.0) {
            Some(s) => Some(*s),
            None => None,
        }
    }

    /// Slot of the channel that a client of `user` listens to, created on
    /// first use; the flag says whether the caller must open a new channel
    /// for that slot.
    pub fn subscribe_slot(&mut self, user: UserId) -> (r: (usize, bool))
        requires
            old(self).channel_count() < usize::MAX,
        ensures
            routes_wf(final(self).slots(), final(self).channel_count()),
            old(self).slots().dom().contains(user.0) ==> r == (old(self).slots()[user.0], false)
                && final(self).slots() == old(self).slots() && final(self).channel_count()
                == old(self).channel_count(),
            !old(self).slots().dom().contains(user.0) ==> r == (old(self).channel_count() as usize, true)
                && final(self).slots() == old(self).slots().insert(
                user.0,
                old(self).channel_count() as usize,
            ) && final(self).channel_count() == old(self).channel_count() + 1,
    {
        proof {
            use_type_invariant(&*self);
        }
        match self.slots.get(&user.0) {
            Some(s) => (*s, false),
            None => {
                let s = self.count;
                let mut m: HashMap<u128, usize> = HashMap::new();
                std::mem::swap(&mut m, &mut self.slots);
                m.insert(user.0, s);
                self.count = s + 1;
                self.slots = m;
                (s, true)
            },
        }
    }
}

/// Events of one account never reach another: two distinct accounts that
/// have channels have distinct ones, and an account's events go to its own.
pub proof fn law_accounts_are_isolated(slots: Map<u128, usize>, count: nat, a: u128, b: u128)
    requires
        routes_wf(slots, count),
        slots.dom().contains(a),
        slots.dom().contains(b),
        a != b,
    ensures
        slots[a] != slots[b],
{
}

} // verus!
