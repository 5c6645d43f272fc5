use std::collections::HashSet;
use vstd::prelude::*;

verus! {

/// The entities whose animation player has already been claimed.
///
/// An entity is named by the 64 bits of its engine identifier. It is either
/// unseen or claimed, and a claimed entity stays claimed.
pub struct Claims {
    claimed: HashSet<u64>,
}

impl View for Claims {
    type V = Set<u64>;

    closed spec fn view(&self) -> Set<u64> {
        self.claimed@
    }
}

impl Claims {
    /// A ledger in which every entity is unseen.
    pub fn new() -> (claims: Claims)
        ensures
            claims@ == Set::<u64>::empty(),
    {
        Claims { claimed: HashSet::new() }
    }

    /// Whether `entity` has been claimed.
    pub fn is_claimed(&self, entity: u64) -> (claimed: bool)
        ensures
            claimed == self@.contains(entity),
    {
        self.claimed.contains(&entity)
    }

    /// Claims `entity`, and says whether it was unseen until now.
    pub fn claim(&mut self, entity: u64) -> (fresh: bool)
        ensures
            final(self)@ == old(self)@.insert(entity),
            fresh == !old(self)@.contains(entity),
    {
        self.claimed.insert(entity)
    }
}

} // verus!
