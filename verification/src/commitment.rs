//! The commitment tracker: how far the ledger counts as confirmed.

use vstd::prelude::*;

verus! {

/// The slots up to which the ledger has reached each level of commitment.
#[derive(Clone, Copy, Debug, PartialEq, Eq, Structural)]
pub struct CommitmentTracker {
    /// The highest slot processed.
    pub slot: u64,
    /// The highest slot rooted.
    pub root: u64,
    /// The highest slot confirmed.
    pub highest_confirmed_slot: u64,
    /// The highest slot rooted by a supermajority.
    pub highest_super_majority_root: u64,
}

impl CommitmentTracker {
    /// Whether every counter stands at `slot`.
    pub open spec fn all_at(&self, slot: u64) -> bool {
        &&& self.slot == slot
        &&& self.root == slot
        &&& self.highest_confirmed_slot == slot
        &&& self.highest_super_majority_root == slot
    }

    /// Whether `slot` has reached every level of commitment.
    pub open spec fn fully_committed(&self, slot: u64) -> bool {
        &&& slot <= self.slot
        &&& slot <= self.root
        &&& slot <= self.highest_confirmed_slot
        &&& slot <= self.highest_super_majority_root
    }

    /// A tracker with every counter at `slot`.
    pub fn new(slot: u64) -> (tracker: CommitmentTracker)
        ensures
            tracker.all_at(slot),
    {
        CommitmentTracker {
            slot,
            root: slot,
            highest_confirmed_slot: slot,
            highest_super_majority_root: slot,
        }
    }

    /// Sets the processed and confirmed counters to `slot` and both root
    /// counters to `root`.
    pub fn set_all_slots(&mut self, slot: u64, root: u64)
        ensures
            *final(self) == (CommitmentTracker {
                slot,
                root,
                highest_confirmed_slot: slot,
                highest_super_majority_root: root,
            }),
    {
        self.slot = slot;
        self.highest_confirmed_slot = slot;
        self.root = root;
        self.highest_super_majority_root = root;
    }

    /// Whether `slot` has reached every level of commitment.
    pub fn is_fully_committed(&self, slot: u64) -> (committed: bool)
        ensures
            committed == self.fully_committed(slot),
    {
        slot <= self.slot && slot <= self.root && slot <= self.highest_confirmed_slot && slot
            <= self.highest_super_majority_root
    }
}

} // verus!
