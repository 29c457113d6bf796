//! The clock engine that paces block production.

use vstd::prelude::*;

verus! {

/// The state of the clock engine: whether it ticks, which snapshot it
/// builds on and which slot its previous leader held.
#[derive(Clone, Copy, Debug, PartialEq, Eq, Structural)]
pub struct ClockEngine {
    /// Whether the engine is ticking.
    pub ticking: bool,
    /// The slot of the snapshot that the engine takes for the current tip.
    pub tip_slot: u64,
    /// The slot that the previous leader held, if one is designated.
    pub previous_leader_slot: Option<u64>,
}

impl ClockEngine {
    /// A ticking engine anchored at `tip_slot`, with no previous leader.
    pub fn new(tip_slot: u64) -> (engine: ClockEngine)
        ensures
            engine == (ClockEngine { ticking: true, tip_slot, previous_leader_slot: None }),
    {
        ClockEngine { ticking: true, tip_slot, previous_leader_slot: None }
    }

    /// Stops the ticking.
    pub fn pause(&mut self)
        ensures
            *final(self) == (ClockEngine { ticking: false, ..*old(self) }),
    {
        self.ticking = false;
    }

    /// Starts the ticking again.
    pub fn resume(&mut self)
        ensures
            *final(self) == (ClockEngine { ticking: true, ..*old(self) }),
    {
        self.ticking = true;
    }

    /// Anchors the engine at the snapshot at `tip_slot`.
    pub fn reset(&mut self, tip_slot: u64, previous_leader_slot: Option<u64>)
        ensures
            *final(self) == (ClockEngine { tip_slot, previous_leader_slot, ..*old(self) }),
    {
        self.tip_slot = tip_slot;
        self.previous_leader_slot = previous_leader_slot;
    }
}

} // verus!
