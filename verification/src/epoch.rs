//! The epoch schedule and the clock record derived from it.
//!
//! How slots map to epochs is the ledger's own arithmetic (warm-up epochs
//! that double in length, then epochs of a fixed length). It is not restated
//! here: the three lookups are made by the ledger's code and their results
//! go by name in the contracts.

use solana_sdk::epoch_schedule::EpochSchedule as LedgerSchedule;
use vstd::prelude::*;

verus! {

/// How slots are grouped into epochs.
#[derive(Clone, Copy, Debug, PartialEq, Eq, Structural)]
pub struct EpochSchedule {
    /// The number of slots in each epoch after warm-up.
    pub slots_per_epoch: u64,
    /// How many slots before an epoch its leader schedule is computed.
    pub leader_schedule_slot_offset: u64,
    /// Whether epochs start short and grow.
    pub warmup: bool,
    /// The first epoch of full length.
    pub first_normal_epoch: u64,
    /// The first slot of the first epoch of full length.
    pub first_normal_slot: u64,
}

/// The on-chain clock.
#[derive(Clone, Copy, Debug, PartialEq, Eq, Structural)]
pub struct ClockRecord {
    /// The current slot.
    pub slot: u64,
    /// The timestamp of the first slot of the current epoch.
    pub epoch_start_timestamp: i64,
    /// The current epoch.
    pub epoch: u64,
    /// The epoch for which the leader schedule is already fixed.
    pub leader_schedule_epoch: u64,
    /// The current timestamp, in seconds since the Unix epoch.
    pub unix_timestamp: i64,
}

/// The epoch that `slot` falls in under `schedule`.
pub uninterp spec fn epoch_of(schedule: EpochSchedule, slot: u64) -> u64;

/// The epoch whose leader schedule is fixed at `slot` under `schedule`.
pub uninterp spec fn leader_schedule_epoch_of(schedule: EpochSchedule, slot: u64) -> u64;

/// The first slot of `epoch` under `schedule`.
pub uninterp spec fn first_slot_of(schedule: EpochSchedule, epoch: u64) -> u64;

/// The largest slot that the warm-up arithmetic can take.
pub const MAX_WARMUP_SLOT: u64 = 0x7fff_ffff_ffff_ffdf;

impl EpochSchedule {
    /// Whether the schedule can be asked about every slot: the warm-up
    /// period ends early enough for its arithmetic to stay within 64 bits.
    pub open spec fn wf(&self) -> bool {
        self.first_normal_slot <= MAX_WARMUP_SLOT + 1
    }

    /// Whether the schedule can be asked about `slot`.
    pub open spec fn covers(&self, slot: u64) -> bool {
        slot >= self.first_normal_slot || slot <= MAX_WARMUP_SLOT
    }

    /// A schedule of equal epochs from slot 0 on, with the leader schedule
    /// fixed one epoch ahead.
    pub fn without_warmup(slots_per_epoch: u64) -> (schedule: EpochSchedule)
        ensures
            schedule.wf(),
            schedule == (EpochSchedule {
                slots_per_epoch,
                leader_schedule_slot_offset: slots_per_epoch,
                warmup: false,
                first_normal_epoch: 0,
                first_normal_slot: 0,
            }),
    {
        EpochSchedule {
            slots_per_epoch,
            leader_schedule_slot_offset: slots_per_epoch,
            warmup: false,
            first_normal_epoch: 0,
            first_normal_slot: 0,
        }
    }

    /// The epoch of `slot`.
    pub fn get_epoch(&self, slot: u64) -> (epoch: u64)
        requires
            self.covers(slot),
        ensures
            epoch == epoch_of(*self, slot),
    {
        ledger_epoch(self, slot)
    }

    /// The epoch whose leader schedule is fixed at `slot`.
    pub fn get_leader_schedule_epoch(&self, slot: u64) -> (epoch: u64)
        requires
            self.covers(slot),
        ensures
            epoch == leader_schedule_epoch_of(*self, slot),
    {
        ledger_leader_schedule_epoch(self, slot)
    }

    /// The first slot of `epoch`.
    pub fn get_first_slot_in_epoch(&self, epoch: u64) -> (slot: u64)
        ensures
            slot == first_slot_of(*self, epoch),
    {
        ledger_first_slot(self, epoch)
    }
}

/// `EpochSchedule::get_epoch` of the ledger's schedule with these five
/// fields. The result goes by the name `epoch_of`. A slot in the warm-up
/// period beyond `MAX_WARMUP_SLOT` is left out: rounding it up to a power of
/// two does not fit in 64 bits.
#[verifier::external_body]
fn ledger_epoch(schedule: &EpochSchedule, slot: u64) -> (epoch: u64)
    requires
        schedule.covers(slot),
    ensures
        epoch == epoch_of(*schedule, slot),
{
    LedgerSchedule {
        slots_per_epoch: schedule.slots_per_epoch,
        leader_schedule_slot_offset: schedule.leader_schedule_slot_offset,
        warmup: schedule.warmup,
        first_normal_epoch: schedule.first_normal_epoch,
        first_normal_slot: schedule.first_normal_slot,
    }.get_epoch(slot)
}

/// `EpochSchedule::get_leader_schedule_epoch` of the ledger's schedule with
/// these five fields. The result goes by the name
/// `leader_schedule_epoch_of`; the same slots are left out as for the epoch.
#[verifier::external_body]
fn ledger_leader_schedule_epoch(schedule: &EpochSchedule, slot: u64) -> (epoch: u64)
    requires
        schedule.covers(slot),
    ensures
        epoch == leader_schedule_epoch_of(*schedule, slot),
{
    LedgerSchedule {
        slots_per_epoch: schedule.slots_per_epoch,
        leader_schedule_slot_offset: schedule.leader_schedule_slot_offset,
        warmup: schedule.warmup,
        first_normal_epoch: schedule.first_normal_epoch,
        first_normal_slot: schedule.first_normal_slot,
    }.get_leader_schedule_epoch(slot)
}

/// `EpochSchedule::get_first_slot_in_epoch` of the ledger's schedule with
/// these five fields. The result goes by the name `first_slot_of`; the
/// arithmetic saturates, so every epoch can be asked about.
#[verifier::external_body]
fn ledger_first_slot(schedule: &EpochSchedule, epoch: u64) -> (slot: u64)
    ensures
        slot == first_slot_of(*schedule, epoch),
{
    LedgerSchedule {
        slots_per_epoch: schedule.slots_per_epoch,
        leader_schedule_slot_offset: schedule.leader_schedule_slot_offset,
        warmup: schedule.warmup,
        first_normal_epoch: schedule.first_normal_epoch,
        first_normal_slot: schedule.first_normal_slot,
    }.get_first_slot_in_epoch(epoch)
}

/// The clock record for `slot` and `unix_timestamp`, given the epoch, the
/// leader-schedule epoch and the first slot of the epoch: the epoch start is
/// stamped anew exactly when `slot` opens its epoch, and carried otherwise.
pub open spec fn assembled_clock(
    slot: u64,
    unix_timestamp: i64,
    epoch: u64,
    leader_schedule_epoch: u64,
    epoch_start_slot: u64,
    carried_epoch_start: i64,
) -> ClockRecord {
    ClockRecord {
        slot,
        epoch_start_timestamp: if epoch_start_slot == slot {
            unix_timestamp
        } else {
            carried_epoch_start
        },
        epoch,
        leader_schedule_epoch,
        unix_timestamp,
    }
}

/// The clock record that overrides `previous` at `slot` and
/// `unix_timestamp` under `schedule`: the epoch is the one asked for, or
/// that of the slot; the leader-schedule epoch is always that of the slot.
pub open spec fn overridden_clock(
    schedule: EpochSchedule,
    previous: ClockRecord,
    slot: u64,
    unix_timestamp: i64,
    epoch: Option<u64>,
) -> ClockRecord {
    let chosen = match epoch {
        Some(e) => e,
        None => epoch_of(schedule, slot),
    };
    assembled_clock(
        slot,
        unix_timestamp,
        chosen,
        leader_schedule_epoch_of(schedule, slot),
        first_slot_of(schedule, chosen),
        previous.epoch_start_timestamp,
    )
}

/// Puts a clock record together from lookups already made.
pub fn assemble_clock(
    slot: u64,
    unix_timestamp: i64,
    epoch: u64,
    leader_schedule_epoch: u64,
    epoch_start_slot: u64,
    carried_epoch_start: i64,
) -> (clock: ClockRecord)
    ensures
        clock == assembled_clock(
            slot,
            unix_timestamp,
            epoch,
            leader_schedule_epoch,
            epoch_start_slot,
            carried_epoch_start,
        ),
{
    let epoch_start_timestamp = if epoch_start_slot == slot {
        unix_timestamp
    } else {
        carried_epoch_start
    };
    ClockRecord { slot, epoch_start_timestamp, epoch, leader_schedule_epoch, unix_timestamp }
}

/// Computes the clock record that overrides `previous`.
pub fn override_clock(
    schedule: &EpochSchedule,
    previous: &ClockRecord,
    slot: u64,
    unix_timestamp: i64,
    epoch: Option<u64>,
) -> (clock: ClockRecord)
    requires
        schedule.covers(slot),
    ensures
        clock == overridden_clock(*schedule, *previous, slot, unix_timestamp, epoch),
{
    let chosen = match epoch {
        Some(e) => e,
        None => schedule.get_epoch(slot),
    };
    let leader_schedule_epoch = schedule.get_leader_schedule_epoch(slot);
    let epoch_start_slot = schedule.get_first_slot_in_epoch(chosen);
    assemble_clock(
        slot,
        unix_timestamp,
        chosen,
        leader_schedule_epoch,
        epoch_start_slot,
        previous.epoch_start_timestamp,
    )
}

} // verus!
