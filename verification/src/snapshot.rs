//! One snapshot of ledger state: the accounts, the clock and the settings
//! that hold at one slot.

use crate::account::{AccountRecord, AccountStore, AccountView};
use crate::epoch::{ClockRecord, EpochSchedule};
use crate::keys::{Digest, Pubkey};
use crate::rent::{rate_in_range, MAX_RENT_RATE};
use vstd::prelude::*;

verus! {

/// An epoch accounts hash that has been declared valid as of a slot.
#[derive(Clone, Copy, Debug, PartialEq, Eq)]
pub struct ValidatedHash {
    /// The hash.
    pub hash: Digest,
    /// The slot as of which it is valid.
    pub slot: u64,
}

/// The state of the ledger at one slot.
pub struct Snapshot {
    slot: u64,
    parent_slot: Option<u64>,
    frozen: bool,
    accounts: AccountStore,
    clock: ClockRecord,
    epoch_schedule: EpochSchedule,
    rent_rate: u64,
    epoch_hash: Option<ValidatedHash>,
}

/// The mathematical value of a snapshot.
pub struct SnapshotView {
    /// The slot that the snapshot is labelled with.
    pub slot: u64,
    /// The slot of the snapshot it was forked from, if any.
    pub parent_slot: Option<u64>,
    /// Whether the snapshot is closed to normal writes.
    pub frozen: bool,
    /// The accounts, by address.
    pub accounts: Map<Pubkey, AccountView>,
    /// The clock record.
    pub clock: ClockRecord,
    /// The epoch schedule.
    pub epoch_schedule: EpochSchedule,
    /// The rent rate, in lamports per byte and year.
    pub rent_rate: u64,
    /// The epoch accounts hash, once one has been declared valid.
    pub epoch_hash: Option<ValidatedHash>,
}

impl SnapshotView {
    /// The child that a fork at `slot` gives: the same state under a new
    /// label, open for writes, with this snapshot as its parent.
    pub open spec fn forked(self, slot: u64) -> SnapshotView {
        SnapshotView { slot, parent_slot: Some(self.slot), frozen: false, ..self }
    }

    /// This snapshot, frozen.
    pub open spec fn frozen_now(self) -> SnapshotView {
        SnapshotView { frozen: true, ..self }
    }

    /// This snapshot with `record` written at `address`.
    pub open spec fn with_account(self, address: Pubkey, record: AccountView) -> SnapshotView {
        SnapshotView { accounts: self.accounts.insert(address, record), ..self }
    }

    /// This snapshot with its clock replaced.
    pub open spec fn with_clock(self, clock: ClockRecord) -> SnapshotView {
        SnapshotView { clock, ..self }
    }

    /// This snapshot with `hash` declared valid as of `slot`.
    pub open spec fn with_valid_hash(self, hash: Digest, slot: u64) -> SnapshotView {
        SnapshotView { epoch_hash: Some(ValidatedHash { hash, slot }), ..self }
    }
}

impl View for Snapshot {
    type V = SnapshotView;

    closed spec fn view(&self) -> SnapshotView {
        SnapshotView {
            slot: self.slot,
            parent_slot: self.parent_slot,
            frozen: self.frozen,
            accounts: self.accounts@,
            clock: self.clock,
            epoch_schedule: self.epoch_schedule,
            rent_rate: self.rent_rate,
            epoch_hash: self.epoch_hash,
        }
    }
}

impl Snapshot {
    /// Whether the snapshot is valid: its store holds no address twice, its
    /// schedule can be asked about every slot and its rent rate is in
    /// range.
    pub closed spec fn wf(&self) -> bool {
        &&& self.accounts.wf()
        &&& self.epoch_schedule.wf()
        &&& rate_in_range(self.rent_rate)
    }

    /// Validity shows in the value.
    pub proof fn lemma_wf(&self)
        requires
            self.wf(),
        ensures
            self@.epoch_schedule.wf(),
            rate_in_range(self@.rent_rate),
    {
    }

    /// An empty snapshot at `slot` with no parent, a zeroed clock at that
    /// slot and the given settings; `None` where the schedule cannot be
    /// asked about every slot or the rent rate is out of range.
    pub fn new(slot: u64, epoch_schedule: EpochSchedule, rent_rate: u64) -> (made: Option<Snapshot>)
        ensures
            made is Some <==> epoch_schedule.wf() && rate_in_range(rent_rate),
            made matches Some(snapshot) ==> snapshot.wf() && snapshot@ == (SnapshotView {
                slot,
                parent_slot: None,
                frozen: false,
                accounts: Map::empty(),
                clock: ClockRecord {
                    slot,
                    epoch_start_timestamp: 0,
                    epoch: 0,
                    leader_schedule_epoch: 0,
                    unix_timestamp: 0,
                },
                epoch_schedule,
                rent_rate,
                epoch_hash: None,
            }),
    {
        if epoch_schedule.first_normal_slot > crate::epoch::MAX_WARMUP_SLOT + 1 || rent_rate
            > MAX_RENT_RATE {
            return None;
        }
        Some(
            Snapshot {
                slot,
                parent_slot: None,
                frozen: false,
                accounts: AccountStore::new(),
                clock: ClockRecord {
                    slot,
                    epoch_start_timestamp: 0,
                    epoch: 0,
                    leader_schedule_epoch: 0,
                    unix_timestamp: 0,
                },
                epoch_schedule,
                rent_rate,
                epoch_hash: None,
            },
        )
    }

    /// The slot that the snapshot is labelled with.
    pub fn slot(&self) -> (slot: u64)
        ensures
            slot == self@.slot,
    {
        self.slot
    }

    /// The slot of the parent, if there is one.
    pub fn parent_slot(&self) -> (parent: Option<u64>)
        ensures
            parent == self@.parent_slot,
    {
        self.parent_slot
    }

    /// Whether the snapshot is frozen.
    pub fn is_frozen(&self) -> (frozen: bool)
        ensures
            frozen == self@.frozen,
    {
        self.frozen
    }

    /// The clock record.
    pub fn clock(&self) -> (clock: ClockRecord)
        ensures
            clock == self@.clock,
    {
        self.clock
    }

    /// The epoch schedule.
    pub fn epoch_schedule(&self) -> (schedule: EpochSchedule)
        ensures
            schedule == self@.epoch_schedule,
    {
        self.epoch_schedule
    }

    /// The rent rate, in lamports per byte and year.
    pub fn rent_rate(&self) -> (rate: u64)
        ensures
            rate == self@.rent_rate,
    {
        self.rent_rate
    }

    /// The epoch accounts hash, once one has been declared valid.
    pub fn epoch_hash(&self) -> (hash: Option<ValidatedHash>)
        ensures
            hash == self@.epoch_hash,
    {
        self.epoch_hash
    }

    /// The account at `address`, if there is one.
    pub fn get_account(&self, address: &Pubkey) -> (found: Option<&AccountRecord>)
        requires
            self.wf(),
        ensures
            match found {
                Some(record) => self@.accounts.contains_key(*address) && record@
                    == self@.accounts[*address],
                None => !self@.accounts.contains_key(*address),
            },
    {
        self.accounts.get(address)
    }

    /// Writes `record` at `address`, replacing what was there, whether or
    /// not the snapshot is frozen.
    pub fn store_account(&mut self, address: &Pubkey, record: AccountRecord)
        requires
            old(self).wf(),
        ensures
            final(self).wf(),
            final(self)@ == old(self)@.with_account(*address, record@),
    {
        self.accounts.put(address, record);
    }

    /// Replaces the clock record.
    pub fn set_clock(&mut self, clock: ClockRecord)
        requires
            old(self).wf(),
        ensures
            final(self).wf(),
            final(self)@ == old(self)@.with_clock(clock),
    {
        self.clock = clock;
    }

    /// Freezes the snapshot.
    pub fn freeze(&mut self)
        requires
            old(self).wf(),
        ensures
            final(self).wf(),
            final(self)@ == old(self)@.frozen_now(),
    {
        self.frozen = true;
    }

    /// Declares `hash` the valid epoch accounts hash as of `slot`.
    pub fn set_epoch_hash_valid(&mut self, hash: Digest, slot: u64)
        requires
            old(self).wf(),
        ensures
            final(self).wf(),
            final(self)@ == old(self)@.with_valid_hash(hash, slot),
    {
        self.epoch_hash = Some(ValidatedHash { hash, slot });
    }

    /// A child at `slot` that starts from this snapshot's state.
    pub fn fork(&self, slot: u64) -> (child: Snapshot)
        requires
            self.wf(),
        ensures
            child.wf(),
            child@ == self@.forked(slot),
    {
        Snapshot {
            slot,
            parent_slot: Some(self.slot),
            frozen: false,
            accounts: self.accounts.duplicate(),
            clock: self.clock,
            epoch_schedule: self.epoch_schedule,
            rent_rate: self.rent_rate,
            epoch_hash: self.epoch_hash,
        }
    }
}

} // verus!
