use ledger_control::epoch::{assemble_clock, override_clock, ClockRecord, EpochSchedule};
use ledger_control::rent::{
    minimum_balance_for_rent_exemption, DEFAULT_RENT_RATE, MAX_ACCOUNT_DATA_LEN, MAX_RENT_RATE,
};

fn warmup_schedule() -> EpochSchedule {
    EpochSchedule {
        slots_per_epoch: 432_000,
        leader_schedule_slot_offset: 432_000,
        warmup: true,
        first_normal_epoch: 14,
        first_normal_slot: 524_256,
    }
}

fn zero_clock() -> ClockRecord {
    ClockRecord {
        slot: 0,
        epoch_start_timestamp: 0,
        epoch: 0,
        leader_schedule_epoch: 0,
        unix_timestamp: 0,
    }
}

#[test]
fn warmup_schedule_matches_the_ledger_default() {
    let ledger = solana_sdk::epoch_schedule::EpochSchedule::default();
    let ours = warmup_schedule();
    assert_eq!(ours.slots_per_epoch, ledger.slots_per_epoch);
    assert_eq!(ours.leader_schedule_slot_offset, ledger.leader_schedule_slot_offset);
    assert_eq!(ours.warmup, ledger.warmup);
    assert_eq!(ours.first_normal_epoch, ledger.first_normal_epoch);
    assert_eq!(ours.first_normal_slot, ledger.first_normal_slot);
}

#[test]
fn epochs_during_warmup() {
    let schedule = warmup_schedule();
    assert_eq!(schedule.get_epoch(0), 0);
    assert_eq!(schedule.get_epoch(31), 0);
    assert_eq!(schedule.get_epoch(32), 1);
    assert_eq!(schedule.get_epoch(95), 1);
    assert_eq!(schedule.get_epoch(96), 2);
    assert_eq!(schedule.get_epoch(105), 2);
    assert_eq!(schedule.get_leader_schedule_epoch(105), 3);
    assert_eq!(schedule.get_first_slot_in_epoch(0), 0);
    assert_eq!(schedule.get_first_slot_in_epoch(1), 32);
    assert_eq!(schedule.get_first_slot_in_epoch(2), 96);
    assert_eq!(schedule.get_first_slot_in_epoch(14), 524_256);
}

#[test]
fn epochs_after_warmup() {
    let schedule = warmup_schedule();
    assert_eq!(schedule.get_epoch(524_256), 14);
    assert_eq!(schedule.get_epoch(524_256 + 432_000), 15);
    assert_eq!(schedule.get_leader_schedule_epoch(524_256), 15);
    assert_eq!(schedule.get_first_slot_in_epoch(15), 524_256 + 432_000);
}

#[test]
fn epochs_without_warmup() {
    let schedule = EpochSchedule::without_warmup(100);
    assert_eq!(
        schedule,
        EpochSchedule {
            slots_per_epoch: 100,
            leader_schedule_slot_offset: 100,
            warmup: false,
            first_normal_epoch: 0,
            first_normal_slot: 0,
        }
    );
    assert_eq!(schedule.get_epoch(0), 0);
    assert_eq!(schedule.get_epoch(99), 0);
    assert_eq!(schedule.get_epoch(100), 1);
    assert_eq!(schedule.get_epoch(250), 2);
    assert_eq!(schedule.get_leader_schedule_epoch(250), 3);
    assert_eq!(schedule.get_first_slot_in_epoch(2), 200);
    assert_eq!(schedule.get_epoch(u64::MAX), u64::MAX / 100);
}

#[test]
fn schedule_lookups_agree_with_the_ledger() {
    let ledger = solana_sdk::epoch_schedule::EpochSchedule::default();
    let ours = warmup_schedule();
    for slot in [0u64, 1, 31, 32, 1000, 524_255, 524_256, 1_000_000, u64::MAX] {
        assert_eq!(ours.get_epoch(slot), ledger.get_epoch(slot));
        assert_eq!(
            ours.get_leader_schedule_epoch(slot),
            ledger.get_leader_schedule_epoch(slot)
        );
    }
    for epoch in [0u64, 1, 13, 14, 15, 1000, u64::MAX] {
        assert_eq!(
            ours.get_first_slot_in_epoch(epoch),
            ledger.get_first_slot_in_epoch(epoch)
        );
    }
}

#[test]
fn clock_stamps_epoch_start_on_first_slot() {
    let clock = assemble_clock(96, 1_700_000_000, 2, 3, 96, 55);
    assert_eq!(
        clock,
        ClockRecord {
            slot: 96,
            epoch_start_timestamp: 1_700_000_000,
            epoch: 2,
            leader_schedule_epoch: 3,
            unix_timestamp: 1_700_000_000,
        }
    );
}

#[test]
fn clock_carries_epoch_start_otherwise() {
    let clock = assemble_clock(105, 1_700_000_000, 2, 3, 96, 55);
    assert_eq!(
        clock,
        ClockRecord {
            slot: 105,
            epoch_start_timestamp: 55,
            epoch: 2,
            leader_schedule_epoch: 3,
            unix_timestamp: 1_700_000_000,
        }
    );
}

#[test]
fn override_derives_epoch_from_slot() {
    let previous = ClockRecord { epoch_start_timestamp: 41, ..zero_clock() };
    let clock = override_clock(&warmup_schedule(), &previous, 105, 900, None);
    assert_eq!(
        clock,
        ClockRecord {
            slot: 105,
            epoch_start_timestamp: 41,
            epoch: 2,
            leader_schedule_epoch: 3,
            unix_timestamp: 900,
        }
    );
    let clock = override_clock(&warmup_schedule(), &previous, 96, 900, None);
    assert_eq!(clock.epoch_start_timestamp, 900);
    assert_eq!(clock.epoch, 2);
}

#[test]
fn override_takes_given_epoch_for_the_epoch_start() {
    let previous = ClockRecord { epoch_start_timestamp: 41, ..zero_clock() };
    let clock = override_clock(&warmup_schedule(), &previous, 96, -7, Some(1));
    assert_eq!(
        clock,
        ClockRecord {
            slot: 96,
            epoch_start_timestamp: 41,
            epoch: 1,
            leader_schedule_epoch: 3,
            unix_timestamp: -7,
        }
    );
    let clock = override_clock(&warmup_schedule(), &previous, 32, -7, Some(1));
    assert_eq!(clock.epoch_start_timestamp, -7);
    assert_eq!(clock.leader_schedule_epoch, 2);
}

#[test]
fn rent_exempt_balance_of_a_token_account() {
    assert_eq!(DEFAULT_RENT_RATE, 3480);
    assert_eq!(minimum_balance_for_rent_exemption(DEFAULT_RENT_RATE, 165), 2_039_280);
    assert_eq!(minimum_balance_for_rent_exemption(DEFAULT_RENT_RATE, 0), 890_880);
    assert_eq!(
        minimum_balance_for_rent_exemption(DEFAULT_RENT_RATE, 165),
        solana_sdk::rent::Rent::default().minimum_balance(165)
    );
}

#[test]
fn rent_exempt_balance_is_never_zero() {
    assert_eq!(minimum_balance_for_rent_exemption(0, 165), 1);
    assert_eq!(minimum_balance_for_rent_exemption(0, 0), 1);
    assert_eq!(minimum_balance_for_rent_exemption(1, 0), 256);
}

#[test]
fn largest_rent_rate_fits() {
    assert_eq!(MAX_ACCOUNT_DATA_LEN, 10_485_760);
    assert_eq!(MAX_RENT_RATE, u64::MAX / 10_485_888);
    let most = minimum_balance_for_rent_exemption(MAX_RENT_RATE, 10_485_760);
    assert!(most > 0);
}
