use ledger_control::account::AccountRecord;
use ledger_control::epoch::{ClockRecord, EpochSchedule};
use ledger_control::fork_tree::{ForkTree, InsertError, SetRootError};
use ledger_control::keys::{Digest, Pubkey};
use ledger_control::requests::{RequestChannel, SnapshotRequest, SnapshotRequestKind};
use ledger_control::snapshot::{Snapshot, ValidatedHash};

fn key(byte: u8) -> Pubkey {
    Pubkey::new_from_array([byte; 32])
}

fn genesis(slot: u64) -> Snapshot {
    Snapshot::new(slot, EpochSchedule::without_warmup(432_000), 3480).unwrap()
}

fn tree_at(slot: u64) -> ForkTree {
    ForkTree::new(genesis(slot), true, true)
}

#[test]
fn new_snapshot_is_empty_and_open() {
    let snapshot = genesis(7);
    assert_eq!(snapshot.slot(), 7);
    assert_eq!(snapshot.parent_slot(), None);
    assert!(!snapshot.is_frozen());
    assert_eq!(
        snapshot.clock(),
        ClockRecord {
            slot: 7,
            epoch_start_timestamp: 0,
            epoch: 0,
            leader_schedule_epoch: 0,
            unix_timestamp: 0,
        }
    );
    assert_eq!(snapshot.epoch_schedule(), EpochSchedule::without_warmup(432_000));
    assert_eq!(snapshot.rent_rate(), 3480);
    assert_eq!(snapshot.epoch_hash(), None);
    assert!(snapshot.get_account(&key(1)).is_none());
}

#[test]
fn new_snapshot_refuses_unusable_settings() {
    let late = EpochSchedule {
        slots_per_epoch: 32,
        leader_schedule_slot_offset: 32,
        warmup: true,
        first_normal_epoch: 62,
        first_normal_slot: 0x7fff_ffff_ffff_ffe1,
    };
    assert!(Snapshot::new(0, late, 3480).is_none());
    let latest_usable = EpochSchedule { first_normal_slot: 0x7fff_ffff_ffff_ffe0, ..late };
    assert!(Snapshot::new(0, latest_usable, 3480).is_some());
    let schedule = EpochSchedule::without_warmup(32);
    assert!(Snapshot::new(0, schedule, u64::MAX / 10_485_888).is_some());
    assert!(Snapshot::new(0, schedule, u64::MAX / 10_485_888 + 1).is_none());
}

#[test]
fn snapshot_fork_copies_state_without_sharing() {
    let mut parent = genesis(3);
    parent.store_account(&key(1), AccountRecord::new(5, 2, &key(9)));
    parent.set_clock(ClockRecord {
        slot: 3,
        epoch_start_timestamp: 1,
        epoch: 2,
        leader_schedule_epoch: 3,
        unix_timestamp: 4,
    });
    parent.set_epoch_hash_valid(Digest::new_from_array([6u8; 32]), 3);
    parent.freeze();
    let mut child = parent.fork(8);
    assert_eq!(child.slot(), 8);
    assert_eq!(child.parent_slot(), Some(3));
    assert!(!child.is_frozen());
    assert!(parent.is_frozen());
    assert_eq!(child.clock(), parent.clock());
    assert_eq!(child.epoch_hash(), parent.epoch_hash());
    assert_eq!(child.get_account(&key(1)), Some(&AccountRecord::new(5, 2, &key(9))));
    child.store_account(&key(1), AccountRecord::new(6, 0, &key(9)));
    assert_eq!(parent.get_account(&key(1)), Some(&AccountRecord::new(5, 2, &key(9))));
}

#[test]
fn new_tree_holds_the_genesis_alone() {
    let tree = tree_at(10);
    assert_eq!(tree.len(), 1);
    assert_eq!(tree.root(), 10);
    assert_eq!(tree.working_slot(), 10);
    assert_eq!(tree.completed(), None);
    assert!(tree.contains(10));
    assert!(!tree.contains(11));
    assert!(tree.get(11).is_none());
    assert_eq!(tree.get(10).unwrap().slot(), 10);
}

#[test]
fn insert_child_freezes_parent_and_moves_the_tip() {
    let mut tree = tree_at(10);
    tree.store_account(&key(1), AccountRecord::new(5, 0, &key(9)));
    assert_eq!(tree.insert_child(10, 14), Ok(()));
    assert_eq!(tree.len(), 2);
    assert_eq!(tree.root(), 10);
    assert_eq!(tree.working_slot(), 14);
    assert!(tree.get(10).unwrap().is_frozen());
    let tip = tree.working();
    assert_eq!(tip.slot(), 14);
    assert_eq!(tip.parent_slot(), Some(10));
    assert!(!tip.is_frozen());
    assert_eq!(tip.get_account(&key(1)), Some(&AccountRecord::new(5, 0, &key(9))));
}

#[test]
fn insert_child_refuses_unknown_parent() {
    let mut tree = tree_at(10);
    assert_eq!(tree.insert_child(9, 14), Err(InsertError::UnknownParent));
    assert_eq!(tree.insert_child(9, 3), Err(InsertError::UnknownParent));
    assert_eq!(tree.len(), 1);
    assert!(!tree.working().is_frozen());
}

#[test]
fn insert_child_refuses_slot_not_ahead() {
    let mut tree = tree_at(10);
    assert_eq!(tree.insert_child(10, 12), Ok(()));
    assert_eq!(tree.insert_child(10, 12), Err(InsertError::SlotNotAhead));
    assert_eq!(tree.insert_child(10, 11), Err(InsertError::SlotNotAhead));
    assert_eq!(tree.insert_child(12, 10), Err(InsertError::SlotNotAhead));
    assert_eq!(tree.len(), 2);
    assert!(!tree.working().is_frozen());
}

#[test]
fn freeze_marks_one_snapshot() {
    let mut tree = tree_at(10);
    assert!(!tree.freeze(11));
    assert!(!tree.working().is_frozen());
    assert!(tree.freeze(10));
    assert!(tree.working().is_frozen());
    assert_eq!(tree.len(), 1);
}

#[test]
fn set_root_prunes_what_does_not_descend() {
    let mut tree = tree_at(10);
    assert_eq!(tree.insert_child(10, 11), Ok(()));
    assert_eq!(tree.insert_child(10, 12), Ok(()));
    assert_eq!(tree.insert_child(11, 13), Ok(()));
    assert_eq!(tree.insert_child(12, 14), Ok(()));
    assert_eq!(tree.insert_child(13, 15), Ok(()));
    assert_eq!(tree.len(), 6);
    let mut channel = RequestChannel::new();
    assert_eq!(tree.set_root(11, &mut channel, Some(11)), Ok(()));
    assert_eq!(tree.root(), 11);
    assert_eq!(tree.completed(), Some(11));
    assert_eq!(tree.len(), 3);
    assert!(tree.contains(11));
    assert!(tree.contains(13));
    assert!(tree.contains(15));
    assert!(!tree.contains(10));
    assert!(!tree.contains(12));
    assert!(!tree.contains(14));
    assert_eq!(tree.working_slot(), 15);
}

#[test]
fn set_root_can_lower_the_tip() {
    let mut tree = tree_at(10);
    assert_eq!(tree.insert_child(10, 11), Ok(()));
    assert_eq!(tree.insert_child(10, 12), Ok(()));
    let mut channel = RequestChannel::new();
    assert_eq!(tree.set_root(11, &mut channel, None), Ok(()));
    assert_eq!(tree.len(), 1);
    assert_eq!(tree.working_slot(), 11);
    assert_eq!(tree.completed(), None);
}

#[test]
fn set_root_refuses_unknown_slot() {
    let mut tree = tree_at(10);
    assert_eq!(tree.insert_child(10, 12), Ok(()));
    let mut channel = RequestChannel::new();
    assert_eq!(tree.set_root(11, &mut channel, Some(11)), Err(SetRootError::UnknownSlot));
    assert_eq!(tree.root(), 10);
    assert_eq!(tree.completed(), None);
    assert_eq!(tree.len(), 2);
    assert_eq!(channel.drain(), vec![]);
}

#[test]
fn root_advance_announces_each_kind_once() {
    let mut tree = tree_at(10);
    assert_eq!(tree.insert_child(10, 12), Ok(()));
    let mut channel = RequestChannel::new();
    assert_eq!(tree.set_root(12, &mut channel, Some(12)), Ok(()));
    assert_eq!(
        channel.drain(),
        vec![
            SnapshotRequest { kind: SnapshotRequestKind::EpochAccountsHash, root_slot: 12 },
            SnapshotRequest { kind: SnapshotRequestKind::Snapshot, root_slot: 12 },
        ]
    );
}

#[test]
fn root_advance_announces_only_what_the_tree_asks_for() {
    for (hash, write) in [(false, false), (true, false), (false, true)] {
        let mut tree = ForkTree::new(genesis(10), hash, write);
        assert_eq!(tree.insert_child(10, 12), Ok(()));
        let mut channel = RequestChannel::new();
        assert_eq!(tree.set_root(12, &mut channel, Some(12)), Ok(()));
        let mut expected = Vec::new();
        if hash {
            expected.push(SnapshotRequest {
                kind: SnapshotRequestKind::EpochAccountsHash,
                root_slot: 12,
            });
        }
        if write {
            expected.push(SnapshotRequest { kind: SnapshotRequestKind::Snapshot, root_slot: 12 });
        }
        assert_eq!(channel.drain(), expected);
    }
}

#[test]
fn setting_the_same_root_announces_nothing() {
    let mut tree = tree_at(10);
    assert_eq!(tree.insert_child(10, 12), Ok(()));
    let mut channel = RequestChannel::new();
    assert_eq!(tree.set_root(10, &mut channel, Some(10)), Ok(()));
    assert_eq!(channel.drain(), vec![]);
    assert_eq!(tree.len(), 2);
    assert_eq!(tree.completed(), Some(10));
}

#[test]
fn mark_epoch_hash_valid_marks_one_snapshot() {
    let mut tree = tree_at(10);
    assert_eq!(tree.insert_child(10, 12), Ok(()));
    let hash = Digest::new_from_array([8u8; 32]);
    assert!(!tree.mark_epoch_hash_valid(11, hash));
    assert!(tree.mark_epoch_hash_valid(10, hash));
    assert_eq!(tree.get(10).unwrap().epoch_hash(), Some(ValidatedHash { hash, slot: 10 }));
    assert_eq!(tree.get(12).unwrap().epoch_hash(), None);
}

#[test]
fn tree_writes_go_to_the_working_tip() {
    let mut tree = tree_at(10);
    assert_eq!(tree.insert_child(10, 12), Ok(()));
    tree.store_account(&key(1), AccountRecord::new(5, 0, &key(9)));
    let clock = ClockRecord {
        slot: 12,
        epoch_start_timestamp: 1,
        epoch: 2,
        leader_schedule_epoch: 3,
        unix_timestamp: 4,
    };
    tree.set_clock(clock);
    assert_eq!(tree.working().get_account(&key(1)), Some(&AccountRecord::new(5, 0, &key(9))));
    assert_eq!(tree.working().clock(), clock);
    assert!(tree.get(10).unwrap().get_account(&key(1)).is_none());
    assert_eq!(tree.get(10).unwrap().clock().slot, 10);
}

#[test]
fn channel_is_first_in_first_out() {
    let mut channel = RequestChannel::new();
    assert_eq!(channel.drain(), vec![]);
    let a = SnapshotRequest { kind: SnapshotRequestKind::Snapshot, root_slot: 1 };
    let b = SnapshotRequest { kind: SnapshotRequestKind::EpochAccountsHash, root_slot: 2 };
    let c = SnapshotRequest { kind: SnapshotRequestKind::Snapshot, root_slot: 3 };
    channel.send(a);
    channel.send(b);
    channel.send(c);
    assert_eq!(channel.drain(), vec![a, b, c]);
    assert_eq!(channel.drain(), vec![]);
    channel.send(b);
    assert_eq!(channel.drain(), vec![b]);
}
