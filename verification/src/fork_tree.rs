//! The fork tree: the snapshots that the ledger retains, by slot, with a
//! root below which history is pruned and a working tip at the highest slot.

use crate::account::AccountRecord;
use crate::epoch::ClockRecord;
use crate::keys::{Digest, Pubkey};
use crate::requests::{RequestChannel, SnapshotRequest, SnapshotRequestKind};
use crate::snapshot::{Snapshot, SnapshotView};
use vstd::prelude::*;

verus! {

/// Why a child could not be inserted.
#[derive(Clone, Copy, Debug, PartialEq, Eq, Structural)]
pub enum InsertError {
    /// The tree holds no snapshot at the parent's slot.
    UnknownParent,
    /// The child's slot is not above the working tip's.
    SlotNotAhead,
}

/// Why the root could not be moved.
#[derive(Clone, Copy, Debug, PartialEq, Eq, Structural)]
pub enum SetRootError {
    /// The tree holds no snapshot at the slot asked for.
    UnknownSlot,
}

/// The values of a run of snapshots, in order.
pub open spec fn views(snapshots: Seq<Snapshot>) -> Seq<SnapshotView> {
    Seq::new(snapshots.len(), |i: int| snapshots[i]@)
}

/// Whether the slots rise strictly along the run.
pub open spec fn ordered(s: Seq<SnapshotView>) -> bool {
    forall|i: int, j: int| 0 <= i < j < s.len() ==> s[i].slot < s[j].slot
}

/// Whether the snapshot at index `i` was forked from the one at index `j`.
pub open spec fn links(s: Seq<SnapshotView>, i: int, j: int) -> bool {
    s[i].parent_slot == Some(s[j].slot)
}

/// Whether the snapshot at index `i` has its parent earlier in the run.
pub open spec fn parent_precedes(s: Seq<SnapshotView>, i: int) -> bool {
    exists|j: int| 0 <= j < i && #[trigger] links(s, i, j)
}

/// Whether every snapshot but the first has its parent earlier in the run.
pub open spec fn rooted(s: Seq<SnapshotView>) -> bool {
    forall|i: int| 0 < i < s.len() ==> #[trigger] parent_precedes(s, i)
}

/// Whether the snapshot at index `i` is labelled `slot`.
pub open spec fn holds_slot(s: Seq<SnapshotView>, slot: u64, i: int) -> bool {
    0 <= i < s.len() && s[i].slot == slot
}

/// Whether one of the run is labelled `slot`.
pub open spec fn slot_held(s: Seq<SnapshotView>, slot: u64) -> bool {
    exists|i: int| holds_slot(s, slot, i)
}

/// Whether one of the run is labelled with the slot that `parent` names.
pub open spec fn names_one_of(s: Seq<SnapshotView>, parent: Option<u64>) -> bool {
    match parent {
        Some(p) => slot_held(s, p),
        None => false,
    }
}

/// Whether the snapshot at index `i` is the one at index `k` or descends
/// from it.
pub open spec fn descends(s: Seq<SnapshotView>, i: int, k: int) -> bool
    decreases i - k,
{
    if i <= k {
        i == k
    } else {
        exists|j: int| k <= j < i && #[trigger] links(s, i, j) && descends(s, j, k)
    }
}

/// Whether `x` is one of the snapshots among the indices `k..n` that
/// descend from index `k`.
pub open spec fn is_descendant(s: Seq<SnapshotView>, k: int, n: int, x: SnapshotView) -> bool {
    exists|j: int| k <= j < n && descends(s, j, k) && x == #[trigger] s[j]
}

/// The snapshots among the indices `k..n` that descend from index `k`, in
/// order.
pub open spec fn retained(s: Seq<SnapshotView>, k: int, n: int) -> Seq<SnapshotView>
    decreases n - k,
{
    if n <= k {
        Seq::empty()
    } else if descends(s, n - 1, k) {
        retained(s, k, n - 1).push(s[n - 1])
    } else {
        retained(s, k, n - 1)
    }
}

/// The mathematical value of a fork tree.
pub struct ForkTreeView {
    /// The retained snapshots, by rising slot.
    pub snapshots: Seq<SnapshotView>,
    /// The slot of the root.
    pub root: u64,
    /// The slot last named as complete when the root was set.
    pub completed: Option<u64>,
    /// Whether a root advance asks for an epoch accounts hash.
    pub announces_epoch_hash: bool,
    /// Whether a root advance asks for the snapshot to be written out.
    pub announces_snapshot: bool,
}

impl ForkTreeView {
    /// Whether the value is a fork tree: it is not empty, its slots rise,
    /// its first snapshot is the root and every other snapshot has its parent
    /// in the tree.
    pub open spec fn valid(self) -> bool {
        &&& self.snapshots.len() > 0
        &&& ordered(self.snapshots)
        &&& rooted(self.snapshots)
        &&& self.snapshots[0].slot == self.root
    }

    /// Whether the tree holds a snapshot at `slot`.
    pub open spec fn contains(self, slot: u64) -> bool {
        slot_held(self.snapshots, slot)
    }

    /// The index of the snapshot at `slot`.
    pub open spec fn index_of(self, slot: u64) -> int {
        choose|i: int| holds_slot(self.snapshots, slot, i)
    }

    /// The snapshot at `slot`.
    pub open spec fn get(self, slot: u64) -> SnapshotView {
        self.snapshots[self.index_of(slot)]
    }

    /// The working tip: the snapshot at the highest slot.
    pub open spec fn working(self) -> SnapshotView {
        self.snapshots.last()
    }

    /// The tree with the working tip replaced by `tip`.
    pub open spec fn with_working(self, tip: SnapshotView) -> ForkTreeView {
        ForkTreeView { snapshots: self.snapshots.update(self.snapshots.len() - 1, tip), ..self }
    }

    /// The tree with the snapshot at `slot` replaced by `snapshot`.
    pub open spec fn with_snapshot(self, slot: u64, snapshot: SnapshotView) -> ForkTreeView {
        ForkTreeView {
            snapshots: self.snapshots.update(self.index_of(slot), snapshot),
            ..self
        }
    }

    /// The tree with `hash` declared the valid epoch accounts hash of the
    /// snapshot at `slot`, as of that slot; the tree itself where it holds
    /// no such snapshot.
    pub open spec fn marked(self, slot: u64, hash: Digest) -> ForkTreeView {
        if self.contains(slot) {
            self.with_snapshot(slot, self.get(slot).with_valid_hash(hash, slot))
        } else {
            self
        }
    }

    /// The snapshot that a warp to `target_slot` roots the tree at: the
    /// working tip itself where it sits just below the target, and else a
    /// child of it just below the target; frozen either way, and with `hash`
    /// declared valid where rooting it asks for an epoch accounts hash.
    pub open spec fn bridge(self, target_slot: u64, hash: Digest) -> SnapshotView {
        let pre_warp_slot = (target_slot - 1) as u64;
        let tip = self.working();
        let made = if pre_warp_slot == tip.slot {
            tip
        } else {
            tip.forked(pre_warp_slot)
        };
        if self.announces_epoch_hash && pre_warp_slot > self.root {
            made.with_valid_hash(hash, pre_warp_slot).frozen_now()
        } else {
            made.frozen_now()
        }
    }

    /// The tree after a warp to `target_slot`: the bridge as root, and a
    /// child of it at the target as working tip.
    pub open spec fn warped(self, target_slot: u64, hash: Digest) -> ForkTreeView {
        let pre_warp_slot = (target_slot - 1) as u64;
        let bridge = self.bridge(target_slot, hash);
        ForkTreeView {
            snapshots: seq![bridge, bridge.forked(target_slot)],
            root: pre_warp_slot,
            completed: Some(pre_warp_slot),
            ..self
        }
    }

    /// The tree with a child of the snapshot at `parent_slot` added at
    /// `slot`: the parent is frozen and the child becomes the working tip.
    pub open spec fn with_child(self, parent_slot: u64, slot: u64) -> ForkTreeView {
        let parent = self.get(parent_slot);
        ForkTreeView {
            snapshots: self.snapshots.update(self.index_of(parent_slot), parent.frozen_now()).push(
                parent.forked(slot),
            ),
            ..self
        }
    }

    /// The tree with its root moved to `slot`: what does not descend from
    /// the new root is pruned.
    pub open spec fn with_root(self, slot: u64, completed: Option<u64>) -> ForkTreeView {
        ForkTreeView {
            snapshots: retained(
                self.snapshots,
                self.index_of(slot),
                self.snapshots.len() as int,
            ),
            root: slot,
            completed,
            ..self
        }
    }

    /// The requests that moving the root to `slot` raises: none unless the
    /// root advances, and then one for each kind of work that the tree
    /// announces, the epoch accounts hash first.
    pub open spec fn root_requests(self, slot: u64) -> Seq<SnapshotRequest> {
        let hash = if self.announces_epoch_hash {
            seq![SnapshotRequest { kind: SnapshotRequestKind::EpochAccountsHash, root_slot: slot }]
        } else {
            Seq::empty()
        };
        let write = if self.announces_snapshot {
            seq![SnapshotRequest { kind: SnapshotRequestKind::Snapshot, root_slot: slot }]
        } else {
            Seq::empty()
        };
        if slot > self.root {
            hash + write
        } else {
            Seq::empty()
        }
    }
}

/// In an ordered run a slot is held at one index at most.
pub proof fn lemma_index_unique(s: Seq<SnapshotView>, slot: u64, i: int, j: int)
    requires
        ordered(s),
        holds_slot(s, slot, i),
        holds_slot(s, slot, j),
    ensures
        i == j,
{
    if i < j {
        assert(s[i].slot < s[j].slot);
    } else if j < i {
        assert(s[j].slot < s[i].slot);
    }
}

/// What is retained among `k..n`: the snapshot at `k` comes first, every
/// member descends from `k`, every descendant is a member, the slots still
/// rise and every member but the first has its parent before it.
pub proof fn lemma_retained(s: Seq<SnapshotView>, k: int, n: int)
    requires
        ordered(s),
        0 <= k < n <= s.len(),
    ensures
        retained(s, k, n).len() >= 1,
        retained(s, k, n).len() <= n - k,
        retained(s, k, n)[0] == s[k],
        forall|m: int|
            0 <= m < retained(s, k, n).len() ==> is_descendant(
                s,
                k,
                n,
                #[trigger] retained(s, k, n)[m],
            ),
        forall|j: int|
            k <= j < n && descends(s, j, k) ==> retained(s, k, n).contains(#[trigger] s[j]),
        ordered(retained(s, k, n)),
        rooted(retained(s, k, n)),
    decreases n,
{
    let r = retained(s, k, n);
    if n == k + 1 {
        assert(descends(s, k, k));
        assert(retained(s, k, k) =~= Seq::<SnapshotView>::empty());
        assert(r =~= seq![s[k]]);
        assert(r[0] == s[k]);
        assert(is_descendant(s, k, n, s[k]));
        assert forall|j: int| k <= j < n && descends(s, j, k) implies r.contains(
            #[trigger] s[j],
        ) by {
            assert(r[0] == s[j]);
        }
    } else {
        let rest = retained(s, k, n - 1);
        lemma_retained(s, k, n - 1);
        if descends(s, n - 1, k) {
            assert(r == rest.push(s[n - 1]));
            let last = rest.len() as int;
            assert(r[last] == s[n - 1]);
            assert forall|m: int| 0 <= m < r.len() implies is_descendant(
                s,
                k,
                n,
                #[trigger] r[m],
            ) by {
                if m < last {
                    assert(r[m] == rest[m]);
                    assert(is_descendant(s, k, n - 1, rest[m]));
                    let j = choose|j: int|
                        k <= j < n - 1 && descends(s, j, k) && rest[m] == #[trigger] s[j];
                    assert(k <= j < n && descends(s, j, k) && r[m] == s[j]);
                } else {
                    assert(k <= n - 1 < n && descends(s, n - 1, k) && r[m] == s[n - 1]);
                }
            }
            assert forall|j: int| k <= j < n && descends(s, j, k) implies r.contains(
                #[trigger] s[j],
            ) by {
                if j < n - 1 {
                    assert(rest.contains(s[j]));
                    let m = choose|m: int| 0 <= m < rest.len() && rest[m] == s[j];
                    assert(r[m] == s[j]);
                } else {
                    assert(r[last] == s[j]);
                }
            }
            assert forall|a: int, b: int| 0 <= a < b < r.len() implies r[a].slot
                < r[b].slot by {
                if b < last {
                    assert(r[a] == rest[a] && r[b] == rest[b]);
                } else {
                    assert(r[a] == rest[a]);
                    assert(is_descendant(s, k, n - 1, rest[a]));
                    let j = choose|j: int|
                        k <= j < n - 1 && descends(s, j, k) && rest[a] == #[trigger] s[j];
                    assert(s[j].slot < s[n - 1].slot);
                }
            }
            assert forall|m: int| 0 < m < r.len() implies #[trigger] parent_precedes(r, m) by {
                if m < last {
                    assert(parent_precedes(rest, m));
                    let p = choose|p: int| 0 <= p < m && #[trigger] links(rest, m, p);
                    assert(r[m] == rest[m] && r[p] == rest[p]);
                    assert(links(r, m, p));
                } else {
                    let j = choose|j: int|
                        k <= j < n - 1 && #[trigger] links(s, n - 1, j) && descends(s, j, k);
                    assert(rest.contains(s[j]));
                    let p = choose|p: int| 0 <= p < rest.len() && rest[p] == s[j];
                    assert(r[p] == s[j]);
                    assert(links(r, m, p));
                }
            }
        } else {
            assert(r == rest);
            assert forall|m: int| 0 <= m < r.len() implies is_descendant(
                s,
                k,
                n,
                #[trigger] r[m],
            ) by {
                assert(is_descendant(s, k, n - 1, rest[m]));
                let j = choose|j: int|
                    k <= j < n - 1 && descends(s, j, k) && rest[m] == #[trigger] s[j];
                assert(k <= j < n && descends(s, j, k) && r[m] == s[j]);
            }
            assert forall|j: int| k <= j < n && descends(s, j, k) implies r.contains(
                #[trigger] s[j],
            ) by {
                assert(rest.contains(s[j]));
            }
        }
    }
}

/// The working tip of a fork tree is held at the last index and nowhere
/// else.
pub proof fn lemma_working_index(tree: ForkTreeView)
    requires
        tree.valid(),
    ensures
        tree.contains(tree.working().slot),
        tree.index_of(tree.working().slot) == tree.snapshots.len() - 1,
        tree.get(tree.working().slot) == tree.working(),
        forall|i: int| 0 <= i < tree.snapshots.len() ==> tree.snapshots[i].slot <= tree.working().slot,
{
    let last = tree.snapshots.len() - 1;
    assert(holds_slot(tree.snapshots, tree.working().slot, last));
    lemma_index_unique(
        tree.snapshots,
        tree.working().slot,
        last,
        tree.index_of(tree.working().slot),
    );
    assert forall|i: int| 0 <= i < tree.snapshots.len() implies tree.snapshots[i].slot
        <= tree.working().slot by {
        if i < last {
            assert(tree.snapshots[i].slot < tree.snapshots[last].slot);
        }
    }
}

/// A snapshot above index `k` descends from `k` exactly when its parent is
/// among those retained before it.
pub proof fn lemma_descends_by_parent(s: Seq<SnapshotView>, k: int, i: int)
    requires
        ordered(s),
        0 <= k < i < s.len(),
    ensures
        descends(s, i, k) == names_one_of(retained(s, k, i), s[i].parent_slot),
{
    lemma_retained(s, k, i);
    let r = retained(s, k, i);
    if descends(s, i, k) {
        let j = choose|j: int| k <= j < i && #[trigger] links(s, i, j) && descends(s, j, k);
        assert(r.contains(s[j]));
        let m = choose|m: int| 0 <= m < r.len() && r[m] == s[j];
        assert(holds_slot(r, s[j].slot, m));
    }
    if names_one_of(r, s[i].parent_slot) {
        let p = s[i].parent_slot->0;
        let m = choose|m: int| holds_slot(r, p, m);
        assert(is_descendant(s, k, i, r[m]));
        let j = choose|j: int| k <= j < i && descends(s, j, k) && r[m] == #[trigger] s[j];
        assert(links(s, i, j));
    }
}

/// In a fork tree every snapshot but the root has its parent at a lower
/// slot, and no snapshot sits below the root.
pub proof fn lemma_parents_below(tree: ForkTreeView, i: int)
    requires
        tree.valid(),
        0 <= i < tree.snapshots.len(),
    ensures
        tree.root <= tree.snapshots[i].slot,
        i > 0 ==> exists|j: int|
            0 <= j < i && #[trigger] links(tree.snapshots, i, j) && tree.snapshots[j].slot
                < tree.snapshots[i].slot,
{
    if i > 0 {
        assert(tree.snapshots[0].slot < tree.snapshots[i].slot);
        assert(parent_precedes(tree.snapshots, i));
        let j = choose|j: int| 0 <= j < i && #[trigger] links(tree.snapshots, i, j);
        assert(tree.snapshots[j].slot < tree.snapshots[i].slot);
    }
}

/// Moving the root to the working tip retains the tip alone.
pub proof fn lemma_retained_tip(s: Seq<SnapshotView>)
    requires
        s.len() > 0,
    ensures
        retained(s, s.len() - 1, s.len() as int) == seq![s.last()],
{
    let k = s.len() - 1;
    assert(descends(s, k, k));
    assert(retained(s, k, k) =~= Seq::<SnapshotView>::empty());
    assert(retained(s, k, k + 1) =~= seq![s.last()]);
}

/// The fork tree.
pub struct ForkTree {
    snapshots: Vec<Snapshot>,
    root: u64,
    completed: Option<u64>,
    announces_epoch_hash: bool,
    announces_snapshot: bool,
}

impl View for ForkTree {
    type V = ForkTreeView;

    closed spec fn view(&self) -> ForkTreeView {
        ForkTreeView {
            snapshots: views(self.snapshots@),
            root: self.root,
            completed: self.completed,
            announces_epoch_hash: self.announces_epoch_hash,
            announces_snapshot: self.announces_snapshot,
        }
    }
}

/// Whether one of `kept` is labelled with the slot that `parent` names.
fn parent_among(kept: &Vec<Snapshot>, parent: Option<u64>) -> (found: bool)
    ensures
        found == names_one_of(views(kept@), parent),
{
    match parent {
        None => false,
        Some(p) => {
            let mut m: usize = 0;
            while m < kept.len()
                invariant
                    parent == Some(p),
                    m <= kept.len(),
                    forall|a: int| 0 <= a < m ==> !holds_slot(views(kept@), p, a),
                decreases kept.len() - m,
            {
                if kept[m].slot() == p {
                    assert(holds_slot(views(kept@), p, m as int));
                    return true;
                }
                m += 1;
            }
            false
        },
    }
}

impl ForkTree {
    /// Whether the tree is valid: its value is a fork tree and each of its
    /// snapshots is valid.
    pub closed spec fn wf(&self) -> bool {
        &&& self@.valid()
        &&& forall|i: int| 0 <= i < self.snapshots@.len() ==> (#[trigger] self.snapshots@[i]).wf()
    }

    /// Validity shows in the value.
    pub proof fn lemma_wf(&self)
        requires
            self.wf(),
        ensures
            self@.valid(),
            self@.working().epoch_schedule.wf(),
            crate::rent::rate_in_range(self@.working().rent_rate),
    {
        let last = self.snapshots@.len() - 1;
        assert(self.snapshots@[last].wf());
        self.snapshots@[last].lemma_wf();
    }

    /// A tree that holds `genesis` alone, as root and working tip.
    pub fn new(genesis: Snapshot, announces_epoch_hash: bool, announces_snapshot: bool) -> (tree:
        ForkTree)
        requires
            genesis.wf(),
        ensures
            tree.wf(),
            tree@ == (ForkTreeView {
                snapshots: seq![genesis@],
                root: genesis@.slot,
                completed: None,
                announces_epoch_hash,
                announces_snapshot,
            }),
    {
        let root = genesis.slot();
        let mut snapshots: Vec<Snapshot> = Vec::new();
        snapshots.push(genesis);
        let tree = ForkTree {
            snapshots,
            root,
            completed: None,
            announces_epoch_hash,
            announces_snapshot,
        };
        assert(tree@.snapshots =~= seq![genesis@]);
        tree
    }

    /// The slot of the root.
    pub fn root(&self) -> (slot: u64)
        ensures
            slot == self@.root,
    {
        self.root
    }

    /// The slot last named as complete when the root was set.
    pub fn completed(&self) -> (slot: Option<u64>)
        ensures
            slot == self@.completed,
    {
        self.completed
    }

    /// The number of snapshots retained.
    pub fn len(&self) -> (count: usize)
        ensures
            count == self@.snapshots.len(),
    {
        self.snapshots.len()
    }

    /// The working tip.
    pub fn working(&self) -> (tip: &Snapshot)
        requires
            self.wf(),
        ensures
            tip.wf(),
            tip@ == self@.working(),
    {
        &self.snapshots[self.snapshots.len() - 1]
    }

    /// The slot of the working tip.
    pub fn working_slot(&self) -> (slot: u64)
        requires
            self.wf(),
        ensures
            slot == self@.working().slot,
    {
        self.working().slot()
    }

    /// Where the snapshot at `slot` is held, if anywhere.
    fn find(&self, slot: u64) -> (found: Option<usize>)
        requires
            self.wf(),
        ensures
            match found {
                Some(i) => holds_slot(self@.snapshots, slot, i as int) && self@.contains(slot)
                    && self@.index_of(slot) == i,
                None => !self@.contains(slot),
            },
    {
        let mut i: usize = 0;
        while i < self.snapshots.len()
            invariant
                self.wf(),
                i <= self.snapshots.len(),
                forall|j: int| 0 <= j < i ==> !holds_slot(self@.snapshots, slot, j),
            decreases self.snapshots.len() - i,
        {
            if self.snapshots[i].slot() == slot {
                proof {
                    assert(holds_slot(self@.snapshots, slot, i as int));
                    lemma_index_unique(self@.snapshots, slot, i as int, self@.index_of(slot));
                }
                return Some(i);
            }
            i += 1;
        }
        None
    }

    /// Whether the tree holds a snapshot at `slot`.
    pub fn contains(&self, slot: u64) -> (held: bool)
        requires
            self.wf(),
        ensures
            held == self@.contains(slot),
    {
        self.find(slot).is_some()
    }

    /// The snapshot at `slot`, if the tree holds one.
    pub fn get(&self, slot: u64) -> (found: Option<&Snapshot>)
        requires
            self.wf(),
        ensures
            found is Some <==> self@.contains(slot),
            found matches Some(snapshot) ==> snapshot.wf() && snapshot@ == self@.get(slot),
    {
        match self.find(slot) {
            Some(i) => Some(&self.snapshots[i]),
            None => None,
        }
    }

    /// Freezes the snapshot at `slot`; `false` where the tree holds none.
    pub fn freeze(&mut self, slot: u64) -> (done: bool)
        requires
            old(self).wf(),
        ensures
            final(self).wf(),
            done == old(self)@.contains(slot),
            done ==> final(self)@ == old(self)@.with_snapshot(
                slot,
                old(self)@.get(slot).frozen_now(),
            ),
            !done ==> final(self)@ == old(self)@,
    {
        match self.find(slot) {
            Some(i) => {
                let ghost before = self@.snapshots;
                self.snapshots[i].freeze();
                proof {
                    let after = self@.snapshots;
                    assert(after =~= before.update(i as int, before[i as int].frozen_now()));
                    lemma_update_keeps_shape(before, i as int, before[i as int].frozen_now());
                }
                true
            },
            None => false,
        }
    }

    /// Declares `hash` the valid epoch accounts hash of the snapshot at
    /// `slot`, as of that slot; `false` where the tree holds none.
    pub fn mark_epoch_hash_valid(&mut self, slot: u64, hash: Digest) -> (done: bool)
        requires
            old(self).wf(),
        ensures
            final(self).wf(),
            done == old(self)@.contains(slot),
            done ==> final(self)@ == old(self)@.with_snapshot(
                slot,
                old(self)@.get(slot).with_valid_hash(hash, slot),
            ),
            !done ==> final(self)@ == old(self)@,
    {
        match self.find(slot) {
            Some(i) => {
                let ghost before = self@.snapshots;
                self.snapshots[i].set_epoch_hash_valid(hash, slot);
                proof {
                    let after = self@.snapshots;
                    let changed = before[i as int].with_valid_hash(hash, slot);
                    assert(after =~= before.update(i as int, changed));
                    lemma_update_keeps_shape(before, i as int, changed);
                }
                true
            },
            None => false,
        }
    }

    /// Writes `record` at `address` in the working tip.
    pub fn store_account(&mut self, address: &Pubkey, record: AccountRecord)
        requires
            old(self).wf(),
        ensures
            final(self).wf(),
            final(self)@ == old(self)@.with_working(
                old(self)@.working().with_account(*address, record@),
            ),
            final(self)@.working() == old(self)@.working().with_account(*address, record@),
    {
        let last = self.snapshots.len() - 1;
        let ghost before = self@.snapshots;
        self.snapshots[last].store_account(address, record);
        proof {
            let changed = before[last as int].with_account(*address, record@);
            assert(self@.snapshots =~= before.update(last as int, changed));
            lemma_update_keeps_shape(before, last as int, changed);
        }
    }

    /// Replaces the clock record of the working tip.
    pub fn set_clock(&mut self, clock: ClockRecord)
        requires
            old(self).wf(),
        ensures
            final(self).wf(),
            final(self)@ == old(self)@.with_working(old(self)@.working().with_clock(clock)),
            final(self)@.working() == old(self)@.working().with_clock(clock),
    {
        let last = self.snapshots.len() - 1;
        let ghost before = self@.snapshots;
        self.snapshots[last].set_clock(clock);
        proof {
            let changed = before[last as int].with_clock(clock);
            assert(self@.snapshots =~= before.update(last as int, changed));
            lemma_update_keeps_shape(before, last as int, changed);
        }
    }

    /// Forks a child at `slot` from the snapshot at `parent_slot`. The
    /// parent is frozen and the child, open for writes, becomes the working
    /// tip. Refused, with the tree as it was, where the tree holds no
    /// snapshot at `parent_slot`, or else where `slot` is not above the
    /// working tip's slot.
    pub fn insert_child(&mut self, parent_slot: u64, slot: u64) -> (res: Result<(), InsertError>)
        requires
            old(self).wf(),
        ensures
            final(self).wf(),
            res is Ok <==> old(self)@.contains(parent_slot) && slot > old(self)@.working().slot,
            res is Ok ==> final(self)@ == old(self)@.with_child(parent_slot, slot),
            res is Err ==> final(self)@ == old(self)@,
            res is Err ==> (res->Err_0 == InsertError::UnknownParent <==> !old(self)@.contains(
                parent_slot,
            )),
    {
        let p = match self.find(parent_slot) {
            Some(p) => p,
            None => {
                return Err(InsertError::UnknownParent);
            },
        };
        if slot <= self.working_slot() {
            return Err(InsertError::SlotNotAhead);
        }
        let ghost before = self@.snapshots;
        let child = self.snapshots[p].fork(slot);
        self.snapshots[p].freeze();
        self.snapshots.push(child);
        proof {
            let frozen_parent = before[p as int].frozen_now();
            let middle = before.update(p as int, frozen_parent);
            let after = self@.snapshots;
            assert(after =~= middle.push(before[p as int].forked(slot)));
            lemma_update_keeps_shape(before, p as int, frozen_parent);
            let n = before.len() as int;
            assert forall|i: int, j: int| 0 <= i < j < after.len() implies after[i].slot
                < after[j].slot by {
                if j < n {
                    assert(middle[i].slot < middle[j].slot);
                } else {
                    if i < n - 1 {
                        assert(middle[i].slot < middle[n - 1].slot);
                    }
                }
            }
            assert forall|i: int| 0 < i < after.len() implies #[trigger] parent_precedes(
                after,
                i,
            ) by {
                if i < n {
                    assert(parent_precedes(middle, i));
                    let j = choose|j: int| 0 <= j < i && #[trigger] links(middle, i, j);
                    assert(links(after, i, j));
                } else {
                    assert(links(after, i, p as int));
                }
            }
        }
        Ok(())
    }

    /// Moves the root to `slot`, prunes every snapshot that does not descend
    /// from the new root, records `completed` and sends the requests that
    /// the move raises. Refused, with nothing changed and nothing sent, where
    /// the tree holds no snapshot at `slot`.
    pub fn set_root(&mut self, slot: u64, sink: &mut RequestChannel, completed: Option<u64>) -> (res:
        Result<(), SetRootError>)
        requires
            old(self).wf(),
        ensures
            final(self).wf(),
            res is Ok <==> old(self)@.contains(slot),
            res is Ok ==> final(self)@ == old(self)@.with_root(slot, completed),
            res is Ok ==> final(sink)@ == old(sink)@ + old(self)@.root_requests(slot),
            res is Err ==> final(self)@ == old(self)@ && final(sink)@ == old(sink)@,
    {
        let k = match self.find(slot) {
            Some(k) => k,
            None => {
                return Err(SetRootError::UnknownSlot);
            },
        };
        let ghost before = self@;
        let ghost sent = sink@;
        let advances = slot > self.root;
        let mut all: Vec<Snapshot> = Vec::new();
        std::mem::swap(&mut all, &mut self.snapshots);
        let ghost source = all@;
        let count = all.len();
        let mut kept: Vec<Snapshot> = Vec::new();
        let mut i: usize = 0;
        for snapshot in it: all.into_iter()
            invariant
                it.seq() == source,
                i == it.index(),
                source.len() == count,
                views(source) == before.snapshots,
                ordered(before.snapshots),
                k < source.len(),
                forall|a: int| 0 <= a < source.len() ==> (#[trigger] source[a]).wf(),
                forall|a: int| 0 <= a < kept@.len() ==> (#[trigger] kept@[a]).wf(),
                views(kept@) == retained(before.snapshots, k as int, i as int),
        {
            let ghost s = before.snapshots;
            assert(snapshot@ == s[i as int]);
            let keep = i == k || (i > k && parent_among(&kept, snapshot.parent_slot()));
            proof {
                if i > k {
                    lemma_descends_by_parent(s, k as int, i as int);
                }
                assert(keep == descends(s, i as int, k as int));
            }
            if keep {
                kept.push(snapshot);
                assert(views(kept@) =~= retained(s, k as int, i as int).push(s[i as int]));
            }
            i += 1;
        }
        self.snapshots = kept;
        self.root = slot;
        self.completed = completed;
        proof {
            lemma_retained(before.snapshots, k as int, before.snapshots.len() as int);
            assert(self@.snapshots == retained(
                before.snapshots,
                k as int,
                before.snapshots.len() as int,
            ));
        }
        if advances {
            if self.announces_epoch_hash {
                sink.send(
                    SnapshotRequest { kind: SnapshotRequestKind::EpochAccountsHash, root_slot: slot },
                );
            }
            if self.announces_snapshot {
                sink.send(SnapshotRequest { kind: SnapshotRequestKind::Snapshot, root_slot: slot });
            }
        }
        assert(sink@ =~= sent + before.root_requests(slot));
        Ok(())
    }
}

/// Replacing a snapshot by one with the same slot and parent leaves the
/// shape of the run as it was.
pub proof fn lemma_update_keeps_shape(s: Seq<SnapshotView>, at: int, changed: SnapshotView)
    requires
        0 <= at < s.len(),
        changed.slot == s[at].slot,
        changed.parent_slot == s[at].parent_slot,
    ensures
        ordered(s) ==> ordered(s.update(at, changed)),
        rooted(s) ==> rooted(s.update(at, changed)),
        forall|slot: u64, i: int|
            holds_slot(s, slot, i) <==> holds_slot(s.update(at, changed), slot, i),
{
    let after = s.update(at, changed);
    if ordered(s) {
        assert forall|i: int, j: int| 0 <= i < j < after.len() implies after[i].slot
            < after[j].slot by {
            assert(s[i].slot < s[j].slot);
        }
    }
    if rooted(s) {
        assert forall|i: int| 0 < i < after.len() implies #[trigger] parent_precedes(after, i) by {
            assert(parent_precedes(s, i));
            let j = choose|j: int| 0 <= j < i && #[trigger] links(s, i, j);
            assert(links(after, i, j));
        }
    }
}

} // verus!
