//! The decisions of a slot warp: whether it may go ahead, how the bridge
//! snapshot comes about, and which of the requests raised by the root
//! advance are resolved on the spot.

use crate::error::ControlError;
use crate::fork_tree::{ForkTree, ForkTreeView};
use crate::keys::Digest;
use crate::requests::{SnapshotRequest, SnapshotRequestKind};
use vstd::prelude::*;

verus! {

/// How the bridge snapshot, just below the target, comes about.
#[derive(Clone, Copy, Debug, PartialEq, Eq, Structural)]
pub enum Bridge {
    /// The working tip already sits there: it is frozen in place.
    FreezeTip,
    /// A child of the working tip is forked there.
    ForkTip,
}

/// What a warp does before it roots the tree.
#[derive(Clone, Copy, Debug, PartialEq, Eq, Structural)]
pub struct WarpPlan {
    /// The slot just below the target, which becomes the root.
    pub pre_warp_slot: u64,
    /// How the snapshot at that slot comes about.
    pub bridge: Bridge,
}

/// The plan of a warp from `working_slot` to `target_slot`; none unless the
/// target is ahead.
pub open spec fn planned(working_slot: u64, target_slot: u64) -> Option<WarpPlan> {
    if target_slot <= working_slot {
        None
    } else {
        Some(
            WarpPlan {
                pre_warp_slot: (target_slot - 1) as u64,
                bridge: if target_slot - 1 == working_slot {
                    Bridge::FreezeTip
                } else {
                    Bridge::ForkTip
                },
            },
        )
    }
}

/// Plans a warp from `working_slot` to `target_slot`, or refuses it because
/// the target is not ahead.
pub fn plan_warp(working_slot: u64, target_slot: u64) -> (res: Result<WarpPlan, ControlError>)
    ensures
        match planned(working_slot, target_slot) {
            Some(plan) => res is Ok && res->Ok_0 == plan,
            None => res is Err && res->Err_0 == ControlError::InvalidWarpSlot,
        },
{
    if target_slot <= working_slot {
        return Err(ControlError::InvalidWarpSlot);
    }
    let pre_warp_slot = target_slot - 1;
    let bridge = if pre_warp_slot == working_slot {
        Bridge::FreezeTip
    } else {
        Bridge::ForkTip
    };
    Ok(WarpPlan { pre_warp_slot, bridge })
}

/// Whether a warp resolves a request of this kind itself: it does so for
/// the epoch accounts hash and leaves every other kind alone.
pub open spec fn resolves_inline(kind: SnapshotRequestKind) -> bool {
    kind == SnapshotRequestKind::EpochAccountsHash
}

/// Whether a warp resolves a request of this kind itself.
pub fn is_resolved_inline(kind: SnapshotRequestKind) -> (inline: bool)
    ensures
        inline == resolves_inline(kind),
{
    match kind {
        SnapshotRequestKind::EpochAccountsHash => true,
        SnapshotRequestKind::Snapshot => false,
    }
}

/// How many of the requests a warp resolves itself.
pub open spec fn inline_count(requests: Seq<SnapshotRequest>) -> nat
    decreases requests.len(),
{
    if requests.len() == 0 {
        0
    } else if resolves_inline(requests.last().kind) {
        inline_count(requests.drop_last()) + 1
    } else {
        inline_count(requests.drop_last())
    }
}

/// The tree after the requests have been gone through in order: each one
/// that is resolved inline takes the next of `hashes` and declares it valid
/// for the snapshot that the request names; the others change nothing.
pub open spec fn resolved(
    tree: ForkTreeView,
    requests: Seq<SnapshotRequest>,
    hashes: Seq<Digest>,
) -> ForkTreeView
    decreases requests.len(),
{
    if requests.len() == 0 {
        tree
    } else if resolves_inline(requests.last().kind) {
        resolved(tree, requests.drop_last(), hashes.drop_last()).marked(
            requests.last().root_slot,
            hashes.last(),
        )
    } else {
        resolved(tree, requests.drop_last(), hashes)
    }
}

/// Goes through the requests in order and resolves those that a warp
/// resolves itself, each with a hash of its own; returns the hashes drawn.
pub fn resolve_requests(tree: &mut ForkTree, requests: &Vec<SnapshotRequest>) -> (used: Ghost<
    Seq<Digest>,
>)
    requires
        old(tree).wf(),
    ensures
        final(tree).wf(),
        used@.len() == inline_count(requests@),
        final(tree)@ == resolved(old(tree)@, requests@, used@),
{
    let ghost mut used: Seq<Digest> = Seq::empty();
    let mut i: usize = 0;
    assert(requests@.take(0) =~= Seq::<SnapshotRequest>::empty());
    while i < requests.len()
        invariant
            i <= requests.len(),
            tree.wf(),
            used.len() == inline_count(requests@.take(i as int)),
            tree@ == resolved(old(tree)@, requests@.take(i as int), used),
        decreases requests.len() - i,
    {
        let request = requests[i];
        let ghost seen = requests@.take(i as int);
        let ghost next = requests@.take(i + 1);
        assert(next.drop_last() =~= seen);
        assert(next.last() == request);
        if is_resolved_inline(request.kind) {
            let hash = Digest::new_unique();
            tree.mark_epoch_hash_valid(request.root_slot, hash);
            proof {
                assert(used.push(hash).drop_last() =~= used);
                used = used.push(hash);
            }
        }
        i += 1;
    }
    assert(requests@.take(requests.len() as int) =~= requests@);
    Ghost(used)
}

} // verus!
