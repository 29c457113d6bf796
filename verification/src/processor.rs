//! The control surface itself: the request processor that holds the fork
//! tree, the clock engine and the commitment tracker, and the operations
//! that force them into the state a test needs.

use crate::account::{AccountRecord, AccountView};
use crate::clock_engine::ClockEngine;
use crate::commitment::CommitmentTracker;
use crate::epoch::{overridden_clock, override_clock};
use crate::error::{ControlError, ParamsFault};
use crate::fork_tree::{
    lemma_retained_tip, lemma_working_index, ForkTree, ForkTreeView,
};
use crate::keys::{copied, Digest, Pubkey};
use crate::requests::{RequestChannel, SnapshotRequest, SnapshotRequestKind};
use crate::rent::{exempt_balance, lemma_rate_in_range, minimum_balance_for_rent_exemption};
use crate::snapshot::SnapshotView;
use crate::token::{
    build_token_account, decoded, edit_record, edited_record, fresh_record, new_record,
    token_account, token_program_id, token_program_key, unpack_record, TOKEN_ACCOUNT_LEN,
};
use crate::warp::{plan_warp, resolve_requests, resolved, Bridge};
use vstd::prelude::*;

verus! {

/// The endpoint that accounts are cloned from when none is named.
pub const DEFAULT_ENDPOINT: &'static str = "https://api.mainnet-beta.solana.com";

/// The request processor of a test validator.
pub struct TestValidatorJsonRpcRequestProcessor {
    /// The clock engine.
    pub poh_recorder: ClockEngine,
    /// The fork tree.
    pub bank_forks: ForkTree,
    /// The commitment tracker.
    pub block_commitment_cache: CommitmentTracker,
}

/// The mathematical value of a request processor.
pub struct ProcessorView {
    /// The clock engine.
    pub poh_recorder: ClockEngine,
    /// The fork tree.
    pub bank_forks: ForkTreeView,
    /// The commitment tracker.
    pub block_commitment_cache: CommitmentTracker,
}

impl ProcessorView {
    /// The working tip of the fork tree.
    pub open spec fn working(self) -> SnapshotView {
        self.bank_forks.working()
    }

    /// The account that a read of `address` finds in the working tip.
    pub open spec fn account(self, address: Pubkey) -> Option<AccountView> {
        if self.working().accounts.contains_key(address) {
            Some(self.working().accounts[address])
        } else {
            None
        }
    }

    /// This processor with the working tip replaced by `tip`.
    pub open spec fn with_working(self, tip: SnapshotView) -> ProcessorView {
        ProcessorView { bank_forks: self.bank_forks.with_working(tip), ..self }
    }

    /// This processor after `record` has been written at `address`.
    pub open spec fn with_account(self, address: Pubkey, record: AccountView) -> ProcessorView {
        self.with_working(self.working().with_account(address, record))
    }

    /// This processor after a warp to `target_slot`: the tree is rooted at
    /// the bridge with the target as working tip, the clock engine ticks
    /// anchored at the target with no previous leader, and every commitment
    /// counter stands at the target.
    pub open spec fn warped(self, target_slot: u64, hash: Digest) -> ProcessorView {
        ProcessorView {
            poh_recorder: ClockEngine {
                ticking: true,
                tip_slot: target_slot,
                previous_leader_slot: None,
            },
            bank_forks: self.bank_forks.warped(target_slot, hash),
            block_commitment_cache: CommitmentTracker {
                slot: target_slot,
                root: target_slot,
                highest_confirmed_slot: target_slot,
                highest_super_majority_root: target_slot,
            },
        }
    }

    /// This processor after a token account has been opened at `address`
    /// for `owner` on `mint`, funded to be exempt from rent.
    pub open spec fn with_new_token_account(
        self,
        address: Pubkey,
        mint: Pubkey,
        owner: Pubkey,
        amount: Option<u64>,
    ) -> ProcessorView {
        self.with_account(
            address,
            token_account(
                fresh_record(mint, owner, amount),
                exempt_balance(self.working().rent_rate, TOKEN_ACCOUNT_LEN),
            ),
        )
    }

    /// Why the account at `address` cannot be edited as a token account, if
    /// it cannot: it is missing, or the token program does not own it, or
    /// its data does not unpack.
    pub open spec fn token_edit_fault(self, address: Pubkey) -> Option<ControlError> {
        match self.account(address) {
            None => Some(ControlError::InvalidParams(ParamsFault::AccountNotFound(address))),
            Some(existing) => if existing.owner != token_program_key() {
                Some(ControlError::NotATokenAccount(address))
            } else {
                match decoded(existing.data) {
                    Err(e) => Some(ControlError::InvalidParams(ParamsFault::Codec(e))),
                    Ok(_) => None,
                }
            },
        }
    }

    /// This processor after the token account at `address` has been edited:
    /// the fields given replace the old ones, the balance stays, and the
    /// account is written back as a fresh token account.
    pub open spec fn with_token_edit(
        self,
        address: Pubkey,
        owner: Option<Pubkey>,
        mint: Option<Pubkey>,
        amount: Option<u64>,
    ) -> ProcessorView {
        let existing = self.account(address)->0;
        self.with_account(
            address,
            token_account(
                edited_record(decoded(existing.data)->Ok_0, owner, mint, amount),
                existing.lamports,
            ),
        )
    }

    /// This processor after its clock has been overridden.
    pub open spec fn with_clock_override(
        self,
        slot: u64,
        unix_timestamp: i64,
        epoch: Option<u64>,
    ) -> ProcessorView {
        let tip = self.working();
        self.with_working(
            tip.with_clock(
                overridden_clock(tip.epoch_schedule, tip.clock, slot, unix_timestamp, epoch),
            ),
        )
    }
}

impl View for TestValidatorJsonRpcRequestProcessor {
    type V = ProcessorView;

    open spec fn view(&self) -> ProcessorView {
        ProcessorView {
            poh_recorder: self.poh_recorder,
            bank_forks: self.bank_forks@,
            block_commitment_cache: self.block_commitment_cache,
        }
    }
}

/// Why a new token account cannot be opened, if it cannot: the mint is
/// missing, or else the owner is.
pub open spec fn new_token_fault(mint: Option<Pubkey>, owner: Option<Pubkey>) -> Option<
    ControlError,
> {
    if mint is None {
        Some(ControlError::InvalidParams(ParamsFault::MissingMint))
    } else if owner is None {
        Some(ControlError::InvalidParams(ParamsFault::MissingOwner))
    } else {
        None
    }
}

/// The mint and the owner that a new token account needs, or what is
/// missing: the mint is looked for first.
pub fn require_mint_and_owner<'a>(mint: Option<&'a Pubkey>, owner: Option<&'a Pubkey>) -> (res:
    Result<(&'a Pubkey, &'a Pubkey), ControlError>)
    ensures
        match new_token_fault(copied(mint), copied(owner)) {
            Some(fault) => res is Err && res->Err_0 == fault,
            None => res is Ok && *res->Ok_0.0 == *mint->0 && *res->Ok_0.1 == *owner->0,
        },
{
    let mint = match mint {
        Some(mint) => mint,
        None => {
            return Err(ControlError::InvalidParams(ParamsFault::MissingMint));
        },
    };
    let owner = match owner {
        Some(owner) => owner,
        None => {
            return Err(ControlError::InvalidParams(ParamsFault::MissingOwner));
        },
    };
    Ok((mint, owner))
}

/// The text of the endpoint to ask: the one named, or the default.
pub open spec fn endpoint_text(url: Option<&str>) -> Seq<char> {
    match url {
        Some(named) => named@,
        None => DEFAULT_ENDPOINT@,
    }
}

/// The endpoint to ask: the one named, or the default.
pub fn endpoint_or_default<'a>(url: Option<&'a str>) -> (endpoint: &'a str)
    ensures
        endpoint@ == endpoint_text(url),
{
    match url {
        Some(named) => named,
        None => DEFAULT_ENDPOINT,
    }
}

impl TestValidatorJsonRpcRequestProcessor {
    /// Whether the processor is valid: its fork tree is.
    pub open spec fn wf(&self) -> bool {
        self.bank_forks.wf()
    }

    /// A processor over the three pieces of state it coordinates.
    pub fn new(
        poh_recorder: ClockEngine,
        bank_forks: ForkTree,
        block_commitment_cache: CommitmentTracker,
    ) -> (processor: TestValidatorJsonRpcRequestProcessor)
        requires
            bank_forks.wf(),
        ensures
            processor.wf(),
            processor@ == (ProcessorView {
                poh_recorder,
                bank_forks: bank_forks@,
                block_commitment_cache,
            }),
    {
        TestValidatorJsonRpcRequestProcessor { poh_recorder, bank_forks, block_commitment_cache }
    }

    /// Warps the ledger to `target_slot`.
    ///
    /// A target that is not ahead of the working tip is refused and nothing
    /// changes. Otherwise the clock engine is paused; the bridge snapshot
    /// just below the target is made, by freezing the working tip where it
    /// already sits there and by forking a child of it otherwise; the
    /// root advances to the bridge, which prunes everything else; the requests
    /// that the advance raised are drained, and each one for an epoch accounts
    /// hash is resolved with a hash of its own; a child of the bridge becomes
    /// the working tip at the target; the clock engine is anchored there with
    /// no previous leader and resumed; and every commitment counter is set to
    /// the target.
    pub fn warp_slot_impl(&mut self, target_slot: u64) -> (res: Result<(), ControlError>)
        requires
            old(self).wf(),
        ensures
            final(self).wf(),
            target_slot <= old(self)@.working().slot ==> res is Err && res->Err_0
                == ControlError::InvalidWarpSlot && final(self)@ == old(self)@,
            target_slot > old(self)@.working().slot ==> res is Ok && exists|hash: Digest|
                final(self)@ == old(self)@.warped(target_slot, hash),
            res is Ok ==> final(self)@.working().slot == target_slot && final(self)@.bank_forks.root
                == target_slot - 1 && final(self)@.block_commitment_cache.all_at(target_slot)
                && final(self)@.poh_recorder.tip_slot == target_slot,
    {
        let working_slot = self.bank_forks.working_slot();
        let plan = match plan_warp(working_slot, target_slot) {
            Ok(plan) => plan,
            Err(e) => {
                return Err(e);
            },
        };
        let ghost before = self.bank_forks@;
        let ghost tip = before.working();
        proof {
            self.bank_forks.lemma_wf();
            lemma_working_index(before);
        }
        self.poh_recorder.pause();
        let pre_warp_slot = plan.pre_warp_slot;
        match plan.bridge {
            Bridge::FreezeTip => {
                let frozen = self.bank_forks.freeze(working_slot);
                assert(frozen);
            },
            Bridge::ForkTip => {
                let forked = self.bank_forks.insert_child(working_slot, pre_warp_slot);
                assert(forked is Ok);
            },
        }
        let ghost bridged = self.bank_forks@;
        let ghost made = if pre_warp_slot == tip.slot {
            tip.frozen_now()
        } else {
            tip.forked(pre_warp_slot)
        };
        proof {
            self.bank_forks.lemma_wf();
            assert(bridged.working() == made);
            lemma_working_index(bridged);
            lemma_retained_tip(bridged.snapshots);
        }
        let mut channel = RequestChannel::new();
        let rooted = self.bank_forks.set_root(pre_warp_slot, &mut channel, Some(pre_warp_slot));
        assert(rooted is Ok);
        let ghost pruned = self.bank_forks@;
        let requests = channel.drain();
        proof {
            assert(pruned.snapshots == seq![made]);
            assert(requests@ =~= before.root_requests(pre_warp_slot));
            assert(crate::fork_tree::holds_slot(pruned.snapshots, pre_warp_slot, 0));
            self.bank_forks.lemma_wf();
            lemma_working_index(pruned);
        }
        let used = resolve_requests(&mut self.bank_forks, &requests);
        let ghost hash = if used@.len() > 0 {
            used@[0]
        } else {
            arbitrary()
        };
        let ghost bridge = before.bridge(target_slot, hash);
        let ghost resolved_bridge = self.bank_forks@.working();
        proof {
            lemma_resolved_after_rooting(pruned, before.root, pre_warp_slot, used@);
            assert(self.bank_forks@.snapshots =~= seq![resolved_bridge]);
            assert(resolved_bridge.frozen_now() == bridge);
            self.bank_forks.lemma_wf();
            lemma_working_index(self.bank_forks@);
        }
        let tipped = self.bank_forks.insert_child(pre_warp_slot, target_slot);
        assert(tipped is Ok);
        proof {
            assert(resolved_bridge.forked(target_slot) == bridge.forked(target_slot));
            assert(self.bank_forks@.snapshots =~= seq![bridge, bridge.forked(target_slot)]);
        }
        self.poh_recorder.reset(target_slot, None);
        self.poh_recorder.resume();
        self.block_commitment_cache.set_all_slots(target_slot, target_slot);
        assert(self@ == old(self)@.warped(target_slot, hash));
        Ok(())
    }

    /// The account at `address` in the working snapshot, if there is one.
    pub fn get_account(&self, address: &Pubkey) -> (found: Option<&AccountRecord>)
        requires
            self.wf(),
        ensures
            found is Some <==> self@.account(*address) is Some,
            found matches Some(record) ==> Some(record@) == self@.account(*address),
    {
        self.bank_forks.working().get_account(address)
    }

    /// Overwrites the account at `address` in the working snapshot with
    /// `account`, creating it if it is absent. Nothing about the previous
    /// state is checked, and nothing else changes.
    pub fn set_account(&mut self, address: &Pubkey, account: &AccountRecord)
        requires
            old(self).wf(),
        ensures
            final(self).wf(),
            final(self)@ == old(self)@.with_account(*address, account@),
            final(self)@.account(*address) == Some(account@),
    {
        proof {
            self.bank_forks.lemma_wf();
            lemma_read_after_write(self@, *address, account@, *address);
        }
        self.bank_forks.store_account(address, account.duplicate());
    }

    /// Opens a token account at `address` for `owner` on `mint` in the
    /// working snapshot: initialised, holding `amount` or nothing, funded
    /// with the balance that exempts it from rent and owned by the token
    /// program.
    pub fn create_token_account_at(
        &mut self,
        address: Pubkey,
        mint: &Pubkey,
        owner: &Pubkey,
        amount: Option<u64>,
    ) -> (res: Result<Pubkey, ControlError>)
        requires
            old(self).wf(),
        ensures
            final(self).wf(),
            res is Ok && res->Ok_0 == address,
            final(self)@ == old(self)@.with_new_token_account(address, *mint, *owner, amount),
            final(self)@.account(address) is Some,
            decoded(final(self)@.account(address)->0.data) is Ok,
            decoded(final(self)@.account(address)->0.data)->Ok_0 == fresh_record(
                *mint,
                *owner,
                amount,
            ),
    {
        proof {
            self.bank_forks.lemma_wf();
            lemma_rate_in_range(self@.working().rent_rate, TOKEN_ACCOUNT_LEN);
            lemma_new_token_account_unpacks(self@, address, *mint, *owner, amount);
        }
        let rate = self.bank_forks.working().rent_rate();
        let lamports = minimum_balance_for_rent_exemption(rate, TOKEN_ACCOUNT_LEN);
        let record = new_record(mint, owner, amount);
        match build_token_account(&record, lamports) {
            Ok(account) => {
                self.bank_forks.store_account(&address, account);
                Ok(address)
            },
            Err(e) => Err(ControlError::InvalidParams(ParamsFault::Codec(e))),
        }
    }

    /// Opens a token account at a new address, or edits the one at
    /// `token_account`.
    ///
    /// Without `token_account`, `mint` and `owner` are both needed; the
    /// account is opened at an address that the process has not handed out
    /// before, and that address is returned.
    ///
    /// With `token_account`, the account there must exist, be owned by the
    /// token program and unpack; each of `owner`, `mint` and `amount` that is
    /// given replaces the field of that name, the balance is kept, and the
    /// same address is returned.
    ///
    /// A refused request leaves the state as it was.
    pub fn update_token_account_impl(
        &mut self,
        token_account: Option<&Pubkey>,
        mint: Option<&Pubkey>,
        owner: Option<&Pubkey>,
        amount: Option<u64>,
    ) -> (res: Result<Pubkey, ControlError>)
        requires
            old(self).wf(),
        ensures
            final(self).wf(),
            token_account is None ==> match new_token_fault(copied(mint), copied(owner)) {
                Some(fault) => res is Err && res->Err_0 == fault && final(self)@ == old(self)@,
                None => res is Ok && final(self)@ == old(self)@.with_new_token_account(
                    res->Ok_0,
                    *mint->0,
                    *owner->0,
                    amount,
                ) && final(self)@.account(res->Ok_0) is Some && decoded(
                    final(self)@.account(res->Ok_0)->0.data,
                ) is Ok && decoded(final(self)@.account(res->Ok_0)->0.data)->Ok_0 == fresh_record(
                    *mint->0,
                    *owner->0,
                    amount,
                ),
            },
            token_account matches Some(address) ==> match old(self)@.token_edit_fault(*address) {
                Some(fault) => res is Err && res->Err_0 == fault && final(self)@ == old(self)@,
                None => res is Ok && res->Ok_0 == *address && final(self)@
                    == old(self)@.with_token_edit(*address, copied(owner), copied(mint), amount),
            },
    {
        let address = match token_account {
            Some(address) => address,
            None => {
                let (mint, owner) = match require_mint_and_owner(mint, owner) {
                    Ok(both) => both,
                    Err(fault) => {
                        return Err(fault);
                    },
                };
                return self.create_token_account_at(Pubkey::new_unique(), mint, owner, amount);
            },
        };
        let existing = match self.bank_forks.working().get_account(address) {
            Some(existing) => existing,
            None => {
                return Err(ControlError::InvalidParams(ParamsFault::AccountNotFound(*address)));
            },
        };
        if !existing.owner.same(&token_program_id()) {
            return Err(ControlError::NotATokenAccount(*address));
        }
        let mut record = match unpack_record(existing.data.as_slice()) {
            Ok(record) => record,
            Err(e) => {
                return Err(ControlError::InvalidParams(ParamsFault::Codec(e)));
            },
        };
        let lamports = existing.lamports;
        edit_record(&mut record, owner, mint, amount);
        match build_token_account(&record, lamports) {
            Ok(account) => {
                self.bank_forks.store_account(address, account);
                Ok(*address)
            },
            Err(e) => Err(ControlError::InvalidParams(ParamsFault::Codec(e))),
        }
    }

    /// Installs an account fetched from a remote ledger at `address` in the
    /// working snapshot, every field as it was fetched. `fetched` is what the
    /// query at the endpoint gave: the account, or the cause of the failure,
    /// which is reported with the endpoint and leaves the state untouched.
    pub fn clone_account_from_cluster_impl(
        &mut self,
        address: &Pubkey,
        url: Option<&str>,
        fetched: Result<AccountRecord, String>,
    ) -> (res: Result<(), ControlError>)
        requires
            old(self).wf(),
        ensures
            final(self).wf(),
            fetched matches Ok(account) ==> res is Ok && final(self)@ == old(self)@.with_account(
                *address,
                account@,
            ),
            fetched matches Err(cause) ==> final(self)@ == old(self)@ && (res matches Err(
                ControlError::RemoteFetch { endpoint, cause: reported },
            ) && reported == cause && endpoint@ == endpoint_text(url)),
    {
        match fetched {
            Ok(account) => {
                self.bank_forks.store_account(address, account);
                Ok(())
            },
            Err(cause) => {
                let endpoint = endpoint_or_default(url).to_string();
                Err(ControlError::RemoteFetch { endpoint, cause })
            },
        }
    }

    /// Replaces the clock record of the working snapshot. The epoch is the
    /// one given, or the epoch of `slot`; the leader-schedule epoch is that
    /// of `slot`; the epoch start is `unix_timestamp` where `slot` is the
    /// first slot of the epoch, and is carried from the previous record
    /// otherwise.
    pub fn set_clock_impl(&mut self, slot: u64, unix_timestamp: i64, epoch: Option<u64>)
        requires
            old(self).wf(),
        ensures
            final(self).wf(),
            final(self)@ == old(self)@.with_clock_override(slot, unix_timestamp, epoch),
            final(self)@.working().clock == overridden_clock(
                old(self)@.working().epoch_schedule,
                old(self)@.working().clock,
                slot,
                unix_timestamp,
                epoch,
            ),
    {
        proof {
            self.bank_forks.lemma_wf();
        }
        let tip = self.bank_forks.working();
        let schedule = tip.epoch_schedule();
        let previous = tip.clock();
        let clock = override_clock(&schedule, &previous, slot, unix_timestamp, epoch);
        self.bank_forks.set_clock(clock);
    }
}

/// Resolving the requests that a root advance to `slot` raised, in a tree
/// that holds the snapshot at `slot` alone, declares the first hash valid
/// for that snapshot where the advance asked for an epoch accounts hash, and
/// changes nothing otherwise.
proof fn lemma_resolved_after_rooting(
    tree: ForkTreeView,
    old_root: u64,
    slot: u64,
    hashes: Seq<Digest>,
)
    requires
        tree.snapshots.len() == 1,
        tree.snapshots[0].slot == slot,
        hashes.len() == crate::warp::inline_count(
            (ForkTreeView { root: old_root, ..tree }).root_requests(slot),
        ),
    ensures
        resolved(tree, (ForkTreeView { root: old_root, ..tree }).root_requests(slot), hashes)
            == if tree.announces_epoch_hash && slot > old_root {
            ForkTreeView {
                snapshots: seq![tree.snapshots[0].with_valid_hash(hashes[0], slot)],
                ..tree
            }
        } else {
            tree
        },
        tree.announces_epoch_hash && slot > old_root ==> hashes.len() == 1,
{
    let requests = (ForkTreeView { root: old_root, ..tree }).root_requests(slot);
    let ask_hash = SnapshotRequest { kind: SnapshotRequestKind::EpochAccountsHash, root_slot: slot };
    let ask_write = SnapshotRequest { kind: SnapshotRequestKind::Snapshot, root_slot: slot };
    let none = Seq::<SnapshotRequest>::empty();
    assert(crate::fork_tree::holds_slot(tree.snapshots, slot, 0));
    reveal_with_fuel(resolved, 3);
    reveal_with_fuel(crate::warp::inline_count, 3);
    if slot > old_root {
        if tree.announces_epoch_hash {
            if tree.announces_snapshot {
                assert(requests =~= seq![ask_hash, ask_write]);
                assert(requests.drop_last() =~= seq![ask_hash]);
                assert(requests.drop_last().drop_last() =~= none);
                assert(hashes.len() == 1);
                assert(hashes.last() == hashes[0]);
            } else {
                assert(requests =~= seq![ask_hash]);
                assert(requests.drop_last() =~= none);
                assert(hashes.len() == 1);
                assert(hashes.last() == hashes[0]);
            }
            assert(tree.marked(slot, hashes[0]).snapshots =~= seq![
                tree.snapshots[0].with_valid_hash(hashes[0], slot),
            ]);
        } else {
            if tree.announces_snapshot {
                assert(requests =~= seq![ask_write]);
                assert(requests.drop_last() =~= none);
            } else {
                assert(requests =~= none);
            }
        }
    } else {
        assert(requests =~= none);
    }
}

/// A warp that goes ahead ends with the working tip at the target, the root
/// just below it, the bridge and the tip as the only snapshots, the clock
/// engine ticking and anchored at the target, and every commitment counter at
/// the target, which so counts as fully committed.
pub proof fn lemma_warp_reaches_target(before: ProcessorView, target_slot: u64, hash: Digest)
    requires
        before.bank_forks.valid(),
        target_slot > before.working().slot,
    ensures
        before.warped(target_slot, hash).working().slot == target_slot,
        before.warped(target_slot, hash).bank_forks.root == target_slot - 1,
        before.warped(target_slot, hash).bank_forks.snapshots.len() == 2,
        before.warped(target_slot, hash).bank_forks.valid(),
        before.warped(target_slot, hash).poh_recorder.ticking,
        before.warped(target_slot, hash).poh_recorder.tip_slot == target_slot,
        before.warped(target_slot, hash).poh_recorder.previous_leader_slot is None,
        before.warped(target_slot, hash).block_commitment_cache.all_at(target_slot),
        before.warped(target_slot, hash).block_commitment_cache.fully_committed(target_slot),
{
    let after = before.warped(target_slot, hash).bank_forks;
    assert(crate::fork_tree::links(after.snapshots, 1, 0));
    assert(crate::fork_tree::parent_precedes(after.snapshots, 1));
}

/// A warp by one slot makes no new bridge: the working tip itself, frozen,
/// becomes the root, with its accounts, its clock and its parent as they
/// were.
pub proof fn lemma_adjacent_warp_reuses_tip(before: ProcessorView, target_slot: u64, hash: Digest)
    requires
        before.bank_forks.valid(),
        target_slot == before.working().slot + 1,
    ensures
        before.bank_forks.bridge(target_slot, hash).slot == before.working().slot,
        before.bank_forks.bridge(target_slot, hash).parent_slot == before.working().parent_slot,
        before.bank_forks.bridge(target_slot, hash).accounts == before.working().accounts,
        before.bank_forks.bridge(target_slot, hash).clock == before.working().clock,
        before.bank_forks.bridge(target_slot, hash).frozen,
{
}

/// A write followed by a read of the same address finds exactly what was
/// written, and a read of any other address finds what it found before.
pub proof fn lemma_read_after_write(
    before: ProcessorView,
    address: Pubkey,
    record: AccountView,
    other: Pubkey,
)
    requires
        before.bank_forks.valid(),
    ensures
        before.with_account(address, record).account(address) == Some(record),
        other != address ==> before.with_account(address, record).account(other) == before.account(
            other,
        ),
        before.with_account(address, record).working() == before.working().with_account(
            address,
            record,
        ),
{
}

/// A token account opened for `owner` on `mint` unpacks to exactly that:
/// the mint, the owner, the amount asked for or zero, initialised, with
/// every optional field empty; and the token program owns it.
pub proof fn lemma_new_token_account_unpacks(
    before: ProcessorView,
    address: Pubkey,
    mint: Pubkey,
    owner: Pubkey,
    amount: Option<u64>,
)
    requires
        before.bank_forks.valid(),
    ensures
        before.with_new_token_account(address, mint, owner, amount).account(address) is Some,
        before.with_new_token_account(address, mint, owner, amount).account(address)->0.owner
            == token_program_key(),
        decoded(
            before.with_new_token_account(address, mint, owner, amount).account(address)->0.data,
        ) is Ok,
        decoded(
            before.with_new_token_account(address, mint, owner, amount).account(address)->0.data,
        )->Ok_0 == fresh_record(mint, owner, amount),
        amount is None ==> fresh_record(mint, owner, amount).amount == 0,
{
    let record = fresh_record(mint, owner, amount);
    let stored = token_account(record, exempt_balance(before.working().rent_rate, TOKEN_ACCOUNT_LEN));
    lemma_read_after_write(before, address, stored, address);
    crate::token::lemma_decoded_encoded(record);
}

/// An edit of an account that the token program does not own is refused as
/// not a token account, whatever its data holds.
pub proof fn lemma_foreign_account_refused(before: ProcessorView, address: Pubkey)
    requires
        before.account(address) is Some,
        before.account(address)->0.owner != token_program_key(),
    ensures
        before.token_edit_fault(address) == Some(ControlError::NotATokenAccount(address)),
{
}

} // verus!
