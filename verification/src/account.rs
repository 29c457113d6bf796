//! Account records and the store that a snapshot keeps them in.

use crate::keys::Pubkey;
use vstd::prelude::*;

verus! {

/// One account: who owns it, what it holds and what it is worth.
#[derive(Debug, PartialEq, Eq)]
pub struct AccountRecord {
    /// Balance in lamports.
    pub lamports: u64,
    /// The account's data.
    pub data: Vec<u8>,
    /// The program that owns the account.
    pub owner: Pubkey,
    /// Whether the data is a loaded program.
    pub executable: bool,
    /// The epoch at which the account next owes rent.
    pub rent_epoch: u64,
}

/// The mathematical value of an account record.
pub struct AccountView {
    pub lamports: u64,
    pub data: Seq<u8>,
    pub owner: Pubkey,
    pub executable: bool,
    pub rent_epoch: u64,
}

impl View for AccountRecord {
    type V = AccountView;

    open spec fn view(&self) -> AccountView {
        AccountView {
            lamports: self.lamports,
            data: self.data@,
            owner: self.owner,
            executable: self.executable,
            rent_epoch: self.rent_epoch,
        }
    }
}

impl AccountRecord {
    /// An account of `space` zero bytes with the given balance and owner,
    /// not executable, with rent epoch 0.
    pub fn new(lamports: u64, space: usize, owner: &Pubkey) -> (record: AccountRecord)
        ensures
            record@ == (AccountView {
                lamports,
                data: Seq::new(space as nat, |i: int| 0u8),
                owner: *owner,
                executable: false,
                rent_epoch: 0,
            }),
    {
        let data: Vec<u8> = vec![0u8; space];
        assert(data@ =~= Seq::new(space as nat, |i: int| 0u8));
        AccountRecord { lamports, data, owner: *owner, executable: false, rent_epoch: 0 }
    }

    /// A copy with the same value.
    pub fn duplicate(&self) -> (copy: AccountRecord)
        ensures
            copy@ == self@,
    {
        let data = self.data.clone();
        assert(data@ =~= self.data@);
        AccountRecord {
            lamports: self.lamports,
            data,
            owner: self.owner,
            executable: self.executable,
            rent_epoch: self.rent_epoch,
        }
    }

    /// Replaces the data, keeping every other field.
    pub fn set_data(&mut self, data: Vec<u8>)
        ensures
            final(self)@ == (AccountView { data: data@, ..old(self)@ }),
    {
        self.data = data;
    }
}

/// One slot of the store.
struct Entry {
    key: Pubkey,
    record: AccountRecord,
}

/// The keys and values of a run of entries, in order.
spec fn pairs(entries: Seq<Entry>) -> Seq<(Pubkey, AccountView)> {
    Seq::new(entries.len(), |i: int| (entries[i].key, entries[i].record@))
}

/// Whether no key occurs twice.
spec fn distinct(pairs: Seq<(Pubkey, AccountView)>) -> bool {
    forall|i: int, j: int|
        0 <= i < pairs.len() && 0 <= j < pairs.len() && i != j ==> pairs[i].0 != pairs[j].0
}

/// Whether `key` occurs at index `i`.
spec fn holds_at(pairs: Seq<(Pubkey, AccountView)>, key: Pubkey, i: int) -> bool {
    0 <= i < pairs.len() && pairs[i].0 == key
}

/// The map that a run of pairs stands for.
spec fn map_of(pairs: Seq<(Pubkey, AccountView)>) -> Map<Pubkey, AccountView> {
    Map::new(
        |key: Pubkey| exists|i: int| holds_at(pairs, key, i),
        |key: Pubkey| pairs[choose|i: int| holds_at(pairs, key, i)].1,
    )
}

proof fn lemma_map_of_index(pairs: Seq<(Pubkey, AccountView)>, i: int)
    requires
        distinct(pairs),
        0 <= i < pairs.len(),
    ensures
        map_of(pairs).contains_key(pairs[i].0),
        map_of(pairs)[pairs[i].0] == pairs[i].1,
{
    let key = pairs[i].0;
    assert(holds_at(pairs, key, i));
    let j = choose|j: int| holds_at(pairs, key, j);
    assert(j == i);
}

proof fn lemma_map_of_push(pairs: Seq<(Pubkey, AccountView)>, key: Pubkey, value: AccountView)
    requires
        distinct(pairs),
        forall|i: int| !holds_at(pairs, key, i),
    ensures
        distinct(pairs.push((key, value))),
        map_of(pairs.push((key, value))) == map_of(pairs).insert(key, value),
{
    let after = pairs.push((key, value));
    assert(distinct(after)) by {
        assert forall|i: int, j: int|
            0 <= i < after.len() && 0 <= j < after.len() && i != j implies after[i].0
            != after[j].0 by {
            if i < pairs.len() {
                assert(!holds_at(pairs, key, i));
            }
            if j < pairs.len() {
                assert(!holds_at(pairs, key, j));
            }
        }
    }
    assert forall|k: Pubkey| #[trigger]
        map_of(after).contains_key(k) == map_of(pairs).insert(key, value).contains_key(k) by {
        if k == key {
            assert(holds_at(after, k, pairs.len() as int));
        } else if map_of(pairs).contains_key(k) {
            let i = choose|i: int| holds_at(pairs, k, i);
            assert(holds_at(after, k, i));
        } else if map_of(after).contains_key(k) {
            let i = choose|i: int| holds_at(after, k, i);
            assert(holds_at(pairs, k, i));
        }
    }
    assert forall|k: Pubkey| #[trigger] map_of(after).contains_key(k) implies map_of(after)[k]
        == map_of(pairs).insert(key, value)[k] by {
        let i = choose|i: int| holds_at(after, k, i);
        lemma_map_of_index(after, i);
        if k != key {
            assert(holds_at(pairs, k, i));
            lemma_map_of_index(pairs, i);
        } else {
            if i < pairs.len() {
                assert(holds_at(pairs, key, i));
            }
        }
    }
    assert(map_of(after) =~= map_of(pairs).insert(key, value));
}

proof fn lemma_map_of_update(
    pairs: Seq<(Pubkey, AccountView)>,
    at: int,
    value: AccountView,
)
    requires
        distinct(pairs),
        0 <= at < pairs.len(),
    ensures
        distinct(pairs.update(at, (pairs[at].0, value))),
        map_of(pairs.update(at, (pairs[at].0, value))) == map_of(pairs).insert(
            pairs[at].0,
            value,
        ),
{
    let key = pairs[at].0;
    let after = pairs.update(at, (key, value));
    assert(distinct(after)) by {
        assert forall|i: int, j: int|
            0 <= i < after.len() && 0 <= j < after.len() && i != j implies after[i].0
            != after[j].0 by {
            assert(after[i].0 == pairs[i].0);
            assert(after[j].0 == pairs[j].0);
        }
    }
    assert forall|k: Pubkey| #[trigger]
        map_of(after).contains_key(k) == map_of(pairs).insert(key, value).contains_key(k) by {
        if map_of(pairs).contains_key(k) {
            let i = choose|i: int| holds_at(pairs, k, i);
            assert(holds_at(after, k, i));
        }
        if map_of(after).contains_key(k) {
            let i = choose|i: int| holds_at(after, k, i);
            assert(holds_at(pairs, k, i));
        }
        if k == key {
            assert(holds_at(after, k, at));
        }
    }
    assert forall|k: Pubkey| #[trigger] map_of(after).contains_key(k) implies map_of(after)[k]
        == map_of(pairs).insert(key, value)[k] by {
        let i = choose|i: int| holds_at(after, k, i);
        lemma_map_of_index(after, i);
        assert(holds_at(pairs, k, i));
        lemma_map_of_index(pairs, i);
        if k == key {
            assert(i == at);
        }
    }
    assert(map_of(after) =~= map_of(pairs).insert(key, value));
}

/// The accounts of one snapshot, by address.
pub struct AccountStore {
    entries: Vec<Entry>,
}

impl View for AccountStore {
    type V = Map<Pubkey, AccountView>;

    closed spec fn view(&self) -> Map<Pubkey, AccountView> {
        map_of(pairs(self.entries@))
    }
}

impl AccountStore {
    /// Whether the store is valid: no address is held twice.
    pub closed spec fn wf(&self) -> bool {
        distinct(pairs(self.entries@))
    }

    /// A store with no accounts.
    pub fn new() -> (store: AccountStore)
        ensures
            store.wf(),
            store@ == Map::<Pubkey, AccountView>::empty(),
    {
        let store = AccountStore { entries: Vec::new() };
        assert(store@ =~= Map::<Pubkey, AccountView>::empty()) by {
            assert forall|k: Pubkey| !(#[trigger] store@.contains_key(k)) by {
                if store@.contains_key(k) {
                    let i = choose|i: int| holds_at(pairs(store.entries@), k, i);
                    assert(holds_at(pairs(store.entries@), k, i));
                }
            }
        }
        store
    }

    /// Where `address` is held, if anywhere.
    fn position(&self, address: &Pubkey) -> (found: Option<usize>)
        ensures
            match found {
                Some(i) => holds_at(pairs(self.entries@), *address, i as int),
                None => forall|i: int| !holds_at(pairs(self.entries@), *address, i),
            },
    {
        let mut i: usize = 0;
        while i < self.entries.len()
            invariant
                i <= self.entries.len(),
                forall|j: int| 0 <= j < i ==> !holds_at(pairs(self.entries@), *address, j),
            decreases self.entries.len() - i,
        {
            if self.entries[i].key.same(address) {
                return Some(i);
            }
            i += 1;
        }
        None
    }

    /// The account at `address`, if there is one.
    pub fn get(&self, address: &Pubkey) -> (found: Option<&AccountRecord>)
        requires
            self.wf(),
        ensures
            match found {
                Some(record) => self@.contains_key(*address) && record@ == self@[*address],
                None => !self@.contains_key(*address),
            },
    {
        match self.position(address) {
            Some(i) => {
                proof {
                    lemma_map_of_index(pairs(self.entries@), i as int);
                }
                Some(&self.entries[i].record)
            },
            None => None,
        }
    }

    /// Writes `record` at `address`, replacing what was there.
    pub fn put(&mut self, address: &Pubkey, record: AccountRecord)
        requires
            old(self).wf(),
        ensures
            final(self).wf(),
            final(self)@ == old(self)@.insert(*address, record@),
    {
        let ghost before = pairs(self.entries@);
        match self.position(address) {
            Some(i) => {
                proof {
                    lemma_map_of_update(before, i as int, record@);
                }
                self.entries.set(i, Entry { key: *address, record });
                assert(pairs(self.entries@) =~= before.update(i as int, (*address, record@)));
            },
            None => {
                proof {
                    lemma_map_of_push(before, *address, record@);
                }
                self.entries.push(Entry { key: *address, record });
                assert(pairs(self.entries@) =~= before.push((*address, record@)));
            },
        }
    }

    /// A copy that holds the same accounts.
    pub fn duplicate(&self) -> (copy: AccountStore)
        requires
            self.wf(),
        ensures
            copy.wf(),
            copy@ == self@,
    {
        let mut entries: Vec<Entry> = Vec::new();
        let mut i: usize = 0;
        while i < self.entries.len()
            invariant
                i <= self.entries.len(),
                entries@.len() == i,
                forall|j: int|
                    0 <= j < i ==> entries@[j].key == self.entries@[j].key && entries@[j].record@
                        == self.entries@[j].record@,
            decreases self.entries.len() - i,
        {
            let entry = &self.entries[i];
            entries.push(Entry { key: entry.key, record: entry.record.duplicate() });
            i += 1;
        }
        assert(pairs(entries@) =~= pairs(self.entries@));
        AccountStore { entries }
    }
}

} // verus!
