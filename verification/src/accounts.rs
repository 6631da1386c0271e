use vstd::prelude::*;
use crate::address::Address;
use crate::bytes::copy_bytes;

verus! {

/// The state of one account as the replay bank holds it.
#[derive(Debug)]
pub struct AccountState {
    pub lamports: u64,
    pub data: Vec<u8>,
    pub owner: Address,
    pub executable: bool,
    pub rent_epoch: u64,
}

/// The mathematical value of an `AccountState`.
#[verifier::ext_equal]
pub struct AccountView {
    pub lamports: u64,
    pub data: Seq<u8>,
    pub owner: Seq<u8>,
    pub executable: bool,
    pub rent_epoch: u64,
}

impl View for AccountState {
    type V = AccountView;

    open spec fn view(&self) -> AccountView {
        AccountView {
            lamports: self.lamports,
            data: self.data@,
            owner: self.owner@,
            executable: self.executable,
            rent_epoch: self.rent_epoch,
        }
    }
}

impl AccountState {
    /// An account with no lamports, no data, the system program as owner
    /// (the all-zero address), not executable and rent epoch 0.
    pub fn empty() -> (r: AccountState)
        ensures
            r@ == (AccountView {
                lamports: 0,
                data: Seq::empty(),
                owner: Seq::new(32, |i: int| 0u8),
                executable: false,
                rent_epoch: 0,
            }),
    {
        AccountState {
            lamports: 0,
            data: Vec::new(),
            owner: Address::zeroed(),
            executable: false,
            rent_epoch: 0,
        }
    }

    /// A copy of this account.
    pub fn duplicate(&self) -> (r: AccountState)
        ensures
            r@ == self@,
    {
        AccountState {
            lamports: self.lamports,
            data: copy_bytes(self.data.as_slice()),
            owner: self.owner,
            executable: self.executable,
            rent_epoch: self.rent_epoch,
        }
    }
}

/// The accounts of the replay bank, keyed by address; no address occurs twice.
pub struct AccountStore {
    entries: Vec<(Address, AccountState)>,
}

/// The position of the entry for `key`, when there is one.
pub open spec fn entry_index(entries: Seq<(Address, AccountState)>, key: Seq<u8>) -> int {
    choose|i: int| 0 <= i < entries.len() && entries[i].0@ == key
}

/// The map that a list of entries with distinct keys stands for.
pub open spec fn entries_map(entries: Seq<(Address, AccountState)>) -> Map<Seq<u8>, AccountView> {
    Map::new(
        |k: Seq<u8>| exists|i: int| 0 <= i < entries.len() && entries[i].0@ == k,
        |k: Seq<u8>| entries[entry_index(entries, k)].1@,
    )
}

/// No key occurs twice among the entries.
pub open spec fn keys_distinct(entries: Seq<(Address, AccountState)>) -> bool {
    forall|i: int, j: int|
        0 <= i < entries.len() && 0 <= j < entries.len() && i != j
            ==> (#[trigger] entries[i]).0@ != (#[trigger] entries[j]).0@
}

proof fn lemma_entry_index(entries: Seq<(Address, AccountState)>, i: int)
    requires
        keys_distinct(entries),
        0 <= i < entries.len(),
    ensures
        entry_index(entries, entries[i].0@) == i,
        entries_map(entries).contains_key(entries[i].0@),
        entries_map(entries)[entries[i].0@] == entries[i].1@,
{
    let k = entries[i].0@;
    assert(exists|j: int| 0 <= j < entries.len() && entries[j].0@ == k);
    let j = entry_index(entries, k);
    assert(entries[j].0@ == k);
}

impl View for AccountStore {
    type V = Map<Seq<u8>, AccountView>;

    closed spec fn view(&self) -> Map<Seq<u8>, AccountView> {
        entries_map(self.entries@)
    }
}

impl AccountStore {
    /// The store's internal invariant: each address has at most one entry.
    pub closed spec fn wf(&self) -> bool {
        keys_distinct(self.entries@)
    }

    /// An empty store.
    pub fn new() -> (r: AccountStore)
        ensures
            r.wf(),
            r@ == Map::<Seq<u8>, AccountView>::empty(),
    {
        let r = AccountStore { entries: Vec::new() };
        assert(r@ =~= Map::<Seq<u8>, AccountView>::empty());
        r
    }

    /// The number of accounts held.
    pub fn len(&self) -> (r: usize)
        requires
            self.wf(),
        ensures
            r == self@.len(),
    {
        proof {
            self.lemma_len();
        }
        self.entries.len()
    }

    proof fn lemma_len(&self)
        requires
            self.wf(),
        ensures
            self@.dom().finite(),
            self@.len() == self.entries@.len(),
        decreases self.entries@.len(),
    {
        let e = self.entries@;
        let keys = Seq::new(e.len(), |i: int| e[i].0@);
        assert(self@.dom() =~= keys.to_set()) by {
            assert forall|k: Seq<u8>| self@.dom().contains(k) implies keys.to_set().contains(k) by {
                let i = choose|i: int| 0 <= i < e.len() && e[i].0@ == k;
                assert(keys[i] == k);
            }
            assert forall|k: Seq<u8>| keys.to_set().contains(k) implies self@.dom().contains(k) by {
                let i = choose|i: int| 0 <= i < keys.len() && keys[i] == k;
                assert(e[i].0@ == k);
            }
        }
        assert(keys.no_duplicates());
        keys.unique_seq_to_set();
    }

    fn find(&self, key: &Address) -> (r: Option<usize>)
        requires
            self.wf(),
        ensures
            r matches Some(i) ==> i < self.entries@.len() && self.entries@[i as int].0@ == key@,
            r is None ==> !self@.contains_key(key@),
    {
        let mut i: usize = 0;
        while i < self.entries.len()
            invariant
                i <= self.entries@.len(),
                forall|j: int| 0 <= j < i ==> self.entries@[j].0@ != key@,
            decreases self.entries@.len() - i,
        {
            if self.entries[i].0 == *key {
                return Some(i);
            }
            i = i + 1;
        }
        None
    }

    /// Whether the store holds an account at `key`.
    pub fn contains(&self, key: &Address) -> (r: bool)
        requires
            self.wf(),
        ensures
            r == self@.contains_key(key@),
    {
        match self.find(key) {
            Some(i) => {
                proof {
                    lemma_entry_index(self.entries@, i as int);
                }
                true
            },
            None => false,
        }
    }

    /// The account at `key`, if any.
    pub fn get(&self, key: &Address) -> (r: Option<&AccountState>)
        requires
            self.wf(),
        ensures
            r is Some <==> self@.contains_key(key@),
            r matches Some(a) ==> a@ == self@[key@],
    {
        match self.find(key) {
            Some(i) => {
                proof {
                    lemma_entry_index(self.entries@, i as int);
                }
                Some(&self.entries[i].1)
            },
            None => None,
        }
    }

    /// Stores `account` at `key`, replacing any account held there.
    pub fn insert(&mut self, key: Address, account: AccountState)
        requires
            old(self).wf(),
        ensures
            final(self).wf(),
            final(self)@ == old(self)@.insert(key@, account@),
    {
        let ghost old_entries = self.entries@;
        let ghost account_view = account@;
        match self.find(&key) {
            Some(i) => {
                self.entries.set(i, (key, account));
                proof {
                    let e = self.entries@;
                    assert(e =~= old_entries.update(i as int, e[i as int]));
                    assert(keys_distinct(e));
                    lemma_entry_index(e, i as int);
                    assert forall|k: Seq<u8>| #[trigger] entries_map(e).contains_key(k)
                        == entries_map(old_entries).insert(key@, account_view).contains_key(k) by {
                        if exists|j: int| 0 <= j < old_entries.len() && old_entries[j].0@ == k {
                            let j = choose|j: int| 0 <= j < old_entries.len() && old_entries[j].0@ == k;
                            if j != i {
                                assert(e[j].0@ == k);
                            }
                        }
                        if exists|j: int| 0 <= j < e.len() && e[j].0@ == k {
                            let j = choose|j: int| 0 <= j < e.len() && e[j].0@ == k;
                            if j != i {
                                assert(old_entries[j].0@ == k);
                            }
                        }
                    }
                    assert forall|k: Seq<u8>| #[trigger] entries_map(e).contains_key(k) && k != key@
                        implies entries_map(e)[k] == entries_map(old_entries)[k] by {
                        let j = choose|j: int| 0 <= j < e.len() && e[j].0@ == k;
                        assert(j != i);
                        lemma_entry_index(e, j);
                        assert(old_entries[j].0@ == k);
                        lemma_entry_index(old_entries, j);
                    }
                    assert(entries_map(e) =~= entries_map(old_entries).insert(key@, account_view));
                }
            },
            None => {
                self.entries.push((key, account));
                proof {
                    let e = self.entries@;
                    let n = old_entries.len() as int;
                    assert(e =~= old_entries.push(e[n]));
                    assert(keys_distinct(e));
                    lemma_entry_index(e, n);
                    assert forall|k: Seq<u8>| #[trigger] entries_map(e).contains_key(k)
                        == entries_map(old_entries).insert(key@, account_view).contains_key(k) by {
                        if exists|j: int| 0 <= j < old_entries.len() && old_entries[j].0@ == k {
                            let j = choose|j: int| 0 <= j < old_entries.len() && old_entries[j].0@ == k;
                            assert(e[j].0@ == k);
                        }
                    }
                    assert forall|k: Seq<u8>| #[trigger] entries_map(e).contains_key(k) && k != key@
                        implies entries_map(e)[k] == entries_map(old_entries)[k] by {
                        let j = choose|j: int| 0 <= j < e.len() && e[j].0@ == k;
                        assert(j != n);
                        lemma_entry_index(e, j);
                        lemma_entry_index(old_entries, j);
                    }
                    assert(entries_map(e) =~= entries_map(old_entries).insert(key@, account_view));
                }
            },
        }
    }
}

/// Reading an address back after writing it gives what was written; the
/// write leaves every other address as it was.
pub proof fn lemma_read_after_write(before: Map<Seq<u8>, AccountView>, key: Seq<u8>, account: AccountView, other: Seq<u8>)
    requires
        other != key,
    ensures
        before.insert(key, account).contains_key(key),
        before.insert(key, account)[key] == account,
        before.insert(key, account).contains_key(other) == before.contains_key(other),
        before.contains_key(other) ==> before.insert(key, account)[other] == before[other],
{
}

/// Writing an address grows the store by one account exactly when the
/// address held none.
pub proof fn lemma_write_len(before: Map<Seq<u8>, AccountView>, key: Seq<u8>, account: AccountView)
    requires
        before.dom().finite(),
    ensures
        before.insert(key, account).len() == before.len() + (if before.contains_key(key) { 0int } else { 1int }),
{
    assert(before.insert(key, account).dom() =~= before.dom().insert(key));
}

} // verus!
