//! State overrides for simulating calls on top of a pending transaction: the
//! state diff that tracing the transaction reports, and the overrides built
//! from it.

use vstd::prelude::*;
use crate::address::Address;
use crate::uint::U256;

verus! {

/// A 32-byte storage slot or word.
#[derive(Clone, Copy, Debug)]
pub struct H256 {
    pub bytes: [u8; 32],
}

impl View for H256 {
    type V = Seq<u8>;

    open spec fn view(&self) -> Seq<u8> {
        self.bytes@
    }
}

impl H256 {
    /// Whether two words are the same.
    pub fn same(&self, other: &H256) -> (r: bool)
        ensures
            r == (self@ == other@),
    {
        let mut i: usize = 0;
        while i < 32
            invariant
                i <= 32,
                self@.len() == 32,
                other@.len() == 32,
                forall|j: int| 0 <= j < i ==> self@[j] == other@[j],
            decreases 32 - i,
        {
            if self.bytes[i] != other.bytes[i] {
                return false;
            }
            i = i + 1;
        }
        assert(self@ =~= other@);
        true
    }
}

/// A value before and after a transaction.
#[derive(Clone, Debug)]
pub struct ChangedType<T> {
    pub from: T,
    pub to: T,
}

/// How a transaction changed a value.
#[derive(Clone, Debug)]
pub enum Diff<T> {
    Same,
    Born(T),
    Died(T),
    Changed(ChangedType<T>),
}

/// The value after the transaction, if it has one and it changed: a value
/// born or changed; none when it stayed the same or died.
pub open spec fn spec_get_diff<T>(diff: Diff<T>) -> Option<T> {
    match diff {
        Diff::Same => None,
        Diff::Born(t) => Some(t),
        Diff::Died(_) => None,
        Diff::Changed(c) => Some(c.to),
    }
}

/// The new value of a changed value (see `spec_get_diff`).
pub fn get_diff<T>(diff: Diff<T>) -> (r: Option<T>)
    ensures
        r == spec_get_diff(diff),
{
    match diff {
        Diff::Same => None,
        Diff::Born(t) => Some(t),
        Diff::Died(_) => None,
        Diff::Changed(changed) => Some(changed.to),
    }
}

/// How a transaction changed one account.
pub struct AccountDiff {
    pub balance: Diff<U256>,
    pub nonce: Diff<U256>,
    pub code: Diff<Vec<u8>>,
    pub storage: Vec<(H256, Diff<H256>)>,
}

/// How a transaction changed each account it touched, one entry per account.
pub struct StateDiff {
    pub accounts: Vec<(Address, AccountDiff)>,
}

/// The overrides for one account; storage overrides apply on top of the
/// account's existing storage.
pub struct Account {
    pub nonce: Option<u64>,
    pub balance: Option<U256>,
    pub code: Option<Vec<u8>>,
    pub storage: Option<Vec<(H256, H256)>>,
}

/// What an account override says.
pub struct AccountView {
    pub nonce: Option<nat>,
    pub balance: Option<nat>,
    pub code: Option<Seq<u8>>,
    pub storage: Option<Map<Seq<u8>, Seq<u8>>>,
}

/// The slot words of a storage override, as bytes.
pub open spec fn slot_keys(s: Seq<(H256, H256)>) -> Seq<Seq<u8>> {
    s.map_values(|e: (H256, H256)| e.0@)
}

/// A storage override as a map from slot to word.
pub open spec fn storage_map(s: Seq<(H256, H256)>) -> Map<Seq<u8>, Seq<u8>> {
    Map::new(
        |k: Seq<u8>| slot_keys(s).contains(k),
        |k: Seq<u8>| s[slot_keys(s).index_of(k)].1@,
    )
}

impl Account {
    /// An account with nothing overridden.
    pub open spec fn empty_view() -> AccountView {
        AccountView { nonce: None, balance: None, code: None, storage: None }
    }

    /// No slot twice in the storage override.
    pub open spec fn wf(&self) -> bool {
        self.storage matches Some(s) ==> slot_keys(s@).no_duplicates()
    }

    pub open spec fn view(&self) -> AccountView {
        AccountView {
            nonce: match self.nonce {
                Some(n) => Some(n as nat),
                None => None,
            },
            balance: match self.balance {
                Some(b) => Some(b.value()),
                None => None,
            },
            code: match &self.code {
                Some(c) => Some(c@),
                None => None,
            },
            storage: match &self.storage {
                Some(s) => Some(storage_map(s@)),
                None => None,
            },
        }
    }

    /// An account with nothing overridden.
    pub fn new() -> (r: Account)
        ensures
            r.wf(),
            r.view() == Account::empty_view(),
    {
        Account { nonce: None, balance: None, code: None, storage: None }
    }

    /// Override the word at storage slot `key` (`Account::store`).
    pub fn store(&mut self, key: H256, val: H256)
        requires
            old(self).wf(),
        ensures
            final(self).wf(),
            final(self).view() == (AccountView {
                storage: Some(
                    match old(self).view().storage {
                        Some(m) => m,
                        None => Map::empty(),
                    }.insert(key@, val@),
                ),
                ..old(self).view()
            }),
    {
        let mut s = match self.storage.take() {
            Some(s) => s,
            None => Vec::new(),
        };
        let ghost s0 = s@;
        let ghost m0 = storage_map(s0);
        assert(old(self).storage is None ==> m0 =~= Map::<Seq<u8>, Seq<u8>>::empty());
        let mut i: usize = 0;
        let mut found: Option<usize> = None;
        while i < s.len()
            invariant
                s@ == s0,
                i <= s.len(),
                found is None ==> forall|j: int| 0 <= j < i ==> slot_keys(s0)[j] != key@,
                found matches Some(f) ==> f < s.len() && slot_keys(s0)[f as int] == key@,
            decreases s.len() - i,
        {
            if found.is_none() && s[i].0.same(&key) {
                found = Some(i);
            }
            i = i + 1;
        }
        match found {
            Some(f) => {
                let mut e = (key, val);
                s.set_and_swap(f, &mut e);
                proof {
                    assert(slot_keys(s@) =~= slot_keys(s0));
                    let m1 = storage_map(s@);
                    assert forall|k: Seq<u8>| #[trigger] m1.contains_key(k) implies m1[k] == m0.insert(key@, val@)[k] by {
                        let j = slot_keys(s0).index_of(k);
                        assert(slot_keys(s0)[j] == k);
                        if j == f {
                        } else {
                            assert(k != key@);
                        }
                    }
                    assert(m1 =~= m0.insert(key@, val@));
                }
            },
            None => {
                s.push((key, val));
                proof {
                    let n = s0.len() as int;
                    assert(slot_keys(s@) =~= slot_keys(s0).push(key@));
                    let m1 = storage_map(s@);
                    assert forall|k: Seq<u8>| m1.contains_key(k) <==> m0.insert(key@, val@).contains_key(k) by {
                        if slot_keys(s0).contains(k) {
                            let j = slot_keys(s0).index_of(k);
                            assert(slot_keys(s@)[j] == k);
                        }
                        if k == key@ {
                            assert(slot_keys(s@)[n] == k);
                        }
                        if slot_keys(s@).contains(k) && k != key@ {
                            let j = slot_keys(s@).index_of(k);
                            assert(slot_keys(s0)[j] == k);
                        }
                    }
                    assert forall|k: Seq<u8>| #[trigger] m1.contains_key(k) implies m1[k] == m0.insert(key@, val@)[k] by {
                        let j = slot_keys(s@).index_of(k);
                        assert(slot_keys(s@)[j] == k);
                        if j < n {
                            assert(slot_keys(s0)[j] == k);
                            let j0 = slot_keys(s0).index_of(k);
                            assert(slot_keys(s0)[j0] == k);
                            assert(j0 == j);
                        }
                    }
                    assert(m1 =~= m0.insert(key@, val@));
                }
            },
        }
        self.storage = Some(s);
    }
}

/// The storage override after the slot changes `entries`, in order: each slot
/// with a new word gets it.
pub open spec fn apply_storage(
    st: Option<Map<Seq<u8>, Seq<u8>>>,
    entries: Seq<(H256, Diff<H256>)>,
) -> Option<Map<Seq<u8>, Seq<u8>>>
    decreases entries.len(),
{
    if entries.len() == 0 {
        st
    } else {
        let prev = apply_storage(st, entries.drop_last());
        match spec_get_diff(entries.last().1) {
            Some(v) => Some(
                match prev {
                    Some(m) => m,
                    None => Map::empty(),
                }.insert(entries.last().0@, v@),
            ),
            None => prev,
        }
    }
}

/// The override of an account after applying its diff: balance, nonce and
/// code become their new values (none when unchanged or removed), and every
/// storage slot with a new word is overridden with it.
pub open spec fn apply_account(acc: AccountView, ad: AccountDiff) -> AccountView {
    AccountView {
        nonce: match spec_get_diff(ad.nonce) {
            Some(n) => Some(n.value()),
            None => None,
        },
        balance: match spec_get_diff(ad.balance) {
            Some(b) => Some(b.value()),
            None => None,
        },
        code: match spec_get_diff(ad.code) {
            Some(c) => Some(c@),
            None => None,
        },
        storage: apply_storage(acc.storage, ad.storage@),
    }
}

/// The overrides after applying the account diffs `accounts` in order.
pub open spec fn apply_state(
    m: Map<Seq<u8>, AccountView>,
    accounts: Seq<(Address, AccountDiff)>,
) -> Map<Seq<u8>, AccountView>
    decreases accounts.len(),
{
    if accounts.len() == 0 {
        m
    } else {
        let prev = apply_state(m, accounts.drop_last());
        let (a, ad) = accounts.last();
        let before = if prev.contains_key(a@) { prev[a@] } else { Account::empty_view() };
        prev.insert(a@, apply_account(before, ad))
    }
}

/// One more slot change on top of a storage override: a slot that was born
/// or changed is overridden with its new word (the `to` of a change), on top
/// of the override so far (an empty one if there was none); a slot that stayed
/// the same or died leaves the override as it was.
pub proof fn law_storage_entry_sets_new_word(
    st: Option<Map<Seq<u8>, Seq<u8>>>,
    entries: Seq<(H256, Diff<H256>)>,
    slot: H256,
    diff: Diff<H256>,
)
    ensures
        ({
            let before = apply_storage(st, entries);
            let base = match before {
                Some(m) => m,
                None => Map::<Seq<u8>, Seq<u8>>::empty(),
            };
            apply_storage(st, entries.push((slot, diff))) == match diff {
                Diff::Born(word) => Some(base.insert(slot@, word@)),
                Diff::Changed(c) => Some(base.insert(slot@, c.to@)),
                Diff::Same => before,
                Diff::Died(_) => before,
            }
        }),
{
    assert(entries.push((slot, diff)).drop_last() =~= entries);
}

/// Applying an account's diff: a balance, nonce or code that was born or
/// changed becomes the override (the `to` of a change); one that stayed the
/// same or died is not overridden; and the storage override is the prior one
/// with the account's slot changes applied.
pub proof fn law_account_diff_sets_new_values(acc: AccountView, ad: AccountDiff)
    ensures
        apply_account(acc, ad).balance == match ad.balance {
            Diff::Born(b) => Some(b.value()),
            Diff::Changed(c) => Some(c.to.value()),
            Diff::Same => None::<nat>,
            Diff::Died(_) => None::<nat>,
        },
        apply_account(acc, ad).nonce == match ad.nonce {
            Diff::Born(n) => Some(n.value()),
            Diff::Changed(c) => Some(c.to.value()),
            Diff::Same => None::<nat>,
            Diff::Died(_) => None::<nat>,
        },
        apply_account(acc, ad).code == match ad.code {
            Diff::Born(c) => Some(c@),
            Diff::Changed(c) => Some(c.to@),
            Diff::Same => None::<Seq<u8>>,
            Diff::Died(_) => None::<Seq<u8>>,
        },
        apply_account(acc, ad).storage == apply_storage(acc.storage, ad.storage@),
        ad.storage@.len() == 0 ==> apply_account(acc, ad).storage == acc.storage,
{
}

/// Applying one more account diff overrides that account, on top of what was
/// overridden for it so far (nothing, if it had no override), and leaves every
/// other account's override as it was.
pub proof fn law_state_diff_touches_its_account(
    m: Map<Seq<u8>, AccountView>,
    accounts: Seq<(Address, AccountDiff)>,
    a: Address,
    ad: AccountDiff,
    other: Seq<u8>,
)
    ensures
        ({
            let before = apply_state(m, accounts);
            let after = apply_state(m, accounts.push((a, ad)));
            let prior = if before.contains_key(a@) { before[a@] } else { Account::empty_view() };
            &&& after.contains_key(a@)
            &&& after[a@] == apply_account(prior, ad)
            &&& other != a@ ==> (after.contains_key(other) == before.contains_key(other)
                && (before.contains_key(other) ==> after[other] == before[other]))
        }),
{
    assert(accounts.push((a, ad)).drop_last() =~= accounts);
    assert(accounts.push((a, ad)).last() == (a, ad));
}

/// Every nonce that the diffs set fits in 64 bits.
pub open spec fn nonces_fit(accounts: Seq<(Address, AccountDiff)>) -> bool {
    forall|i: int|
        0 <= i < accounts.len() ==> (spec_get_diff((#[trigger] accounts[i]).1.nonce) matches Some(
            n,
        ) ==> n.value() < crate::uint::limb_base())
}

/// Overrides of the state of several accounts (`spoof::State`).
pub struct State {
    pub accounts: Vec<(Address, Account)>,
}

/// The addresses of a state's accounts, as bytes.
pub open spec fn account_keys(s: Seq<(Address, Account)>) -> Seq<Seq<u8>> {
    s.map_values(|e: (Address, Account)| e.0@)
}

impl State {
    /// One entry per account, each well formed.
    pub open spec fn wf(&self) -> bool {
        &&& account_keys(self.accounts@).no_duplicates()
        &&& forall|i: int| 0 <= i < self.accounts.len() ==> (#[trigger] self.accounts[i]).1.wf()
    }

    pub open spec fn view(&self) -> Map<Seq<u8>, AccountView> {
        Map::new(
            |k: Seq<u8>| account_keys(self.accounts@).contains(k),
            |k: Seq<u8>| self.accounts[account_keys(self.accounts@).index_of(k)].1.view(),
        )
    }

    /// No overrides (`spoof::state()`).
    pub fn new() -> (r: State)
        ensures
            r.wf(),
            r.view() == Map::<Seq<u8>, AccountView>::empty(),
    {
        let r = State { accounts: Vec::new() };
        assert(account_keys(r.accounts@) =~= Seq::<Seq<u8>>::empty());
        assert(r.view() =~= Map::<Seq<u8>, AccountView>::empty());
        r
    }

    proof fn lemma_index(&self, i: int)
        requires
            self.wf(),
            0 <= i < self.accounts.len(),
        ensures
            account_keys(self.accounts@).index_of(self.accounts[i].0@) == i,
            self.view().contains_key(self.accounts[i].0@),
            self.view()[self.accounts[i].0@] == self.accounts[i].1.view(),
    {
        let k = self.accounts[i].0@;
        assert(account_keys(self.accounts@)[i] == k);
        let j = account_keys(self.accounts@).index_of(k);
        assert(account_keys(self.accounts@)[j] == k);
    }

    /// The position of an account's overrides, added empty if it had none
    /// (`State::account`).
    fn account_index(&mut self, address: &Address) -> (r: usize)
        requires
            old(self).wf(),
        ensures
            final(self).wf(),
            r < final(self).accounts.len(),
            final(self).accounts[r as int].0@ == address@,
            final(self).view() == (if old(self).view().contains_key(address@) {
                old(self).view()
            } else {
                old(self).view().insert(address@, Account::empty_view())
            }),
    {
        let mut i: usize = 0;
        while i < self.accounts.len()
            invariant
                self.wf(),
                *self == *old(self),
                i <= self.accounts.len(),
                forall|j: int| 0 <= j < i ==> account_keys(self.accounts@)[j] != address@,
            decreases self.accounts.len() - i,
        {
            if self.accounts[i].0.same(address) {
                proof {
                    self.lemma_index(i as int);
                }
                return i;
            }
            i = i + 1;
        }
        let ghost old_keys = account_keys(self.accounts@);
        let ghost n = self.accounts.len() as int;
        assert forall|j: int| 0 <= j < old_keys.len() implies old_keys[j] != address@ by {}
        self.accounts.push((*address, Account::new()));
        proof {
            assert(account_keys(self.accounts@) =~= old_keys.push(address@));
            assert forall|j: int| 0 <= j < self.accounts.len() implies (#[trigger] self.accounts[j]).1.wf() by {
                if j < n {
                    assert(self.accounts[j] == old(self).accounts[j]);
                }
            }
            let m1 = self.view();
            let m0 = old(self).view().insert(address@, Account::empty_view());
            assert forall|k: Seq<u8>| m1.contains_key(k) <==> m0.contains_key(k) by {
                if old_keys.contains(k) {
                    let j = old_keys.index_of(k);
                    assert(account_keys(self.accounts@)[j] == k);
                }
                if k == address@ {
                    assert(account_keys(self.accounts@)[n] == k);
                }
                if account_keys(self.accounts@).contains(k) && k != address@ {
                    let j = account_keys(self.accounts@).index_of(k);
                    assert(old_keys[j] == k);
                }
            }
            assert forall|k: Seq<u8>| #[trigger] m1.contains_key(k) implies m1[k] == m0[k] by {
                let j = account_keys(self.accounts@).index_of(k);
                assert(account_keys(self.accounts@)[j] == k);
                if j < n {
                    old(self).lemma_index(j);
                    assert(self.accounts[j] == old(self).accounts[j]);
                }
            }
            assert(m1 =~= m0);
        }
        (self.accounts.len() - 1) as usize
    }

    /// The balance override of an account, if the state has one.
    pub fn balance_of(&self, address: &Address) -> (r: Option<U256>)
        requires
            self.wf(),
        ensures
            opt_u256(r) == (if self.view().contains_key(address@) {
                self.view()[address@].balance
            } else {
                None
            }),
    {
        let mut i: usize = 0;
        while i < self.accounts.len()
            invariant
                self.wf(),
                i <= self.accounts.len(),
                forall|j: int| 0 <= j < i ==> account_keys(self.accounts@)[j] != address@,
            decreases self.accounts.len() - i,
        {
            if self.accounts[i].0.same(address) {
                proof {
                    self.lemma_index(i as int);
                }
                return self.accounts[i].1.balance;
            }
            i = i + 1;
        }
        assert(!account_keys(self.accounts@).contains(address@));
        None
    }
}

/// An amount as a number, if there is one.
pub open spec fn opt_u256(o: Option<U256>) -> Option<nat> {
    match o {
        Some(v) => Some(v.value()),
        None => None,
    }
}

/// Apply the slot changes of one account diff to an account's overrides.
fn apply_storage_entries(acc: &mut Account, storage: Vec<(H256, Diff<H256>)>)
    requires
        old(acc).wf(),
    ensures
        final(acc).wf(),
        final(acc).view() == (AccountView {
            storage: apply_storage(old(acc).view().storage, storage@),
            ..old(acc).view()
        }),
{
    let ghost all = storage@;
    let n = storage.len();
    let mut rest = storage;
    let mut i: usize = 0;
    assert(all.take(0) =~= Seq::<(H256, Diff<H256>)>::empty());
    assert(all.skip(0) =~= all);
    while rest.len() > 0
        invariant
            acc.wf(),
            i <= all.len(),
            all.len() == n,
            rest@ == all.skip(i as int),
            acc.view() == (AccountView {
                storage: apply_storage(old(acc).view().storage, all.take(i as int)),
                ..old(acc).view()
            }),
        decreases rest.len(),
    {
        let (slot, diff) = rest.remove(0);
        proof {
            assert(i < all.len());
            assert(all[i as int] == (slot, diff));
            assert(rest@ =~= all.skip(i + 1));
            assert(all.take(i + 1).drop_last() =~= all.take(i as int));
            assert(all.take(i + 1).last() == (slot, diff));
        }
        match get_diff(diff) {
            Some(word) => {
                acc.store(slot, word);
            },
            None => {},
        }
        i = i + 1;
    }
    assert(all.take(i as int) =~= all);
}

/// Turn the state diff of a traced transaction into overrides: each touched
/// account's balance, nonce and code are overridden with their new values
/// (cleared when unchanged or removed), and each storage slot with a new word
/// is overridden with it.
pub fn apply_state_diff(state: &mut State, state_diff: StateDiff)
    requires
        old(state).wf(),
        nonces_fit(state_diff.accounts@),
    ensures
        final(state).wf(),
        final(state).view() == apply_state(old(state).view(), state_diff.accounts@),
{
    let ghost all = state_diff.accounts@;
    let n = state_diff.accounts.len();
    let mut rest = state_diff.accounts;
    let mut i: usize = 0;
    assert(all.take(0) =~= Seq::<(Address, AccountDiff)>::empty());
    assert(all.skip(0) =~= all);
    while rest.len() > 0
        invariant
            state.wf(),
            i <= all.len(),
            all.len() == n,
            nonces_fit(all),
            rest@ == all.skip(i as int),
            state.view() == apply_state(old(state).view(), all.take(i as int)),
        decreases rest.len(),
    {
        let (account_address, account_diff) = rest.remove(0);
        let ghost ad = account_diff;
        proof {
            assert(i < all.len());
            assert(all[i as int] == (account_address, account_diff));
            assert(rest@ =~= all.skip(i + 1));
            assert(all.take(i + 1).drop_last() =~= all.take(i as int));
            assert(all.take(i + 1).last() == (account_address, account_diff));
        }
        let AccountDiff { balance, nonce, code, storage } = account_diff;
        let bal = get_diff(balance);
        let nonce = get_diff(nonce);
        let code = get_diff(code);
        let ghost before = state.view();
        let k = state.account_index(&account_address);
        let ghost prior = if before.contains_key(account_address@) {
            before[account_address@]
        } else {
            Account::empty_view()
        };
        proof {
            state.lemma_index(k as int);
        }
        let ghost mid = state.view();
        let ghost acc0 = state.accounts@;
        assert(mid[account_address@] == prior);
        let mut entry = (account_address, Account::new());
        state.accounts.set_and_swap(k, &mut entry);
        assert(entry.1.view() == prior);
        assert(entry.1.wf());
        entry.1.balance = bal;
        proof {
            assert(nonces_fit(all));
            let e = all[i as int];
            assert(spec_get_diff(e.1.nonce) == nonce);
        }
        entry.1.nonce = match nonce {
            Some(v) => Some(v.as_u64()),
            None => None,
        };
        entry.1.code = code;
        apply_storage_entries(&mut entry.1, storage);
        let ghost placeholder = state.accounts@;
        state.accounts.set_and_swap(k, &mut entry);
        proof {
            assert(account_keys(placeholder) =~= account_keys(acc0));
            assert(account_keys(state.accounts@) =~= account_keys(placeholder));
            assert(account_keys(acc0)[k as int] == account_address@);
            assert forall|j: int| 0 <= j < state.accounts.len() implies (#[trigger] state.accounts[j]).1.wf() by {
                if j != k {
                    assert(state.accounts[j] == placeholder[j]);
                }
            }
            let newv = state.accounts[k as int].1.view();
            assert(newv == apply_account(prior, ad));
            let m1 = state.view();
            let m0 = mid.insert(account_address@, newv);
            assert forall|key: Seq<u8>| m1.contains_key(key) <==> m0.contains_key(key) by {
                if key == account_address@ {
                    assert(account_keys(state.accounts@)[k as int] == key);
                }
            }
            assert forall|key: Seq<u8>| #[trigger] m1.contains_key(key) implies m1[key] == m0[key] by {
                let j = account_keys(state.accounts@).index_of(key);
                assert(account_keys(state.accounts@)[j] == key);
                if j != k {
                    assert(state.accounts[j] == placeholder[j]);
                    assert(placeholder[j] == acc0[j]);
                    assert(account_keys(acc0)[j] == key);
                    assert(key != account_address@);
                }
            }
            assert(m1 =~= m0);
            assert(mid.insert(account_address@, newv) =~= before.insert(account_address@, newv));
        }
        i = i + 1;
    }
    assert(all.take(i as int) =~= all);
}

} // verus!
