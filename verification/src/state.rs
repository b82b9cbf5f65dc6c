//! The world state: accounts by address, with nested checkpoints.
//!
//! A checkpoint keeps the accounts as they were when it was taken. Reverting
//! to the newest checkpoint puts them back; clearing it keeps what was done
//! since. Checkpoints nest like a stack.

use vstd::prelude::*;
use crate::bytes::copy_bytes;
use crate::hash::{Address, H256};
use crate::uint::{pow2_256, U256};

verus! {

/// One account as the state holds it.
pub struct Account {
    /// The balance.
    pub balance: U256,
    /// The number of transactions sent, or of contracts created, from it.
    pub nonce: U256,
    /// The code; empty for an account without code.
    pub code: Vec<u8>,
    /// The storage slots that were written; of two entries for a key the first counts.
    pub storage: Vec<(H256, H256)>,
}

/// What an account holds, as plain mathematical values.
pub struct AccountView {
    /// The balance.
    pub balance: nat,
    /// The nonce.
    pub nonce: nat,
    /// The code.
    pub code: Seq<u8>,
    /// The value of every storage slot; a slot never written holds zero.
    pub storage: Map<H256, H256>,
}

/// The value of slot `key` in a list of written slots: that of the first entry
/// for the key, or zero.
pub open spec fn slot_value(slots: Seq<(H256, H256)>, key: H256) -> H256
    decreases slots.len(),
{
    if slots.len() == 0 {
        H256 { hi: 0, lo: 0 }
    } else if slots[0].0 == key {
        slots[0].1
    } else {
        slot_value(slots.drop_first(), key)
    }
}

/// Writing the first entry for a key, or adding one in front of all others,
/// changes that key's value and no other.
proof fn lemma_slot_update(slots: Seq<(H256, H256)>, i: int, key: H256, value: H256, other: H256)
    requires
        0 <= i < slots.len(),
        slots[i].0 == key,
        forall|j: int| 0 <= j < i ==> slots[j].0 != key,
    ensures
        slot_value(slots.update(i, (key, value)), other) == if other == key {
            value
        } else {
            slot_value(slots, other)
        },
    decreases i,
{
    let after = slots.update(i, (key, value));
    if i == 0 {
        assert(after.drop_first() =~= slots.drop_first());
    } else {
        assert(after.drop_first() =~= slots.drop_first().update(i - 1, (key, value)));
        lemma_slot_update(slots.drop_first(), i - 1, key, value, other);
    }
}

/// A key that no entry has reads as zero; adding an entry for it at the end
/// changes that key's value and no other.
proof fn lemma_slot_push(slots: Seq<(H256, H256)>, key: H256, value: H256, other: H256)
    requires
        forall|j: int| 0 <= j < slots.len() ==> slots[j].0 != key,
    ensures
        slot_value(slots, key) == (H256 { hi: 0, lo: 0 }),
        slot_value(slots.push((key, value)), other) == if other == key {
            value
        } else {
            slot_value(slots, other)
        },
    decreases slots.len(),
{
    let after = slots.push((key, value));
    if slots.len() == 0 {
        assert(after.drop_first() =~= slots);
    } else {
        assert(after.drop_first() =~= slots.drop_first().push((key, value)));
        lemma_slot_push(slots.drop_first(), key, value, other);
    }
}

/// The first entry for a key holds the key's value.
proof fn lemma_slot_found(slots: Seq<(H256, H256)>, i: int, key: H256)
    requires
        0 <= i < slots.len(),
        slots[i].0 == key,
        forall|j: int| 0 <= j < i ==> slots[j].0 != key,
    ensures
        slot_value(slots, key) == slots[i].1,
    decreases i,
{
    if i > 0 {
        lemma_slot_found(slots.drop_first(), i - 1, key);
    }
}

impl View for Account {
    type V = AccountView;

    open spec fn view(&self) -> AccountView {
        AccountView {
            balance: self.balance@,
            nonce: self.nonce@,
            code: self.code@,
            storage: Map::total(|key: H256| slot_value(self.storage@, key)),
        }
    }
}

impl Account {
    /// An account with no balance, nonce zero, no code and empty storage.
    pub fn empty() -> (r: Account)
        ensures
            r@ == empty_account(),
    {
        let r = Account {
            balance: U256::zero(),
            nonce: U256::zero(),
            code: Vec::new(),
            storage: Vec::new(),
        };
        proof {
            assert(r@.storage =~= empty_account().storage);
        }
        r
    }

    /// A copy that holds the same values.
    pub fn duplicate(&self) -> (r: Account)
        ensures
            r@ == self@,
    {
        let mut storage: Vec<(H256, H256)> = Vec::new();
        let mut i: usize = 0;
        while i < self.storage.len()
            invariant
                i <= self.storage@.len(),
                storage@ == self.storage@.subrange(0, i as int),
            decreases self.storage@.len() - i,
        {
            storage.push(self.storage[i]);
            proof {
                assert(storage@ =~= self.storage@.subrange(0, i + 1));
            }
            i = i + 1;
        }
        proof {
            assert(storage@ =~= self.storage@);
        }
        Account {
            balance: self.balance,
            nonce: self.nonce,
            code: copy_bytes(self.code.as_slice()),
            storage,
        }
    }
}

/// The view of an account that holds nothing.
pub open spec fn empty_account() -> AccountView {
    AccountView {
        balance: 0,
        nonce: 0,
        code: Seq::empty(),
        storage: Map::total(|key: H256| H256 { hi: 0, lo: 0 }),
    }
}

/// An account under its address.
struct Entry {
    address: Address,
    account: Account,
}

/// Whether some entry has the address.
spec fn has_address(entries: Seq<Entry>, address: Address) -> bool {
    exists|i: int| 0 <= i < entries.len() && #[trigger] entries[i].address == address
}

/// The place of an entry with the address.
spec fn place_of(entries: Seq<Entry>, address: Address) -> int {
    choose|i: int| 0 <= i < entries.len() && #[trigger] entries[i].address == address
}

/// No two entries share an address.
spec fn distinct(entries: Seq<Entry>) -> bool {
    forall|i: int, j: int|
        0 <= i < j < entries.len() ==> #[trigger] entries[i].address != #[trigger] entries[j].address
}

/// The sum of all balances.
spec fn total(entries: Seq<Entry>) -> nat
    decreases entries.len(),
{
    if entries.len() == 0 {
        0
    } else {
        total(entries.drop_last()) + entries.last().account.balance@
    }
}

/// The accounts by address.
spec fn as_map(entries: Seq<Entry>) -> Map<Address, AccountView> {
    Map::new(
        |a: Address| has_address(entries, a),
        |a: Address| entries[place_of(entries, a)].account@,
    )
}

/// The accounts and the sum of their balances.
spec fn as_view(entries: Seq<Entry>) -> StateView {
    StateView { accounts: as_map(entries), supply: total(entries) }
}

/// The sum over two lists joined is the sum of the two sums.
proof fn lemma_total_concat(a: Seq<Entry>, b: Seq<Entry>)
    ensures
        total(a + b) == total(a) + total(b),
    decreases b.len(),
{
    if b.len() == 0 {
        assert(a + b =~= a);
    } else {
        assert((a + b).drop_last() =~= a + b.drop_last());
        lemma_total_concat(a, b.drop_last());
    }
}

/// The sum is that of the entries before a place, of the entry there, and of
/// those after it.
proof fn lemma_total_split(s: Seq<Entry>, i: int)
    requires
        0 <= i < s.len(),
    ensures
        total(s) == total(s.subrange(0, i)) + s[i].account.balance@ + total(
            s.subrange(i + 1, s.len() as int),
        ),
{
    let head = s.subrange(0, i);
    let mid = seq![s[i]];
    let tail = s.subrange(i + 1, s.len() as int);
    assert(s =~= (head + mid) + tail);
    lemma_total_concat(head + mid, tail);
    lemma_total_concat(head, mid);
    assert(mid.drop_last() =~= Seq::<Entry>::empty());
    assert(mid.last() == s[i]);
    assert(total(mid.drop_last()) == 0);
    assert(total(mid) == total(mid.drop_last()) + mid.last().account.balance@);
}

/// Putting another entry at a place changes the sum by the difference of the
/// two balances; no balance exceeds the sum.
proof fn lemma_total_update(s: Seq<Entry>, i: int, e: Entry)
    requires
        0 <= i < s.len(),
    ensures
        total(s.update(i, e)) == total(s) - s[i].account.balance@ + e.account.balance@,
        s[i].account.balance@ <= total(s),
{
    let after = s.update(i, e);
    lemma_total_split(s, i);
    lemma_total_split(after, i);
    assert(after.subrange(0, i) =~= s.subrange(0, i));
    assert(after.subrange(i + 1, after.len() as int) =~= s.subrange(i + 1, s.len() as int));
}

/// Taking an entry out takes its balance off the sum.
proof fn lemma_total_remove(s: Seq<Entry>, i: int)
    requires
        0 <= i < s.len(),
    ensures
        total(s.remove(i)) == total(s) - s[i].account.balance@,
{
    lemma_total_split(s, i);
    assert(s.remove(i) =~= s.subrange(0, i) + s.subrange(i + 1, s.len() as int));
    lemma_total_concat(s.subrange(0, i), s.subrange(i + 1, s.len() as int));
}

/// Where no two entries share an address, an entry is found at its own place.
proof fn lemma_place(entries: Seq<Entry>, i: int)
    requires
        distinct(entries),
        0 <= i < entries.len(),
    ensures
        has_address(entries, entries[i].address),
        place_of(entries, entries[i].address) == i,
{
    let a = entries[i].address;
    let p = place_of(entries, a);
    assert(0 <= p < entries.len() && entries[p].address == a);
    if p < i {
        assert(entries[p].address != entries[i].address);
    } else if i < p {
        assert(entries[i].address != entries[p].address);
    }
}

/// Putting another entry under the same address changes that account and no
/// other.
proof fn lemma_map_update(entries: Seq<Entry>, i: int, e: Entry)
    requires
        distinct(entries),
        0 <= i < entries.len(),
        e.address == entries[i].address,
    ensures
        distinct(entries.update(i, e)),
        as_map(entries.update(i, e)) == as_map(entries).insert(e.address, e.account@),
{
    let after = entries.update(i, e);
    assert(distinct(after)) by {
        assert forall|x: int, y: int| 0 <= x < y < after.len() implies #[trigger] after[x].address
            != #[trigger] after[y].address by {
            assert(entries[x].address != entries[y].address);
        }
    }
    assert forall|a: Address| has_address(after, a) == has_address(entries, a) by {
        if has_address(entries, a) {
            let p = place_of(entries, a);
            assert(after[p].address == a);
        }
        if has_address(after, a) {
            let p = place_of(after, a);
            assert(entries[p].address == a);
        }
    }
    assert forall|a: Address| has_address(after, a) implies #[trigger] as_map(after)[a] == as_map(
        entries,
    ).insert(e.address, e.account@)[a] by {
        let p = place_of(after, a);
        lemma_place(after, p);
        assert(entries[p].address == a);
        lemma_place(entries, p);
    }
    lemma_place(entries, i);
    assert(as_map(after) =~= as_map(entries).insert(e.address, e.account@));
}

/// Adding an entry under a new address adds that account and changes no other.
proof fn lemma_map_push(entries: Seq<Entry>, e: Entry)
    requires
        distinct(entries),
        !has_address(entries, e.address),
    ensures
        distinct(entries.push(e)),
        as_map(entries.push(e)) == as_map(entries).insert(e.address, e.account@),
        total(entries.push(e)) == total(entries) + e.account.balance@,
{
    let after = entries.push(e);
    assert(after.drop_last() =~= entries);
    assert(distinct(after)) by {
        assert forall|x: int, y: int| 0 <= x < y < after.len() implies #[trigger] after[x].address
            != #[trigger] after[y].address by {
            if y < entries.len() {
                assert(entries[x].address != entries[y].address);
            } else {
                assert(entries[x].address == after[x].address);
            }
        }
    }
    assert(after[entries.len() as int].address == e.address);
    assert forall|a: Address| has_address(after, a) == (has_address(entries, a) || a
        == e.address) by {
        if has_address(entries, a) {
            let p = place_of(entries, a);
            assert(after[p].address == a);
        }
        if has_address(after, a) && a != e.address {
            let p = place_of(after, a);
            assert(entries[p].address == a);
        }
    }
    assert forall|a: Address| has_address(after, a) implies #[trigger] as_map(after)[a] == as_map(
        entries,
    ).insert(e.address, e.account@)[a] by {
        let p = place_of(after, a);
        lemma_place(after, p);
        if a != e.address {
            assert(entries[p].address == a);
            lemma_place(entries, p);
        }
    }
    assert(as_map(after) =~= as_map(entries).insert(e.address, e.account@));
}

/// Taking an entry out removes that account and changes no other.
proof fn lemma_map_remove(entries: Seq<Entry>, i: int)
    requires
        distinct(entries),
        0 <= i < entries.len(),
    ensures
        distinct(entries.remove(i)),
        as_map(entries.remove(i)) == as_map(entries).remove(entries[i].address),
{
    let after = entries.remove(i);
    let gone = entries[i].address;
    assert(distinct(after)) by {
        assert forall|x: int, y: int| 0 <= x < y < after.len() implies #[trigger] after[x].address
            != #[trigger] after[y].address by {
            let ox = if x < i {
                x
            } else {
                x + 1
            };
            let oy = if y < i {
                y
            } else {
                y + 1
            };
            assert(entries[ox].address != entries[oy].address);
        }
    }
    assert forall|a: Address| has_address(after, a) == (has_address(entries, a) && a != gone) by {
        if has_address(entries, a) && a != gone {
            let p = place_of(entries, a);
            let q = if p < i {
                p
            } else {
                p - 1
            };
            assert(after[q].address == a);
        }
        if has_address(after, a) {
            let q = place_of(after, a);
            let p = if q < i {
                q
            } else {
                q + 1
            };
            assert(entries[p].address == a);
            lemma_place(entries, p);
            lemma_place(entries, i);
        }
    }
    assert forall|a: Address| has_address(after, a) implies #[trigger] as_map(after)[a] == as_map(
        entries,
    ).remove(gone)[a] by {
        let q = place_of(after, a);
        lemma_place(after, q);
        let p = if q < i {
            q
        } else {
            q + 1
        };
        assert(entries[p].address == a);
        lemma_place(entries, p);
    }
    assert(as_map(after) =~= as_map(entries).remove(gone));
}

/// The accounts of a state with the sum of their balances.
pub struct StateView {
    /// The accounts that exist, by address.
    pub accounts: Map<Address, AccountView>,
    /// The sum of the balances of all accounts.
    pub supply: nat,
}

/// The world state.
pub struct State {
    entries: Vec<Entry>,
    saved: Vec<Vec<Entry>>,
}

impl View for State {
    type V = StateView;

    closed spec fn view(&self) -> StateView {
        as_view(self.entries@)
    }
}

/// The balance that `accounts` holds for `address`: zero where there is no account.
pub open spec fn balance_in(accounts: Map<Address, AccountView>, address: Address) -> nat {
    if accounts.dom().contains(address) {
        accounts[address].balance
    } else {
        0
    }
}

/// The nonce that `accounts` holds for `address`: zero where there is no account.
pub open spec fn nonce_in(accounts: Map<Address, AccountView>, address: Address) -> nat {
    if accounts.dom().contains(address) {
        accounts[address].nonce
    } else {
        0
    }
}

/// The account that `accounts` holds for `address`: an empty one where there is none.
pub open spec fn account_in(accounts: Map<Address, AccountView>, address: Address) -> AccountView {
    if accounts.dom().contains(address) {
        accounts[address]
    } else {
        empty_account()
    }
}

/// A copy of the entries that holds the same accounts.
fn duplicate_entries(entries: &Vec<Entry>) -> (r: Vec<Entry>)
    requires
        distinct(entries@),
    ensures
        as_view(r@) == as_view(entries@),
        distinct(r@),
{
    let mut out: Vec<Entry> = Vec::new();
    let mut i: usize = 0;
    while i < entries.len()
        invariant
            i <= entries@.len(),
            out@.len() == i,
            forall|j: int|
                0 <= j < i ==> #[trigger] out@[j].address == entries@[j].address && out@[j].account@
                    == entries@[j].account@,
            total(out@) == total(entries@.subrange(0, i as int)),
        decreases entries@.len() - i,
    {
        let account = entries[i].account.duplicate();
        let ghost before = out@;
        out.push(Entry { address: entries[i].address, account });
        proof {
            assert(out@.drop_last() =~= before);
            assert(entries@.subrange(0, i + 1).drop_last() =~= entries@.subrange(0, i as int));
        }
        i = i + 1;
    }
    proof {
        assert(entries@.subrange(0, i as int) =~= entries@);
        assert forall|a: Address| has_address(out@, a) == has_address(entries@, a) by {
            if has_address(entries@, a) {
                let p = place_of(entries@, a);
                assert(out@[p].address == a);
            }
            if has_address(out@, a) {
                let p = place_of(out@, a);
                assert(entries@[p].address == a);
            }
        }
        assert forall|x: int, y: int| 0 <= x < y < out@.len() implies #[trigger] out@[x].address
            != #[trigger] out@[y].address by {
            assert(entries@[x].address != entries@[y].address);
        }
        assert forall|a: Address| has_address(out@, a) implies #[trigger] as_map(out@)[a]
            == as_map(entries@)[a] by {
            let p = place_of(out@, a);
            lemma_place(out@, p);
            assert(entries@[p].address == a);
            lemma_place(entries@, p);
        }
        assert(as_map(out@) =~= as_map(entries@));
    }
    out
}

/// The place of the first slot written for a key, if there is one.
fn find_slot(slots: &Vec<(H256, H256)>, key: &H256) -> (r: Option<usize>)
    ensures
        match r {
            Some(j) => j < slots@.len() && slots@[j as int].0 == *key && slot_value(slots@, *key)
                == slots@[j as int].1 && forall|k: int| 0 <= k < j ==> slots@[k].0 != *key,
            None => slot_value(slots@, *key) == (H256 { hi: 0, lo: 0 }) && forall|k: int|
                0 <= k < slots@.len() ==> slots@[k].0 != *key,
        },
{
    let mut j: usize = 0;
    while j < slots.len()
        invariant
            j <= slots@.len(),
            forall|k: int| 0 <= k < j ==> slots@[k].0 != *key,
        decreases slots@.len() - j,
    {
        if slots[j].0 == *key {
            proof {
                lemma_slot_found(slots@, j as int, *key);
            }
            return Some(j);
        }
        j = j + 1;
    }
    proof {
        lemma_slot_push(slots@, *key, *key, *key);
    }
    None
}

impl State {
    /// What holds of every state that this module hands out: no address has
    /// two accounts, and the sum of all balances fits in 256 bits, now and at
    /// every checkpoint.
    pub closed spec fn wf(&self) -> bool {
        &&& distinct(self.entries@)
        &&& total(self.entries@) < pow2_256()
        &&& forall|k: int|
            0 <= k < self.saved@.len() ==> distinct(#[trigger] self.saved@[k]@) && total(
                self.saved@[k]@,
            ) < pow2_256()
    }

    /// The checkpoints that are open, oldest first: the state as it was when
    /// each was taken.
    pub closed spec fn checkpoints(&self) -> Seq<StateView> {
        Seq::new(self.saved@.len(), |k: int| as_view(self.saved@[k]@))
    }

    /// The accounts that exist.
    pub open spec fn accounts(&self) -> Map<Address, AccountView> {
        self@.accounts
    }

    /// The sum of the balances of all accounts.
    pub open spec fn supply(&self) -> nat {
        self@.supply
    }

    /// The balance of an address; zero where it has no account.
    pub open spec fn balance_of(&self, address: Address) -> nat {
        balance_in(self@.accounts, address)
    }

    /// The nonce of an address; zero where it has no account.
    pub open spec fn nonce_of(&self, address: Address) -> nat {
        nonce_in(self@.accounts, address)
    }

    /// The account of an address; an empty one where it has none.
    pub open spec fn account_of(&self, address: Address) -> AccountView {
        account_in(self@.accounts, address)
    }

    /// No balance exceeds the sum of all balances.
    pub proof fn lemma_balance_within_supply(&self, address: Address)
        requires
            self.wf(),
        ensures
            self.balance_of(address) <= self.supply(),
            self.supply() < pow2_256(),
    {
        if has_address(self.entries@, address) {
            let p = place_of(self.entries@, address);
            lemma_total_update(self.entries@, p, self.entries@[p]);
        }
    }

    /// A state without accounts and without checkpoints.
    pub fn new() -> (r: State)
        ensures
            r.wf(),
            r@.accounts == Map::<Address, AccountView>::empty(),
            r@.supply == 0,
            r.checkpoints() == Seq::<StateView>::empty(),
    {
        let r = State { entries: Vec::new(), saved: Vec::new() };
        proof {
            assert(r@.accounts =~= Map::<Address, AccountView>::empty());
            assert(r.checkpoints() =~= Seq::<StateView>::empty());
        }
        r
    }

    /// The place of the account of an address, if it has one.
    fn find(&self, address: &Address) -> (r: Option<usize>)
        requires
            self.wf(),
        ensures
            match r {
                Some(i) => i < self.entries@.len() && self.entries@[i as int].address == *address
                    && place_of(self.entries@, *address) == i && has_address(
                    self.entries@,
                    *address,
                ),
                None => !has_address(self.entries@, *address),
            },
    {
        let mut i: usize = 0;
        while i < self.entries.len()
            invariant
                distinct(self.entries@),
                i <= self.entries@.len(),
                forall|j: int| 0 <= j < i ==> self.entries@[j].address != *address,
            decreases self.entries@.len() - i,
        {
            if self.entries[i].address == *address {
                proof {
                    lemma_place(self.entries@, i as int);
                }
                return Some(i);
            }
            i = i + 1;
        }
        None
    }

    /// The place of the account of `address`, which is made empty first where
    /// there is none.
    fn require(&mut self, address: &Address) -> (i: usize)
        requires
            old(self).wf(),
        ensures
            final(self).wf(),
            final(self).checkpoints() == old(self).checkpoints(),
            final(self).saved == old(self).saved,
            i < final(self).entries@.len(),
            final(self).entries@[i as int].address == *address,
            final(self).entries@[i as int].account@ == old(self).account_of(*address),
            final(self)@.accounts == old(self)@.accounts.insert(
                *address,
                old(self).account_of(*address),
            ),
            final(self)@.supply == old(self)@.supply,
    {
        match self.find(address) {
            Some(i) => {
                proof {
                    assert(self@.accounts =~= self@.accounts.insert(
                        *address,
                        self.account_of(*address),
                    ));
                }
                i
            },
            None => {
                let entry = Entry { address: *address, account: Account::empty() };
                proof {
                    lemma_map_push(self.entries@, entry);
                }
                self.entries.push(entry);
                self.entries.len() - 1
            },
        }
    }

    /// Whether the address has an account.
    pub fn has_account(&self, address: &Address) -> (r: bool)
        requires
            self.wf(),
        ensures
            r == self@.accounts.dom().contains(*address),
    {
        self.find(address).is_some()
    }

    /// The balance of an address.
    pub fn balance(&self, address: &Address) -> (r: U256)
        requires
            self.wf(),
        ensures
            r@ == self.balance_of(*address),
    {
        match self.find(address) {
            Some(i) => self.entries[i].account.balance,
            None => U256::zero(),
        }
    }

    /// The nonce of an address.
    pub fn nonce(&self, address: &Address) -> (r: U256)
        requires
            self.wf(),
        ensures
            r@ == self.nonce_of(*address),
    {
        match self.find(address) {
            Some(i) => self.entries[i].account.nonce,
            None => U256::zero(),
        }
    }

    /// The code of an address: `None` where it has no account.
    pub fn code(&self, address: &Address) -> (r: Option<Vec<u8>>)
        requires
            self.wf(),
        ensures
            match r {
                Some(code) => self@.accounts.dom().contains(*address) && code@
                    == self@.accounts[*address].code,
                None => !self@.accounts.dom().contains(*address),
            },
    {
        match self.find(address) {
            Some(i) => Some(copy_bytes(self.entries[i].account.code.as_slice())),
            None => None,
        }
    }

    /// The value of a storage slot of an address; zero where it was never written.
    pub fn storage_at(&self, address: &Address, key: &H256) -> (r: H256)
        requires
            self.wf(),
        ensures
            r == self.account_of(*address).storage[*key],
    {
        match self.find(address) {
            Some(i) => {
                let slots = &self.entries[i].account.storage;
                match find_slot(slots, key) {
                    Some(j) => slots[j].1,
                    None => H256::zero(),
                }
            },
            None => H256::zero(),
        }
    }

    /// Puts an account at a place, under the address that is there.
    fn put(&mut self, i: usize, account: Account)
        requires
            old(self).wf(),
            i < old(self).entries@.len(),
            old(self)@.supply - old(self).entries@[i as int].account.balance@ + account.balance@
                < pow2_256(),
        ensures
            final(self).wf(),
            final(self).checkpoints() == old(self).checkpoints(),
            final(self)@.accounts == old(self)@.accounts.insert(
                old(self).entries@[i as int].address,
                account@,
            ),
            final(self)@.supply == old(self)@.supply - old(self).entries@[i as int].account.balance@
                + account.balance@,
    {
        let address = self.entries[i].address;
        let entry = Entry { address, account };
        proof {
            lemma_map_update(self.entries@, i as int, entry);
            lemma_total_update(self.entries@, i as int, entry);
        }
        self.entries.set(i, entry);
    }

    /// Takes the account at a place out and leaves an empty one there.
    fn take(&mut self, i: usize) -> (account: Account)
        requires
            old(self).wf(),
            i < old(self).entries@.len(),
        ensures
            account@ == old(self).entries@[i as int].account@,
            account.balance == old(self).entries@[i as int].account.balance,
            account.nonce == old(self).entries@[i as int].account.nonce,
            account.code == old(self).entries@[i as int].account.code,
            account.storage == old(self).entries@[i as int].account.storage,
            final(self).wf(),
            final(self).checkpoints() == old(self).checkpoints(),
            final(self).saved == old(self).saved,
            final(self).entries@.len() == old(self).entries@.len(),
            final(self).entries@[i as int].address == old(self).entries@[i as int].address,
            final(self).entries@[i as int].account.balance@ == 0,
            final(self)@.supply == old(self)@.supply - old(self).entries@[i as int].account.balance@,
            final(self)@.accounts == old(self)@.accounts.insert(
                old(self).entries@[i as int].address,
                empty_account(),
            ),
    {
        let address = self.entries[i].address;
        let blank = Entry { address, account: Account::empty() };
        proof {
            lemma_map_update(self.entries@, i as int, blank);
            lemma_total_update(self.entries@, i as int, blank);
        }
        let mut slot = blank;
        vec_swap_entry(&mut self.entries, i, &mut slot);
        slot.account
    }

    /// Adds to the balance of an address, which gets an account where it had none.
    pub fn add_balance(&mut self, address: &Address, amount: &U256)
        requires
            old(self).wf(),
            old(self).supply() + amount@ < pow2_256(),
        ensures
            final(self).wf(),
            final(self).checkpoints() == old(self).checkpoints(),
            final(self).accounts() == old(self).accounts().insert(
                *address,
                AccountView {
                    balance: old(self).balance_of(*address) + amount@,
                    ..old(self).account_of(*address)
                },
            ),
            final(self).supply() == old(self).supply() + amount@,
    {
        let i = self.require(address);
        proof {
            lemma_total_update(self.entries@, i as int, self.entries@[i as int]);
        }
        let mut account = self.take(i);
        account.balance = account.balance.add(*amount);
        self.put(i, account);
        proof {
            assert(final(self).accounts() =~= old(self).accounts().insert(
                *address,
                AccountView {
                    balance: old(self).balance_of(*address) + amount@,
                    ..old(self).account_of(*address)
                },
            ));
        }
    }

    /// Takes from the balance of an address, which gets an account where it had none.
    pub fn sub_balance(&mut self, address: &Address, amount: &U256)
        requires
            old(self).wf(),
            old(self).balance_of(*address) >= amount@,
        ensures
            final(self).wf(),
            final(self).checkpoints() == old(self).checkpoints(),
            final(self).accounts() == old(self).accounts().insert(
                *address,
                AccountView {
                    balance: (old(self).balance_of(*address) - amount@) as nat,
                    ..old(self).account_of(*address)
                },
            ),
            final(self).supply() == old(self).supply() - amount@,
    {
        let i = self.require(address);
        proof {
            lemma_total_update(self.entries@, i as int, self.entries@[i as int]);
        }
        let mut account = self.take(i);
        account.balance = account.balance.sub(*amount);
        self.put(i, account);
        proof {
            assert(final(self).accounts() =~= old(self).accounts().insert(
                *address,
                AccountView {
                    balance: (old(self).balance_of(*address) - amount@) as nat,
                    ..old(self).account_of(*address)
                },
            ));
        }
    }

    /// Moves `amount` from the balance of `from` to that of `to`.
    pub fn transfer_balance(&mut self, from: &Address, to: &Address, amount: &U256)
        requires
            old(self).wf(),
            old(self).balance_of(*from) >= amount@,
        ensures
            final(self).wf(),
            final(self).checkpoints() == old(self).checkpoints(),
            final(self).accounts() == transferred(old(self).accounts(), *from, *to, amount@),
            final(self).supply() == old(self).supply(),
    {
        self.sub_balance(from, amount);
        self.add_balance(to, amount);
    }

    /// Adds one to the nonce of an address, which gets an account where it had none.
    pub fn inc_nonce(&mut self, address: &Address)
        requires
            old(self).wf(),
            old(self).nonce_of(*address) + 1 < pow2_256(),
        ensures
            final(self).wf(),
            final(self).checkpoints() == old(self).checkpoints(),
            final(self).accounts() == old(self).accounts().insert(
                *address,
                AccountView {
                    nonce: old(self).nonce_of(*address) + 1,
                    ..old(self).account_of(*address)
                },
            ),
            final(self).supply() == old(self).supply(),
    {
        let i = self.require(address);
        proof {
            lemma_total_update(self.entries@, i as int, self.entries@[i as int]);
        }
        let mut account = self.take(i);
        account.nonce = account.nonce.add(U256::one());
        self.put(i, account);
        proof {
            assert(final(self).accounts() =~= old(self).accounts().insert(
                *address,
                AccountView {
                    nonce: old(self).nonce_of(*address) + 1,
                    ..old(self).account_of(*address)
                },
            ));
        }
    }

    /// Puts a fresh contract account at an address: the balance given, nonce
    /// zero, no code yet and empty storage. What was there is replaced.
    pub fn new_contract(&mut self, address: &Address, balance: U256)
        requires
            old(self).wf(),
            old(self).supply() - old(self).balance_of(*address) + balance@ < pow2_256(),
        ensures
            final(self).wf(),
            final(self).checkpoints() == old(self).checkpoints(),
            final(self).accounts() == old(self).accounts().insert(
                *address,
                AccountView { balance: balance@, ..empty_account() },
            ),
            final(self).supply() == old(self).supply() - old(self).balance_of(*address)
                + balance@,
    {
        let i = self.require(address);
        let mut account = Account::empty();
        account.balance = balance;
        proof {
            assert(account@.storage =~= empty_account().storage);
        }
        self.put(i, account);
        proof {
            assert(final(self).accounts() =~= old(self).accounts().insert(
                *address,
                AccountView { balance: balance@, ..empty_account() },
            ));
        }
    }

    /// Sets the code of an address, which gets an account where it had none.
    pub fn init_code(&mut self, address: &Address, code: Vec<u8>)
        requires
            old(self).wf(),
        ensures
            final(self).wf(),
            final(self).checkpoints() == old(self).checkpoints(),
            final(self).accounts() == old(self).accounts().insert(
                *address,
                AccountView { code: code@, ..old(self).account_of(*address) },
            ),
            final(self).supply() == old(self).supply(),
    {
        let i = self.require(address);
        proof {
            lemma_total_update(self.entries@, i as int, self.entries@[i as int]);
        }
        let mut account = self.take(i);
        account.code = code;
        self.put(i, account);
        proof {
            assert(final(self).accounts() =~= old(self).accounts().insert(
                *address,
                AccountView { code: code@, ..old(self).account_of(*address) },
            ));
        }
    }

    /// Writes a storage slot of an address, which gets an account where it had none.
    pub fn set_storage(&mut self, address: &Address, key: H256, value: H256)
        requires
            old(self).wf(),
        ensures
            final(self).wf(),
            final(self).checkpoints() == old(self).checkpoints(),
            final(self).accounts() == old(self).accounts().insert(
                *address,
                AccountView {
                    storage: old(self).account_of(*address).storage.insert(key, value),
                    ..old(self).account_of(*address)
                },
            ),
            final(self).supply() == old(self).supply(),
    {
        let i = self.require(address);
        proof {
            lemma_total_update(self.entries@, i as int, self.entries@[i as int]);
        }
        let mut account = self.take(i);
        let ghost slots = account.storage@;
        match find_slot(&account.storage, &key) {
            Some(j) => {
                account.storage.set(j, (key, value));
                proof {
                    assert forall|other: H256| #[trigger]
                        slot_value(account.storage@, other) == if other == key {
                            value
                        } else {
                            slot_value(slots, other)
                        } by {
                        lemma_slot_update(slots, j as int, key, value, other);
                    }
                }
            },
            None => {
                account.storage.push((key, value));
                proof {
                    assert forall|other: H256| #[trigger]
                        slot_value(account.storage@, other) == if other == key {
                            value
                        } else {
                            slot_value(slots, other)
                        } by {
                        lemma_slot_push(slots, key, value, other);
                    }
                }
            },
        }
        proof {
            assert(account@.storage =~= old(self).account_of(*address).storage.insert(key, value));
        }
        self.put(i, account);
        proof {
            assert(final(self).accounts() =~= old(self).accounts().insert(
                *address,
                AccountView {
                    storage: old(self).account_of(*address).storage.insert(key, value),
                    ..old(self).account_of(*address)
                },
            ));
        }
    }

    /// Removes the account of an address, with its balance.
    pub fn kill_account(&mut self, address: &Address)
        requires
            old(self).wf(),
        ensures
            final(self).wf(),
            final(self).checkpoints() == old(self).checkpoints(),
            final(self).accounts() == old(self).accounts().remove(*address),
            final(self).supply() == old(self).supply() - old(self).balance_of(*address),
    {
        match self.find(address) {
            Some(i) => {
                proof {
                    lemma_map_remove(self.entries@, i as int);
                    lemma_total_remove(self.entries@, i as int);
                    lemma_total_update(self.entries@, i as int, self.entries@[i as int]);
                }
                let _ = self.entries.remove(i);
            },
            None => {
                proof {
                    assert(self.accounts() =~= self.accounts().remove(*address));
                }
            },
        }
    }

    /// Opens a checkpoint that holds the state as it is now.
    pub fn snapshot(&mut self)
        requires
            old(self).wf(),
        ensures
            final(self).wf(),
            final(self)@ == old(self)@,
            final(self).checkpoints() == old(self).checkpoints().push(old(self)@),
    {
        let copy = duplicate_entries(&self.entries);
        self.saved.push(copy);
        proof {
            assert(final(self).checkpoints() =~= old(self).checkpoints().push(old(self)@));
            assert forall|k: int| 0 <= k < final(self).saved@.len() implies distinct(
                #[trigger] final(self).saved@[k]@,
            ) && total(final(self).saved@[k]@) < pow2_256() by {
                if k < old(self).saved@.len() {
                    assert(final(self).saved@[k] == old(self).saved@[k]);
                }
            }
        }
    }

    /// Closes the newest checkpoint and puts the state back to what it holds.
    pub fn revert_snapshot(&mut self)
        requires
            old(self).wf(),
            old(self).checkpoints().len() > 0,
        ensures
            final(self).wf(),
            final(self)@ == old(self).checkpoints().last(),
            final(self).checkpoints() == old(self).checkpoints().drop_last(),
    {
        let kept = self.saved.pop();
        match kept {
            Some(entries) => {
                self.entries = entries;
            },
            None => {},
        }
        proof {
            assert(final(self).checkpoints() =~= old(self).checkpoints().drop_last());
            assert forall|k: int| 0 <= k < final(self).saved@.len() implies distinct(
                #[trigger] final(self).saved@[k]@,
            ) && total(final(self).saved@[k]@) < pow2_256() by {
                assert(final(self).saved@[k] == old(self).saved@[k]);
            }
            let last = old(self).saved@.len() - 1;
            assert(distinct(old(self).saved@[last]@));
            assert(old(self).checkpoints().last() == as_view(old(self).saved@[last]@));
        }
    }

    /// Closes the newest checkpoint and keeps the state as it is now.
    pub fn clear_snapshot(&mut self)
        requires
            old(self).wf(),
            old(self).checkpoints().len() > 0,
        ensures
            final(self).wf(),
            final(self)@ == old(self)@,
            final(self).checkpoints() == old(self).checkpoints().drop_last(),
    {
        let _ = self.saved.pop();
        proof {
            assert(final(self).checkpoints() =~= old(self).checkpoints().drop_last());
            assert forall|k: int| 0 <= k < final(self).saved@.len() implies distinct(
                #[trigger] final(self).saved@[k]@,
            ) && total(final(self).saved@[k]@) < pow2_256() by {
                assert(final(self).saved@[k] == old(self).saved@[k]);
            }
        }
    }
}

/// The accounts after `amount` has moved from `from` to `to`: each of the two
/// has an account afterwards.
pub open spec fn transferred(
    accounts: Map<Address, AccountView>,
    from: Address,
    to: Address,
    amount: nat,
) -> Map<Address, AccountView> {
    let debited = accounts.insert(
        from,
        AccountView {
            balance: (balance_in(accounts, from) - amount) as nat,
            ..account_in(accounts, from)
        },
    );
    debited.insert(
        to,
        AccountView { balance: balance_in(debited, to) + amount, ..account_in(debited, to) },
    )
}

/// Swaps the entry at place `i` of a vector with the entry given.
fn vec_swap_entry(entries: &mut Vec<Entry>, i: usize, slot: &mut Entry)
    requires
        i < old(entries)@.len(),
    ensures
        final(entries)@ == old(entries)@.update(i as int, *old(slot)),
        *final(slot) == old(entries)@[i as int],
{
    let last = entries.len() - 1;
    let mut tmp = Entry { address: slot.address, account: Account::empty() };
    core::mem::swap(slot, &mut tmp);
    entries.push(tmp);
    let taken = entries.swap_remove(i);
    *slot = taken;
}

} // verus!
