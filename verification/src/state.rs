//! State snapshots: the full account mapping at one point of a batch.
//!
//! A snapshot is a value. `update` builds a new snapshot and leaves the one
//! it was called on as it was, so a snapshot that was handed out stays valid
//! whatever is computed from it afterwards.

use crate::account::{Account, Address};
use std::sync::Arc;
use vstd::prelude::*;

verus! {

/// One recorded account, under the address it was stored for.
#[derive(Clone, Copy, Debug)]
pub struct Entry {
    pub key: Address,
    pub account: Account,
}

/// The sum of the balances of a sequence of entries.
pub open spec fn balance_sum(entries: Seq<Entry>) -> nat
    decreases entries.len(),
{
    if entries.len() == 0 {
        0
    } else {
        balance_sum(entries.drop_last()) + entries.last().account.balance@
    }
}

/// Whether some entry is stored for the address.
pub open spec fn recorded(entries: Seq<Entry>, addr: Address) -> bool {
    exists|i: int| 0 <= i < entries.len() && (#[trigger] entries[i]).key == addr
}

/// The account that a sequence of entries holds for an address: the one
/// stored for it, or the vacant account where none is.
pub open spec fn account_in(entries: Seq<Entry>, addr: Address) -> Account {
    if recorded(entries, addr) {
        let i = choose|i: int| 0 <= i < entries.len() && (#[trigger] entries[i]).key == addr;
        entries[i].account
    } else {
        Account::vacant(addr)
    }
}

/// No address has two entries.
pub open spec fn distinct_keys(entries: Seq<Entry>) -> bool {
    forall|i: int, j: int|
        0 <= i < j < entries.len() ==> (#[trigger] entries[i]).key != (#[trigger] entries[j]).key
}

/// Where no address has two entries, the account held for the address of an
/// entry is that entry's account.
pub proof fn lemma_account_of_entry(entries: Seq<Entry>, k: int)
    requires
        distinct_keys(entries),
        0 <= k < entries.len(),
    ensures
        recorded(entries, entries[k].key),
        account_in(entries, entries[k].key) == entries[k].account,
{
    let key = entries[k].key;
    assert(recorded(entries, key));
    let i = choose|i: int| 0 <= i < entries.len() && (#[trigger] entries[i]).key == key;
    assert(i == k);
}

/// Appending an entry adds its balance to the sum.
pub proof fn lemma_balance_sum_push(entries: Seq<Entry>, entry: Entry)
    ensures
        balance_sum(entries.push(entry)) == balance_sum(entries) + entry.account.balance@,
{
    assert(entries.push(entry).drop_last() =~= entries);
}

/// The sum of the balances that a mapping holds for a sequence of
/// addresses.
pub open spec fn balance_over(accounts: Map<Address, Account>, addrs: Seq<Address>) -> nat
    decreases addrs.len(),
{
    if addrs.len() == 0 {
        0
    } else {
        balance_over(accounts, addrs.drop_last()) + accounts[addrs.last()].balance@
    }
}

/// The addresses of a sequence of entries, in the same order.
pub open spec fn keys_of(entries: Seq<Entry>) -> Seq<Address> {
    Seq::new(entries.len(), |i: int| entries[i].key)
}

/// Taking one address out of a sequence takes its balance out of the sum.
pub proof fn lemma_balance_over_remove(
    accounts: Map<Address, Account>,
    addrs: Seq<Address>,
    j: int,
)
    requires
        0 <= j < addrs.len(),
    ensures
        balance_over(accounts, addrs) == balance_over(accounts, addrs.remove(j))
            + accounts[addrs[j]].balance@,
    decreases addrs.len(),
{
    if j == addrs.len() - 1 {
        assert(addrs.remove(j) =~= addrs.drop_last());
    } else {
        assert(addrs.remove(j).drop_last() =~= addrs.drop_last().remove(j));
        assert(addrs.remove(j).last() == addrs.last());
        lemma_balance_over_remove(accounts, addrs.drop_last(), j);
    }
}

/// Addresses without balance add up to nothing.
pub proof fn lemma_balance_over_empty_accounts(accounts: Map<Address, Account>, addrs: Seq<Address>)
    requires
        forall|i: int| 0 <= i < addrs.len() ==> accounts[#[trigger] addrs[i]].balance@ == 0,
    ensures
        balance_over(accounts, addrs) == 0,
    decreases addrs.len(),
{
    if addrs.len() > 0 {
        assert forall|i: int| 0 <= i < addrs.drop_last().len() implies accounts[
        #[trigger] addrs.drop_last()[i]].balance@ == 0 by {
            assert(addrs.drop_last()[i] == addrs[i]);
        }
        lemma_balance_over_empty_accounts(accounts, addrs.drop_last());
    }
}

/// The sum of the balances does not depend on which addresses without
/// balance are listed, nor on the order: two sequences without repetition
/// that hold the same addresses with a balance give the same sum.
pub proof fn lemma_balance_over_same_holders(
    accounts: Map<Address, Account>,
    a: Seq<Address>,
    b: Seq<Address>,
)
    requires
        a.no_duplicates(),
        b.no_duplicates(),
        forall|x: Address| accounts[x].balance@ > 0 ==> (a.contains(x) <==> b.contains(x)),
    ensures
        balance_over(accounts, a) == balance_over(accounts, b),
    decreases a.len(),
{
    if a.len() == 0 {
        assert forall|i: int| 0 <= i < b.len() implies accounts[#[trigger] b[i]].balance@
            == 0 by {
            if accounts[b[i]].balance@ > 0 {
                assert(b.contains(b[i]));
                assert(a.contains(b[i]));
            }
        }
        lemma_balance_over_empty_accounts(accounts, b);
    } else {
        let x = a.last();
        let rest = a.drop_last();
        assert(a.contains(x)) by {
            assert(a[a.len() - 1] == x);
        }
        assert forall|y: Address| rest.contains(y) <==> a.contains(y) && y != x by {
            if rest.contains(y) {
                let i = choose|i: int| 0 <= i < rest.len() && rest[i] == y;
                assert(a[i] == y);
            }
            if a.contains(y) && y != x {
                let i = choose|i: int| 0 <= i < a.len() && a[i] == y;
                assert(rest[i] == y);
            }
        }
        if accounts[x].balance@ == 0 {
            lemma_balance_over_same_holders(accounts, rest, b);
        } else {
            let j = choose|j: int| 0 <= j < b.len() && b[j] == x;
            let others = b.remove(j);
            assert forall|y: Address| others.contains(y) <==> b.contains(y) && y != x by {
                if others.contains(y) {
                    let i = choose|i: int| 0 <= i < others.len() && others[i] == y;
                    if i < j {
                        assert(b[i] == y);
                    } else {
                        assert(b[i + 1] == y);
                    }
                }
                if b.contains(y) && y != x {
                    let i = choose|i: int| 0 <= i < b.len() && b[i] == y;
                    if i < j {
                        assert(others[i] == y);
                    } else {
                        assert(others[i - 1] == y);
                    }
                }
            }
            assert(others.no_duplicates()) by {
                assert forall|i: int, k: int|
                    0 <= i < others.len() && 0 <= k < others.len() && i != k implies others[i]
                    != others[k] by {
                    let bi = if i < j {
                        i
                    } else {
                        i + 1
                    };
                    let bk = if k < j {
                        k
                    } else {
                        k + 1
                    };
                    assert(others[i] == b[bi]);
                    assert(others[k] == b[bk]);
                }
            }
            lemma_balance_over_same_holders(accounts, rest, others);
            lemma_balance_over_remove(accounts, b, j);
        }
    }
}

/// Reading an updated mapping gives the new account at the address that was
/// written, and what was there before at every other address.
pub proof fn lemma_read_after_update(
    accounts: Map<Address, Account>,
    addr: Address,
    account: Account,
    other: Address,
)
    ensures
        accounts.insert(addr, account)[addr] == account,
        other != addr ==> accounts.insert(addr, account)[other] == accounts[other],
{
}

/// `Arc::clone` of std: a second handle on the same shared records.
#[verifier::external_body]
fn share(records: &Arc<Vec<Entry>>) -> (r: Arc<Vec<Entry>>)
    ensures
        r == *records,
{
    Arc::clone(records)
}

/// A snapshot of the account mapping. Its records are shared, never
/// changed: a copy of a snapshot costs no more than a handle.
#[derive(Debug)]
pub struct State {
    entries: Arc<Vec<Entry>>,
}

impl View for State {
    type V = Map<Address, Account>;

    /// The mapping from every address to its account. Addresses that were
    /// never written map to the vacant account.
    closed spec fn view(&self) -> Map<Address, Account> {
        Map::total(|addr: Address| account_in(self.entries@, addr))
    }
}

impl State {
    /// The invariant of every snapshot: no address is recorded twice.
    #[verifier::type_invariant]
    pub closed spec fn wf(&self) -> bool {
        distinct_keys(self.entries@)
    }

    /// The sum of all balances in the snapshot.
    pub closed spec fn total_balance(&self) -> nat {
        balance_sum(self.entries@)
    }

    /// The addresses for which the snapshot holds a record.
    pub closed spec fn addresses(&self) -> Seq<Address> {
        keys_of(self.entries@)
    }

    /// What `total_balance` adds up: the balances that the snapshot's view
    /// gives for its recorded addresses. No address is recorded twice, and
    /// every address that is not recorded has the vacant account, with no
    /// balance.
    pub proof fn lemma_total_balance(&self)
        requires
            self.wf(),
        ensures
            self.addresses().no_duplicates(),
            forall|addr: Address|
                !self.addresses().contains(addr) ==> #[trigger] self@[addr] == Account::vacant(
                    addr,
                ),
            self.total_balance() == balance_over(self@, self.addresses()),
    {
        let entries = self.entries@;
        let keys = keys_of(entries);
        assert forall|addr: Address| !keys.contains(addr) implies #[trigger] self@[addr]
            == Account::vacant(addr) by {
            if recorded(entries, addr) {
                let i = choose|i: int|
                    0 <= i < entries.len() && (#[trigger] entries[i]).key == addr;
                assert(keys[i] == addr);
            }
        }
        self.lemma_prefix_sum(entries.len() as int);
        assert(entries.subrange(0, entries.len() as int) =~= entries);
        assert(keys.subrange(0, entries.len() as int) =~= keys);
    }

    /// The total is a matter of the mapping alone: two snapshots with the
    /// same view hold the same total.
    pub proof fn lemma_total_depends_on_view(&self, other: &State)
        requires
            self.wf(),
            other.wf(),
            self@ == other@,
        ensures
            self.total_balance() == other.total_balance(),
    {
        self.lemma_total_balance();
        other.lemma_total_balance();
        assert forall|x: Address| self@[x].balance@ > 0 implies (self.addresses().contains(x)
            <==> other.addresses().contains(x)) by {
            if !self.addresses().contains(x) {
                assert(self@[x] == Account::vacant(x));
            }
            if !other.addresses().contains(x) {
                assert(other@[x] == Account::vacant(x));
            }
        }
        lemma_balance_over_same_holders(self@, self.addresses(), other.addresses());
    }

    /// The balances of the first `k` entries add up to what the view holds
    /// for their addresses.
    proof fn lemma_prefix_sum(&self, k: int)
        requires
            self.wf(),
            0 <= k <= self.entries@.len(),
        ensures
            balance_sum(self.entries@.subrange(0, k)) == balance_over(
                self@,
                keys_of(self.entries@).subrange(0, k),
            ),
        decreases k,
    {
        let entries = self.entries@;
        let keys = keys_of(entries);
        if k > 0 {
            self.lemma_prefix_sum(k - 1);
            assert(entries.subrange(0, k).drop_last() =~= entries.subrange(0, k - 1));
            assert(keys.subrange(0, k).drop_last() =~= keys.subrange(0, k - 1));
            assert(entries.subrange(0, k).last() == entries[k - 1]);
            assert(keys.subrange(0, k).last() == entries[k - 1].key);
            lemma_account_of_entry(entries, k - 1);
        }
    }

    /// The view of a snapshot is defined on every address.
    pub proof fn lemma_view_total(&self)
        ensures
            forall|addr: Address| #[trigger] self@.dom().contains(addr),
    {
    }

    /// The snapshot in which every account is vacant.
    pub fn new() -> (r: State)
        ensures
            forall|addr: Address| #[trigger] r@[addr] == Account::vacant(addr),
            r.total_balance() == 0,
    {
        State { entries: Arc::new(Vec::new()) }
    }

    /// A second handle on this snapshot: an equal value that shares the
    /// records.
    pub fn duplicate(&self) -> (r: State)
        ensures
            r == *self,
    {
        proof {
            use_type_invariant(self);
        }
        State { entries: share(&self.entries) }
    }

    /// The recorded accounts, each under its address, in the order of
    /// `addresses`.
    pub fn accounts(&self) -> (r: Vec<Entry>)
        ensures
            r@.len() == self.addresses().len(),
            forall|i: int|
                0 <= i < r@.len() ==> (#[trigger] r@[i]).key == self.addresses()[i] && r@[i].account
                    == self@[self.addresses()[i]],
    {
        proof {
            use_type_invariant(self);
        }
        let mut out: Vec<Entry> = Vec::new();
        let mut i: usize = 0;
        while i < self.entries.len()
            invariant
                0 <= i <= self.entries.len(),
                out@ == self.entries@.subrange(0, i as int),
            decreases self.entries.len() - i,
        {
            out.push(self.entries[i]);
            assert(out@ =~= self.entries@.subrange(0, i as int + 1));
            i += 1;
        }
        proof {
            assert(out@ =~= self.entries@);
            assert forall|k: int| 0 <= k < out@.len() implies (#[trigger] out@[k]).key
                == self.addresses()[k] && out@[k].account == self@[self.addresses()[k]] by {
                lemma_account_of_entry(self.entries@, k);
            }
        }
        out
    }

    /// The account of an address: the one last stored for it, or the vacant
    /// account. Reading does not change the snapshot.
    pub fn get(&self, addr: &Address) -> (r: Account)
        ensures
            r == self@[*addr],
    {
        proof {
            use_type_invariant(self);
        }
        let mut i: usize = 0;
        while i < self.entries.len()
            invariant
                0 <= i <= self.entries.len(),
                self.wf(),
                forall|j: int| 0 <= j < i ==> (#[trigger] self.entries@[j]).key != *addr,
            decreases self.entries.len() - i,
        {
            if self.entries[i].key == *addr {
                return self.entries[i].account;
            }
            i += 1;
        }
        Account::empty(*addr)
    }

    /// The snapshot that holds `account` for `addr` and agrees with this
    /// one everywhere else. This snapshot itself is not changed.
    pub fn update(&self, addr: &Address, account: Account) -> (r: State)
        ensures
            r@ == self@.insert(*addr, account),
            r.total_balance() + self@[*addr].balance@ == self.total_balance() + account.balance@,
    {
        proof {
            use_type_invariant(self);
        }
        let mut entries: Vec<Entry> = Vec::new();
        let mut found = false;
        let mut i: usize = 0;
        while i < self.entries.len()
            invariant
                0 <= i <= self.entries.len(),
                self.wf(),
                entries@.len() == i,
                forall|j: int| 0 <= j < i ==> (#[trigger] entries@[j]).key == self.entries@[j].key,
                forall|j: int|
                    0 <= j < i && self.entries@[j].key != *addr ==> (#[trigger] entries@[j]).account
                        == self.entries@[j].account,
                forall|j: int|
                    0 <= j < i && self.entries@[j].key == *addr ==> (#[trigger] entries@[j]).account
                        == account,
                found <==> recorded(self.entries@.subrange(0, i as int), *addr),
                found ==> balance_sum(entries@) + self@[*addr].balance@ == balance_sum(
                    self.entries@.subrange(0, i as int),
                ) + account.balance@,
                !found ==> balance_sum(entries@) == balance_sum(
                    self.entries@.subrange(0, i as int),
                ),
            decreases self.entries.len() - i,
        {
            let entry = self.entries[i];
            let ghost before = self.entries@.subrange(0, i as int);
            let ghost after = self.entries@.subrange(0, i as int + 1);
            proof {
                assert(after =~= before.push(entry));
                lemma_balance_sum_push(before, entry);
            }
            if entry.key == *addr {
                let replaced = Entry { key: entry.key, account };
                proof {
                    lemma_balance_sum_push(entries@, replaced);
                    lemma_account_of_entry(self.entries@, i as int);
                    assert(after[i as int].key == *addr);
                    assert(!recorded(before, *addr)) by {
                        if recorded(before, *addr) {
                            let k = choose|k: int|
                                0 <= k < before.len() && (#[trigger] before[k]).key == *addr;
                            assert(self.entries@[k].key == *addr);
                        }
                    }
                }
                entries.push(replaced);
                found = true;
            } else {
                proof {
                    lemma_balance_sum_push(entries@, entry);
                    if recorded(after, *addr) {
                        let k = choose|k: int|
                            0 <= k < after.len() && (#[trigger] after[k]).key == *addr;
                        assert(before[k].key == *addr);
                    }
                    if recorded(before, *addr) {
                        let k = choose|k: int|
                            0 <= k < before.len() && (#[trigger] before[k]).key == *addr;
                        assert(after[k].key == *addr);
                    }
                }
                entries.push(entry);
            }
            i += 1;
        }
        proof {
            assert(self.entries@.subrange(0, i as int) =~= self.entries@);
        }
        if !found {
            let fresh = Entry { key: *addr, account };
            proof {
                lemma_balance_sum_push(entries@, fresh);
                assert(self@[*addr] == Account::vacant(*addr));
            }
            entries.push(fresh);
        }
        proof {
            assert(distinct_keys(entries@));
        }
        let r = State { entries: Arc::new(entries) };
        proof {
            assert forall|a: Address| #[trigger] r@[a] == self@.insert(*addr, account)[a] by {
                if recorded(self.entries@, a) {
                    let k = choose|k: int|
                        0 <= k < self.entries@.len() && (#[trigger] self.entries@[k]).key == a;
                    lemma_account_of_entry(self.entries@, k);
                    lemma_account_of_entry(r.entries@, k);
                } else if a == *addr {
                    lemma_account_of_entry(r.entries@, r.entries@.len() - 1);
                } else {
                    if recorded(r.entries@, a) {
                        let m = choose|m: int|
                            0 <= m < r.entries@.len() && (#[trigger] r.entries@[m]).key == a;
                        if m < self.entries@.len() {
                            assert(self.entries@[m].key == a);
                        }
                    }
                }
            }
            assert(r@ =~= self@.insert(*addr, account));
        }
        r
    }
}

impl Clone for State {
    /// A second handle on this snapshot: an equal value that shares the
    /// records.
    fn clone(&self) -> (r: State)
        ensures
            r == *self,
    {
        self.duplicate()
    }
}

impl Default for State {
    /// The snapshot in which every account is vacant.
    fn default() -> (r: State)
        ensures
            forall|addr: Address| #[trigger] r@[addr] == Account::vacant(addr),
            r.total_balance() == 0,
    {
        State::new()
    }
}

} // verus!
