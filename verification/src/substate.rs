//! The side effects of one call or creation, kept apart until it is known
//! whether they stand.

use vstd::prelude::*;
use crate::hash::{Address, H256};
use crate::uint::{pow2_256, U256};

verus! {

/// One event that a contract emitted.
pub struct LogEntry {
    /// The contract that emitted it.
    pub address: Address,
    /// The topics it is filed under.
    pub topics: Vec<H256>,
    /// Its data.
    pub data: Vec<u8>,
}

/// The side effects gathered so far.
pub struct Substate {
    /// The accounts that destroyed themselves, each once.
    pub suicides: Vec<Address>,
    /// The events emitted, in order.
    pub logs: Vec<LogEntry>,
    /// How often a storage slot went from a value to zero.
    pub sstore_clears_count: U256,
    /// The contracts created, in order.
    pub contracts_created: Vec<Address>,
}

/// The sum of two counters, held at the largest value a counter can take.
pub open spec fn capped_sum(a: nat, b: nat) -> nat {
    if a + b < pow2_256() {
        a + b
    } else {
        (pow2_256() - 1) as nat
    }
}

/// The list `first` followed by those of `second` that are not listed yet,
/// each once and in their order.
pub open spec fn joined_once(first: Seq<Address>, second: Seq<Address>) -> Seq<Address>
    decreases second.len(),
{
    if second.len() == 0 {
        first
    } else {
        let so_far = joined_once(first, second.drop_last());
        if so_far.contains(second.last()) {
            so_far
        } else {
            so_far.push(second.last())
        }
    }
}

/// Whether two lists of events hold the same events in the same order.
pub open spec fn logs_alike(a: Seq<LogEntry>, b: Seq<LogEntry>) -> bool {
    &&& a.len() == b.len()
    &&& forall|i: int|
        0 <= i < a.len() ==> {
            &&& (#[trigger] a[i]).address == b[i].address
            &&& a[i].topics@ == b[i].topics@
            &&& a[i].data@ == b[i].data@
        }
}

/// Lists of events that are alike stay so when lists that are alike follow
/// them.
pub proof fn lemma_logs_alike_joined(
    a: Seq<LogEntry>,
    b: Seq<LogEntry>,
    c: Seq<LogEntry>,
    d: Seq<LogEntry>,
)
    requires
        logs_alike(a, b),
        logs_alike(c, d),
    ensures
        logs_alike(a + c, b + d),
{
    assert forall|i: int| 0 <= i < (a + c).len() implies {
        &&& (#[trigger] (a + c)[i]).address == (b + d)[i].address
        &&& (a + c)[i].topics@ == (b + d)[i].topics@
        &&& (a + c)[i].data@ == (b + d)[i].data@
    } by {
        if i < a.len() {
            assert((a + c)[i] == a[i]);
            assert((b + d)[i] == b[i]);
        } else {
            assert((a + c)[i] == c[i - a.len()]);
            assert((b + d)[i] == d[i - b.len()]);
        }
    }
}

impl Substate {
    /// Whether two substates hold the same side effects: the same accounts
    /// destroyed, the same events and contracts in the same order, and the
    /// same count of slots cleared.
    pub open spec fn alike(self, other: Substate) -> bool {
        &&& self.suicide_set() == other.suicide_set()
        &&& self.suicides@.len() == other.suicides@.len()
        &&& logs_alike(self.logs@, other.logs@)
        &&& self.sstore_clears_count@ == other.sstore_clears_count@
        &&& self.contracts_created@ == other.contracts_created@
    }

    /// No account is listed twice among those that destroyed themselves.
    pub open spec fn wf(&self) -> bool {
        self.suicides@.no_duplicates()
    }

    /// As many accounts are listed as have destroyed themselves.
    pub proof fn lemma_suicides_counted(&self)
        requires
            self.wf(),
        ensures
            self.suicides@.len() == self.suicide_set().len(),
    {
        self.suicides@.unique_seq_to_set();
    }

    /// The set of accounts that destroyed themselves.
    pub open spec fn suicide_set(&self) -> Set<Address> {
        self.suicides@.to_set()
    }

    /// Whether nothing has been gathered.
    pub open spec fn is_empty(&self) -> bool {
        &&& self.suicides@.len() == 0
        &&& self.logs@.len() == 0
        &&& self.sstore_clears_count@ == 0
        &&& self.contracts_created@.len() == 0
    }

    /// A substate that holds nothing.
    pub fn new() -> (r: Substate)
        ensures
            r.wf(),
            r.is_empty(),
    {
        Substate {
            suicides: Vec::new(),
            logs: Vec::new(),
            sstore_clears_count: U256::zero(),
            contracts_created: Vec::new(),
        }
    }

    /// Whether the account is among those that destroyed themselves.
    pub fn has_suicide(&self, address: &Address) -> (r: bool)
        ensures
            r == self.suicides@.contains(*address),
    {
        let mut i: usize = 0;
        while i < self.suicides.len()
            invariant
                i <= self.suicides@.len(),
                forall|j: int| 0 <= j < i ==> self.suicides@[j] != *address,
            decreases self.suicides@.len() - i,
        {
            if self.suicides[i] == *address {
                return true;
            }
            i = i + 1;
        }
        false
    }

    /// Notes that the account destroyed itself.
    pub fn add_suicide(&mut self, address: Address)
        requires
            old(self).wf(),
        ensures
            final(self).wf(),
            final(self).suicide_set() == old(self).suicide_set().insert(address),
            final(self).suicides@ == if old(self).suicides@.contains(address) {
                old(self).suicides@
            } else {
                old(self).suicides@.push(address)
            },
            final(self).logs == old(self).logs,
            final(self).sstore_clears_count == old(self).sstore_clears_count,
            final(self).contracts_created == old(self).contracts_created,
    {
        if !self.has_suicide(&address) {
            self.suicides.push(address);
        }
        proof {
            let before = old(self).suicides@;
            let after = final(self).suicides@;
            assert forall|a: Address| after.contains(a) == (before.contains(a) || a == address) by {
                if before.contains(a) {
                    let k = choose|k: int| 0 <= k < before.len() && before[k] == a;
                    assert(after[k] == a);
                }
                if after.contains(a) && a != address {
                    let k = choose|k: int| 0 <= k < after.len() && after[k] == a;
                    assert(before[k] == a);
                }
                if a == address && !before.contains(address) {
                    assert(after[before.len() as int] == a);
                }
            }
            assert(final(self).suicide_set() =~= old(self).suicide_set().insert(address));
        }
    }

    /// Takes over what another substate gathered: its events and created
    /// contracts follow this one's, its destroyed accounts join this one's,
    /// those that are new behind those listed, and its count of cleared
    /// slots is added.
    pub fn accrue(&mut self, other: Substate)
        requires
            old(self).wf(),
        ensures
            final(self).wf(),
            final(self).suicide_set() == old(self).suicide_set().union(other.suicide_set()),
            final(self).suicides@ == joined_once(old(self).suicides@, other.suicides@),
            final(self).suicides@.len() >= old(self).suicides@.len(),
            final(self).logs@ == old(self).logs@ + other.logs@,
            final(self).contracts_created@ == old(self).contracts_created@
                + other.contracts_created@,
            final(self).sstore_clears_count@ == capped_sum(
                old(self).sstore_clears_count@,
                other.sstore_clears_count@,
            ),
    {
        let mut other = other;
        let ghost given = other.suicides@;
        let mut i: usize = 0;
        while i < other.suicides.len()
            invariant
                i <= other.suicides@.len(),
                other.suicides@ == given,
                self.wf(),
                self.suicide_set() == old(self).suicide_set().union(
                    given.subrange(0, i as int).to_set(),
                ),
                self.suicides@ == joined_once(old(self).suicides@, given.subrange(0, i as int)),
                self.suicides@.len() >= old(self).suicides@.len(),
                self.logs == old(self).logs,
                self.sstore_clears_count == old(self).sstore_clears_count,
                self.contracts_created == old(self).contracts_created,
            decreases other.suicides@.len() - i,
        {
            let ghost before = self.suicide_set();
            self.add_suicide(other.suicides[i]);
            proof {
                assert(given.subrange(0, i + 1) =~= given.subrange(0, i as int).push(given[i as int]));
                assert(given.subrange(0, i + 1).drop_last() =~= given.subrange(0, i as int));
                assert(given.subrange(0, i + 1).to_set() =~= given.subrange(0, i as int).to_set().insert(
                    given[i as int],
                )) by {
                    let longer = given.subrange(0, i + 1);
                    let shorter = given.subrange(0, i as int);
                    assert forall|a: Address| longer.to_set().contains(a) == shorter.to_set().insert(
                        given[i as int],
                    ).contains(a) by {
                        if longer.contains(a) {
                            let k = choose|k: int| 0 <= k < longer.len() && longer[k] == a;
                            if k < i {
                                assert(shorter[k] == a);
                            }
                        }
                        if shorter.contains(a) {
                            let k = choose|k: int| 0 <= k < shorter.len() && shorter[k] == a;
                            assert(longer[k] == a);
                        }
                        if a == given[i as int] {
                            assert(longer[i as int] == a);
                        }
                    }
                }
                assert(self.suicide_set() =~= old(self).suicide_set().union(
                    given.subrange(0, i + 1).to_set(),
                ));
            }
            i = i + 1;
        }
        proof {
            assert(given.subrange(0, i as int) =~= given);
        }
        self.logs.append(&mut other.logs);
        self.contracts_created.append(&mut other.contracts_created);
        self.sstore_clears_count = self.sstore_clears_count.saturating_add(
            other.sstore_clears_count,
        );
    }
}

} // verus!
