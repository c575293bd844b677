//! The ledger store: one entry per depositor identity, the system of record
//! for balances and logs. Addresses are unique; every stored entry is
//! well-formed.

use vstd::prelude::*;
use crate::state::Entry;

verus! {

/// One depositor's record under its identity.
pub struct LedgerSlot {
    pub address: String,
    pub entry: Entry,
}

/// The mapping from depositor identity to entry.
pub struct Ledger {
    pub entries: Vec<LedgerSlot>,
}

impl Ledger {
    /// No two slots share an address.
    pub open spec fn keys_unique(self) -> bool {
        forall|i: int, j: int|
            0 <= i < self.entries@.len() && 0 <= j < self.entries@.len() && i != j
                ==> self.entries@[i].address@ != self.entries@[j].address@
    }

    /// Addresses are unique and every entry satisfies the entry invariants.
    pub open spec fn wf(self) -> bool {
        &&& self.keys_unique()
        &&& forall|i: int| 0 <= i < self.entries@.len() ==> (#[trigger] self.entries@[i]).entry.wf()
    }

    /// Whether some slot holds `addr`.
    pub open spec fn has(self, addr: Seq<char>) -> bool {
        exists|i: int| 0 <= i < self.entries@.len() && (#[trigger] self.entries@[i]).address@ == addr
    }

    /// The position of `addr`'s slot (meaningful when `has(addr)`).
    pub open spec fn index_of(self, addr: Seq<char>) -> int {
        choose|i: int| 0 <= i < self.entries@.len() && (#[trigger] self.entries@[i]).address@ == addr
    }

    /// The entry stored under `addr` (meaningful when `has(addr)`).
    pub open spec fn spec_get(self, addr: Seq<char>) -> Entry {
        self.entries@[self.index_of(addr)].entry
    }

    /// An empty store.
    pub fn new() -> (l: Ledger)
        ensures
            l.wf(),
            l.entries@.len() == 0,
            forall|a: Seq<char>| !l.has(a),
    {
        Ledger { entries: Vec::new() }
    }

    /// Look up the position of `addr`'s slot.
    pub fn find_index(&self, addr: &String) -> (r: Option<usize>)
        ensures
            match r {
                Some(i) => i < self.entries@.len() && self.entries@[i as int].address@ == addr@,
                None => !self.has(addr@),
            },
            r is Some <==> self.has(addr@),
    {
        let n: usize = self.entries.len();
        let mut i: usize = 0;
        while i < n
            invariant
                0 <= i <= n,
                n == self.entries@.len(),
                forall|j: int| 0 <= j < i ==> (#[trigger] self.entries@[j]).address@ != addr@,
            decreases n - i,
        {
            if self.entries[i].address == *addr {
                return Some(i);
            }
            i = i + 1;
        }
        None
    }
}

/// Every identity other than `addr` resolves in `l1` exactly as it did in
/// `l0`, to the same entry.
pub open spec fn others_preserved(l0: Ledger, l1: Ledger, addr: Seq<char>) -> bool {
    forall|a: Seq<char>|
        #![trigger l1.has(a)]
        #![trigger l0.has(a)]
        a != addr ==> (l1.has(a) <==> l0.has(a)) && (l0.has(a) ==> l1.spec_get(a) == l0.spec_get(
            a,
        ))
}

/// With unique addresses, a slot that holds `addr` is the slot the store
/// resolves `addr` to.
pub proof fn lemma_index_resolves(l: Ledger, i: int, addr: Seq<char>)
    requires
        l.keys_unique(),
        0 <= i < l.entries@.len(),
        l.entries@[i].address@ == addr,
    ensures
        l.has(addr),
        l.index_of(addr) == i,
        l.spec_get(addr) == l.entries@[i].entry,
{
    assert(l.has(addr));
    let j = l.index_of(addr);
    assert(0 <= j < l.entries@.len() && l.entries@[j].address@ == addr);
}

/// Replacing the one slot that holds `addr`, address kept, leaves the store's
/// keys unique and every other identity untouched.
pub proof fn lemma_update_slot(l0: Ledger, l1: Ledger, i: int, addr: Seq<char>)
    requires
        l0.keys_unique(),
        0 <= i < l0.entries@.len(),
        l0.entries@[i].address@ == addr,
        l1.entries@.len() == l0.entries@.len(),
        l1.entries@[i].address@ == addr,
        forall|j: int| 0 <= j < l0.entries@.len() && j != i ==> l1.entries@[j] == l0.entries@[j],
    ensures
        l1.keys_unique(),
        l1.has(addr),
        l1.index_of(addr) == i,
        l1.spec_get(addr) == l1.entries@[i].entry,
        others_preserved(l0, l1, addr),
{
    assert forall|p: int, q: int|
        0 <= p < l1.entries@.len() && 0 <= q < l1.entries@.len() && p != q implies l1.entries@[p].address@
        != l1.entries@[q].address@ by {
        assert(l1.entries@[p].address@ == l0.entries@[p].address@);
        assert(l1.entries@[q].address@ == l0.entries@[q].address@);
    }
    lemma_index_resolves(l1, i, addr);
    assert forall|a: Seq<char>| a != addr implies (l1.has(a) <==> l0.has(a)) && (l0.has(a)
        ==> l1.spec_get(a) == l0.spec_get(a)) by {
        if l0.has(a) {
            let j = l0.index_of(a);
            assert(0 <= j < l0.entries@.len() && l0.entries@[j].address@ == a);
            assert(j != i);
            lemma_index_resolves(l1, j, a);
            lemma_index_resolves(l0, j, a);
        }
        if l1.has(a) {
            let j = l1.index_of(a);
            assert(0 <= j < l1.entries@.len() && l1.entries@[j].address@ == a);
            assert(j != i);
            assert(l0.entries@[j].address@ == a);
            assert(l0.has(a));
        }
    }
}

/// Appending a slot under a fresh address leaves the store's keys unique and
/// every other identity untouched.
pub proof fn lemma_push_slot(l0: Ledger, l1: Ledger, slot: LedgerSlot)
    requires
        l0.keys_unique(),
        !l0.has(slot.address@),
        l1.entries@ == l0.entries@.push(slot),
    ensures
        l1.keys_unique(),
        l1.has(slot.address@),
        l1.index_of(slot.address@) == l0.entries@.len(),
        l1.spec_get(slot.address@) == slot.entry,
        others_preserved(l0, l1, slot.address@),
{
    let n = l0.entries@.len() as int;
    let addr = slot.address@;
    assert forall|j: int| 0 <= j < n implies (#[trigger] l0.entries@[j]).address@ != addr by {
        if l0.entries@[j].address@ == addr {
            assert(l0.has(addr));
        }
    }
    assert forall|p: int, q: int|
        0 <= p < l1.entries@.len() && 0 <= q < l1.entries@.len() && p != q implies l1.entries@[p].address@
        != l1.entries@[q].address@ by {
        if p < n && q < n {
            assert(l1.entries@[p] == l0.entries@[p]);
            assert(l1.entries@[q] == l0.entries@[q]);
        } else if p < n {
            assert(l1.entries@[q] == slot);
            assert(l1.entries@[p] == l0.entries@[p]);
        } else {
            assert(l1.entries@[p] == slot);
            assert(l1.entries@[q] == l0.entries@[q]);
        }
    }
    assert(l1.entries@[n] == slot);
    lemma_index_resolves(l1, n, addr);
    assert forall|a: Seq<char>| a != addr implies (l1.has(a) <==> l0.has(a)) && (l0.has(a)
        ==> l1.spec_get(a) == l0.spec_get(a)) by {
        if l0.has(a) {
            let j = l0.index_of(a);
            assert(0 <= j < n && l0.entries@[j].address@ == a);
            assert(l1.entries@[j] == l0.entries@[j]);
            lemma_index_resolves(l1, j, a);
            lemma_index_resolves(l0, j, a);
        }
        if l1.has(a) {
            let j = l1.index_of(a);
            assert(0 <= j < l1.entries@.len() && l1.entries@[j].address@ == a);
            assert(j != n);
            assert(l0.entries@[j].address@ == a);
            assert(l0.has(a));
        }
    }
}

} // verus!
