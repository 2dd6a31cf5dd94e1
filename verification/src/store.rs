//! The in-memory record of which addresses have transaction history,
//! harvested from the node's transaction listing. The gap diagnostics of a
//! wallet read it.

use vstd::prelude::*;

verus! {

/// Addresses observed with at least one transaction.
#[derive(Debug)]
pub struct MemoryStore {
    pub funded_addresses: Vec<String>,
}

impl MemoryStore {
    /// Whether history was recorded for the address `a`.
    pub open spec fn spec_has_history(&self, a: Seq<char>) -> bool {
        exists|i: int| 0 <= i < self.funded_addresses@.len() && #[trigger] self.funded_addresses@[i]@
            == a
    }

    /// An empty store.
    pub fn new() -> (r: MemoryStore)
        ensures
            r.funded_addresses@.len() == 0,
            forall|a: Seq<char>| !r.spec_has_history(a),
    {
        MemoryStore { funded_addresses: Vec::new() }
    }

    /// Whether history was recorded for `address`.
    pub fn has_history(&self, address: &String) -> (r: bool)
        ensures
            r == self.spec_has_history(address@),
    {
        let n = self.funded_addresses.len();
        let mut i: usize = 0;
        while i < n
            invariant
                0 <= i <= n,
                n == self.funded_addresses@.len(),
                forall|j: int| 0 <= j < i ==> #[trigger] self.funded_addresses@[j]@ != address@,
            decreases n - i,
        {
            if self.funded_addresses[i].eq(address) {
                return true;
            }
            i = i + 1;
        }
        false
    }

    /// Records history for `address`.
    pub fn record(&mut self, address: String)
        ensures
            final(self).funded_addresses@ == old(self).funded_addresses@.push(address),
            final(self).spec_has_history(address@),
            forall|a: Seq<char>| old(self).spec_has_history(a) ==> final(self).spec_has_history(a),
    {
        let ghost addr_view = address@;
        self.funded_addresses.push(address);
        proof {
            let n = self.funded_addresses@.len() - 1;
            assert(self.funded_addresses@[n]@ == addr_view);
            assert forall|a: Seq<char>| old(self).spec_has_history(a) implies self.spec_has_history(
                a,
            ) by {
                let i = choose|i: int|
                    0 <= i < old(self).funded_addresses@.len() && #[trigger] old(
                        self,
                    ).funded_addresses@[i]@ == a;
                assert(self.funded_addresses@[i]@ == a);
            }
        }
    }
}

} // verus!
