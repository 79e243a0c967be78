//! What each holder has approved for each spender.

use vstd::prelude::*;
use vstd::hash_map::StringHashMap;
use crate::holdings::amounts;
use crate::ledger::{approved_by, granted};
use crate::tally::amount_at;

verus! {

/// The allowances of a token. Those that one holder has given stand in a
/// table of their own; `owners` gives the place of that table in `grants`.
pub(crate) struct Approvals {
    owners: StringHashMap<usize>,
    grants: Vec<StringHashMap<u128>>,
}

impl View for Approvals {
    type V = Map<Seq<char>, Map<Seq<char>, nat>>;

    closed spec fn view(&self) -> Map<Seq<char>, Map<Seq<char>, nat>> {
        Map::new(
            |owner: Seq<char>| self.owners@.contains_key(owner),
            |owner: Seq<char>| amounts(self.grants@[self.owners@[owner] as int]@),
        )
    }
}

impl Approvals {
    /// Every holder with allowances has a table in `grants`, and no two
    /// holders share one.
    #[verifier::type_invariant]
    spec fn tables_ok(&self) -> bool {
        &&& forall|owner: Seq<char>|
            self.owners@.contains_key(owner) ==> (#[trigger] self.owners@[owner])
                < self.grants@.len()
        &&& forall|a: Seq<char>, b: Seq<char>|
            self.owners@.contains_key(a) && self.owners@.contains_key(b) && a != b
                ==> #[trigger] self.owners@[a] != #[trigger] self.owners@[b]
    }

    /// Nothing approved by anyone.
    pub(crate) fn new() -> (approvals: Self)
        ensures
            approvals@ == Map::<Seq<char>, Map<Seq<char>, nat>>::empty(),
    {
        let approvals = Approvals { owners: StringHashMap::new(), grants: Vec::new() };
        assert(approvals@ =~= Map::<Seq<char>, Map<Seq<char>, nat>>::empty());
        approvals
    }

    /// How much of `owner`'s holdings `spender` may still move: zero if
    /// `owner` never approved `spender`.
    pub(crate) fn allowance(&self, owner: &str, spender: &str) -> (allowance: u128)
        ensures
            allowance == amount_at(approved_by(self@, owner@), spender@),
    {
        proof {
            use_type_invariant(self);
        }
        match self.owners.get(owner) {
            Some(slot) => match self.grants[*slot].get(spender) {
                Some(allowance) => *allowance,
                None => 0,
            },
            None => 0,
        }
    }

    /// Writes `amount` as the allowance from `owner` to `spender`, giving
    /// `owner` a table first if it has none.
    pub(crate) fn set(&mut self, owner: &str, spender: &str, amount: u128)
        ensures
            final(self)@ == granted(old(self)@, owner@, spender@, amount as nat),
    {
        proof {
            use_type_invariant(&*self);
        }
        let mut taken = Approvals::new();
        std::mem::swap(self, &mut taken);
        let Approvals { mut owners, mut grants } = taken;
        match owners.get(owner) {
            Some(slot) => {
                let slot: usize = *slot;
                grants[slot].insert(spender.to_string(), amount);
            },
            None => {
                let mut table: StringHashMap<u128> = StringHashMap::new();
                table.insert(spender.to_string(), amount);
                let slot: usize = grants.len();
                grants.push(table);
                owners.insert(owner.to_string(), slot);
            },
        }
        let approvals = Approvals { owners, grants };
        proof {
            let next = granted(old(self)@, owner@, spender@, amount as nat);
            assert forall|o: Seq<char>| next.contains_key(o) implies #[trigger] approvals@[o]
                =~= next[o] by {
                if o != owner@ {
                    assert(old(self).owners@.contains_key(o));
                    assert(old(self).owners@[o] < old(self).grants@.len());
                }
            }
            assert(approvals@ =~= next);
        }
        *self = approvals;
    }
}

} // verus!
