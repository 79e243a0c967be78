//! What each address holds of a fixed supply.

use vstd::prelude::*;
use vstd::hash_map::StringHashMap;
use crate::ledger::{lemma_moved_conserves, moved};
use crate::tally::{amount_at, lemma_total_empty, lemma_total_insert, total};

verus! {

/// A map of stored amounts, read as a map of natural numbers.
pub(crate) open spec fn amounts(stored: Map<Seq<char>, u128>) -> Map<Seq<char>, nat> {
    stored.map_values(|amount: u128| amount as nat)
}

/// The balances of a token together with its supply. The balances always add
/// up to the supply, which is why no credit can overflow.
pub(crate) struct Holdings {
    supply: u128,
    balances: StringHashMap<u128>,
}

impl View for Holdings {
    type V = Map<Seq<char>, nat>;

    closed spec fn view(&self) -> Map<Seq<char>, nat> {
        amounts(self.balances@)
    }
}

impl Holdings {
    /// The supply that the balances add up to.
    pub(crate) closed spec fn supply(&self) -> nat {
        self.supply as nat
    }

    /// There are finitely many balances, and they add up to the supply.
    #[verifier::type_invariant]
    pub(crate) open spec fn conserved(&self) -> bool {
        &&& self@.dom().finite()
        &&& total(self@) == self.supply()
    }

    /// The whole of `supply` in the hands of `owner`.
    pub(crate) fn new(owner: String, supply: u128) -> (holdings: Self)
        ensures
            holdings@ == Map::<Seq<char>, nat>::empty().insert(owner@, supply as nat),
            holdings.supply() == supply,
    {
        let mut balances: StringHashMap<u128> = StringHashMap::new();
        balances.insert(owner, supply);
        proof {
            let start = Map::<Seq<char>, nat>::empty();
            assert(amounts(balances@) =~= start.insert(owner@, supply as nat));
            lemma_total_empty::<Seq<char>>();
            lemma_total_insert(start, owner@, supply as nat);
        }
        Holdings { supply, balances }
    }

    /// No supply and no holder: what stands in while the balances are worked
    /// on.
    fn vacant() -> (holdings: Self)
        ensures
            holdings@ == Map::<Seq<char>, nat>::empty(),
            holdings.supply() == 0,
    {
        let balances: StringHashMap<u128> = StringHashMap::new();
        proof {
            assert(amounts(balances@) =~= Map::<Seq<char>, nat>::empty());
            lemma_total_empty::<Seq<char>>();
        }
        Holdings { supply: 0, balances }
    }

    /// The supply.
    pub(crate) fn total_supply(&self) -> (supply: u128)
        ensures
            supply == self.supply(),
    {
        self.supply
    }

    /// What `address` holds: zero if it has no balance.
    pub(crate) fn balance_of(&self, address: &str) -> (balance: u128)
        ensures
            balance == amount_at(self@, address@),
    {
        match self.balances.get(address) {
            Some(balance) => *balance,
            None => 0,
        }
    }

    /// Takes `amount` from `from`, which holds `from_balance`, and gives it to
    /// `to`.
    pub(crate) fn move_amount(&mut self, from: &str, from_balance: u128, to: &str, amount: u128)
        requires
            from_balance == amount_at(old(self)@, from@),
            amount <= from_balance,
        ensures
            final(self)@ == moved(old(self)@, from@, to@, amount as nat),
            final(self).supply() == old(self).supply(),
    {
        proof {
            use_type_invariant(&*self);
            lemma_moved_conserves(self@, from@, to@, amount as nat);
        }
        let mut taken = Holdings::vacant();
        std::mem::swap(self, &mut taken);
        let Holdings { supply, mut balances } = taken;
        balances.insert(from.to_string(), from_balance - amount);
        let to_balance: u128 = match balances.get(to) {
            Some(balance) => *balance,
            None => 0,
        };
        balances.insert(to.to_string(), to_balance + amount);
        proof {
            assert(amounts(balances@) =~= moved(old(self)@, from@, to@, amount as nat));
        }
        *self = Holdings { supply, balances };
    }
}

} // verus!
