//! The ledger as a mathematical value: what the token is, who holds how much
//! of it, and who may spend how much of whose holdings.
//!
//! Every operation is a function from a ledger to the next ledger or to the
//! reason for which the call is rejected. The contracts of the executable
//! token are stated through these functions.

use vstd::prelude::*;
use crate::error::TokenError;
use crate::tally::{amount_at, lemma_amount_le_total, lemma_total_empty, lemma_total_insert, total};

verus! {

/// The balances after `amount` has been taken from `from` and then given to
/// `to`. The credit reads the balance that the debit has left, so that moving
/// to oneself changes no balance.
pub open spec fn moved(
    balances: Map<Seq<char>, nat>,
    from: Seq<char>,
    to: Seq<char>,
    amount: nat,
) -> Map<Seq<char>, nat>
    recommends
        amount <= amount_at(balances, from),
{
    let debited = balances.insert(from, (amount_at(balances, from) - amount) as nat);
    debited.insert(to, amount_at(debited, to) + amount)
}

/// Everything that `owner` has approved, by spender.
pub open spec fn approved_by(
    allowances: Map<Seq<char>, Map<Seq<char>, nat>>,
    owner: Seq<char>,
) -> Map<Seq<char>, nat> {
    if allowances.contains_key(owner) {
        allowances[owner]
    } else {
        Map::empty()
    }
}

/// The allowances after the one from `owner` to `spender` has been set to
/// `amount`, whatever it was before.
pub open spec fn granted(
    allowances: Map<Seq<char>, Map<Seq<char>, nat>>,
    owner: Seq<char>,
    spender: Seq<char>,
    amount: nat,
) -> Map<Seq<char>, Map<Seq<char>, nat>> {
    allowances.insert(owner, approved_by(allowances, owner).insert(spender, amount))
}

/// The state of a token ledger. Addresses are strings; an address without an
/// entry holds nothing and has approved nothing.
#[verifier::ext_equal]
pub struct Ledger {
    pub name: Seq<char>,
    pub symbol: Seq<char>,
    pub decimals: u8,
    pub total_supply: nat,
    pub balances: Map<Seq<char>, nat>,
    pub allowances: Map<Seq<char>, Map<Seq<char>, nat>>,
}

impl Ledger {
    /// The ledger right after creation: `owner` holds the whole supply and
    /// nothing has been approved. `owner` may be empty.
    pub open spec fn genesis(
        name: Seq<char>,
        symbol: Seq<char>,
        decimals: u8,
        initial_supply: nat,
        owner: Seq<char>,
    ) -> Ledger {
        Ledger {
            name,
            symbol,
            decimals,
            total_supply: initial_supply,
            balances: Map::<Seq<char>, nat>::empty().insert(owner, initial_supply),
            allowances: Map::empty(),
        }
    }

    /// What `address` holds.
    pub open spec fn balance_of(self, address: Seq<char>) -> nat {
        amount_at(self.balances, address)
    }

    /// How much of `owner`'s holdings `spender` may still move.
    pub open spec fn allowance(self, owner: Seq<char>, spender: Seq<char>) -> nat {
        amount_at(approved_by(self.allowances, owner), spender)
    }

    /// The sum of all balances.
    pub open spec fn circulating(self) -> nat {
        total(self.balances)
    }

    /// The balances add up to the total supply.
    pub open spec fn conserved(self) -> bool {
        &&& self.balances.dom().finite()
        &&& self.circulating() == self.total_supply
    }

    /// The ledger with `amount` moved from `from` to `to`.
    pub open spec fn with_moved(self, from: Seq<char>, to: Seq<char>, amount: nat) -> Ledger
        recommends
            amount <= self.balance_of(from),
    {
        Ledger { balances: moved(self.balances, from, to, amount), ..self }
    }

    /// The ledger with the allowance from `owner` to `spender` set to `amount`,
    /// whatever it was before.
    pub open spec fn with_allowance(
        self,
        owner: Seq<char>,
        spender: Seq<char>,
        amount: nat,
    ) -> Ledger {
        Ledger { allowances: granted(self.allowances, owner, spender, amount), ..self }
    }

    /// Moves `amount` from `from` to `to`.
    pub open spec fn transfer(self, from: Seq<char>, to: Seq<char>, amount: nat) -> Result<
        Ledger,
        TokenError,
    > {
        if from.len() == 0 || to.len() == 0 {
            Err(TokenError::InvalidAddress)
        } else if self.balance_of(from) < amount {
            Err(TokenError::InsufficientBalance)
        } else {
            Ok(self.with_moved(from, to, amount))
        }
    }

    /// Lets `spender` move up to `amount` of `owner`'s holdings. The amount
    /// replaces an earlier one and is not held against `owner`'s balance.
    pub open spec fn approve(self, owner: Seq<char>, spender: Seq<char>, amount: nat) -> Result<
        Ledger,
        TokenError,
    > {
        if owner.len() == 0 || spender.len() == 0 {
            Err(TokenError::InvalidAddress)
        } else {
            Ok(self.with_allowance(owner, spender, amount))
        }
    }

    /// `spender` moves `amount` from `from` to `to`, out of what `from` has
    /// approved for it. The allowance is looked at before the balance.
    pub open spec fn transfer_from(
        self,
        spender: Seq<char>,
        from: Seq<char>,
        to: Seq<char>,
        amount: nat,
    ) -> Result<Ledger, TokenError> {
        if spender.len() == 0 || from.len() == 0 || to.len() == 0 {
            Err(TokenError::InvalidAddress)
        } else if self.allowance(from, spender) < amount {
            Err(TokenError::InsufficientAllowance)
        } else if self.balance_of(from) < amount {
            Err(TokenError::InsufficientBalance)
        } else {
            Ok(
                self.with_allowance(
                    from,
                    spender,
                    (self.allowance(from, spender) - amount) as nat,
                ).with_moved(from, to, amount),
            )
        }
    }
}

/// A new ledger is conserved: its one balance is the total supply.
pub proof fn lemma_genesis_conserved(
    name: Seq<char>,
    symbol: Seq<char>,
    decimals: u8,
    initial_supply: nat,
    owner: Seq<char>,
)
    ensures
        Ledger::genesis(name, symbol, decimals, initial_supply, owner).conserved(),
{
    lemma_total_empty::<Seq<char>>();
    lemma_total_insert(Map::<Seq<char>, nat>::empty(), owner, initial_supply);
}

/// Moving an amount that the payer holds leaves the sum of all balances as it
/// was, and gives no account more than that sum.
pub proof fn lemma_moved_conserves(
    balances: Map<Seq<char>, nat>,
    from: Seq<char>,
    to: Seq<char>,
    amount: nat,
)
    requires
        balances.dom().finite(),
        amount <= amount_at(balances, from),
    ensures
        moved(balances, from, to, amount).dom().finite(),
        total(moved(balances, from, to, amount)) == total(balances),
        amount_at(moved(balances, from, to, amount), to) <= total(balances),
{
    let rest = (amount_at(balances, from) - amount) as nat;
    let debited = balances.insert(from, rest);
    lemma_total_insert(balances, from, rest);
    lemma_total_insert(debited, to, amount_at(debited, to) + amount);
    lemma_amount_le_total(moved(balances, from, to, amount), to);
}

/// What each account holds after a move: the payer has `amount` less and the
/// payee `amount` more, every other account holds what it held, and a move to
/// oneself changes nothing.
pub proof fn lemma_moved_balance(
    ledger: Ledger,
    from: Seq<char>,
    to: Seq<char>,
    amount: nat,
    address: Seq<char>,
)
    requires
        amount <= ledger.balance_of(from),
    ensures
        ledger.with_moved(from, to, amount).balance_of(address) == (if from == to {
            ledger.balance_of(address)
        } else if address == from {
            (ledger.balance_of(from) - amount) as nat
        } else if address == to {
            ledger.balance_of(to) + amount
        } else {
            ledger.balance_of(address)
        }),
        ledger.with_moved(from, to, amount).allowances == ledger.allowances,
        ledger.with_moved(from, to, amount).total_supply == ledger.total_supply,
{
}

/// What each allowance is after one has been set: the one that was set is the
/// new amount, every other is what it was, and no balance has changed.
pub proof fn lemma_allowance_set(
    ledger: Ledger,
    owner: Seq<char>,
    spender: Seq<char>,
    amount: nat,
    other_owner: Seq<char>,
    other_spender: Seq<char>,
)
    ensures
        ledger.with_allowance(owner, spender, amount).allowance(other_owner, other_spender) == (
        if other_owner == owner && other_spender == spender {
            amount
        } else {
            ledger.allowance(other_owner, other_spender)
        }),
        ledger.with_allowance(owner, spender, amount).balances == ledger.balances,
        ledger.with_allowance(owner, spender, amount).total_supply == ledger.total_supply,
{
}

/// A transfer is rejected for an empty address, else for a balance that is too
/// small, and for nothing else.
pub proof fn lemma_transfer_outcome(ledger: Ledger, from: Seq<char>, to: Seq<char>, amount: nat)
    ensures
        from.len() == 0 || to.len() == 0 <==> ledger.transfer(from, to, amount) == Err::<
            Ledger,
            TokenError,
        >(TokenError::InvalidAddress),
        from.len() > 0 && to.len() > 0 && amount > ledger.balance_of(from) <==> ledger.transfer(
            from,
            to,
            amount,
        ) == Err::<Ledger, TokenError>(TokenError::InsufficientBalance),
        from.len() > 0 && to.len() > 0 && amount <= ledger.balance_of(from) <==> ledger.transfer(
            from,
            to,
            amount,
        ) is Ok,
{
}

/// An approval replaces the one before it: after two approvals for the same
/// pair the allowance is the second amount, not the sum.
pub proof fn lemma_approve_overwrites(
    ledger: Ledger,
    owner: Seq<char>,
    spender: Seq<char>,
    first: nat,
    second: nat,
)
    requires
        owner.len() > 0,
        spender.len() > 0,
    ensures
        ledger.approve(owner, spender, first) is Ok,
        ledger.approve(owner, spender, first)->Ok_0.approve(owner, spender, second) is Ok,
        ledger.approve(owner, spender, first)->Ok_0.approve(owner, spender, second)->Ok_0.allowance(
            owner,
            spender,
        ) == second,
        ledger.approve(owner, spender, first)->Ok_0.approve(owner, spender, second)
            == ledger.approve(owner, spender, second),
{
    let once = ledger.with_allowance(owner, spender, first);
    assert(once.with_allowance(owner, spender, second) =~~= ledger.with_allowance(
        owner,
        spender,
        second,
    ));
}

/// A delegated transfer is paid out of the allowance and out of the payer's
/// balance. What the spender holds is left alone unless the spender is also
/// the payer or the payee.
pub proof fn lemma_delegated_spend(
    ledger: Ledger,
    spender: Seq<char>,
    from: Seq<char>,
    to: Seq<char>,
    amount: nat,
)
    requires
        ledger.transfer_from(spender, from, to, amount) is Ok,
    ensures
        ledger.transfer_from(spender, from, to, amount)->Ok_0.allowance(from, spender)
            == ledger.allowance(from, spender) - amount,
        from != to ==> ledger.transfer_from(spender, from, to, amount)->Ok_0.balance_of(from)
            == ledger.balance_of(from) - amount,
        from != to ==> ledger.transfer_from(spender, from, to, amount)->Ok_0.balance_of(to)
            == ledger.balance_of(to) + amount,
        from == to ==> ledger.transfer_from(spender, from, to, amount)->Ok_0.balance_of(from)
            == ledger.balance_of(from),
        spender != from && spender != to ==> ledger.transfer_from(
            spender,
            from,
            to,
            amount,
        )->Ok_0.balance_of(spender) == ledger.balance_of(spender),
{
    let rest = (ledger.allowance(from, spender) - amount) as nat;
    let spent = ledger.with_allowance(from, spender, rest);
    lemma_allowance_set(ledger, from, spender, rest, from, spender);
    lemma_moved_balance(spent, from, to, amount, from);
    lemma_moved_balance(spent, from, to, amount, to);
    lemma_moved_balance(spent, from, to, amount, spender);
}

/// The allowance is looked at before the balance: where the allowance is too
/// small, a delegated transfer between non-empty addresses is rejected for
/// the allowance, whether or not the balance would have sufficed.
pub proof fn lemma_allowance_checked_first(
    ledger: Ledger,
    spender: Seq<char>,
    from: Seq<char>,
    to: Seq<char>,
    amount: nat,
)
    requires
        spender.len() > 0,
        from.len() > 0,
        to.len() > 0,
        ledger.allowance(from, spender) < amount,
    ensures
        ledger.transfer_from(spender, from, to, amount) == Err::<Ledger, TokenError>(
            TokenError::InsufficientAllowance,
        ),
{
}

} // verus!
