//! The executable token ledger.

use vstd::prelude::*;
use crate::approvals::Approvals;
use crate::error::TokenError;
use crate::history::Call;
use crate::holdings::Holdings;
use crate::ledger::Ledger;

verus! {

/// A fungible token: its description, its fixed supply, what each address
/// holds and what each holder has approved for each spender.
///
/// No operation has a precondition. That the balances add up to the supply is
/// kept by the token itself, and every operation says so of the token it
/// leaves. Each mutating operation leaves the ledger that the matching
/// [`Call`] leaves, so what is proved of a run of calls holds of the token.
pub struct ERC20Token {
    name: String,
    symbol: String,
    decimals: u8,
    holdings: Holdings,
    approvals: Approvals,
}

impl View for ERC20Token {
    type V = Ledger;

    closed spec fn view(&self) -> Ledger {
        Ledger {
            name: self.name@,
            symbol: self.symbol@,
            decimals: self.decimals,
            total_supply: self.holdings.supply(),
            balances: self.holdings@,
            allowances: self.approvals@,
        }
    }
}

impl ERC20Token {
    /// Creates a token whose whole supply is held by `owner`. The owner's
    /// address is taken as it is, the empty string included.
    pub fn new(
        name: String,
        symbol: String,
        decimals: u8,
        initial_supply: u128,
        owner: String,
    ) -> (token: Self)
        ensures
            token@ == Ledger::genesis(name@, symbol@, decimals, initial_supply as nat, owner@),
            token@.conserved(),
    {
        let token = ERC20Token {
            name,
            symbol,
            decimals,
            holdings: Holdings::new(owner, initial_supply),
            approvals: Approvals::new(),
        };
        proof {
            use_type_invariant(&token.holdings);
        }
        token
    }

    /// The token's name.
    pub fn name(&self) -> (name: &str)
        ensures
            name@ == self@.name,
    {
        self.name.as_str()
    }

    /// The token's ticker symbol.
    pub fn symbol(&self) -> (symbol: &str)
        ensures
            symbol@ == self@.symbol,
    {
        self.symbol.as_str()
    }

    /// The number of decimal places in which amounts are shown. Amounts are
    /// not scaled by it.
    pub fn decimals(&self) -> (decimals: u8)
        ensures
            decimals == self@.decimals,
    {
        self.decimals
    }

    /// The supply that the token was created with. It is what all balances
    /// add up to, at any time.
    pub fn total_supply(&self) -> (supply: u128)
        ensures
            supply == self@.total_supply,
            self@.conserved(),
    {
        proof {
            use_type_invariant(&self.holdings);
        }
        self.holdings.total_supply()
    }

    /// What `address` holds: zero if it never received anything.
    pub fn balance_of(&self, address: &str) -> (balance: u128)
        ensures
            balance == self@.balance_of(address@),
    {
        self.holdings.balance_of(address)
    }

    /// Moves `amount` from `from` to `to`.
    ///
    /// The call is rejected, and the token left as it is, if an address is
    /// empty or if `from` holds less than `amount`. `to` need not hold
    /// anything yet, and may be `from` itself.
    pub fn transfer(&mut self, from: &str, to: &str, amount: u128) -> (result: Result<
        (),
        TokenError,
    >)
        ensures
            match old(self)@.transfer(from@, to@, amount as nat) {
                Ok(next) => result is Ok && final(self)@ == next,
                Err(reason) => result == Err::<(), TokenError>(reason) && final(self)@ == old(
                    self,
                )@,
            },
            final(self)@ == old(self)@.after(
                (Call::Transfer { from: from@, to: to@, amount: amount as nat }),
            ),
            final(self)@.conserved(),
    {
        proof {
            use_type_invariant(&self.holdings);
        }
        if from.is_empty() || to.is_empty() {
            return Err(TokenError::InvalidAddress);
        }
        let from_balance = self.holdings.balance_of(from);
        if from_balance < amount {
            return Err(TokenError::InsufficientBalance);
        }
        self.holdings.move_amount(from, from_balance, to, amount);
        proof {
            use_type_invariant(&self.holdings);
        }
        Ok(())
    }

    /// Lets `spender` move up to `amount` of `owner`'s holdings, in place of
    /// whatever was approved before. `amount` may exceed what `owner` holds.
    ///
    /// The call is rejected, and the token left as it is, if an address is
    /// empty.
    pub fn approve(&mut self, owner: &str, spender: &str, amount: u128) -> (result: Result<
        (),
        TokenError,
    >)
        ensures
            match old(self)@.approve(owner@, spender@, amount as nat) {
                Ok(next) => result is Ok && final(self)@ == next,
                Err(reason) => result == Err::<(), TokenError>(reason) && final(self)@ == old(
                    self,
                )@,
            },
            final(self)@ == old(self)@.after(
                (Call::Approve { owner: owner@, spender: spender@, amount: amount as nat }),
            ),
            final(self)@.conserved(),
    {
        proof {
            use_type_invariant(&self.holdings);
        }
        if owner.is_empty() || spender.is_empty() {
            return Err(TokenError::InvalidAddress);
        }
        self.approvals.set(owner, spender, amount);
        Ok(())
    }

    /// How much of `owner`'s holdings `spender` may still move: zero if
    /// `owner` never approved `spender`.
    pub fn allowance(&self, owner: &str, spender: &str) -> (allowance: u128)
        ensures
            allowance == self@.allowance(owner@, spender@),
    {
        self.approvals.allowance(owner, spender)
    }

    /// On behalf of `from`, `spender` moves `amount` from `from` to `to`. The
    /// allowance that `from` gave `spender` shrinks by `amount`; what
    /// `spender` itself holds plays no part.
    ///
    /// The call is rejected, and the token left as it is, if an address is
    /// empty, if the allowance is less than `amount`, or if `from` holds less
    /// than `amount`, in this order.
    pub fn transfer_from(&mut self, spender: &str, from: &str, to: &str, amount: u128) -> (result:
        Result<(), TokenError>)
        ensures
            match old(self)@.transfer_from(spender@, from@, to@, amount as nat) {
                Ok(next) => result is Ok && final(self)@ == next,
                Err(reason) => result == Err::<(), TokenError>(reason) && final(self)@ == old(
                    self,
                )@,
            },
            final(self)@ == old(self)@.after(
                (Call::TransferFrom {
                    spender: spender@,
                    from: from@,
                    to: to@,
                    amount: amount as nat,
                }),
            ),
            final(self)@.conserved(),
    {
        proof {
            use_type_invariant(&self.holdings);
        }
        if spender.is_empty() || from.is_empty() || to.is_empty() {
            return Err(TokenError::InvalidAddress);
        }
        let current_allowance = self.approvals.allowance(from, spender);
        if current_allowance < amount {
            return Err(TokenError::InsufficientAllowance);
        }
        let from_balance = self.holdings.balance_of(from);
        if from_balance < amount {
            return Err(TokenError::InsufficientBalance);
        }
        self.approvals.set(from, spender, current_allowance - amount);
        self.holdings.move_amount(from, from_balance, to, amount);
        proof {
            use_type_invariant(&self.holdings);
        }
        Ok(())
    }
}

} // verus!
