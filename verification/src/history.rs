//! Ledgers over time: what holds after any number of calls.

use vstd::prelude::*;
use crate::error::TokenError;
use crate::ledger::{
    lemma_allowance_set,
    lemma_genesis_conserved,
    lemma_moved_balance,
    lemma_moved_conserves,
    Ledger,
};

verus! {

/// One call of a mutating operation, with its arguments.
pub enum Call {
    Transfer { from: Seq<char>, to: Seq<char>, amount: nat },
    Approve { owner: Seq<char>, spender: Seq<char>, amount: nat },
    TransferFrom { spender: Seq<char>, from: Seq<char>, to: Seq<char>, amount: nat },
}

impl Call {
    /// The call names `address` as payer or payee.
    pub open spec fn pays(self, address: Seq<char>) -> bool {
        match self {
            Call::Transfer { from, to, .. } => address == from || address == to,
            Call::Approve { .. } => false,
            Call::TransferFrom { from, to, .. } => address == from || address == to,
        }
    }

    /// The call sets or spends the allowance from `owner` to `spender`.
    pub open spec fn grants(self, owner: Seq<char>, spender: Seq<char>) -> bool {
        match self {
            Call::Transfer { .. } => false,
            Call::Approve { owner: o, spender: s, .. } => owner == o && spender == s,
            Call::TransferFrom { spender: s, from, .. } => owner == from && spender == s,
        }
    }
}

impl Ledger {
    /// The outcome of `call` on this ledger.
    pub open spec fn apply(self, call: Call) -> Result<Ledger, TokenError> {
        match call {
            Call::Transfer { from, to, amount } => self.transfer(from, to, amount),
            Call::Approve { owner, spender, amount } => self.approve(owner, spender, amount),
            Call::TransferFrom { spender, from, to, amount } => self.transfer_from(
                spender,
                from,
                to,
                amount,
            ),
        }
    }

    /// The ledger after `call`: a rejected call leaves it as it is.
    pub open spec fn after(self, call: Call) -> Ledger {
        match self.apply(call) {
            Ok(next) => next,
            Err(_) => self,
        }
    }

    /// The ledger after all of `calls`, made in order.
    pub open spec fn replay(self, calls: Seq<Call>) -> Ledger
        decreases calls.len(),
    {
        if calls.len() == 0 {
            self
        } else {
            self.replay(calls.drop_last()).after(calls.last())
        }
    }
}

/// No call changes the sum of all balances, the total supply or the token's
/// description.
pub proof fn lemma_call_conserves(ledger: Ledger, call: Call)
    requires
        ledger.conserved(),
    ensures
        ledger.after(call).conserved(),
        ledger.after(call).total_supply == ledger.total_supply,
        ledger.after(call).name == ledger.name,
        ledger.after(call).symbol == ledger.symbol,
        ledger.after(call).decimals == ledger.decimals,
{
    match call {
        Call::Transfer { from, to, amount } => {
            if ledger.transfer(from, to, amount) is Ok {
                lemma_moved_conserves(ledger.balances, from, to, amount);
            }
        },
        Call::Approve { .. } => {},
        Call::TransferFrom { spender, from, to, amount } => {
            if ledger.transfer_from(spender, from, to, amount) is Ok {
                lemma_moved_conserves(ledger.balances, from, to, amount);
            }
        },
    }
}

/// Conservation: whatever calls are made, accepted or rejected, the balances
/// still add up to the supply that the ledger started with.
pub proof fn lemma_replay_conserves(ledger: Ledger, calls: Seq<Call>)
    requires
        ledger.conserved(),
    ensures
        ledger.replay(calls).conserved(),
        ledger.replay(calls).circulating() == ledger.total_supply,
        ledger.replay(calls).total_supply == ledger.total_supply,
    decreases calls.len(),
{
    if calls.len() > 0 {
        lemma_replay_conserves(ledger, calls.drop_last());
        lemma_call_conserves(ledger.replay(calls.drop_last()), calls.last());
    }
}

/// A ledger that starts with its whole supply in one account keeps that sum
/// of balances through any calls.
pub proof fn lemma_supply_is_kept(
    name: Seq<char>,
    symbol: Seq<char>,
    decimals: u8,
    initial_supply: nat,
    owner: Seq<char>,
    calls: Seq<Call>,
)
    ensures
        Ledger::genesis(name, symbol, decimals, initial_supply, owner).replay(calls).circulating()
            == initial_supply,
{
    lemma_genesis_conserved(name, symbol, decimals, initial_supply, owner);
    lemma_replay_conserves(Ledger::genesis(name, symbol, decimals, initial_supply, owner), calls);
}

/// A call that does not name `address` as payer or payee leaves its balance
/// alone.
pub proof fn lemma_call_keeps_balance(ledger: Ledger, call: Call, address: Seq<char>)
    requires
        !call.pays(address),
    ensures
        ledger.after(call).balance_of(address) == ledger.balance_of(address),
{
    match call {
        Call::Transfer { from, to, amount } => {
            if ledger.transfer(from, to, amount) is Ok {
                lemma_moved_balance(ledger, from, to, amount, address);
            }
        },
        Call::Approve { .. } => {},
        Call::TransferFrom { spender, from, to, amount } => {
            if ledger.transfer_from(spender, from, to, amount) is Ok {
                let rest = (ledger.allowance(from, spender) - amount) as nat;
                lemma_moved_balance(
                    ledger.with_allowance(from, spender, rest),
                    from,
                    to,
                    amount,
                    address,
                );
            }
        },
    }
}

/// A call that neither sets nor spends the allowance from `owner` to
/// `spender` leaves it alone.
pub proof fn lemma_call_keeps_allowance(
    ledger: Ledger,
    call: Call,
    owner: Seq<char>,
    spender: Seq<char>,
)
    requires
        !call.grants(owner, spender),
    ensures
        ledger.after(call).allowance(owner, spender) == ledger.allowance(owner, spender),
{
    match call {
        Call::Transfer { .. } => {},
        Call::Approve { owner: o, spender: s, amount } => {
            lemma_allowance_set(ledger, o, s, amount, owner, spender);
        },
        Call::TransferFrom { spender: s, from, to, amount } => {
            if ledger.transfer_from(s, from, to, amount) is Ok {
                let rest = (ledger.allowance(from, s) - amount) as nat;
                lemma_allowance_set(ledger, from, s, rest, owner, spender);
            }
        },
    }
}

/// An address that no call names as payer or payee holds what it held at the
/// start.
pub proof fn lemma_replay_keeps_balance(ledger: Ledger, calls: Seq<Call>, address: Seq<char>)
    requires
        forall|i: int| 0 <= i < calls.len() ==> !(#[trigger] calls[i]).pays(address),
    ensures
        ledger.replay(calls).balance_of(address) == ledger.balance_of(address),
    decreases calls.len(),
{
    if calls.len() > 0 {
        let earlier = calls.drop_last();
        assert forall|i: int| 0 <= i < earlier.len() implies !(#[trigger] earlier[i]).pays(
            address,
        ) by {
            assert(earlier[i] == calls[i]);
        }
        lemma_replay_keeps_balance(ledger, earlier, address);
        lemma_call_keeps_balance(ledger.replay(earlier), calls.last(), address);
    }
}

/// An allowance that no call sets or spends is what it was at the start.
pub proof fn lemma_replay_keeps_allowance(
    ledger: Ledger,
    calls: Seq<Call>,
    owner: Seq<char>,
    spender: Seq<char>,
)
    requires
        forall|i: int| 0 <= i < calls.len() ==> !(#[trigger] calls[i]).grants(owner, spender),
    ensures
        ledger.replay(calls).allowance(owner, spender) == ledger.allowance(owner, spender),
    decreases calls.len(),
{
    if calls.len() > 0 {
        let earlier = calls.drop_last();
        assert forall|i: int| 0 <= i < earlier.len() implies !(#[trigger] earlier[i]).grants(
            owner,
            spender,
        ) by {
            assert(earlier[i] == calls[i]);
        }
        lemma_replay_keeps_allowance(ledger, earlier, owner, spender);
        lemma_call_keeps_allowance(ledger.replay(earlier), calls.last(), owner, spender);
    }
}

/// Zero by default, for balances: an address that is not the first owner and
/// that no call has named as payer or payee holds nothing.
pub proof fn lemma_unpaid_address_holds_nothing(
    name: Seq<char>,
    symbol: Seq<char>,
    decimals: u8,
    initial_supply: nat,
    owner: Seq<char>,
    calls: Seq<Call>,
    address: Seq<char>,
)
    requires
        address != owner,
        forall|i: int| 0 <= i < calls.len() ==> !(#[trigger] calls[i]).pays(address),
    ensures
        Ledger::genesis(name, symbol, decimals, initial_supply, owner).replay(calls).balance_of(
            address,
        ) == 0,
{
    lemma_replay_keeps_balance(
        Ledger::genesis(name, symbol, decimals, initial_supply, owner),
        calls,
        address,
    );
}

/// Zero by default, for allowances: a pair for which no call has set or
/// spent an allowance has none.
pub proof fn lemma_ungranted_pair_has_no_allowance(
    name: Seq<char>,
    symbol: Seq<char>,
    decimals: u8,
    initial_supply: nat,
    first_owner: Seq<char>,
    calls: Seq<Call>,
    owner: Seq<char>,
    spender: Seq<char>,
)
    requires
        forall|i: int| 0 <= i < calls.len() ==> !(#[trigger] calls[i]).grants(owner, spender),
    ensures
        Ledger::genesis(name, symbol, decimals, initial_supply, first_owner).replay(
            calls,
        ).allowance(owner, spender) == 0,
{
    lemma_replay_keeps_allowance(
        Ledger::genesis(name, symbol, decimals, initial_supply, first_owner),
        calls,
        owner,
        spender,
    );
}

} // verus!
