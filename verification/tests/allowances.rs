use erc20_ledger::{ERC20Token, TokenError};

fn token_with(supply: u128, owner: &str) -> ERC20Token {
    ERC20Token::new("MyToken".to_string(), "MTK".to_string(), 18, supply, owner.to_string())
}

#[test]
fn allowance_is_zero_for_a_pair_never_seen() {
    let mut token = token_with(1000, "alice");
    assert_eq!(token.allowance("alice", "bob"), 0);
    assert_eq!(token.allowance("nobody", "noone"), 0);
    token.approve("alice", "bob", 5).unwrap();
    assert_eq!(token.allowance("alice", "carol"), 0);
    assert_eq!(token.allowance("bob", "alice"), 0);
    assert_eq!(token.allowance("carol", "bob"), 0);
    assert_eq!(token.allowance("", ""), 0);
}

#[test]
fn approve_sets_the_allowance_and_no_balance() {
    let mut token = token_with(1000, "alice");
    assert_eq!(token.approve("alice", "bob", 100), Ok(()));
    assert_eq!(token.allowance("alice", "bob"), 100);
    assert_eq!(token.balance_of("alice"), 1000);
    assert_eq!(token.balance_of("bob"), 0);
}

#[test]
fn approval_overwrites_the_previous_allowance() {
    let mut token = token_with(1000, "alice");
    assert_eq!(token.approve("alice", "bob", 100), Ok(()));
    assert_eq!(token.approve("alice", "bob", 40), Ok(()));
    assert_eq!(token.allowance("alice", "bob"), 40);
    assert_eq!(token.approve("alice", "bob", 0), Ok(()));
    assert_eq!(token.allowance("alice", "bob"), 0);
    assert_eq!(token.approve("alice", "bob", 7), Ok(()));
    assert_eq!(token.allowance("alice", "bob"), 7);
}

#[test]
fn approval_may_exceed_the_balance() {
    let mut token = token_with(10, "alice");
    assert_eq!(token.approve("alice", "bob", 1_000_000), Ok(()));
    assert_eq!(token.allowance("alice", "bob"), 1_000_000);
    assert_eq!(token.approve("pauper", "bob", u128::MAX), Ok(()));
    assert_eq!(token.allowance("pauper", "bob"), u128::MAX);
    assert_eq!(
        token.transfer_from("bob", "alice", "carol", 11),
        Err(TokenError::InsufficientBalance)
    );
    assert_eq!(token.allowance("alice", "bob"), 1_000_000);
    assert_eq!(token.transfer_from("bob", "alice", "carol", 10), Ok(()));
    assert_eq!(token.allowance("alice", "bob"), 999_990);
    assert_eq!(token.balance_of("carol"), 10);
}

#[test]
fn approve_rejects_an_empty_owner() {
    let mut token = token_with(1000, "alice");
    assert_eq!(token.approve("", "bob", 1), Err(TokenError::InvalidAddress));
    assert_eq!(token.allowance("", "bob"), 0);
}

#[test]
fn approve_rejects_an_empty_spender() {
    let mut token = token_with(1000, "alice");
    token.approve("alice", "bob", 9).unwrap();
    assert_eq!(token.approve("alice", "", 1), Err(TokenError::InvalidAddress));
    assert_eq!(token.allowance("alice", ""), 0);
    assert_eq!(token.allowance("alice", "bob"), 9);
}

#[test]
fn allowances_of_different_pairs_do_not_mix() {
    let mut token = token_with(1000, "alice");
    token.approve("alice", "bob", 1).unwrap();
    token.approve("carol", "bob", 2).unwrap();
    token.approve("alice", "dave", 3).unwrap();
    token.approve("bob", "alice", 4).unwrap();
    token.approve("carol", "dave", 5).unwrap();
    assert_eq!(token.allowance("alice", "bob"), 1);
    assert_eq!(token.allowance("carol", "bob"), 2);
    assert_eq!(token.allowance("alice", "dave"), 3);
    assert_eq!(token.allowance("bob", "alice"), 4);
    assert_eq!(token.allowance("carol", "dave"), 5);
    assert_eq!(token.allowance("bob", "dave"), 0);
    assert_eq!(token.allowance("dave", "carol"), 0);
    token.approve("carol", "bob", 20).unwrap();
    assert_eq!(token.allowance("alice", "bob"), 1);
    assert_eq!(token.allowance("carol", "bob"), 20);
    assert_eq!(token.allowance("carol", "dave"), 5);
}

#[test]
fn delegated_spend_decrements_allowance_not_balance_of_spender() {
    let mut token = token_with(1000, "alice");
    token.approve("alice", "charlie", 500).unwrap();
    assert_eq!(token.balance_of("alice"), 1000);
    assert_eq!(token.allowance("alice", "charlie"), 500);
    assert_eq!(token.transfer_from("charlie", "alice", "dave", 300), Ok(()));
    assert_eq!(token.balance_of("alice"), 700);
    assert_eq!(token.balance_of("dave"), 300);
    assert_eq!(token.allowance("alice", "charlie"), 200);
    assert_eq!(token.balance_of("charlie"), 0);
}

#[test]
fn delegated_spend_leaves_what_the_spender_holds() {
    let mut token = token_with(1000, "alice");
    token.transfer("alice", "charlie", 123).unwrap();
    token.approve("alice", "charlie", 500).unwrap();
    assert_eq!(token.transfer_from("charlie", "alice", "dave", 300), Ok(()));
    assert_eq!(token.balance_of("charlie"), 123);
    assert_eq!(token.balance_of("alice"), 577);
    assert_eq!(token.balance_of("dave"), 300);
}

#[test]
fn partial_spends_leave_the_remainder() {
    let mut token = token_with(1000, "alice");
    token.approve("alice", "bob", 100).unwrap();
    assert_eq!(token.transfer_from("bob", "alice", "carol", 30), Ok(()));
    assert_eq!(token.allowance("alice", "bob"), 70);
    assert_eq!(token.transfer_from("bob", "alice", "carol", 70), Ok(()));
    assert_eq!(token.allowance("alice", "bob"), 0);
    assert_eq!(
        token.transfer_from("bob", "alice", "carol", 1),
        Err(TokenError::InsufficientAllowance)
    );
    assert_eq!(token.balance_of("alice"), 900);
    assert_eq!(token.balance_of("carol"), 100);
}

#[test]
fn spender_may_pay_itself() {
    let mut token = token_with(1000, "alice");
    token.approve("alice", "bob", 100).unwrap();
    assert_eq!(token.transfer_from("bob", "alice", "bob", 60), Ok(()));
    assert_eq!(token.balance_of("bob"), 60);
    assert_eq!(token.balance_of("alice"), 940);
    assert_eq!(token.allowance("alice", "bob"), 40);
}

#[test]
fn delegated_transfer_back_to_the_payer_spends_only_the_allowance() {
    let mut token = token_with(1000, "alice");
    token.approve("alice", "bob", 100).unwrap();
    assert_eq!(token.transfer_from("bob", "alice", "alice", 60), Ok(()));
    assert_eq!(token.balance_of("alice"), 1000);
    assert_eq!(token.allowance("alice", "bob"), 40);
}

#[test]
fn owner_needs_an_allowance_to_spend_as_its_own_spender() {
    let mut token = token_with(1000, "alice");
    assert_eq!(
        token.transfer_from("alice", "alice", "bob", 1),
        Err(TokenError::InsufficientAllowance)
    );
    token.approve("alice", "alice", 5).unwrap();
    assert_eq!(token.transfer_from("alice", "alice", "bob", 5), Ok(()));
    assert_eq!(token.balance_of("bob"), 5);
    assert_eq!(token.allowance("alice", "alice"), 0);
}

#[test]
fn allowance_is_checked_before_balance() {
    let mut token = token_with(1000, "alice");
    token.approve("alice", "bob", 100).unwrap();
    assert_eq!(
        token.transfer_from("bob", "alice", "carol", 101),
        Err(TokenError::InsufficientAllowance)
    );
    assert_eq!(
        token.transfer_from("bob", "alice", "carol", 1000),
        Err(TokenError::InsufficientAllowance)
    );
    assert_eq!(
        token.transfer_from("bob", "alice", "carol", 1001),
        Err(TokenError::InsufficientAllowance)
    );
    assert_eq!(token.balance_of("alice"), 1000);
    assert_eq!(token.balance_of("carol"), 0);
    assert_eq!(token.allowance("alice", "bob"), 100);
}

#[test]
fn delegated_transfer_above_the_balance_is_rejected_and_changes_nothing() {
    let mut token = token_with(50, "alice");
    token.approve("alice", "bob", 100).unwrap();
    assert_eq!(
        token.transfer_from("bob", "alice", "carol", 51),
        Err(TokenError::InsufficientBalance)
    );
    assert_eq!(token.balance_of("alice"), 50);
    assert_eq!(token.balance_of("carol"), 0);
    assert_eq!(token.allowance("alice", "bob"), 100);
}

#[test]
fn delegated_transfer_rejects_an_empty_spender() {
    let mut token = token_with(1000, "alice");
    assert_eq!(token.transfer_from("", "alice", "bob", 0), Err(TokenError::InvalidAddress));
}

#[test]
fn delegated_transfer_rejects_an_empty_payer() {
    let mut token = token_with(1000, "alice");
    assert_eq!(token.transfer_from("bob", "", "carol", 0), Err(TokenError::InvalidAddress));
}

#[test]
fn delegated_transfer_rejects_an_empty_payee() {
    let mut token = token_with(1000, "alice");
    token.approve("alice", "bob", 10).unwrap();
    assert_eq!(token.transfer_from("bob", "alice", "", 5), Err(TokenError::InvalidAddress));
    assert_eq!(token.allowance("alice", "bob"), 10);
    assert_eq!(token.balance_of("alice"), 1000);
}

#[test]
fn delegated_transfer_names_the_address_before_the_allowance() {
    let mut token = token_with(1000, "alice");
    assert_eq!(token.transfer_from("bob", "alice", "", 5), Err(TokenError::InvalidAddress));
    assert_eq!(token.transfer_from("", "alice", "carol", 5000), Err(TokenError::InvalidAddress));
}

#[test]
fn delegated_transfer_of_zero_needs_no_approval() {
    let mut token = token_with(1000, "alice");
    assert_eq!(token.transfer_from("bob", "alice", "carol", 0), Ok(()));
    assert_eq!(token.allowance("alice", "bob"), 0);
    assert_eq!(token.balance_of("alice"), 1000);
    assert_eq!(token.balance_of("carol"), 0);
    assert_eq!(token.transfer_from("bob", "stranger", "carol", 0), Ok(()));
    assert_eq!(token.balance_of("stranger"), 0);
    assert_eq!(token.allowance("stranger", "bob"), 0);
    token.approve("alice", "dave", 9).unwrap();
    assert_eq!(token.transfer_from("bob", "alice", "carol", 0), Ok(()));
    assert_eq!(token.allowance("alice", "dave"), 9);
    assert_eq!(token.allowance("alice", "bob"), 0);
}

#[test]
fn whole_allowance_of_the_largest_supply_can_be_spent() {
    let mut token = token_with(u128::MAX, "alice");
    token.approve("alice", "bob", u128::MAX).unwrap();
    assert_eq!(token.transfer_from("bob", "alice", "bob", u128::MAX), Ok(()));
    assert_eq!(token.balance_of("bob"), u128::MAX);
    assert_eq!(token.balance_of("alice"), 0);
    assert_eq!(token.allowance("alice", "bob"), 0);
}

#[test]
fn many_holders_keep_their_own_allowances() {
    let mut token = token_with(1_000_000, "mint");
    for i in 0..200u128 {
        let owner = format!("owner{}", i);
        let friend = format!("friend{}", i % 7);
        token.transfer("mint", &owner, i + 1).unwrap();
        token.approve(&owner, "broker", i).unwrap();
        token.approve(&owner, &friend, 2 * i).unwrap();
    }
    for i in 0..200u128 {
        let owner = format!("owner{}", i);
        let friend = format!("friend{}", i % 7);
        let stranger = format!("friend{}", (i + 1) % 7);
        assert_eq!(token.balance_of(&owner), i + 1);
        assert_eq!(token.allowance(&owner, "broker"), i);
        assert_eq!(token.allowance(&owner, &friend), 2 * i);
        assert_eq!(token.allowance(&owner, &stranger), 0);
        assert_eq!(token.allowance("broker", &owner), 0);
    }
    assert_eq!(token.transfer_from("broker", "owner150", "owner3", 100), Ok(()));
    assert_eq!(token.allowance("owner150", "broker"), 50);
    assert_eq!(token.allowance("owner149", "broker"), 149);
    assert_eq!(token.allowance("owner151", "broker"), 151);
    assert_eq!(token.allowance("owner150", "friend3"), 300);
    assert_eq!(token.balance_of("owner150"), 51);
    assert_eq!(token.balance_of("owner3"), 104);
    let mut sum: u128 = token.balance_of("mint") + token.balance_of("broker");
    for i in 0..200u128 {
        sum += token.balance_of(&format!("owner{}", i));
    }
    assert_eq!(sum, 1_000_000);
    assert_eq!(token.balance_of("mint"), 1_000_000 - 200 * 201 / 2);
}

#[test]
fn approval_after_a_spend_starts_afresh() {
    let mut token = token_with(1000, "alice");
    token.approve("alice", "bob", 100).unwrap();
    token.transfer_from("bob", "alice", "carol", 90).unwrap();
    assert_eq!(token.allowance("alice", "bob"), 10);
    token.approve("alice", "bob", 100).unwrap();
    assert_eq!(token.allowance("alice", "bob"), 100);
    assert_eq!(token.transfer_from("bob", "alice", "carol", 100), Ok(()));
    assert_eq!(token.allowance("alice", "bob"), 0);
    assert_eq!(token.balance_of("carol"), 190);
    assert_eq!(token.balance_of("alice"), 810);
}
