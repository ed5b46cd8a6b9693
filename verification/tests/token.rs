use ledgers::token::{Approval, Token, TokenError, TokenEvent, Transfer};
use ledgers::AccountId;

const ALICE: AccountId = 1;
const BOB: AccountId = 2;
const CAROL: AccountId = 3;

#[test]
fn test_total_supply_is_the_constructor_value() {
    let token = Token::new(1000);
    assert_eq!(token.total_supply(), 1000);
    // Repeated queries with no mutation agree.
    assert_eq!(token.total_supply(), token.total_supply());
}

#[test]
fn test_balance_of_unset_account_faults() {
    // No account pre-holds balance: the lookup is a fault, not a zero.
    let token = Token::new(1000);
    assert_eq!(token.balance_of(ALICE), Err(TokenError::MissingBalance));
    assert_eq!(token.balance_of(BOB), Err(TokenError::MissingBalance));
}

#[test]
fn test_allowance_unset_pair_faults() {
    let token = Token::new(1000);
    assert_eq!(
        token.allowance(ALICE, BOB),
        Err(TokenError::MissingAllowance)
    );
}

#[test]
fn test_transfer_insufficient_balance_mutates_nothing() {
    let mut token = Token::new(1000);
    token.balances.insert(ALICE, 5);
    let mut events: Vec<TokenEvent> = Vec::new();
    let result = token.transfer(ALICE, BOB, 10, Vec::new(), &mut events);
    assert_eq!(result, Err(TokenError::InsufficientBalance));
    assert_eq!(token.balance_of(ALICE), Ok(5));
    assert_eq!(token.balance_of(BOB), Err(TokenError::MissingBalance));
    // No Transfer record was appended.
    assert!(events.is_empty());
}

#[test]
fn test_transfer_with_unset_caller_faults() {
    let mut token = Token::new(1000);
    let mut events: Vec<TokenEvent> = Vec::new();
    let result = token.transfer(ALICE, BOB, 0, Vec::new(), &mut events);
    assert_eq!(result, Err(TokenError::MissingBalance));
    assert!(events.is_empty());
}

#[test]
fn test_transfer_moves_value_and_emits() {
    let mut token = Token::new(1000);
    token.balances.insert(ALICE, 100);
    let mut events: Vec<TokenEvent> = Vec::new();
    let result = token.transfer(ALICE, BOB, 30, Vec::new(), &mut events);
    assert_eq!(result, Ok(()));
    assert_eq!(token.balance_of(ALICE), Ok(70));
    assert_eq!(token.balance_of(BOB), Ok(30));
    assert_eq!(events.len(), 1);
    assert_eq!(
        events[0],
        TokenEvent::Transfer(Transfer {
            from: ALICE,
            to: BOB,
            value: 30,
        })
    );
}

#[test]
fn test_transfer_credits_an_existing_recipient() {
    let mut token = Token::new(1000);
    token.balances.insert(ALICE, 100);
    token.balances.insert(BOB, 40);
    let mut events: Vec<TokenEvent> = Vec::new();
    token
        .transfer(ALICE, BOB, 25, Vec::new(), &mut events)
        .unwrap();
    assert_eq!(token.balance_of(ALICE), Ok(75));
    assert_eq!(token.balance_of(BOB), Ok(65));
}

#[test]
fn test_approve_overwrites_and_emits_nothing() {
    let mut token = Token::new(1000);
    assert_eq!(token.approve(ALICE, BOB, 50), Ok(()));
    assert_eq!(token.allowance(ALICE, BOB), Ok(50));
    // A second approval replaces the first outright; it is not additive.
    assert_eq!(token.approve(ALICE, BOB, 20), Ok(()));
    assert_eq!(token.allowance(ALICE, BOB), Ok(20));
    // No balance is required or touched.
    assert_eq!(token.balance_of(ALICE), Err(TokenError::MissingBalance));
}

#[test]
fn test_increase_allowance() {
    let mut token = Token::new(1000);
    assert_eq!(
        token.increase_allowance(ALICE, BOB, 5),
        Err(TokenError::MissingAllowance)
    );
    token.approve(ALICE, BOB, 10).unwrap();
    assert_eq!(token.increase_allowance(ALICE, BOB, 5), Ok(()));
    assert_eq!(token.allowance(ALICE, BOB), Ok(15));
    // Addition clamps at the type bound instead of overflowing.
    token.approve(ALICE, BOB, u128::MAX - 1).unwrap();
    assert_eq!(token.increase_allowance(ALICE, BOB, 7), Ok(()));
    assert_eq!(token.allowance(ALICE, BOB), Ok(u128::MAX));
}

#[test]
fn test_decrease_allowance() {
    let mut token = Token::new(1000);
    assert_eq!(
        token.decrease_allowance(ALICE, BOB, 5),
        Err(TokenError::MissingAllowance)
    );
    token.approve(ALICE, BOB, 10).unwrap();
    assert_eq!(token.decrease_allowance(ALICE, BOB, 4), Ok(()));
    assert_eq!(token.allowance(ALICE, BOB), Ok(6));
    // Subtraction clamps at zero instead of underflowing.
    assert_eq!(token.decrease_allowance(ALICE, BOB, 100), Ok(()));
    assert_eq!(token.allowance(ALICE, BOB), Ok(0));
}

#[test]
fn test_transfer_from_without_grant_faults() {
    let mut token = Token::new(1000);
    token.balances.insert(ALICE, 100);
    let mut events: Vec<TokenEvent> = Vec::new();
    let result = token.transfer_from(BOB, ALICE, CAROL, 10, Vec::new(), &mut events);
    assert_eq!(result, Err(TokenError::NotAuthorized));
    assert_eq!(token.balance_of(ALICE), Ok(100));
    assert!(events.is_empty());
}

#[test]
fn test_transfer_from_insufficient_allowance() {
    let mut token = Token::new(1000);
    token.balances.insert(ALICE, 100);
    token.approve(ALICE, BOB, 5).unwrap();
    let mut events: Vec<TokenEvent> = Vec::new();
    let result = token.transfer_from(BOB, ALICE, CAROL, 10, Vec::new(), &mut events);
    assert_eq!(result, Err(TokenError::InsufficientAllowance));
    assert_eq!(token.allowance(ALICE, BOB), Ok(5));
    assert_eq!(token.balance_of(ALICE), Ok(100));
    assert!(events.is_empty());
}

#[test]
fn test_transfer_from_missing_source_balance_faults() {
    let mut token = Token::new(1000);
    token.approve(ALICE, BOB, 50).unwrap();
    let mut events: Vec<TokenEvent> = Vec::new();
    let result = token.transfer_from(BOB, ALICE, CAROL, 10, Vec::new(), &mut events);
    assert_eq!(result, Err(TokenError::MissingBalance));
    assert!(events.is_empty());
}

#[test]
fn test_transfer_from_insufficient_balance() {
    let mut token = Token::new(1000);
    token.balances.insert(ALICE, 8);
    token.approve(ALICE, BOB, 50).unwrap();
    let mut events: Vec<TokenEvent> = Vec::new();
    let result = token.transfer_from(BOB, ALICE, CAROL, 10, Vec::new(), &mut events);
    assert_eq!(result, Err(TokenError::InsufficientBalance));
    assert_eq!(token.balance_of(ALICE), Ok(8));
    assert_eq!(token.allowance(ALICE, BOB), Ok(50));
    assert!(events.is_empty());
}

#[test]
fn test_transfer_from_moves_value_and_reduces_allowance() {
    let mut token = Token::new(1000);
    token.balances.insert(ALICE, 100);
    token.approve(ALICE, BOB, 40).unwrap();
    let mut events: Vec<TokenEvent> = Vec::new();
    let result = token.transfer_from(BOB, ALICE, CAROL, 25, Vec::new(), &mut events);
    assert_eq!(result, Ok(()));
    // The allowance shrank by exactly the value moved, as did the source
    // balance, and the recipient gained exactly that value.
    assert_eq!(token.allowance(ALICE, BOB), Ok(15));
    assert_eq!(token.balance_of(ALICE), Ok(75));
    assert_eq!(token.balance_of(CAROL), Ok(25));
    // The appended record is an Approval carrying the reduced allowance,
    // not a Transfer.
    assert_eq!(events.len(), 1);
    assert_eq!(
        events[0],
        TokenEvent::Approval(Approval {
            owner: ALICE,
            spender: BOB,
            amount: 15,
        })
    );
}

#[test]
fn test_queries_are_idempotent() {
    let mut token = Token::new(500);
    token.balances.insert(ALICE, 60);
    token.approve(ALICE, BOB, 9).unwrap();
    assert_eq!(token.balance_of(ALICE), token.balance_of(ALICE));
    assert_eq!(token.allowance(ALICE, BOB), token.allowance(ALICE, BOB));
    assert_eq!(token.total_supply(), token.total_supply());
    assert_eq!(token.balance_of(ALICE), Ok(60));
    assert_eq!(token.allowance(ALICE, BOB), Ok(9));
    assert_eq!(token.total_supply(), 500);
}

#[test]
fn test_sum_of_balances_is_conserved_by_transfers() {
    let mut token = Token::new(1000);
    token.balances.insert(ALICE, 600);
    token.balances.insert(BOB, 400);
    let mut events: Vec<TokenEvent> = Vec::new();
    token
        .transfer(ALICE, BOB, 150, Vec::new(), &mut events)
        .unwrap();
    token.approve(BOB, CAROL, 550).unwrap();
    token
        .transfer_from(CAROL, BOB, ALICE, 500, Vec::new(), &mut events)
        .unwrap();
    let a = token.balance_of(ALICE).unwrap();
    let b = token.balance_of(BOB).unwrap();
    assert_eq!(a + b, 1000);
    assert_eq!(a, 950);
    assert_eq!(b, 50);
}
