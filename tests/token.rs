use syndicate::token::{SyndicateToken, TokenError};

const CREATOR: u64 = 1;
const ALICE: u64 = 2;
const BOB: u64 = 3;

fn deployed(supply: u128, recipient: u64) -> SyndicateToken {
    let mut token = SyndicateToken::new();
    token.init("Test Token".to_string(), "TEST".to_string(), 18, supply, recipient);
    token
}

#[test]
fn test_token_init() {
    let recipient = 0u64;
    let mut token = SyndicateToken::new();
    token.init(
        "Syndicate Token".to_string(),
        "SYND".to_string(),
        18u8,
        1_000_000_000_000_000_000_000_000u128,
        recipient,
    );

    assert_eq!(token.name(), "Syndicate Token");
    assert_eq!(token.symbol(), "SYND");
    assert_eq!(token.decimals(), 18);
}

#[test]
fn test_transfer() {
    let sender = 0u64;
    let recipient = 1u64;
    let mut token = SyndicateToken::new();
    token.init(
        "Test Token".to_string(),
        "TEST".to_string(),
        18u8,
        1_000_000_000_000_000_000_000_000u128,
        sender,
    );

    token.transfer(sender, recipient, 100_000_000_000_000_000_000_000u128).unwrap();

    assert_eq!(token.balance_of(recipient), 100_000_000_000_000_000_000_000u128);
}

#[test]
fn ledger_distribution_scenario() {
    let mut token = deployed(1000, CREATOR);
    assert_eq!(token.transfer(CREATOR, ALICE, 100), Ok(true));
    assert_eq!(token.transfer(CREATOR, BOB, 50), Ok(true));
    assert_eq!(token.balance_of(CREATOR), 850);
    assert_eq!(token.balance_of(ALICE), 100);
    assert_eq!(token.balance_of(BOB), 50);
    assert_eq!(token.total_supply(), 1000);
}

#[test]
fn init_credits_whole_supply_to_recipient() {
    let token = deployed(1000, CREATOR);
    assert_eq!(token.total_supply(), 1000);
    assert_eq!(token.balance_of(CREATOR), 1000);
    assert_eq!(token.balance_of(ALICE), 0);
    assert_eq!(token.allowance(CREATOR, ALICE), 0);
}

#[test]
fn new_ledger_is_empty() {
    let token = SyndicateToken::new();
    assert_eq!(token.total_supply(), 0);
    assert_eq!(token.balance_of(CREATOR), 0);
    assert_eq!(token.name(), "");
    assert_eq!(token.symbol(), "");
    assert_eq!(token.decimals(), 0);
}

#[test]
fn zero_transfer_returns_false_and_changes_nothing() {
    let mut token = deployed(1000, CREATOR);
    assert_eq!(token.transfer(CREATOR, ALICE, 0), Ok(false));
    assert_eq!(token.balance_of(CREATOR), 1000);
    assert_eq!(token.balance_of(ALICE), 0);
}

#[test]
fn transfer_above_balance_is_refused() {
    let mut token = deployed(1000, CREATOR);
    assert_eq!(token.transfer(ALICE, BOB, 1), Err(TokenError::InsufficientBalance));
    assert_eq!(token.transfer(CREATOR, BOB, 1001), Err(TokenError::InsufficientBalance));
    assert_eq!(token.balance_of(CREATOR), 1000);
    assert_eq!(token.balance_of(BOB), 0);
}

#[test]
fn transfer_of_whole_balance() {
    let mut token = deployed(1000, CREATOR);
    assert_eq!(token.transfer(CREATOR, ALICE, 1000), Ok(true));
    assert_eq!(token.balance_of(CREATOR), 0);
    assert_eq!(token.balance_of(ALICE), 1000);
}

#[test]
fn transfer_to_self_keeps_balance() {
    let mut token = deployed(1000, CREATOR);
    assert_eq!(token.transfer(CREATOR, CREATOR, 400), Ok(true));
    assert_eq!(token.balance_of(CREATOR), 1000);
    assert_eq!(token.total_supply(), 1000);
}

#[test]
fn approve_overwrites_allowance() {
    let mut token = deployed(1000, CREATOR);
    assert!(token.approve(CREATOR, ALICE, 300));
    assert_eq!(token.allowance(CREATOR, ALICE), 300);
    assert!(token.approve(CREATOR, ALICE, 20));
    assert_eq!(token.allowance(CREATOR, ALICE), 20);
    assert_eq!(token.allowance(ALICE, CREATOR), 0);
}

#[test]
fn transfer_from_spends_allowance() {
    let mut token = deployed(1000, CREATOR);
    token.approve(CREATOR, ALICE, 300);
    assert_eq!(token.transfer_from(ALICE, CREATOR, BOB, 120), Ok(true));
    assert_eq!(token.allowance(CREATOR, ALICE), 180);
    assert_eq!(token.balance_of(CREATOR), 880);
    assert_eq!(token.balance_of(BOB), 120);
    assert_eq!(token.balance_of(ALICE), 0);
}

#[test]
fn transfer_from_above_allowance_is_refused() {
    let mut token = deployed(1000, CREATOR);
    token.approve(CREATOR, ALICE, 100);
    assert_eq!(
        token.transfer_from(ALICE, CREATOR, BOB, 101),
        Err(TokenError::InsufficientAllowance)
    );
    assert_eq!(token.allowance(CREATOR, ALICE), 100);
    assert_eq!(token.balance_of(CREATOR), 1000);
    assert_eq!(token.balance_of(BOB), 0);
}

#[test]
fn transfer_from_above_balance_keeps_allowance() {
    let mut token = deployed(1000, CREATOR);
    token.approve(ALICE, BOB, 500);
    assert_eq!(
        token.transfer_from(BOB, ALICE, BOB, 10),
        Err(TokenError::InsufficientBalance)
    );
    assert_eq!(token.allowance(ALICE, BOB), 500);
    assert_eq!(token.balance_of(BOB), 0);
}

#[test]
fn transfer_from_zero_amount_is_noop() {
    let mut token = deployed(1000, CREATOR);
    assert_eq!(token.transfer_from(ALICE, CREATOR, BOB, 0), Ok(false));
    assert_eq!(token.allowance(CREATOR, ALICE), 0);
    assert_eq!(token.balance_of(CREATOR), 1000);
}

#[test]
fn mint_raises_supply_and_balance() {
    let mut token = deployed(1000, CREATOR);
    assert_eq!(token.mint(ALICE, 250), Ok(()));
    assert_eq!(token.total_supply(), 1250);
    assert_eq!(token.balance_of(ALICE), 250);
    assert_eq!(token.balance_of(CREATOR), 1000);
}

#[test]
fn mint_beyond_u128_is_refused() {
    let mut token = deployed(u128::MAX - 5, CREATOR);
    assert_eq!(token.mint(ALICE, 6), Err(TokenError::SupplyOverflow));
    assert_eq!(token.total_supply(), u128::MAX - 5);
    assert_eq!(token.balance_of(ALICE), 0);
    assert_eq!(token.mint(ALICE, 5), Ok(()));
    assert_eq!(token.total_supply(), u128::MAX);
}

#[test]
fn balances_add_up_to_supply_after_operations() {
    let mut token = deployed(1000, CREATOR);
    token.transfer(CREATOR, ALICE, 300).unwrap();
    token.mint(BOB, 77).unwrap();
    token.approve(ALICE, BOB, 50);
    token.transfer_from(BOB, ALICE, CREATOR, 50).unwrap();
    let _ = token.transfer(BOB, ALICE, 1000);
    let sum = token.balance_of(CREATOR) + token.balance_of(ALICE) + token.balance_of(BOB);
    assert_eq!(sum, token.total_supply());
    assert_eq!(sum, 1077);
}
