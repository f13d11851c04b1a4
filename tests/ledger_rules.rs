use fungible_contract::contract::AuraCoin;
use fungible_contract::types::{Event, Invocation, TokenError};

const OWNER: u64 = 10;
const U1: u64 = 11;
const U2: u64 = 12;
const S: u64 = 13;
const STRANGER: u64 = 14;

fn signed_by(sequence: u32, signers: &[u64]) -> Invocation {
    Invocation { sequence, signers: signers.to_vec() }
}

fn everyone(sequence: u32) -> Invocation {
    signed_by(sequence, &[OWNER, U1, U2, S])
}

fn minted(amount: i128) -> AuraCoin {
    let mut coin = AuraCoin::new(OWNER);
    coin.mint(&everyone(0), U1, amount).unwrap();
    coin
}

#[test]
fn supply_equals_sum_of_balances_after_mixed_operations() {
    let env = everyone(5);
    let mut coin = AuraCoin::new(OWNER);
    coin.mint(&env, U1, 1000).unwrap();
    coin.mint(&env, U2, 250).unwrap();
    coin.transfer(&env, U1, S, 300).unwrap();
    coin.approve(&env, U2, S, 100, 50).unwrap();
    coin.transfer_from(&env, S, U2, U1, 60).unwrap();
    coin.burn(&env, S, 100).unwrap();
    coin.burn_from(&env, S, U2, 40).unwrap();
    let sum = coin.balance(U1) + coin.balance(U2) + coin.balance(S) + coin.balance(OWNER);
    assert_eq!(coin.total_supply(), sum);
    assert_eq!(coin.total_supply(), 1110);
    assert_eq!(coin.balance(U1), 760);
    assert_eq!(coin.balance(U2), 150);
    assert_eq!(coin.balance(S), 200);
}

#[test]
fn balances_never_negative_after_refused_overdraft() {
    let mut coin = minted(10);
    let env = everyone(0);
    assert_eq!(coin.transfer(&env, U1, U2, 11), Err(TokenError::InsufficientBalance));
    assert_eq!(coin.burn(&env, U1, 11), Err(TokenError::InsufficientBalance));
    assert_eq!(coin.balance(U1), 10);
    assert_eq!(coin.balance(U2), 0);
    assert_eq!(coin.balance(STRANGER), 0);
}

#[test]
fn self_transfer_of_zero_changes_nothing() {
    let mut coin = minted(1000);
    let env = everyone(0);
    assert_eq!(coin.transfer(&env, U1, U1, 0), Ok(()));
    assert_eq!(coin.balance(U1), 1000);
    assert_eq!(coin.total_supply(), 1000);
    assert_eq!(coin.transfer(&env, U2, U2, 0), Ok(()));
    assert_eq!(coin.balance(U2), 0);
}

#[test]
fn self_transfer_of_whole_balance_keeps_it() {
    let mut coin = minted(1000);
    assert_eq!(coin.transfer(&everyone(0), U1, U1, 1000), Ok(()));
    assert_eq!(coin.balance(U1), 1000);
}

#[test]
fn allowance_expires_at_its_height() {
    let mut coin = minted(1000);
    let h: u32 = 40;
    coin.approve(&everyone(0), U1, S, 500, h).unwrap();
    assert_eq!(coin.allowance(&everyone(h - 1), U1, S), 500);
    assert_eq!(coin.allowance(&everyone(h), U1, S), 0);
    assert_eq!(coin.allowance(&everyone(h + 1), U1, S), 0);
    assert_eq!(
        coin.transfer_from(&everyone(h + 1), S, U1, U2, 1),
        Err(TokenError::InsufficientAllowance)
    );
    assert_eq!(coin.burn_from(&everyone(h + 1), S, U1, 1), Err(TokenError::InsufficientAllowance));
    assert_eq!(coin.balance(U1), 1000);
}

#[test]
fn mint_by_non_owner_is_unauthorized() {
    let mut coin = minted(1000);
    let env = signed_by(0, &[U1, U2, STRANGER]);
    assert_eq!(coin.mint(&env, U1, 5), Err(TokenError::Unauthorized));
    assert_eq!(coin.balance(U1), 1000);
    assert_eq!(coin.total_supply(), 1000);
}

#[test]
fn pause_blocks_transfers_until_unpause() {
    let mut coin = minted(1000);
    let env = everyone(0);
    coin.pause(&env, OWNER).unwrap();
    assert_eq!(coin.transfer(&env, U1, U2, 10), Err(TokenError::ContractPaused));
    assert_eq!(coin.burn(&env, U1, 10), Err(TokenError::ContractPaused));
    assert_eq!(coin.mint(&env, U1, 10), Err(TokenError::ContractPaused));
    assert_eq!(coin.balance(U1), 1000);
    coin.unpause(&env, OWNER).unwrap();
    assert_eq!(coin.transfer(&env, U1, U2, 10), Ok(()));
    assert_eq!(coin.balance(U2), 10);
}

#[test]
fn pause_twice_succeeds_and_approve_is_not_gated() {
    let mut coin = minted(1000);
    let env = everyone(0);
    assert_eq!(coin.pause(&env, OWNER), Ok(()));
    assert_eq!(coin.pause(&env, OWNER), Ok(()));
    assert_eq!(coin.approve(&env, U1, S, 5, 10), Ok(()));
    assert_eq!(coin.allowance(&env, U1, S), 5);
}

#[test]
fn pause_by_non_owner_is_unauthorized() {
    let mut coin = minted(1000);
    assert_eq!(coin.pause(&everyone(0), U1), Err(TokenError::Unauthorized));
    assert_eq!(coin.pause(&signed_by(0, &[U1]), OWNER), Err(TokenError::Unauthorized));
    assert_eq!(coin.paused(), false);
}

#[test]
fn scenario_construct_and_mint() {
    let mut coin = AuraCoin::new(OWNER);
    coin.mint(&signed_by(0, &[OWNER]), U1, 1000).unwrap();
    assert_eq!(coin.balance(U1), 1000);
    assert_eq!(coin.total_supply(), 1000);
}

#[test]
fn scenario_transfer_and_delegated_transfer_and_burn() {
    let mut coin = minted(1000);
    let h: u32 = 7;
    coin.transfer(&signed_by(h, &[U1]), U1, U2, 500).unwrap();
    assert_eq!(coin.balance(U1), 500);
    assert_eq!(coin.balance(U2), 500);
    coin.approve(&signed_by(h, &[U1]), U1, S, 500, h + 100).unwrap();
    coin.transfer_from(&signed_by(h, &[S]), S, U1, U2, 300).unwrap();
    assert_eq!(coin.balance(U1), 200);
    assert_eq!(coin.balance(U2), 800);
    assert_eq!(coin.allowance(&signed_by(h, &[]), U1, S), 200);
    coin.burn(&signed_by(h, &[U1]), U1, 200).unwrap();
    assert_eq!(coin.balance(U1), 0);
    assert_eq!(coin.total_supply(), 800);
}

#[test]
fn transfer_needs_sender_authorization() {
    let mut coin = minted(1000);
    assert_eq!(coin.transfer(&signed_by(0, &[U2]), U1, U2, 1), Err(TokenError::Unauthorized));
    assert_eq!(coin.burn(&signed_by(0, &[U2]), U1, 1), Err(TokenError::Unauthorized));
    assert_eq!(coin.approve(&signed_by(0, &[S]), U1, S, 1, 10), Err(TokenError::Unauthorized));
}

#[test]
fn delegated_transfer_needs_spender_authorization() {
    let mut coin = minted(1000);
    coin.approve(&everyone(0), U1, S, 100, 10).unwrap();
    assert_eq!(
        coin.transfer_from(&signed_by(0, &[U1]), S, U1, U2, 1),
        Err(TokenError::Unauthorized)
    );
    assert_eq!(coin.burn_from(&signed_by(0, &[U1]), S, U1, 1), Err(TokenError::Unauthorized));
}

#[test]
fn negative_amounts_are_invalid() {
    let mut coin = minted(1000);
    let env = everyone(0);
    assert_eq!(coin.mint(&env, U1, -1), Err(TokenError::InvalidAmount));
    assert_eq!(coin.transfer(&env, U1, U2, -1), Err(TokenError::InvalidAmount));
    assert_eq!(coin.burn(&env, U1, -1), Err(TokenError::InvalidAmount));
    assert_eq!(coin.approve(&env, U1, S, -1, 10), Err(TokenError::InvalidAmount));
    assert_eq!(coin.transfer_from(&env, S, U1, U2, -1), Err(TokenError::InvalidAmount));
    assert_eq!(coin.burn_from(&env, S, U1, -1), Err(TokenError::InvalidAmount));
}

#[test]
fn approval_in_the_past_is_invalid_unless_zero() {
    let mut coin = minted(1000);
    let env = everyone(20);
    assert_eq!(coin.approve(&env, U1, S, 5, 19), Err(TokenError::InvalidExpiration));
    coin.approve(&env, U1, S, 5, 30).unwrap();
    assert_eq!(coin.approve(&env, U1, S, 0, 19), Ok(()));
    assert_eq!(coin.allowance(&env, U1, S), 0);
}

#[test]
fn approve_overwrites_rather_than_adds() {
    let mut coin = minted(1000);
    let env = everyone(0);
    coin.approve(&env, U1, S, 300, 10).unwrap();
    coin.approve(&env, U1, S, 100, 10).unwrap();
    assert_eq!(coin.allowance(&env, U1, S), 100);
    assert_eq!(coin.allowance(&env, U2, S), 0);
}

#[test]
fn delegated_spend_beyond_allowance_is_refused() {
    let mut coin = minted(1000);
    let env = everyone(0);
    coin.approve(&env, U1, S, 100, 10).unwrap();
    assert_eq!(coin.transfer_from(&env, S, U1, U2, 101), Err(TokenError::InsufficientAllowance));
    coin.approve(&env, U2, S, 100, 10).unwrap();
    assert_eq!(coin.transfer_from(&env, S, U2, U1, 50), Err(TokenError::InsufficientBalance));
    coin.burn_from(&env, S, U1, 100).unwrap();
    assert_eq!(coin.allowance(&env, U1, S), 0);
    assert_eq!(coin.total_supply(), 900);
}

#[test]
fn mint_past_the_largest_supply_overflows() {
    let mut coin = minted(i128::MAX);
    let env = everyone(0);
    assert_eq!(coin.total_supply(), i128::MAX);
    assert_eq!(coin.mint(&env, U2, 1), Err(TokenError::Overflow));
    assert_eq!(coin.mint(&env, U2, 0), Ok(()));
    assert_eq!(coin.transfer(&env, U1, U2, i128::MAX), Ok(()));
    assert_eq!(coin.balance(U2), i128::MAX);
}

#[test]
fn renounced_ownership_refuses_owner_operations() {
    let mut coin = minted(1000);
    let env = everyone(0);
    coin.renounce_ownership(&env).unwrap();
    assert_eq!(coin.get_owner(), None);
    assert_eq!(coin.mint(&env, U1, 1), Err(TokenError::Unauthorized));
    assert_eq!(coin.pause(&env, OWNER), Err(TokenError::Unauthorized));
    assert_eq!(coin.transfer_ownership(&env, U1), Err(TokenError::Unauthorized));
}

#[test]
fn ownership_moves_to_the_new_owner() {
    let mut coin = minted(1000);
    assert_eq!(coin.transfer_ownership(&signed_by(0, &[U1]), U1), Err(TokenError::Unauthorized));
    coin.transfer_ownership(&signed_by(0, &[OWNER]), U1).unwrap();
    assert_eq!(coin.get_owner(), Some(U1));
    assert_eq!(coin.mint(&signed_by(0, &[OWNER]), U1, 1), Err(TokenError::Unauthorized));
    assert_eq!(coin.mint(&signed_by(0, &[U1]), U2, 1), Ok(()));
    assert_eq!(coin.balance(U2), 1);
}

#[test]
fn events_record_each_successful_operation() {
    let mut coin = AuraCoin::new(OWNER);
    let env = everyone(0);
    coin.mint(&env, U1, 100).unwrap();
    coin.transfer(&env, U1, U2, 40).unwrap();
    assert_eq!(coin.burn(&env, U1, 1000), Err(TokenError::InsufficientBalance));
    coin.approve(&env, U2, S, 10, 5).unwrap();
    coin.pause(&env, OWNER).unwrap();
    let expected = vec![
        Event::Mint { to: U1, amount: 100 },
        Event::Transfer { from: U1, to: U2, amount: 40 },
        Event::Approve { owner: U2, spender: S, amount: 10, live_until: 5 },
        Event::Paused,
    ];
    assert_eq!(coin.events(), &expected);
}
