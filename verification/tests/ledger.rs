use token_core::account::AccountId;
use token_core::errors::TokenError;
use token_core::guard::{guarded_add, guarded_sub};
use token_core::nonces::NonceRegistry;
use token_core::votes::ERC20Votes;

fn acct(tag: u8) -> AccountId {
    let mut bytes = [0u8; 20];
    bytes[19] = tag;
    AccountId::new(bytes)
}

#[test]
fn mint_then_transfer_checkpoints() {
    let mut v = ERC20Votes::new();
    let a = acct(1);
    let b = acct(2);

    assert_eq!(v.mint(&a, 100, 10), Ok(()));
    assert_eq!(v.transfer(&a, &b, 30, 20), Ok(()));

    assert_eq!(v.balance_of(&a), 70);
    assert_eq!(v.balance_of(&b), 30);
    assert_eq!(v.get_votes(&a), 70);

    assert_eq!(v.num_checkpoints(&a), 2);
    let c0 = v.checkpoints(&a, 0).unwrap();
    assert_eq!((c0.marker, c0.votes), (10, 100));
    let c1 = v.checkpoints(&a, 1).unwrap();
    assert_eq!((c1.marker, c1.votes), (20, 70));

    assert_eq!(v.num_checkpoints(&b), 1);
    let d0 = v.checkpoints(&b, 0).unwrap();
    assert_eq!((d0.marker, d0.votes), (20, 30));

    // as of a time before the second checkpoint, the power is still 100
    assert_eq!(v.voting_power_at(&a, 15), 100);
    assert_eq!(v.voting_power_at(&a, 10), 100);
    // before any history
    assert_eq!(v.voting_power_at(&a, 5), 0);
    // at and after the latest marker
    assert_eq!(v.voting_power_at(&a, 20), 70);
    assert_eq!(v.voting_power_at(&a, 10_000), 70);
    assert_eq!(v.voting_power_now(&a), 70);
}

#[test]
fn burn_more_than_balance_fails_untouched() {
    let mut v = ERC20Votes::new();
    let c = acct(3);
    assert_eq!(v.mint(&c, 10, 1), Ok(()));
    assert_eq!(v.burn(&c, 50, 2), Err(TokenError::InsufficientBalance));
    assert_eq!(v.balance_of(&c), 10);
    assert_eq!(v.num_checkpoints(&c), 1);
    assert_eq!(v.burn(&c, 4, 2), Ok(()));
    assert_eq!(v.balance_of(&c), 6);
    assert_eq!(v.voting_power_now(&c), 6);
}

#[test]
fn supply_cap_is_enforced() {
    let mut v = ERC20Votes::with_cap(100);
    let a = acct(1);
    assert_eq!(v.mint(&a, 101, 1), Err(TokenError::SupplyCapExceeded));
    assert_eq!(v.balance_of(&a), 0);
    assert_eq!(v.mint(&a, 100, 1), Ok(()));
    assert_eq!(v.mint(&a, 1, 2), Err(TokenError::SupplyCapExceeded));
    assert_eq!(v.balance_of(&a), 100);
}

#[test]
fn markers_never_move_backward() {
    let mut v = ERC20Votes::new();
    let a = acct(1);
    assert_eq!(v.mint(&a, 1, 10), Ok(()));
    assert_eq!(v.mint(&a, 1, 5), Err(TokenError::InvalidMarker));
    assert_eq!(v.balance_of(&a), 1);
    assert_eq!(v.num_checkpoints(&a), 1);
}

#[test]
fn equal_markers_coalesce() {
    let mut v = ERC20Votes::new();
    let a = acct(1);
    assert_eq!(v.mint(&a, 5, 10), Ok(()));
    assert_eq!(v.mint(&a, 5, 10), Ok(()));
    assert_eq!(v.num_checkpoints(&a), 1);
    let c = v.checkpoints(&a, 0).unwrap();
    assert_eq!((c.marker, c.votes), (10, 10));
    assert_eq!(v.balance_of(&a), 10);
}

#[test]
fn self_transfer_keeps_balance() {
    let mut v = ERC20Votes::new();
    let a = acct(1);
    assert_eq!(v.mint(&a, 40, 1), Ok(()));
    assert_eq!(v.transfer(&a, &a, 15, 2), Ok(()));
    assert_eq!(v.balance_of(&a), 40);
    assert_eq!(v.num_checkpoints(&a), 2);
    let c = v.checkpoints(&a, 1).unwrap();
    assert_eq!((c.marker, c.votes), (2, 40));
}

#[test]
fn transfer_more_than_balance_fails() {
    let mut v = ERC20Votes::new();
    let a = acct(1);
    let b = acct(2);
    assert_eq!(v.mint(&a, 10, 1), Ok(()));
    assert_eq!(
        v.transfer(&a, &b, 11, 2),
        Err(TokenError::InsufficientBalance)
    );
    assert_eq!(v.balance_of(&a), 10);
    assert_eq!(v.balance_of(&b), 0);
}

#[test]
fn allowances_spend_and_refuse() {
    let mut v = ERC20Votes::new();
    let owner = acct(1);
    let spender = acct(2);
    assert_eq!(v.allowance(&owner, &spender), 0);
    v.approve(&owner, &spender, 50);
    assert_eq!(v.allowance(&owner, &spender), 50);
    assert_eq!(v.spend_allowance(&owner, &spender, 20), Ok(()));
    assert_eq!(v.allowance(&owner, &spender), 30);
    assert_eq!(
        v.spend_allowance(&owner, &spender, 31),
        Err(TokenError::InsufficientAllowance)
    );
    assert_eq!(v.allowance(&owner, &spender), 30);
    // overwrite is unconditional
    v.approve(&owner, &spender, 7);
    assert_eq!(v.allowance(&owner, &spender), 7);
    // the reversed pair is a different key
    assert_eq!(v.allowance(&spender, &owner), 0);
}

#[test]
fn binary_search_hits_every_interval() {
    let mut v = ERC20Votes::new();
    let a = acct(9);
    assert_eq!(v.mint(&a, 1, 10), Ok(()));
    assert_eq!(v.mint(&a, 1, 20), Ok(()));
    assert_eq!(v.mint(&a, 1, 30), Ok(()));
    assert_eq!(v.mint(&a, 1, 40), Ok(()));
    // balances after each mint: 1, 2, 3, 4
    assert_eq!(v.voting_power_at(&a, 9), 0);
    assert_eq!(v.voting_power_at(&a, 10), 1);
    assert_eq!(v.voting_power_at(&a, 19), 1);
    assert_eq!(v.voting_power_at(&a, 20), 2);
    assert_eq!(v.voting_power_at(&a, 29), 2);
    assert_eq!(v.voting_power_at(&a, 35), 3);
    assert_eq!(v.voting_power_at(&a, 40), 4);
    assert_eq!(v.voting_power_at(&a, u64::MAX), 4);
}

#[test]
fn nonce_replay_is_rejected() {
    let mut reg = NonceRegistry::new();
    let a = acct(1);
    assert_eq!(reg.current(&a), 0);
    assert_eq!(reg.consume(&a, 0), Ok(()));
    assert_eq!(reg.current(&a), 1);
    // replaying the consumed counter value fails and changes nothing
    assert_eq!(reg.consume(&a, 0), Err(TokenError::InvalidNonce));
    assert_eq!(reg.current(&a), 1);
    // skipping ahead is just as invalid
    assert_eq!(reg.consume(&a, 2), Err(TokenError::InvalidNonce));
    assert_eq!(reg.consume(&a, 1), Ok(()));
    assert_eq!(reg.current(&a), 2);
}

#[test]
fn guarded_arithmetic_reports_wraparound() {
    assert_eq!(guarded_add(u128::MAX, 1), Err(TokenError::ArithmeticOverflow));
    assert_eq!(guarded_add(u128::MAX - 1, 1), Ok(u128::MAX));
    assert_eq!(guarded_sub(0, 1), Err(TokenError::ArithmeticUnderflow));
    assert_eq!(guarded_sub(5, 5), Ok(0));
}

#[test]
fn update_checkpoints_records_current_balance() {
    let mut v = ERC20Votes::new();
    let a = acct(4);
    assert_eq!(v.mint(&a, 12, 1), Ok(()));
    assert_eq!(v.update_checkpoints(&a, 9), Ok(()));
    assert_eq!(v.num_checkpoints(&a), 2);
    let c = v.checkpoints(&a, 1).unwrap();
    assert_eq!((c.marker, c.votes), (9, 12));
    assert_eq!(v.update_checkpoints(&a, 3), Err(TokenError::InvalidMarker));
}
