use token_core::account::AccountId;
use token_core::livr::{balance_of, burn, get_token, initialize, mint, new_store, save_token, Token};
use token_core::owner;

fn acct(tag: u8) -> AccountId {
    let mut bytes = [0u8; 20];
    bytes[19] = tag;
    AccountId::new(bytes)
}

#[test]
fn initialize_sets_up_the_token() {
    let mut store = new_store();
    let deployer = acct(1);
    let holder = acct(2);

    assert_eq!(initialize(&mut store, &deployer, 1_000, &holder), Ok(()));
    let t = get_token(&store);
    assert_eq!(t.name, "Streamlivr");
    assert_eq!(t.symbol, "LIVR");
    assert_eq!(t.total_supply, 1_000);
    assert_eq!(balance_of(&store, &holder), 1_000);
    assert_eq!(balance_of(&store, &deployer), 0);
}

#[test]
fn initialize_refuses_bad_inputs() {
    let mut store = new_store();
    let deployer = acct(1);
    let anon = AccountId::new([0u8; 20]);

    assert_eq!(
        initialize(&mut store, &deployer, 10, &anon),
        Err("Cannot mint to zero address.".to_string())
    );
    assert_eq!(
        initialize(&mut store, &deployer, 0, &acct(2)),
        Err("Initial supply must be more than zero.".to_string())
    );
    assert_eq!(get_token(&store).total_supply, 0);
}

#[test]
fn mint_is_owner_gated_and_checked() {
    let mut store = new_store();
    let deployer = acct(1);
    let holder = acct(2);
    let stranger = acct(3);
    initialize(&mut store, &deployer, 100, &holder).unwrap();

    assert_eq!(
        mint(&mut store, &stranger, &holder, 5),
        Err("Only the owner can mint tokens.".to_string())
    );
    assert_eq!(
        mint(&mut store, &deployer, &holder, 0),
        Err("Amount must be more than zero.".to_string())
    );
    assert_eq!(
        mint(&mut store, &deployer, &holder, u64::MAX),
        Err("Amount overflows the total supply.".to_string())
    );
    assert_eq!(balance_of(&store, &holder), 100);

    assert_eq!(mint(&mut store, &deployer, &holder, 25), Ok(()));
    assert_eq!(balance_of(&store, &holder), 125);
    assert_eq!(get_token(&store).total_supply, 125);
}

#[test]
fn burn_is_owner_gated_and_bounded() {
    let mut store = new_store();
    let deployer = acct(1);
    initialize(&mut store, &deployer, 10, &deployer).unwrap();

    assert_eq!(
        burn(&mut store, &acct(3), 1),
        Err("Only the owner can burn tokens.".to_string())
    );
    assert_eq!(
        burn(&mut store, &deployer, 50),
        Err("Burn amount exceeds balance.".to_string())
    );
    assert_eq!(balance_of(&store, &deployer), 10);

    assert_eq!(burn(&mut store, &deployer, 4), Ok(()));
    assert_eq!(balance_of(&store, &deployer), 6);
    assert_eq!(get_token(&store).total_supply, 6);
}

#[test]
fn save_token_round_trips() {
    let mut store = new_store();
    let deployer = acct(1);
    initialize(&mut store, &deployer, 77, &deployer).unwrap();

    let mut other = new_store();
    let snapshot = Token {
        name: get_token(&store).name.clone(),
        symbol: get_token(&store).symbol.clone(),
        total_supply: get_token(&store).total_supply,
        balances: token_core::assoc::AssocMap { entries: Vec::new() },
        owner: deployer,
    };
    save_token(&mut other, snapshot);
    let t = get_token(&other);
    assert_eq!(t.name, "Streamlivr");
    assert_eq!(t.symbol, "LIVR");
    assert_eq!(t.total_supply, 77);
    assert_eq!(balance_of(&other, &deployer), 0);
}

#[test]
fn ownership_lifecycle() {
    let mut st = owner::new_ownable();
    let alice = acct(1);
    let bob = acct(2);
    let anon = AccountId::new([0u8; 20]);

    assert_eq!(
        owner::initialize(&mut st, &anon),
        Err("Invalid owner: 0x0000000000000000000000000000000000000000".to_string())
    );
    assert_eq!(owner::initialize(&mut st, &alice), Ok(()));
    assert!(owner::owner(&st).same(&alice));

    assert_eq!(owner::check_owner(&st, &alice), Ok(()));
    assert_eq!(
        owner::check_owner(&st, &bob),
        Err("Unauthorized account: 0x0000000000000000000000000000000000000002".to_string())
    );

    assert_eq!(
        owner::transfer_ownership(&mut st, &bob, &bob),
        Err("Unauthorized account: 0x0000000000000000000000000000000000000002".to_string())
    );
    assert_eq!(
        owner::transfer_ownership(&mut st, &alice, &anon),
        Err("Invalid owner: 0x0000000000000000000000000000000000000000".to_string())
    );
    assert_eq!(owner::transfer_ownership(&mut st, &alice, &bob), Ok(()));
    assert!(owner::owner(&st).same(&bob));

    assert_eq!(
        owner::renounce_ownership(&mut st, &alice),
        Err("Unauthorized account: 0x0000000000000000000000000000000000000001".to_string())
    );
    assert_eq!(owner::renounce_ownership(&mut st, &bob), Ok(()));
    assert!(owner::owner(&st).same(&anon));
}
