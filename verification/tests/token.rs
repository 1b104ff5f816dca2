use svt_token::address::Address;
use svt_token::authority::Authorizations;
use svt_token::token::SvtToken;

fn setup_token() -> (Address, SvtToken) {
    let admin = Address::account(0, 1);
    let mut token = SvtToken::new();
    token
        .initialize(
            &Authorizations::of(admin),
            admin,
            String::from("StellarVault Token"),
            String::from("SVT"),
            7u32,
        )
        .unwrap();
    (admin, token)
}

#[test]
fn test_initialize() {
    let (_admin, token) = setup_token();

    assert_eq!(token.name().unwrap(), String::from("StellarVault Token"));
    assert_eq!(token.symbol().unwrap(), String::from("SVT"));
    assert_eq!(token.decimals().unwrap(), 7u32);
    assert_eq!(token.total_supply(), 0i128);
}

#[test]
#[should_panic(expected = "already initialized")]
fn test_double_initialize() {
    let (admin, mut token) = setup_token();
    let again = token.initialize(
        &Authorizations::of(admin),
        admin,
        String::from("X"),
        String::from("X"),
        7u32,
    );
    if let Err(e) = again {
        panic!("{}", e.reason());
    }
}

#[test]
fn test_mint_by_admin() {
    let (admin, mut token) = setup_token();
    let user = Address::account(0, 2);

    token.mint(&Authorizations::of(admin), user, 1_000_000i128).unwrap();

    assert_eq!(token.balance(user), 1_000_000i128);
    assert_eq!(token.total_supply(), 1_000_000i128);
}

#[test]
fn test_set_minter_and_mint() {
    let (admin, mut token) = setup_token();
    let vault = Address::contract(0, 3);
    let user = Address::account(0, 2);

    // Set vault as minter
    token.set_minter(&Authorizations::of(admin), vault).unwrap();

    // Mint via minter
    token.mint(&Authorizations::of(vault), user, 500_000i128).unwrap();

    assert_eq!(token.balance(user), 500_000i128);
    assert_eq!(token.total_supply(), 500_000i128);
}

#[test]
fn test_transfer() {
    let (admin, mut token) = setup_token();

    let alice = Address::account(0, 4);
    let bob = Address::account(0, 5);

    token.mint(&Authorizations::of(admin), alice, 1_000i128).unwrap();
    token.transfer(&Authorizations::of(alice), alice, bob, 400i128).unwrap();

    assert_eq!(token.balance(alice), 600i128);
    assert_eq!(token.balance(bob), 400i128);
    assert_eq!(token.total_supply(), 1_000i128); // supply unchanged
}

#[test]
#[should_panic(expected = "insufficient balance")]
fn test_transfer_insufficient() {
    let (admin, mut token) = setup_token();

    let alice = Address::account(0, 4);
    let bob = Address::account(0, 5);

    token.mint(&Authorizations::of(admin), alice, 100i128).unwrap();
    if let Err(e) = token.transfer(&Authorizations::of(alice), alice, bob, 200i128) {
        panic!("{}", e.reason());
    }
}

#[test]
fn test_burn() {
    let (admin, mut token) = setup_token();
    let user = Address::account(0, 2);

    token.mint(&Authorizations::of(admin), user, 1_000i128).unwrap();
    token.burn(&Authorizations::of(user), user, 300i128).unwrap();

    assert_eq!(token.balance(user), 700i128);
    assert_eq!(token.total_supply(), 700i128);
}

#[test]
#[should_panic(expected = "insufficient balance")]
fn test_burn_insufficient() {
    let (admin, mut token) = setup_token();
    let user = Address::account(0, 2);

    token.mint(&Authorizations::of(admin), user, 100i128).unwrap();
    if let Err(e) = token.burn(&Authorizations::of(user), user, 200i128) {
        panic!("{}", e.reason());
    }
}

#[test]
fn test_multiple_mints_accumulate() {
    let (admin, mut token) = setup_token();
    let user = Address::account(0, 2);
    let auth = Authorizations::of(admin);

    token.mint(&auth, user, 100i128).unwrap();
    token.mint(&auth, user, 200i128).unwrap();
    token.mint(&auth, user, 300i128).unwrap();

    assert_eq!(token.balance(user), 600i128);
    assert_eq!(token.total_supply(), 600i128);
}

#[test]
fn test_get_minter() {
    let (admin, mut token) = setup_token();

    // No minter initially
    assert_eq!(token.get_minter(), None);

    // Set minter
    let vault = Address::contract(0, 3);
    token.set_minter(&Authorizations::of(admin), vault).unwrap();
    assert_eq!(token.get_minter(), Some(vault));
}
