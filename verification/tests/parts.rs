use svt_token::balances::Balances;
use svt_token::{
    Account, Address, AddressKind, Authorizations, DataKey, Error, Event, IssuingAuthority,
    SvtToken,
};

fn admin() -> Address {
    Address::account(0, 1)
}

fn user() -> Address {
    Address::account(0, 2)
}

fn vault() -> Address {
    Address::contract(0, 3)
}

fn initialized() -> SvtToken {
    let mut token = SvtToken::new();
    assert!(token
        .initialize(&Authorizations::of(admin()), admin(), String::from("N"), String::from("S"), 2)
        .is_ok());
    token
}

#[test]
fn identities_differ_by_kind_and_key() {
    let account = Address::account(1, 2);
    assert_eq!(account, Address { kind: AddressKind::Account, hi: 1, lo: 2 });
    assert_eq!(Address::contract(1, 2), Address { kind: AddressKind::Contract, hi: 1, lo: 2 });
    assert_eq!(account, Address::account(1, 2));
    assert_ne!(account, Address::contract(1, 2));
    assert_ne!(account, Address::account(2, 1));
    assert_ne!(account, Address::account(1, 3));
    assert_eq!(Address::account(u128::MAX, 0), Address::account(u128::MAX, 0));
}

#[test]
fn authorizations_hold_whom_they_were_given() {
    let nobody = Authorizations::none();
    assert!(!nobody.authorizes(&admin()));

    let one = Authorizations::of(admin());
    assert!(one.authorizes(&admin()));
    assert!(!one.authorizes(&user()));

    let two = Authorizations::of(admin()).and(vault()).and(admin());
    assert!(two.authorizes(&admin()));
    assert!(two.authorizes(&vault()));
    assert!(!two.authorizes(&user()));
    assert!(!two.authorizes(&Address::account(0, 3)));
}

#[test]
fn each_failure_has_its_reason() {
    assert_eq!(Error::AlreadyInitialized.reason(), "already initialized");
    assert_eq!(Error::Unauthorized.reason(), "unauthorized");
    assert_eq!(Error::InvalidAmount.reason(), "amount must be positive");
    assert_eq!(Error::InsufficientBalance.reason(), "insufficient balance");
    assert_eq!(Error::Uninitialized.reason(), "uninitialized");
}

#[test]
fn each_event_has_its_topic() {
    assert_eq!(Event::Init { admin: admin() }.topic(), "init");
    assert_eq!(Event::Minter { minter: vault() }.topic(), "minter");
    assert_eq!(Event::Mint { to: user(), amount: 1, supply: 1 }.topic(), "mint");
    assert_eq!(Event::Transfer { from: user(), to: admin(), amount: 1 }.topic(), "xfer");
    assert_eq!(Event::Burn { from: user(), amount: 1, supply: 0 }.topic(), "burn");
}

#[test]
fn the_issuing_authority_is_the_minter_or_else_the_admin() {
    let mut token = SvtToken::new();
    assert_eq!(token.issuing_authority(), None);
    assert_eq!(token.mint_authority(1), Err(Error::Uninitialized));
    assert_eq!(token.mint_authority(0), Err(Error::InvalidAmount));
    assert_eq!(token.set_minter_authority(), Err(Error::Uninitialized));
    assert_eq!(token.initialize_authority(user()), Ok(user()));

    let mut token2 = initialized();
    assert_eq!(token2.issuing_authority(), Some(IssuingAuthority::Admin(admin())));
    assert_eq!(token2.mint_authority(1), Ok(IssuingAuthority::Admin(admin())));
    assert_eq!(token2.mint_authority(-1), Err(Error::InvalidAmount));
    assert_eq!(token2.set_minter_authority(), Ok(admin()));
    assert_eq!(token2.initialize_authority(user()), Err(Error::AlreadyInitialized));

    assert!(token2.set_minter(&Authorizations::of(admin()), vault()).is_ok());
    assert_eq!(token2.issuing_authority(), Some(IssuingAuthority::Minter(vault())));
    assert_eq!(token2.mint_authority(9), Ok(IssuingAuthority::Minter(vault())));
    assert_eq!(token2.set_minter_authority(), Ok(admin()));

    assert_eq!(IssuingAuthority::Minter(vault()).identity(), vault());
    assert_eq!(IssuingAuthority::Admin(admin()).identity(), admin());

    assert!(token.initialize(&Authorizations::of(user()), user(), String::new(), String::new(), 0)
        .is_ok());
    assert_eq!(token.issuing_authority(), Some(IssuingAuthority::Admin(user())));
}

#[test]
fn records_exist_once_written() {
    let mut token = SvtToken::new();
    let singles =
        [DataKey::Admin, DataKey::Name, DataKey::Symbol, DataKey::Decimals, DataKey::TotalSupply];
    for key in singles.iter() {
        assert!(!token.has(key));
    }
    assert!(!token.has(&DataKey::Minter));
    assert!(!token.has(&DataKey::Balance(user())));

    assert!(token
        .initialize(&Authorizations::of(admin()), admin(), String::from("N"), String::from("S"), 2)
        .is_ok());
    for key in singles.iter() {
        assert!(token.has(key));
    }
    assert!(!token.has(&DataKey::Minter));
    assert!(!token.has(&DataKey::Balance(user())));

    assert!(token.set_minter(&Authorizations::of(admin()), vault()).is_ok());
    assert!(token.has(&DataKey::Minter));

    assert!(token.mint(&Authorizations::of(vault()), user(), 10).is_ok());
    assert!(token.has(&DataKey::Balance(user())));
    assert!(!token.has(&DataKey::Balance(admin())));
    assert!(!token.has(&DataKey::Allowance(user(), admin())));

    // a record that falls to zero stays, and reads as an absent one does
    assert!(token.burn(&Authorizations::of(user()), user(), 10).is_ok());
    assert!(token.has(&DataKey::Balance(user())));
    assert_eq!(token.balance(user()), 0);
    assert_eq!(token.balance(admin()), 0);
}

#[test]
fn a_book_keeps_one_record_per_owner() {
    let mut book = Balances::new();
    assert!(book.is_empty());
    assert_eq!(book.total(), Some(0));
    assert_eq!(book.get(&user()), 0);
    assert!(!book.has(&user()));

    book.store(user(), 40);
    book.store(admin(), 2);
    book.store(user(), 41);
    assert!(!book.is_empty());
    assert!(book.has(&user()));
    assert!(!book.has(&vault()));
    assert_eq!(book.get(&user()), 41);
    assert_eq!(book.get(&admin()), 2);
    assert_eq!(book.get(&vault()), 0);
    assert_eq!(book.total(), Some(43));

    book.store(admin(), 0);
    assert!(book.has(&admin()));
    assert_eq!(book.total(), Some(41));
    assert_eq!(
        book.into_accounts(),
        vec![Account { owner: user(), amount: 41 }, Account { owner: admin(), amount: 0 }]
    );
}

#[test]
fn a_book_is_made_of_sound_records_only() {
    let sound = vec![
        Account { owner: user(), amount: 5 },
        Account { owner: admin(), amount: 0 },
        Account { owner: vault(), amount: 7 },
    ];
    let book = Balances::from_accounts(sound).unwrap();
    assert_eq!(book.get(&user()), 5);
    assert_eq!(book.get(&vault()), 7);
    assert_eq!(book.total(), Some(12));

    assert!(Balances::from_accounts(vec![]).unwrap().is_empty());

    let twice = vec![
        Account { owner: user(), amount: 5 },
        Account { owner: admin(), amount: 1 },
        Account { owner: user(), amount: 5 },
    ];
    assert!(Balances::from_accounts(twice).is_none());

    let debt = vec![Account { owner: user(), amount: 5 }, Account { owner: admin(), amount: -1 }];
    assert!(Balances::from_accounts(debt).is_none());

    let large = vec![
        Account { owner: user(), amount: i128::MAX },
        Account { owner: admin(), amount: 1 },
    ];
    assert_eq!(Balances::from_accounts(large).unwrap().total(), None);
    let fits = vec![
        Account { owner: user(), amount: i128::MAX - 1 },
        Account { owner: admin(), amount: 1 },
    ];
    assert_eq!(Balances::from_accounts(fits).unwrap().total(), Some(i128::MAX));
}
