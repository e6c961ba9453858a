use nft_ledger::rules::{
    burn, burn_tokens, create_domain, create_token, mint, next_token_id, BurntTokens,
};
use nft_ledger::{Domain, Error, Event};

const ALICE: u64 = 100;
const BOB: u64 = 101;

fn bytes(text: &str) -> Vec<u8> {
    text.as_bytes().to_vec()
}

fn zodiac() -> Domain {
    Domain::new(ALICE, bytes("ZOD"), bytes("Zodiac")).unwrap()
}

#[test]
fn mint_rule_needs_the_domain_and_the_range() {
    assert_eq!(mint(true, 0, 32), Ok(32));
    assert_eq!(mint(true, 16, 16), Ok(32));
    assert_eq!(mint(true, 7, 0), Ok(7));
    assert_eq!(mint(true, u64::MAX - 1, 1), Ok(u64::MAX));
    assert_eq!(mint(true, u64::MAX - 1, 2), Err(Error::BalanceOverflow));
    assert_eq!(mint(false, 0, 32), Err(Error::InvalidDomain));
    // the missing domain is reported before the overflow
    assert_eq!(mint(false, u64::MAX, 1), Err(Error::InvalidDomain));
}

#[test]
fn burn_rule_needs_the_domain_and_the_balance() {
    assert_eq!(burn(true, 32, 16), Ok(16));
    assert_eq!(burn(true, 16, 16), Ok(0));
    assert_eq!(burn(true, 16, 0), Ok(16));
    assert_eq!(burn(true, 16, 17), Err(Error::BalanceOverflow));
    assert_eq!(burn(true, 0, 1), Err(Error::BalanceOverflow));
    assert_eq!(burn(false, 32, 16), Err(Error::InvalidDomain));
    // the missing domain is reported before the underflow
    assert_eq!(burn(false, 0, 1), Err(Error::InvalidDomain));
}

#[test]
fn create_domain_rule_takes_the_counter() {
    let mut counter: u64 = 0;
    let created = create_domain(&mut counter, ALICE, bytes("ZOD"), bytes("Zodiac")).unwrap();
    assert_eq!(created.domain_id, 0);
    assert_eq!(created.event, Event::DomainCreated(ALICE, 0));
    assert_eq!(created.domain, zodiac());
    assert_eq!(counter, 1);
    let created = create_domain(&mut counter, BOB, bytes("LEO"), bytes("Lion")).unwrap();
    assert_eq!(created.domain_id, 1);
    assert_eq!(created.event, Event::DomainCreated(BOB, 1));
    assert_eq!(created.domain.owner(), BOB);
    assert_eq!(created.domain.symbol(), &bytes("LEO"));
    assert_eq!(created.domain.name(), &bytes("Lion"));
    assert_eq!(created.domain.next_token_id(), 0);
    assert_eq!(counter, 2);
}

#[test]
fn create_domain_rule_refuses_in_order() {
    let mut counter: u64 = 5;
    assert_eq!(
        create_domain(&mut counter, ALICE, bytes("ZO"), bytes("Zod")),
        Err(Error::InvalidSymbol)
    );
    assert_eq!(
        create_domain(&mut counter, ALICE, bytes("ZOD"), bytes("Zod")),
        Err(Error::InvalidName)
    );
    assert_eq!(counter, 5);
    let mut counter: u64 = u64::MAX;
    // the fields are judged before the counter is
    assert_eq!(
        create_domain(&mut counter, ALICE, bytes(""), bytes("Zodiac")),
        Err(Error::InvalidSymbol)
    );
    assert_eq!(
        create_domain(&mut counter, ALICE, bytes("ZOD"), bytes("")),
        Err(Error::InvalidName)
    );
    assert_eq!(
        create_domain(&mut counter, ALICE, bytes("ZOD"), bytes("Zodiac")),
        Err(Error::DomainIdOverflow)
    );
    assert_eq!(counter, u64::MAX);
    let mut counter: u64 = u64::MAX - 1;
    let created = create_domain(&mut counter, ALICE, bytes("ZOD"), bytes("Zodiac")).unwrap();
    assert_eq!(created.domain_id, u64::MAX - 1);
    assert_eq!(counter, u64::MAX);
}

#[test]
fn next_token_id_is_one_above_the_counter() {
    assert_eq!(next_token_id(None), None);
    let mut domain = zodiac();
    assert_eq!(next_token_id(Some(&domain)), Some(1));
    domain.allocate_token_id().unwrap();
    assert_eq!(next_token_id(Some(&domain)), Some(2));
    let last = Domain::from_parts(bytes("ZOD"), bytes("Zodiac"), u64::MAX - 1, ALICE).unwrap();
    assert_eq!(next_token_id(Some(&last)), Some(u64::MAX));
    let full = Domain::from_parts(bytes("ZOD"), bytes("Zodiac"), u64::MAX, ALICE).unwrap();
    assert_eq!(next_token_id(Some(&full)), None);
}

#[test]
fn create_token_rule_moves_the_counter_and_mints() {
    let mut domain = zodiac();
    let created =
        create_token(ALICE, 0, Some(&mut domain), BOB, 32, bytes("https://x/assets"), 0).unwrap();
    assert_eq!(created.token_id, 1);
    assert_eq!(created.balance, 32);
    assert_eq!(created.event, Event::TokenCreated(BOB, 0, 1, 32));
    assert_eq!(created.token.base_uri(), &bytes("https://x/assets"));
    assert_eq!(created.token.total_supply(), 32);
    assert_eq!(created.token.creator(), BOB);
    assert_eq!(domain.next_token_id(), 1);
    // the recipient held 10 of the token to come
    let created =
        create_token(ALICE, 9, Some(&mut domain), ALICE, 5, bytes("https://x/assets"), 10).unwrap();
    assert_eq!(created.token_id, 2);
    assert_eq!(created.balance, 15);
    assert_eq!(created.event, Event::TokenCreated(ALICE, 9, 2, 5));
    assert_eq!(domain.next_token_id(), 2);
    assert_eq!(domain.owner(), ALICE);
}

#[test]
fn create_token_rule_refuses_in_order() {
    let mut domain = zodiac();
    let untouched = domain.clone();
    let mut full = Domain::from_parts(bytes("ZOD"), bytes("Zodiac"), u64::MAX, ALICE).unwrap();
    // the supply, whatever else is wrong
    assert_eq!(
        create_token(BOB, 0, None, BOB, 0, bytes(""), u64::MAX),
        Err(Error::InvalidTotalSupply)
    );
    // then the base URI
    assert_eq!(
        create_token(BOB, 0, None, BOB, 1, bytes("abc"), u64::MAX),
        Err(Error::InvalidBaseUri)
    );
    // then the right of the caller
    assert_eq!(
        create_token(ALICE, 0, None, BOB, 1, bytes("abcd"), u64::MAX),
        Err(Error::NotDomainOwner)
    );
    assert_eq!(
        create_token(BOB, 0, Some(&mut full), BOB, 1, bytes("abcd"), u64::MAX),
        Err(Error::NotDomainOwner)
    );
    // then the identifier
    assert_eq!(
        create_token(ALICE, 0, Some(&mut full), BOB, 1, bytes("abcd"), u64::MAX),
        Err(Error::TokenIdOverflow)
    );
    // then the balance
    assert_eq!(
        create_token(ALICE, 0, Some(&mut domain), BOB, 1, bytes("abcd"), u64::MAX),
        Err(Error::BalanceOverflow)
    );
    assert_eq!(
        create_token(ALICE, 0, Some(&mut domain), BOB, 2, bytes("abcd"), u64::MAX - 1),
        Err(Error::BalanceOverflow)
    );
    assert_eq!(domain, untouched);
    assert_eq!(full.next_token_id(), u64::MAX);
    let created =
        create_token(ALICE, 0, Some(&mut domain), BOB, 1, bytes("abcd"), u64::MAX - 1).unwrap();
    assert_eq!(created.balance, u64::MAX);
    assert_eq!(created.token_id, 1);
}

#[test]
fn burn_tokens_rule_takes_from_the_balance() {
    let domain = zodiac();
    assert_eq!(
        burn_tokens(ALICE, 0, 1, Some(&domain), BOB, 16, 32),
        Ok(BurntTokens { balance: 16, event: Event::TokensBurnt(BOB, 0, 1, 16) })
    );
    assert_eq!(
        burn_tokens(ALICE, 3, 4, Some(&domain), BOB, 32, 32),
        Ok(BurntTokens { balance: 0, event: Event::TokensBurnt(BOB, 3, 4, 32) })
    );
}

#[test]
fn burn_tokens_rule_refuses_in_order() {
    let domain = zodiac();
    // the quantity, whatever else is wrong
    assert_eq!(burn_tokens(BOB, 0, 1, None, BOB, 0, 0), Err(Error::InvalidQuantityToBurn));
    assert_eq!(
        burn_tokens(ALICE, 0, 1, Some(&domain), BOB, 0, 5),
        Err(Error::InvalidQuantityToBurn)
    );
    // then the right of the caller
    assert_eq!(burn_tokens(ALICE, 0, 1, None, BOB, 1, 5), Err(Error::NotDomainOwner));
    assert_eq!(burn_tokens(BOB, 0, 1, Some(&domain), BOB, 1, 5), Err(Error::NotDomainOwner));
    assert_eq!(burn_tokens(BOB, 0, 1, Some(&domain), BOB, 9, 5), Err(Error::NotDomainOwner));
    // then the balance
    assert_eq!(burn_tokens(ALICE, 0, 1, Some(&domain), BOB, 6, 5), Err(Error::BalanceOverflow));
    assert_eq!(burn_tokens(ALICE, 0, 1, Some(&domain), BOB, 1, 0), Err(Error::BalanceOverflow));
}
