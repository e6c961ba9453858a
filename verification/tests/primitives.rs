use nft_ledger::allocator::{get_next_domain_id, get_next_token_id};
use nft_ledger::balance::{credit, debit};
use nft_ledger::registry::{check_domain_fields, check_token_fields};
use nft_ledger::{Domain, Error, Ownable, Token};

fn bytes(text: &str) -> Vec<u8> {
    text.as_bytes().to_vec()
}

#[test]
fn domain_id_is_the_counter_before_the_step() {
    let mut counter: u64 = 0;
    assert_eq!(get_next_domain_id(&mut counter), Ok(0));
    assert_eq!(counter, 1);
    assert_eq!(get_next_domain_id(&mut counter), Ok(1));
    assert_eq!(counter, 2);
    let mut counter: u64 = 41;
    assert_eq!(get_next_domain_id(&mut counter), Ok(41));
    assert_eq!(counter, 42);
}

#[test]
fn domain_id_overflows_at_the_end_of_the_range() {
    let mut counter: u64 = u64::MAX - 1;
    assert_eq!(get_next_domain_id(&mut counter), Ok(u64::MAX - 1));
    assert_eq!(counter, u64::MAX);
    assert_eq!(get_next_domain_id(&mut counter), Err(Error::DomainIdOverflow));
    assert_eq!(counter, u64::MAX);
    assert_eq!(get_next_domain_id(&mut counter), Err(Error::DomainIdOverflow));
    assert_eq!(counter, u64::MAX);
}

#[test]
fn token_id_is_the_counter_after_the_step() {
    let mut counter: u64 = 0;
    assert_eq!(get_next_token_id(&mut counter), Ok(1));
    assert_eq!(counter, 1);
    assert_eq!(get_next_token_id(&mut counter), Ok(2));
    assert_eq!(counter, 2);
    let mut counter: u64 = 41;
    assert_eq!(get_next_token_id(&mut counter), Ok(42));
    assert_eq!(counter, 42);
}

#[test]
fn token_id_overflows_at_the_end_of_the_range() {
    let mut counter: u64 = u64::MAX - 1;
    assert_eq!(get_next_token_id(&mut counter), Ok(u64::MAX));
    assert_eq!(counter, u64::MAX);
    assert_eq!(get_next_token_id(&mut counter), Err(Error::TokenIdOverflow));
    assert_eq!(counter, u64::MAX);
}

#[test]
fn credit_adds_or_overflows() {
    assert_eq!(credit(0, 0), Ok(0));
    assert_eq!(credit(0, 32), Ok(32));
    assert_eq!(credit(16, 16), Ok(32));
    assert_eq!(credit(u64::MAX, 0), Ok(u64::MAX));
    assert_eq!(credit(0, u64::MAX), Ok(u64::MAX));
    assert_eq!(credit(u64::MAX - 5, 5), Ok(u64::MAX));
    assert_eq!(credit(u64::MAX - 5, 6), Err(Error::BalanceOverflow));
    assert_eq!(credit(u64::MAX, 1), Err(Error::BalanceOverflow));
    assert_eq!(credit(u64::MAX, u64::MAX), Err(Error::BalanceOverflow));
}

#[test]
fn debit_subtracts_or_underflows() {
    assert_eq!(debit(0, 0), Ok(0));
    assert_eq!(debit(32, 16), Ok(16));
    assert_eq!(debit(16, 16), Ok(0));
    assert_eq!(debit(u64::MAX, u64::MAX), Ok(0));
    assert_eq!(debit(u64::MAX, 1), Ok(u64::MAX - 1));
    assert_eq!(debit(16, 17), Err(Error::BalanceOverflow));
    assert_eq!(debit(0, 1), Err(Error::BalanceOverflow));
    assert_eq!(debit(0, u64::MAX), Err(Error::BalanceOverflow));
}

#[test]
fn domain_record_is_checked_when_made() {
    assert_eq!(Domain::new(7, bytes("ZO"), bytes("Zodiac")), Err(Error::InvalidSymbol));
    assert_eq!(Domain::new(7, bytes("ZOD"), bytes("Zod")), Err(Error::InvalidName));
    assert_eq!(Domain::new(7, bytes(""), bytes("")), Err(Error::InvalidSymbol));
    let domain = Domain::new(7, bytes("ZOD"), bytes("Zodi")).unwrap();
    assert_eq!(domain.symbol(), &bytes("ZOD"));
    assert_eq!(domain.name(), &bytes("Zodi"));
    assert_eq!(domain.owner(), 7);
    assert_eq!(domain.next_token_id(), 0);
}

#[test]
fn domain_obeys_its_owner_only() {
    let domain = Domain::new(7, bytes("ZOD"), bytes("Zodiac")).unwrap();
    assert_eq!(domain.ensure_owner(7), Ok(()));
    assert_eq!(domain.ensure_owner(8), Err(Error::NotDomainOwner));
    assert_eq!(domain.ensure_owner(0), Err(Error::NotDomainOwner));
}

#[test]
fn domain_issues_token_ids_from_one() {
    let mut domain = Domain::new(7, bytes("ZOD"), bytes("Zodiac")).unwrap();
    assert_eq!(domain.allocate_token_id(), Ok(1));
    assert_eq!(domain.next_token_id(), 1);
    assert_eq!(domain.allocate_token_id(), Ok(2));
    assert_eq!(domain.allocate_token_id(), Ok(3));
    assert_eq!(domain.next_token_id(), 3);
    assert_eq!(domain.owner(), 7);
    assert_eq!(domain.symbol(), &bytes("ZOD"));
    assert_eq!(domain.name(), &bytes("Zodiac"));
}

#[test]
fn domain_clone_is_equal() {
    let mut domain = Domain::new(7, bytes("ZOD"), bytes("Zodiac")).unwrap();
    domain.allocate_token_id().unwrap();
    let copy = domain.clone();
    assert_eq!(copy, domain);
    domain.allocate_token_id().unwrap();
    assert_ne!(copy, domain);
    assert_eq!(copy.next_token_id(), 1);
}

#[test]
fn token_record_is_checked_when_made() {
    assert_eq!(Token::new(7, 0, bytes("https://x")), Err(Error::InvalidTotalSupply));
    assert_eq!(Token::new(7, 0, bytes("")), Err(Error::InvalidTotalSupply));
    assert_eq!(Token::new(7, 1, bytes("")), Err(Error::InvalidBaseUri));
    assert_eq!(Token::new(7, 1, bytes("abc")), Err(Error::InvalidBaseUri));
    let token = Token::new(7, 1, bytes("abcd")).unwrap();
    assert_eq!(token.base_uri(), &bytes("abcd"));
    assert_eq!(token.total_supply(), 1);
    assert_eq!(token.creator(), 7);
    let token = Token::new(8, u64::MAX, bytes("https://x/assets")).unwrap();
    assert_eq!(token.total_supply(), u64::MAX);
    assert_eq!(token.clone(), token);
}

#[test]
fn domain_fields_are_judged_symbol_first() {
    assert_eq!(check_domain_fields(b"ZOD", b"Zodiac"), Ok(()));
    assert_eq!(check_domain_fields(b"ZOD", b"Zodi"), Ok(()));
    assert_eq!(check_domain_fields(b"ZOD", b"Zod"), Err(Error::InvalidName));
    assert_eq!(check_domain_fields(b"ZOD", b""), Err(Error::InvalidName));
    assert_eq!(check_domain_fields(b"ZO", b"Zodiac"), Err(Error::InvalidSymbol));
    assert_eq!(check_domain_fields(b"", b"Zodiac"), Err(Error::InvalidSymbol));
    assert_eq!(check_domain_fields(b"ZO", b"Zod"), Err(Error::InvalidSymbol));
    assert_eq!(check_domain_fields(&[0u8; 1000], &[255u8; 1000]), Ok(()));
}

#[test]
fn token_fields_are_judged_supply_first() {
    assert_eq!(check_token_fields(1, b"abcd"), Ok(()));
    assert_eq!(check_token_fields(u64::MAX, b"https://x/assets"), Ok(()));
    assert_eq!(check_token_fields(1, b"abc"), Err(Error::InvalidBaseUri));
    assert_eq!(check_token_fields(1, b""), Err(Error::InvalidBaseUri));
    assert_eq!(check_token_fields(0, b"abcd"), Err(Error::InvalidTotalSupply));
    assert_eq!(check_token_fields(0, b"abc"), Err(Error::InvalidTotalSupply));
}

#[test]
fn domain_is_rebuilt_from_its_parts() {
    let domain = Domain::from_parts(bytes("ZOD"), bytes("Zodiac"), 41, 7).unwrap();
    assert_eq!(domain.symbol(), &bytes("ZOD"));
    assert_eq!(domain.name(), &bytes("Zodiac"));
    assert_eq!(domain.next_token_id(), 41);
    assert_eq!(domain.owner(), 7);
    let mut made = Domain::new(7, bytes("ZOD"), bytes("Zodiac")).unwrap();
    assert_eq!(Domain::from_parts(bytes("ZOD"), bytes("Zodiac"), 0, 7).unwrap(), made);
    made.allocate_token_id().unwrap();
    assert_eq!(Domain::from_parts(bytes("ZOD"), bytes("Zodiac"), 1, 7).unwrap(), made);
    assert_eq!(Domain::from_parts(bytes("ZO"), bytes("Zodiac"), 1, 7), Err(Error::InvalidSymbol));
    assert_eq!(Domain::from_parts(bytes("ZOD"), bytes("Zod"), 1, 7), Err(Error::InvalidName));
    assert_eq!(Domain::from_parts(bytes(""), bytes(""), 0, 0), Err(Error::InvalidSymbol));
}

#[test]
fn domain_at_the_last_token_id_issues_no_more() {
    let mut domain = Domain::from_parts(bytes("ZOD"), bytes("Zodiac"), u64::MAX - 1, 7).unwrap();
    assert_eq!(domain.allocate_token_id(), Ok(u64::MAX));
    assert_eq!(domain.next_token_id(), u64::MAX);
    assert_eq!(domain.allocate_token_id(), Err(Error::TokenIdOverflow));
    assert_eq!(domain.next_token_id(), u64::MAX);
    assert_eq!(domain.owner(), 7);
}

struct Treasury;

impl Ownable<u64> for Treasury {
    fn owner() -> u64 {
        7
    }

    fn set_owner(owner: &u64) -> u64 {
        *owner
    }
}

#[test]
fn ownable_can_be_implemented() {
    assert_eq!(<Treasury as Ownable<u64>>::owner(), 7);
    assert_eq!(<Treasury as Ownable<u64>>::set_owner(&8), 8);
}
