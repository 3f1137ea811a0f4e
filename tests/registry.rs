use dns_contract::contract::DnsContract;
use dns_contract::types::{
    zero_address, AccountId, DNSError, DomainName, Event, NewNameClaimed, SetNewOwner, State,
};

fn account(b: u8) -> AccountId {
    AccountId::from_bytes([b; 32])
}

fn claimed_alice(a: AccountId) -> DnsContract {
    let mut d = DnsContract::new(a);
    assert_eq!(d.create_new_dns("alice.tld".to_string(), State::NotOffering, 0, a), Ok(()));
    d
}

#[test]
fn first_claim_succeeds() {
    let a = account(1);
    let d = claimed_alice(a);
    assert_eq!(d.get_no_of_name_claimed(), 1);
    assert_eq!(d.get_owner_name_count(a), 1);
    assert!(d.is_claimed(1));
    assert_eq!(d.get_next_domain_name_id(), 2);
}

#[test]
fn repeated_claim_by_other_fails() {
    let a = account(1);
    let b = account(2);
    let mut d = claimed_alice(a);
    assert_eq!(
        d.create_new_dns("alice.tld".to_string(), State::PublicOffering, 5, b),
        Err(DNSError::DomainAlreadyOwned)
    );
    assert_eq!(d.get_no_of_name_claimed(), 1);
    assert_eq!(d.get_owner_name_count(a), 1);
    assert_eq!(d.get_owner_name_count(b), 0);
    assert!(d.is_claimed(1));
    assert!(!d.is_claimed(2));
    assert_eq!(d.get_owner_domain_name(b), Vec::<DomainName>::new());
    assert_eq!(d.get_owner_domain_name(a).len(), 1);
}

#[test]
fn failed_claim_wastes_an_identifier() {
    let a = account(1);
    let b = account(2);
    let mut d = claimed_alice(a);
    assert_eq!(
        d.create_new_dns("alice.tld".to_string(), State::NotOffering, 0, b),
        Err(DNSError::DomainAlreadyOwned)
    );
    assert_eq!(d.get_next_domain_name_id(), 3);
    assert_eq!(d.create_new_dns("bob.tld".to_string(), State::NotOffering, 0, b), Ok(()));
    assert!(!d.is_claimed(2));
    assert!(d.is_claimed(3));
    assert_eq!(d.get_next_domain_name_id(), 4);
}

#[test]
fn transfer_by_holder_succeeds() {
    let a = account(1);
    let b = account(2);
    let mut d = claimed_alice(a);
    assert_eq!(d.set_new_owner(1, b, a), Ok(()));
    assert_eq!(d.get_owner_name_count(a), 0);
    assert_eq!(d.get_owner_name_count(b), 0);
    assert!(!d.is_claimed(1));
    let held = d.get_owner_domain_name(b);
    assert_eq!(held.len(), 1);
    assert_eq!(held[0].name, "alice.tld".to_string());
    assert_eq!(held[0].default_address, b);
    assert_eq!(held[0].offer_state, State::NotOffering);
    assert_eq!(held[0].offer_price, 0);
    assert!(d.get_owner_domain_name(a).is_empty());
}

#[test]
fn transfer_to_current_holder_fails_with_same_owner() {
    let a = account(1);
    let mut d = claimed_alice(a);
    assert_eq!(d.set_new_owner(1, a, a), Err(DNSError::SameOwner));
    assert_eq!(d.get_owner_name_count(a), 1);
    assert!(d.is_claimed(1));
}

#[test]
fn transfer_by_former_holder_fails_with_not_a_owner() {
    let a = account(1);
    let b = account(2);
    let mut d = claimed_alice(a);
    assert_eq!(d.set_new_owner(1, b, a), Ok(()));
    assert_eq!(d.set_new_owner(1, a, a), Err(DNSError::NotAOwner));
    assert_eq!(d.get_owner_domain_name(b).len(), 1);
}

#[test]
fn transfer_by_stranger_fails_with_not_a_owner() {
    let a = account(1);
    let c = account(3);
    let mut d = claimed_alice(a);
    assert_eq!(d.set_new_owner(1, c, c), Err(DNSError::NotAOwner));
    assert_eq!(d.set_new_owner(1, a, c), Err(DNSError::NotAOwner));
    assert_eq!(d.get_owner_name_count(a), 1);
}

#[test]
fn transfer_of_unknown_identifier_is_accepted() {
    let a = account(1);
    let x = account(7);
    let y = account(8);
    let mut d = claimed_alice(a);
    d.take_events();
    assert_eq!(d.set_new_owner(999, x, y), Ok(()));
    assert_eq!(d.take_events(), vec![Event::SetNewOwner(SetNewOwner { address: x })]);
    assert_eq!(d.get_owner_name_count(y), 0);
    assert!(!d.is_claimed(999));
    assert_eq!(d.set_new_owner(-5, x, y), Ok(()));
    assert_eq!(d.set_new_owner(0, x, y), Ok(()));
}

#[test]
fn events_follow_successful_operations() {
    let a = account(1);
    let b = account(2);
    let mut d = DnsContract::new(a);
    assert!(d.take_events().is_empty());
    assert_eq!(d.create_new_dns("n".to_string(), State::PrivateOffering, 9, a), Ok(()));
    assert_eq!(
        d.create_new_dns("n".to_string(), State::PrivateOffering, 9, b),
        Err(DNSError::DomainAlreadyOwned)
    );
    assert_eq!(d.set_new_owner(1, a, a), Err(DNSError::SameOwner));
    assert_eq!(d.set_new_owner(1, b, a), Ok(()));
    assert_eq!(
        d.take_events(),
        vec![
            Event::NewNameClaimed(NewNameClaimed { address: a }),
            Event::SetNewOwner(SetNewOwner { address: b }),
        ]
    );
    assert!(d.take_events().is_empty());
}

#[test]
fn second_transfer_toggles_flag_back() {
    let a = account(1);
    let b = account(2);
    let mut d = claimed_alice(a);
    assert_eq!(d.set_new_owner(1, b, a), Ok(()));
    assert!(!d.is_claimed(1));
    assert_eq!(d.set_new_owner(1, a, b), Ok(()));
    assert!(d.is_claimed(1));
}

#[test]
fn counts_go_negative_under_repeated_transfers() {
    let a = account(1);
    let b = account(2);
    let mut d = claimed_alice(a);
    assert_eq!(d.set_new_owner(1, b, a), Ok(()));
    assert_eq!(d.set_new_owner(1, a, b), Ok(()));
    assert_eq!(d.set_new_owner(1, b, a), Ok(()));
    assert_eq!(d.get_owner_name_count(a), -1);
    assert_eq!(d.get_owner_name_count(b), -1);
    assert_eq!(d.get_no_of_name_claimed(), 1);
}

#[test]
fn holding_count_is_claims_less_transfers_away() {
    let a = account(1);
    let b = account(2);
    let mut d = DnsContract::new(a);
    assert_eq!(d.create_new_dns("x".to_string(), State::NotOffering, 0, a), Ok(()));
    assert_eq!(d.create_new_dns("y".to_string(), State::NotOffering, 0, a), Ok(()));
    assert_eq!(d.create_new_dns("z".to_string(), State::NotOffering, 0, b), Ok(()));
    assert_eq!(d.set_new_owner(2, b, a), Ok(()));
    assert_eq!(d.get_owner_name_count(a), 1);
    assert_eq!(d.get_owner_name_count(b), 1);
    assert_eq!(d.get_no_of_name_claimed(), 3);
}

#[test]
fn listed_records_follow_identifier_order() {
    let a = account(1);
    let b = account(2);
    let mut d = DnsContract::new(a);
    assert_eq!(d.create_new_dns("first".to_string(), State::NotOffering, 1, a), Ok(()));
    assert_eq!(d.create_new_dns("second".to_string(), State::PublicOffering, 2, b), Ok(()));
    assert_eq!(d.create_new_dns("third".to_string(), State::PrivateOffering, 3, a), Ok(()));
    let held = d.get_owner_domain_name(a);
    let names: Vec<String> = held.iter().map(|r| r.name.clone()).collect();
    assert_eq!(names, vec!["first".to_string(), "third".to_string()]);
    assert_eq!(held[1].offer_state, State::PrivateOffering);
    assert_eq!(held[1].offer_price, 3);
    assert_eq!(d.get_owner_domain_name(b)[0].offer_price, 2);
}

#[test]
fn successive_claims_get_increasing_identifiers() {
    let a = account(1);
    let mut d = DnsContract::new(a);
    let mut last = 0;
    for n in ["a", "b", "a", "c"] {
        let id = d.get_next_domain_name_id();
        assert!(id > last);
        last = id;
        let _ = d.create_new_dns(n.to_string(), State::NotOffering, 0, a);
    }
    assert!(d.is_claimed(1));
    assert!(d.is_claimed(2));
    assert!(!d.is_claimed(3));
    assert!(d.is_claimed(4));
}

#[test]
fn queries_repeat_without_change() {
    let a = account(1);
    let d = claimed_alice(a);
    assert_eq!(d.get_owner_name_count(a), d.get_owner_name_count(a));
    assert_eq!(d.is_claimed(1), d.is_claimed(1));
    assert_eq!(d.get_no_of_name_claimed(), d.get_no_of_name_claimed());
    assert_eq!(d.get_owner_domain_name(a), d.get_owner_domain_name(a));
}

#[test]
fn fresh_registry_is_empty() {
    let a = account(4);
    let d = DnsContract::new(a);
    assert_eq!(d.get_owner(), a);
    assert_eq!(d.get_no_of_name_claimed(), 0);
    assert_eq!(d.get_owner_name_count(a), 0);
    assert!(!d.is_claimed(0));
    assert!(!d.is_claimed(1));
    assert!(!d.is_claimed(i32::MAX));
    assert!(!d.is_claimed(i32::MIN));
    assert_eq!(d.get_next_domain_name_id(), 1);
    assert!(d.get_owner_domain_name(a).is_empty());
}

#[test]
fn empty_name_can_be_claimed_once() {
    let a = account(1);
    let mut d = DnsContract::new(a);
    assert_eq!(d.create_new_dns(String::new(), State::NotOffering, u128::MAX, a), Ok(()));
    assert_eq!(
        d.create_new_dns(String::new(), State::NotOffering, 0, a),
        Err(DNSError::DomainAlreadyOwned)
    );
    assert_eq!(d.get_owner_domain_name(a)[0].offer_price, u128::MAX);
}

#[test]
fn accounts_differing_in_one_byte_are_distinct() {
    let mut bytes = [5u8; 32];
    let a = AccountId::from_bytes(bytes);
    bytes[31] = 6;
    let b = AccountId::from_bytes(bytes);
    assert!(!a.same_as(&b));
    assert!(a.same_as(&a));
    assert_ne!(a, b);
    let mut d = claimed_alice(a);
    assert_eq!(d.set_new_owner(1, b, b), Err(DNSError::NotAOwner));
    assert_eq!(d.set_new_owner(1, b, a), Ok(()));
    assert_eq!(d.get_owner_domain_name(b).len(), 1);
}

#[test]
fn zero_address_and_default_record() {
    assert_eq!(zero_address().bytes, [0u8; 32]);
    let r = DomainName::default();
    assert_eq!(r.name, String::new());
    assert_eq!(r.offer_state, State::NotOffering);
    assert_eq!(r.offer_price, 0);
    assert_eq!(r.default_address, zero_address());
    assert_eq!(r.duplicate(), r);
}
