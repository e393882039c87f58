use kitties::kitties::{Config, Error, Event, Pallet};
use kitties::ledger::{Ledger, LedgerError};
use kitties::poe;
use kitties::randomness::{random_value, TxContext};

const A: u64 = 10;
const B: u64 = 11;
const C: u64 = 12;

fn state(balances: &[(u64, u64)]) -> Pallet {
    let mut ledger = Ledger::new();
    for (who, amount) in balances {
        ledger.make_free_balance_be(*who, *amount);
    }
    Pallet::new(Config { create_kitty_reserve: 100 }, ledger)
}

fn ctx(i: u32) -> TxContext {
    TxContext { random_seed: [9u8; 32], extrinsic_index: Some(i) }
}

#[test]
fn ids_increase_and_counter_follows() {
    let mut p = state(&[(A, 1_000)]);
    for expected in 0..3u32 {
        assert_eq!(p.create(A, &ctx(expected)), Ok(Event::KittyCreate(A, expected)));
        assert_eq!(p.kitties_count(), expected + 1);
        assert_eq!(p.owner(expected), Some(A));
    }
    assert_eq!(p.breed(A, 0, 2, &ctx(7)), Ok(Event::KittyCreate(A, 3)));
    assert_eq!(p.kitties_count(), 4);
}

#[test]
fn owner_stays_defined_through_transfers() {
    let mut p = state(&[(A, 1_000), (B, 1_000)]);
    assert!(p.create(A, &ctx(0)).is_ok());
    assert_eq!(p.owner(0), Some(A));
    assert!(p.transfer(A, 0, B).is_ok());
    assert_eq!(p.owner(0), Some(B));
    assert!(p.transfer(B, 0, A).is_ok());
    assert_eq!(p.owner(0), Some(A));
    assert_eq!(p.owner(1), None);
}

#[test]
fn transfer_clears_listing() {
    let mut p = state(&[(A, 1_000), (B, 1_000)]);
    assert!(p.create(A, &ctx(0)).is_ok());
    assert!(p.sell(A, 0, 42).is_ok());
    assert_eq!(p.price_of(0), Some(42));
    assert_eq!(p.transfer(A, 0, B), Ok(Event::KittyTransfer(A, 0, B)));
    assert_eq!(p.owner(0), Some(B));
    assert_eq!(p.price_of(0), None);
}

#[test]
fn transfer_to_self_keeps_escrow() {
    let mut p = state(&[(A, 100)]);
    assert!(p.create(A, &ctx(0)).is_ok());
    assert_eq!(p.currency().free_balance(A), 0);
    assert_eq!(p.transfer(A, 0, A), Ok(Event::KittyTransfer(A, 0, A)));
    assert_eq!(p.currency().free_balance(A), 0);
    assert_eq!(p.currency().reserved_balance(A), 100);
}

#[test]
fn breed_same_parent_fails_whatever_the_state() {
    let mut p = state(&[(A, 1_000)]);
    assert_eq!(p.breed(B, 5, 5, &ctx(0)), Err(Error::SameParentIndex));
    assert!(p.create(A, &ctx(0)).is_ok());
    assert_eq!(p.breed(A, 0, 0, &ctx(1)), Err(Error::SameParentIndex));
    assert_eq!(p.kitties_count(), 1);
}

#[test]
fn buy_without_listing_changes_nothing() {
    let mut p = state(&[(A, 1_000), (B, 1_000)]);
    assert!(p.create(A, &ctx(0)).is_ok());
    assert_eq!(p.buy(B, A, 0), Err(Error::KittyNotForSale));
    assert_eq!(p.owner(0), Some(A));
    assert_eq!(p.currency().free_balance(A), 900);
    assert_eq!(p.currency().free_balance(B), 1_000);
    assert_eq!(p.currency().reserved_balance(B), 0);
}

#[test]
fn scenario_create_then_transfer() {
    let mut p = state(&[(A, 500), (B, 99), (C, 100)]);
    assert_eq!(p.create(A, &ctx(0)), Ok(Event::KittyCreate(A, 0)));
    assert_eq!(p.owner(0), Some(A));
    assert_eq!(p.transfer(A, 0, B), Err(Error::ReserveFailed));
    assert_eq!(p.owner(0), Some(A));
    assert_eq!(p.currency().reserved_balance(A), 100);
    assert_eq!(p.transfer(A, 0, C), Ok(Event::KittyTransfer(A, 0, C)));
    assert_eq!(p.owner(0), Some(C));
    assert_eq!(p.currency().free_balance(C), 0);
    assert_eq!(p.currency().reserved_balance(C), 100);
}

#[test]
fn scenario_sell_then_buy() {
    let mut p = state(&[(A, 500), (B, 1_000)]);
    assert!(p.create(A, &ctx(0)).is_ok());
    assert_eq!(p.sell(A, 0, 100), Ok(Event::KittySetPrice(A, 0, 100)));
    let seller_before = p.currency().free_balance(A) + p.currency().reserved_balance(A);
    assert_eq!(p.buy(B, A, 0), Ok(Event::KittyBuy(B, 0, A)));
    let seller_after = p.currency().free_balance(A) + p.currency().reserved_balance(A);
    assert_eq!(seller_after, seller_before + 100);
    assert_eq!(p.currency().free_balance(A), 600);
    assert_eq!(p.currency().reserved_balance(A), 0);
    assert_eq!(p.currency().free_balance(B), 800);
    assert_eq!(p.currency().reserved_balance(B), 100);
    assert_eq!(p.owner(0), Some(B));
    assert_eq!(p.price_of(0), None);
}

#[test]
fn scenario_buy_with_insufficient_balance() {
    let mut p = state(&[(A, 500), (B, 700)]);
    assert!(p.create(A, &ctx(0)).is_ok());
    assert!(p.sell(A, 0, 600).is_ok());
    assert_eq!(p.buy(B, A, 0), Err(Error::BalanceNotEnough));
    assert_eq!(p.owner(0), Some(A));
    assert_eq!(p.price_of(0), Some(600));
    assert_eq!(p.currency().free_balance(B), 700);
    assert_eq!(p.currency().free_balance(A), 400);
}

#[test]
fn buy_when_seller_balance_would_overflow() {
    let mut p = state(&[(A, u64::MAX - 50), (B, 1_000)]);
    assert!(p.create(A, &ctx(0)).is_ok());
    assert!(p.sell(A, 0, 60).is_ok());
    assert_eq!(p.buy(B, A, 0), Err(Error::TransferFailed));
    assert_eq!(p.owner(0), Some(A));
    assert_eq!(p.currency().free_balance(B), 1_000);
}

#[test]
fn ledger_reserve_unreserve_transfer() {
    let mut l = Ledger::new();
    l.make_free_balance_be(A, 300);
    assert_eq!(l.reserve(A, 301), Err(LedgerError::InsufficientBalance));
    assert_eq!(l.reserve(A, 200), Ok(()));
    assert_eq!((l.free_balance(A), l.reserved_balance(A)), (100, 200));
    assert_eq!(l.unreserve(A, 250), 50);
    assert_eq!((l.free_balance(A), l.reserved_balance(A)), (300, 0));
    assert_eq!(l.unreserve(B, 10), 10);
    assert_eq!(l.transfer(A, B, 301), Err(LedgerError::InsufficientBalance));
    assert_eq!(l.transfer(A, B, 120), Ok(()));
    assert_eq!((l.free_balance(A), l.free_balance(B)), (180, 120));
    l.make_free_balance_be(C, u64::MAX);
    assert_eq!(l.transfer(A, C, 1), Err(LedgerError::Overflow));
    assert_eq!(l.free_balance(A), 180);
}

#[test]
fn random_value_hashes_the_encoded_payload() {
    let c = TxContext { random_seed: [5u8; 32], extrinsic_index: Some(0x0102_0304) };
    let mut bytes = vec![5u8; 32];
    bytes.extend_from_slice(&[0x07, 0x06, 0, 0, 0, 0, 0, 0]);
    bytes.extend_from_slice(&[1, 0x04, 0x03, 0x02, 0x01]);
    assert_eq!(random_value(0x0607, &c), sp_io::hashing::blake2_128(&bytes));

    let none = TxContext { random_seed: [5u8; 32], extrinsic_index: None };
    let mut bytes = vec![5u8; 32];
    bytes.extend_from_slice(&[0x07, 0x06, 0, 0, 0, 0, 0, 0]);
    bytes.push(0);
    assert_eq!(random_value(0x0607, &none), sp_io::hashing::blake2_128(&bytes));
    assert_ne!(random_value(0x0607, &none), random_value(0x0607, &c));
    assert_eq!(random_value(3, &c), random_value(3, &c));
}

#[test]
fn poe_create_revoke_transfer() {
    let mut p = poe::Pallet::new();
    let claim = vec![1u8, 2, 3];
    assert_eq!(p.create_claim(A, claim.clone(), 7), Ok(poe::Event::ClaimCreated(A, claim.clone())));
    assert_eq!(p.create_claim(B, claim.clone(), 8), Err(poe::Error::ProofAlreadyExist));
    assert_eq!(p.proof_of(&claim), Some((A, 7)));
    assert_eq!(p.transfer_claim(B, C, claim.clone()), Err(poe::Error::NotClaimOwner));
    assert_eq!(p.transfer_claim(A, B, claim.clone()), Ok(poe::Event::TransferClaim(A, B, claim.clone())));
    assert_eq!(p.proof_of(&claim), Some((B, 7)));
    assert_eq!(p.revoke_claim(A, claim.clone()), Err(poe::Error::NotClaimOwner));
    assert_eq!(p.revoke_claim(B, claim.clone()), Ok(poe::Event::ClaimRevoked(B, claim.clone())));
    assert_eq!(p.proof_of(&claim), None);
    assert_eq!(p.revoke_claim(B, claim.clone()), Err(poe::Error::ClaimNotExist));
    assert_eq!(p.transfer_claim(B, A, claim), Err(poe::Error::ClaimNotExist));
}

#[test]
fn poe_keeps_other_claims_on_revoke() {
    let mut p = poe::Pallet::new();
    assert!(p.create_claim(A, vec![1], 1).is_ok());
    assert!(p.create_claim(B, vec![2], 2).is_ok());
    assert!(p.create_claim(C, vec![1, 0], 3).is_ok());
    assert!(p.revoke_claim(A, vec![1]).is_ok());
    assert_eq!(p.proof_of(&vec![1]), None);
    assert_eq!(p.proof_of(&vec![2]), Some((B, 2)));
    assert_eq!(p.proof_of(&vec![1, 0]), Some((C, 3)));
    assert_eq!(p.proof_of(&vec![]), None);
}
