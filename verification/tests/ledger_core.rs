use ft_ledger::account::AccountId;
use ft_ledger::error::Error;
use ft_ledger::ledger::Ledger;

const TOTAL_SUPPLY: u128 = 1_000_000_000_000_000;
const BYTE_PRICE: u128 = 10_000_000_000_000_000_000;
const ACCOUNT_BYTES: u64 = 125;
const BASE_BYTES: u64 = 100;

fn id(s: &str) -> AccountId {
    AccountId::try_from_str(s).unwrap()
}

fn new_ledger(owner: &str, supply: u128) -> Ledger {
    let (ledger, _mint) = Ledger::new(id(owner), supply, BYTE_PRICE, ACCOUNT_BYTES, BASE_BYTES)
        .unwrap();
    ledger
}

#[test]
fn test_new() {
    let ledger = new_ledger("bob", TOTAL_SUPPLY);
    assert_eq!(ledger.total_supply(), TOTAL_SUPPLY);
    assert_eq!(ledger.balance_of(&id("bob")), TOTAL_SUPPLY);
}

#[test]
fn new_emits_the_mint_event() {
    let (ledger, mint) =
        Ledger::new(id("alice"), 1_000_000, BYTE_PRICE, ACCOUNT_BYTES, BASE_BYTES).unwrap();
    assert_eq!(ledger.balance_of(&id("alice")), 1_000_000);
    assert_eq!(ledger.total_supply(), 1_000_000);
    assert!(mint.owner.eq_id(&id("alice")));
    assert_eq!(mint.amount, 1_000_000);
    assert_eq!(mint.memo, Some("Initial tokens supply is minted".to_string()));
}

#[test]
fn new_rejects_an_unrepresentable_minimum_deposit() {
    let r = Ledger::new(id("alice"), 1, u128::MAX, 2, 0);
    assert_eq!(r.unwrap_err(), Error::Overflow);
}

#[test]
fn unregistered_account_reads_zero_and_rejects_mutation() {
    let mut ledger = new_ledger("alice", TOTAL_SUPPLY);
    let ghost_account = id("nobody");
    assert_eq!(ledger.balance_of(&ghost_account), 0);
    assert!(!ledger.is_registered(&ghost_account));
    assert_eq!(ledger.internal_deposit(&ghost_account, 5).unwrap_err(), Error::NotRegistered);
    assert_eq!(ledger.internal_withdraw(&ghost_account, 5).unwrap_err(), Error::NotRegistered);
    assert_eq!(ledger.total_supply(), TOTAL_SUPPLY);
    assert_eq!(ledger.balance_of(&ghost_account), 0);
    assert_eq!(ledger.balance_of(&id("alice")), TOTAL_SUPPLY);
}

#[test]
fn register_then_unregister_restores_the_ledger() {
    let mut ledger = new_ledger("alice", TOTAL_SUPPLY);
    let n = ledger.num_accounts();
    ledger.internal_register(&id("carol")).unwrap();
    assert!(ledger.is_registered(&id("carol")));
    assert_eq!(ledger.balance_of(&id("carol")), 0);
    assert_eq!(ledger.num_accounts(), n + 1);
    let out = ledger.storage_unregister(&id("carol"), false).unwrap();
    assert_eq!(out.closed_balance, 0);
    assert!(out.burn.is_none());
    assert!(!ledger.is_registered(&id("carol")));
    assert_eq!(ledger.num_accounts(), n);
    assert_eq!(ledger.total_supply(), TOTAL_SUPPLY);
    assert_eq!(ledger.balance_of(&id("alice")), TOTAL_SUPPLY);
}

#[test]
fn double_registration_is_rejected() {
    let mut ledger = new_ledger("alice", TOTAL_SUPPLY);
    assert_eq!(ledger.internal_register(&id("alice")).unwrap_err(), Error::AlreadyRegistered);
    assert_eq!(ledger.num_accounts(), 1);
}

#[test]
fn deposit_overflow_is_rejected_without_mutation() {
    let mut ledger = new_ledger("alice", 1_000_000);
    assert_eq!(ledger.internal_deposit(&id("alice"), u128::MAX).unwrap_err(), Error::Overflow);
    assert_eq!(ledger.balance_of(&id("alice")), 1_000_000);
    assert_eq!(ledger.total_supply(), 1_000_000);
}

#[test]
fn withdraw_beyond_balance_is_rejected_without_mutation() {
    let mut ledger = new_ledger("alice", 1_000_000);
    assert_eq!(
        ledger.internal_withdraw(&id("alice"), 1_000_001).unwrap_err(),
        Error::InsufficientBalance
    );
    assert_eq!(ledger.balance_of(&id("alice")), 1_000_000);
    assert_eq!(ledger.total_supply(), 1_000_000);
}

#[test]
fn deposit_and_withdraw_move_supply_with_the_balance() {
    let mut ledger = new_ledger("alice", 1_000_000);
    ledger.internal_register(&id("bob")).unwrap();
    ledger.internal_deposit(&id("bob"), 250).unwrap();
    assert_eq!(ledger.balance_of(&id("bob")), 250);
    assert_eq!(ledger.total_supply(), 1_000_250);
    ledger.internal_withdraw(&id("bob"), 100).unwrap();
    assert_eq!(ledger.balance_of(&id("bob")), 150);
    assert_eq!(ledger.total_supply(), 1_000_150);
}

#[test]
fn internal_transfer_validates_before_mutating() {
    let mut ledger = new_ledger("alice", 1_000_000);
    ledger.internal_register(&id("bob")).unwrap();
    assert_eq!(
        ledger.internal_transfer(&id("alice"), &id("alice"), 1).unwrap_err(),
        Error::SenderEqualsReceiver
    );
    assert_eq!(
        ledger.internal_transfer(&id("alice"), &id("bob"), 0).unwrap_err(),
        Error::ZeroAmount
    );
    assert_eq!(
        ledger.internal_transfer(&id("nobody"), &id("bob"), 1).unwrap_err(),
        Error::NotRegistered
    );
    assert_eq!(
        ledger.internal_transfer(&id("alice"), &id("bob"), 1_000_001).unwrap_err(),
        Error::InsufficientBalance
    );
    assert_eq!(
        ledger.internal_transfer(&id("alice"), &id("nobody"), 1).unwrap_err(),
        Error::NotRegistered
    );
    assert_eq!(ledger.balance_of(&id("alice")), 1_000_000);
    assert_eq!(ledger.balance_of(&id("bob")), 0);
    assert_eq!(ledger.total_supply(), 1_000_000);
    ledger.internal_transfer(&id("alice"), &id("bob"), 400).unwrap();
    assert_eq!(ledger.balance_of(&id("alice")), 999_600);
    assert_eq!(ledger.balance_of(&id("bob")), 400);
    assert_eq!(ledger.total_supply(), 1_000_000);
}

#[test]
fn empty_ledger_replays_registrations_and_deposits() {
    let mut ledger = Ledger::empty(BYTE_PRICE, ACCOUNT_BYTES, BASE_BYTES).unwrap();
    assert_eq!(ledger.total_supply(), 0);
    assert_eq!(ledger.num_accounts(), 0);
    ledger.internal_register(&id("alice")).unwrap();
    ledger.internal_deposit(&id("alice"), 700).unwrap();
    ledger.internal_register(&id("bob")).unwrap();
    ledger.internal_deposit(&id("bob"), 300).unwrap();
    assert_eq!(ledger.total_supply(), 1_000);
    assert_eq!(ledger.balance_of(&id("alice")), 700);
    assert_eq!(ledger.balance_of(&id("bob")), 300);
    assert!(ledger.account_at(0).eq_id(&id("alice")));
    assert_eq!(ledger.balance_at(1), 300);
}
