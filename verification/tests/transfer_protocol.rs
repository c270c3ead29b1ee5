use ft_ledger::account::AccountId;
use ft_ledger::error::Error;
use ft_ledger::ledger::Ledger;

const TOTAL_SUPPLY: u128 = 1_000_000_000_000_000;
const BYTE_PRICE: u128 = 10_000_000_000_000_000_000;
const ACCOUNT_BYTES: u64 = 125;
const BASE_BYTES: u64 = 100;
const MIN_DEPOSIT: u128 = ACCOUNT_BYTES as u128 * BYTE_PRICE;

fn id(s: &str) -> AccountId {
    AccountId::try_from_str(s).unwrap()
}

fn new_ledger(owner: &str, supply: u128) -> Ledger {
    let (ledger, _mint) = Ledger::new(id(owner), supply, BYTE_PRICE, ACCOUNT_BYTES, BASE_BYTES)
        .unwrap();
    ledger
}

#[test]
fn test_transfer() {
    let mut ledger = new_ledger("charlie", TOTAL_SUPPLY);
    ledger
        .storage_deposit(&id("bob"), ledger.storage_balance_bounds().min)
        .unwrap();
    let transfer_amount = TOTAL_SUPPLY / 3;
    ledger
        .transfer(&id("charlie"), &id("bob"), transfer_amount, None, 1)
        .unwrap();
    assert_eq!(ledger.balance_of(&id("charlie")), TOTAL_SUPPLY - transfer_amount);
    assert_eq!(ledger.balance_of(&id("bob")), transfer_amount);
}

#[test]
fn transfer_moves_funds_and_reports_one_event() {
    let mut ledger = new_ledger("alice", 1_000_000);
    ledger.storage_deposit(&id("bob"), MIN_DEPOSIT).unwrap();
    let event = ledger
        .transfer(&id("alice"), &id("bob"), 300_000, Some("rent".to_string()), 1)
        .unwrap();
    assert_eq!(ledger.balance_of(&id("alice")), 700_000);
    assert_eq!(ledger.balance_of(&id("bob")), 300_000);
    assert_eq!(ledger.total_supply(), 1_000_000);
    assert!(event.sender.eq_id(&id("alice")));
    assert!(event.receiver.eq_id(&id("bob")));
    assert_eq!(event.amount, 300_000);
    assert_eq!(event.memo, Some("rent".to_string()));
}

#[test]
fn self_transfer_is_rejected_unchanged() {
    let mut ledger = new_ledger("alice", 1_000_000);
    let r = ledger.transfer(&id("alice"), &id("alice"), 1, None, 1);
    assert_eq!(r.unwrap_err(), Error::SenderEqualsReceiver);
    assert_eq!(ledger.balance_of(&id("alice")), 1_000_000);
    assert_eq!(ledger.total_supply(), 1_000_000);
}

#[test]
fn transfer_error_order_matches_the_protocol() {
    let mut ledger = new_ledger("alice", 1_000_000);
    ledger.storage_deposit(&id("bob"), MIN_DEPOSIT).unwrap();
    assert_eq!(
        ledger.transfer(&id("alice"), &id("bob"), 1, None, 0).unwrap_err(),
        Error::RequiresPayment
    );
    assert_eq!(
        ledger.transfer(&id("alice"), &id("nobody"), 1, None, 1).unwrap_err(),
        Error::ReceiverNotRegistered
    );
    assert_eq!(
        ledger.transfer(&id("alice"), &id("bob"), 0, None, 1).unwrap_err(),
        Error::ZeroAmount
    );
    assert_eq!(
        ledger.transfer(&id("nobody"), &id("bob"), 1, None, 1).unwrap_err(),
        Error::NotRegistered
    );
    assert_eq!(
        ledger.transfer(&id("alice"), &id("bob"), 1_000_001, None, 1).unwrap_err(),
        Error::InsufficientBalance
    );
    assert_eq!(ledger.balance_of(&id("alice")), 1_000_000);
    assert_eq!(ledger.balance_of(&id("bob")), 0);
}

#[test]
fn notify_flow_refunds_the_unused_amount() {
    let mut ledger = new_ledger("alice", 1_000_000);
    ledger.storage_deposit(&id("bob"), MIN_DEPOSIT).unwrap();
    let (event, pending) = ledger
        .transfer_and_notify(&id("alice"), &id("bob"), 100, None, 1)
        .unwrap();
    assert_eq!(event.amount, 100);
    assert_eq!(pending.amount(), 100);
    assert!(pending.sender().eq_id(&id("alice")));
    assert!(pending.receiver().eq_id(&id("bob")));
    assert_eq!(ledger.balance_of(&id("bob")), 100);

    let out = ledger.resolve_transfer(&pending, 30);
    assert_eq!(out.used_amount, 70);
    assert!(out.burn.is_none());
    let reversal = out.reversal.unwrap();
    assert!(reversal.sender.eq_id(&id("bob")));
    assert!(reversal.receiver.eq_id(&id("alice")));
    assert_eq!(reversal.amount, 30);
    assert_eq!(reversal.memo, Some("refund".to_string()));
    assert_eq!(ledger.balance_of(&id("bob")), 70);
    assert_eq!(ledger.balance_of(&id("alice")), 999_930);
    assert_eq!(ledger.total_supply(), 1_000_000);
}

#[test]
fn notify_flow_keeps_everything_when_nothing_is_unused() {
    let mut ledger = new_ledger("alice", 1_000_000);
    ledger.storage_deposit(&id("bob"), MIN_DEPOSIT).unwrap();
    let (_event, pending) = ledger
        .transfer_and_notify(&id("alice"), &id("bob"), 100, None, 1)
        .unwrap();
    let out = ledger.resolve_transfer(&pending, 0);
    assert_eq!(out.used_amount, 100);
    assert!(out.reversal.is_none());
    assert!(out.burn.is_none());
    assert_eq!(ledger.balance_of(&id("bob")), 100);
}

#[test]
fn notify_flow_caps_the_refund_at_the_sent_amount() {
    let mut ledger = new_ledger("alice", 1_000_000);
    ledger.storage_deposit(&id("bob"), MIN_DEPOSIT).unwrap();
    let (_event, pending) = ledger
        .transfer_and_notify(&id("alice"), &id("bob"), 100, None, 1)
        .unwrap();
    let out = ledger.resolve_transfer(&pending, 1_000);
    assert_eq!(out.used_amount, 0);
    assert_eq!(out.reversal.unwrap().amount, 100);
    assert_eq!(ledger.balance_of(&id("alice")), 1_000_000);
    assert_eq!(ledger.balance_of(&id("bob")), 0);
}

#[test]
fn notify_flow_caps_the_refund_at_what_the_receiver_still_holds() {
    let mut ledger = new_ledger("alice", 1_000_000);
    ledger.storage_deposit(&id("bob"), MIN_DEPOSIT).unwrap();
    ledger.storage_deposit(&id("carol"), MIN_DEPOSIT).unwrap();
    let (_event, pending) = ledger
        .transfer_and_notify(&id("alice"), &id("bob"), 100, None, 1)
        .unwrap();
    ledger.transfer(&id("bob"), &id("carol"), 60, None, 1).unwrap();
    let out = ledger.resolve_transfer(&pending, 100);
    assert_eq!(out.used_amount, 60);
    assert_eq!(out.reversal.unwrap().amount, 40);
    assert_eq!(ledger.balance_of(&id("bob")), 0);
    assert_eq!(ledger.balance_of(&id("alice")), 999_940);
    assert_eq!(ledger.total_supply(), 1_000_000);
}

#[test]
fn notify_flow_burns_when_the_sender_is_gone() {
    let mut ledger = new_ledger("alice", 1_000);
    ledger.storage_deposit(&id("bob"), MIN_DEPOSIT).unwrap();
    let (_event, pending) = ledger
        .transfer_and_notify(&id("alice"), &id("bob"), 100, None, 1)
        .unwrap();
    ledger.storage_unregister(&id("alice"), true).unwrap();
    assert_eq!(ledger.total_supply(), 100);
    let out = ledger.resolve_transfer(&pending, 100);
    assert_eq!(out.used_amount, 0);
    assert!(out.reversal.is_none());
    let burn = out.burn.unwrap();
    assert!(burn.owner.eq_id(&id("bob")));
    assert_eq!(burn.amount, 100);
    assert_eq!(ledger.total_supply(), 0);
    assert_eq!(ledger.balance_of(&id("bob")), 0);
}
