use ft_ledger::account::AccountId;
use ft_ledger::account::MAX_ACCOUNT_ID_LEN;
use ft_ledger::account::validate_account_id;
use ft_ledger::balance::checked_add;
use ft_ledger::balance::checked_mul;
use ft_ledger::balance::checked_sub;
use ft_ledger::error::Error;
use ft_ledger::error::ErrorKind;

#[test]
fn valid_account_ids_accepted() {
    for good in ["a", "alice", "bob", "sub.domain", "a-b_c.d-e", "x0", "0x", "a1.b2-c3_d4"] {
        assert!(validate_account_id(&good.as_bytes().to_vec()), "{good}");
        assert!(AccountId::try_from_str(good).is_ok(), "{good}");
    }
    let longest = "a".repeat(MAX_ACCOUNT_ID_LEN);
    assert!(AccountId::try_from_str(&longest).is_ok());
}

#[test]
fn malformed_account_ids_rejected() {
    let too_long = "a".repeat(MAX_ACCOUNT_ID_LEN + 1);
    for bad in [
        "",
        too_long.as_str(),
        "Alice",
        "has space",
        "-alice",
        "alice-",
        ".alice",
        "alice.",
        "_alice",
        "alice_",
        "a..b",
        "a.-b",
        "a-_b",
        "émile",
    ] {
        assert!(!validate_account_id(&bad.as_bytes().to_vec()), "{bad}");
        assert_eq!(AccountId::try_from_str(bad).unwrap_err(), Error::InvalidAccountId);
    }
}

#[test]
fn account_id_duplicate_and_equality() {
    let a = AccountId::try_from_str("alice").unwrap();
    let b = AccountId::try_from_str("bob").unwrap();
    let a2 = a.duplicate();
    assert!(a.eq_id(&a2));
    assert!(!a.eq_id(&b));
    assert_eq!(a2.bytes(), &b"alice".to_vec());
    assert_eq!(a.len(), 5);
}

#[test]
fn account_id_from_bytes() {
    let id = AccountId::try_from_bytes(b"alice".to_vec()).unwrap();
    assert_eq!(id.bytes(), &b"alice".to_vec());
    assert_eq!(
        AccountId::try_from_bytes(b"BAD".to_vec()).unwrap_err(),
        Error::InvalidAccountId
    );
}

#[test]
fn checked_arithmetic_fails_instead_of_wrapping() {
    assert_eq!(checked_add(2, 3).unwrap(), 5);
    assert_eq!(checked_add(u128::MAX, 1).unwrap_err(), Error::Overflow);
    assert_eq!(checked_add(u128::MAX, 0).unwrap(), u128::MAX);
    assert_eq!(checked_sub(5, 3).unwrap(), 2);
    assert_eq!(checked_sub(0, 1).unwrap_err(), Error::Underflow);
    assert_eq!(checked_mul(1 << 64, 1 << 64).unwrap_err(), Error::Overflow);
    assert_eq!(checked_mul(1 << 64, 1 << 63).unwrap(), 1 << 127);
    assert_eq!(checked_mul(7, 6).unwrap(), 42);
}

#[test]
fn error_kinds_follow_the_taxonomy() {
    assert_eq!(Error::InvalidAccountId.kind(), ErrorKind::Validation);
    assert_eq!(Error::ZeroAmount.kind(), ErrorKind::Validation);
    assert_eq!(Error::SenderEqualsReceiver.kind(), ErrorKind::Validation);
    assert_eq!(Error::NotRegistered.kind(), ErrorKind::Precondition);
    assert_eq!(Error::AlreadyRegistered.kind(), ErrorKind::Precondition);
    assert_eq!(Error::ReceiverNotRegistered.kind(), ErrorKind::Precondition);
    assert_eq!(Error::InsufficientBalance.kind(), ErrorKind::Precondition);
    assert_eq!(Error::NonZeroBalance.kind(), ErrorKind::Precondition);
    assert_eq!(Error::InsufficientDeposit.kind(), ErrorKind::Resource);
    assert_eq!(Error::RequiresPayment.kind(), ErrorKind::Resource);
    assert_eq!(Error::Overflow.kind(), ErrorKind::Arithmetic);
    assert_eq!(Error::Underflow.kind(), ErrorKind::Arithmetic);
}
