use vstd::prelude::*;

verus! {

/// Why a ledger call was rejected.
///
/// Every failing operation aborts the whole enclosing call and leaves the
/// ledger exactly as it was; the caller's full attached payment is then
/// owed back to them by the environment.
#[derive(Clone, Copy, Debug, PartialEq, Eq, Structural)]
pub enum Error {
    /// The account identifier does not meet the required format.
    InvalidAccountId,
    /// The account already has a ledger entry.
    AlreadyRegistered,
    /// The account has no ledger entry.
    NotRegistered,
    /// The transfer receiver has no ledger entry.
    ReceiverNotRegistered,
    /// A transfer names the same account as sender and receiver.
    SenderEqualsReceiver,
    /// A transfer of amount zero was requested.
    ZeroAmount,
    /// The account's balance is smaller than the requested amount.
    InsufficientBalance,
    /// Unregistering was refused because the balance is still positive.
    NonZeroBalance,
    /// The attached payment does not cover the required storage cost.
    InsufficientDeposit,
    /// The call demands a minimal attached payment and none was given.
    RequiresPayment,
    /// A checked addition would exceed the 128-bit range.
    Overflow,
    /// A checked subtraction would fall below zero.
    Underflow,
}

/// Coarse classification of an `Error`: where in a call's life the
/// rejection arises.
#[derive(Clone, Copy, Debug, PartialEq, Eq, Structural)]
pub enum ErrorKind {
    /// Rejected before any state is read: malformed input.
    Validation,
    /// A state precondition does not hold.
    Precondition,
    /// The attached payment is too small for the resources consumed.
    Resource,
    /// A checked arithmetic operation would leave the 128-bit range.
    Arithmetic,
}

impl Error {
    /// The class an error belongs to.
    pub open spec fn spec_kind(self) -> ErrorKind {
        match self {
            Error::InvalidAccountId => ErrorKind::Validation,
            Error::SenderEqualsReceiver => ErrorKind::Validation,
            Error::ZeroAmount => ErrorKind::Validation,
            Error::AlreadyRegistered => ErrorKind::Precondition,
            Error::NotRegistered => ErrorKind::Precondition,
            Error::ReceiverNotRegistered => ErrorKind::Precondition,
            Error::InsufficientBalance => ErrorKind::Precondition,
            Error::NonZeroBalance => ErrorKind::Precondition,
            Error::InsufficientDeposit => ErrorKind::Resource,
            Error::RequiresPayment => ErrorKind::Resource,
            Error::Overflow => ErrorKind::Arithmetic,
            Error::Underflow => ErrorKind::Arithmetic,
        }
    }

    /// Classifies the error.
    pub fn kind(&self) -> (k: ErrorKind)
        ensures
            k == self.spec_kind(),
    {
        match self {
            Error::InvalidAccountId => ErrorKind::Validation,
            Error::SenderEqualsReceiver => ErrorKind::Validation,
            Error::ZeroAmount => ErrorKind::Validation,
            Error::AlreadyRegistered => ErrorKind::Precondition,
            Error::NotRegistered => ErrorKind::Precondition,
            Error::ReceiverNotRegistered => ErrorKind::Precondition,
            Error::InsufficientBalance => ErrorKind::Precondition,
            Error::NonZeroBalance => ErrorKind::Precondition,
            Error::InsufficientDeposit => ErrorKind::Resource,
            Error::RequiresPayment => ErrorKind::Resource,
            Error::Overflow => ErrorKind::Arithmetic,
            Error::Underflow => ErrorKind::Arithmetic,
        }
    }
}

} // verus!
