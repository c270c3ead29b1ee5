use vstd::prelude::*;
use vstd::slice::slice_to_vec;
use vstd::string::StrSliceExecFns;
use vstd::string::StringSliceAdditionalSpecFns;

use crate::error::Error;

verus! {

/// Longest permitted account identifier, in bytes.
pub const MAX_ACCOUNT_ID_LEN: usize = 64;

/// Bytes allowed as separators inside an identifier: `-` (45), `.` (46)
/// and `_` (95).
pub open spec fn is_separator_byte(b: u8) -> bool {
    b == 45 || b == 46 || b == 95
}

/// Lower-case ASCII letters and decimal digits.
pub open spec fn is_lower_alnum_byte(b: u8) -> bool {
    (97 <= b && b <= 122) || (48 <= b && b <= 57)
}

/// Any byte an account identifier may contain.
pub open spec fn is_account_id_byte(b: u8) -> bool {
    is_lower_alnum_byte(b) || is_separator_byte(b)
}

/// The identifier format: 1 to 64 bytes, each a lower-case letter, digit
/// or separator; a separator never starts or ends the identifier and never
/// follows another separator.
pub open spec fn is_valid_account_id(s: Seq<u8>) -> bool {
    &&& 1 <= s.len() <= MAX_ACCOUNT_ID_LEN
    &&& forall|i: int| 0 <= i < s.len() ==> is_account_id_byte(#[trigger] s[i])
    &&& !is_separator_byte(s[0])
    &&& !is_separator_byte(s[s.len() - 1])
    &&& forall|i: int|
        0 < i < s.len() ==> !(is_separator_byte(#[trigger] s[i]) && is_separator_byte(s[i - 1]))
}

/// Decides `is_separator_byte`.
pub fn check_separator_byte(b: u8) -> (r: bool)
    ensures
        r == is_separator_byte(b),
{
    b == 45 || b == 46 || b == 95
}

/// Decides `is_account_id_byte`.
pub fn check_account_id_byte(b: u8) -> (r: bool)
    ensures
        r == is_account_id_byte(b),
{
    (97 <= b && b <= 122) || (48 <= b && b <= 57) || check_separator_byte(b)
}

/// Decides `is_valid_account_id`.
pub fn validate_account_id(bytes: &Vec<u8>) -> (r: bool)
    ensures
        r == is_valid_account_id(bytes@),
{
    let n = bytes.len();
    if n < 1 || n > MAX_ACCOUNT_ID_LEN {
        return false;
    }
    let mut i: usize = 0;
    while i < n
        invariant
            n == bytes@.len(),
            1 <= n <= MAX_ACCOUNT_ID_LEN,
            i <= n,
            forall|j: int| 0 <= j < i ==> is_account_id_byte(#[trigger] bytes@[j]),
            i > 0 ==> !is_separator_byte(bytes@[0]),
            forall|j: int|
                0 < j < i ==> !(is_separator_byte(#[trigger] bytes@[j]) && is_separator_byte(
                    bytes@[j - 1],
                )),
            i == n ==> !is_separator_byte(bytes@[n - 1]),
        decreases n - i,
    {
        let b = bytes[i];
        if !check_account_id_byte(b) {
            return false;
        }
        if check_separator_byte(b) {
            if i == 0 || i + 1 == n {
                return false;
            }
            if check_separator_byte(bytes[i - 1]) {
                return false;
            }
        }
        i += 1;
    }
    true
}

/// A validated account identifier: an opaque string token that names a
/// ledger entry. Values exist only through the checked constructors, so a
/// held `AccountId` always satisfies `wf`.
#[derive(Debug)]
pub struct AccountId {
    bytes: Vec<u8>,
}

impl View for AccountId {
    type V = Seq<u8>;

    closed spec fn view(&self) -> Seq<u8> {
        self.bytes@
    }
}

impl AccountId {
    /// The identifier meets the required format.
    pub open spec fn wf(self) -> bool {
        is_valid_account_id(self@)
    }

    /// Builds an identifier from raw bytes, rejecting malformed input.
    pub fn try_from_bytes(bytes: Vec<u8>) -> (r: Result<AccountId, Error>)
        ensures
            is_valid_account_id(bytes@) ==> (r matches Ok(id) && id@ == bytes@ && id.wf()),
            !is_valid_account_id(bytes@) ==> r == Err::<AccountId, Error>(Error::InvalidAccountId),
    {
        if validate_account_id(&bytes) {
            Ok(AccountId { bytes })
        } else {
            Err(Error::InvalidAccountId)
        }
    }

    /// Builds an identifier from a string slice, rejecting malformed input.
    pub fn try_from_str(s: &str) -> (r: Result<AccountId, Error>)
        ensures
            is_valid_account_id(s.spec_bytes()) ==> (r matches Ok(id) && id@ == s.spec_bytes()
                && id.wf()),
            !is_valid_account_id(s.spec_bytes()) ==> r == Err::<AccountId, Error>(
                Error::InvalidAccountId,
            ),
    {
        Self::try_from_bytes(s.as_bytes_vec())
    }

    /// A copy of the identifier with the same bytes.
    pub fn duplicate(&self) -> (r: AccountId)
        ensures
            r@ == self@,
    {
        AccountId { bytes: slice_to_vec(self.bytes.as_slice()) }
    }

    /// The identifier's bytes.
    pub fn bytes(&self) -> (r: &Vec<u8>)
        ensures
            r@ == self@,
    {
        &self.bytes
    }

    /// The identifier's length in bytes.
    pub fn len(&self) -> (n: usize)
        ensures
            n == self@.len(),
    {
        self.bytes.len()
    }

    /// Byte-for-byte equality of two identifiers.
    pub fn eq_id(&self, other: &AccountId) -> (r: bool)
        ensures
            r == (self@ == other@),
    {
        if self.bytes.len() != other.bytes.len() {
            proof {
                assert(self@.len() != other@.len());
            }
            return false;
        }
        let n = self.bytes.len();
        let mut i: usize = 0;
        while i < n
            invariant
                n == self@.len(),
                n == other@.len(),
                i <= n,
                forall|j: int| 0 <= j < i ==> self@[j] == other@[j],
            decreases n - i,
        {
            if self.bytes[i] != other.bytes[i] {
                proof {
                    assert(self@[i as int] != other@[i as int]);
                }
                return false;
            }
            i += 1;
        }
        proof {
            assert(self@ =~= other@);
        }
        true
    }
}

} // verus!
