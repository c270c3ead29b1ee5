use vstd::prelude::*;

use crate::error::Error;

verus! {

/// Checked 128-bit addition: fails instead of wrapping.
pub fn checked_add(a: u128, b: u128) -> (r: Result<u128, Error>)
    ensures
        a + b <= u128::MAX ==> r == Ok::<u128, Error>((a + b) as u128),
        a + b > u128::MAX ==> r == Err::<u128, Error>(Error::Overflow),
{
    match a.checked_add(b) {
        Some(c) => Ok(c),
        None => Err(Error::Overflow),
    }
}

/// Checked 128-bit subtraction: fails instead of wrapping.
pub fn checked_sub(a: u128, b: u128) -> (r: Result<u128, Error>)
    ensures
        b <= a ==> r == Ok::<u128, Error>((a - b) as u128),
        b > a ==> r == Err::<u128, Error>(Error::Underflow),
{
    match a.checked_sub(b) {
        Some(c) => Ok(c),
        None => Err(Error::Underflow),
    }
}

/// Checked 128-bit multiplication: fails instead of wrapping.
pub fn checked_mul(a: u128, b: u128) -> (r: Result<u128, Error>)
    ensures
        a * b <= u128::MAX ==> r == Ok::<u128, Error>((a * b) as u128),
        a * b > u128::MAX ==> r == Err::<u128, Error>(Error::Overflow),
{
    match a.checked_mul(b) {
        Some(c) => Ok(c),
        None => Err(Error::Overflow),
    }
}

} // verus!
