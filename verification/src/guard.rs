use crate::errors::TokenError;
use vstd::prelude::*;

verus! {

/// Overflow-checked addition over balances and supply: never wraps,
/// fails loudly instead.
pub fn guarded_add(a: u128, b: u128) -> (r: Result<u128, TokenError>)
    ensures
        a + b <= u128::MAX ==> r == Ok::<u128, TokenError>((a + b) as u128),
        a + b > u128::MAX ==> r == Err::<u128, TokenError>(TokenError::ArithmeticOverflow),
{
    if a <= u128::MAX - b {
        Ok(a + b)
    } else {
        Err(TokenError::ArithmeticOverflow)
    }
}

/// Underflow-checked subtraction: an attempt to take more than is there
/// fails, it does not saturate.
pub fn guarded_sub(a: u128, b: u128) -> (r: Result<u128, TokenError>)
    ensures
        b <= a ==> r == Ok::<u128, TokenError>((a - b) as u128),
        b > a ==> r == Err::<u128, TokenError>(TokenError::ArithmeticUnderflow),
{
    if b <= a {
        Ok(a - b)
    } else {
        Err(TokenError::ArithmeticUnderflow)
    }
}

/// Checked addition at the width of the host-facing token's balances.
pub fn guarded_add_u64(a: u64, b: u64) -> (r: Result<u64, TokenError>)
    ensures
        a + b <= u64::MAX ==> r == Ok::<u64, TokenError>((a + b) as u64),
        a + b > u64::MAX ==> r == Err::<u64, TokenError>(TokenError::ArithmeticOverflow),
{
    if a <= u64::MAX - b {
        Ok(a + b)
    } else {
        Err(TokenError::ArithmeticOverflow)
    }
}

/// Checked subtraction at the width of the host-facing token's balances.
pub fn guarded_sub_u64(a: u64, b: u64) -> (r: Result<u64, TokenError>)
    ensures
        b <= a ==> r == Ok::<u64, TokenError>((a - b) as u64),
        b > a ==> r == Err::<u64, TokenError>(TokenError::ArithmeticUnderflow),
{
    if b <= a {
        Ok(a - b)
    } else {
        Err(TokenError::ArithmeticUnderflow)
    }
}

} // verus!
