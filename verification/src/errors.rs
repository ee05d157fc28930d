use vstd::prelude::*;

verus! {

/// Every way an operation of this ledger can fail. Failures are always
/// reported as values; no operation leaves a partial update behind.
#[derive(Clone, Copy, Debug, PartialEq, Eq, Structural)]
pub enum TokenError {
    /// An unsigned addition would exceed the integer width.
    ArithmeticOverflow,
    /// An unsigned subtraction would go below zero.
    ArithmeticUnderflow,
    /// A mint would push the total supply past the maximum supply.
    SupplyCapExceeded,
    /// A burn or transfer asks for more than the account holds.
    InsufficientBalance,
    /// A spend asks for more than the recorded allowance.
    InsufficientAllowance,
    /// A permit carries a nonce other than the account's current one.
    InvalidNonce,
    /// A permit was submitted after its deadline.
    ExpiredSignature,
    /// Signature recovery failed on malformed components.
    InvalidSignature,
    /// The recovered signer is not the stated owner.
    InvalidSigner,
    /// A checkpoint marker would move backwards in time.
    InvalidMarker,
}

} // verus!
