use vstd::prelude::*;

verus! {

/// Errors raised while storing or converting a single claim.
#[derive(Debug, PartialEq, Eq)]
pub enum ClaimError {
    /// The value to store was the null value, which a claim set cannot hold.
    InvalidValue,
    /// The structured value could not be serialized.
    SerializationError(String),
    /// A claim failed the token format's shape check, with its reason.
    InvalidClaim(String),
}

/// Errors raised while issuing or verifying a token.
#[derive(Debug, PartialEq, Eq)]
pub enum TokenError {
    /// A reserved claim did not have the shape the token format demands.
    InvalidClaim(String),
    /// The token's expiration lies in the past.
    Expired,
    /// The token is not valid.
    Invalid,
    /// The token failed validation.
    Validation,
    /// The token is malformed.
    Format,
    /// A claim-level failure, carried through from claim conversion.
    ClaimError(ClaimError),
    /// The token engine rejected the payload while signing, or a presented
    /// token failed parse, signature, or time validation.
    TokenCreationFailed(String),
}

/// Errors raised while constructing a token authority.
#[derive(Debug, PartialEq, Eq)]
pub enum MakerError {
    /// The supplied bytes do not form a valid signing keypair.
    InvalidKey(String),
}

} // verus!
