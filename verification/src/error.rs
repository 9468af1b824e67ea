//! The failures that the protocol engine reports.

use vstd::prelude::*;

verus! {

/// Why an operation of the protocol engine did not produce a value.
///
/// A rejected proof is not among these: rejection is an ordinary result of
/// verification.
#[derive(Clone, Copy, Debug, PartialEq, Eq, Structural)]
pub enum SchnorrError {
    /// The group parameters do not have the required structure.
    ParameterError,
    /// The randomness source failed.
    RngError,
    /// The hash function is not available.
    HashError,
    /// A session was used out of order, or a nonce would have been used twice.
    ProtocolViolation,
    /// A value handed to an operation lies outside what the operation is defined on.
    InputError,
}

impl SchnorrError {
    /// The stage of the protocol that the error belongs to.
    pub fn stage(&self) -> (r: &'static str)
        ensures
            r@ == stage_name(*self),
    {
        match self {
            SchnorrError::ParameterError => "group parameters",
            SchnorrError::RngError => "randomness source",
            SchnorrError::HashError => "hash function",
            SchnorrError::ProtocolViolation => "protocol order",
            SchnorrError::InputError => "input",
        }
    }
}

/// The name under which each error's stage is reported.
pub open spec fn stage_name(e: SchnorrError) -> Seq<char> {
    match e {
        SchnorrError::ParameterError => "group parameters"@,
        SchnorrError::RngError => "randomness source"@,
        SchnorrError::HashError => "hash function"@,
        SchnorrError::ProtocolViolation => "protocol order"@,
        SchnorrError::InputError => "input"@,
    }
}

} // verus!
