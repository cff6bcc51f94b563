//! The errors of the signing and request flows.
use crate::felt::EncodeError;
use vstd::prelude::*;

verus! {

/// Why a signing flow or a request failed.
#[derive(Debug)]
pub enum FlowError {
    /// A private key or an account address is not a usable field element.
    KeyParse,
    /// A string is longer than a field element holds.
    EncodingOverflow,
    /// A value has no field element.
    InvalidFieldValue,
    /// The domain hash by the schema differs from the written-out one.
    SchemaMismatch,
    /// The signing primitive refused the hash.
    Signing,
    /// The request did not reach the venue.
    Transport(String),
    /// The venue answered with a status outside 2xx and this body.
    Rejected(u16, String),
}

/// The flow error for an encoding error.
pub open spec fn flow_error_of(e: EncodeError) -> FlowError {
    match e {
        EncodeError::EncodingOverflow => FlowError::EncodingOverflow,
        EncodeError::InvalidFieldValue => FlowError::InvalidFieldValue,
    }
}

/// The flow error for an encoding error.
pub fn from_encode_error(e: EncodeError) -> (r: FlowError)
    ensures
        r == flow_error_of(e),
{
    match e {
        EncodeError::EncodingOverflow => FlowError::EncodingOverflow,
        EncodeError::InvalidFieldValue => FlowError::InvalidFieldValue,
    }
}

} // verus!
