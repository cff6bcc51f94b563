//! Signed onboarding and authentication messages for a Starknet trading venue.
//!
//! Field elements, the short-string encoding, the two fixed typed-data
//! schemas, the message hash chain and the decisions of the two request
//! flows are verified here; hashing and signing are delegated to the
//! `starknet` crates.
pub mod felt;
pub mod hex;
pub mod crypto;
pub mod error;
pub mod typed_data;
pub mod flow;
pub mod text;
