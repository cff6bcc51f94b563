//! The hashing and signing primitives of the `starknet` crates, over the
//! library's field elements.
use crate::felt::{be_value, bytes_equal, lemma_be_value_eq_bytes, lemma_be_value_zeros, pow256, zero_bytes, Felt252};
use starknet_crypto::Felt;
use starknet_signers::SigningKey;
use vstd::prelude::*;

verus! {

#[verifier::external_type_specification]
#[verifier::external_body]
pub struct ExEcdsaSignError(starknet::core::crypto::EcdsaSignError);

#[verifier::external_type_specification]
#[verifier::external_body]
pub struct ExFromStrError(starknet::core::types::FromStrError);

/// What `starknet_keccak` gives for a byte string.
pub uninterp spec fn starknet_keccak_value(data: Seq<u8>) -> nat;

/// What `compute_hash_on_elements` gives for a sequence of field elements.
pub uninterp spec fn pedersen_on_elements(elems: Seq<nat>) -> nat;

/// The public key of a secret scalar on the Stark curve.
pub uninterp spec fn stark_public_key(secret: nat) -> nat;

/// The deterministic (RFC 6979) Stark ECDSA signature `(r, s)` of a hash.
pub uninterp spec fn stark_ecdsa_signature(secret: nat, hash: nat) -> (nat, nat);

/// The field element that `Felt::from_hex` reads from a text, if any.
pub uninterp spec fn felt_hex_value(text: Seq<char>) -> Option<nat>;

/// The values of a sequence of field elements.
pub open spec fn felt_values(elems: Seq<Felt252>) -> Seq<nat> {
    elems.map_values(|f: Felt252| f@)
}

/// Every element is well formed.
pub open spec fn all_wf(elems: Seq<Felt252>) -> bool {
    forall|i: int| 0 <= i < elems.len() ==> #[trigger] elems[i].wf()
}

/// Message hashes that can be signed lie below 2^251.
pub open spec fn signable_bound() -> nat {
    8 * pow256(31)
}

/// The 32 big-endian bytes of the order of the Stark curve's group.
pub open spec fn curve_order_bytes() -> Seq<u8> {
    seq![
        0x08u8, 0x00, 0x00, 0x00, 0x00, 0x00, 0x00, 0x10,
        0xff, 0xff, 0xff, 0xff, 0xff, 0xff, 0xff, 0xff,
        0xb7, 0x81, 0x12, 0x6d, 0xca, 0xe7, 0xb2, 0x32,
        0x1e, 0x66, 0xa2, 0x41, 0xad, 0xc6, 0x4d, 0x2f,
    ]
}

/// The order of the Stark curve's group.
pub open spec fn curve_order() -> nat {
    be_value(curve_order_bytes())
}

/// A secret scalar that has a public key: neither zero nor the group's order.
pub open spec fn usable_secret(k: nat) -> bool {
    k != 0 && k != curve_order()
}

/// Whether a secret scalar has a public key.
pub fn is_usable_secret(secret: &Felt252) -> (r: bool)
    requires
        secret.wf(),
    ensures
        r == usable_secret(secret@),
        r ==> secret@ != 0 && secret.be_bytes() != curve_order_bytes(),
{
    proof {
        secret.lemma_wf();
        lemma_be_value_zeros(32);
    }
    let bytes = secret.to_be_bytes();
    let zero: Vec<u8> = vec![0u8; 32];
    assert(zero@ =~= zero_bytes(32));
    let order: Vec<u8> = vec![
        0x08u8, 0x00, 0x00, 0x00, 0x00, 0x00, 0x00, 0x10,
        0xff, 0xff, 0xff, 0xff, 0xff, 0xff, 0xff, 0xff,
        0xb7, 0x81, 0x12, 0x6d, 0xca, 0xe7, 0xb2, 0x32,
        0x1e, 0x66, 0xa2, 0x41, 0xad, 0xc6, 0x4d, 0x2f,
    ];
    assert(order@ =~= curve_order_bytes());
    let is_zero = bytes_equal(&bytes, &zero);
    let is_order = bytes_equal(&bytes, &order);
    proof {
        if secret@ == 0 {
            lemma_be_value_eq_bytes(bytes@, zero@);
        }
        if secret@ == curve_order() {
            lemma_be_value_eq_bytes(bytes@, order@);
        }
    }
    !is_zero && !is_order
}

/// A signature `(r, s)` over a message hash.
#[derive(Debug)]
pub struct Signature {
    pub r: Felt252,
    pub s: Felt252,
}

impl Signature {
    pub open spec fn wf(&self) -> bool {
        self.r.wf() && self.s.wf()
    }
}

/// Relies on `starknet::core::utils::starknet_keccak`: Keccak-256 of the
/// bytes with the top six bits cleared, a field element that depends on the
/// bytes alone.
#[verifier::external_body]
pub(crate) fn keccak_of(data: &[u8]) -> (r: Felt252)
    ensures
        r.wf(),
        r@ == starknet_keccak_value(data@),
{
    let h = starknet::core::utils::starknet_keccak(data);
    Felt252 { bytes: h.to_bytes_be().to_vec() }
}

/// Relies on `starknet::core::crypto::compute_hash_on_elements`: the
/// Pedersen hash chain over the elements followed by their count, a field
/// element that depends on the elements alone.
#[verifier::external_body]
pub(crate) fn hash_on_elements(elems: &[Felt252]) -> (r: Felt252)
    requires
        all_wf(elems@),
    ensures
        r.wf(),
        r@ == pedersen_on_elements(felt_values(elems@)),
{
    let felts: Vec<Felt> = elems.iter().map(|f| Felt::from_bytes_be_slice(&f.bytes)).collect();
    let h = starknet::core::crypto::compute_hash_on_elements(&felts);
    Felt252 { bytes: h.to_bytes_be().to_vec() }
}

/// Relies on `starknet_signers::SigningKey::verifying_key`: the public key
/// depends on the secret alone; the call panics for a multiple of the
/// group's order, which the precondition leaves out.
#[verifier::external_body]
pub(crate) fn public_key_of(secret: &Felt252) -> (r: Felt252)
    requires
        secret.wf(),
        secret@ != 0,
        secret.be_bytes() != curve_order_bytes(),
    ensures
        r.wf(),
        r@ == stark_public_key(secret@),
{
    let key = SigningKey::from_secret_scalar(Felt::from_bytes_be_slice(&secret.bytes));
    Felt252 { bytes: key.verifying_key().scalar().to_bytes_be().to_vec() }
}

/// Relies on `starknet_signers::SigningKey::sign`: ECDSA with an RFC 6979
/// nonce, so the signature depends on the secret and the hash alone; it
/// fails exactly when the hash is not below 2^251. For a secret that is a
/// multiple of the group's order the nonce search may never end, so the
/// precondition leaves those out.
#[verifier::external_body]
pub(crate) fn sign_hash(secret: &Felt252, hash: &Felt252) -> (r: Result<Signature, starknet::core::crypto::EcdsaSignError>)
    requires
        secret.wf(),
        secret@ != 0,
        secret.be_bytes() != curve_order_bytes(),
        hash.wf(),
    ensures
        r is Ok <==> hash@ < signable_bound(),
        r matches Ok(sig) ==> sig.wf() && (sig.r@, sig.s@) == stark_ecdsa_signature(secret@, hash@),
{
    let key = SigningKey::from_secret_scalar(Felt::from_bytes_be_slice(&secret.bytes));
    let sig = key.sign(&Felt::from_bytes_be_slice(&hash.bytes))?;
    Ok(Signature {
        r: Felt252 { bytes: sig.r.to_bytes_be().to_vec() },
        s: Felt252 { bytes: sig.s.to_bytes_be().to_vec() },
    })
}

/// Relies on `Felt::from_hex`: reads a hexadecimal text, with or without
/// `0x`, into a field element; the outcome depends on the text alone.
#[verifier::external_body]
pub(crate) fn parse_felt_hex(text: &str) -> (r: Result<Felt252, starknet::core::types::FromStrError>)
    ensures
        r is Ok <==> felt_hex_value(text@) is Some,
        r matches Ok(f) ==> f.wf() && felt_hex_value(text@) == Some(f@),
{
    let f = Felt::from_hex(text)?;
    Ok(Felt252 { bytes: f.to_bytes_be().to_vec() })
}

} // verus!
