//! The texts that carry field elements in requests: the signature header
//! and the onboarding body.
use crate::crypto::Signature;
use crate::felt::Felt252;
use starknet_crypto::Felt;
use vstd::prelude::*;
use vstd::string::*;

verus! {

/// The decimal digit for `d` in 0..10.
pub open spec fn decimal_digit(d: int) -> char {
    seq!['0', '1', '2', '3', '4', '5', '6', '7', '8', '9'][d]
}

/// The decimal digits of `v`, without leading zeros; `0` for zero.
pub open spec fn decimal_text(v: nat) -> Seq<char>
    decreases v,
{
    if v < 10 {
        seq![decimal_digit(v as int)]
    } else {
        decimal_text(v / 10).push(decimal_digit((v % 10) as int))
    }
}

/// The lowercase hexadecimal digits of `v`, without leading zeros; `0` for
/// zero.
pub open spec fn lower_hex_text(v: nat) -> Seq<char>
    decreases v,
{
    if v < 16 {
        seq![crate::hex::hex_digit(v as int)]
    } else {
        lower_hex_text(v / 16).push(crate::hex::hex_digit((v % 16) as int))
    }
}

/// The signature header `["<r>","<s>"]`, both in decimal.
pub open spec fn signature_header_text(r: nat, s: nat) -> Seq<char> {
    seq!['[', '"'] + decimal_text(r) + seq!['"', ',', '"'] + decimal_text(s) + seq!['"', ']']
}

/// The onboarding body `{"public_key":"0x<hex>"}`.
pub open spec fn onboarding_body_text(public_key: nat) -> Seq<char> {
    "{\"public_key\":\"0x"@ + lower_hex_text(public_key) + "\"}"@
}

/// Relies on `Display` for `Felt`: the value's decimal digits, as
/// `BigUint` prints them.
#[verifier::external_body]
fn felt_decimal(f: &Felt252) -> (r: String)
    requires
        f.wf(),
    ensures
        r@ == decimal_text(f@),
{
    Felt::from_bytes_be_slice(&f.bytes).to_string()
}

/// Relies on `LowerHex` for `Felt`: the value's lowercase hexadecimal digits
/// without leading zeros, as lambdaworks' `UnsignedInteger` prints them.
#[verifier::external_body]
fn felt_lower_hex(f: &Felt252) -> (r: String)
    requires
        f.wf(),
    ensures
        r@ == lower_hex_text(f@),
{
    format!("{:x}", Felt::from_bytes_be_slice(&f.bytes))
}

/// The signature header `["<r>","<s>"]`, both in decimal.
pub fn signature_header(sig: &Signature) -> (r: String)
    requires
        sig.wf(),
    ensures
        r@ == signature_header_text(sig.r@, sig.s@),
{
    proof {
        reveal_strlit("[\"");
        reveal_strlit("\",\"");
        reveal_strlit("\"]");
    }
    let mut out = String::from_str("[\"");
    let r = felt_decimal(&sig.r);
    out.append(r.as_str());
    out.append("\",\"");
    let s = felt_decimal(&sig.s);
    out.append(s.as_str());
    out.append("\"]");
    assert(out@ =~= signature_header_text(sig.r@, sig.s@));
    out
}

/// The onboarding body `{"public_key":"0x<hex>"}`.
pub fn onboarding_body(public_key: &Felt252) -> (r: String)
    requires
        public_key.wf(),
    ensures
        r@ == onboarding_body_text(public_key@),
{
    let mut out = String::from_str("{\"public_key\":\"0x");
    let digits = felt_lower_hex(public_key);
    out.append(digits.as_str());
    out.append("\"}");
    out
}

} // verus!
