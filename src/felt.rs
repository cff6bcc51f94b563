//! Field elements of the Stark prime field, held as 32 big-endian bytes,
//! and the short-string packing of byte strings into them.
use vstd::arithmetic::div_mod::{
    lemma_basic_div, lemma_div_denominator, lemma_fundamental_div_mod_converse,
};
use vstd::prelude::*;
use vstd::string::*;
use vstd::utf8::*;

verus! {

/// The order of the Stark field, 2^251 + 17 * 2^192 + 1.
pub open spec fn field_prime() -> nat {
    8 * pow256(31) + 17 * pow256(24) + 1
}

/// The longest byte string that packs into one field element.
pub const SHORT_STRING_MAX: usize = 31;

/// 256 to the power `n`.
pub open spec fn pow256(n: nat) -> nat
    decreases n,
{
    if n == 0 {
        1
    } else {
        256 * pow256((n - 1) as nat)
    }
}

/// The number whose big-endian base-256 digits are `b`.
pub open spec fn be_value(b: Seq<u8>) -> nat
    decreases b.len(),
{
    if b.len() == 0 {
        0
    } else {
        be_value(b.drop_last()) * 256 + b.last() as nat
    }
}

/// The big-endian digits of `v` without leading zeros; empty for zero.
pub open spec fn minimal_bytes(v: nat) -> Seq<u8>
    decreases v,
{
    if v == 0 {
        Seq::empty()
    } else {
        minimal_bytes(v / 256).push((v % 256) as u8)
    }
}

/// Whether the byte string `b` fits in one field element.
pub open spec fn fits_short_string(b: Seq<u8>) -> bool {
    b.len() <= SHORT_STRING_MAX
}

/// The field element that a short string packs into: its bytes read as a
/// big-endian number.
pub open spec fn short_string_value(b: Seq<u8>) -> nat {
    be_value(b)
}

/// The bytes that a field element unpacks into: its value's big-endian
/// digits, leading zero bytes dropped.
pub open spec fn decoded_short_string(v: nat) -> Seq<u8> {
    minimal_bytes(v)
}

/// Why a value cannot become a field element.
#[derive(Debug, Clone, Copy, PartialEq, Eq, Structural)]
pub enum EncodeError {
    /// The string is longer than a field element holds.
    EncodingOverflow,
    /// The value has no field element (a negative number).
    InvalidFieldValue,
}

/// An element of the Stark field, stored as its 32 big-endian bytes.
#[derive(Debug)]
pub struct Felt252 {
    pub(crate) bytes: Vec<u8>,
}

impl View for Felt252 {
    type V = nat;

    closed spec fn view(&self) -> nat {
        be_value(self.bytes@)
    }
}

impl Felt252 {
    /// Exactly 32 bytes, holding a value below the field's order.
    pub closed spec fn wf(&self) -> bool {
        self.bytes@.len() == 32 && be_value(self.bytes@) < field_prime()
    }

    /// The 32 big-endian bytes of this element.
    pub closed spec fn be_bytes(&self) -> Seq<u8> {
        self.bytes@
    }

    /// Every well-formed element's bytes are the value's 32-byte big-endian form.
    pub proof fn lemma_wf(&self)
        requires
            self.wf(),
        ensures
            self.be_bytes().len() == 32,
            be_value(self.be_bytes()) == self@,
            self@ < field_prime(),
    {
    }

    /// A second element equal to this one.
    pub fn copy(&self) -> (r: Felt252)
        ensures
            r.be_bytes() == self.be_bytes(),
            r@ == self@,
            self.wf() ==> r.wf(),
    {
        Felt252 { bytes: self.bytes.clone() }
    }

    /// The 32 big-endian bytes of this element.
    pub fn to_be_bytes(&self) -> (r: Vec<u8>)
        ensures
            r@ == self.be_bytes(),
    {
        self.bytes.clone()
    }

    /// Whether two elements are the same.
    pub fn equals(&self, other: &Felt252) -> (r: bool)
        requires
            self.wf(),
            other.wf(),
        ensures
            r == (self@ == other@),
    {
        let mut i: usize = 0;
        while i < 32
            invariant
                self.wf(),
                other.wf(),
                i <= 32,
                self.bytes@.subrange(0, i as int) == other.bytes@.subrange(0, i as int),
            decreases 32 - i,
        {
            if self.bytes[i] != other.bytes[i] {
                proof {
                    lemma_be_value_injective(self.bytes@, other.bytes@, i as int);
                }
                return false;
            }
            proof {
                assert(self.bytes@.subrange(0, i + 1) =~= self.bytes@.subrange(0, i as int).push(
                    self.bytes@[i as int],
                ));
                assert(other.bytes@.subrange(0, i + 1) =~= other.bytes@.subrange(0, i as int).push(
                    other.bytes@[i as int],
                ));
            }
            i = i + 1;
        }
        assert(self.bytes@ =~= self.bytes@.subrange(0, 32));
        assert(other.bytes@ =~= other.bytes@.subrange(0, 32));
        true
    }
}

/// `n` zero bytes.
pub open spec fn zero_bytes(n: nat) -> Seq<u8> {
    Seq::new(n, |i: int| 0u8)
}

/// Packs the bytes `b` into a field element, read as a big-endian number.
pub fn encode_short_bytes(b: &[u8]) -> (r: Result<Felt252, EncodeError>)
    ensures
        fits_short_string(b@) <==> r is Ok,
        r matches Ok(f) ==> f.wf() && f@ == short_string_value(b@),
        r matches Err(e) ==> e == EncodeError::EncodingOverflow,
{
    let n = b.len();
    if n > SHORT_STRING_MAX {
        return Err(EncodeError::EncodingOverflow);
    }
    let pad: usize = 32 - n;
    let mut bytes: Vec<u8> = Vec::new();
    let mut i: usize = 0;
    while i < pad
        invariant
            i <= pad,
            bytes@ =~= zero_bytes(i as nat),
        decreases pad - i,
    {
        bytes.push(0);
        i = i + 1;
    }
    let mut j: usize = 0;
    while j < n
        invariant
            j <= n,
            n == b@.len(),
            bytes@ =~= zero_bytes(pad as nat) + b@.subrange(0, j as int),
        decreases n - j,
    {
        bytes.push(b[j]);
        proof {
            assert(b@.subrange(0, j + 1) =~= b@.subrange(0, j as int).push(b@[j as int]));
        }
        j = j + 1;
    }
    proof {
        assert(b@.subrange(0, n as int) =~= b@);
        lemma_be_value_concat(zero_bytes(pad as nat), b@);
        lemma_be_value_zeros(pad as nat);
        lemma_short_string_below_prime(b@);
    }
    Ok(Felt252 { bytes })
}

/// Packs the UTF-8 bytes of `s` into a field element; the empty string is
/// zero.
pub fn encode_short_string(s: &str) -> (r: Result<Felt252, EncodeError>)
    ensures
        fits_short_string(s.spec_bytes()) <==> r is Ok,
        r matches Ok(f) ==> f.wf() && f@ == short_string_value(s.spec_bytes()),
        r matches Err(e) ==> e == EncodeError::EncodingOverflow,
{
    encode_short_bytes(s.as_bytes())
}

/// The field element with value `v`.
pub fn felt_from_u128(v: u128) -> (r: Felt252)
    ensures
        r.wf(),
        r@ == v,
{
    let mut bytes: Vec<u8> = Vec::new();
    let mut i: usize = 0;
    while i < 16
        invariant
            i <= 16,
            bytes@ =~= zero_bytes(i as nat),
        decreases 16 - i,
    {
        bytes.push(0);
        i = i + 1;
    }
    let ghost head = bytes@;
    proof {
        reveal_with_fuel(pow256, 17);
        assert(bytes@.subrange(16, 16) =~= Seq::<u8>::empty());
        lemma_basic_div(v as int, pow256(16) as int);
    }
    let mut d: u128 = 0x1000000000000000000000000000000;
    let mut k: usize = 0;
    while k < 16
        invariant
            k <= 16,
            bytes@.len() == 16 + k,
            bytes@.subrange(0, 16) == head,
            k < 16 ==> d as nat == pow256((15 - k) as nat),
            be_value(bytes@.subrange(16, 16 + k as int)) == v as nat / pow256((16 - k) as nat),
        decreases 16 - k,
    {
        proof {
            lemma_pow256_monotone(0, (15 - k) as nat);
        }
        let byte: u8 = ((v / d) % 256) as u8;
        proof {
            let tail = bytes@.subrange(16, 16 + k as int);
            let dn = d as nat;
            assert(pow256((16 - k) as nat) == 256 * dn);
            lemma_div_denominator(v as int, dn as int, 256);
            assert(dn * 256 == 256 * dn);
            let q = v as nat / dn;
            lemma_fundamental_div_mod_converse(q as int, 256, q as int / 256, q as int % 256);
            assert(bytes@.push(byte).subrange(16, 16 + k + 1) =~= tail.push(byte));
            assert(tail.push(byte).drop_last() =~= tail);
            assert(tail.push(byte).last() == byte);
            assert(be_value(tail.push(byte)) == be_value(tail) * 256 + byte as nat);
        }
        bytes.push(byte);
        if k < 15 {
            d = d / 256;
        }
        k = k + 1;
    }
    proof {
        assert(head =~= zero_bytes(16));
        assert(pow256(0) == 1);
        assert(k == 16);
        assert(v as nat / 1 == v as nat);
        assert(be_value(bytes@.subrange(16, 16 + k as int)) == v as nat / pow256(0));
        assert(be_value(bytes@.subrange(16, 32)) == v as nat);
        assert(bytes@ =~= head + bytes@.subrange(16, 32));
        lemma_be_value_concat(head, bytes@.subrange(16, 32));
        lemma_be_value_zeros(16);
        lemma_be_value_bound(bytes@.subrange(16, 32));
        lemma_pow256_monotone(16, 31);
    }
    Felt252 { bytes }
}

/// Unpacks a field element into the bytes of the short string it holds.
pub fn decode_short_string(f: &Felt252) -> (r: Vec<u8>)
    requires
        f.wf(),
    ensures
        r@ == decoded_short_string(f@),
{
    let mut i: usize = 0;
    while i < 32 && f.bytes[i] == 0
        invariant
            f.wf(),
            i <= 32,
            f.bytes@.subrange(0, i as int) =~= zero_bytes(i as nat),
        decreases 32 - i,
    {
        proof {
            assert(f.bytes@.subrange(0, i + 1) =~= f.bytes@.subrange(0, i as int).push(0u8));
        }
        i = i + 1;
    }
    let mut out: Vec<u8> = Vec::new();
    let mut j: usize = i;
    while j < 32
        invariant
            f.wf(),
            i <= j <= 32,
            out@ =~= f.bytes@.subrange(i as int, j as int),
        decreases 32 - j,
    {
        out.push(f.bytes[j]);
        j = j + 1;
    }
    proof {
        let rest = f.bytes@.subrange(i as int, 32);
        assert(f.bytes@ =~= zero_bytes(i as nat) + rest);
        lemma_be_value_concat(zero_bytes(i as nat), rest);
        lemma_be_value_zeros(i as nat);
        lemma_minimal_bytes_of_be_value(rest);
    }
    out
}

/// Reading bytes that start with a nonzero byte as a number, then taking
/// that number's minimal big-endian digits, gives the bytes back.
pub proof fn lemma_minimal_bytes_of_be_value(b: Seq<u8>)
    requires
        b.len() > 0 ==> b[0] != 0,
    ensures
        minimal_bytes(be_value(b)) == b,
    decreases b.len(),
{
    if b.len() == 0 {
        assert(minimal_bytes(0) == Seq::<u8>::empty());
        assert(b =~= Seq::<u8>::empty());
    } else {
        let init = b.drop_last();
        let v = be_value(b);
        lemma_be_value_positive(b);
        assert(v == be_value(init) * 256 + b.last() as nat);
        lemma_fundamental_div_mod_converse(v as int, 256, be_value(init) as int, b.last() as int);
        assert(init.len() > 0 ==> init[0] == b[0]);
        lemma_minimal_bytes_of_be_value(init);
        assert(minimal_bytes(v) == minimal_bytes(v / 256).push((v % 256) as u8));
        assert(b =~= init.push(b.last()));
    }
}

/// Bytes that start with a nonzero byte have a positive value.
pub proof fn lemma_be_value_positive(b: Seq<u8>)
    requires
        b.len() > 0,
        b[0] != 0,
    ensures
        be_value(b) > 0,
{
    let head = b.subrange(0, 1);
    let tail = b.subrange(1, b.len() as int);
    assert(b =~= head + tail);
    lemma_be_value_concat(head, tail);
    assert(head.drop_last() =~= Seq::<u8>::empty());
    assert(be_value(Seq::<u8>::empty()) == 0);
    assert(head.last() == b[0]);
    assert(be_value(head) == b[0] as nat);
    let p = pow256(tail.len());
    lemma_pow256_monotone(0, tail.len());
    assert(be_value(head) * p > 0) by (nonlinear_arith)
        requires
            be_value(head) > 0,
            p >= 1,
    ;
}

/// Packing a non-empty ASCII string of at most 31 characters that does not
/// start with NUL, then unpacking the element, gives back the string's bytes.
pub proof fn lemma_short_string_round_trip(s: Seq<char>)
    requires
        is_ascii_chars(s),
        0 < s.len() <= SHORT_STRING_MAX,
        s[0] != '\0',
    ensures
        fits_short_string(encode_utf8(s)),
        decoded_short_string(short_string_value(encode_utf8(s))) == encode_utf8(s),
{
    is_ascii_chars_encode_utf8(s);
    let b = encode_utf8(s);
    assert(s[0] as u8 == b[0]);
    lemma_minimal_bytes_of_be_value(b);
}

/// The empty string packs into zero.
pub proof fn lemma_empty_string_is_zero()
    ensures
        fits_short_string(Seq::<u8>::empty()),
        short_string_value(Seq::<u8>::empty()) == 0,
{
}

/// Byte strings of equal length with equal values are equal.
pub proof fn lemma_be_value_eq_bytes(a: Seq<u8>, b: Seq<u8>)
    requires
        a.len() == b.len(),
        be_value(a) == be_value(b),
    ensures
        a == b,
    decreases a.len(),
{
    if a.len() == 0 {
        assert(a =~= b);
    } else {
        let v = be_value(a);
        lemma_fundamental_div_mod_converse(v as int, 256, be_value(a.drop_last()) as int, a.last() as int);
        lemma_fundamental_div_mod_converse(v as int, 256, be_value(b.drop_last()) as int, b.last() as int);
        lemma_be_value_eq_bytes(a.drop_last(), b.drop_last());
        assert(a =~= a.drop_last().push(a.last()));
        assert(b =~= b.drop_last().push(b.last()));
    }
}

/// Whether two byte strings are equal.
pub fn bytes_equal(a: &Vec<u8>, b: &Vec<u8>) -> (r: bool)
    ensures
        r == (a@ == b@),
{
    if a.len() != b.len() {
        return false;
    }
    let mut i: usize = 0;
    while i < a.len()
        invariant
            a@.len() == b@.len(),
            i <= a@.len(),
            a@.subrange(0, i as int) == b@.subrange(0, i as int),
        decreases a@.len() - i,
    {
        if a[i] != b[i] {
            return false;
        }
        proof {
            assert(a@.subrange(0, i + 1) =~= a@.subrange(0, i as int).push(a@[i as int]));
            assert(b@.subrange(0, i + 1) =~= b@.subrange(0, i as int).push(b@[i as int]));
        }
        i = i + 1;
    }
    assert(a@ =~= a@.subrange(0, a@.len() as int));
    assert(b@ =~= b@.subrange(0, b@.len() as int));
    true
}

/// `be_value` of a concatenation.
pub proof fn lemma_be_value_concat(a: Seq<u8>, b: Seq<u8>)
    ensures
        be_value(a + b) == be_value(a) * pow256(b.len()) + be_value(b),
    decreases b.len(),
{
    if b.len() == 0 {
        assert(a + b =~= a);
        assert(pow256(0) == 1);
        assert(be_value(b) == 0);
    } else {
        let c = a + b;
        assert(c.drop_last() =~= a + b.drop_last());
        assert(c.last() == b.last());
        lemma_be_value_concat(a, b.drop_last());
        assert(pow256(b.len()) == 256 * pow256(b.drop_last().len()));
        let x = be_value(a);
        let p = pow256(b.drop_last().len());
        let y = be_value(b.drop_last());
        assert(be_value(c) == be_value(c.drop_last()) * 256 + c.last() as nat);
        assert(be_value(b) == y * 256 + b.last() as nat);
        assert((x * p + y) * 256 + b.last() as nat == x * (256 * p) + (y * 256 + b.last() as nat))
            by (nonlinear_arith);
    }
}

/// A big-endian number of `n` digits is below 256^n.
pub proof fn lemma_be_value_bound(b: Seq<u8>)
    ensures
        be_value(b) < pow256(b.len()),
    decreases b.len(),
{
    if b.len() > 0 {
        lemma_be_value_bound(b.drop_last());
        let y = be_value(b.drop_last());
        let p = pow256(b.drop_last().len());
        assert(y * 256 + (b.last() as nat) < 256 * p) by (nonlinear_arith)
            requires
                y < p,
                b.last() < 256,
        ;
    }
}

/// Zero bytes have value zero.
pub proof fn lemma_be_value_zeros(n: nat)
    ensures
        be_value(zero_bytes(n)) == 0,
    decreases n,
{
    if n > 0 {
        assert(zero_bytes(n).drop_last() =~= zero_bytes((n - 1) as nat));
        lemma_be_value_zeros((n - 1) as nat);
    }
}

/// A 31-byte number is below the field's order.
pub proof fn lemma_short_string_below_prime(b: Seq<u8>)
    requires
        b.len() <= 31,
    ensures
        be_value(b) < field_prime(),
{
    lemma_be_value_bound(b);
    lemma_pow256_monotone(b.len(), 31);
}

/// 256^m grows with m.
pub proof fn lemma_pow256_monotone(m: nat, n: nat)
    requires
        m <= n,
    ensures
        pow256(m) <= pow256(n),
    decreases n - m,
{
    if m < n {
        lemma_pow256_monotone(m, (n - 1) as nat);
    }
}

/// Two byte strings of equal length that first differ at `i` have
/// different values.
pub proof fn lemma_be_value_injective(a: Seq<u8>, b: Seq<u8>, i: int)
    requires
        a.len() == b.len(),
        0 <= i < a.len(),
        a.subrange(0, i) == b.subrange(0, i),
        a[i] != b[i],
    ensures
        be_value(a) != be_value(b),
{
    let n = a.len();
    let a1 = a.subrange(0, i + 1);
    let a2 = a.subrange(i + 1, n as int);
    let b1 = b.subrange(0, i + 1);
    let b2 = b.subrange(i + 1, n as int);
    assert(a =~= a1 + a2);
    assert(b =~= b1 + b2);
    lemma_be_value_concat(a1, a2);
    lemma_be_value_concat(b1, b2);
    lemma_be_value_bound(a2);
    lemma_be_value_bound(b2);
    assert(a1.drop_last() =~= a.subrange(0, i));
    assert(b1.drop_last() =~= b.subrange(0, i));
    let p = pow256(a2.len());
    let x = be_value(a1);
    let y = be_value(b1);
    assert(x != y);
    let u = be_value(a2);
    let v = be_value(b2);
    if x < y {
        assert(x * p + u < y * p + v) by (nonlinear_arith)
            requires
                x < y,
                u < p,
                v >= 0,
        ;
    } else {
        assert(y * p + v < x * p + u) by (nonlinear_arith)
            requires
                y < x,
                v < p,
                u >= 0,
        ;
    }
}

} // verus!
