//! The `0x`-prefixed hexadecimal text of a short string's packed value.
use crate::felt::{fits_short_string, EncodeError};
use vstd::prelude::*;
use vstd::string::*;

verus! {

/// The lowercase hexadecimal digit for `d` in 0..16.
pub open spec fn hex_digit(d: int) -> char {
    seq!['0', '1', '2', '3', '4', '5', '6', '7', '8', '9', 'a', 'b', 'c', 'd', 'e', 'f'][d]
}

/// Two hexadecimal digits for each byte of `b`, most significant first.
pub open spec fn hex_pairs(b: Seq<u8>) -> Seq<char>
    decreases b.len(),
{
    if b.len() == 0 {
        Seq::empty()
    } else {
        hex_pairs(b.drop_last()) + seq![
            hex_digit(b.last() as int / 16),
            hex_digit(b.last() as int % 16),
        ]
    }
}

/// The hexadecimal text of a packed short string: `0x0` for the empty
/// string, else `0x` and two digits for each byte.
pub open spec fn felt_hex_text(b: Seq<u8>) -> Seq<char> {
    if b.len() == 0 {
        seq!['0', 'x', '0']
    } else {
        seq!['0', 'x'] + hex_pairs(b)
    }
}

fn hex_digit_str(d: u8) -> (r: &'static str)
    requires
        d < 16,
    ensures
        r@ == seq![hex_digit(d as int)],
{
    let digits = "0123456789abcdef";
    proof {
        reveal_strlit("0123456789abcdef");
    }
    let i = d as usize;
    digits.substring_ascii(i, i + 1)
}

/// The text `0x` followed by the UTF-8 bytes of `s` as lowercase hexadecimal,
/// two digits a byte; `0x0` for the empty string. A string longer than a
/// field element holds has no such text.
pub fn string_to_felt_hex(s: &str) -> (r: Result<String, EncodeError>)
    ensures
        r is Ok <==> fits_short_string(s.spec_bytes()),
        r matches Ok(t) ==> t@ == felt_hex_text(s.spec_bytes()),
        r matches Err(e) ==> e == EncodeError::EncodingOverflow,
{
    let b = s.as_bytes();
    if b.len() > crate::felt::SHORT_STRING_MAX {
        return Err(EncodeError::EncodingOverflow);
    }
    if b.len() == 0 {
        proof {
            reveal_strlit("0x0");
        }
        return Ok(String::from_str("0x0"));
    }
    proof {
        reveal_strlit("0x");
    }
    let mut out = String::from_str("0x");
    let mut i: usize = 0;
    while i < b.len()
        invariant
            i <= b@.len(),
            b@.len() > 0,
            out@ == seq!['0', 'x'] + hex_pairs(b@.subrange(0, i as int)),
        decreases b@.len() - i,
    {
        let byte = b[i];
        let hi = hex_digit_str(byte / 16);
        let lo = hex_digit_str(byte % 16);
        out.append(hi);
        out.append(lo);
        proof {
            let pre = b@.subrange(0, i as int);
            let next = b@.subrange(0, i + 1);
            assert(next.drop_last() =~= pre);
            assert(next.last() == byte);
            assert(out@ =~= seq!['0', 'x'] + hex_pairs(next));
        }
        i = i + 1;
    }
    assert(b@.subrange(0, b@.len() as int) =~= b@);
    Ok(out)
}

} // verus!
