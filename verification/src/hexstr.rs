//! Lowercase hex encoding of bytes, and its inverse, as used for addresses
//! and block digests. The mathematical model is given by `spec_hex_encode`
//! and `spec_hex_decode`; the executable work is done by the `hex` crate
//! behind two trusted wrappers whose contracts state exactly that model.

use vstd::prelude::*;

verus! {

/// The lowercase hex character for a nibble.
pub open spec fn hex_digit_char(n: u8) -> char {
    if n == 0 {
        '0'
    } else if n == 1 {
        '1'
    } else if n == 2 {
        '2'
    } else if n == 3 {
        '3'
    } else if n == 4 {
        '4'
    } else if n == 5 {
        '5'
    } else if n == 6 {
        '6'
    } else if n == 7 {
        '7'
    } else if n == 8 {
        '8'
    } else if n == 9 {
        '9'
    } else if n == 10 {
        'a'
    } else if n == 11 {
        'b'
    } else if n == 12 {
        'c'
    } else if n == 13 {
        'd'
    } else if n == 14 {
        'e'
    } else {
        'f'
    }
}

/// Whether a character is a hex digit (either case), as `hex::decode`
/// accepts it.
pub open spec fn is_hex_digit(c: char) -> bool {
    ('0' <= c && c <= '9') || ('a' <= c && c <= 'f') || ('A' <= c && c <= 'F')
}

/// The value of a hex digit; zero on any other character.
pub open spec fn hex_val(c: char) -> u8 {
    if '0' <= c && c <= '9' {
        (c as u8 - '0' as u8) as u8
    } else if 'a' <= c && c <= 'f' {
        (c as u8 - 'a' as u8 + 10) as u8
    } else if 'A' <= c && c <= 'F' {
        (c as u8 - 'A' as u8 + 10) as u8
    } else {
        0
    }
}

/// A lowercase hex digit, as `hex::encode` and `spec_hex_encode` produce.
pub open spec fn is_lower_hex_digit(c: char) -> bool {
    ('0' <= c && c <= '9') || ('a' <= c && c <= 'f')
}

/// A string of lowercase hex digits throughout.
pub open spec fn lower_hex_string(s: Seq<char>) -> bool {
    forall|i: int| 0 <= i < s.len() ==> is_lower_hex_digit(#[trigger] s[i])
}

/// A string that `hex::decode` accepts: even length, hex digits throughout.
pub open spec fn valid_hex_string(s: Seq<char>) -> bool {
    s.len() % 2 == 0 && forall|i: int| 0 <= i < s.len() ==> is_hex_digit(#[trigger] s[i])
}

/// Lowercase hex encoding: two digits per byte, high nibble first.
pub open spec fn spec_hex_encode(b: Seq<u8>) -> Seq<char> {
    Seq::new(b.len() * 2, |i: int| if i % 2 == 0 {
        hex_digit_char((b[i / 2] / 16) as u8)
    } else {
        hex_digit_char((b[i / 2] % 16) as u8)
    })
}

/// Hex decoding of a valid hex string: one byte per digit pair.
pub open spec fn spec_hex_decode(s: Seq<char>) -> Seq<u8> {
    Seq::new(s.len() / 2, |i: int| (16 * hex_val(s[2 * i]) + hex_val(s[2 * i + 1])) as u8)
}

/// An encoded byte string is a valid hex string.
pub proof fn lemma_hex_encode_valid(b: Seq<u8>)
    ensures
        valid_hex_string(spec_hex_encode(b)),
        spec_hex_encode(b).len() == b.len() * 2,
{
    assert forall|i: int| 0 <= i < spec_hex_encode(b).len() implies is_hex_digit(
        #[trigger] spec_hex_encode(b)[i],
    ) by {
        let n = if i % 2 == 0 {
            (b[i / 2] / 16) as u8
        } else {
            (b[i / 2] % 16) as u8
        };
        assert(n < 16);
        assert(is_hex_digit(hex_digit_char(n)));
    }
}

/// An encoded byte string is lowercase throughout.
pub proof fn lemma_hex_encode_lower(b: Seq<u8>)
    ensures
        lower_hex_string(spec_hex_encode(b)),
{
    assert forall|i: int| 0 <= i < spec_hex_encode(b).len() implies is_lower_hex_digit(
        #[trigger] spec_hex_encode(b)[i],
    ) by {
        let n = if i % 2 == 0 {
            (b[i / 2] / 16) as u8
        } else {
            (b[i / 2] % 16) as u8
        };
        assert(n < 16);
        assert(is_lower_hex_digit(hex_digit_char(n)));
    }
}

/// Decoding inverts encoding.
pub proof fn lemma_hex_round_trip(b: Seq<u8>)
    ensures
        spec_hex_decode(spec_hex_encode(b)) == b,
{
    let e = spec_hex_encode(b);
    assert forall|i: int| 0 <= i < spec_hex_decode(e).len() implies #[trigger] spec_hex_decode(
        e,
    )[i] == b[i] by {
        let x = b[i];
        assert(e[2 * i] == hex_digit_char((x / 16) as u8));
        assert(e[2 * i + 1] == hex_digit_char((x % 16) as u8));
        assert(hex_val(hex_digit_char((x / 16) as u8)) == x / 16);
        assert(hex_val(hex_digit_char((x % 16) as u8)) == x % 16);
        assert(16 * (x / 16) + x % 16 == x);
    }
    assert(spec_hex_decode(e) =~= b);
}

/// Relies on `hex::encode`: lowercase hex, two digits per byte, high nibble
/// first.
#[verifier::external_body]
pub fn hex_encode(b: &Vec<u8>) -> (r: String)
    ensures
        r@ == spec_hex_encode(b@),
{
    hex::encode(b.as_slice())
}

/// Relies on `hex::decode`: it succeeds exactly on strings of hex digits of
/// even length (on such strings bytes and characters coincide), and decodes
/// each digit pair, high nibble first.
#[verifier::external_body]
pub fn hex_decode(s: &str) -> (r: Option<Vec<u8>>)
    ensures
        r is Some <==> valid_hex_string(s@),
        r matches Some(v) ==> v@ == spec_hex_decode(s@),
{
    hex::decode(s).ok()
}

} // verus!
