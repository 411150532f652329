//! Hexadecimal codec over byte sequences: lower-case encoding, decoding of
//! both cases, and the round-trip law. Used for program digests and for the
//! proof field of the result envelope.

use vstd::arithmetic::div_mod::lemma_fundamental_div_mod;
use vstd::prelude::*;

verus! {

/// The lower-case hex digit for a value below 16.
pub open spec fn hex_digit(n: u8) -> u8 {
    if n < 10 {
        (48 + n) as u8
    } else {
        (87 + n) as u8
    }
}

/// The lower-case hex encoding of a byte string: two digits per byte, high
/// nibble first.
pub open spec fn hex_of(s: Seq<u8>) -> Seq<u8> {
    Seq::new(
        s.len() * 2,
        |i: int| if i % 2 == 0 {
            hex_digit(s[i / 2] / 16)
        } else {
            hex_digit(s[i / 2] % 16)
        },
    )
}

/// A byte that decodes as a hex digit: `0-9`, `a-f` or `A-F`.
pub open spec fn is_hex_digit(b: u8) -> bool {
    (48 <= b <= 57) || (97 <= b <= 102) || (65 <= b <= 70)
}

/// The value of a hex digit byte.
pub open spec fn hex_val(b: u8) -> u8 {
    if b <= 57 {
        (b - 48) as u8
    } else if b <= 70 {
        (b - 55) as u8
    } else {
        (b - 87) as u8
    }
}

/// The bytes a hex string denotes: defined exactly when the length is even
/// and every byte is a hex digit of either case.
pub open spec fn hex_decode_spec(s: Seq<u8>) -> Option<Seq<u8>> {
    if s.len() % 2 == 0 && (forall|i: int| 0 <= i < s.len() ==> is_hex_digit(#[trigger] s[i])) {
        Some(
            Seq::new(
                s.len() / 2,
                |i: int| (hex_val(s[2 * i]) * 16 + hex_val(s[2 * i + 1])) as u8,
            ),
        )
    } else {
        None
    }
}

/// Decoding inverts encoding: the round-trip law for the hex codec.
pub proof fn lemma_hex_round_trip(s: Seq<u8>)
    ensures
        hex_decode_spec(hex_of(s)) == Some(s),
{
    let h = hex_of(s);
    assert(forall|i: int| 0 <= i < h.len() ==> is_hex_digit(#[trigger] h[i]));
    let d = hex_decode_spec(h).unwrap();
    assert forall|i: int| 0 <= i < s.len() implies d[i] == s[i] by {
        lemma_fundamental_div_mod(s[i] as int, 16);
        assert(h[2 * i] == hex_digit(s[i] / 16));
        assert(h[2 * i + 1] == hex_digit(s[i] % 16));
    }
    assert(d =~= s);
}

/// The digits of a hex encoding are ASCII and are never a quote or a comma.
pub proof fn lemma_hex_bytes_plain(s: Seq<u8>)
    ensures
        forall|i: int| 0 <= i < hex_of(s).len()
            ==> 48 <= #[trigger] hex_of(s)[i] <= 102 && hex_of(s)[i] != 34 && hex_of(s)[i] != 44,
{
}

/// The hex digit of a value below 16, executable form.
fn to_hex_digit(n: u8) -> (r: u8)
    requires
        n < 16,
    ensures
        r == hex_digit(n),
{
    if n < 10 {
        48 + n
    } else {
        87 + n
    }
}

/// Encodes a byte string as lower-case hex, two digits per byte.
pub fn hex_encode(s: &[u8]) -> (r: Vec<u8>)
    ensures
        r@ == hex_of(s@),
{
    let mut r: Vec<u8> = Vec::new();
    let mut i: usize = 0;
    while i < s.len()
        invariant
            0 <= i <= s@.len(),
            r@ =~= hex_of(s@).take(2 * i as int),
        decreases s@.len() - i,
    {
        let b = s[i];
        r.push(to_hex_digit(b / 16));
        r.push(to_hex_digit(b % 16));
        i = i + 1;
        proof {
            assert(r@ =~= hex_of(s@).take(2 * i as int));
        }
    }
    proof {
        assert(r@ =~= hex_of(s@));
    }
    r
}

/// The value of a hex digit byte, executable form; rejects non-digits.
fn from_hex_digit(b: u8) -> (r: Option<u8>)
    ensures
        r is Some <==> is_hex_digit(b),
        r is Some ==> r.unwrap() == hex_val(b) && hex_val(b) < 16,
{
    if 48 <= b && b <= 57 {
        Some(b - 48)
    } else if 97 <= b && b <= 102 {
        Some(b - 87)
    } else if 65 <= b && b <= 70 {
        Some(b - 55)
    } else {
        None
    }
}

/// Decodes a hex string of either case; rejects odd lengths and non-digits.
pub fn hex_decode(s: &[u8]) -> (r: Option<Vec<u8>>)
    ensures
        r is Some <==> hex_decode_spec(s@) is Some,
        r is Some ==> r.unwrap()@ == hex_decode_spec(s@).unwrap(),
{
    if s.len() % 2 != 0 {
        return None;
    }
    let mut r: Vec<u8> = Vec::new();
    let mut i: usize = 0;
    while i < s.len()
        invariant
            0 <= i <= s@.len(),
            i % 2 == 0,
            s@.len() % 2 == 0,
            forall|j: int| 0 <= j < i ==> is_hex_digit(#[trigger] s@[j]),
            r@.len() == i / 2,
            forall|j: int| 0 <= j < r@.len()
                ==> #[trigger] r@[j] == (hex_val(s@[2 * j]) * 16 + hex_val(s@[2 * j + 1])) as u8,
        decreases s@.len() - i,
    {
        let hi = match from_hex_digit(s[i]) {
            Some(v) => v,
            None => {
                return None;
            },
        };
        let lo = match from_hex_digit(s[i + 1]) {
            Some(v) => v,
            None => {
                return None;
            },
        };
        r.push(hi * 16 + lo);
        i = i + 2;
    }
    proof {
        assert(r@ =~= hex_decode_spec(s@).unwrap());
    }
    Some(r)
}

} // verus!
