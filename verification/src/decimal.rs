//! Canonical decimal codec for unsigned 64-bit values, over byte sequences.
//!
//! `dec_value` and `dec_repr` are the mathematical reading and writing of a
//! base-10 numeral; `parse_u64` and `format_u64` are their executable
//! counterparts, proved exact against them.

use vstd::arithmetic::div_mod::lemma_fundamental_div_mod;
use vstd::prelude::*;

verus! {

/// An ASCII decimal digit, `'0'` through `'9'`.
pub open spec fn is_digit(b: u8) -> bool {
    48 <= b <= 57
}

/// The numeric value of an ASCII digit byte.
pub open spec fn digit_value(b: u8) -> nat {
    (b - 48) as nat
}

/// A non-empty run of ASCII digits: exactly the byte strings that are valid
/// non-negative decimal numerals (leading zeros allowed).
pub open spec fn is_dec_token(s: Seq<u8>) -> bool {
    s.len() > 0 && (forall|i: int| 0 <= i < s.len() ==> is_digit(#[trigger] s[i]))
}

/// The number a digit string denotes in base 10.
pub open spec fn dec_value(s: Seq<u8>) -> nat
    decreases s.len(),
{
    if s.len() == 0 {
        0
    } else {
        dec_value(s.drop_last()) * 10 + digit_value(s.last())
    }
}

/// The canonical (shortest, no leading zero) decimal numeral of a number.
pub open spec fn dec_repr(n: nat) -> Seq<u8>
    decreases n,
{
    if n < 10 {
        seq![(48 + n) as u8]
    } else {
        dec_repr(n / 10).push((48 + n % 10) as u8)
    }
}

/// The canonical numeral consists of digits and reads back as its number.
pub proof fn lemma_dec_repr_digits(n: nat)
    ensures
        is_dec_token(dec_repr(n)),
        dec_value(dec_repr(n)) == n,
    decreases n,
{
    if n < 10 {
        let s = dec_repr(n);
        assert(s =~= seq![(48 + n) as u8]);
        assert(s.drop_last() =~= Seq::<u8>::empty());
        assert(s.last() == (48 + n) as u8);
        assert(dec_value(Seq::<u8>::empty()) == 0);
        assert(dec_value(s) == dec_value(s.drop_last()) * 10 + digit_value(s.last()));
    } else {
        lemma_dec_repr_digits(n / 10);
        let p = dec_repr(n / 10);
        let d = (48 + n % 10) as u8;
        assert(dec_repr(n) == p.push(d));
        assert(p.push(d).drop_last() =~= p);
        assert(p.push(d).last() == d);
        lemma_fundamental_div_mod(n as int, 10);
        assert(dec_value(dec_repr(n)) == (n / 10) * 10 + n % 10);
        assert(forall|i: int|
            0 <= i < p.push(d).len() ==> is_digit(#[trigger] p.push(d)[i])) by {
            assert(forall|i: int| 0 <= i < p.len() ==> p.push(d)[i] == #[trigger] p[i]);
        }
    }
}

/// A numeral's prefixes never denote more than the whole numeral.
pub proof fn lemma_dec_value_take_le(s: Seq<u8>, i: int)
    requires
        0 <= i <= s.len(),
    ensures
        dec_value(s.take(i)) <= dec_value(s),
    decreases s.len() - i,
{
    if i == s.len() {
        assert(s.take(i) =~= s);
    } else {
        lemma_dec_value_take_le(s, i + 1);
        assert(s.take(i + 1).drop_last() =~= s.take(i));
        assert(dec_value(s.take(i + 1)) == dec_value(s.take(i)) * 10 + digit_value(s.take(i + 1).last()));
    }
}

/// Parses a byte string as a non-negative base-10 integer.
///
/// Returns the value exactly when the whole string is a digit run whose value
/// fits in a `u64`; anything else (empty string, a non-digit byte anywhere,
/// overflow) is rejected.
pub fn parse_u64(s: &[u8]) -> (r: Option<u64>)
    ensures
        r is Some <==> is_dec_token(s@) && dec_value(s@) <= u64::MAX,
        r is Some ==> r.unwrap() as nat == dec_value(s@),
{
    if s.len() == 0 {
        return None;
    }
    let mut acc: u64 = 0;
    let mut i: usize = 0;
    while i < s.len()
        invariant
            0 <= i <= s@.len(),
            forall|j: int| 0 <= j < i ==> is_digit(#[trigger] s@[j]),
            acc as nat == dec_value(s@.take(i as int)),
        decreases s@.len() - i,
    {
        let b = s[i];
        if b < 48 || b > 57 {
            assert(!is_digit(s@[i as int]));
            return None;
        }
        let d: u64 = (b - 48) as u64;
        proof {
            assert(s@.take(i + 1).drop_last() =~= s@.take(i as int));
            assert(s@.take(i + 1).last() == s@[i as int]);
            lemma_fundamental_div_mod((u64::MAX - d) as int, 10);
        }
        if acc > (u64::MAX - d) / 10 {
            proof {
                assert(dec_value(s@.take(i + 1)) > u64::MAX);
                lemma_dec_value_take_le(s@, i + 1);
            }
            return None;
        }
        acc = acc * 10 + d;
        i = i + 1;
    }
    proof {
        assert(s@.take(i as int) =~= s@);
    }
    Some(acc)
}

/// Writes a `u64` as its canonical decimal numeral.
pub fn format_u64(n: u64) -> (r: Vec<u8>)
    ensures
        r@ == dec_repr(n as nat),
    decreases n,
{
    if n < 10 {
        let mut v: Vec<u8> = Vec::new();
        v.push(48 + (n as u8));
        proof {
            assert(v@ =~= dec_repr(n as nat));
        }
        v
    } else {
        let mut v = format_u64(n / 10);
        v.push(48 + ((n % 10) as u8));
        proof {
            assert(v@ =~= dec_repr(n as nat));
        }
        v
    }
}

} // verus!
