//! Comma-separated decimal lists: the field-value codec.
//!
//! `split_csv` is the mathematical splitting of a byte string on commas
//! (matching `str::split`: the empty string yields one empty token, and
//! empty tokens are kept). The parsers reject the first token that is not a
//! valid integer, naming its position and bytes, and — for stack inputs —
//! the first value at or above the field modulus.

use crate::decimal::{dec_value, is_dec_token, parse_u64};
use crate::errors::VmError;
use crate::field::MODULUS;
use vstd::prelude::*;
use vstd::slice::{slice_subrange, slice_to_vec};

verus! {

/// The tokens of a byte string split on commas. Always at least one token;
/// empty tokens are kept.
pub open spec fn split_csv(s: Seq<u8>) -> Seq<Seq<u8>>
    decreases s.len(),
{
    if s.len() == 0 {
        seq![Seq::<u8>::empty()]
    } else if s[0] == 44 {
        seq![Seq::<u8>::empty()] + split_csv(s.drop_first())
    } else {
        let rest = split_csv(s.drop_first());
        seq![seq![s[0]] + rest[0]] + rest.drop_first()
    }
}

/// Splitting always yields at least one token.
pub proof fn lemma_split_csv_len(s: Seq<u8>)
    ensures
        split_csv(s).len() >= 1,
    decreases s.len(),
{
    if s.len() > 0 {
        lemma_split_csv_len(s.drop_first());
    }
}

/// A comma-free string is a single token.
pub proof fn lemma_split_csv_nocomma(s: Seq<u8>)
    requires
        forall|j: int| 0 <= j < s.len() ==> s[j] != 44,
    ensures
        split_csv(s) == seq![s],
    decreases s.len(),
{
    if s.len() == 0 {
        assert(split_csv(s) =~~= seq![s]);
    } else {
        lemma_split_csv_nocomma(s.drop_first());
        assert(seq![s[0]] + s.drop_first() =~= s);
        assert(split_csv(s) =~~= seq![s]);
    }
}

/// Splitting at the first comma: the part before it is the first token and
/// the rest is split on its own.
pub proof fn lemma_split_csv_comma(s: Seq<u8>, k: int)
    requires
        0 <= k < s.len(),
        s[k] == 44,
        forall|j: int| 0 <= j < k ==> s[j] != 44,
    ensures
        split_csv(s) == seq![s.take(k)] + split_csv(s.skip(k + 1)),
    decreases k,
{
    if k == 0 {
        assert(s.take(0) =~= Seq::<u8>::empty());
        assert(s.drop_first() =~= s.skip(1));
        assert(split_csv(s) =~~= seq![s.take(0)] + split_csv(s.skip(1)));
    } else {
        let t = s.drop_first();
        assert(t[k - 1] == 44);
        assert(forall|j: int| 0 <= j < k - 1 ==> t[j] == s[j + 1] && #[trigger] t[j] != 44);
        lemma_split_csv_comma(t, k - 1);
        let rest = split_csv(t);
        assert(rest[0] == t.take(k - 1));
        assert(seq![s[0]] + t.take(k - 1) =~= s.take(k));
        assert(rest.drop_first() =~~= split_csv(t.skip(k)));
        assert(t.skip(k) =~= s.skip(k + 1));
        assert(s[0] != 44);
        assert(split_csv(s) =~~= seq![s.take(k)] + split_csv(s.skip(k + 1)));
    }
}

/// A token that parses as a `u64`.
pub open spec fn token_u64_ok(t: Seq<u8>) -> bool {
    is_dec_token(t) && dec_value(t) <= u64::MAX
}

/// A token that parses as a `u64` below the field modulus.
pub open spec fn token_field_ok(t: Seq<u8>) -> bool {
    token_u64_ok(t) && dec_value(t) < MODULUS as nat
}

/// The numbers a token list denotes.
pub open spec fn token_values(ts: Seq<Seq<u8>>) -> Seq<u64> {
    ts.map_values(|t: Seq<u8>| dec_value(t) as u64)
}

/// Every token of the string parses as a `u64`; the empty string counts as
/// an empty list.
pub open spec fn u64_csv_ok(s: Seq<u8>) -> bool {
    s.len() == 0 || (forall|i: int|
        0 <= i < split_csv(s).len() ==> token_u64_ok(#[trigger] split_csv(s)[i]))
}

/// Every token of the string parses as a field element.
pub open spec fn field_csv_ok(s: Seq<u8>) -> bool {
    s.len() == 0 || (forall|i: int|
        0 <= i < split_csv(s).len() ==> token_field_ok(#[trigger] split_csv(s)[i]))
}

/// The values a well-formed comma-separated list denotes; empty for the
/// empty string.
pub open spec fn csv_values(s: Seq<u8>) -> Seq<u64> {
    if s.len() == 0 {
        Seq::<u64>::empty()
    } else {
        token_values(split_csv(s))
    }
}

/// `e` names the first token of `s` that does not parse as a `u64`.
pub open spec fn u64_csv_error(s: Seq<u8>, e: VmError) -> bool {
    s.len() > 0 && (match e {
        VmError::Parse { index, token } => {
            let ts = split_csv(s);
            index < ts.len() && !token_u64_ok(ts[index as int]) && token@ == ts[index as int]
                && (forall|j: int| 0 <= j < index ==> token_u64_ok(#[trigger] ts[j]))
        },
        _ => false,
    })
}

/// `e` names the first token of `s` that does not parse as a field element:
/// a parse failure for a malformed token, a range failure for an integer at
/// or above the modulus.
pub open spec fn field_csv_error(s: Seq<u8>, e: VmError) -> bool {
    s.len() > 0 && (match e {
        VmError::Parse { index, token } => {
            let ts = split_csv(s);
            index < ts.len() && !token_u64_ok(ts[index as int]) && token@ == ts[index as int]
                && (forall|j: int| 0 <= j < index ==> token_field_ok(#[trigger] ts[j]))
        },
        VmError::Range { index, value } => {
            let ts = split_csv(s);
            index < ts.len() && token_u64_ok(ts[index as int])
                && value as nat == dec_value(ts[index as int]) && value >= MODULUS
                && (forall|j: int| 0 <= j < index ==> token_field_ok(#[trigger] ts[j]))
        },
        _ => false,
    })
}

/// Parses a comma-separated list of decimal field elements. The empty string
/// yields the empty list; otherwise every token must be a decimal integer
/// below the field modulus, and the first offending token is reported.
pub fn parse_field_csv(s: &[u8]) -> (r: Result<Vec<u64>, VmError>)
    ensures
        s@.len() == 0 ==> (r matches Ok(v) && v@ == Seq::<u64>::empty()),
        s@.len() > 0 ==> (match r {
            Ok(v) => field_csv_ok(s@) && v@ == csv_values(s@),
            Err(e) => field_csv_error(s@, e),
        }),
{
    if s.len() == 0 {
        return Ok(Vec::new());
    }
    let mut out: Vec<u64> = Vec::new();
    let ghost mut done: Seq<Seq<u8>> = Seq::empty();
    let mut t: usize = 0;
    let mut i: usize = 0;
    proof {
        assert(s@.skip(0) =~= s@);
        assert(done + split_csv(s@) =~~= split_csv(s@));
    }
    while i < s.len()
        invariant
            0 <= t <= i <= s@.len(),
            s@.len() > 0,
            split_csv(s@) == done + split_csv(s@.skip(t as int)),
            out@.len() == done.len(),
            forall|j: int| 0 <= j < done.len() ==> token_field_ok(#[trigger] done[j]),
            out@ == token_values(done),
            forall|j: int| t <= j < i ==> s@[j] != 44,
        decreases s@.len() - i,
    {
        if s[i] == 44 {
            let tok = slice_subrange(s, t, i);
            proof {
                lemma_split_csv_comma(s@.skip(t as int), i - t);
                assert(s@.skip(t as int).take(i - t) =~= s@.subrange(t as int, i as int));
                assert(s@.skip(t as int).skip(i - t + 1) =~= s@.skip(i + 1));
                lemma_split_csv_len(s@.skip(i + 1));
                assert(split_csv(s@)[done.len() as int] == tok@);
            }
            let v = match parse_u64(tok) {
                Some(v) => v,
                None => {
                    return Err(VmError::Parse { index: out.len(), token: slice_to_vec(tok) });
                },
            };
            if v >= MODULUS {
                return Err(VmError::Range { index: out.len(), value: v });
            }
            out.push(v);
            proof {
                done = done + seq![tok@];
                assert(out@ =~= token_values(done));
                assert(split_csv(s@) =~~= done + split_csv(s@.skip(i + 1)));
            }
            t = i + 1;
        }
        i = i + 1;
    }
    let tok = slice_subrange(s, t, s.len());
    proof {
        assert(s@.skip(t as int) =~= tok@);
        lemma_split_csv_nocomma(s@.skip(t as int));
        assert(split_csv(s@)[done.len() as int] == tok@);
        assert(split_csv(s@).len() == done.len() + 1);
    }
    let v = match parse_u64(tok) {
        Some(v) => v,
        None => {
            return Err(VmError::Parse { index: out.len(), token: slice_to_vec(tok) });
        },
    };
    if v >= MODULUS {
        return Err(VmError::Range { index: out.len(), value: v });
    }
    out.push(v);
    proof {
        done = done + seq![tok@];
        assert(split_csv(s@) =~~= done);
        assert(out@ =~= token_values(done));
    }
    Ok(out)
}

/// Parses a comma-separated list of decimal 64-bit integers (the advice
/// tape codec: no field-range restriction). The empty string yields the
/// empty list; the first malformed token is reported.
pub fn parse_u64_csv(s: &[u8]) -> (r: Result<Vec<u64>, VmError>)
    ensures
        s@.len() == 0 ==> (r matches Ok(v) && v@ == Seq::<u64>::empty()),
        s@.len() > 0 ==> (match r {
            Ok(v) => u64_csv_ok(s@) && v@ == csv_values(s@),
            Err(e) => u64_csv_error(s@, e),
        }),
{
    if s.len() == 0 {
        return Ok(Vec::new());
    }
    let mut out: Vec<u64> = Vec::new();
    let ghost mut done: Seq<Seq<u8>> = Seq::empty();
    let mut t: usize = 0;
    let mut i: usize = 0;
    proof {
        assert(s@.skip(0) =~= s@);
        assert(done + split_csv(s@) =~~= split_csv(s@));
    }
    while i < s.len()
        invariant
            0 <= t <= i <= s@.len(),
            s@.len() > 0,
            split_csv(s@) == done + split_csv(s@.skip(t as int)),
            out@.len() == done.len(),
            forall|j: int| 0 <= j < done.len() ==> token_u64_ok(#[trigger] done[j]),
            out@ == token_values(done),
            forall|j: int| t <= j < i ==> s@[j] != 44,
        decreases s@.len() - i,
    {
        if s[i] == 44 {
            let tok = slice_subrange(s, t, i);
            proof {
                lemma_split_csv_comma(s@.skip(t as int), i - t);
                assert(s@.skip(t as int).take(i - t) =~= s@.subrange(t as int, i as int));
                assert(s@.skip(t as int).skip(i - t + 1) =~= s@.skip(i + 1));
                lemma_split_csv_len(s@.skip(i + 1));
                assert(split_csv(s@)[done.len() as int] == tok@);
            }
            let v = match parse_u64(tok) {
                Some(v) => v,
                None => {
                    return Err(VmError::Parse { index: out.len(), token: slice_to_vec(tok) });
                },
            };
            out.push(v);
            proof {
                done = done + seq![tok@];
                assert(out@ =~= token_values(done));
                assert(split_csv(s@) =~~= done + split_csv(s@.skip(i + 1)));
            }
            t = i + 1;
        }
        i = i + 1;
    }
    let tok = slice_subrange(s, t, s.len());
    proof {
        assert(s@.skip(t as int) =~= tok@);
        lemma_split_csv_nocomma(s@.skip(t as int));
        assert(split_csv(s@)[done.len() as int] == tok@);
        assert(split_csv(s@).len() == done.len() + 1);
    }
    let v = match parse_u64(tok) {
        Some(v) => v,
        None => {
            return Err(VmError::Parse { index: out.len(), token: slice_to_vec(tok) });
        },
    };
    out.push(v);
    proof {
        done = done + seq![tok@];
        assert(split_csv(s@) =~~= done);
        assert(out@ =~= token_values(done));
    }
    Ok(out)
}

} // verus!
