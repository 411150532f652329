//! The result packager: a canonical, self-describing text envelope for a
//! proving result, and its strict decoder.
//!
//! The envelope reads
//! `{"stack":"S","overflow_addrs":"A","proof":"P"}`
//! where `S` and `A` are comma-separated decimal field elements and `P` is
//! the lower-case hex encoding of the proof bytes. `encode_spec` is the
//! mathematical form of the encoding; the decoder accepts exactly the
//! canonical encodings of well-formed results, so encoding and decoding
//! round-trip and a tampered or truncated envelope is rejected, never
//! silently misread.

use crate::csv::{
    csv_values, field_csv_ok, lemma_split_csv_comma, lemma_split_csv_nocomma, parse_field_csv,
    split_csv, token_field_ok,
};
use crate::decimal::{dec_repr, dec_value, format_u64, is_digit, lemma_dec_repr_digits};
use crate::errors::{DecodeField, VmError};
use crate::field::{all_field_elements, is_field_element};
use crate::hexcodec::{
    hex_decode, hex_encode, hex_of, lemma_hex_bytes_plain, lemma_hex_round_trip,
};
use vstd::prelude::*;
use vstd::slice::slice_subrange;

verus! {

/// The public outputs of a run: the final stack (top first) and the overflow
/// table addresses needed to reconstruct the overflow table, both as plain
/// field-element values.
#[derive(Debug)]
pub struct StackOutputs {
    /// The elements on the stack at the end of execution, top of stack first.
    pub stack: Vec<u64>,
    /// The overflow table row addresses, deepest element first.
    pub overflow_addrs: Vec<u64>,
}

/// A proving result: the public stack outputs paired with the serialized
/// STARK proof. This is the unit exchanged between prover and verifier.
#[derive(Debug)]
pub struct VMResult {
    /// The public outputs of the proved run.
    pub outputs: StackOutputs,
    /// The serialized execution proof.
    pub starkproof: Vec<u8>,
}

/// The mathematical content of a [`VMResult`].
#[verifier::ext_equal]
pub ghost struct VMResultView {
    pub stack: Seq<u64>,
    pub overflow_addrs: Seq<u64>,
    pub starkproof: Seq<u8>,
}

impl View for VMResult {
    type V = VMResultView;

    open spec fn view(&self) -> VMResultView {
        VMResultView {
            stack: self.outputs.stack@,
            overflow_addrs: self.outputs.overflow_addrs@,
            starkproof: self.starkproof@,
        }
    }
}

/// A well-formed result: every output value is a valid field element.
pub open spec fn wf_view(v: VMResultView) -> bool {
    all_field_elements(v.stack) && all_field_elements(v.overflow_addrs)
}

impl VMResult {
    /// Well-formedness of the executable value.
    pub open spec fn wf(&self) -> bool {
        wf_view(self@)
    }
}

/// The canonical comma-separated decimal form of a value list.
pub open spec fn csv_of(xs: Seq<u64>) -> Seq<u8>
    decreases xs.len(),
{
    if xs.len() == 0 {
        Seq::<u8>::empty()
    } else if xs.len() == 1 {
        dec_repr(xs[0] as nat)
    } else {
        dec_repr(xs[0] as nat) + seq![44u8] + csv_of(xs.drop_first())
    }
}

/// The envelope prefix `{"stack":"`.
pub open spec fn lit_stack() -> Seq<u8> {
    seq![123u8, 34u8, 115u8, 116u8, 97u8, 99u8, 107u8, 34u8, 58u8, 34u8]
}

/// The envelope separator `","overflow_addrs":"`.
pub open spec fn lit_overflow() -> Seq<u8> {
    seq![
        34u8, 44u8, 34u8, 111u8, 118u8, 101u8, 114u8, 102u8, 108u8, 111u8, 119u8, 95u8, 97u8,
        100u8, 100u8, 114u8, 115u8, 34u8, 58u8, 34u8,
    ]
}

/// The envelope separator `","proof":"`.
pub open spec fn lit_proof() -> Seq<u8> {
    seq![34u8, 44u8, 34u8, 112u8, 114u8, 111u8, 111u8, 102u8, 34u8, 58u8, 34u8]
}

/// The envelope suffix `"}`.
pub open spec fn lit_end() -> Seq<u8> {
    seq![34u8, 125u8]
}

/// The canonical envelope of a result.
pub open spec fn encode_spec(v: VMResultView) -> Seq<u8> {
    lit_stack() + csv_of(v.stack) + lit_overflow() + csv_of(v.overflow_addrs) + lit_proof()
        + hex_of(v.starkproof) + lit_end()
}

/// Every byte of a canonical value list is a digit or a comma.
pub proof fn lemma_csv_of_plain(xs: Seq<u64>)
    ensures
        forall|i: int|
            0 <= i < csv_of(xs).len()
                ==> (is_digit(#[trigger] csv_of(xs)[i]) || csv_of(xs)[i] == 44),
    decreases xs.len(),
{
    if xs.len() == 0 {
    } else if xs.len() == 1 {
        lemma_dec_repr_digits(xs[0] as nat);
    } else {
        lemma_dec_repr_digits(xs[0] as nat);
        lemma_csv_of_plain(xs.drop_first());
        let d0 = dec_repr(xs[0] as nat);
        let rest = csv_of(xs.drop_first());
        assert(csv_of(xs) == d0 + seq![44u8] + rest);
        assert forall|i: int|
            0 <= i < csv_of(xs).len() implies (is_digit(#[trigger] csv_of(xs)[i])
            || csv_of(xs)[i] == 44) by {
            if i < d0.len() {
                assert(csv_of(xs)[i] == d0[i]);
            } else if i == d0.len() {
                assert(csv_of(xs)[i] == 44);
            } else {
                assert(csv_of(xs)[i] == rest[i - d0.len() - 1]);
            }
        }
    }
}

/// Splitting a canonical value list recovers the canonical numerals.
pub proof fn lemma_csv_of_tokens(xs: Seq<u64>)
    requires
        xs.len() > 0,
    ensures
        split_csv(csv_of(xs)) == xs.map_values(|x: u64| dec_repr(x as nat)),
    decreases xs.len(),
{
    if xs.len() == 1 {
        lemma_dec_repr_digits(xs[0] as nat);
        lemma_split_csv_nocomma(dec_repr(xs[0] as nat));
        assert(split_csv(csv_of(xs)) =~~= xs.map_values(|x: u64| dec_repr(x as nat)));
    } else {
        let d0 = dec_repr(xs[0] as nat);
        lemma_dec_repr_digits(xs[0] as nat);
        let s = csv_of(xs);
        assert(s[d0.len() as int] == 44);
        assert(forall|j: int| 0 <= j < d0.len() ==> s[j] == d0[j] && is_digit(#[trigger] d0[j]));
        lemma_split_csv_comma(s, d0.len() as int);
        assert(s.take(d0.len() as int) =~= d0);
        assert(s.skip(d0.len() as int + 1) =~= csv_of(xs.drop_first()));
        lemma_csv_of_tokens(xs.drop_first());
        assert(split_csv(s) =~~= xs.map_values(|x: u64| dec_repr(x as nat)));
    }
}

/// A canonical value list of field elements parses back to its values.
pub proof fn lemma_csv_of_values(xs: Seq<u64>)
    ensures
        csv_values(csv_of(xs)) == xs,
        all_field_elements(xs) ==> field_csv_ok(csv_of(xs)),
        xs.len() > 0 ==> csv_of(xs).len() > 0,
{
    if xs.len() == 0 {
        assert(csv_values(csv_of(xs)) =~= xs);
    } else {
        lemma_dec_repr_digits(xs[0] as nat);
        lemma_csv_of_tokens(xs);
        let ts = split_csv(csv_of(xs));
        assert forall|i: int| 0 <= i < ts.len() implies {
            &&& #[trigger] ts[i] == dec_repr(xs[i] as nat)
            &&& dec_value(ts[i]) == xs[i] as nat
        } by {
            lemma_dec_repr_digits(xs[i] as nat);
        }
        assert(csv_values(csv_of(xs)) =~= xs);
        if all_field_elements(xs) {
            assert forall|i: int| 0 <= i < ts.len() implies token_field_ok(#[trigger] ts[i]) by {
                lemma_dec_repr_digits(xs[i] as nat);
                assert(is_field_element(xs[i]));
            }
        }
    }
}

/// Appends the canonical comma-separated form of `xs[from..]`.
fn append_csv_from(out: &mut Vec<u8>, xs: &Vec<u64>, from: usize)
    requires
        from <= xs@.len(),
    ensures
        final(out)@ == old(out)@ + csv_of(xs@.skip(from as int)),
    decreases xs@.len() - from,
{
    if from < xs.len() {
        let mut d = format_u64(xs[from]);
        out.append(&mut d);
        if from + 1 < xs.len() {
            out.push(44);
        }
        append_csv_from(out, xs, from + 1);
        proof {
            assert(xs@.skip(from as int).drop_first() =~= xs@.skip(from + 1));
            assert(xs@.skip(from as int)[0] == xs@[from as int]);
            if from + 1 < xs@.len() {
                assert(out@ =~= old(out)@ + csv_of(xs@.skip(from as int)));
            } else {
                assert(xs@.skip(from + 1) =~= Seq::<u64>::empty());
                assert(out@ =~= old(out)@ + csv_of(xs@.skip(from as int)));
            }
        }
    } else {
        proof {
            assert(xs@.skip(from as int) =~= Seq::<u64>::empty());
            assert(out@ =~= old(out)@ + csv_of(xs@.skip(from as int)));
        }
    }
}

/// The envelope prefix `{"stack":"`, executable form.
fn lit_stack_vec() -> (v: Vec<u8>)
    ensures
        v@ == lit_stack(),
{
    let mut v: Vec<u8> = Vec::new();
    v.push(123);
    v.push(34);
    v.push(115);
    v.push(116);
    v.push(97);
    v.push(99);
    v.push(107);
    v.push(34);
    v.push(58);
    v.push(34);
    proof {
        assert(v@ =~= lit_stack());
    }
    v
}

/// The envelope separator `","overflow_addrs":"`, executable form.
fn lit_overflow_vec() -> (v: Vec<u8>)
    ensures
        v@ == lit_overflow(),
{
    let mut v: Vec<u8> = Vec::new();
    v.push(34);
    v.push(44);
    v.push(34);
    v.push(111);
    v.push(118);
    v.push(101);
    v.push(114);
    v.push(102);
    v.push(108);
    v.push(111);
    v.push(119);
    v.push(95);
    v.push(97);
    v.push(100);
    v.push(100);
    v.push(114);
    v.push(115);
    v.push(34);
    v.push(58);
    v.push(34);
    proof {
        assert(v@ =~= lit_overflow());
    }
    v
}

/// The envelope separator `","proof":"`, executable form.
fn lit_proof_vec() -> (v: Vec<u8>)
    ensures
        v@ == lit_proof(),
{
    let mut v: Vec<u8> = Vec::new();
    v.push(34);
    v.push(44);
    v.push(34);
    v.push(112);
    v.push(114);
    v.push(111);
    v.push(111);
    v.push(102);
    v.push(34);
    v.push(58);
    v.push(34);
    proof {
        assert(v@ =~= lit_proof());
    }
    v
}

/// The envelope suffix `"}`, executable form.
fn lit_end_vec() -> (v: Vec<u8>)
    ensures
        v@ == lit_end(),
{
    let mut v: Vec<u8> = Vec::new();
    v.push(34);
    v.push(125);
    proof {
        assert(v@ =~= lit_end());
    }
    v
}

/// Serializes a proving result into its canonical envelope.
pub fn encode_result(r: &VMResult) -> (out: Vec<u8>)
    ensures
        out@ == encode_spec(r@),
{
    let mut out: Vec<u8> = Vec::new();
    let mut l1 = lit_stack_vec();
    out.append(&mut l1);
    proof {
        assert(r.outputs.stack@.skip(0) =~= r.outputs.stack@);
    }
    append_csv_from(&mut out, &r.outputs.stack, 0);
    let mut l2 = lit_overflow_vec();
    out.append(&mut l2);
    proof {
        assert(r.outputs.overflow_addrs@.skip(0) =~= r.outputs.overflow_addrs@);
    }
    append_csv_from(&mut out, &r.outputs.overflow_addrs, 0);
    let mut l3 = lit_proof_vec();
    out.append(&mut l3);
    let mut h = hex_encode(r.starkproof.as_slice());
    out.append(&mut h);
    let mut l4 = lit_end_vec();
    out.append(&mut l4);
    proof {
        assert(out@ =~= encode_spec(r@));
    }
    out
}

/// Where the quote ending the stack list stands in a canonical envelope.
pub open spec fn enc_q1(v: VMResultView) -> int {
    10 + csv_of(v.stack).len() as int
}

/// Where the quote ending the overflow list stands in a canonical envelope.
pub open spec fn enc_q2(v: VMResultView) -> int {
    enc_q1(v) + 20 + csv_of(v.overflow_addrs).len() as int
}

/// Where the quote ending the proof field stands in a canonical envelope.
pub open spec fn enc_q3(v: VMResultView) -> int {
    enc_q2(v) + 11 + hex_of(v.starkproof).len() as int
}

/// The layout of a canonical envelope: where each literal and each payload
/// region stands, and that the payload regions hold no quote byte.
pub proof fn lemma_encode_structure(v: VMResultView)
    ensures
        encode_spec(v).len() == enc_q3(v) + 2,
        encode_spec(v).subrange(0, 10) == lit_stack(),
        encode_spec(v).subrange(10, enc_q1(v)) == csv_of(v.stack),
        encode_spec(v).subrange(enc_q1(v), enc_q1(v) + 20) == lit_overflow(),
        encode_spec(v).subrange(enc_q1(v) + 20, enc_q2(v)) == csv_of(v.overflow_addrs),
        encode_spec(v).subrange(enc_q2(v), enc_q2(v) + 11) == lit_proof(),
        encode_spec(v).subrange(enc_q2(v) + 11, enc_q3(v)) == hex_of(v.starkproof),
        encode_spec(v).subrange(enc_q3(v), enc_q3(v) + 2) == lit_end(),
        forall|k: int| 10 <= k < enc_q1(v) ==> #[trigger] encode_spec(v)[k] != 34,
        forall|k: int| enc_q1(v) + 20 <= k < enc_q2(v) ==> #[trigger] encode_spec(v)[k] != 34,
        forall|k: int| enc_q2(v) + 11 <= k < enc_q3(v) ==> #[trigger] encode_spec(v)[k] != 34,
        encode_spec(v)[enc_q1(v)] == 34,
        encode_spec(v)[enc_q2(v)] == 34,
        encode_spec(v)[enc_q3(v)] == 34,
{
    lemma_csv_of_plain(v.stack);
    lemma_csv_of_plain(v.overflow_addrs);
    lemma_hex_bytes_plain(v.starkproof);
    let s = encode_spec(v);
    let c1 = csv_of(v.stack);
    let c2 = csv_of(v.overflow_addrs);
    let h = hex_of(v.starkproof);
    let q1 = enc_q1(v);
    let q2 = enc_q2(v);
    let q3 = enc_q3(v);
    assert(s.subrange(0, 10) =~= lit_stack());
    assert(s.subrange(10, q1) =~= c1);
    assert(s.subrange(q1, q1 + 20) =~= lit_overflow());
    assert(s.subrange(q1 + 20, q2) =~= c2);
    assert(s.subrange(q2, q2 + 11) =~= lit_proof());
    assert(s.subrange(q2 + 11, q3) =~= h);
    assert(s.subrange(q3, q3 + 2) =~= lit_end());
    assert forall|k: int| 10 <= k < q1 implies #[trigger] s[k] != 34 by {
        assert(s[k] == s.subrange(10, q1)[k - 10]);
        assert(is_digit(c1[k - 10]) || c1[k - 10] == 44);
    }
    assert forall|k: int| q1 + 20 <= k < q2 implies #[trigger] s[k] != 34 by {
        assert(s[k] == s.subrange(q1 + 20, q2)[k - (q1 + 20)]);
        assert(is_digit(c2[k - (q1 + 20)]) || c2[k - (q1 + 20)] == 44);
    }
    assert forall|k: int| q2 + 11 <= k < q3 implies #[trigger] s[k] != 34 by {
        assert(s[k] == s.subrange(q2 + 11, q3)[k - (q2 + 11)]);
        assert(48 <= h[k - (q2 + 11)] <= 102 && h[k - (q2 + 11)] != 34);
    }
    assert(s[q1] == s.subrange(q1, q1 + 20)[0]);
    assert(s[q2] == s.subrange(q2, q2 + 11)[0]);
    assert(s[q3] == s.subrange(q3, q3 + 2)[0]);
}

/// The values of a well-formed comma-separated field list are field elements.
pub proof fn lemma_field_csv_values_wf(s: Seq<u8>)
    requires
        field_csv_ok(s),
    ensures
        all_field_elements(csv_values(s)),
{
    if s.len() == 0 {
        assert(csv_values(s) =~= Seq::<u64>::empty());
    } else {
        let ts = split_csv(s);
        assert forall|i: int|
            0 <= i < csv_values(s).len() implies is_field_element(
            #[trigger] csv_values(s)[i]) by {
            assert(token_field_ok(ts[i]));
            assert(csv_values(s)[i] == dec_value(ts[i]) as u64);
        }
    }
}


/// A first quote at or after a given position is unique: two positions that
/// both carry a quote with none before them (from the same start) coincide.
proof fn lemma_first_quote_unique(s: Seq<u8>, from: int, a: int, b: int)
    requires
        from <= a < s.len() && s[a] == 34,
        forall|k: int| from <= k < a ==> s[k] != 34,
        from <= b < s.len() && s[b] == 34,
        forall|k: int| from <= k < b ==> s[k] != 34,
    ensures
        a == b,
{
    if a < b {
        assert(s[a] != 34);
    }
    if b < a {
        assert(s[b] != 34);
    }
}

/// Whether `lit` stands in `s` at position `pos`.
pub(crate) fn matches_at(s: &[u8], pos: usize, lit: &[u8]) -> (b: bool)
    requires
        pos <= s@.len(),
    ensures
        b <==> (pos + lit@.len() <= s@.len() && s@.subrange(
            pos as int,
            pos as int + lit@.len(),
        ) == lit@),
{
    if s.len() - pos < lit.len() {
        return false;
    }
    let mut i: usize = 0;
    while i < lit.len()
        invariant
            s@.len() <= usize::MAX,
            pos + lit@.len() <= s@.len(),
            0 <= i <= lit@.len(),
            forall|j: int| 0 <= j < i ==> s@[pos + j] == lit@[j],
        decreases lit@.len() - i,
    {
        if s[pos + i] != lit[i] {
            proof {
                if s@.subrange(pos as int, pos as int + lit@.len()) == lit@ {
                    assert(lit@[i as int] == s@.subrange(
                        pos as int,
                        pos as int + lit@.len(),
                    )[i as int]);
                }
            }
            return false;
        }
        i = i + 1;
    }
    proof {
        assert(s@.subrange(pos as int, pos as int + lit@.len()) =~= lit@);
    }
    true
}

/// The first quote byte at or after `from`, if any.
fn scan_quote(s: &[u8], from: usize) -> (r: Option<usize>)
    requires
        from <= s@.len(),
    ensures
        r matches Some(j) ==> from <= j < s@.len() && s@[j as int] == 34 && (forall|k: int|
            from <= k < j ==> s@[k] != 34),
        r is None ==> (forall|k: int| from <= k < s@.len() ==> s@[k] != 34),
{
    let mut i: usize = from;
    while i < s.len()
        invariant
            from <= i <= s@.len(),
            forall|k: int| from <= k < i ==> s@[k] != 34,
        decreases s@.len() - i,
    {
        if s[i] == 34 {
            return Some(i);
        }
        i = i + 1;
    }
    None
}

/// Byte-for-byte equality of two slices.
fn bytes_eq(a: &[u8], b: &[u8]) -> (r: bool)
    ensures
        r <==> a@ == b@,
{
    if a.len() != b.len() {
        return false;
    }
    let mut i: usize = 0;
    while i < a.len()
        invariant
            a@.len() == b@.len(),
            0 <= i <= a@.len(),
            forall|k: int| 0 <= k < i ==> a@[k] == b@[k],
        decreases a@.len() - i,
    {
        if a[i] != b[i] {
            proof {
                if a@ == b@ {
                    assert(a@[i as int] == b@[i as int]);
                }
            }
            return false;
        }
        i = i + 1;
    }
    proof {
        assert(a@ =~= b@);
    }
    true
}

/// Decodes a canonical envelope back into a proving result.
///
/// Accepts exactly the canonical envelopes of well-formed results: on
/// success the input is byte-for-byte the canonical envelope of the returned
/// value, and the canonical envelope of every well-formed result is
/// accepted. Anything else — wrong framing, a malformed or out-of-range
/// number, bad hex, a value not in canonical form, a truncated envelope —
/// is rejected with the field at fault, never silently misread.
#[verifier::rlimit(100)]
#[verifier::spinoff_prover]
pub fn decode_result(s: &[u8]) -> (r: Result<VMResult, VmError>)
    ensures
        r matches Ok(v) ==> v.wf() && s@ == encode_spec(v@),
        (exists|w: VMResultView| wf_view(w) && s@ == encode_spec(w)) ==> r is Ok,
        r matches Err(e) ==> e is Decode,
{
    let n = s.len();
    let l1 = lit_stack_vec();
    let l2 = lit_overflow_vec();
    let l3 = lit_proof_vec();
    let l4 = lit_end_vec();
    if !matches_at(s, 0, l1.as_slice()) {
        proof {
            if exists|w: VMResultView| wf_view(w) && s@ == encode_spec(w) {
                let w = choose|w: VMResultView| wf_view(w) && s@ == encode_spec(w);
                lemma_encode_structure(w);
                assert(false);
            }
        }
        return Err(VmError::Decode { field: DecodeField::Envelope });
    }
    let q1 = match scan_quote(s, 10) {
        Some(j) => j,
        None => {
            proof {
                if exists|w: VMResultView| wf_view(w) && s@ == encode_spec(w) {
                    let w = choose|w: VMResultView| wf_view(w) && s@ == encode_spec(w);
                    lemma_encode_structure(w);
                    assert(s@[enc_q1(w)] == 34);
                    assert(false);
                }
            }
            return Err(VmError::Decode { field: DecodeField::Envelope });
        },
    };
    if !matches_at(s, q1, l2.as_slice()) {
        proof {
            if exists|w: VMResultView| wf_view(w) && s@ == encode_spec(w) {
                let w = choose|w: VMResultView| wf_view(w) && s@ == encode_spec(w);
                lemma_encode_structure(w);
                lemma_first_quote_unique(s@, 10, q1 as int, enc_q1(w));
                assert(false);
            }
        }
        return Err(VmError::Decode { field: DecodeField::Envelope });
    }
    let p2 = q1 + 20;
    let q2 = match scan_quote(s, p2) {
        Some(j) => j,
        None => {
            proof {
                if exists|w: VMResultView| wf_view(w) && s@ == encode_spec(w) {
                    let w = choose|w: VMResultView| wf_view(w) && s@ == encode_spec(w);
                    lemma_encode_structure(w);
                    lemma_first_quote_unique(s@, 10, q1 as int, enc_q1(w));
                    assert(s@[enc_q2(w)] == 34);
                    assert(false);
                }
            }
            return Err(VmError::Decode { field: DecodeField::Envelope });
        },
    };
    if !matches_at(s, q2, l3.as_slice()) {
        proof {
            if exists|w: VMResultView| wf_view(w) && s@ == encode_spec(w) {
                let w = choose|w: VMResultView| wf_view(w) && s@ == encode_spec(w);
                lemma_encode_structure(w);
                lemma_first_quote_unique(s@, 10, q1 as int, enc_q1(w));
                lemma_first_quote_unique(s@, q1 as int + 20, q2 as int, enc_q2(w));
                assert(false);
            }
        }
        return Err(VmError::Decode { field: DecodeField::Envelope });
    }
    let p3 = q2 + 11;
    let q3 = match scan_quote(s, p3) {
        Some(j) => j,
        None => {
            proof {
                if exists|w: VMResultView| wf_view(w) && s@ == encode_spec(w) {
                    let w = choose|w: VMResultView| wf_view(w) && s@ == encode_spec(w);
                    lemma_encode_structure(w);
                    lemma_first_quote_unique(s@, 10, q1 as int, enc_q1(w));
                    lemma_first_quote_unique(s@, q1 as int + 20, q2 as int, enc_q2(w));
                    assert(s@[enc_q3(w)] == 34);
                    assert(false);
                }
            }
            return Err(VmError::Decode { field: DecodeField::Envelope });
        },
    };
    if !matches_at(s, q3, l4.as_slice()) || n - q3 != 2 {
        proof {
            if exists|w: VMResultView| wf_view(w) && s@ == encode_spec(w) {
                let w = choose|w: VMResultView| wf_view(w) && s@ == encode_spec(w);
                lemma_encode_structure(w);
                lemma_first_quote_unique(s@, 10, q1 as int, enc_q1(w));
                lemma_first_quote_unique(s@, q1 as int + 20, q2 as int, enc_q2(w));
                lemma_first_quote_unique(s@, q2 as int + 11, q3 as int, enc_q3(w));
                assert(false);
            }
        }
        return Err(VmError::Decode { field: DecodeField::Envelope });
    }
    let ghost canon: Seq<u8> = s@;
    let sb = slice_subrange(s, 10, q1);
    let stack = match parse_field_csv(sb) {
        Ok(v) => v,
        Err(_) => {
            proof {
                if exists|w: VMResultView| wf_view(w) && s@ == encode_spec(w) {
                    let w = choose|w: VMResultView| wf_view(w) && s@ == encode_spec(w);
                    lemma_encode_structure(w);
                    lemma_first_quote_unique(s@, 10, q1 as int, enc_q1(w));
                    assert(sb@ == csv_of(w.stack));
                    lemma_csv_of_values(w.stack);
                    assert(false);
                }
            }
            return Err(VmError::Decode { field: DecodeField::Stack });
        },
    };
    let ob = slice_subrange(s, p2, q2);
    let overflow = match parse_field_csv(ob) {
        Ok(v) => v,
        Err(_) => {
            proof {
                if exists|w: VMResultView| wf_view(w) && s@ == encode_spec(w) {
                    let w = choose|w: VMResultView| wf_view(w) && s@ == encode_spec(w);
                    lemma_encode_structure(w);
                    lemma_first_quote_unique(s@, 10, q1 as int, enc_q1(w));
                    lemma_first_quote_unique(s@, q1 as int + 20, q2 as int, enc_q2(w));
                    assert(ob@ == csv_of(w.overflow_addrs));
                    lemma_csv_of_values(w.overflow_addrs);
                    assert(false);
                }
            }
            return Err(VmError::Decode { field: DecodeField::OverflowAddrs });
        },
    };
    let hb = slice_subrange(s, p3, q3);
    let proof_bytes = match hex_decode(hb) {
        Some(v) => v,
        None => {
            proof {
                if exists|w: VMResultView| wf_view(w) && s@ == encode_spec(w) {
                    let w = choose|w: VMResultView| wf_view(w) && s@ == encode_spec(w);
                    lemma_encode_structure(w);
                    lemma_first_quote_unique(s@, 10, q1 as int, enc_q1(w));
                    lemma_first_quote_unique(s@, q1 as int + 20, q2 as int, enc_q2(w));
                    lemma_first_quote_unique(s@, q2 as int + 11, q3 as int, enc_q3(w));
                    assert(hb@ == hex_of(w.starkproof));
                    lemma_hex_round_trip(w.starkproof);
                    assert(false);
                }
            }
            return Err(VmError::Decode { field: DecodeField::Proof });
        },
    };
    let vm = VMResult {
        outputs: StackOutputs { stack, overflow_addrs: overflow },
        starkproof: proof_bytes,
    };
    let enc = encode_result(&vm);
    if !bytes_eq(s, enc.as_slice()) {
        proof {
            if exists|w: VMResultView| wf_view(w) && s@ == encode_spec(w) {
                let w = choose|w: VMResultView| wf_view(w) && s@ == encode_spec(w);
                lemma_encode_structure(w);
                lemma_first_quote_unique(s@, 10, q1 as int, enc_q1(w));
                lemma_first_quote_unique(s@, q1 as int + 20, q2 as int, enc_q2(w));
                lemma_first_quote_unique(s@, q2 as int + 11, q3 as int, enc_q3(w));
                assert(sb@ == csv_of(w.stack));
                assert(ob@ == csv_of(w.overflow_addrs));
                assert(hb@ == hex_of(w.starkproof));
                lemma_csv_of_values(w.stack);
                lemma_csv_of_values(w.overflow_addrs);
                lemma_hex_round_trip(w.starkproof);
                if sb@.len() == 0 {
                    assert(w.stack.len() == 0);
                    assert(vm@.stack =~= w.stack);
                } else {
                    assert(vm@.stack == csv_values(sb@));
                }
                if ob@.len() == 0 {
                    assert(w.overflow_addrs.len() == 0);
                    assert(vm@.overflow_addrs =~= w.overflow_addrs);
                } else {
                    assert(vm@.overflow_addrs == csv_values(ob@));
                }
                assert(vm@.starkproof == w.starkproof);
                assert(vm@ =~= w);
                assert(enc@ == s@);
                assert(false);
            }
        }
        return Err(VmError::Decode { field: DecodeField::Envelope });
    }
    proof {
        if sb@.len() == 0 {
            assert(vm@.stack =~= Seq::<u64>::empty());
            assert(all_field_elements(vm@.stack));
        } else {
            lemma_field_csv_values_wf(sb@);
        }
        if ob@.len() == 0 {
            assert(vm@.overflow_addrs =~= Seq::<u64>::empty());
            assert(all_field_elements(vm@.overflow_addrs));
        } else {
            lemma_field_csv_values_wf(ob@);
        }
    }
    Ok(vm)
}

/// Every byte of a canonical envelope is ASCII.
pub proof fn lemma_encode_ascii(v: VMResultView)
    ensures
        forall|k: int| 0 <= k < encode_spec(v).len() ==> #[trigger] encode_spec(v)[k] < 128,
{
    lemma_encode_structure(v);
    lemma_csv_of_plain(v.stack);
    lemma_csv_of_plain(v.overflow_addrs);
    lemma_hex_bytes_plain(v.starkproof);
    let s = encode_spec(v);
    let q1 = enc_q1(v);
    let q2 = enc_q2(v);
    let q3 = enc_q3(v);
    assert forall|k: int| 0 <= k < s.len() implies #[trigger] s[k] < 128 by {
        if k < 10 {
            assert(s[k] == s.subrange(0, 10)[k]);
        } else if k < q1 {
            assert(s[k] == s.subrange(10, q1)[k - 10]);
            assert(is_digit(csv_of(v.stack)[k - 10]) || csv_of(v.stack)[k - 10] == 44);
        } else if k < q1 + 20 {
            assert(s[k] == s.subrange(q1, q1 + 20)[k - q1]);
        } else if k < q2 {
            assert(s[k] == s.subrange(q1 + 20, q2)[k - (q1 + 20)]);
            assert(is_digit(csv_of(v.overflow_addrs)[k - (q1 + 20)]) || csv_of(
                v.overflow_addrs,
            )[k - (q1 + 20)] == 44);
        } else if k < q2 + 11 {
            assert(s[k] == s.subrange(q2, q2 + 11)[k - q2]);
        } else if k < q3 {
            assert(s[k] == s.subrange(q2 + 11, q3)[k - (q2 + 11)]);
            assert(48 <= hex_of(v.starkproof)[k - (q2 + 11)] <= 102);
        } else {
            assert(s[k] == s.subrange(q3, q3 + 2)[k - q3]);
        }
    }
}

/// Round-trip law of the result packager: the canonical envelope of a
/// result determines the result, so decoding a just-encoded result yields
/// the same value. Together with the contracts of `encode_result` and
/// `decode_result`, decoding the envelope of any well-formed result gives
/// that result back.
pub proof fn lemma_encode_injective(v1: VMResultView, v2: VMResultView)
    requires
        encode_spec(v1) == encode_spec(v2),
    ensures
        v1 == v2,
{
    lemma_encode_structure(v1);
    lemma_encode_structure(v2);
    let s = encode_spec(v1);
    assert(enc_q1(v1) == enc_q1(v2)) by {
        if enc_q1(v1) < enc_q1(v2) {
            assert(s[enc_q1(v1)] == 34);
            assert(s[enc_q1(v1)] != 34);
        }
        if enc_q1(v2) < enc_q1(v1) {
            assert(s[enc_q1(v2)] == 34);
            assert(s[enc_q1(v2)] != 34);
        }
    }
    assert(csv_of(v1.stack) == csv_of(v2.stack));
    lemma_csv_of_values(v1.stack);
    lemma_csv_of_values(v2.stack);
    assert(v1.stack == v2.stack);
    assert(enc_q2(v1) == enc_q2(v2)) by {
        if enc_q2(v1) < enc_q2(v2) {
            assert(s[enc_q2(v1)] == 34);
            assert(s[enc_q2(v1)] != 34);
        }
        if enc_q2(v2) < enc_q2(v1) {
            assert(s[enc_q2(v2)] == 34);
            assert(s[enc_q2(v2)] != 34);
        }
    }
    assert(csv_of(v1.overflow_addrs) == csv_of(v2.overflow_addrs));
    lemma_csv_of_values(v1.overflow_addrs);
    lemma_csv_of_values(v2.overflow_addrs);
    assert(v1.overflow_addrs == v2.overflow_addrs);
    assert(enc_q3(v1) == enc_q3(v2));
    assert(hex_of(v1.starkproof) == hex_of(v2.starkproof));
    lemma_hex_round_trip(v1.starkproof);
    lemma_hex_round_trip(v2.starkproof);
    assert(v1.starkproof == v2.starkproof);
    assert(v1 =~= v2);
}

} // verus!
