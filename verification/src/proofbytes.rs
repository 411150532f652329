//! The context region of a serialized execution proof.
//!
//! A proof produced under this crate's fixed 96-bit-security policy always
//! starts with the same context region: the BLAKE3-192 hash-function tag,
//! the Miden trace layout (main width 72, one auxiliary segment of width 9
//! with 16 random elements), the trace length as a bounded power of two,
//! empty trace metadata, the 8-byte little-endian field modulus, and the
//! preset's parameters (27 queries, blowup 8, grinding 16, quadratic
//! extension, FRI folding 8, remainder degree 255). The verify boundary
//! accepts only proofs of this shape: the engine's deserializer and AIR
//! construction enforce the options and layout with assertions rather than
//! errors, so a claimed proof of any other shape is rejected here, as an
//! invalid proof, before the engine sees it.

use crate::envelope::matches_at;
use vstd::prelude::*;

verus! {

/// The bytes before the trace-length byte: the hash-function tag and the
/// trace layout (main width, auxiliary width, auxiliary random elements).
pub open spec fn proof_head() -> Seq<u8> {
    seq![0u8, 72u8, 9u8, 16u8]
}

/// The bytes after the trace-length byte: empty metadata (two zero length
/// bytes), the modulus length and its 8 little-endian bytes, and the six
/// proof-option bytes of the fixed preset.
pub open spec fn proof_mid() -> Seq<u8> {
    seq![
        0u8, 0u8, 8u8, 1u8, 0u8, 0u8, 0u8, 255u8, 255u8, 255u8, 255u8, 27u8, 8u8, 16u8, 2u8, 8u8,
        255u8,
    ]
}

/// A serialized proof whose context region matches the fixed policy's shape.
/// Byte 4 is the trace length as a power of two: at least 2^10 (the engine
/// pads every trace to that minimum) and at most 2^29 (the field supports
/// no larger evaluation domain at blowup 8).
pub open spec fn proof_shape_ok(p: Seq<u8>) -> bool {
    &&& p.len() >= 23
    &&& p.subrange(0, 4) == proof_head()
    &&& 10 <= p[4] <= 29
    &&& p.subrange(5, 22) == proof_mid()
}

/// The expected head bytes, executable form.
fn proof_head_vec() -> (v: Vec<u8>)
    ensures
        v@ == proof_head(),
{
    let mut v: Vec<u8> = Vec::new();
    v.push(0);
    v.push(72);
    v.push(9);
    v.push(16);
    proof {
        assert(v@ =~= proof_head());
    }
    v
}

/// The expected bytes after the trace-length byte, executable form.
fn proof_mid_vec() -> (v: Vec<u8>)
    ensures
        v@ == proof_mid(),
{
    let mut v: Vec<u8> = Vec::new();
    v.push(0);
    v.push(0);
    v.push(8);
    v.push(1);
    v.push(0);
    v.push(0);
    v.push(0);
    v.push(255);
    v.push(255);
    v.push(255);
    v.push(255);
    v.push(27);
    v.push(8);
    v.push(16);
    v.push(2);
    v.push(8);
    v.push(255);
    proof {
        assert(v@ =~= proof_mid());
    }
    v
}

/// Checks that a serialized proof's context region matches the fixed
/// policy's shape.
pub fn check_proof_shape(p: &[u8]) -> (b: bool)
    ensures
        b == proof_shape_ok(p@),
{
    if p.len() < 23 {
        return false;
    }
    let head = proof_head_vec();
    if !matches_at(p, 0, head.as_slice()) {
        return false;
    }
    if p[4] < 10 || p[4] > 29 {
        return false;
    }
    let mid = proof_mid_vec();
    matches_at(p, 5, mid.as_slice())
}

} // verus!
