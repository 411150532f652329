//! The Miden VM's base field: values are unsigned 64-bit integers below the
//! prime modulus 2^64 - 2^32 + 1. Field elements are carried through this
//! crate as plain `u64` values that satisfy [`is_field_element`].

use vstd::prelude::*;

verus! {

/// The prime modulus of the Miden VM's base field: 2^64 - 2^32 + 1.
pub const MODULUS: u64 = 0xFFFF_FFFF_0000_0001;

/// A `u64` stands for a field element exactly when it is below the modulus.
pub open spec fn is_field_element(v: u64) -> bool {
    v < MODULUS
}

/// Every value of the sequence is a valid field element.
pub open spec fn all_field_elements(s: Seq<u64>) -> bool {
    forall|i: int| 0 <= i < s.len() ==> is_field_element(#[trigger] s[i])
}

} // verus!
