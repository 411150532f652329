//! The error taxonomy of the pipeline. Every boundary function returns a
//! tagged result with one of these kinds, so a caller can always tell a
//! malformed request from a cryptographically invalid proof and from an
//! internal engine failure; no condition aborts the process.

use vstd::prelude::*;

verus! {

/// The envelope field a decode failure points at.
#[derive(Debug, Clone, Copy, PartialEq, Eq, Structural)]
pub enum DecodeField {
    /// The framing of the envelope itself: a missing or misplaced label,
    /// quote or brace, or a value not in canonical form.
    Envelope,
    /// The list of stack output values.
    Stack,
    /// The list of overflow table addresses.
    OverflowAddrs,
    /// The hex-encoded execution proof.
    Proof,
}

/// The error kinds of the pipeline.
#[derive(Debug, PartialEq, Eq)]
pub enum VmError {
    /// A token of a decimal-string input is not a valid non-negative integer.
    /// `index` is the zero-based position of the token, `token` its bytes.
    Parse { index: usize, token: Vec<u8> },
    /// An integer input is not below the field modulus. `index` is the
    /// zero-based position of the value, `value` the value itself.
    Range { index: usize, value: u64 },
    /// The assembler rejected the program source; carries its diagnostic.
    Compile { message: String },
    /// The VM failed to execute the program.
    Execution { message: String },
    /// The prover failed after execution succeeded.
    Proving { message: String },
    /// A result envelope could not be decoded; names the failing field.
    Decode { field: DecodeField },
    /// A claimed program digest is not a hex string of exactly the digest
    /// size, or does not decode to a valid digest.
    MalformedDigest,
    /// The proof does not attest the claimed computation.
    Verification { message: String },
}

} // verus!
