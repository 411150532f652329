//! Contract and orchestration layer around the Miden zero-knowledge virtual
//! machine: it turns program source text and decimal-string inputs into a
//! STARK proof of correct execution, packages the result into a canonical
//! text envelope, and independently re-checks such a proof against a claimed
//! program digest and claimed public inputs.
//!
//! The assembler, the VM, the STARK prover and the STARK verifier are outside
//! engines reached through narrow trusted wrappers; everything around them —
//! the decimal and hex codecs, the input assembly, the envelope encoding and
//! decoding, and the pipeline error policy — is verified.

pub mod field;

pub mod decimal;

pub mod hexcodec;

pub mod csv;

pub mod errors;

pub mod envelope;

pub mod engine;

pub mod pipeline;

pub mod proofbytes;

pub use envelope::{decode_result, encode_result, StackOutputs, VMResult};

pub use errors::{DecodeField, VmError};

pub use pipeline::{
    convert_stackinputs, execute_zk_program, generate_program_hash, verify_zk_program,
    verify_zk_program_envelope, NormalInput,
};
