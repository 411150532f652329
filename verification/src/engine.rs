//! The trusted boundary to the Miden engines: the assembler, the
//! execute-and-prove engine and the STARK verifier. Each wrapper drives one
//! engine capability and converts between the engines' types and the plain
//! values the verified pipeline works on; its contract states only what the
//! engines' own sources show.
//!
//! The assembler runs with no library attached (the standard-library crate
//! cannot be built against this engine set), so a source that imports
//! library modules is rejected with a compile diagnostic. The engines
//! themselves are deterministic — assembly, execution, proving and
//! verification are Fiat-Shamir based and draw no randomness, clock or
//! environment — so their outcomes are named as functions of their plain
//! arguments.

use crate::envelope::{StackOutputs, VMResult, VMResultView};
use miden_core::chiplets::hasher::Digest;
use miden_core::utils::{Deserializable, SliceReader};
use crate::errors::VmError;
use crate::field::all_field_elements;
use crate::proofbytes::proof_shape_ok;
use vstd::prelude::*;

verus! {

#[verifier::external_type_specification]
#[verifier::external_body]
pub struct ExProgram(miden_core::Program);

#[verifier::external_type_specification]
#[verifier::external_body]
pub struct ExStackInputs(miden_core::StackInputs);

#[verifier::external_type_specification]
#[verifier::external_body]
pub struct ExMemAdviceProvider(miden_processor::MemAdviceProvider);

/// The 32-byte digest of the program the Miden assembler (with no library
/// attached) compiles from the given source text, or `None` when the
/// assembler rejects the source. Compilation is a deterministic function of
/// the source text alone, so two compilations of byte-identical source
/// yield the same digest.
pub uninterp spec fn compiled_digest(source: Seq<char>) -> Option<Seq<u8>>;

/// The public stack values a `StackInputs` built by [`build_stack_inputs`]
/// holds, in the order they were handed to the builder (the engine stores
/// them reversed, so the last value is the top of the stack).
pub uninterp spec fn stack_inputs_values(s: miden_core::StackInputs) -> Seq<u64>;

/// The advice stack values a `MemAdviceProvider` built by
/// [`build_advice_provider`] holds, in the order they were handed to the
/// builder.
pub uninterp spec fn advice_tape_values(a: miden_processor::MemAdviceProvider) -> Seq<u64>;

/// The outcome of the execute-and-prove capability under the fixed
/// 96-bit-security preset: the packaged outputs and serialized proof of
/// running the program compiled from `source` (no library attached) on the
/// given public stack and advice tape, or `None` when execution or proving
/// fails. Proving is deterministic (Fiat-Shamir, single-threaded, no
/// randomness), so the outcome is a function of these arguments alone.
pub uninterp spec fn prove_outcome(source: Seq<char>, stack: Seq<u64>, advice: Seq<u64>) -> Option<
    VMResultView,
>;

/// The outcome of the verification capability on a canonical claimed digest,
/// the public stack values, the claimed outputs and the serialized proof:
/// the attested security level on acceptance, or `None` on any rejection (a
/// proof that does not deserialize included). Verification is deterministic,
/// so the outcome is a function of these arguments alone.
pub uninterp spec fn verify_outcome(
    digest: Seq<u8>,
    stack: Seq<u64>,
    out_stack: Seq<u64>,
    overflow: Seq<u64>,
    proof: Seq<u8>,
) -> Option<u32>;

/// The little-endian 64-bit word at position `i` of a byte string.
pub open spec fn le_word(d: Seq<u8>, i: int) -> int {
    let lo = d[8 * i] + d[8 * i + 1] * 0x100 + d[8 * i + 2] * 0x1_0000 + d[8 * i + 3] * 0x100_0000;
    let hi = d[8 * i + 4] + d[8 * i + 5] * 0x100 + d[8 * i + 6] * 0x1_0000 + d[8 * i + 7] * 0x100_0000;
    lo + hi * 0x1_0000_0000
}

/// A 32-byte digest is canonical when each of its four little-endian words
/// is below the field modulus; only such digests deserialize.
pub open spec fn digest_bytes_canonical(d: Seq<u8>) -> bool {
    forall|i: int| 0 <= i < 4 ==> le_word(d, i) < crate::field::MODULUS as int
}

/// Relies on `miden_assembly::Assembler::compile` and `miden_core::Program::hash`:
/// the assembler deterministically turns source text into a program or a
/// diagnostic, and a program's hash is its 32-byte content digest whose four
/// little-endian words are field elements, so the digest bytes are always
/// canonical.
#[verifier::external_body]
pub fn compile_program(source: &str) -> (r: Result<(miden_core::Program, Vec<u8>), String>)
    ensures
        r is Ok <==> compiled_digest(source@) is Some,
        r matches Ok(pd) ==> pd.1@ == compiled_digest(source@).unwrap() && pd.1@.len() == 32,
        r matches Ok(pd) ==> digest_bytes_canonical(pd.1@),
{
    let assembler = miden_assembly::Assembler::default();
    match assembler.compile(source) {
        Ok(p) => {
            let digest = p.hash().as_bytes().to_vec();
            Ok((p, digest))
        },
        Err(e) => Err(format!("{e}")),
    }
}

/// Relies on `miden_core::StackInputs::new` and `miden_core::Felt::new`: lifts
/// values below the modulus into field elements and arranges them as the
/// initial operand stack (the last value ends up on top), so the built value
/// holds exactly the given values.
#[verifier::external_body]
pub fn build_stack_inputs(values: &Vec<u64>) -> (r: miden_core::StackInputs)
    requires
        all_field_elements(values@),
    ensures
        stack_inputs_values(r) == values@,
{
    let felts: Vec<miden_core::Felt> = values.iter().map(|v| miden_core::Felt::new(*v)).collect();
    miden_core::StackInputs::new(felts)
}

/// Relies on `miden_processor::AdviceInputs::with_stack_values` and
/// `miden_processor::MemAdviceProvider::from`: builds the private advice provider
/// from values below the modulus (the engine would silently reduce a value at
/// or above the modulus, which the precondition rules out).
#[verifier::external_body]
pub fn build_advice_provider(values: &Vec<u64>) -> (r: miden_processor::MemAdviceProvider)
    requires
        all_field_elements(values@),
    ensures
        advice_tape_values(r) == values@,
{
    let inputs = miden_processor::AdviceInputs::default()
        .with_stack_values(values.iter().copied())
        .expect("advice values are valid field elements");
    miden_processor::MemAdviceProvider::from(inputs)
}

/// Relies on `miden_assembly::Assembler::compile` and `miden_prover::prove`
/// with the 96-bit-security proof options preset: compiles the source (no
/// library attached) and runs the execute-and-prove engine once, returning
/// exactly the outcome named by [`prove_outcome`]. On success the outputs
/// are the final stack state as integers below the field modulus (the trace
/// stores field elements), and the serialized proof carries the fixed
/// policy's context shape. The last clause relies on the prover-verifier
/// pair's completeness: a freshly produced proof verifies against the
/// program's own digest, the same public stack and the outputs it attests.
/// A compile failure, an execution failure and a prover-internal failure
/// surface as three distinct error kinds.
#[verifier::external_body]
pub fn prove_program(
    source: &str,
    stack_inputs: miden_core::StackInputs,
    advice: miden_processor::MemAdviceProvider,
) -> (r: Result<VMResult, VmError>)
    ensures
        compiled_digest(source@) is None ==> r is Err,
        r matches Err(e) ==> (e is Compile <==> compiled_digest(source@) is None),
        r matches Err(e) ==> (compiled_digest(source@) is Some ==> (e is Execution
            || e is Proving)),
        (compiled_digest(source@) is Some && r is Ok) ==> prove_outcome(source@, stack_inputs_values(stack_inputs), advice_tape_values(advice)) == Some(r.unwrap()@),
        (compiled_digest(source@) is Some && prove_outcome(source@, stack_inputs_values(stack_inputs), advice_tape_values(advice)) is Some) ==> r is Ok,
        r matches Ok(v) ==> v.wf(),
        r matches Ok(v) ==> proof_shape_ok(v.starkproof@),
        (compiled_digest(source@) is Some && r is Ok) ==> verify_outcome(compiled_digest(source@).unwrap(), stack_inputs_values(stack_inputs), r.unwrap()@.stack, r.unwrap()@.overflow_addrs, r.unwrap()@.starkproof) is Some,
{
    let program = match miden_assembly::Assembler::default().compile(source) {
        Ok(p) => p,
        Err(e) => return Err(VmError::Compile { message: format!("{e}") }),
    };
    let options = miden_prover::ProofOptions::with_96_bit_security(false);
    match miden_prover::prove(&program, stack_inputs, advice, options) {
        Ok((o, p)) => Ok(VMResult {
            outputs: StackOutputs { stack: o.stack().to_vec(), overflow_addrs: o.overflow_addrs().to_vec() },
            starkproof: p.to_bytes(),
        }),
        Err(miden_processor::ExecutionError::ProverError(e)) => Err(VmError::Proving { message: format!("{e}") }),
        Err(e) => Err(VmError::Execution { message: format!("{e}") }),
    }
}

/// Relies on `miden_verifier::verify`, `Digest::read_from` and
/// `ExecutionProof::from_bytes`: deserializes the claimed digest and proof
/// and asks the STARK verifier whether the proof attests that the program
/// with that digest, run on the given public stack, produced the given
/// outputs, returning exactly the outcome named by [`verify_outcome`]: the
/// proof's attested security level on acceptance. A digest whose four words
/// are not canonical field elements is malformed; a proof that does not
/// deserialize or does not verify is rejected. The engine demands the full
/// 16-element top of the final stack, and it enforces the proof's options
/// and trace layout with assertions rather than errors, hence the length
/// and proof-shape preconditions: on any admitted input the call returns.
#[verifier::external_body]
pub fn verify_program_proof(
    digest: &Vec<u8>,
    stack_inputs: miden_core::StackInputs,
    outputs: &StackOutputs,
    proof_bytes: &Vec<u8>,
) -> (r: Result<u32, VmError>)
    requires
        digest@.len() == 32,
        outputs.stack@.len() >= 16,
        all_field_elements(outputs.stack@),
        all_field_elements(outputs.overflow_addrs@),
        proof_shape_ok(proof_bytes@),
    ensures
        !digest_bytes_canonical(digest@) ==> r is Err,
        r matches Err(e) ==> (e is MalformedDigest <==> !digest_bytes_canonical(digest@)),
        r matches Err(e) ==> (digest_bytes_canonical(digest@) ==> e is Verification),
        (digest_bytes_canonical(digest@) && r is Ok) ==> verify_outcome(digest@, stack_inputs_values(stack_inputs), outputs.stack@, outputs.overflow_addrs@, proof_bytes@) == Some(r.unwrap()),
        (digest_bytes_canonical(digest@) && verify_outcome(digest@, stack_inputs_values(stack_inputs), outputs.stack@, outputs.overflow_addrs@, proof_bytes@) is Some) ==> r is Ok,
{
    let mut reader = SliceReader::new(digest.as_slice());
    let d = match Digest::read_from(&mut reader) {
        Ok(d) => d,
        Err(_) => return Err(VmError::MalformedDigest),
    };
    let info = miden_core::ProgramInfo::new(d, miden_core::Kernel::default());
    let outs = miden_core::StackOutputs::new(outputs.stack.clone(), outputs.overflow_addrs.clone());
    match miden_prover::ExecutionProof::from_bytes(proof_bytes.as_slice()) {
        Ok(p) => match miden_verifier::verify(info, stack_inputs, outs, p) {
            Ok(level) => Ok(level),
            Err(e) => Err(VmError::Verification { message: format!("{e}") }),
        },
        Err(e) => Err(VmError::Verification { message: format!("{e}") }),
    }
}

/// Relies on `String::from_utf8`: ASCII bytes decode to the string whose
/// characters are exactly those bytes.
#[verifier::external_body]
pub fn ascii_to_string(v: Vec<u8>) -> (r: String)
    requires
        forall|i: int| 0 <= i < v@.len() ==> v@[i] < 128,
    ensures
        r@ == v@.map_values(|b: u8| b as char),
{
    String::from_utf8(v).expect("ASCII bytes are valid UTF-8")
}

} // verus!
