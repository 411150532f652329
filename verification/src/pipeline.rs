//! The three pipelines around the Miden engines: assembling the initial
//! machine state from decimal strings, proving a program and packaging the
//! result, computing a program's identity, and re-checking a claimed proof.
//!
//! Every function returns a tagged result; no input — malformed, adversarial
//! or otherwise — aborts the process. The contracts pin down exactly which
//! input-shape error comes back on which input, and tie success to the
//! engines' named, deterministic outcomes: what the envelope holds is
//! exactly what the prove engine returned, and the level returned on
//! verification is exactly what the verify engine attests.

use crate::csv::{
    csv_values, field_csv_error, field_csv_ok, parse_field_csv, parse_u64_csv, u64_csv_error,
    u64_csv_ok,
};
use crate::engine::{
    ascii_to_string, build_advice_provider, build_stack_inputs, compile_program, compiled_digest,
    digest_bytes_canonical, prove_outcome, prove_program, verify_outcome, verify_program_proof,
};
use crate::envelope::{decode_result, encode_result, encode_spec, wf_view, VMResult, VMResultView};
use crate::envelope::{lemma_encode_ascii, lemma_encode_injective, lemma_field_csv_values_wf};
use crate::errors::VmError;
use crate::field::{all_field_elements, MODULUS};
use crate::hexcodec::{hex_decode, hex_decode_spec, hex_encode, hex_of, lemma_hex_bytes_plain};
use crate::proofbytes::{check_proof_shape, proof_shape_ok};
use vstd::prelude::*;
use vstd::string::StringExecFns;
use vstd::utf8::encode_utf8;

verus! {

/// The assembled initial machine state: the public operand stack and the
/// private advice tape, both as plain integers. Stack values are field
/// elements; advice values are arbitrary 64-bit integers.
#[derive(Debug)]
pub struct NormalInput {
    /// The public initial operand stack, in the order given (the last value
    /// ends up on top of the stack).
    pub stack_inputs: Vec<u64>,
    /// The private advice tape.
    pub advice_tape: Vec<u64>,
}

impl NormalInput {
    /// Every public stack value is a valid field element.
    pub open spec fn wf(&self) -> bool {
        all_field_elements(self.stack_inputs@)
    }
}

/// Builds the typed initial machine state from the two raw decimal strings:
/// the public stack through the field-value codec, the advice tape through
/// the integer codec. Pure and total once both codecs succeed; the order of
/// the values is preserved exactly as given. The empty string yields an
/// empty list on either side.
pub fn convert_stackinputs(stack_init: String, advice_tape: String) -> (r: Result<
    NormalInput,
    VmError,
>)
    ensures
        ({
            let sb = encode_utf8(stack_init@);
            let ab = encode_utf8(advice_tape@);
            match r {
                Ok(ni) => field_csv_ok(sb) && ni.stack_inputs@ == csv_values(sb) && u64_csv_ok(ab)
                    && ni.advice_tape@ == csv_values(ab) && ni.wf(),
                Err(e) => field_csv_error(sb, e) || (field_csv_ok(sb) && u64_csv_error(ab, e)),
            }
        }),
{
    let sb = stack_init.as_str().as_bytes();
    let stack = match parse_field_csv(sb) {
        Ok(v) => v,
        Err(e) => {
            return Err(e);
        },
    };
    let ab = advice_tape.as_str().as_bytes();
    let advice = match parse_u64_csv(ab) {
        Ok(v) => v,
        Err(e) => {
            return Err(e);
        },
    };
    proof {
        lemma_field_csv_values_wf(sb@);
        if sb@.len() == 0 {
            assert(stack@ =~= Seq::<u64>::empty());
        }
        if ab@.len() == 0 {
            assert(advice@ =~= Seq::<u64>::empty());
        }
    }
    Ok(NormalInput { stack_inputs: stack, advice_tape: advice })
}

/// Compiles the program source (with no library attached) and returns the
/// lower-case hex encoding of its 32-byte digest, 64 characters. Two calls
/// on byte-identical source return identical strings: the result is a
/// function of the source text alone. Compilation failure carries the
/// assembler's diagnostic.
pub fn generate_program_hash(program_in_assembly: String) -> (r: Result<String, VmError>)
    ensures
        r is Ok <==> compiled_digest(program_in_assembly@) is Some,
        r matches Ok(h) ==> h@ == hex_of(compiled_digest(program_in_assembly@).unwrap()).map_values(
            |b: u8| b as char,
        ),
        r matches Ok(h) ==> h@.len() == 64,
        r is Ok ==> digest_bytes_canonical(compiled_digest(program_in_assembly@).unwrap()),
        r matches Err(e) ==> e is Compile,
{
    let digest = match compile_program(program_in_assembly.as_str()) {
        Ok(pd) => pd.1,
        Err(message) => {
            return Err(VmError::Compile { message });
        },
    };
    let hx = hex_encode(digest.as_slice());
    proof {
        lemma_hex_bytes_plain(digest@);
    }
    Ok(ascii_to_string(hx))
}

/// `e` names the first advice value at or above the field modulus.
pub open spec fn advice_range_error(vals: Seq<u64>, e: VmError) -> bool {
    match e {
        VmError::Range { index, value } => {
            index < vals.len() && vals[index as int] == value && value >= MODULUS && (forall|
                j: int,
            |
                0 <= j < index ==> vals[j] < MODULUS)
        },
        _ => false,
    }
}

/// Checks that every advice value fits in the field, reporting the first
/// that does not. The advice codec itself takes plain 64-bit integers, but
/// the engine accepts only field elements on the advice stack, so an
/// out-of-range value is rejected here with a typed error rather than at
/// the engine boundary.
fn check_advice_range(advice: &Vec<u64>) -> (r: Result<(), VmError>)
    ensures
        r is Ok <==> all_field_elements(advice@),
        r matches Err(e) ==> advice_range_error(advice@, e),
{
    let mut i: usize = 0;
    while i < advice.len()
        invariant
            0 <= i <= advice@.len(),
            forall|j: int| 0 <= j < i ==> advice@[j] < MODULUS,
        decreases advice@.len() - i,
    {
        if advice[i] >= MODULUS {
            return Err(VmError::Range { index: i, value: advice[i] });
        }
        i = i + 1;
    }
    Ok(())
}

/// Assembles the initial state from the two decimal strings (the input
/// shape is checked before any engine is invoked), compiles the program,
/// drives the execute-and-prove engine once under the fixed 96-bit-security
/// policy (with no library attached to the assembler), and packages the
/// outputs and proof the engine returned into the canonical envelope: on
/// success the envelope is exactly the encoding of the engine's outcome.
/// Every failure — input shape, compilation, execution, proving — surfaces
/// as its own error kind; nothing aborts the process.
pub fn execute_zk_program(program_code: String, stack_init: String, advice_tape: String) -> (r:
    Result<String, VmError>)
    ensures
        ({
            let sb = encode_utf8(stack_init@);
            let ab = encode_utf8(advice_tape@);
            let oc = prove_outcome(program_code@, csv_values(sb), csv_values(ab));
            let good = field_csv_ok(sb) && u64_csv_ok(ab) && all_field_elements(csv_values(ab));
            &&& (!field_csv_ok(sb) ==> (r matches Err(e) && field_csv_error(sb, e)))
            &&& ((field_csv_ok(sb) && !u64_csv_ok(ab)) ==> (r matches Err(e) && u64_csv_error(
                ab,
                e,
            )))
            &&& ((field_csv_ok(sb) && u64_csv_ok(ab) && !all_field_elements(csv_values(ab))) ==> (
            r matches Err(e) && advice_range_error(csv_values(ab), e)))
            &&& ((good && compiled_digest(program_code@) is None) ==> (r matches Err(e)
                && e is Compile))
            &&& ((good && compiled_digest(program_code@) is Some) ==> (r is Ok <==> oc is Some))
            &&& (r matches Ok(env) ==> ((good && compiled_digest(program_code@) is Some) ==> (
            oc matches Some(w) && wf_view(w) && env@ == encode_spec(w).map_values(
                |b: u8| b as char,
            ))))
            &&& (r is Ok ==> ((good && compiled_digest(program_code@) is Some) ==> (
            oc matches Some(w) && proof_shape_ok(w.starkproof) && verify_outcome(
                compiled_digest(program_code@).unwrap(),
                csv_values(sb),
                w.stack,
                w.overflow_addrs,
                w.starkproof,
            ) is Some)))
            &&& (r matches Err(e) ==> ((good && compiled_digest(program_code@) is Some) ==> (
            e is Execution || e is Proving)))
        }),
{
    let inputs = match convert_stackinputs(stack_init, advice_tape) {
        Ok(ni) => ni,
        Err(e) => {
            return Err(e);
        },
    };
    match check_advice_range(&inputs.advice_tape) {
        Ok(()) => (),
        Err(e) => {
            return Err(e);
        },
    };
    let stack_inputs = build_stack_inputs(&inputs.stack_inputs);
    let advice_provider = build_advice_provider(&inputs.advice_tape);
    let vm = match prove_program(program_code.as_str(), stack_inputs, advice_provider) {
        Ok(v) => v,
        Err(e) => {
            return Err(e);
        },
    };
    let bytes = encode_result(&vm);
    proof {
        lemma_encode_ascii(vm@);
    }
    let env = ascii_to_string(bytes);
    proof {
        assert(wf_view(vm@) && env@ == encode_spec(vm@).map_values(|b: u8| b as char));
    }
    Ok(env)
}

/// What re-checking a claimed result (`v`) against a claimed digest and
/// claimed public stack guarantees, for result `r`: each malformed-request
/// kind comes back on exactly its inputs, and on a well-shaped request the
/// call returns the verification engine's answer — the attested level on
/// acceptance, a `Verification` error on rejection.
pub open spec fn verify_post(
    hash_text: Seq<char>,
    stack_text: Seq<char>,
    v: VMResultView,
    r: Result<u32, VmError>,
) -> bool {
    let sb = encode_utf8(stack_text);
    let dg = hex_decode_spec(encode_utf8(hash_text));
    let shape = dg is Some && dg.unwrap().len() == 32;
    let claim_ok = v.stack.len() >= 16 && proof_shape_ok(v.starkproof);
    let full = shape && field_csv_ok(sb) && claim_ok;
    let oc = verify_outcome(dg.unwrap(), csv_values(sb), v.stack, v.overflow_addrs, v.starkproof);
    &&& (!shape ==> (r matches Err(e) && e is MalformedDigest))
    &&& ((shape && !field_csv_ok(sb)) ==> (r matches Err(e) && field_csv_error(sb, e)))
    &&& ((shape && field_csv_ok(sb) && !claim_ok) ==> (r matches Err(e) && e is Verification))
    &&& ((full && !digest_bytes_canonical(dg.unwrap())) ==> (r matches Err(e)
        && e is MalformedDigest))
    &&& ((full && digest_bytes_canonical(dg.unwrap())) ==> (r is Ok <==> oc is Some))
    &&& (r matches Ok(level) ==> ((full && digest_bytes_canonical(dg.unwrap())) ==> oc == Some(
        level,
    )))
    &&& (r matches Err(e) ==> ((full && digest_bytes_canonical(dg.unwrap()))
        ==> e is Verification))
}

/// Re-checks a claimed proof: hex-decodes the claimed 32-byte program
/// digest (anything else is a malformed digest, never a crash), rebuilds
/// the public stack inputs through the field-value codec, rejects claimed
/// outputs that lack the engine's mandatory 16-element stack top or whose
/// proof does not carry the fixed policy's context shape (the engine cannot
/// process those, and no proof of another shape can attest a run under this
/// policy), and asks the verification engine whether the proof attests the
/// claimed computation, returning exactly the security level it attests on
/// acceptance. A malformed request and a cryptographically invalid proof
/// come back as distinct error kinds.
pub fn verify_zk_program(program_hash: String, stack_inputs: String, zk_outputs: VMResult) -> (r:
    Result<u32, VmError>)
    requires
        zk_outputs.wf(),
    ensures
        verify_post(program_hash@, stack_inputs@, zk_outputs@, r),
{
    let hb = program_hash.as_str().as_bytes();
    let digest = match hex_decode(hb) {
        Some(d) => d,
        None => {
            return Err(VmError::MalformedDigest);
        },
    };
    if digest.len() != 32 {
        return Err(VmError::MalformedDigest);
    }
    let sb = stack_inputs.as_str().as_bytes();
    let stack = match parse_field_csv(sb) {
        Ok(v) => v,
        Err(e) => {
            return Err(e);
        },
    };
    if zk_outputs.outputs.stack.len() < 16 {
        let message = String::from_str("the claimed outputs hold fewer than sixteen stack values");
        return Err(VmError::Verification { message });
    }
    if !check_proof_shape(zk_outputs.starkproof.as_slice()) {
        let message = String::from_str(
            "the claimed proof does not carry the fixed policy's context shape",
        );
        return Err(VmError::Verification { message });
    }
    proof {
        lemma_field_csv_values_wf(sb@);
        if sb@.len() == 0 {
            assert(stack@ =~= Seq::<u64>::empty());
        }
    }
    let si = build_stack_inputs(&stack);
    verify_program_proof(&digest, si, &zk_outputs.outputs, &zk_outputs.starkproof)
}

/// The envelope-in verification surface: decodes a transported envelope and
/// re-checks the claimed proof in one call. A malformed or non-canonical
/// envelope comes back as the decoder's error naming the failing field,
/// never as a silently mis-read result; a well-formed envelope is verified
/// exactly as by [`verify_zk_program`].
pub fn verify_zk_program_envelope(
    program_hash: String,
    stack_inputs: String,
    envelope: String,
) -> (r: Result<u32, VmError>)
    ensures
        ((r matches Err(e) && e is Decode) <==> !(exists|w: VMResultView|
        wf_view(w) && encode_utf8(envelope@) == encode_spec(w))),
        forall|w: VMResultView|
            (wf_view(w) && encode_utf8(envelope@) == encode_spec(w)) ==> verify_post(
                program_hash@,
                stack_inputs@,
                w,
                r,
            ),
{
    let vm = match decode_result(envelope.as_str().as_bytes()) {
        Ok(v) => v,
        Err(e) => {
            return Err(e);
        },
    };
    let ghost vmv = vm@;
    let r = verify_zk_program(program_hash, stack_inputs, vm);
    proof {
        assert forall|w: VMResultView|
            (wf_view(w) && encode_utf8(envelope@) == encode_spec(w)) implies verify_post(
            program_hash@,
            stack_inputs@,
            w,
            r,
        ) by {
            lemma_encode_injective(w, vmv);
        }
    }
    r
}

} // verus!
