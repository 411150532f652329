//! End-to-end tests against the real Miden engines: program identity,
//! proving, packaging, verification, tamper sensitivity, and the error
//! taxonomy of the pipeline.

use miden_bridge::envelope::decode_result;
use miden_bridge::errors::VmError;
use miden_bridge::field::MODULUS;
use miden_bridge::pipeline::{
    execute_zk_program, generate_program_hash, verify_zk_program, verify_zk_program_envelope,
};

const ADD_PROGRAM: &str = "begin add end";
const NOOP_PROGRAM: &str = "begin push.1 drop end";

#[test]
fn program_hash_is_deterministic_and_lower_case_hex() {
    let h1 = generate_program_hash(ADD_PROGRAM.to_string()).unwrap();
    let h2 = generate_program_hash(ADD_PROGRAM.to_string()).unwrap();
    assert_eq!(h1, h2);
    assert_eq!(h1.len(), 64);
    assert!(h1.chars().all(|c| c.is_ascii_hexdigit() && !c.is_ascii_uppercase()));
}

#[test]
fn different_programs_have_different_hashes() {
    let h1 = generate_program_hash(ADD_PROGRAM.to_string()).unwrap();
    let h2 = generate_program_hash(NOOP_PROGRAM.to_string()).unwrap();
    assert_ne!(h1, h2);
}

#[test]
fn compile_failure_carries_a_diagnostic() {
    let e = generate_program_hash("begin frobnicate end".to_string()).unwrap_err();
    match e {
        VmError::Compile { message } => assert!(!message.is_empty()),
        other => panic!("expected a compile error, got {other:?}"),
    }
}

#[test]
fn execute_rejects_malformed_stack_input_before_proving() {
    let e = execute_zk_program(
        ADD_PROGRAM.to_string(),
        "3,abc,5".to_string(),
        String::new(),
    )
    .unwrap_err();
    assert_eq!(e, VmError::Parse { index: 1, token: b"abc".to_vec() });
}

#[test]
fn execute_rejects_out_of_range_advice() {
    let e = execute_zk_program(
        NOOP_PROGRAM.to_string(),
        String::new(),
        MODULUS.to_string(),
    )
    .unwrap_err();
    assert_eq!(e, VmError::Range { index: 0, value: MODULUS });
}

#[test]
fn execution_failure_is_a_typed_error_not_a_crash() {
    // `assert` fails on a zero top of stack; the host must survive it.
    let e = execute_zk_program("begin assert end".to_string(), String::new(), String::new())
        .unwrap_err();
    match e {
        VmError::Execution { message } => assert!(!message.is_empty()),
        other => panic!("expected an execution error, got {other:?}"),
    }
}

#[test]
fn prove_and_verify_add_program_end_to_end() {
    let envelope = execute_zk_program(
        ADD_PROGRAM.to_string(),
        "4,5".to_string(),
        String::new(),
    )
    .unwrap();
    let result = decode_result(envelope.as_bytes()).unwrap();
    assert_eq!(result.outputs.stack[0], 9);

    let digest = generate_program_hash(ADD_PROGRAM.to_string()).unwrap();
    let result2 = decode_result(envelope.as_bytes()).unwrap();
    let level = verify_zk_program(digest, "4,5".to_string(), result2).unwrap();
    assert!(level >= 96);

    // A digest from a different program must be rejected as an invalid
    // proof, not as a malformed request.
    let wrong = generate_program_hash(NOOP_PROGRAM.to_string()).unwrap();
    let result3 = decode_result(envelope.as_bytes()).unwrap();
    let e = verify_zk_program(wrong, "4,5".to_string(), result3).unwrap_err();
    assert!(matches!(e, VmError::Verification { .. }), "got {e:?}");
}

#[test]
fn empty_public_inputs_prove_and_verify_end_to_end() {
    let envelope =
        execute_zk_program(NOOP_PROGRAM.to_string(), String::new(), String::new()).unwrap();
    let result = decode_result(envelope.as_bytes()).unwrap();
    let digest = generate_program_hash(NOOP_PROGRAM.to_string()).unwrap();
    let level = verify_zk_program(digest, String::new(), result).unwrap();
    assert!(level >= 96);
}

#[test]
fn tampered_proof_bytes_fail_verification_not_the_process() {
    let envelope = execute_zk_program(
        ADD_PROGRAM.to_string(),
        "4,5".to_string(),
        String::new(),
    )
    .unwrap();
    let digest = generate_program_hash(ADD_PROGRAM.to_string()).unwrap();
    let clean = decode_result(envelope.as_bytes()).unwrap();
    let positions = [0, 1, clean.starkproof.len() / 2, clean.starkproof.len() - 1];
    for &pos in positions.iter() {
        let mut tampered = decode_result(envelope.as_bytes()).unwrap();
        tampered.starkproof[pos] ^= 0x01;
        let e = verify_zk_program(digest.clone(), "4,5".to_string(), tampered).unwrap_err();
        assert!(matches!(e, VmError::Verification { .. }), "flip at {pos}: {e:?}");
    }
    // The untouched result still verifies.
    assert!(verify_zk_program(digest, "4,5".to_string(), clean).is_ok());
}

#[test]
fn tampered_proof_context_fails_verification_not_the_process() {
    let envelope = execute_zk_program(
        ADD_PROGRAM.to_string(),
        "4,5".to_string(),
        String::new(),
    )
    .unwrap();
    let digest = generate_program_hash(ADD_PROGRAM.to_string()).unwrap();
    // The context region: hash-function tag, trace layout, trace length,
    // metadata, modulus, proof options. Flips here must be rejected, never
    // trip the engine's internal assertions.
    for pos in 0..22 {
        let mut tampered = decode_result(envelope.as_bytes()).unwrap();
        tampered.starkproof[pos] ^= 0x01;
        let e = verify_zk_program(digest.clone(), "4,5".to_string(), tampered).unwrap_err();
        assert!(matches!(e, VmError::Verification { .. }), "flip at {pos}: {e:?}");
    }
    // A crafted stub far too short to be a proof is likewise rejected.
    let mut stub = decode_result(envelope.as_bytes()).unwrap();
    stub.starkproof = vec![0x00; 10];
    let e = verify_zk_program(digest, "4,5".to_string(), stub).unwrap_err();
    assert!(matches!(e, VmError::Verification { .. }), "got {e:?}");
}

#[test]
fn envelope_surface_verifies_end_to_end_and_rejects_corrupt_envelopes() {
    let envelope = execute_zk_program(
        ADD_PROGRAM.to_string(),
        "4,5".to_string(),
        String::new(),
    )
    .unwrap();
    let digest = generate_program_hash(ADD_PROGRAM.to_string()).unwrap();
    let level =
        verify_zk_program_envelope(digest.clone(), "4,5".to_string(), envelope.clone()).unwrap();
    assert!(level >= 96);

    // A corrupted envelope is a decode failure, never a mis-read result.
    let corrupt = envelope.replace("stack", "stuck");
    let e = verify_zk_program_envelope(digest.clone(), "4,5".to_string(), corrupt).unwrap_err();
    assert!(matches!(e, VmError::Decode { .. }), "got {e:?}");
    let truncated = envelope[..envelope.len() - 2].to_string();
    let e = verify_zk_program_envelope(digest, "4,5".to_string(), truncated).unwrap_err();
    assert!(matches!(e, VmError::Decode { .. }), "got {e:?}");
}

#[test]
fn short_digest_is_malformed_not_a_crash() {
    // 31 bytes: one byte short of the digest size.
    let short = "ab".repeat(31);
    let e = verify_zk_program(short, String::new(), empty_result()).unwrap_err();
    assert_eq!(e, VmError::MalformedDigest);
}

#[test]
fn non_hex_digest_is_malformed() {
    let e = verify_zk_program("zz".repeat(32), String::new(), empty_result()).unwrap_err();
    assert_eq!(e, VmError::MalformedDigest);
}

#[test]
fn odd_length_digest_is_malformed() {
    let e = verify_zk_program("abc".to_string(), String::new(), empty_result()).unwrap_err();
    assert_eq!(e, VmError::MalformedDigest);
}

#[test]
fn verify_rejects_malformed_stack_input_after_digest_check() {
    let digest = "ab".repeat(32);
    let e = verify_zk_program(digest, "1,oops".to_string(), empty_result()).unwrap_err();
    assert_eq!(e, VmError::Parse { index: 1, token: b"oops".to_vec() });
}

#[test]
fn non_canonical_digest_bytes_are_malformed() {
    // 32 bytes of 0xff: each 8-byte word is at or above the field modulus.
    // The claimed proof carries a well-shaped context region so that the
    // digest check, not the proof-shape check, decides.
    let e = verify_zk_program("ff".repeat(32), String::new(), shaped_stub()).unwrap_err();
    assert_eq!(e, VmError::MalformedDigest);
}

#[test]
fn empty_proof_is_a_verification_failure_not_a_malformed_request() {
    let e = verify_zk_program("00".repeat(32), String::new(), stub_result()).unwrap_err();
    assert!(matches!(e, VmError::Verification { .. }), "got {e:?}");
}

#[test]
fn short_outputs_stack_is_rejected_not_a_panic() {
    // The engine demands the full 16-element stack top; a shorter claimed
    // outputs stack must come back as a typed rejection, not a crash.
    let e = verify_zk_program("00".repeat(32), String::new(), empty_result()).unwrap_err();
    assert!(matches!(e, VmError::Verification { .. }), "got {e:?}");
}

fn shaped_stub() -> miden_bridge::envelope::VMResult {
    // A 16-element zero stack and a proof whose context region matches the
    // fixed policy's shape (followed by a single junk byte).
    let proof = vec![
        0u8, 72, 9, 16, 10, 0, 0, 8, 1, 0, 0, 0, 255, 255, 255, 255, 27, 8, 16, 2, 8, 255, 0,
    ];
    miden_bridge::envelope::VMResult {
        outputs: miden_bridge::envelope::StackOutputs {
            stack: vec![0; 16],
            overflow_addrs: vec![],
        },
        starkproof: proof,
    }
}

fn stub_result() -> miden_bridge::envelope::VMResult {
    miden_bridge::envelope::VMResult {
        outputs: miden_bridge::envelope::StackOutputs {
            stack: vec![0; 16],
            overflow_addrs: vec![],
        },
        starkproof: vec![],
    }
}

fn empty_result() -> miden_bridge::envelope::VMResult {
    miden_bridge::envelope::VMResult {
        outputs: miden_bridge::envelope::StackOutputs {
            stack: vec![],
            overflow_addrs: vec![],
        },
        starkproof: vec![],
    }
}
