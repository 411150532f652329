//! Tests for the result packager: canonical encoding, strict decoding, the
//! round-trip law, and rejection of malformed or non-canonical envelopes.

use miden_bridge::envelope::{decode_result, encode_result, StackOutputs, VMResult};
use miden_bridge::errors::{DecodeField, VmError};

fn sample() -> VMResult {
    VMResult {
        outputs: StackOutputs {
            stack: vec![9, 0, 12345],
            overflow_addrs: vec![1],
        },
        starkproof: vec![0xab, 0x01, 0x00, 0xff],
    }
}

#[test]
fn encoding_is_the_documented_text() {
    let enc = encode_result(&sample());
    assert_eq!(
        String::from_utf8(enc).unwrap(),
        "{\"stack\":\"9,0,12345\",\"overflow_addrs\":\"1\",\"proof\":\"ab0100ff\"}"
    );
}

#[test]
fn empty_lists_and_empty_proof_encode_and_decode() {
    let r = VMResult {
        outputs: StackOutputs { stack: vec![], overflow_addrs: vec![] },
        starkproof: vec![],
    };
    let enc = encode_result(&r);
    assert_eq!(
        String::from_utf8(enc.clone()).unwrap(),
        "{\"stack\":\"\",\"overflow_addrs\":\"\",\"proof\":\"\"}"
    );
    let back = decode_result(&enc).unwrap();
    assert!(back.outputs.stack.is_empty());
    assert!(back.outputs.overflow_addrs.is_empty());
    assert!(back.starkproof.is_empty());
}

#[test]
fn decode_inverts_encode() {
    let r = sample();
    let enc = encode_result(&r);
    let back = decode_result(&enc).unwrap();
    assert_eq!(back.outputs.stack, r.outputs.stack);
    assert_eq!(back.outputs.overflow_addrs, r.outputs.overflow_addrs);
    assert_eq!(back.starkproof, r.starkproof);
}

#[test]
fn truncated_envelope_is_rejected() {
    let enc = encode_result(&sample());
    for cut in [0, 1, 10, enc.len() / 2, enc.len() - 1] {
        assert!(decode_result(&enc[..cut]).is_err(), "cut at {cut}");
    }
}

#[test]
fn wrong_label_is_rejected() {
    let bad = b"{\"stacc\":\"9\",\"overflow_addrs\":\"\",\"proof\":\"ab\"}";
    assert_eq!(
        decode_result(bad).unwrap_err(),
        VmError::Decode { field: DecodeField::Envelope }
    );
}

#[test]
fn malformed_stack_number_names_the_stack_field() {
    let bad = b"{\"stack\":\"9,x\",\"overflow_addrs\":\"\",\"proof\":\"ab\"}";
    assert_eq!(
        decode_result(bad).unwrap_err(),
        VmError::Decode { field: DecodeField::Stack }
    );
}

#[test]
fn out_of_range_stack_value_names_the_stack_field() {
    let bad =
        b"{\"stack\":\"18446744069414584321\",\"overflow_addrs\":\"\",\"proof\":\"ab\"}";
    assert_eq!(
        decode_result(bad).unwrap_err(),
        VmError::Decode { field: DecodeField::Stack }
    );
}

#[test]
fn malformed_overflow_number_names_the_overflow_field() {
    let bad = b"{\"stack\":\"9\",\"overflow_addrs\":\"1,\",\"proof\":\"ab\"}";
    assert_eq!(
        decode_result(bad).unwrap_err(),
        VmError::Decode { field: DecodeField::OverflowAddrs }
    );
}

#[test]
fn odd_length_hex_names_the_proof_field() {
    let bad = b"{\"stack\":\"9\",\"overflow_addrs\":\"\",\"proof\":\"abc\"}";
    assert_eq!(
        decode_result(bad).unwrap_err(),
        VmError::Decode { field: DecodeField::Proof }
    );
}

#[test]
fn non_hex_proof_names_the_proof_field() {
    let bad = b"{\"stack\":\"9\",\"overflow_addrs\":\"\",\"proof\":\"zz\"}";
    assert_eq!(
        decode_result(bad).unwrap_err(),
        VmError::Decode { field: DecodeField::Proof }
    );
}

#[test]
fn non_canonical_number_is_rejected() {
    let bad = b"{\"stack\":\"07\",\"overflow_addrs\":\"\",\"proof\":\"ab\"}";
    assert_eq!(
        decode_result(bad).unwrap_err(),
        VmError::Decode { field: DecodeField::Envelope }
    );
}

#[test]
fn upper_case_hex_is_not_canonical() {
    let bad = b"{\"stack\":\"9\",\"overflow_addrs\":\"\",\"proof\":\"AB\"}";
    assert_eq!(
        decode_result(bad).unwrap_err(),
        VmError::Decode { field: DecodeField::Envelope }
    );
}

#[test]
fn trailing_garbage_is_rejected() {
    let mut enc = encode_result(&sample());
    enc.push(b' ');
    assert!(decode_result(&enc).is_err());
}

#[test]
fn every_single_byte_flip_of_an_envelope_is_rejected_or_decodes_differently() {
    let r = sample();
    let enc = encode_result(&r);
    for i in 0..enc.len() {
        let mut tampered = enc.clone();
        tampered[i] ^= 1;
        match decode_result(&tampered) {
            Err(_) => (),
            Ok(other) => {
                assert!(
                    other.outputs.stack != r.outputs.stack
                        || other.outputs.overflow_addrs != r.outputs.overflow_addrs
                        || other.starkproof != r.starkproof,
                    "flip at {i} decoded to the same value"
                );
            },
        }
    }
}
