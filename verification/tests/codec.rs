//! Tests for the field-value codec and the input assembler.

use miden_bridge::errors::VmError;
use miden_bridge::field::MODULUS;
use miden_bridge::pipeline::convert_stackinputs;

#[test]
fn empty_strings_yield_empty_inputs() {
    let r = convert_stackinputs(String::new(), String::new()).unwrap();
    assert!(r.stack_inputs.is_empty());
    assert!(r.advice_tape.is_empty());
}

#[test]
fn parses_stack_and_advice_in_order() {
    let r = convert_stackinputs("4,5".to_string(), "7,8,9".to_string()).unwrap();
    assert_eq!(r.stack_inputs, vec![4, 5]);
    assert_eq!(r.advice_tape, vec![7, 8, 9]);
}

#[test]
fn single_value() {
    let r = convert_stackinputs("42".to_string(), String::new()).unwrap();
    assert_eq!(r.stack_inputs, vec![42]);
}

#[test]
fn malformed_token_names_second_token() {
    let e = convert_stackinputs("3,abc,5".to_string(), String::new()).unwrap_err();
    assert_eq!(e, VmError::Parse { index: 1, token: b"abc".to_vec() });
}

#[test]
fn stray_whitespace_is_a_parse_failure() {
    let e = convert_stackinputs("3, 5".to_string(), String::new()).unwrap_err();
    assert_eq!(e, VmError::Parse { index: 1, token: b" 5".to_vec() });
}

#[test]
fn empty_token_is_a_parse_failure() {
    let e = convert_stackinputs("3,,5".to_string(), String::new()).unwrap_err();
    assert_eq!(e, VmError::Parse { index: 1, token: b"".to_vec() });
}

#[test]
fn trailing_comma_is_a_parse_failure() {
    let e = convert_stackinputs("3,".to_string(), String::new()).unwrap_err();
    assert_eq!(e, VmError::Parse { index: 1, token: b"".to_vec() });
}

#[test]
fn stack_value_at_modulus_is_a_range_failure() {
    let e = convert_stackinputs(MODULUS.to_string(), String::new()).unwrap_err();
    assert_eq!(e, VmError::Range { index: 0, value: MODULUS });
}

#[test]
fn stack_value_below_modulus_is_accepted() {
    let r = convert_stackinputs((MODULUS - 1).to_string(), String::new()).unwrap();
    assert_eq!(r.stack_inputs, vec![MODULUS - 1]);
}

#[test]
fn stack_value_above_u64_is_a_parse_failure() {
    let e =
        convert_stackinputs("99999999999999999999999".to_string(), String::new()).unwrap_err();
    assert_eq!(
        e,
        VmError::Parse { index: 0, token: b"99999999999999999999999".to_vec() }
    );
}

#[test]
fn advice_accepts_full_u64_range() {
    let r = convert_stackinputs(String::new(), u64::MAX.to_string()).unwrap();
    assert_eq!(r.advice_tape, vec![u64::MAX]);
}

#[test]
fn advice_malformed_token_is_reported() {
    let e = convert_stackinputs(String::new(), "1,0x2".to_string()).unwrap_err();
    assert_eq!(e, VmError::Parse { index: 1, token: b"0x2".to_vec() });
}

#[test]
fn negative_number_is_a_parse_failure() {
    let e = convert_stackinputs("-1".to_string(), String::new()).unwrap_err();
    assert_eq!(e, VmError::Parse { index: 0, token: b"-1".to_vec() });
}
