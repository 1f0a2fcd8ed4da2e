use native_bridge::dispatch::{dispatch_call, BasicRustJSFunction, HostHandler};
use native_bridge::driver::{
    error_exit_code, exit_code, run, usage_check, wrap, NativeCall, ScriptValue,
};
use native_bridge::errors::BridgeError;
use native_bridge::runtime::Runtime;
use native_bridge::scope::ScopeStack;
use native_bridge::text::TextEncoding;
use native_bridge::value::GuestValue;

#[test]
fn wrap_empty_buffer_is_invalid() {
    match wrap(&[]) {
        Err(e) => assert_eq!(e, BridgeError::InvalidBuffer),
        Ok(_) => panic!("an empty byte region must be rejected"),
    }
}

#[test]
fn wrap_keeps_the_bytes_without_copying() {
    let bytes = vec![1u8, 2, 3];
    match wrap(&bytes) {
        Ok(buffer) => {
            assert_eq!(buffer.len(), 3);
            assert_eq!(buffer.as_bytes(), &[1u8, 2, 3]);
        },
        Err(_) => panic!("a non-empty byte region must wrap"),
    }
}

#[test]
fn usage_requires_exactly_one_positional_argument() {
    assert_eq!(usage_check(0), Err(BridgeError::UsageError));
    assert_eq!(usage_check(1), Err(BridgeError::UsageError));
    assert!(usage_check(2).is_ok());
    assert_eq!(usage_check(3), Err(BridgeError::UsageError));
    assert_eq!(usage_check(9), Err(BridgeError::UsageError));
}

#[test]
fn every_failure_category_exits_one() {
    assert_eq!(error_exit_code(&BridgeError::UsageError), 1);
    assert_eq!(error_exit_code(&BridgeError::IoError), 1);
    assert_eq!(error_exit_code(&BridgeError::InvalidBuffer), 1);
    assert_eq!(error_exit_code(&BridgeError::DefinitionFailed), 1);
    assert_eq!(error_exit_code(&BridgeError::TypeMismatch), 1);
    assert_eq!(exit_code(true), 0);
    assert_eq!(exit_code(false), 1);
    assert!(!BridgeError::IoError.describe().is_empty());
    assert!(!BridgeError::UsageError.describe().is_empty());
}

// A valid bytecode file that makes no native calls runs to success.
#[test]
fn scenario_no_native_calls_succeeds() {
    let out = run(b"bytecode", Vec::new());
    assert_eq!(out.code, 0);
    assert!(out.reports.is_empty());
}

#[test]
fn scenario_empty_file_fails() {
    let out = run(b"", Vec::new());
    assert_eq!(out.code, 1);
    assert!(out.reports.is_empty());
}

// The registered binding called as nativeTest(42, "hi"): the dispatcher
// receives two arguments, resolves the first as the number 42 and the
// second as a string whose view reports the narrow encoding, and the run
// exits zero.
#[test]
fn scenario_native_test_call() {
    let call = NativeCall {
        target: "nativeTest".to_string(),
        args: vec![
            ScriptValue::Number((42.0f64).to_bits()),
            ScriptValue::AsciiText(b"hi".to_vec()),
        ],
    };
    let out = run(b"bytecode", vec![call]);
    assert_eq!(out.code, 0);
    assert_eq!(out.reports.len(), 1);
    let rep = &out.reports[0];
    assert_eq!(rep.arg_count, 2);
    assert_eq!(rep.result, GuestValue::Undefined);
    assert_eq!(rep.number_bits, Some((42.0f64).to_bits()));
    assert_eq!(f64::from_bits(rep.number_bits.unwrap()), 42.0);
    assert_eq!(rep.text_encoding, Some(TextEncoding::Ascii));
    assert!(rep.wide_units.is_empty());
}

#[test]
fn scenario_wide_string_units_are_read() {
    let call = NativeCall {
        target: "nativeTest".to_string(),
        args: vec![
            ScriptValue::Number((1.5f64).to_bits()),
            ScriptValue::WideText(vec![0x4F60, 0x597D]),
        ],
    };
    let out = run(b"bytecode", vec![call]);
    assert_eq!(out.code, 0);
    assert_eq!(out.reports.len(), 1);
    let rep = &out.reports[0];
    assert_eq!(rep.text_encoding, Some(TextEncoding::Wide));
    assert_eq!(rep.wide_units, vec![0x4F60u16, 0x597Du16]);
}

// A call with fewer arguments than the handler requires answers an encoded
// undefined and the run continues to success.
#[test]
fn scenario_insufficient_arguments_do_not_abort() {
    let calls = vec![
        NativeCall { target: "nativeTest".to_string(), args: Vec::new() },
        NativeCall {
            target: "nativeTest".to_string(),
            args: vec![ScriptValue::Number((3.0f64).to_bits())],
        },
        NativeCall { target: "nativeTest".to_string(), args: Vec::new() },
    ];
    let out = run(b"bytecode", calls);
    assert_eq!(out.code, 0);
    assert_eq!(out.reports.len(), 3);
    for rep in &out.reports {
        assert_eq!(rep.result, GuestValue::Undefined);
    }
    assert_eq!(out.reports[0].number_bits, None);
    assert_eq!(out.reports[1].number_bits, Some((3.0f64).to_bits()));
}

#[test]
fn scenario_type_mismatch_fails_the_run() {
    let call = NativeCall {
        target: "nativeTest".to_string(),
        args: vec![ScriptValue::Boolean(true)],
    };
    let out = run(b"bytecode", vec![call]);
    assert_eq!(out.code, 1);
    assert!(out.reports.is_empty());
}

#[test]
fn scenario_unbound_target_fails_the_run() {
    let good = NativeCall {
        target: "nativeTest".to_string(),
        args: vec![ScriptValue::Number(0)],
    };
    let bad = NativeCall { target: "missing".to_string(), args: Vec::new() };
    let out = run(b"bytecode", vec![good, bad]);
    assert_eq!(out.code, 1);
    assert_eq!(out.reports.len(), 1);
}

#[test]
fn dispatch_with_no_arguments_returns_undefined() {
    let rt = Runtime::new(0);
    let mut scopes = ScopeStack::new();
    let handler = HostHandler::Basic(BasicRustJSFunction::new());
    let values: Vec<GuestValue> = Vec::new();
    match dispatch_call(&handler, &rt, &mut scopes, &values) {
        Ok(rep) => {
            assert_eq!(rep.result, GuestValue::Undefined);
            assert_eq!(rep.arg_count, 0);
        },
        Err(_) => panic!("a call without arguments is recoverable"),
    }
}

#[test]
fn dispatch_with_wrong_first_argument_is_a_type_mismatch() {
    let rt = Runtime::new(0);
    let mut scopes = ScopeStack::new();
    let handler = HostHandler::Basic(BasicRustJSFunction::new());
    let values = vec![GuestValue::Boolean(false)];
    assert_eq!(
        dispatch_call(&handler, &rt, &mut scopes, &values).err(),
        Some(BridgeError::TypeMismatch)
    );
}

#[test]
fn dispatch_resolves_number_and_ascii_string() {
    let mut rt = Runtime::new(0);
    let s = rt.encode_ascii_text(b"hi".to_vec());
    let mut scopes = ScopeStack::new();
    let handler = HostHandler::Basic(BasicRustJSFunction::new());
    let values = vec![GuestValue::Number((42.0f64).to_bits()), s];
    match dispatch_call(&handler, &rt, &mut scopes, &values) {
        Ok(rep) => {
            assert_eq!(rep.arg_count, 2);
            assert_eq!(rep.number_bits, Some((42.0f64).to_bits()));
            assert_eq!(rep.text_encoding, Some(TextEncoding::Ascii));
            assert!(rep.wide_units.is_empty());
        },
        Err(_) => panic!("a number and a string dispatch cleanly"),
    }
}
