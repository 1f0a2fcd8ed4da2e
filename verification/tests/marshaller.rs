use native_bridge::errors::BridgeError;
use native_bridge::scope::ScopeStack;
use native_bridge::text::{GuestString, TextEncoding};
use native_bridge::value::{classify, encode_boolean, encode_number, encode_undefined, to_number, GuestValue, ValueTag};

#[test]
fn classify_reports_each_tag() {
    assert_eq!(classify(&GuestValue::Undefined), ValueTag::Undefined);
    assert_eq!(classify(&GuestValue::Boolean(true)), ValueTag::Boolean);
    assert_eq!(classify(&GuestValue::Number(7)), ValueTag::Number);
    assert_eq!(classify(&GuestValue::StringRef(0)), ValueTag::String);
    assert_eq!(classify(&GuestValue::ObjectRef(3)), ValueTag::Object);
}

#[test]
fn to_number_accepts_numbers_only() {
    let bits = (42.0f64).to_bits();
    assert_eq!(to_number(&GuestValue::Number(bits)), Ok(bits));
    assert_eq!(f64::from_bits(to_number(&GuestValue::Number(bits)).unwrap()), 42.0);
    assert_eq!(to_number(&GuestValue::Undefined), Err(BridgeError::TypeMismatch));
    assert_eq!(to_number(&GuestValue::Boolean(false)), Err(BridgeError::TypeMismatch));
    assert_eq!(to_number(&GuestValue::StringRef(1)), Err(BridgeError::TypeMismatch));
}

#[test]
fn encoders_produce_the_encoded_values() {
    assert_eq!(encode_undefined(), GuestValue::Undefined);
    assert_eq!(encode_number(5), GuestValue::Number(5));
    assert_eq!(encode_boolean(true), GuestValue::Boolean(true));
}

#[test]
fn narrow_view_reports_ascii() {
    let s = GuestString::Ascii(vec![104, 105]);
    assert_eq!(s.encoding(), TextEncoding::Ascii);
    assert!(s.is_ascii());
    assert_eq!(s.length(), 2);
    assert_eq!(s.ascii_bytes(), &vec![104u8, 105u8]);
}

#[test]
fn wide_view_reports_wide() {
    let s = GuestString::Wide(vec![0x4F60, 0x597D]);
    assert_eq!(s.encoding(), TextEncoding::Wide);
    assert!(!s.is_ascii());
    assert_eq!(s.length(), 2);
    assert_eq!(s.wide_units(), &vec![0x4F60u16, 0x597Du16]);
}

// The encoding flag is checked before any character data is read: the raw
// accessors each demand one encoding, so a reader first branches on the
// flag and then applies exactly one iteration strategy.
#[test]
fn encoding_flag_checked_before_reading() {
    let views = vec![GuestString::Ascii(vec![65, 66, 67]), GuestString::Wide(vec![65, 66, 67])];
    for view in &views {
        let units: Vec<u16> = match view.encoding() {
            TextEncoding::Ascii => view.ascii_bytes().iter().map(|b| *b as u16).collect(),
            TextEncoding::Wide => view.wide_units().clone(),
        };
        assert_eq!(units, vec![65u16, 66u16, 67u16]);
        assert_eq!(view.code_units(), units);
    }
}

#[test]
fn code_units_agree_across_encodings() {
    let narrow = GuestString::Ascii(vec![1, 2, 3]);
    let wide = GuestString::Wide(vec![1, 2, 3]);
    assert_eq!(narrow.code_units(), wide.code_units());
}

#[test]
fn handles_resolve_inside_their_scope() {
    let mut scopes = ScopeStack::new();
    let marker = scopes.open_scope();
    let h = scopes.root(&marker, GuestValue::Number(9));
    assert_eq!(scopes.resolve(&h), GuestValue::Number(9));
    let inner = scopes.open_scope();
    let h2 = scopes.root(&inner, GuestValue::Boolean(true));
    assert_eq!(scopes.resolve(&h2), GuestValue::Boolean(true));
    // the outer handle stays valid while its scope is still open
    assert_eq!(scopes.resolve(&h), GuestValue::Number(9));
    scopes.close_scope(inner);
    scopes.close_scope(marker);
}
