use vrl_python::value::{float_is_nan, from_canonical, to_canonical, Canonical, ConvertError, HostValue};

const NAN_BITS: u64 = 0x7ff8_0000_0000_0000;
const ONE_AND_HALF_BITS: u64 = 0x3ff8_0000_0000_0000;

fn text(s: &str) -> HostValue {
    HostValue::Text(s.to_string())
}

#[test]
fn scalars_convert_one_to_one() {
    assert_eq!(to_canonical(&HostValue::Nil), Ok(Canonical::Null));
    assert_eq!(to_canonical(&HostValue::Bool(true)), Ok(Canonical::Boolean(true)));
    assert_eq!(to_canonical(&HostValue::Int(-7)), Ok(Canonical::Integer(-7)));
    assert_eq!(to_canonical(&HostValue::Float(ONE_AND_HALF_BITS)), Ok(Canonical::Float(ONE_AND_HALF_BITS)));
    assert_eq!(to_canonical(&text("hi")), Ok(Canonical::Bytes("hi".to_string())));
}

#[test]
fn nan_becomes_null() {
    assert!(float_is_nan(NAN_BITS));
    assert!(float_is_nan(f64::NAN.to_bits()));
    assert!(!float_is_nan(f64::INFINITY.to_bits()));
    assert!(!float_is_nan(1.5f64.to_bits()));
    assert_eq!(to_canonical(&HostValue::Float(NAN_BITS)), Ok(Canonical::Null));
}

#[test]
fn unsupported_kind_fails_without_partial_result() {
    assert_eq!(to_canonical(&HostValue::Other), Err(ConvertError::UnsupportedType));
    let list = HostValue::List(vec![HostValue::Int(1), HostValue::Other]);
    assert_eq!(to_canonical(&list), Err(ConvertError::UnsupportedType));
}

#[test]
fn non_text_key_fails() {
    let dict = HostValue::Dict(vec![(HostValue::Int(1), HostValue::Int(2))]);
    assert_eq!(to_canonical(&dict), Err(ConvertError::UnsupportedType));
}

#[test]
fn duplicate_keys_keep_last_value() {
    let dict = HostValue::Dict(vec![
        (text("a"), HostValue::Int(1)),
        (text("b"), HostValue::Int(2)),
        (text("a"), HostValue::Int(3)),
    ]);
    assert_eq!(
        to_canonical(&dict),
        Ok(Canonical::Object(vec![
            ("a".to_string(), Canonical::Integer(3)),
            ("b".to_string(), Canonical::Integer(2)),
        ]))
    );
}

#[test]
fn nested_values_round_trip() {
    let host = HostValue::Dict(vec![
        (text("list"), HostValue::List(vec![HostValue::Nil, HostValue::Bool(false), text("x")])),
        (text("n"), HostValue::Float(ONE_AND_HALF_BITS)),
        (text("empty"), HostValue::Dict(vec![])),
    ]);
    let canonical = to_canonical(&host).unwrap();
    assert_eq!(from_canonical(&canonical), host);
}

#[test]
fn opaque_kinds_render_as_text() {
    let ts = Canonical::Timestamp("2024-01-01T00:00:00Z".to_string());
    assert_eq!(from_canonical(&ts), text("2024-01-01T00:00:00Z"));
    assert_eq!(from_canonical(&Canonical::Regex("^a+$".to_string())), text("^a+$"));
    assert_eq!(from_canonical(&Canonical::Bytes("b".to_string())), text("b"));
}

#[test]
fn round_trip_collapses_repeated_keys() {
    let host = HostValue::Dict(vec![
        (text("k"), HostValue::Int(1)),
        (text("k"), HostValue::Float(NAN_BITS)),
    ]);
    let back = from_canonical(&to_canonical(&host).unwrap());
    assert_eq!(back, HostValue::Dict(vec![(text("k"), HostValue::Nil)]));
}
