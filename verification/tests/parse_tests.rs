use log2vcd::value_change::{ParseValueChangeError, ScalarValue, Value, ValueChange};
use log2vcd::value_change::ScalarValue::{V0, V1, X, Z};

#[test]
fn scalar() {
    let s = "#100 imasignal 1 1";
    let result = ValueChange::from_str(s).unwrap();
    let expected = ValueChange {
        timestamp: 100,
        signal_name: String::from("imasignal"),
        value: Value::Scalar(ScalarValue::V1),
    };
    assert_eq!(expected, result);
}

#[test]
fn scalar2() {
    let s = "#1283075 AFC003.Outputs.D1 1 1";
    let result = ValueChange::from_str(s).unwrap();
    let expected = ValueChange {
        timestamp: 1283075,
        signal_name: String::from("AFC003.Outputs.D1"),
        value: Value::Scalar(ScalarValue::V1),
    };
    assert_eq!(expected, result);
}

#[test]
#[should_panic]
fn invalid_scalar() {
    let s = "#100 imasignal 2 1"; // scalars must be 1 or 0
    let _ = ValueChange::from_str(s).unwrap();
}

#[test]
fn vec8() {
    let s = "#100 signame 11110010 8";
    let result = ValueChange::from_str(s).unwrap();
    assert_eq!(
        Value::BinaryVector { width: 8, value: vec![V1, V1, V1, V1, V0, V0, V1, V0] },
        result.value
    )
}

#[test]
#[should_panic]
fn vec8_value_too_large() {
    let s = "#100 signame 111111111 8"; //value needs 9-bits
    let _ = ValueChange::from_str(s).unwrap();
}

#[test]
fn real_value() {
    let s = "#222 signame 123.4 f";
    let result = ValueChange::from_str(s).unwrap();
    assert_eq!(Value::Real(String::from("123.4")), result.value);
}

#[test]
#[should_panic]
fn value_value_type_mismatch() {
    let s = "#222 signame 123.4 8";
    let _ = ValueChange::from_str(s).unwrap();
}

#[test]
fn vec_too_large_error_kind() {
    let r = ValueChange::from_str("#100 signame 111111111 8");
    assert!(matches!(r, Err(ParseValueChangeError::ValueTooLargeForVecWidth)));
}

#[test]
fn real_with_digit_size_is_invalid_value() {
    let r = ValueChange::from_str("#222 signame 123.4 8");
    assert!(matches!(r, Err(ParseValueChangeError::InvalidValue)));
}

#[test]
fn bad_shape_is_invalid_format() {
    assert!(matches!(
        ValueChange::from_str("hello"),
        Err(ParseValueChangeError::InvalidFormat)
    ));
    assert!(matches!(
        ValueChange::from_str(""),
        Err(ParseValueChangeError::InvalidFormat)
    ));
    assert!(matches!(
        ValueChange::from_str("#100 name 1"),
        Err(ParseValueChangeError::InvalidFormat)
    ));
    assert!(matches!(
        ValueChange::from_str("#100 na/me 1 1"),
        Err(ParseValueChangeError::InvalidFormat)
    ));
    assert!(matches!(
        ValueChange::from_str("100 name 1 1"),
        Err(ParseValueChangeError::InvalidFormat)
    ));
}

#[test]
fn timestamp_overflow_is_timestamp_error() {
    // one more than the largest 64-bit value
    let r = ValueChange::from_str("#18446744073709551616 sig 1 1");
    assert!(matches!(r, Err(ParseValueChangeError::ParseTimestampErr)));
    // the largest 64-bit value itself still parses
    let ok = ValueChange::from_str("#18446744073709551615 sig 1 1").unwrap();
    assert_eq!(ok.timestamp, 18446744073709551615u64);
}

#[test]
fn bad_size_token_is_invalid_value_type() {
    let r = ValueChange::from_str("#1 sig 1 q");
    assert!(matches!(r, Err(ParseValueChangeError::InvalidValueType)));
    let r2 = ValueChange::from_str("#1 sig 1 ff");
    assert!(matches!(r2, Err(ParseValueChangeError::InvalidValueType)));
}

#[test]
fn surrounding_whitespace_is_trimmed() {
    let result = ValueChange::from_str("  #7 sig 0 1 \n").unwrap();
    assert_eq!(result.timestamp, 7);
    assert_eq!(result.value, Value::Scalar(ScalarValue::V0));
}

#[test]
fn scalar_letters_parse_case_insensitively() {
    for (tok, v) in [("x", X), ("X", X), ("z", Z), ("Z", Z), ("0", V0), ("1", V1)] {
        let line = format!("#1 sig {} 1", tok);
        let result = ValueChange::from_str(line.as_str()).unwrap();
        assert_eq!(result.value, Value::Scalar(v));
    }
}

#[test]
fn vector_mixed_digits_and_short_value() {
    let result = ValueChange::from_str("#3 sig 1xZ0 8").unwrap();
    assert_eq!(
        result.value,
        Value::BinaryVector { width: 8, value: vec![V1, X, Z, V0] }
    );
}

#[test]
fn bad_real_literal_is_invalid_value() {
    assert!(matches!(
        ValueChange::from_str("#1 sig 1.2.3 f"),
        Err(ParseValueChangeError::InvalidValue)
    ));
    assert!(matches!(
        ValueChange::from_str("#1 sig xz f"),
        Err(ParseValueChangeError::InvalidValue)
    ));
}

#[test]
fn real_without_fraction_parses() {
    let result = ValueChange::from_str("#1 sig 11 f").unwrap();
    assert_eq!(result.value, Value::Real(String::from("11")));
}

#[test]
fn scalar_value_from_str() {
    assert_eq!(ScalarValue::from_str("0"), Ok(ScalarValue::V0));
    assert_eq!(ScalarValue::from_str("1"), Ok(ScalarValue::V1));
    assert_eq!(ScalarValue::from_str("x"), Ok(ScalarValue::X));
    assert_eq!(ScalarValue::from_str("Z"), Ok(ScalarValue::Z));
    assert_eq!(ScalarValue::from_str("2"), Err(()));
    assert_eq!(ScalarValue::from_str("01"), Err(()));
}
