//! The value typing engine: the ordered pattern list, the typed accessors
//! and their error behaviour, in both quote dialects.

use vicar::pvl::{Error, Value, ValueType};
use vicar::ValueType as ResolverValueType;

#[test]
fn bitmask_fragment_infers_bitmask() {
    assert_eq!(Value::new("2#1011#").value_type(), ValueType::BitMask);
    assert_eq!(Value::new("#0#").value_type(), ValueType::BitMask);
    assert_eq!(Value::new("2#1011#1").value_type(), ValueType::Undetermined);
}

#[test]
fn quoted_true_infers_bool() {
    assert_eq!(Value::new("\"TRUE\"").value_type(), ValueType::Bool);
    assert_eq!(Value::new("\"FALSE\"").value_type(), ValueType::Bool);
    assert_eq!(Value::new("\"MAYBE\"").value_type(), ValueType::String);
}

#[test]
fn bare_identifier_infers_flag() {
    assert_eq!(Value::new("FOO123").value_type(), ValueType::Flag);
    assert_eq!(Value::new("_NAME").value_type(), ValueType::Flag);
    assert_eq!(Value::new("A_1B").value_type(), ValueType::Flag);
    assert_eq!(Value::new("A1_B").value_type(), ValueType::Undetermined);
}

#[test]
fn numeric_fragments_infer_by_shape() {
    assert_eq!(Value::new("42").value_type(), ValueType::Integer);
    assert_eq!(Value::new("+42").value_type(), ValueType::Integer);
    assert_eq!(Value::new("-42").value_type(), ValueType::Integer);
    assert_eq!(Value::new("1A").value_type(), ValueType::Undetermined);
    assert_eq!(Value::new("5KM").value_type(), ValueType::Undetermined);
    assert_eq!(Value::new("12#").value_type(), ValueType::Undetermined);
    assert_eq!(Value::new("1,2").value_type(), ValueType::Integer);
    assert_eq!(Value::new("3.5").value_type(), ValueType::Float);
    assert_eq!(Value::new("-3.5").value_type(), ValueType::Float);
    assert_eq!(Value::new("3.").value_type(), ValueType::Integer);
    assert_eq!(Value::new("").value_type(), ValueType::Undetermined);
    assert_eq!(Value::new(" 42").value_type(), ValueType::Undetermined);
}

#[test]
fn parenthesized_fragment_infers_array() {
    assert_eq!(Value::new("(1,2,3)").value_type(), ValueType::Array);
    assert_eq!(Value::new("()").value_type(), ValueType::Array);
    assert_eq!(Value::new("(1,2,3").value_type(), ValueType::Undetermined);
}

#[test]
fn type_inference_is_deterministic() {
    let a = Value::new("2#1011#");
    let b = Value::new("2#1011#");
    assert_eq!(a.value_type(), b.value_type());
    assert_eq!(a.raw_text(), b.raw_text());
}

#[test]
fn parse_array_splits_flat_on_commas() {
    let v = Value::new("(1,2,3)");
    let items = v.parse_array().unwrap();
    assert_eq!(items.len(), 3);
    assert_eq!(items[0].value_type(), ValueType::Integer);
    assert_eq!(items[0].parse_i32().unwrap(), 1);
    assert_eq!(items[1].parse_i32().unwrap(), 2);
    assert_eq!(items[2].parse_i32().unwrap(), 3);
}

#[test]
fn parse_array_rejects_non_array() {
    let v = Value::new("1,2,3");
    assert!(matches!(v.parse_array(), Err(Error::InvalidType)));
}

#[test]
fn typed_accessors_gate_on_inferred_type() {
    assert_eq!(Value::new("200").parse_u8().unwrap(), 200);
    assert!(matches!(Value::new("300").parse_u8(), Err(Error::ValueTypeParseError)));
    assert!(matches!(Value::new("\"X\"").parse_u8(), Err(Error::InvalidType)));
    assert_eq!(Value::new("-42").parse_i32().unwrap(), -42);
    assert!(matches!(Value::new("-42").parse_u32(), Err(Error::ValueTypeParseError)));
    assert_eq!(Value::new("-128").parse_i8().unwrap(), -128);
    assert!(matches!(Value::new("-129").parse_i8(), Err(Error::ValueTypeParseError)));
    assert_eq!(Value::new("18446744073709551615").parse_u64().unwrap(), u64::MAX);
    assert!(matches!(
        Value::new("18446744073709551616").parse_u64(),
        Err(Error::ValueTypeParseError)
    ));
}

#[test]
fn parse_string_strips_surrounding_quotes_only() {
    assert_eq!(Value::new("\"EXTENDED SURFACE MISSION\"").parse_string().unwrap(),
        "EXTENDED SURFACE MISSION");
    assert_eq!(Value::new("\"A\"B\"").parse_string().unwrap(), "A\"B");
    assert!(matches!(Value::new("42").parse_string(), Err(Error::InvalidType)));
}

#[test]
fn parse_flag_returns_raw_identifier() {
    assert_eq!(Value::new("BSQ").parse_flag().unwrap(), "BSQ");
    assert!(matches!(Value::new("\"BSQ\"").parse_flag(), Err(Error::InvalidType)));
}

#[test]
fn parse_bool_wants_lowercase_bare_text() {
    // a quoted TRUE is Bool by inference but never the text `true`, so the
    // accessor reports a parse failure; a bare `true` is a Flag instead
    assert!(matches!(Value::new("\"TRUE\"").parse_bool(), Err(Error::ValueTypeParseError)));
    assert!(matches!(Value::new("true").parse_bool(), Err(Error::InvalidType)));
}

#[test]
fn single_quotes_count_in_the_resolver_dialect() {
    assert_eq!(vicar::Value::new("'IMAGE'").value_type(), ResolverValueType::String);
    assert_eq!(vicar::Value::new("'TRUE'").value_type(), ResolverValueType::Bool);
    assert_eq!(vicar::Value::new("'IMAGE'").parse_string().unwrap(), "IMAGE");
    // the PVL dialect leaves single quotes alone
    assert_eq!(Value::new("'IMAGE'").value_type(), ValueType::Undetermined);
}
