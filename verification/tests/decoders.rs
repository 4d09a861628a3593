use gamestate::date::{Date, Era};
use gamestate::decoders::{decode_scalar, decode_text, parse_bool};
use gamestate::error::FieldErrorKind;
use gamestate::number::{Decimal, Transform};
use gamestate::schema::{Hint, RecordDescriptor};
use gamestate::value::Value;

#[test]
fn yes_and_no_are_the_truth_values() {
    assert_eq!(parse_bool(b"yes"), Some(true));
    assert_eq!(parse_bool(b"no"), Some(false));
    for raw in [&b""[..], b"y", b"n", b"Yes", b"NO", b"true", b"false", b"1", b"0", b"yes ", b"noo"] {
        assert_eq!(parse_bool(raw), None, "{:?}", raw);
    }
}

#[test]
fn text_is_read_without_trailing_space_and_escapes() {
    assert_eq!(decode_text(b"tired"), "tired");
    assert_eq!(decode_text(b""), "");
    assert_eq!(decode_text(b"Common Sense"), "Common Sense");
    assert_eq!(decode_text(b"new\n"), "new");
    assert_eq!(decode_text(b"1444.11.11 \t\r\n"), "1444.11.11");
    assert_eq!(decode_text(br#"Captain \"Joe\" Rogers"#), r#"Captain "Joe" Rogers"#);
    assert_eq!(decode_text(b"J\xc3\xa5hk\xc3\xa5m\xc3\xa5hkke"), "J\u{e5}hk\u{e5}m\u{e5}hkke");
    assert_eq!(decode_text(b"Joe\xffcheeze"), "Joe\u{fffd}cheeze");
}

#[test]
fn a_number_hint_reads_the_number_as_written() {
    assert_eq!(
        decode_scalar(b"1500", &Hint::Number, Era::Negative),
        Ok(Value::Number(Decimal { mantissa: 1500, scale: 0 }))
    );
    assert_eq!(
        decode_scalar(b"-0.25", &Hint::Number, Era::Negative),
        Ok(Value::Number(Decimal { mantissa: -25, scale: 2 }))
    );
    assert_eq!(
        decode_scalar(b"tired", &Hint::Number, Era::Negative),
        Err(FieldErrorKind::TypeMismatch)
    );
}

#[test]
fn a_reencoded_hint_applies_its_transform_and_no_other_hint_does() {
    let hundredth = Hint::Reencoded(Transform::times(1, 2));
    assert_eq!(
        decode_scalar(b"1500", &hundredth, Era::Negative),
        Ok(Value::Number(Decimal { mantissa: 1500, scale: 2 }))
    );
    assert_eq!(
        decode_scalar(b"1500", &Hint::Number, Era::Negative),
        Ok(Value::Number(Decimal { mantissa: 1500, scale: 0 }))
    );
    let thousand = Hint::Reencoded(Transform::times(1000, 0));
    assert_eq!(
        decode_scalar(b"1.5", &thousand, Era::Negative),
        Ok(Value::Number(Decimal { mantissa: 15000, scale: 1 }))
    );
    assert_eq!(
        decode_scalar(b"gold", &hundredth, Era::Negative),
        Err(FieldErrorKind::TypeMismatch)
    );
}

#[test]
fn a_transform_that_cannot_hold_the_number_is_a_transform_error() {
    let hundredth = Hint::Reencoded(Transform::times(1, 2));
    assert_eq!(
        decode_scalar(b"0.00000000000000001", &hundredth, Era::Negative),
        Err(FieldErrorKind::TransformError)
    );
    let huge = Hint::Reencoded(Transform::times(1_000_000_000_000, 0));
    assert_eq!(
        decode_scalar(b"10000000", &huge, Era::Negative),
        Err(FieldErrorKind::TransformError)
    );
    assert_eq!(
        decode_scalar(b"1000000", &huge, Era::Negative),
        Ok(Value::Number(Decimal { mantissa: 1_000_000_000_000_000_000, scale: 0 }))
    );
}

#[test]
fn text_bool_and_date_hints_read_their_kinds() {
    assert_eq!(
        decode_scalar(b"happy\n", &Hint::Text, Era::Negative),
        Ok(Value::Text("happy".to_string()))
    );
    assert_eq!(decode_scalar(b"1500", &Hint::Text, Era::Negative), Ok(Value::Text("1500".to_string())));
    assert_eq!(decode_scalar(b"yes", &Hint::Boolean, Era::Negative), Ok(Value::Bool(true)));
    assert_eq!(decode_scalar(b"no", &Hint::Boolean, Era::Negative), Ok(Value::Bool(false)));
    assert_eq!(
        decode_scalar(b"maybe", &Hint::Boolean, Era::Negative),
        Err(FieldErrorKind::TypeMismatch)
    );
    assert_eq!(
        decode_scalar(b"1200.3.1", &Hint::Date, Era::Negative),
        Ok(Value::Date(Date { year: 1200, month: 3, day: 1 }))
    );
    assert_eq!(
        decode_scalar(b"6200.3.1", &Hint::Date, Era::Offset),
        Ok(Value::Date(Date { year: 1200, month: 3, day: 1 }))
    );
    assert_eq!(
        decode_scalar(b"1200.3", &Hint::Date, Era::Negative),
        Err(FieldErrorKind::MalformedDate)
    );
    assert_eq!(
        decode_scalar(b"1200.2.30", &Hint::Date, Era::Negative),
        Err(FieldErrorKind::MalformedDate)
    );
}

#[test]
fn a_scalar_fits_no_hint_for_a_record_or_an_array() {
    let nested = Hint::Nested(RecordDescriptor { name: "Empty".to_string(), fields: vec![] });
    assert_eq!(decode_scalar(b"1", &nested, Era::Negative), Err(FieldErrorKind::TypeMismatch));
    let list = Hint::List(Box::new(Hint::Number));
    assert_eq!(decode_scalar(b"1", &list, Era::Negative), Err(FieldErrorKind::TypeMismatch));
}
