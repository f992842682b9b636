use tagged_values::data::ComplexData;
use tagged_values::data::ComplexDataParseError;
use tagged_values::data::Payload;

#[test]
fn parses_integer_with_fresh_counter() {
    let d = ComplexData::from_str("Integer: 42").unwrap();
    assert!(matches!(d.payload, Payload::Integer(42)));
    assert_eq!(d.shared_state.counter, 0);
    assert_eq!(d.to_display_string(), "Integer: 42");
}

#[test]
fn parses_negative_and_signed_integers() {
    let d = ComplexData::from_str("Integer: -2147483648").unwrap();
    assert!(matches!(d.payload, Payload::Integer(-2147483648)));
    assert_eq!(d.to_display_string(), "Integer: -2147483648");
    let d = ComplexData::from_str("Integer: +7").unwrap();
    assert!(matches!(d.payload, Payload::Integer(7)));
    assert_eq!(d.to_display_string(), "Integer: 7");
    let d = ComplexData::from_str("Integer: 007").unwrap();
    assert!(matches!(d.payload, Payload::Integer(7)));
    assert_eq!(d.to_display_string(), "Integer: 7");
}

#[test]
fn rejects_out_of_range_or_malformed_integers() {
    assert_eq!(
        ComplexData::from_str("Integer: 2147483648").unwrap_err(),
        ComplexDataParseError::InvalidInteger
    );
    assert_eq!(
        ComplexData::from_str("Integer: abc").unwrap_err(),
        ComplexDataParseError::InvalidInteger
    );
    assert_eq!(
        ComplexData::from_str("Integer: ").unwrap_err(),
        ComplexDataParseError::InvalidInteger
    );
    assert_eq!(
        ComplexData::from_str("Integer: 4 2").unwrap_err(),
        ComplexDataParseError::InvalidInteger
    );
}

#[test]
fn parses_float_to_canonical_form() {
    let d = ComplexData::from_str("Float: 3.14").unwrap();
    assert!(matches!(d.payload, Payload::Float(_)));
    assert_eq!(d.to_display_string(), "Float: 3.14");
    // The canonical form is the shortest text that reads back the same,
    // so a redundant trailing digit does not survive the round trip.
    let d = ComplexData::from_str("Float: 3.140").unwrap();
    assert_eq!(d.to_display_string(), "Float: 3.14");
}

#[test]
fn rejects_malformed_float() {
    assert_eq!(
        ComplexData::from_str("Float: abc").unwrap_err(),
        ComplexDataParseError::InvalidFloat
    );
}

#[test]
fn parses_text_verbatim() {
    let d = ComplexData::from_str("Text: Hello").unwrap();
    assert!(matches!(&d.payload, Payload::Text(t) if t == "Hello"));
    assert_eq!(d.to_display_string(), "Text: Hello");
    // The remainder is taken as it stands, even when it looks like JSON.
    let d = ComplexData::from_str("Text: [1, 2]").unwrap();
    assert_eq!(d.to_display_string(), "Text: [1, 2]");
}

#[test]
fn parses_slice_of_strings() {
    let d = ComplexData::from_str("Slice of Strings: [\"one\",\"two\",\"three\"]").unwrap();
    match &d.payload {
        Payload::SliceOfStrings(xs) => {
            assert_eq!(xs.len(), 3);
            assert_eq!(xs[0], "one");
            assert_eq!(xs[1], "two");
            assert_eq!(xs[2], "three");
        }
        _ => panic!("wrong variant"),
    }
    assert_eq!(
        d.to_display_string(),
        "Slice of Strings: [\"one\", \"two\", \"three\"]"
    );
}

#[test]
fn rejects_malformed_slice_of_strings() {
    assert_eq!(
        ComplexData::from_str("Slice of Strings: [\"one\",\"two\"").unwrap_err(),
        ComplexDataParseError::InvalidSliceOfStrings
    );
    assert_eq!(
        ComplexData::from_str("Slice of Strings: [1, 2]").unwrap_err(),
        ComplexDataParseError::InvalidSliceOfStrings
    );
}

#[test]
fn quotes_and_escapes_string_elements() {
    let d = ComplexData::from_str("Slice of Strings: [\"a\\\"b\"]").unwrap();
    assert_eq!(d.to_display_string(), "Slice of Strings: [\"a\\\"b\"]");
}

#[test]
fn parses_integer_array() {
    let d = ComplexData::from_str("Array: [1, 2, 3]").unwrap();
    match &d.payload {
        Payload::Array(ns) => assert_eq!(ns, &vec![1, 2, 3]),
        _ => panic!("wrong variant"),
    }
    assert_eq!(d.to_display_string(), "Array: [1, 2, 3]");
    // Rendering normalizes the spacing of the original input.
    let d = ComplexData::from_str("Array: [1,2,3]").unwrap();
    assert_eq!(d.to_display_string(), "Array: [1, 2, 3]");
}

#[test]
fn rejects_malformed_integer_array() {
    assert_eq!(
        ComplexData::from_str("Array: [1, \"two\"]").unwrap_err(),
        ComplexDataParseError::InvalidArray
    );
    assert_eq!(
        ComplexData::from_str("Array: not-json").unwrap_err(),
        ComplexDataParseError::InvalidArray
    );
}

#[test]
fn parses_object() {
    let d = ComplexData::from_str("Object: {\"key\": \"value\"}").unwrap();
    assert!(matches!(d.payload, Payload::Object(_)));
    assert_eq!(
        d.to_display_string(),
        "Object: Object {\"key\": String(\"value\")}"
    );
}

#[test]
fn rejects_malformed_object() {
    assert_eq!(
        ComplexData::from_str("Object: not-json").unwrap_err(),
        ComplexDataParseError::InvalidObject
    );
}

#[test]
fn parses_array_of_objects() {
    let d = ComplexData::from_str(
        "Array of Objects: [{\"name\": \"Alice\"}, {\"name\": \"Bob\"}]",
    )
    .unwrap();
    match &d.payload {
        Payload::ArrayOfObjects(ts) => assert_eq!(ts.len(), 2),
        _ => panic!("wrong variant"),
    }
    assert_eq!(
        d.to_display_string(),
        "Array of Objects: [Object {\"name\": String(\"Alice\")}, Object {\"name\": String(\"Bob\")}]"
    );
}

#[test]
fn rejects_malformed_array_of_objects() {
    assert_eq!(
        ComplexData::from_str("Array of Objects: {\"a\": 1}").unwrap_err(),
        ComplexDataParseError::InvalidArrayOfObjects
    );
}

#[test]
fn rejects_unknown_tag() {
    assert_eq!(
        ComplexData::from_str("Bogus: hello").unwrap_err(),
        ComplexDataParseError::InvalidFormat
    );
    assert_eq!(
        ComplexData::from_str("").unwrap_err(),
        ComplexDataParseError::InvalidFormat
    );
    // Tags are case-sensitive and need the trailing space.
    assert_eq!(
        ComplexData::from_str("integer: 42").unwrap_err(),
        ComplexDataParseError::InvalidFormat
    );
    assert_eq!(
        ComplexData::from_str("Integer:42").unwrap_err(),
        ComplexDataParseError::InvalidFormat
    );
}

#[test]
fn round_trips_all_seven_valid_inputs() {
    let cases = [
        ("Integer: 42", "Integer: 42"),
        ("Float: 3.14", "Float: 3.14"),
        ("Text: Hello", "Text: Hello"),
        (
            "Slice of Strings: [\"one\", \"two\", \"three\"]",
            "Slice of Strings: [\"one\", \"two\", \"three\"]",
        ),
        ("Array: [1, 2, 3]", "Array: [1, 2, 3]"),
        (
            "Object: {\"key\": \"value\"}",
            "Object: Object {\"key\": String(\"value\")}",
        ),
        (
            "Array of Objects: [{\"name\": \"Alice\"}, {\"name\": \"Bob\"}]",
            "Array of Objects: [Object {\"name\": String(\"Alice\")}, Object {\"name\": String(\"Bob\")}]",
        ),
    ];
    for (input, expected) in cases {
        let d = ComplexData::from_str(input).unwrap();
        assert_eq!(d.shared_state.counter, 0);
        assert_eq!(d.to_display_string(), expected);
    }
}

#[test]
fn error_messages_are_fixed_sentences() {
    assert_eq!(
        ComplexDataParseError::InvalidInteger.message(),
        "Invalid Integer format"
    );
    assert_eq!(
        ComplexDataParseError::InvalidFloat.message(),
        "Invalid Float format"
    );
    assert_eq!(
        ComplexDataParseError::InvalidText.message(),
        "Invalid Text format"
    );
    assert_eq!(
        ComplexDataParseError::InvalidSliceOfStrings.message(),
        "Invalid Slice of Strings format"
    );
    assert_eq!(
        ComplexDataParseError::InvalidArray.message(),
        "Invalid Array format"
    );
    assert_eq!(
        ComplexDataParseError::InvalidObject.message(),
        "Invalid Object format"
    );
    assert_eq!(
        ComplexDataParseError::InvalidArrayOfObjects.message(),
        "Invalid Array of Objects format"
    );
    assert_eq!(
        ComplexDataParseError::InvalidFormat.message(),
        "Invalid format"
    );
}
