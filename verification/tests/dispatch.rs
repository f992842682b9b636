use tagged_values::container::Container;
use tagged_values::container::DataItem;
use tagged_values::counter::SharedState;
use tagged_values::data::ComplexData;

#[test]
fn shared_counter_starts_at_zero_and_counts_up() {
    let mut c = SharedState::new();
    assert_eq!(c.read(), 0);
    assert_eq!(c.increment(), 1);
    assert_eq!(c.increment(), 2);
    assert_eq!(c.read(), 2);
}

#[test]
fn bumping_value_backed_item_n_times_yields_n() {
    let d = ComplexData::from_str("Integer: 42").unwrap();
    let mut container = Container::new(DataItem::Complex(d));
    for n in 1..=5usize {
        assert_eq!(container.increment_shared_counter(), Some(n));
    }
    match &container.data {
        DataItem::Complex(c) => assert_eq!(c.shared_state.counter, 5),
        DataItem::Plain(_) => panic!("wrong variant"),
    }
}

#[test]
fn bumping_plain_text_item_is_a_no_op() {
    let mut container = Container::new(DataItem::Plain(String::from("Hello")));
    for _ in 0..5 {
        assert_eq!(container.increment_shared_counter(), None);
    }
    assert_eq!(container.print_data(), "Hello");
    assert_eq!(container.process_data(), "Processing String: Hello");
}

#[test]
fn type_identity_check_recognizes_every_variant() {
    let inputs = [
        "Integer: 42",
        "Float: 3.14",
        "Text: Hello",
        "Slice of Strings: [\"one\", \"two\", \"three\"]",
        "Array: [1, 2, 3]",
        "Object: {\"key\": \"value\"}",
        "Array of Objects: [{\"name\": \"Alice\"}, {\"name\": \"Bob\"}]",
    ];
    for input in inputs {
        let d = ComplexData::from_str(input).unwrap();
        let item = DataItem::Complex(d);
        assert!(item.is_complex());
        let mut container = Container::new(item);
        // The bump is performed and the fresh counter reads one.
        assert_eq!(container.increment_shared_counter(), Some(1));
    }
    let plain = DataItem::Plain(String::from("just text"));
    assert!(!plain.is_complex());
    let mut container = Container::new(plain);
    assert_eq!(container.increment_shared_counter(), None);
}

#[test]
fn container_forwards_process_and_print_for_values() {
    let d = ComplexData::from_str("Array: [1, 2, 3]").unwrap();
    let container = Container::new(DataItem::Complex(d));
    assert_eq!(container.process_data(), "Array: [1, 2, 3]");
    assert_eq!(container.print_data(), "Array: [1, 2, 3]");
}

#[test]
fn value_counter_bumps_directly() {
    let mut d = ComplexData::from_str("Text: Hello").unwrap();
    assert_eq!(d.increment_shared_counter(), 1);
    assert_eq!(d.increment_shared_counter(), 2);
    // The payload is untouched by the bumps.
    assert_eq!(d.to_display_string(), "Text: Hello");
}
