//! The four coercions of tagged values, and lookup by tag.

use e3dc_mqtt_rs::e3dc::lookup::{
    any_to_items, find_item, find_item_data, get_bool, get_container, get_integer, get_items,
    get_number, get_string,
};
use e3dc_mqtt_rs::e3dc::value::{any_to_bool, any_to_f64, any_to_string, any_to_u64};
use e3dc_mqtt_rs::e3dc::{DynamicValue, TaggedItem};
use e3dc_mqtt_rs::errors::E3dcError;
use e3dc_mqtt_rs::float::{Float32, Float64};

fn double(value: f64) -> DynamicValue {
    DynamicValue::Float64(Float64::from_bits(value.to_bits()))
}

fn single(value: f32) -> DynamicValue {
    DynamicValue::Float32(Float32::from_bits(value.to_bits()))
}

fn text(value: &str) -> DynamicValue {
    DynamicValue::Text(value.to_string())
}

fn item(tag: u32, value: DynamicValue) -> TaggedItem {
    TaggedItem { tag, value: Some(value) }
}

fn type_error(r: Result<impl std::fmt::Debug, E3dcError>) -> String {
    match r {
        Err(E3dcError::Type(message)) => message,
        other => panic!("expected a type error, got {:?}", other),
    }
}

fn as_f64(value: &DynamicValue) -> f64 {
    f64::from_bits(any_to_f64(value).unwrap().bits)
}

fn every_kind() -> Vec<DynamicValue> {
    vec![
        DynamicValue::Bool(true),
        DynamicValue::Int8(-8),
        DynamicValue::UInt8(8),
        DynamicValue::Int16(-16),
        DynamicValue::UInt16(16),
        DynamicValue::Int32(-32),
        DynamicValue::UInt32(32),
        DynamicValue::Int64(-64),
        DynamicValue::UInt64(64),
        single(1.5),
        double(2.5),
        text("seven"),
        DynamicValue::Container(vec![]),
        DynamicValue::Unrecognized,
    ]
}

#[test]
fn every_value_has_one_outcome_for_each_coercion() {
    for value in every_kind() {
        let is_number = !matches!(
            value,
            DynamicValue::Text(_) | DynamicValue::Container(_) | DynamicValue::Unrecognized
        );
        let has_text = !matches!(value, DynamicValue::Container(_) | DynamicValue::Unrecognized);
        assert_eq!(any_to_string(&value).is_ok(), has_text, "{value:?}");
        assert_eq!(any_to_f64(&value).is_ok(), is_number, "{value:?}");
        assert_eq!(any_to_bool(&value).is_ok(), is_number, "{value:?}");
        let negative = matches!(
            value,
            DynamicValue::Int8(_) | DynamicValue::Int16(_) | DynamicValue::Int32(_) | DynamicValue::Int64(_)
        );
        assert_eq!(any_to_u64(&value).is_ok(), is_number && !negative, "{value:?}");
        // The same value gives the same outcome again.
        assert_eq!(
            format!("{:?}", any_to_u64(&value)),
            format!("{:?}", any_to_u64(&value))
        );
    }
}

#[test]
fn values_read_as_text() {
    assert_eq!(any_to_string(&DynamicValue::Bool(true)).unwrap(), "true");
    assert_eq!(any_to_string(&DynamicValue::Bool(false)).unwrap(), "false");
    assert_eq!(any_to_string(&DynamicValue::Int8(-128)).unwrap(), "-128");
    assert_eq!(any_to_string(&DynamicValue::UInt8(255)).unwrap(), "255");
    assert_eq!(any_to_string(&DynamicValue::Int16(-1)).unwrap(), "-1");
    assert_eq!(any_to_string(&DynamicValue::UInt16(0)).unwrap(), "0");
    assert_eq!(any_to_string(&DynamicValue::Int32(i32::MIN)).unwrap(), "-2147483648");
    assert_eq!(any_to_string(&DynamicValue::UInt32(u32::MAX)).unwrap(), "4294967295");
    assert_eq!(any_to_string(&DynamicValue::Int64(i64::MIN)).unwrap(), "-9223372036854775808");
    assert_eq!(any_to_string(&DynamicValue::Int64(i64::MAX)).unwrap(), "9223372036854775807");
    assert_eq!(any_to_string(&DynamicValue::UInt64(u64::MAX)).unwrap(), "18446744073709551615");
    assert_eq!(any_to_string(&DynamicValue::UInt64(10)).unwrap(), "10");
    assert_eq!(any_to_string(&single(1.1)).unwrap(), "1.1");
    assert_eq!(any_to_string(&double(-0.25)).unwrap(), "-0.25");
    assert_eq!(any_to_string(&double(1e21)).unwrap(), 1e21_f64.to_string());
    assert_eq!(any_to_string(&single(f32::MIN_POSITIVE)).unwrap(), f32::MIN_POSITIVE.to_string());
    assert_eq!(any_to_string(&double(f64::NAN)).unwrap(), "NaN");
    assert_eq!(any_to_string(&text("S10-4711")).unwrap(), "S10-4711");
    assert_eq!(
        type_error(any_to_string(&DynamicValue::Container(vec![]))),
        "Cannot convert container to string"
    );
    assert_eq!(
        type_error(any_to_string(&DynamicValue::Unrecognized)),
        "Cannot convert unrecognized value to string"
    );
}

#[test]
fn values_read_as_numbers() {
    assert_eq!(as_f64(&DynamicValue::Bool(true)), 1.0);
    assert_eq!(as_f64(&DynamicValue::Bool(false)), 0.0);
    assert_eq!(as_f64(&DynamicValue::Int8(-128)), -128.0);
    assert_eq!(as_f64(&DynamicValue::UInt8(255)), 255.0);
    assert_eq!(as_f64(&DynamicValue::Int16(-300)), -300.0);
    assert_eq!(as_f64(&DynamicValue::UInt16(65_535)), 65_535.0);
    assert_eq!(as_f64(&DynamicValue::Int32(-2_150)), -2_150.0);
    assert_eq!(as_f64(&DynamicValue::UInt32(u32::MAX)), 4_294_967_295.0);
    assert_eq!(as_f64(&DynamicValue::Int64(i64::MIN)), i64::MIN as f64);
    assert_eq!(as_f64(&DynamicValue::UInt64(u64::MAX)), u64::MAX as f64);
    assert_eq!(as_f64(&single(0.1)), 0.1_f32 as f64);
    assert_eq!(as_f64(&double(0.1)), 0.1);
    assert_eq!(type_error(any_to_f64(&text("1.0"))), "Cannot convert text to f64");
    assert_eq!(
        type_error(any_to_f64(&DynamicValue::Container(vec![]))),
        "Cannot convert container to f64"
    );
}

#[test]
fn values_read_as_unsigned_integers_or_fail_and_never_clamp() {
    assert_eq!(any_to_u64(&DynamicValue::Bool(true)).unwrap(), 1);
    assert_eq!(any_to_u64(&DynamicValue::Bool(false)).unwrap(), 0);
    assert_eq!(any_to_u64(&DynamicValue::Int8(127)).unwrap(), 127);
    assert_eq!(any_to_u64(&DynamicValue::Int8(0)).unwrap(), 0);
    assert_eq!(any_to_u64(&DynamicValue::UInt8(200)).unwrap(), 200);
    assert_eq!(any_to_u64(&DynamicValue::Int16(300)).unwrap(), 300);
    assert_eq!(any_to_u64(&DynamicValue::UInt16(60_000)).unwrap(), 60_000);
    assert_eq!(any_to_u64(&DynamicValue::Int32(70_000)).unwrap(), 70_000);
    assert_eq!(any_to_u64(&DynamicValue::UInt32(u32::MAX)).unwrap(), 4_294_967_295);
    assert_eq!(any_to_u64(&DynamicValue::Int64(i64::MAX)).unwrap(), 9_223_372_036_854_775_807);
    assert_eq!(any_to_u64(&DynamicValue::UInt64(u64::MAX)).unwrap(), u64::MAX);
    assert_eq!(any_to_u64(&single(3.99)).unwrap(), 3);
    assert_eq!(any_to_u64(&double(3.99)).unwrap(), 3);
    assert_eq!(any_to_u64(&double(-0.0)).unwrap(), 0);

    assert_eq!(
        type_error(any_to_u64(&DynamicValue::Int8(-5))),
        "Negative i8 -5 cannot convert to u64"
    );
    assert_eq!(
        type_error(any_to_u64(&DynamicValue::Int16(-1))),
        "Negative i16 -1 cannot convert to u64"
    );
    assert_eq!(
        type_error(any_to_u64(&DynamicValue::Int32(i32::MIN))),
        "Negative i32 -2147483648 cannot convert to u64"
    );
    assert_eq!(
        type_error(any_to_u64(&DynamicValue::Int64(i64::MIN))),
        "Negative i64 -9223372036854775808 cannot convert to u64"
    );
    assert_eq!(type_error(any_to_u64(&double(-1.5))), "Invalid f64 -1.5 for u64");
    assert_eq!(type_error(any_to_u64(&double(f64::NAN))), "Invalid f64 NaN for u64");
    assert_eq!(type_error(any_to_u64(&double(f64::INFINITY))), "Invalid f64 inf for u64");
    assert_eq!(type_error(any_to_u64(&double(1e20))), "Invalid f64 100000000000000000000 for u64");
    assert_eq!(
        type_error(any_to_u64(&double(18_446_744_073_709_551_616.0))),
        "Invalid f64 18446744073709552000 for u64"
    );
    assert_eq!(
        any_to_u64(&double(18_446_744_073_709_549_568.0)).unwrap(),
        18_446_744_073_709_549_568
    );
    assert_eq!(type_error(any_to_u64(&single(18_446_744_073_709_551_616.0))), "Invalid f32 18446744000000000000 for u64");
    assert_eq!(type_error(any_to_u64(&single(-2.0))), "Invalid f32 -2 for u64");
    assert_eq!(type_error(any_to_u64(&single(f32::NEG_INFINITY))), "Invalid f32 -inf for u64");
    assert_eq!(type_error(any_to_u64(&text("12"))), "Cannot convert text to u64");
    assert_eq!(
        type_error(any_to_u64(&DynamicValue::Unrecognized)),
        "Cannot convert unrecognized value to u64"
    );
}

#[test]
fn values_read_as_truth_values() {
    assert!(any_to_bool(&DynamicValue::Bool(true)).unwrap());
    assert!(!any_to_bool(&DynamicValue::Bool(false)).unwrap());
    assert!(any_to_bool(&DynamicValue::Int8(-1)).unwrap());
    assert!(!any_to_bool(&DynamicValue::Int8(0)).unwrap());
    assert!(any_to_bool(&DynamicValue::UInt8(1)).unwrap());
    assert!(any_to_bool(&DynamicValue::Int16(i16::MIN)).unwrap());
    assert!(!any_to_bool(&DynamicValue::UInt16(0)).unwrap());
    assert!(any_to_bool(&DynamicValue::Int32(2)).unwrap());
    assert!(!any_to_bool(&DynamicValue::UInt32(0)).unwrap());
    assert!(any_to_bool(&DynamicValue::Int64(-9)).unwrap());
    assert!(any_to_bool(&DynamicValue::UInt64(u64::MAX)).unwrap());
    assert!(any_to_bool(&double(1e-10)).unwrap());
    assert!(any_to_bool(&double(-1.0)).unwrap());
    assert!(!any_to_bool(&double(0.99e-10)).unwrap());
    assert!(!any_to_bool(&double(0.0)).unwrap());
    assert!(!any_to_bool(&double(f64::NAN)).unwrap());
    assert!(any_to_bool(&double(f64::INFINITY)).unwrap());
    assert!(any_to_bool(&single(1e-10)).unwrap());
    assert!(!any_to_bool(&single(0.5e-10)).unwrap());
    assert!(!any_to_bool(&single(-0.0)).unwrap());
    assert_eq!(type_error(any_to_bool(&text("true"))), "Cannot convert text to bool");
    assert_eq!(
        type_error(any_to_bool(&DynamicValue::Container(vec![]))),
        "Cannot convert container to bool"
    );
}

#[test]
fn lookup_takes_the_first_item_with_the_tag() {
    let items = vec![
        item(1, DynamicValue::UInt8(10)),
        item(2, text("first")),
        item(2, text("second")),
        TaggedItem { tag: 3, value: None },
        item(4, DynamicValue::Container(vec![item(9, DynamicValue::Bool(true))])),
        item(5, double(-2.5)),
    ];
    assert_eq!(find_item(&items, 2).unwrap(), &items[1]);
    assert_eq!(find_item_data(&items, 1).unwrap(), &DynamicValue::UInt8(10));
    assert_eq!(get_string(&items, 2).unwrap(), "first");
    assert_eq!(get_integer(&items, 1).unwrap(), 10);
    assert_eq!(f64::from_bits(get_number(&items, 5).unwrap().bits), -2.5);
    assert!(get_bool(&items, 1).unwrap());

    assert!(matches!(find_item(&items, 7), Err(E3dcError::MissingTag(7))));
    assert!(matches!(find_item(&[], 7), Err(E3dcError::MissingTag(7))));
    assert!(matches!(find_item_data(&items, 3), Err(E3dcError::MissingData(3))));
    assert!(matches!(get_number(&items, 3), Err(E3dcError::MissingData(3))));
    assert!(matches!(get_integer(&items, 8), Err(E3dcError::MissingTag(8))));
    assert!(matches!(get_integer(&items, 5), Err(E3dcError::Type(_))));
}

#[test]
fn children_of_what_is_no_container_are_none() {
    let items = vec![
        item(1, DynamicValue::UInt8(10)),
        TaggedItem { tag: 3, value: None },
        item(4, DynamicValue::Container(vec![item(9, DynamicValue::Bool(true))])),
    ];
    assert_eq!(get_items(&items, 4).unwrap().len(), 1);
    assert_eq!(get_items(&items, 4).unwrap()[0].tag, 9);
    assert!(get_items(&items, 1).unwrap().is_empty());
    assert!(get_items(&items, 3).unwrap().is_empty());
    assert!(matches!(get_items(&items, 2), Err(E3dcError::MissingTag(2))));
    assert!(any_to_items(&None).is_empty());
    assert!(any_to_items(&Some(text("x"))).is_empty());

    assert_eq!(get_container(&items, 4).unwrap().len(), 1);
    assert_eq!(type_error(get_container(&items, 1)), "Cannot convert u8 to container");
    assert!(matches!(get_container(&items, 3), Err(E3dcError::MissingData(3))));
    assert!(matches!(get_container(&items, 2), Err(E3dcError::MissingTag(2))));
}
