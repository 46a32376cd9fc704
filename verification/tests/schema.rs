use serde_arrow::error::{fail, Error, ErrorKind};
use serde_arrow::schema::{
    have_unique_names, GenericDataType, GenericField, Strategy, STRATEGY_KEY,
};
use serde_arrow::text::{decimal, find_name};

#[test]
fn strategies_are_read_back_from_their_names() {
    let strategies = [
        (Strategy::UtcStrAsDate64, "UtcStrAsDate64"),
        (Strategy::NaiveStrAsDate64, "NaiveStrAsDate64"),
        (Strategy::MapAsStruct, "MapAsStruct"),
        (Strategy::TupleAsStruct, "TupleAsStruct"),
        (Strategy::UnknownVariant, "UnknownVariant"),
    ];
    for (strategy, name) in strategies {
        assert_eq!(strategy.name(), name);
        assert_eq!(Strategy::from_str(name).unwrap(), strategy);
        assert_eq!(Strategy::from_str(strategy.name()).unwrap(), strategy);
    }
    assert_eq!(STRATEGY_KEY, "SERDE_ARROW:strategy");
}

#[test]
fn date_strategies_are_read_from_both_of_their_names() {
    assert_eq!(Strategy::from_str("UtcDateTimeStr").unwrap(), Strategy::UtcStrAsDate64);
    assert_eq!(Strategy::from_str("NaiveDateTimeStr").unwrap(), Strategy::NaiveStrAsDate64);
    assert_eq!(Strategy::UtcStrAsDate64.name(), "UtcStrAsDate64");
    assert_eq!(Strategy::NaiveStrAsDate64.name(), "NaiveStrAsDate64");
    for name in ["UtcDateTime", "DateTimeStr", "NaiveDateTimeStr64", "MapDateTimeStr"] {
        assert_eq!(Strategy::from_str(name).unwrap_err().kind, ErrorKind::Strategy);
    }
}

#[test]
fn have_unique_names_compares_every_pair() {
    let field = |name: &str| GenericField::new(name, GenericDataType::U8, false);
    assert!(have_unique_names(&[]));
    assert!(have_unique_names(&[field("a")]));
    assert!(have_unique_names(&[field("a"), field("b"), field("c")]));
    assert!(!have_unique_names(&[field("a"), field("b"), field("a")]));
    assert!(!have_unique_names(&[field("b"), field("a"), field("a")]));
    assert!(!have_unique_names(&[field(""), field("")]));
}

#[test]
fn unknown_strategies_are_rejected() {
    for name in ["", "utcstrasdate64", "UtcStrAsDate64 ", "Unknown", "MapAsStructs"] {
        let error = Strategy::from_str(name).unwrap_err();
        assert_eq!(error.kind, ErrorKind::Strategy);
    }
}

#[test]
fn errors_carry_their_kind_and_message() {
    let error = Error::new(ErrorKind::Compile, "message");
    assert_eq!(error.kind, ErrorKind::Compile);
    assert_eq!(error.message(), "message");
    let failed: Result<u8, Error> = fail(ErrorKind::Trace, "failed");
    assert_eq!(failed, Err(Error { kind: ErrorKind::Trace, message: "failed".to_string() }));
}

#[test]
fn fields_are_built_step_by_step() {
    let field = GenericField::new("root", GenericDataType::Struct, true)
        .with_strategy(Strategy::MapAsStruct)
        .with_child(GenericField::new("a", GenericDataType::U8, false));
    assert_eq!(field.name, "root");
    assert_eq!(field.data_type, GenericDataType::Struct);
    assert!(field.nullable);
    assert_eq!(field.strategy, Some(Strategy::MapAsStruct));
    assert_eq!(field.children.len(), 1);
    assert_eq!(field.children[0], GenericField::new("a", GenericDataType::U8, false));
    assert_eq!(field.clone(), field);
}

#[test]
fn data_types_by_kind() {
    assert!(GenericDataType::I8.has_integer_type());
    assert!(GenericDataType::U64.has_integer_type());
    assert!(!GenericDataType::F32.has_integer_type());
    assert!(!GenericDataType::Bool.has_integer_type());
    assert!(GenericDataType::Utf8.has_string_type());
    assert!(GenericDataType::LargeUtf8.has_string_type());
    assert!(!GenericDataType::Dictionary.has_string_type());
    assert!(GenericDataType::Union.has_nested_type());
    assert!(GenericDataType::KeyValueMap.has_nested_type());
    assert!(!GenericDataType::Date64.has_nested_type());
}

#[test]
fn validate_primitives_have_no_children() {
    assert!(GenericField::new("a", GenericDataType::U8, false).validate().is_ok());
    let field = GenericField::new("a", GenericDataType::U8, false)
        .with_child(GenericField::new("b", GenericDataType::U8, false));
    assert_eq!(field.validate().unwrap_err().kind, ErrorKind::Schema);
    assert!(!field.has_valid_shape());
}

#[test]
fn validate_lists_have_one_child() {
    for data_type in [GenericDataType::List, GenericDataType::LargeList] {
        let empty = GenericField::new("l", data_type, false);
        assert!(empty.validate().is_err());
        let one = empty.clone().with_child(GenericField::new("e", GenericDataType::U8, false));
        assert!(one.validate().is_ok());
        let two = one.clone().with_child(GenericField::new("f", GenericDataType::U8, false));
        assert!(two.validate().is_err());
    }
}

#[test]
fn validate_struct_names_are_unique() {
    let field = GenericField::new("s", GenericDataType::Struct, false)
        .with_child(GenericField::new("a", GenericDataType::U8, false))
        .with_child(GenericField::new("b", GenericDataType::U8, false));
    assert!(field.has_unique_child_names());
    assert!(field.validate().is_ok());
    let field = field.with_child(GenericField::new("a", GenericDataType::I8, false));
    assert!(!field.has_unique_child_names());
    assert!(field.validate().is_err());
    assert!(GenericField::new("s", GenericDataType::Struct, false).validate().is_ok());
}

#[test]
fn validate_maps_have_entries_of_key_and_value() {
    let entries = GenericField::new("entries", GenericDataType::Struct, false)
        .with_child(GenericField::new("key", GenericDataType::Utf8, false))
        .with_child(GenericField::new("value", GenericDataType::U8, false));
    let field = GenericField::new("m", GenericDataType::KeyValueMap, false).with_child(entries);
    assert!(field.has_map_shape());
    assert!(field.validate_map().is_ok());
    assert!(field.validate().is_ok());

    let field = GenericField::new("m", GenericDataType::KeyValueMap, false)
        .with_child(GenericField::new("entries", GenericDataType::Struct, false));
    assert!(!field.has_map_shape());
    assert_eq!(field.validate_map().unwrap_err().kind, ErrorKind::Schema);
    assert!(field.validate().is_err());
}

#[test]
fn validate_dictionaries_have_integer_keys_and_string_values() {
    let field = GenericField::new("d", GenericDataType::Dictionary, false)
        .with_child(GenericField::new("key", GenericDataType::U16, false))
        .with_child(GenericField::new("value", GenericDataType::Utf8, false));
    assert!(field.validate().is_ok());
    let field = GenericField::new("d", GenericDataType::Dictionary, false)
        .with_child(GenericField::new("key", GenericDataType::F32, false))
        .with_child(GenericField::new("value", GenericDataType::Utf8, false));
    assert!(field.validate().is_err());
    let field = GenericField::new("d", GenericDataType::Dictionary, false)
        .with_child(GenericField::new("key", GenericDataType::U16, false));
    assert!(field.validate().is_err());
}

#[test]
fn validate_looks_into_children() {
    let bad = GenericField::new("l", GenericDataType::List, false);
    let field = GenericField::new("u", GenericDataType::Union, false)
        .with_child(GenericField::new("a", GenericDataType::U8, false))
        .with_child(bad);
    assert!(field.has_valid_shape());
    assert!(field.validate().is_err());
}

#[test]
fn numbers_are_written_in_decimal() {
    assert_eq!(decimal(0), "0");
    assert_eq!(decimal(7), "7");
    assert_eq!(decimal(10), "10");
    assert_eq!(decimal(1203), "1203");
    assert_eq!(decimal(usize::MAX), usize::MAX.to_string());
}

#[test]
fn names_are_found_at_their_first_position() {
    let names = vec!["a".to_string(), "b".to_string(), "a".to_string()];
    assert_eq!(find_name(&names, "a"), Some(0));
    assert_eq!(find_name(&names, "b"), Some(1));
    assert_eq!(find_name(&names, "c"), None);
    assert_eq!(find_name(&names, ""), None);
}
