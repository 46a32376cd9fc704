use serde_arrow::arrow::{find_metadata, DataType, Field, UnionMode};
use serde_arrow::error::ErrorKind;
use serde_arrow::schema::{GenericDataType, GenericField, Strategy, STRATEGY_KEY};

fn arrow(name: &str, data_type: DataType, nullable: bool) -> Field {
    Field::new(name, data_type, nullable)
}

#[test]
fn primitive_data_types() {
    let pairs = [
        (DataType::Boolean, GenericDataType::Bool),
        (DataType::Null, GenericDataType::Null),
        (DataType::Int8, GenericDataType::I8),
        (DataType::Int16, GenericDataType::I16),
        (DataType::Int32, GenericDataType::I32),
        (DataType::Int64, GenericDataType::I64),
        (DataType::UInt8, GenericDataType::U8),
        (DataType::UInt16, GenericDataType::U16),
        (DataType::UInt32, GenericDataType::U32),
        (DataType::UInt64, GenericDataType::U64),
        (DataType::Float16, GenericDataType::F16),
        (DataType::Float32, GenericDataType::F32),
        (DataType::Float64, GenericDataType::F64),
        (DataType::Utf8, GenericDataType::Utf8),
        (DataType::LargeUtf8, GenericDataType::LargeUtf8),
        (DataType::Date64, GenericDataType::Date64),
    ];
    for (arrow_type, generic_type) in pairs {
        assert_eq!(GenericDataType::try_from(&arrow_type).unwrap(), generic_type);
        let field = GenericField::new("f", generic_type, true);
        assert_eq!(Field::try_from(&field).unwrap(), arrow("f", arrow_type, true));
    }
    let error = GenericDataType::try_from(&DataType::Unsupported).unwrap_err();
    assert_eq!(error.kind, ErrorKind::Schema);
    assert!(GenericDataType::try_from(&DataType::Struct(vec![])).is_err());
}

#[test]
fn generic_field_from_nested_arrow_field() {
    let field = arrow(
        "root",
        DataType::Struct(vec![
            arrow("a", DataType::List(Box::new(arrow("element", DataType::UInt8, false))), true),
            arrow(
                "b",
                DataType::LargeList(Box::new(arrow("element", DataType::Utf8, true))),
                false,
            ),
            arrow(
                "c",
                DataType::KeyValueMap(
                    Box::new(arrow(
                        "entries",
                        DataType::Struct(vec![
                            arrow("key", DataType::Utf8, false),
                            arrow("value", DataType::Int8, true),
                        ]),
                        false,
                    )),
                    true,
                ),
                false,
            ),
        ]),
        false,
    );
    let expected = GenericField::new("root", GenericDataType::Struct, false)
        .with_child(
            GenericField::new("a", GenericDataType::List, true)
                .with_child(GenericField::new("element", GenericDataType::U8, false)),
        )
        .with_child(
            GenericField::new("b", GenericDataType::LargeList, false)
                .with_child(GenericField::new("element", GenericDataType::Utf8, true)),
        )
        .with_child(
            GenericField::new("c", GenericDataType::KeyValueMap, false).with_child(
                GenericField::new("entries", GenericDataType::Struct, false)
                    .with_child(GenericField::new("key", GenericDataType::Utf8, false))
                    .with_child(GenericField::new("value", GenericDataType::I8, true)),
            ),
        );
    assert_eq!(GenericField::try_from(&field).unwrap(), expected);
}

#[test]
fn generic_field_with_strategy_from_metadata() {
    let mut field = arrow("date", DataType::Date64, false);
    field.metadata.push(("other".to_string(), "value".to_string()));
    field.metadata.push((STRATEGY_KEY.to_string(), "UtcStrAsDate64".to_string()));
    assert_eq!(
        GenericField::try_from(&field).unwrap(),
        GenericField::new("date", GenericDataType::Date64, false)
            .with_strategy(Strategy::UtcStrAsDate64)
    );
    assert_eq!(find_metadata(&field.metadata, "other"), Some(&"value".to_string()));
    assert_eq!(find_metadata(&field.metadata, "missing"), None);

    let mut field = arrow("date", DataType::Date64, false);
    field.metadata.push((STRATEGY_KEY.to_string(), "UtcDateTimeStr".to_string()));
    assert_eq!(
        GenericField::try_from(&field).unwrap(),
        GenericField::new("date", GenericDataType::Date64, false)
            .with_strategy(Strategy::UtcStrAsDate64)
    );

    let mut field = arrow("date", DataType::Date64, false);
    field.metadata.push((STRATEGY_KEY.to_string(), "NoSuchStrategy".to_string()));
    assert_eq!(GenericField::try_from(&field).unwrap_err().kind, ErrorKind::Schema);
}

#[test]
fn generic_field_from_dense_union() {
    let variants = vec![
        (0, arrow("a", DataType::Int32, false)),
        (1, arrow("b", DataType::Utf8, false)),
    ];
    let field = arrow("root", DataType::Union(variants, UnionMode::Dense), false);
    assert_eq!(
        GenericField::try_from(&field).unwrap(),
        GenericField::new("root", GenericDataType::Union, false)
            .with_child(GenericField::new("a", GenericDataType::I32, false))
            .with_child(GenericField::new("b", GenericDataType::Utf8, false))
    );
}

#[test]
fn generic_field_rejects_other_unions() {
    let variants = vec![(0, arrow("a", DataType::Int32, false))];
    let sparse = arrow("root", DataType::Union(variants, UnionMode::Sparse), false);
    assert!(GenericField::try_from(&sparse).is_err());

    let variants = vec![
        (1, arrow("a", DataType::Int32, false)),
        (0, arrow("b", DataType::Utf8, false)),
    ];
    let explicit = arrow("root", DataType::Union(variants, UnionMode::Dense), false);
    assert!(GenericField::try_from(&explicit).is_err());

    let variants = vec![(-1, arrow("a", DataType::Int32, false))];
    let negative = arrow("root", DataType::Union(variants, UnionMode::Dense), false);
    assert!(GenericField::try_from(&negative).is_err());
}

#[test]
fn generic_field_from_dictionary() {
    let field = arrow(
        "root",
        DataType::Dictionary(Box::new(DataType::UInt32), Box::new(DataType::Utf8)),
        true,
    );
    assert_eq!(
        GenericField::try_from(&field).unwrap(),
        GenericField::new("root", GenericDataType::Dictionary, true)
            .with_child(GenericField::new("", GenericDataType::U32, false))
            .with_child(GenericField::new("", GenericDataType::Utf8, false))
    );

    let nested = arrow(
        "root",
        DataType::Dictionary(Box::new(DataType::UInt32), Box::new(DataType::Struct(vec![]))),
        true,
    );
    assert!(GenericField::try_from(&nested).is_err());
}

#[test]
fn generic_field_rejects_unsupported_data_types() {
    assert!(GenericField::try_from(&arrow("root", DataType::Unsupported, false)).is_err());
    let nested = arrow(
        "root",
        DataType::List(Box::new(arrow("element", DataType::Unsupported, false))),
        false,
    );
    assert!(GenericField::try_from(&nested).is_err());
    let nested = arrow(
        "root",
        DataType::Struct(vec![
            arrow("a", DataType::Int8, false),
            arrow("b", DataType::Unsupported, false),
        ]),
        false,
    );
    assert!(GenericField::try_from(&nested).is_err());
}

#[test]
fn arrow_field_from_nested_generic_field() {
    let field = GenericField::new("root", GenericDataType::Struct, true)
        .with_child(
            GenericField::new("a", GenericDataType::LargeList, false)
                .with_child(GenericField::new("element", GenericDataType::F64, false)),
        )
        .with_child(
            GenericField::new("b", GenericDataType::Union, false)
                .with_child(GenericField::new("x", GenericDataType::Bool, false))
                .with_child(GenericField::new("y", GenericDataType::Null, true)),
        )
        .with_child(
            GenericField::new("c", GenericDataType::KeyValueMap, false).with_child(
                GenericField::new("entries", GenericDataType::Struct, false)
                    .with_child(GenericField::new("key", GenericDataType::Utf8, false))
                    .with_child(GenericField::new("value", GenericDataType::I8, true)),
            ),
        );
    let expected = arrow(
        "root",
        DataType::Struct(vec![
            arrow(
                "a",
                DataType::LargeList(Box::new(arrow("element", DataType::Float64, false))),
                false,
            ),
            arrow(
                "b",
                DataType::Union(
                    vec![
                        (0, arrow("x", DataType::Boolean, false)),
                        (1, arrow("y", DataType::Null, true)),
                    ],
                    UnionMode::Dense,
                ),
                false,
            ),
            arrow(
                "c",
                DataType::KeyValueMap(
                    Box::new(arrow(
                        "entries",
                        DataType::Struct(vec![
                            arrow("key", DataType::Utf8, false),
                            arrow("value", DataType::Int8, true),
                        ]),
                        false,
                    )),
                    false,
                ),
                false,
            ),
        ]),
        true,
    );
    assert_eq!(Field::try_from(&field).unwrap(), expected);
}

#[test]
fn arrow_field_carries_the_strategy_as_metadata() {
    let field = GenericField::new("date", GenericDataType::Date64, false)
        .with_strategy(Strategy::NaiveStrAsDate64);
    let converted = Field::try_from(&field).unwrap();
    assert_eq!(
        converted.metadata,
        vec![("SERDE_ARROW:strategy".to_string(), "NaiveStrAsDate64".to_string())]
    );
    assert_eq!(GenericField::try_from(&converted).unwrap(), field);
}

#[test]
fn arrow_field_of_a_dictionary() {
    let field = GenericField::new("root", GenericDataType::Dictionary, false)
        .with_child(GenericField::new("key", GenericDataType::I16, false))
        .with_child(GenericField::new("value", GenericDataType::LargeUtf8, false));
    assert_eq!(
        Field::try_from(&field).unwrap(),
        arrow(
            "root",
            DataType::Dictionary(Box::new(DataType::Int16), Box::new(DataType::LargeUtf8)),
            false
        )
    );

    let bad_key = GenericField::new("root", GenericDataType::Dictionary, false)
        .with_child(GenericField::new("key", GenericDataType::Utf8, false))
        .with_child(GenericField::new("value", GenericDataType::LargeUtf8, false));
    assert_eq!(Field::try_from(&bad_key).unwrap_err().kind, ErrorKind::Schema);

    let one_child = GenericField::new("root", GenericDataType::Dictionary, false)
        .with_child(GenericField::new("key", GenericDataType::I16, false));
    assert!(Field::try_from(&one_child).is_err());
}

#[test]
fn arrow_field_rejects_containers_without_children() {
    assert!(Field::try_from(&GenericField::new("l", GenericDataType::List, false)).is_err());
    assert!(Field::try_from(&GenericField::new("l", GenericDataType::LargeList, false)).is_err());
    assert!(Field::try_from(&GenericField::new("m", GenericDataType::KeyValueMap, false)).is_err());
    assert!(Field::try_from(&GenericField::new("s", GenericDataType::Struct, false)).is_ok());

    let mut union = GenericField::new("u", GenericDataType::Union, false);
    for idx in 0..128 {
        union = union.with_child(GenericField::new(&format!("{idx}"), GenericDataType::U8, false));
    }
    assert!(Field::try_from(&union).is_ok());
    let union = union.with_child(GenericField::new("128", GenericDataType::U8, false));
    assert!(Field::try_from(&union).is_err());
}
