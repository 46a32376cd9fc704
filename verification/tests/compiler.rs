use serde_arrow::bytecode::{Bytecode, DictionaryIndex, DictionaryValue, Instruction};
use serde_arrow::compiler::layout::{CompilationOptions, Program};
use serde_arrow::compiler::outer::compile_serialization;
use serde_arrow::schema::{GenericDataType, GenericField, Strategy};
use serde_arrow::structure::{ArrayMapping, FieldDefinition, ListDefinition, MapDefinition};

fn unwrapped() -> CompilationOptions {
    CompilationOptions::default().wrap_with_struct(false)
}

fn codes(program: &Program) -> Vec<Bytecode> {
    program.structure.program.iter().map(|instr| instr.code.clone()).collect()
}

fn nexts(program: &Program) -> Vec<usize> {
    program.structure.program.iter().map(|instr| instr.next).collect()
}

#[test]
fn default_options_wrap_with_struct() {
    assert!(CompilationOptions::default().wrap_with_struct);
    assert!(!CompilationOptions::default().wrap_with_struct(false).wrap_with_struct);
}

#[test]
fn new_program_is_empty() {
    let program = Program::new(CompilationOptions::default());
    assert!(program.structure.program.is_empty());
    assert!(program.structure.large_lists.is_empty());
    assert_eq!(program.buffers.num_u8, 0);
    assert!(program.options.wrap_with_struct);
}

#[test]
fn compile_large_list_of_u32() {
    let field = GenericField::new("root", GenericDataType::LargeList, false)
        .with_child(GenericField::new("element", GenericDataType::U32, false));
    let program = compile_serialization(&[field], unwrapped()).unwrap();

    assert_eq!(
        program.structure.program,
        vec![
            Instruction { next: 1, code: Bytecode::OuterSequenceStart },
            Instruction { next: 2, code: Bytecode::OuterSequenceItem { list_idx: 0 } },
            Instruction { next: 3, code: Bytecode::LargeListStart },
            Instruction { next: 4, code: Bytecode::LargeListItem { list_idx: 1, offsets: 0 } },
            Instruction { next: 5, code: Bytecode::PushU32 { idx: 0 } },
            Instruction { next: 6, code: Bytecode::LargeListEnd { list_idx: 1, offsets: 0 } },
            Instruction { next: 7, code: Bytecode::OuterSequenceEnd { list_idx: 0 } },
            Instruction { next: 7, code: Bytecode::ProgramEnd },
        ]
    );
    assert_eq!(
        program.structure.large_lists,
        vec![
            ListDefinition { item: 2, return_pc: 7, offset: 0 },
            ListDefinition { item: 4, return_pc: 6, offset: 0 },
        ]
    );
    assert_eq!(program.buffers.num_u32, 1);
    assert_eq!(program.buffers.num_u64_offsets, 1);
    assert_eq!(program.buffers.num_u1, 0);
    assert!(program.structure.nulls.is_empty());
    assert_eq!(program.structure.array_mapping.len(), 1);
}

#[test]
fn compile_record_of_two_fields() {
    let fields = vec![
        GenericField::new("a", GenericDataType::U8, false),
        GenericField::new("b", GenericDataType::Utf8, true),
    ];
    let program = compile_serialization(&fields, CompilationOptions::default()).unwrap();

    assert_eq!(
        codes(&program),
        vec![
            Bytecode::OuterSequenceStart,
            Bytecode::OuterSequenceItem { list_idx: 0 },
            Bytecode::OuterRecordStart,
            Bytecode::OuterRecordField { struct_idx: 0, field_name: "a".to_string() },
            Bytecode::PushU8 { idx: 0 },
            Bytecode::OuterRecordField { struct_idx: 0, field_name: "b".to_string() },
            Bytecode::OptionMarker { self_pos: 6, if_none: 8, validity: 0, null_definition: 0 },
            Bytecode::PushUtf8 { buffer: 1, offsets: 0 },
            Bytecode::OuterRecordEnd { struct_idx: 0 },
            Bytecode::OuterSequenceEnd { list_idx: 0 },
            Bytecode::ProgramEnd,
        ]
    );
    assert_eq!(nexts(&program), vec![1, 2, 3, 4, 5, 6, 7, 8, 9, 10, 10]);
    assert_eq!(
        program.structure.structs[0].fields,
        vec![
            ("a".to_string(), FieldDefinition { index: 0, jump: 4, null_definition: None }),
            ("b".to_string(), FieldDefinition { index: 1, jump: 6, null_definition: None }),
        ]
    );
    assert_eq!(program.structure.structs[0].return_pc, 9);
    assert_eq!(program.structure.nulls.len(), 1);
    assert_eq!(program.structure.nulls[0].u32_offsets, vec![0]);
    assert_eq!(program.structure.nulls[0].u1, vec![0]);
    assert!(program.structure.nulls[0].u8.is_empty());
    assert_eq!(program.structure.array_mapping.len(), 2);
    match &program.structure.array_mapping[1] {
        ArrayMapping::Utf8 { field, buffer, offsets, validity } => {
            assert_eq!(field.name, "b");
            assert_eq!((*buffer, *offsets, *validity), (1, 0, Some(0)));
        }
        mapping => panic!("unexpected mapping {mapping:?}"),
    }
}

#[test]
fn compile_rejects_several_fields_without_wrapping() {
    let fields = vec![
        GenericField::new("a", GenericDataType::U8, false),
        GenericField::new("b", GenericDataType::U8, false),
    ];
    assert!(compile_serialization(&fields, unwrapped()).is_err());
    assert!(compile_serialization(&[], unwrapped()).is_err());
    assert!(compile_serialization(&fields, CompilationOptions::default()).is_ok());
    assert!(compile_serialization(&[], CompilationOptions::default()).is_ok());
}

#[test]
fn compile_union_rejoins_behind_the_union() {
    let field = GenericField::new("root", GenericDataType::Union, false)
        .with_child(GenericField::new("0", GenericDataType::I32, false))
        .with_child(GenericField::new("1", GenericDataType::Utf8, false));
    let program = compile_serialization(&[field], unwrapped()).unwrap();

    assert_eq!(
        program.structure.program,
        vec![
            Instruction { next: 1, code: Bytecode::OuterSequenceStart },
            Instruction { next: 2, code: Bytecode::OuterSequenceItem { list_idx: 0 } },
            Instruction { next: 3, code: Bytecode::Variant { union_idx: 0, type_idx: 0 } },
            Instruction { next: 6, code: Bytecode::PushI32 { idx: 0 } },
            Instruction { next: 6, code: Bytecode::PushUtf8 { buffer: 1, offsets: 0 } },
            Instruction { next: 6, code: Bytecode::UnionEnd },
            Instruction { next: 7, code: Bytecode::OuterSequenceEnd { list_idx: 0 } },
            Instruction { next: 7, code: Bytecode::ProgramEnd },
        ]
    );
    assert_eq!(program.structure.unions[0].fields, vec![3, 4]);
    assert_eq!(program.buffers.num_u8, 2);
}

#[test]
fn compile_unknown_variant_as_panic() {
    let field = GenericField::new("root", GenericDataType::Union, false)
        .with_child(GenericField::new("0", GenericDataType::I32, false))
        .with_child(
            GenericField::new("1", GenericDataType::Null, true)
                .with_strategy(Strategy::UnknownVariant),
        );
    let program = compile_serialization(&[field], unwrapped()).unwrap();

    let expected = "Serialization failed: an unknown variant with index 1 for field was \
                    encountered. To fix this error, sure all variants are seen during \
                    schema tracing or add the relevant variants manually to the traced fields.";
    assert_eq!(
        program.structure.program[4].code,
        Bytecode::Panic { message: expected.to_string() }
    );
    assert_eq!(program.buffers.num_u0, 1);
    match &program.structure.array_mapping[0] {
        ArrayMapping::Union { fields, .. } => match &fields[1] {
            ArrayMapping::Null { field, buffer, validity } => {
                assert_eq!(field.name, "");
                assert!(field.nullable);
                assert_eq!((*buffer, *validity), (0, None));
            }
            mapping => panic!("unexpected mapping {mapping:?}"),
        },
        mapping => panic!("unexpected mapping {mapping:?}"),
    }
}

#[test]
fn compile_rejects_unions_that_cannot_be_compiled() {
    let empty = GenericField::new("root", GenericDataType::Union, false);
    assert!(compile_serialization(&[empty], unwrapped()).is_err());

    let nullable = GenericField::new("root", GenericDataType::Union, true)
        .with_child(GenericField::new("0", GenericDataType::I32, false));
    assert!(compile_serialization(&[nullable], unwrapped()).is_err());
}

#[test]
fn compile_rejects_a_list_or_a_map_at_the_end_of_a_variant() {
    for data_type in [GenericDataType::LargeList, GenericDataType::List] {
        let field = GenericField::new("root", GenericDataType::Union, false).with_child(
            GenericField::new("0", data_type, false)
                .with_child(GenericField::new("element", GenericDataType::U8, false)),
        );
        assert!(compile_serialization(&[field], unwrapped()).is_err());
    }
    let entries = GenericField::new("entries", GenericDataType::Struct, false)
        .with_child(GenericField::new("key", GenericDataType::Utf8, false))
        .with_child(GenericField::new("value", GenericDataType::U8, false));
    let field = GenericField::new("root", GenericDataType::Union, false)
        .with_child(GenericField::new("0", GenericDataType::KeyValueMap, false).with_child(entries));
    assert!(compile_serialization(&[field], unwrapped()).is_err());

    // a struct at the end of a variant returns behind the union
    let field = GenericField::new("root", GenericDataType::Union, false).with_child(
        GenericField::new("0", GenericDataType::Struct, false)
            .with_child(GenericField::new("a", GenericDataType::U8, false)),
    );
    let program = compile_serialization(&[field], unwrapped()).unwrap();
    assert_eq!(program.structure.program[7].code, Bytecode::UnionEnd);
    assert_eq!(program.structure.structs[0].return_pc, 8);
}

#[test]
fn compile_struct_with_seen_set() {
    let field = GenericField::new("root", GenericDataType::Struct, false)
        .with_child(GenericField::new("a", GenericDataType::I8, false))
        .with_child(GenericField::new("b", GenericDataType::I8, true));
    let program = compile_serialization(&[field], unwrapped()).unwrap();

    assert_eq!(
        codes(&program),
        vec![
            Bytecode::OuterSequenceStart,
            Bytecode::OuterSequenceItem { list_idx: 0 },
            Bytecode::StructStart { seen: 0 },
            Bytecode::StructField {
                struct_idx: 0,
                field_name: "a".to_string(),
                field_idx: 0,
                seen: 0
            },
            Bytecode::PushI8 { idx: 0 },
            Bytecode::StructField {
                struct_idx: 0,
                field_name: "b".to_string(),
                field_idx: 1,
                seen: 0
            },
            Bytecode::OptionMarker { self_pos: 6, if_none: 8, validity: 0, null_definition: 0 },
            Bytecode::PushI8 { idx: 1 },
            Bytecode::StructEnd { struct_idx: 0, seen: 0 },
            Bytecode::OuterSequenceEnd { list_idx: 0 },
            Bytecode::ProgramEnd,
        ]
    );
    assert_eq!(
        program.structure.structs[0].fields,
        vec![
            ("a".to_string(), FieldDefinition { index: 0, jump: 4, null_definition: None }),
            ("b".to_string(), FieldDefinition { index: 1, jump: 6, null_definition: Some(0) }),
        ]
    );
    assert_eq!(program.structure.structs[0].item, usize::MAX);
    assert_eq!(program.structure.structs[0].return_pc, 9);
    assert_eq!(program.buffers.num_seen, 1);
}

#[test]
fn compile_map_as_struct_with_items() {
    let field = GenericField::new("root", GenericDataType::Struct, false)
        .with_strategy(Strategy::MapAsStruct)
        .with_child(GenericField::new("a", GenericDataType::I8, false))
        .with_child(GenericField::new("b", GenericDataType::I8, false));
    let program = compile_serialization(&[field], unwrapped()).unwrap();

    assert_eq!(program.structure.program[3].code, Bytecode::StructItem { struct_idx: 0, seen: 0 });
    assert_eq!(program.structure.program[6].code, Bytecode::StructItem { struct_idx: 0, seen: 0 });
    assert_eq!(program.structure.structs[0].item, 4);
    assert_eq!(program.structure.structs[0].fields[0].1.jump, 5);
    assert_eq!(program.structure.structs[0].fields[1].1.jump, 8);
}

#[test]
fn compile_tuple_as_struct_without_seen_set() {
    let field = GenericField::new("root", GenericDataType::Struct, false)
        .with_strategy(Strategy::TupleAsStruct)
        .with_child(GenericField::new("0", GenericDataType::I8, false))
        .with_child(GenericField::new("1", GenericDataType::Bool, false));
    let program = compile_serialization(&[field], unwrapped()).unwrap();

    assert_eq!(
        codes(&program),
        vec![
            Bytecode::OuterSequenceStart,
            Bytecode::OuterSequenceItem { list_idx: 0 },
            Bytecode::TupleStructStart,
            Bytecode::TupleStructItem,
            Bytecode::PushI8 { idx: 0 },
            Bytecode::TupleStructItem,
            Bytecode::PushBool { idx: 0 },
            Bytecode::TupleStructEnd,
            Bytecode::OuterSequenceEnd { list_idx: 0 },
            Bytecode::ProgramEnd,
        ]
    );
    assert!(program.structure.structs.is_empty());
    assert_eq!(program.buffers.num_seen, 0);
}

#[test]
fn compile_rejects_structs_that_cannot_be_compiled() {
    let strategy = GenericField::new("root", GenericDataType::Struct, false)
        .with_strategy(Strategy::UtcStrAsDate64);
    assert!(compile_serialization(&[strategy], unwrapped()).is_err());

    let nullable_without_fields = GenericField::new("root", GenericDataType::Struct, true);
    assert!(compile_serialization(&[nullable_without_fields], unwrapped()).is_err());

    let without_fields = GenericField::new("root", GenericDataType::Struct, false);
    assert!(compile_serialization(&[without_fields], unwrapped()).is_ok());
}

#[test]
fn compile_struct_with_as_many_fields_as_the_seen_set_holds() {
    let mut field = GenericField::new("root", GenericDataType::Struct, false);
    for idx in 0..128 {
        field = field.with_child(GenericField::new(&format!("f{idx}"), GenericDataType::U8, false));
    }
    let one_more = field.clone().with_child(GenericField::new("last", GenericDataType::U8, false));
    assert!(compile_serialization(&[field], unwrapped()).is_ok());
    assert!(compile_serialization(&[one_more], unwrapped()).is_err());
}

#[test]
fn compile_tuple_with_more_fields_than_the_seen_set_holds() {
    let mut field = GenericField::new("root", GenericDataType::Struct, false)
        .with_strategy(Strategy::TupleAsStruct);
    for idx in 0..130 {
        field = field.with_child(GenericField::new(&format!("{idx}"), GenericDataType::U8, false));
    }
    assert!(compile_serialization(&[field], unwrapped()).is_ok());
}

#[test]
fn compile_date64_by_strategy() {
    let raw = GenericField::new("root", GenericDataType::Date64, false);
    let program = compile_serialization(&[raw], unwrapped()).unwrap();
    assert_eq!(program.structure.program[2].code, Bytecode::PushI64 { idx: 0 });
    assert!(matches!(program.structure.array_mapping[0], ArrayMapping::Date64 { .. }));

    let naive = GenericField::new("root", GenericDataType::Date64, false)
        .with_strategy(Strategy::NaiveStrAsDate64);
    let program = compile_serialization(&[naive], unwrapped()).unwrap();
    assert_eq!(program.structure.program[2].code, Bytecode::PushDate64FromNaiveStr { idx: 0 });

    let utc = GenericField::new("root", GenericDataType::Date64, false)
        .with_strategy(Strategy::UtcStrAsDate64);
    let program = compile_serialization(&[utc], unwrapped()).unwrap();
    assert_eq!(program.structure.program[2].code, Bytecode::PushDate64FromUtcStr { idx: 0 });

    let other = GenericField::new("root", GenericDataType::Date64, false)
        .with_strategy(Strategy::MapAsStruct);
    assert!(compile_serialization(&[other], unwrapped()).is_err());
}

#[test]
fn compile_primitives_into_the_pool_of_their_width() {
    let fields = vec![
        GenericField::new("a", GenericDataType::Null, true),
        GenericField::new("b", GenericDataType::Bool, false),
        GenericField::new("c", GenericDataType::I16, false),
        GenericField::new("d", GenericDataType::F16, false),
        GenericField::new("e", GenericDataType::F32, false),
        GenericField::new("f", GenericDataType::I32, false),
        GenericField::new("g", GenericDataType::F64, false),
        GenericField::new("h", GenericDataType::LargeUtf8, false),
    ];
    let program = compile_serialization(&fields, CompilationOptions::default()).unwrap();
    let pushes: Vec<Bytecode> = codes(&program)
        .into_iter()
        .filter(|code| !matches!(code, Bytecode::OuterRecordField { .. }))
        .collect();
    assert_eq!(
        pushes[3..11],
        [
            Bytecode::PushNull { idx: 0 },
            Bytecode::PushBool { idx: 0 },
            Bytecode::PushI16 { idx: 0 },
            Bytecode::PushF16 { idx: 1 },
            Bytecode::PushF32 { idx: 0 },
            Bytecode::PushI32 { idx: 1 },
            Bytecode::PushF64 { idx: 0 },
            Bytecode::PushLargeUtf8 { buffer: 0, offsets: 0 },
        ]
    );
    assert_eq!(program.buffers.num_u0, 1);
    assert_eq!(program.buffers.num_u1, 1);
    assert_eq!(program.buffers.num_u16, 2);
    assert_eq!(program.buffers.num_u32, 2);
    assert_eq!(program.buffers.num_u64, 1);
    assert_eq!(program.buffers.num_u8, 1);
    assert_eq!(program.buffers.num_u64_offsets, 1);
    match &program.structure.array_mapping[0] {
        ArrayMapping::Null { validity, .. } => assert_eq!(*validity, None),
        mapping => panic!("unexpected mapping {mapping:?}"),
    }
}

#[test]
fn compile_dictionary() {
    let field = GenericField::new("root", GenericDataType::Dictionary, true)
        .with_child(GenericField::new("key", GenericDataType::I8, false))
        .with_child(GenericField::new("value", GenericDataType::LargeUtf8, false));
    let program = compile_serialization(&[field], unwrapped()).unwrap();

    assert_eq!(
        program.structure.program[3].code,
        Bytecode::PushDictionary {
            values: DictionaryValue::LargeUtf8 { buffer: 1, offsets: 0 },
            indices: DictionaryIndex::I8(0),
            dictionary: 0,
        }
    );
    assert_eq!(program.buffers.num_dictionaries, 1);
    assert_eq!(program.structure.nulls[0].u8, vec![0]);
    assert_eq!(program.structure.nulls[0].u1, vec![0]);
}

#[test]
fn compile_rejects_dictionaries_that_cannot_be_compiled() {
    let no_children = GenericField::new("root", GenericDataType::Dictionary, false);
    assert!(compile_serialization(&[no_children], unwrapped()).is_err());

    let bad_key = GenericField::new("root", GenericDataType::Dictionary, false)
        .with_child(GenericField::new("key", GenericDataType::Utf8, false))
        .with_child(GenericField::new("value", GenericDataType::Utf8, false));
    assert!(compile_serialization(&[bad_key], unwrapped()).is_err());

    let bad_value = GenericField::new("root", GenericDataType::Dictionary, false)
        .with_child(GenericField::new("key", GenericDataType::U32, false))
        .with_child(GenericField::new("value", GenericDataType::U32, false));
    assert!(compile_serialization(&[bad_value], unwrapped()).is_err());
}

fn map_field(entries: GenericField) -> GenericField {
    GenericField::new("root", GenericDataType::KeyValueMap, false).with_child(entries)
}

#[test]
fn compile_map() {
    let entries = GenericField::new("entries", GenericDataType::Struct, false)
        .with_child(GenericField::new("key", GenericDataType::Utf8, false))
        .with_child(GenericField::new("value", GenericDataType::U8, true));
    let program = compile_serialization(&[map_field(entries)], unwrapped()).unwrap();

    assert_eq!(
        codes(&program),
        vec![
            Bytecode::OuterSequenceStart,
            Bytecode::OuterSequenceItem { list_idx: 0 },
            Bytecode::MapStart,
            Bytecode::MapItem { map_idx: 0, offsets: 0 },
            Bytecode::PushUtf8 { buffer: 0, offsets: 1 },
            Bytecode::OptionMarker { self_pos: 5, if_none: 7, validity: 0, null_definition: 0 },
            Bytecode::PushU8 { idx: 1 },
            Bytecode::MapEnd { map_idx: 0, offsets: 0 },
            Bytecode::OuterSequenceEnd { list_idx: 0 },
            Bytecode::ProgramEnd,
        ]
    );
    assert_eq!(program.structure.maps, vec![MapDefinition { key: 4, return_pc: 8 }]);
    match &program.structure.array_mapping[0] {
        ArrayMapping::KeyValueMap { offsets, validity, entries, .. } => {
            assert_eq!((*offsets, *validity), (0, None));
            match entries.as_ref() {
                ArrayMapping::Struct { fields, validity, .. } => {
                    assert_eq!(fields.len(), 2);
                    assert_eq!(*validity, None);
                }
                mapping => panic!("unexpected mapping {mapping:?}"),
            }
        }
        mapping => panic!("unexpected mapping {mapping:?}"),
    }
}

#[test]
fn compile_rejects_maps_without_the_shape_of_a_map() {
    let no_child = GenericField::new("root", GenericDataType::KeyValueMap, false);
    assert!(compile_serialization(&[no_child], unwrapped()).is_err());

    let not_a_struct = map_field(GenericField::new("entries", GenericDataType::U8, false));
    assert!(compile_serialization(&[not_a_struct], unwrapped()).is_err());

    let nullable_entries = map_field(
        GenericField::new("entries", GenericDataType::Struct, true)
            .with_child(GenericField::new("key", GenericDataType::Utf8, false))
            .with_child(GenericField::new("value", GenericDataType::U8, false)),
    );
    assert!(compile_serialization(&[nullable_entries], unwrapped()).is_err());

    let one_field = map_field(
        GenericField::new("entries", GenericDataType::Struct, false)
            .with_child(GenericField::new("key", GenericDataType::Utf8, false)),
    );
    assert!(compile_serialization(&[one_field], unwrapped()).is_err());
}

#[test]
fn compile_list_with_32_bit_offsets() {
    let field = GenericField::new("root", GenericDataType::List, false)
        .with_child(GenericField::new("element", GenericDataType::U8, false));
    let program = compile_serialization(&[field], unwrapped()).unwrap();

    assert_eq!(program.structure.program[3].code, Bytecode::ListItem { list_idx: 0, offsets: 0 });
    assert_eq!(program.structure.program[5].code, Bytecode::ListEnd { list_idx: 0, offsets: 0 });
    assert_eq!(program.structure.lists, vec![ListDefinition { item: 4, return_pc: 6, offset: 0 }]);
    assert_eq!(program.buffers.num_u32_offsets, 1);
}

#[test]
fn compile_rejects_lists_that_cannot_be_compiled() {
    let no_child = GenericField::new("root", GenericDataType::List, false);
    assert!(compile_serialization(&[no_child], unwrapped()).is_err());
    let no_child = GenericField::new("root", GenericDataType::LargeList, false);
    assert!(compile_serialization(&[no_child], unwrapped()).is_err());
}

#[test]
fn null_definition_of_a_nullable_list_holds_its_offsets() {
    let nullable = GenericField::new("root", GenericDataType::List, true)
        .with_child(GenericField::new("element", GenericDataType::U8, false));
    let program = compile_serialization(&[nullable], unwrapped()).unwrap();

    assert_eq!(
        program.structure.program[2].code,
        Bytecode::OptionMarker { self_pos: 2, if_none: 7, validity: 0, null_definition: 0 }
    );
    assert_eq!(program.structure.nulls.len(), 1);
    assert_eq!(program.structure.nulls[0].u32_offsets, vec![0]);
    assert_eq!(program.structure.nulls[0].u1, vec![0]);
    assert!(program.structure.nulls[0].u8.is_empty());
    assert!(program.structure.nulls[0].u64_offsets.is_empty());
    assert!(matches!(
        program.structure.array_mapping[0],
        ArrayMapping::List { offsets: 0, validity: Some(0), .. }
    ));
}

#[test]
fn compile_rejects_structs_with_two_fields_of_one_name() {
    let field = GenericField::new("root", GenericDataType::Struct, false)
        .with_child(GenericField::new("a", GenericDataType::I8, false))
        .with_child(GenericField::new("a", GenericDataType::I8, false));
    assert!(compile_serialization(&[field.clone()], unwrapped()).is_err());

    let mut program = Program::new(unwrapped());
    assert!(program.compile_struct(&field, None).is_err());
    assert!(program.structure.program.is_empty());
    assert!(program.structure.structs.is_empty());
    assert_eq!(program.buffers.num_seen, 0);

    let nested = GenericField::new("root", GenericDataType::LargeList, false).with_child(field);
    assert!(compile_serialization(&[nested], unwrapped()).is_err());

    let distinct = GenericField::new("root", GenericDataType::Struct, false)
        .with_child(GenericField::new("a", GenericDataType::I8, false))
        .with_child(GenericField::new("b", GenericDataType::I8, false));
    assert!(compile_serialization(&[distinct], unwrapped()).is_ok());
}

#[test]
fn compile_rejects_records_with_two_fields_of_one_name() {
    let fields = vec![
        GenericField::new("a", GenericDataType::I8, false),
        GenericField::new("b", GenericDataType::I8, false),
        GenericField::new("a", GenericDataType::U8, false),
    ];
    assert!(compile_serialization(&fields, CompilationOptions::default()).is_err());
    let mut program = Program::new(CompilationOptions::default());
    assert!(program.compile_outer_structure(&fields).is_err());
    assert!(program.structure.program.is_empty());
    assert!(program.structure.large_lists.is_empty());
    assert!(program.structure.structs.is_empty());

    assert!(compile_serialization(&fields[..2], CompilationOptions::default()).is_ok());
}

#[test]
fn refused_fields_leave_the_program_as_it_is() {
    let child = || GenericField::new("element", GenericDataType::U8, false);
    let entries = || {
        GenericField::new("entries", GenericDataType::Struct, false)
            .with_child(GenericField::new("key", GenericDataType::Utf8, false))
            .with_child(GenericField::new("value", GenericDataType::U8, false))
    };
    let untouched = |program: &Program| {
        program.structure.program.is_empty()
            && program.structure.lists.is_empty()
            && program.structure.large_lists.is_empty()
            && program.structure.maps.is_empty()
            && program.structure.structs.is_empty()
            && program.structure.unions.is_empty()
            && program.structure.nulls.is_empty()
            && program.structure.array_mapping.is_empty()
            && program.buffers.num_u1 == 0
            && program.buffers.num_u8 == 0
            && program.buffers.num_u16 == 0
            && program.buffers.num_u64 == 0
            && program.buffers.num_u32_offsets == 0
            && program.buffers.num_u64_offsets == 0
            && program.buffers.num_seen == 0
    };

    // a validity bitmap for a field that is never absent, or none for one that may be
    let mut program = Program::new(unwrapped());
    let list = GenericField::new("l", GenericDataType::List, false).with_child(child());
    assert!(program.compile_list(&list, Some(0)).is_err());
    assert!(untouched(&program));
    let list = GenericField::new("l", GenericDataType::LargeList, true).with_child(child());
    assert!(program.compile_large_list(&list, None).is_err());
    assert!(untouched(&program));
    assert!(program.compile_large_list(&GenericField::new("l", GenericDataType::LargeList, false), None).is_err());
    assert!(untouched(&program));

    let map = GenericField::new("m", GenericDataType::KeyValueMap, true).with_child(entries());
    assert!(program.compile_map(&map, None).is_err());
    assert!(untouched(&program));
    let map = GenericField::new("m", GenericDataType::KeyValueMap, false).with_child(child());
    assert!(program.compile_map(&map, None).is_err());
    assert!(untouched(&program));
    assert!(program.compile_field_inner(&map, None).is_err());
    assert!(untouched(&program));

    let union = GenericField::new("u", GenericDataType::Union, false);
    assert!(program.compile_union(&union, None).is_err());
    assert!(untouched(&program));
    let union = union.with_child(child());
    assert!(program.compile_union(&union, Some(0)).is_err());
    assert!(untouched(&program));

    let record = GenericField::new("s", GenericDataType::Struct, true);
    assert!(program.compile_struct(&record, Some(0)).is_err());
    assert!(untouched(&program));
    let record = GenericField::new("s", GenericDataType::Struct, true).with_child(child());
    assert!(program.compile_struct(&record, None).is_err());
    assert!(untouched(&program));
    let record = GenericField::new("s", GenericDataType::Struct, false)
        .with_child(child())
        .with_strategy(Strategy::UtcStrAsDate64);
    assert!(program.compile_struct(&record, None).is_err());
    assert!(untouched(&program));

    let date = GenericField::new("d", GenericDataType::Date64, false)
        .with_strategy(Strategy::MapAsStruct);
    assert!(program.compile_field_inner(&date, None).is_err());
    assert!(untouched(&program));
    assert!(program.compile_primitive(&date, None).is_err());
    assert!(untouched(&program));

    let dictionary = GenericField::new("d", GenericDataType::Dictionary, false)
        .with_child(GenericField::new("key", GenericDataType::U8, false))
        .with_child(GenericField::new("value", GenericDataType::U8, false));
    assert!(program.compile_dictionary(&dictionary, None).is_err());
    assert!(untouched(&program));

    assert!(program.compile_outer_structure(&[]).is_err());
    assert!(untouched(&program));
    assert!(program.compile_outer_structure(&[child(), child()]).is_err());
    assert!(untouched(&program));
}

#[test]
fn null_definition_of_a_nullable_struct_is_sorted() {
    let field = GenericField::new("root", GenericDataType::Struct, true)
        .with_child(GenericField::new("a", GenericDataType::Bool, true))
        .with_child(GenericField::new("b", GenericDataType::U8, false))
        .with_child(GenericField::new("c", GenericDataType::KeyValueMap, false).with_child(
            GenericField::new("entries", GenericDataType::Struct, false)
                .with_child(GenericField::new("key", GenericDataType::Utf8, false))
                .with_child(GenericField::new("value", GenericDataType::U8, false)),
        ));
    let program = compile_serialization(&[field], unwrapped()).unwrap();

    // the struct has the validity bitmap 0, the field a the bitmap 1 and the values 2
    let null = &program.structure.nulls[0];
    assert_eq!(null.u1, vec![0, 1, 2]);
    assert_eq!(null.u8, vec![0]);
    assert_eq!(null.u32_offsets, vec![0]);
    assert!(null.u64_offsets.is_empty());
    assert_eq!(program.structure.nulls[1].u1, vec![1, 2]);
}

#[test]
fn option_markers_list_their_validity_once() {
    let entries = GenericField::new("entries", GenericDataType::Struct, false)
        .with_child(GenericField::new("key", GenericDataType::Utf8, false))
        .with_child(GenericField::new("value", GenericDataType::Bool, true));
    let fields = vec![
        GenericField::new("a", GenericDataType::Bool, true),
        GenericField::new("b", GenericDataType::Struct, true)
            .with_child(GenericField::new("x", GenericDataType::Bool, true))
            .with_child(
                GenericField::new("y", GenericDataType::Struct, true)
                    .with_child(GenericField::new("z", GenericDataType::U8, true)),
            ),
        GenericField::new("c", GenericDataType::LargeList, true)
            .with_child(GenericField::new("element", GenericDataType::Bool, true)),
        GenericField::new("d", GenericDataType::KeyValueMap, true).with_child(entries),
        GenericField::new("e", GenericDataType::Union, false)
            .with_child(GenericField::new("0", GenericDataType::Utf8, true))
            .with_child(GenericField::new("1", GenericDataType::Date64, true)),
    ];
    let program = compile_serialization(&fields, CompilationOptions::default()).unwrap();
    let mut markers = 0;
    for instr in &program.structure.program {
        if let Bytecode::OptionMarker { validity, null_definition, if_none, .. } = &instr.code {
            let null = &program.structure.nulls[*null_definition];
            assert_eq!(null.u1.iter().filter(|idx| *idx == validity).count(), 1);
            assert!(*if_none > 0);
            markers += 1;
        }
    }
    assert_eq!(markers, 11);
    assert_eq!(program.structure.nulls.len(), 11);
}
