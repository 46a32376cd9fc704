use serde_arrow::bytecode::{Bytecode, Instruction};
use serde_arrow::compiler::layout::{CompilationOptions, Program};
use serde_arrow::compiler::outer::compile_serialization;
use serde_arrow::schema::{GenericDataType, GenericField};
use serde_arrow::structure::{ArrayMapping, FieldDefinition, ListDefinition, MapDefinition};

fn unwrapped() -> CompilationOptions {
    CompilationOptions::default().wrap_with_struct(false)
}

fn list_program() -> Program {
    let field = GenericField::new("root", GenericDataType::List, false)
        .with_child(GenericField::new("element", GenericDataType::U8, true));
    compile_serialization(&[field], unwrapped()).unwrap()
}

fn struct_program() -> Program {
    let field = GenericField::new("root", GenericDataType::Struct, false)
        .with_child(GenericField::new("a", GenericDataType::I8, false));
    compile_serialization(&[field], unwrapped()).unwrap()
}

fn map_program() -> Program {
    let field = GenericField::new("root", GenericDataType::KeyValueMap, false).with_child(
        GenericField::new("entries", GenericDataType::Struct, false)
            .with_child(GenericField::new("key", GenericDataType::Utf8, false))
            .with_child(GenericField::new("value", GenericDataType::U8, false)),
    );
    compile_serialization(&[field], unwrapped()).unwrap()
}

#[test]
fn compiled_programs_are_valid() {
    assert!(list_program().validate().is_ok());
    assert!(struct_program().validate().is_ok());
    assert!(map_program().validate().is_ok());
}

#[test]
fn validate_rejects_a_list_whose_item_is_misplaced() {
    let mut program = list_program();
    program.structure.lists[0].item += 1;
    assert!(program.validate_lists(false).is_err());
    assert!(program.validate().is_err());

    let mut program = list_program();
    program.structure.lists[0].item = 0;
    assert!(program.validate_lists(false).is_err());
}

#[test]
fn validate_rejects_a_list_whose_return_is_misplaced() {
    let mut program = list_program();
    program.structure.lists[0].return_pc -= 1;
    assert!(program.validate_lists(false).is_err());
    assert!(program.validate_lists(true).is_ok());
    assert!(program.validate().is_err());
}

#[test]
fn validate_rejects_a_list_of_the_other_width() {
    let mut program = list_program();
    let list = program.structure.lists[0];
    program.structure.large_lists.push(list);
    assert!(program.validate_lists(false).is_ok());
    assert!(program.validate_lists(true).is_err());
}

#[test]
fn validate_rejects_a_large_list_whose_return_is_out_of_the_program() {
    let mut program = list_program();
    program.structure.large_lists[0].return_pc = 100;
    assert!(program.validate_lists(true).is_err());
}

#[test]
fn validate_rejects_a_map_whose_targets_are_misplaced() {
    let mut program = map_program();
    program.structure.maps[0].key += 1;
    assert!(program.validate_maps().is_err());
    assert!(program.validate().is_err());

    let mut program = map_program();
    program.structure.maps[0].return_pc -= 1;
    assert!(program.validate_maps().is_err());

    let mut program = map_program();
    program.structure.maps.push(MapDefinition { key: 4, return_pc: 8 });
    assert!(program.validate_maps().is_err());
}

#[test]
fn validate_rejects_a_struct_field_whose_jump_is_misplaced() {
    let mut program = struct_program();
    program.structure.structs[0].fields[0].1.jump += 1;
    assert!(program.validate_structs().is_err());
    assert!(program.validate().is_err());
}

#[test]
fn validate_rejects_a_struct_field_whose_name_differs() {
    let mut program = struct_program();
    program.structure.structs[0].fields[0].0 = "b".to_string();
    assert!(program.validate_structs().is_err());
}

#[test]
fn validate_rejects_a_struct_field_of_another_struct() {
    let mut program = struct_program();
    let definition = program.structure.structs[0].clone();
    program.structure.structs.push(definition);
    assert!(program.validate_structs().is_err());
}

#[test]
fn validate_rejects_a_struct_whose_return_is_misplaced() {
    let mut program = struct_program();
    program.structure.structs[0].return_pc -= 1;
    assert!(program.validate_structs().is_err());

    let mut program = struct_program();
    program.structure.structs[0].return_pc = program.structure.program.len();
    assert!(program.validate_structs().is_err());
}

#[test]
fn validate_rejects_a_struct_that_returns_to_the_end_of_a_union() {
    // the struct is the last variant of a union: before linking, it returns to the end of the
    // union
    let mut program = Program::new(unwrapped());
    let codes = vec![
        Bytecode::StructStart { seen: 0 },
        Bytecode::StructEnd { struct_idx: 0, seen: 0 },
        Bytecode::UnionEnd,
        Bytecode::ProgramEnd,
    ];
    for (pos, code) in codes.into_iter().enumerate() {
        program.structure.program.push(Instruction { next: (pos + 1).min(3), code });
    }
    program.structure.push_struct(serde_arrow::structure::StructDefinition::new());
    program.structure.structs[0].return_pc = 2;
    assert!(program.validate_structs().is_err());

    program.update_jumps().unwrap();
    assert_eq!(program.structure.structs[0].return_pc, 3);
    assert!(program.validate_structs().is_ok());
}

#[test]
fn validate_rejects_a_field_that_jumps_to_the_end_of_a_union() {
    let mut program = Program::new(unwrapped());
    let codes = vec![
        Bytecode::StructField {
            struct_idx: 0,
            field_name: "a".to_string(),
            field_idx: 0,
            seen: 0,
        },
        Bytecode::UnionEnd,
        Bytecode::StructEnd { struct_idx: 0, seen: 0 },
        Bytecode::ProgramEnd,
    ];
    for (pos, code) in codes.into_iter().enumerate() {
        program.structure.program.push(Instruction { next: (pos + 1).min(3), code });
    }
    program.structure.push_struct(serde_arrow::structure::StructDefinition::new());
    program.structure.structs[0].return_pc = 3;
    program.structure.structs[0].insert(
        "a".to_string(),
        FieldDefinition { index: 0, jump: 1, null_definition: None },
    );
    assert!(program.validate_structs().is_err());
}

#[test]
fn validate_rejects_null_definitions_out_of_bounds() {
    let mut program = list_program();
    assert_eq!(program.structure.nulls[0].u8, vec![0]);
    program.structure.nulls[0].u8.push(program.buffers.num_u8);
    assert!(program.validate_nulls().is_err());
    assert!(program.validate().is_err());

    let mut program = list_program();
    program.structure.nulls[0].u1[0] = program.buffers.num_u1;
    assert!(program.validate_nulls().is_err());

    let mut program = list_program();
    program.structure.nulls[0].u0.push(0);
    assert!(program.validate_nulls().is_err());

    let mut program = list_program();
    program.structure.nulls[0].u64_offsets.push(1);
    assert!(program.validate_nulls().is_err());
}

#[test]
fn validate_rejects_array_mappings_with_inconsistent_nullability() {
    let mut program = struct_program();
    let field = GenericField::new("a", GenericDataType::U8, true);
    program.structure.array_mapping.push(ArrayMapping::U8 { field, buffer: 0, validity: None });
    assert!(program.validate_array_mappings().is_err());
    assert!(program.validate().is_err());

    let mut program = list_program();
    let field = GenericField::new("a", GenericDataType::U8, false);
    program.structure.array_mapping.push(ArrayMapping::U8 {
        field,
        buffer: 0,
        validity: Some(0),
    });
    assert!(program.validate_array_mappings().is_err());
}

#[test]
fn validate_rejects_a_union_whose_field_is_nullable() {
    let mut program = list_program();
    program.buffers.num_u8 = 1;
    let field = GenericField::new("u", GenericDataType::Union, false);
    program.structure.array_mapping.push(ArrayMapping::Union {
        field,
        fields: vec![],
        types: 0,
    });
    assert!(program.validate_array_mappings().is_ok());

    let field = GenericField::new("u", GenericDataType::Union, true);
    program.structure.array_mapping.push(ArrayMapping::Union {
        field,
        fields: vec![],
        types: 0,
    });
    assert!(program.validate_array_mappings().is_err());
    assert!(program.validate().is_err());
}

#[test]
fn validate_rejects_array_mappings_out_of_bounds() {
    let mut program = struct_program();
    let field = GenericField::new("a", GenericDataType::U8, false);
    program.structure.array_mapping.push(ArrayMapping::U8 {
        field,
        buffer: program.buffers.num_u8,
        validity: None,
    });
    assert!(program.validate_array_mappings().is_err());

    let mut program = struct_program();
    let field = GenericField::new("a", GenericDataType::U8, true);
    program.structure.array_mapping.push(ArrayMapping::U8 {
        field,
        buffer: 0,
        validity: Some(program.buffers.num_u1),
    });
    assert!(program.validate_array_mappings().is_err());
}

#[test]
fn validate_rejects_nested_array_mappings() {
    let mut program = struct_program();
    match &mut program.structure.array_mapping[0] {
        ArrayMapping::Struct { fields, .. } => match &mut fields[0] {
            ArrayMapping::I8 { buffer, .. } => *buffer = 7,
            mapping => panic!("unexpected mapping {mapping:?}"),
        },
        mapping => panic!("unexpected mapping {mapping:?}"),
    }
    assert!(program.validate_array_mappings().is_err());
}

#[test]
fn validate_rejects_a_successor_out_of_the_program() {
    let mut program = list_program();
    let len = program.structure.program.len();
    program.structure.program[2].next = len;
    assert!(program.validate_next_instruction().is_err());
    assert!(program.validate().is_err());
}

#[test]
fn validate_rejects_a_successor_that_is_the_end_of_a_union() {
    let mut program = list_program();
    program.structure.program[3].code = Bytecode::UnionEnd;
    assert!(program.validate_next_instruction().is_err());
}

#[test]
fn validate_rejects_a_last_instruction_that_goes_on() {
    let mut program = list_program();
    let last = program.structure.program.len() - 1;
    program.structure.program[last].next = 0;
    assert!(program.validate_next_instruction().is_err());

    let program = Program::new(unwrapped());
    assert!(program.validate_next_instruction().is_err());
}

#[test]
fn instruction_before_is_the_one_in_front() {
    let program = list_program();
    assert_eq!(program.instruction_before(0), None);
    assert_eq!(
        program.instruction_before(1),
        Some(&Instruction { next: 1, code: Bytecode::OuterSequenceStart })
    );
    let len = program.structure.program.len();
    assert_eq!(program.instruction_before(len).unwrap().code, Bytecode::ProgramEnd);
    assert_eq!(program.instruction_before(len + 1), None);
    assert!(Bytecode::ProgramEnd.is_allowed_jump_target());
    assert!(!Bytecode::UnionEnd.is_allowed_jump_target());
}

#[test]
fn list_definition_of_the_rows_is_the_first_large_list() {
    let program = list_program();
    assert_eq!(
        program.structure.large_lists,
        vec![ListDefinition { item: 2, return_pc: 8, offset: 0 }]
    );
}
