use serde_arrow::compiler::layout::CompilationOptions;
use serde_arrow::compiler::outer::compile_serialization;
use serde_arrow::event::Event;
use serde_arrow::interpreter::run::Interpreter;
use serde_arrow::schema::{GenericDataType, GenericField, Strategy};
use serde_arrow::structure::ArrayMapping;

fn interpret(field: GenericField, events: &[Event<'static>]) -> Interpreter {
    let options = CompilationOptions::default().wrap_with_struct(false);
    let program = compile_serialization(&[field], options).unwrap();
    let mut interpreter = Interpreter::new(program);
    interpreter.accept_all(events).unwrap();
    interpreter.finish().unwrap();
    interpreter
}

fn list_of(items: &[Event<'static>]) -> Vec<Event<'static>> {
    let mut events = vec![Event::StartSequence];
    events.extend(items.iter().cloned());
    events.push(Event::EndSequence);
    events
}

fn rows(rows: &[Vec<Event<'static>>]) -> Vec<Event<'static>> {
    let mut events = vec![Event::StartSequence];
    for row in rows {
        events.extend(row.iter().cloned());
    }
    events.push(Event::EndSequence);
    events
}

#[test]
fn large_list_u32() {
    let field = GenericField::new("root", GenericDataType::LargeList, false)
        .with_child(GenericField::new("element", GenericDataType::U32, false));
    let events = rows(&[
        list_of(&[Event::U32(0), Event::U32(1), Event::U32(2)]),
        list_of(&[Event::U32(3), Event::U32(4)]),
        list_of(&[]),
    ]);
    let interpreter = interpret(field, &events);

    assert_eq!(interpreter.buffers.u64_offsets[0].offsets, vec![0, 3, 5, 5]);
    assert_eq!(interpreter.buffers.u32[0], vec![0, 1, 2, 3, 4]);
    assert!(interpreter.buffers.u1.is_empty());
    assert_eq!(interpreter.buffers.u64_offsets[0].offsets.len() - 1, 3);
    match &interpreter.structure.array_mapping[0] {
        ArrayMapping::LargeList { offsets, validity, .. } => {
            assert_eq!(*offsets, 0);
            assert_eq!(*validity, None);
        }
        mapping => panic!("unexpected mapping {mapping:?}"),
    }
}

#[test]
fn large_list_nullable_u64() {
    let field = GenericField::new("root", GenericDataType::LargeList, false)
        .with_child(GenericField::new("element", GenericDataType::U64, true));
    let events = rows(&[
        list_of(&[
            Event::SomeMarker,
            Event::U64(0),
            Event::Null,
            Event::SomeMarker,
            Event::U64(2),
        ]),
        list_of(&[Event::SomeMarker, Event::U64(3)]),
        list_of(&[Event::Null]),
        list_of(&[]),
    ]);
    let interpreter = interpret(field, &events);

    assert_eq!(interpreter.buffers.u64_offsets[0].offsets, vec![0, 3, 4, 5, 5]);
    assert_eq!(interpreter.buffers.u1[0], vec![true, false, true, true, false]);
    let data = &interpreter.buffers.u64[0];
    assert_eq!(data.len(), 5);
    assert_eq!(vec![data[0], data[2], data[3]], vec![0, 2, 3]);
}

#[test]
fn large_list_nullable_u64_without_markers() {
    let field = GenericField::new("root", GenericDataType::LargeList, false)
        .with_child(GenericField::new("element", GenericDataType::U64, true));
    let events = rows(&[list_of(&[Event::U64(7), Event::Null, Event::U64(9)])]);
    let interpreter = interpret(field, &events);

    assert_eq!(interpreter.buffers.u64_offsets[0].offsets, vec![0, 3]);
    assert_eq!(interpreter.buffers.u1[0], vec![true, false, true]);
    assert_eq!(interpreter.buffers.u64[0], vec![7, 0, 9]);
}

#[test]
fn nullable_list_u32_with_32_bit_offsets() {
    let field = GenericField::new("root", GenericDataType::List, true)
        .with_child(GenericField::new("element", GenericDataType::U32, false));
    let mut first = vec![Event::SomeMarker];
    first.extend(list_of(&[Event::U32(0), Event::U32(1), Event::U32(2)]));
    let mut third = vec![Event::SomeMarker];
    third.extend(list_of(&[Event::U32(3), Event::U32(4)]));
    let mut fourth = vec![Event::SomeMarker];
    fourth.extend(list_of(&[]));
    let events = rows(&[first, vec![Event::Null], third, fourth]);
    let interpreter = interpret(field, &events);

    assert_eq!(interpreter.buffers.u32_offsets[0].offsets, vec![0, 3, 3, 5, 5]);
    assert_eq!(interpreter.buffers.u1[0], vec![true, false, true, true]);
    assert_eq!(interpreter.buffers.u32[0], vec![0, 1, 2, 3, 4]);
}

#[test]
fn nullable_large_list_u32() {
    let field = GenericField::new("root", GenericDataType::LargeList, true)
        .with_child(GenericField::new("element", GenericDataType::U32, false));
    let mut first = vec![Event::SomeMarker];
    first.extend(list_of(&[Event::U32(0), Event::U32(1), Event::U32(2)]));
    let mut third = vec![Event::SomeMarker];
    third.extend(list_of(&[Event::U32(3), Event::U32(4)]));
    let mut fourth = vec![Event::SomeMarker];
    fourth.extend(list_of(&[]));
    let events = rows(&[first, vec![Event::Null], third, fourth]);
    let interpreter = interpret(field, &events);

    assert_eq!(interpreter.buffers.u64_offsets[0].offsets, vec![0, 3, 3, 5, 5]);
    assert_eq!(interpreter.buffers.u1[0], vec![true, false, true, true]);
    assert_eq!(interpreter.buffers.u32[0], vec![0, 1, 2, 3, 4]);
}

#[test]
fn map_as_struct_with_absent_field() {
    let field = GenericField::new("root", GenericDataType::Struct, false)
        .with_strategy(Strategy::MapAsStruct)
        .with_child(GenericField::new("a", GenericDataType::I8, false))
        .with_child(GenericField::new("b", GenericDataType::I8, true));
    let events = rows(&[vec![
        Event::StartStruct,
        Event::Str("a"),
        Event::I8(4),
        Event::I8(5),
        Event::Str("b"),
        Event::EndStruct,
    ]]);
    let interpreter = interpret(field, &events);

    assert_eq!(interpreter.buffers.u8[0], vec![4]);
    assert_eq!(interpreter.buffers.u8[1].len(), 1);
    assert_eq!(interpreter.buffers.u1[0], vec![false]);
    assert!(interpreter.buffers.seen[0].contains(0));
    assert!(!interpreter.buffers.seen[0].contains(1));
}

#[test]
fn map_as_struct_with_absent_field_that_cannot_be_null() {
    let field = GenericField::new("root", GenericDataType::Struct, false)
        .with_strategy(Strategy::MapAsStruct)
        .with_child(GenericField::new("a", GenericDataType::I8, false))
        .with_child(GenericField::new("b", GenericDataType::I8, false));
    let events = rows(&[vec![
        Event::StartStruct,
        Event::Str("a"),
        Event::I8(4),
        Event::I8(5),
        Event::Str("b"),
        Event::EndStruct,
    ]]);
    let options = CompilationOptions::default().wrap_with_struct(false);
    let program = compile_serialization(&[field], options).unwrap();
    let mut interpreter = Interpreter::new(program);
    assert!(interpreter.accept_all(&events).is_err());
}

#[test]
fn map_as_struct_keys_in_any_order() {
    let field = GenericField::new("root", GenericDataType::Struct, false)
        .with_strategy(Strategy::MapAsStruct)
        .with_child(GenericField::new("a", GenericDataType::I8, false))
        .with_child(GenericField::new("b", GenericDataType::I8, false));
    let events = rows(&[
        vec![
            Event::StartStruct,
            Event::Str("b"),
            Event::I8(2),
            Event::Str("a"),
            Event::I8(1),
            Event::EndStruct,
        ],
        vec![
            Event::StartStruct,
            Event::Str("a"),
            Event::I8(3),
            Event::OwnedStr("b".to_string()),
            Event::I8(4),
            Event::EndStruct,
        ],
    ]);
    let interpreter = interpret(field, &events);

    assert_eq!(interpreter.buffers.u8[0], vec![1, 3]);
    assert_eq!(interpreter.buffers.u8[1], vec![2, 4]);
}

#[test]
fn dense_union_of_i32_and_utf8() {
    let field = GenericField::new("root", GenericDataType::Union, false)
        .with_child(GenericField::new("0", GenericDataType::I32, false))
        .with_child(GenericField::new("1", GenericDataType::Utf8, false));
    let events = rows(&[
        vec![Event::U8(0), Event::I32(7)],
        vec![Event::U8(1), Event::Str("hi")],
        vec![Event::U8(0), Event::I32(-1)],
    ]);
    let interpreter = interpret(field, &events);

    let (types, fields) = match &interpreter.structure.array_mapping[0] {
        ArrayMapping::Union { types, fields, .. } => (*types, fields),
        mapping => panic!("unexpected mapping {mapping:?}"),
    };
    assert_eq!(interpreter.buffers.u8[types], vec![0, 1, 0]);
    match &fields[0] {
        ArrayMapping::I32 { buffer, .. } => {
            assert_eq!(interpreter.buffers.u32[*buffer], vec![7, (-1i32) as u32]);
        }
        mapping => panic!("unexpected mapping {mapping:?}"),
    }
    match &fields[1] {
        ArrayMapping::Utf8 { buffer, offsets, .. } => {
            assert_eq!(interpreter.buffers.u8[*buffer], b"hi".to_vec());
            assert_eq!(interpreter.buffers.u32_offsets[*offsets].offsets, vec![0, 2]);
        }
        mapping => panic!("unexpected mapping {mapping:?}"),
    }
}

#[test]
fn dictionary_u32_utf8() {
    let field = GenericField::new("root", GenericDataType::Dictionary, false)
        .with_child(GenericField::new("key", GenericDataType::U32, false))
        .with_child(GenericField::new("value", GenericDataType::Utf8, false));
    let events = rows(&[
        vec![Event::Str("x")],
        vec![Event::Str("y")],
        vec![Event::Str("x")],
        vec![Event::Str("z")],
        vec![Event::Str("y")],
    ]);
    let interpreter = interpret(field, &events);

    assert_eq!(interpreter.buffers.u32[0], vec![0, 1, 0, 2, 1]);
    assert_eq!(interpreter.buffers.u8[0], b"xyz".to_vec());
    assert_eq!(interpreter.buffers.u32_offsets[0].offsets, vec![0, 1, 2, 3]);
}
