use serde_arrow::bytecode::{Bytecode, Instruction};
use serde_arrow::compiler::layout::{CompilationOptions, Program};
use serde_arrow::compiler::outer::compile_serialization;
use serde_arrow::error::{Error, ErrorKind};
use serde_arrow::event::Event;
use serde_arrow::generic_sources::ListSource;
use serde_arrow::interpreter::run::{event_index, Interpreter};
use serde_arrow::schema::{GenericDataType, GenericField, Strategy};
use serde_arrow::source::{DynamicSource, EventSource, SliceSource};
use serde_arrow::structure::BufferCounts;
use serde_arrow::tracer::{FieldBuilder, Tracer};

fn unwrapped() -> CompilationOptions {
    CompilationOptions::default().wrap_with_struct(false)
}

fn interpreter_for(field: GenericField) -> Interpreter {
    Interpreter::new(compile_serialization(&[field], unwrapped()).unwrap())
}

fn run(field: GenericField, events: &[Event<'static>]) -> Result<Interpreter, Error> {
    let mut interpreter = interpreter_for(field);
    interpreter.accept_all(events)?;
    interpreter.finish()?;
    Ok(interpreter)
}

fn rows(rows: Vec<Vec<Event<'static>>>) -> Vec<Event<'static>> {
    let mut events = vec![Event::StartSequence];
    events.extend(rows.into_iter().flatten());
    events.push(Event::EndSequence);
    events
}

#[test]
fn push_primitives_of_every_type() {
    let cases: Vec<(GenericDataType, Event<'static>)> = vec![
        (GenericDataType::U8, Event::U8(200)),
        (GenericDataType::I8, Event::I8(-56)),
        (GenericDataType::U16, Event::U16(65000)),
        (GenericDataType::I16, Event::I16(-536)),
        (GenericDataType::U32, Event::U32(7)),
        (GenericDataType::I32, Event::I32(-7)),
        (GenericDataType::F32, Event::F32(1.5f32.to_bits())),
        (GenericDataType::U64, Event::U64(u64::MAX)),
        (GenericDataType::I64, Event::I64(-1)),
        (GenericDataType::F64, Event::F64(2.5f64.to_bits())),
        (GenericDataType::Date64, Event::I64(1_000)),
    ];
    for (data_type, event) in cases {
        let field = GenericField::new("root", data_type, false);
        let buffers = run(field, &rows(vec![vec![event.clone()]])).unwrap().buffers;
        match event {
            Event::U8(v) => assert_eq!(buffers.u8[0], vec![v]),
            Event::I8(v) => assert_eq!(buffers.u8[0], vec![v as u8]),
            Event::U16(v) => assert_eq!(buffers.u16[0], vec![v]),
            Event::I16(v) => assert_eq!(buffers.u16[0], vec![v as u16]),
            Event::U32(v) | Event::F32(v) => assert_eq!(buffers.u32[0], vec![v]),
            Event::I32(v) => assert_eq!(buffers.u32[0], vec![v as u32]),
            Event::U64(v) | Event::F64(v) => assert_eq!(buffers.u64[0], vec![v]),
            Event::I64(v) => assert_eq!(buffers.u64[0], vec![v as u64]),
            event => panic!("unexpected event {event:?}"),
        }
    }
}

#[test]
fn push_bools_and_nulls() {
    let field = GenericField::new("root", GenericDataType::Bool, true);
    let events =
        rows(vec![vec![Event::Bool(true)], vec![Event::Null], vec![Event::Bool(false)]]);
    let buffers = run(field, &events).unwrap().buffers;
    // the values are the bitmap 0, the validity is the bitmap of the field
    assert_eq!(buffers.u1[1], vec![true, false, false]);
    assert_eq!(buffers.u1[0], vec![true, false, true]);

    let field = GenericField::new("root", GenericDataType::Null, true);
    let buffers = run(field, &rows(vec![vec![Event::Null], vec![Event::Null]])).unwrap().buffers;
    assert_eq!(buffers.u0, vec![2]);
}

#[test]
fn validity_counts_the_values_that_are_present() {
    let field = GenericField::new("root", GenericDataType::U16, true);
    let events = rows(vec![
        vec![Event::SomeMarker, Event::U16(1)],
        vec![Event::Null],
        vec![Event::U16(3)],
        vec![Event::Null],
        vec![Event::SomeMarker, Event::U16(5)],
    ]);
    let buffers = run(field, &events).unwrap().buffers;
    let validity = &buffers.u1[0];
    assert_eq!(validity.iter().filter(|bit| **bit).count(), 3);
    assert_eq!(validity.len(), 5);
    assert_eq!(buffers.u16[0].len(), 5);
    assert_eq!(buffers.u16[0][0], 1);
    assert_eq!(buffers.u16[0][2], 3);
    assert_eq!(buffers.u16[0][4], 5);
}

#[test]
fn rejects_events_that_do_not_match() {
    let field = GenericField::new("root", GenericDataType::U8, false);
    let error = run(field.clone(), &rows(vec![vec![Event::I8(1)]])).unwrap_err();
    assert_eq!(error.kind, ErrorKind::Interpret);
    assert!(run(field.clone(), &rows(vec![vec![Event::Null]])).is_err());
    assert!(run(field.clone(), &[Event::StartStruct]).is_err());
    assert!(run(field.clone(), &[Event::U8(1)]).is_err());
    assert!(run(field.clone(), &rows(vec![vec![Event::StartSequence]])).is_err());

    let field = GenericField::new("root", GenericDataType::F16, false);
    assert!(run(field, &rows(vec![vec![Event::F32(0)]])).is_err());
}

#[test]
fn rejects_events_behind_the_end_and_an_early_finish() {
    let field = GenericField::new("root", GenericDataType::U8, false);
    let mut interpreter = interpreter_for(field);
    assert!(interpreter.finish().is_err());
    interpreter.accept(&Event::StartSequence).unwrap();
    interpreter.accept(&Event::U8(1)).unwrap();
    assert!(interpreter.finish().is_err());
    interpreter.accept(&Event::EndSequence).unwrap();
    assert!(interpreter.finish().is_ok());
    assert!(interpreter.accept(&Event::StartSequence).is_err());
    assert!(interpreter.accept(&Event::EndSequence).is_err());
}

#[test]
fn record_fields_arrive_in_the_order_of_the_schema() {
    let fields = vec![
        GenericField::new("a", GenericDataType::U8, false),
        GenericField::new("b", GenericDataType::Utf8, false),
    ];
    let program = compile_serialization(&fields, CompilationOptions::default()).unwrap();
    let events = rows(vec![
        vec![
            Event::StartStruct,
            Event::Str("a"),
            Event::U8(1),
            Event::OwnedStr("b".to_string()),
            Event::Str("one"),
            Event::EndStruct,
        ],
        vec![
            Event::StartStruct,
            Event::Str("a"),
            Event::U8(2),
            Event::Str("b"),
            Event::OwnedStr("two".to_string()),
            Event::EndStruct,
        ],
    ]);
    let mut interpreter = Interpreter::new(program);
    interpreter.accept_all(&events).unwrap();
    interpreter.finish().unwrap();
    assert_eq!(interpreter.buffers.u8[0], vec![1, 2]);
    assert_eq!(interpreter.buffers.u8[1], b"onetwo".to_vec());
    assert_eq!(interpreter.buffers.u32_offsets[0].offsets, vec![0, 3, 6]);

    let program = compile_serialization(&fields, CompilationOptions::default()).unwrap();
    let mut interpreter = Interpreter::new(program);
    let out_of_order = vec![Event::StartSequence, Event::StartStruct, Event::Str("b")];
    assert!(interpreter.accept_all(&out_of_order).is_err());
}

#[test]
fn struct_fields_that_are_missing_at_the_end_are_absent() {
    let field = GenericField::new("root", GenericDataType::Struct, false)
        .with_child(GenericField::new("a", GenericDataType::I8, false))
        .with_child(GenericField::new("b", GenericDataType::I8, true))
        .with_child(GenericField::new("c", GenericDataType::LargeUtf8, true));
    let events = rows(vec![
        vec![Event::StartStruct, Event::Str("a"), Event::I8(1), Event::EndStruct],
        vec![
            Event::StartStruct,
            Event::Str("a"),
            Event::I8(2),
            Event::Str("b"),
            Event::I8(3),
            Event::Str("c"),
            Event::Str("x"),
            Event::EndStruct,
        ],
        vec![
            Event::StartStruct,
            Event::Str("a"),
            Event::I8(4),
            Event::Str("b"),
            Event::Null,
            Event::EndStruct,
        ],
    ]);
    let interpreter = run(field.clone(), &events).unwrap();
    let buffers = &interpreter.buffers;
    assert_eq!(buffers.u8[0], vec![1, 2, 4]);
    assert_eq!(buffers.u8[1].len(), 3);
    assert_eq!(buffers.u8[1][1], 3);
    assert_eq!(buffers.u1[0], vec![false, true, false]);
    assert_eq!(buffers.u1[1], vec![false, true, false]);
    assert_eq!(buffers.u64_offsets[0].offsets, vec![0, 0, 1, 1]);
    // in the last record the fields a and b were seen, c was not
    assert!(buffers.seen[0].contains(0) && buffers.seen[0].contains(1));
    assert!(!buffers.seen[0].contains(2));

    // the field a cannot be absent, and fields arrive in order
    let missing = rows(vec![vec![Event::StartStruct, Event::EndStruct]]);
    assert!(run(field.clone(), &missing).is_err());
    let out_of_order = rows(vec![vec![Event::StartStruct, Event::Str("b"), Event::I8(3)]]);
    assert!(run(field, &out_of_order).is_err());
}

#[test]
fn map_as_struct_passes_over_the_values_of_unknown_keys() {
    let field = GenericField::new("root", GenericDataType::Struct, false)
        .with_strategy(Strategy::MapAsStruct)
        .with_child(GenericField::new("a", GenericDataType::I8, false));
    let events = rows(vec![vec![
        Event::StartStruct,
        Event::Str("x"),
        Event::StartSequence,
        Event::StartStruct,
        Event::Str("a"),
        Event::EndStruct,
        Event::EndSequence,
        Event::Str("y"),
        Event::SomeMarker,
        Event::U8(1),
        Event::Str("a"),
        Event::I8(7),
        Event::U64(3),
        Event::Null,
        Event::EndStruct,
    ]]);
    let interpreter = run(field.clone(), &events).unwrap();
    assert_eq!(interpreter.buffers.u8[0], vec![7]);
    assert_eq!(interpreter.skip, None);

    let key_is_a_container =
        rows(vec![vec![Event::StartStruct, Event::StartSequence, Event::EndSequence]]);
    assert!(run(field.clone(), &key_is_a_container).is_err());
    let ends_inside_a_value =
        vec![Event::StartSequence, Event::StartStruct, Event::Str("x"), Event::StartSequence];
    let mut interpreter = interpreter_for(field);
    interpreter.accept_all(&ends_inside_a_value).unwrap();
    assert_eq!(interpreter.skip, Some(1));
    assert!(interpreter.finish().is_err());
}

#[test]
fn tuples_arrive_as_sequences() {
    let field = GenericField::new("root", GenericDataType::Struct, false)
        .with_strategy(Strategy::TupleAsStruct)
        .with_child(GenericField::new("0", GenericDataType::U8, false))
        .with_child(GenericField::new("1", GenericDataType::Bool, false));
    let events = rows(vec![
        vec![Event::StartSequence, Event::U8(1), Event::Bool(true), Event::EndSequence],
        vec![Event::StartSequence, Event::U8(2), Event::Bool(false), Event::EndSequence],
    ]);
    let buffers = run(field.clone(), &events).unwrap().buffers;
    assert_eq!(buffers.u8[0], vec![1, 2]);
    assert_eq!(buffers.u1[0], vec![true, false]);

    let too_short = rows(vec![vec![Event::StartSequence, Event::U8(1), Event::EndSequence]]);
    assert!(run(field.clone(), &too_short).is_err());
    let too_long = rows(vec![vec![
        Event::StartSequence,
        Event::U8(1),
        Event::Bool(true),
        Event::U8(1),
    ]]);
    assert!(run(field, &too_long).is_err());
}

#[test]
fn maps_arrive_as_keys_and_values() {
    let field = GenericField::new("root", GenericDataType::KeyValueMap, false).with_child(
        GenericField::new("entries", GenericDataType::Struct, false)
            .with_child(GenericField::new("key", GenericDataType::Utf8, false))
            .with_child(GenericField::new("value", GenericDataType::U8, true)),
    );
    let events = rows(vec![
        vec![
            Event::StartStruct,
            Event::Str("a"),
            Event::U8(1),
            Event::Str("bc"),
            Event::Null,
            Event::EndStruct,
        ],
        vec![Event::StartStruct, Event::EndStruct],
        vec![Event::StartStruct, Event::Str("d"), Event::SomeMarker, Event::U8(4), Event::EndStruct],
    ]);
    let buffers = run(field, &events).unwrap().buffers;
    assert_eq!(buffers.u32_offsets[0].offsets, vec![0, 2, 2, 3]);
    assert_eq!(buffers.u8[0], b"abcd".to_vec());
    assert_eq!(buffers.u32_offsets[1].offsets, vec![0, 1, 3, 4]);
    assert_eq!(buffers.u1[0], vec![true, false, true]);
    assert_eq!(buffers.u8[1].len(), 3);
}

#[test]
fn lists_with_32_bit_offsets_and_nested_lists() {
    let field = GenericField::new("root", GenericDataType::List, false).with_child(
        GenericField::new("element", GenericDataType::LargeList, false)
            .with_child(GenericField::new("element", GenericDataType::U32, false)),
    );
    let inner = |values: &[u32]| {
        let mut events = vec![Event::StartSequence];
        events.extend(values.iter().map(|value| Event::U32(*value)));
        events.push(Event::EndSequence);
        events
    };
    let outer = |lists: Vec<Vec<Event<'static>>>| rows(lists);
    let events = rows(vec![
        outer(vec![inner(&[0, 1, 2]), inner(&[3, 4])]),
        outer(vec![inner(&[5, 6]), inner(&[])]),
        outer(vec![]),
    ]);
    let buffers = run(field, &events).unwrap().buffers;
    assert_eq!(buffers.u32_offsets[0].offsets, vec![0, 2, 4, 4]);
    assert_eq!(buffers.u64_offsets[0].offsets, vec![0, 3, 5, 7, 7]);
    assert_eq!(buffers.u32[0], vec![0, 1, 2, 3, 4, 5, 6]);
    for offsets in [&buffers.u32_offsets[0].offsets, &buffers.u64_offsets[0].offsets] {
        assert_eq!(offsets[0], 0);
        assert!(offsets.windows(2).all(|pair| pair[0] <= pair[1]));
    }
    assert_eq!(*buffers.u64_offsets[0].offsets.last().unwrap(), buffers.u32[0].len() as i64);
}

#[test]
fn union_with_each_variant_once() {
    let mut field = GenericField::new("root", GenericDataType::Union, false);
    for idx in 0..5 {
        field = field.with_child(GenericField::new(&format!("{idx}"), GenericDataType::U16, false));
    }
    let events = rows(
        (0..5u16).map(|tag| vec![Event::U16(tag), Event::U16(100 + tag)]).collect(),
    );
    let buffers = run(field, &events).unwrap().buffers;
    assert_eq!(buffers.u8[0], vec![0, 1, 2, 3, 4]);
    for idx in 0..5 {
        assert_eq!(buffers.u16[idx], vec![100 + idx as u16]);
    }
}

#[test]
fn union_rejects_type_codes_out_of_bounds() {
    let field = GenericField::new("root", GenericDataType::Union, false)
        .with_child(GenericField::new("0", GenericDataType::I32, false))
        .with_child(GenericField::new("1", GenericDataType::Utf8, false));
    assert!(run(field.clone(), &rows(vec![vec![Event::I64(1), Event::Str("a")]])).is_ok());
    for tag in [Event::U8(2), Event::I8(-1), Event::U64(u64::MAX), Event::Str("0"), Event::Null] {
        let error = run(field.clone(), &rows(vec![vec![tag, Event::I32(0)]])).unwrap_err();
        assert_eq!(error.kind, ErrorKind::Interpret);
    }
    assert_eq!(event_index(&Event::I16(7)), Some(7));
    assert_eq!(event_index(&Event::I16(-7)), None);
    assert_eq!(event_index(&Event::Bool(true)), None);
}

#[test]
fn unknown_variant_fails_with_its_message() {
    let field = GenericField::new("root", GenericDataType::Union, false)
        .with_child(GenericField::new("0", GenericDataType::I32, false))
        .with_child(
            GenericField::new("1", GenericDataType::Null, true)
                .with_strategy(Strategy::UnknownVariant),
        );
    let error = run(field, &rows(vec![vec![Event::U8(1), Event::Null]])).unwrap_err();
    assert_eq!(error.kind, ErrorKind::Interpret);
    assert!(error.message().contains("an unknown variant with index 1"));
}

#[test]
fn dictionary_overflows_its_index_type() {
    let field = GenericField::new("root", GenericDataType::Dictionary, false)
        .with_child(GenericField::new("key", GenericDataType::I8, false))
        .with_child(GenericField::new("value", GenericDataType::LargeUtf8, false));
    let mut interpreter = interpreter_for(field);
    interpreter.accept(&Event::StartSequence).unwrap();
    for idx in 0..128 {
        interpreter.accept(&Event::OwnedStr(format!("{idx}"))).unwrap();
    }
    interpreter.accept(&Event::Str("5")).unwrap();
    let error = interpreter.accept(&Event::Str("one more")).unwrap_err();
    assert_eq!(error.kind, ErrorKind::Interpret);
}

#[test]
fn dictionary_with_large_values() {
    let field = GenericField::new("root", GenericDataType::Dictionary, true)
        .with_child(GenericField::new("key", GenericDataType::U64, false))
        .with_child(GenericField::new("value", GenericDataType::LargeUtf8, false));
    let events =
        rows(vec![vec![Event::Str("ab")], vec![Event::Null], vec![Event::Str("ab")]]);
    let buffers = run(field, &events).unwrap().buffers;
    assert_eq!(buffers.u64[0], vec![0, 0, 0]);
    assert_eq!(buffers.u1[0], vec![true, false, true]);
    assert_eq!(buffers.u8[0], b"ab".to_vec());
    assert_eq!(buffers.u64_offsets[0].offsets, vec![0, 2]);
    assert_eq!(buffers.dictionaries[0], vec!["ab".to_string()]);
}

#[test]
fn dates_are_read_from_text() {
    let naive = GenericField::new("root", GenericDataType::Date64, false)
        .with_strategy(Strategy::NaiveStrAsDate64);
    let events = rows(vec![
        vec![Event::Str("1970-01-01T00:00:01.500")],
        vec![Event::OwnedStr("2015-09-18T23:56:04".to_string())],
    ]);
    let buffers = run(naive.clone(), &events).unwrap().buffers;
    assert_eq!(buffers.u64[0], vec![1_500, 1_442_620_564_000]);
    assert!(run(naive.clone(), &rows(vec![vec![Event::Str("2015-09-18T23:56:04Z")]])).is_err());
    assert!(run(naive.clone(), &rows(vec![vec![Event::Str("yesterday")]])).is_err());
    assert!(run(naive, &rows(vec![vec![Event::I64(0)]])).is_err());

    let utc = GenericField::new("root", GenericDataType::Date64, true)
        .with_strategy(Strategy::UtcStrAsDate64);
    let events = rows(vec![
        vec![Event::Str("2015-09-18T23:56:04Z")],
        vec![Event::Null],
        vec![Event::Str("1969-12-31T23:59:59Z")],
    ]);
    let buffers = run(utc.clone(), &events).unwrap().buffers;
    assert_eq!(buffers.u64[0], vec![1_442_620_564_000, 0, (-1_000i64) as u64]);
    assert_eq!(buffers.u1[0], vec![true, false, true]);
    assert!(run(utc, &rows(vec![vec![Event::Str("2015-09-18T23:56:04")]])).is_err());
}

#[test]
fn programs_that_consume_nothing_fail() {
    let mut program = Program::new(unwrapped());
    program.structure.program = vec![
        Instruction { next: 1, code: Bytecode::TupleStructItem },
        Instruction { next: 0, code: Bytecode::TupleStructItem },
    ];
    let mut interpreter = Interpreter::new(program);
    let error = interpreter.accept(&Event::U8(0)).unwrap_err();
    assert_eq!(error.kind, ErrorKind::Interpret);
}

#[test]
fn programs_that_use_what_they_do_not_have_fail() {
    let programs = vec![
        vec![Bytecode::PushU8 { idx: 0 }],
        vec![Bytecode::UnionEnd],
        vec![Bytecode::ProgramEnd],
        vec![Bytecode::Panic { message: "stop".to_string() }],
        vec![Bytecode::ListItem { list_idx: 0, offsets: 0 }],
        vec![Bytecode::Variant { union_idx: 0, type_idx: 0 }],
        vec![Bytecode::StructItem { struct_idx: 0, seen: 0 }],
        vec![Bytecode::OptionMarker { self_pos: 0, if_none: 0, validity: 0, null_definition: 0 }],
    ];
    for codes in programs {
        let mut program = Program::new(unwrapped());
        program.buffers = BufferCounts::new();
        program.structure.program =
            codes.into_iter().map(|code| Instruction { next: 0, code }).collect();
        let mut interpreter = Interpreter::new(program);
        assert!(interpreter.step(&Event::U8(0)).is_err());
        interpreter.program_counter = 5;
        assert!(interpreter.step(&Event::U8(0)).is_err());
    }
}

#[test]
fn traced_schema_serializes_and_reads_back() {
    let events: Vec<Event<'static>> = vec![
        Event::StartSequence,
        Event::StartSequence,
        Event::I8(0),
        Event::I8(1),
        Event::I8(2),
        Event::EndSequence,
        Event::StartSequence,
        Event::I8(3),
        Event::I8(4),
        Event::EndSequence,
        Event::StartSequence,
        Event::EndSequence,
        Event::EndSequence,
    ];
    // trace the rows
    let mut tracer = Tracer::new();
    for event in &events[1..events.len() - 1] {
        tracer.accept(event.clone()).unwrap();
    }
    tracer.finish().unwrap();
    let field = tracer.to_field("root").unwrap();
    assert_eq!(
        field,
        GenericField::new("root", GenericDataType::LargeList, false)
            .with_child(GenericField::new("element", GenericDataType::I8, false))
    );

    // serialize
    let buffers = run(field, &events).unwrap().buffers;

    // read back
    let values: Vec<Event<'static>> =
        buffers.u8[0].iter().map(|value| Event::I8(*value as i8)).collect();
    let offsets: Vec<usize> =
        buffers.u64_offsets[0].offsets.iter().map(|offset| *offset as usize).collect();
    let validity = vec![true; offsets.len() - 1];
    let mut source =
        ListSource::new(DynamicSource::new(SliceSource::new(&values)), offsets, validity);
    let mut actual = vec![Event::StartSequence];
    while let Some(event) = source.next().unwrap() {
        actual.push(event);
    }
    actual.push(Event::EndSequence);
    assert_eq!(actual, events);
}

#[test]
fn list_source_rejects_buffers_that_do_not_go_together() {
    let values: Vec<Event<'static>> = vec![Event::I8(0)];
    let source = |offsets: Vec<usize>, validity: Vec<bool>| {
        ListSource::new(DynamicSource::new(SliceSource::new(&values)), offsets, validity)
    };
    // a row without offsets
    assert!(source(vec![0], vec![true]).next().is_err());
    // a null row with items
    assert!(source(vec![0, 1], vec![false]).next().is_err());
    // fewer items than the offsets say
    let mut short = source(vec![0, 2], vec![true]);
    assert_eq!(short.next().unwrap(), Some(Event::StartSequence));
    assert_eq!(short.next().unwrap(), Some(Event::I8(0)));
    assert!(short.next().is_err());
    // an item that ends a container it did not start
    let values: Vec<Event<'static>> = vec![Event::EndStruct];
    let mut unbalanced =
        ListSource::new(DynamicSource::new(SliceSource::new(&values)), vec![0, 1], vec![true]);
    assert_eq!(unbalanced.next().unwrap(), Some(Event::StartSequence));
    assert!(unbalanced.next().is_err());
}

#[test]
fn list_source_reads_nullable_items() {
    let values: Vec<Event<'static>> =
        vec![Event::SomeMarker, Event::I8(0), Event::Null, Event::I8(2)];
    let mut source = ListSource::new(
        DynamicSource::new(SliceSource::new(&values)),
        vec![0, 2, 3],
        vec![true, true],
    );
    let mut actual = vec![];
    while let Some(event) = source.next().unwrap() {
        actual.push(event);
    }
    assert_eq!(
        actual,
        vec![
            Event::StartSequence,
            Event::SomeMarker,
            Event::I8(0),
            Event::Null,
            Event::EndSequence,
            Event::StartSequence,
            Event::I8(2),
            Event::EndSequence,
        ]
    );
}
