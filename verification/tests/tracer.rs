use serde_arrow::error::ErrorKind;
use serde_arrow::event::Event;
use serde_arrow::schema::{GenericDataType, GenericField};
use serde_arrow::tracer::{
    FieldBuilder, ListTracer, ListTracerState, PrimitiveTracer, PrimitiveType, StructTracer,
    StructTracerState, Tracer, UnknownTracer,
};

fn trace(events: Vec<Event<'static>>) -> Tracer {
    let mut tracer = Tracer::new();
    for event in events {
        tracer.accept(event).unwrap();
    }
    tracer.finish().unwrap();
    tracer
}

#[test]
fn new_tracers_have_seen_nothing() {
    assert!(matches!(Tracer::new(), Tracer::Unknown(UnknownTracer { nullable: false })));
    assert!(UnknownTracer::new().finish().is_ok());
    let primitive = PrimitiveTracer::new(true);
    assert_eq!(primitive.item_type, PrimitiveType::Unknown);
    assert!(primitive.nullable);
    let list = ListTracer::new(false);
    assert_eq!(list.next, ListTracerState::Start);
    assert!(matches!(*list.item_tracer, Tracer::Unknown(_)));
    let record = StructTracer::new(true);
    assert_eq!(record.next, StructTracerState::Start);
    assert!(record.field_tracers.is_empty() && record.field_names.is_empty());
    assert!(record.nullable);
}

#[test]
fn trace_primitives() {
    let tracer = trace(vec![Event::U8(1), Event::U8(2)]);
    assert_eq!(
        tracer.to_field("root").unwrap(),
        GenericField::new("root", GenericDataType::U8, false)
    );

    let tracer = trace(vec![Event::Str("a"), Event::OwnedStr("b".to_string())]);
    assert_eq!(
        tracer.to_field("root").unwrap(),
        GenericField::new("root", GenericDataType::LargeUtf8, false)
    );

    let tracer = trace(vec![Event::F32(0), Event::F32(1)]);
    assert_eq!(
        tracer.build_field("x").unwrap(),
        GenericField::new("x", GenericDataType::F32, false)
    );
}

#[test]
fn trace_nullable_primitives() {
    let tracer = trace(vec![Event::Null, Event::I32(1)]);
    assert_eq!(
        tracer.to_field("root").unwrap(),
        GenericField::new("root", GenericDataType::I32, true)
    );
    let tracer = trace(vec![Event::I32(1), Event::SomeMarker, Event::I32(2)]);
    assert_eq!(
        tracer.to_field("root").unwrap(),
        GenericField::new("root", GenericDataType::I32, true)
    );
}

#[test]
fn trace_rejects_another_primitive_type() {
    let mut tracer = Tracer::new();
    tracer.accept(Event::U8(1)).unwrap();
    let error = tracer.accept(Event::I8(1)).unwrap_err();
    assert_eq!(error.kind, ErrorKind::Trace);
    assert!(tracer.accept(Event::StartSequence).is_err());
    assert!(tracer.accept(Event::EndStruct).is_err());
    assert!(tracer.accept(Event::U8(2)).is_ok());

    let mut primitive = PrimitiveTracer::new(false);
    primitive.accept(Event::Bool(true)).unwrap();
    assert!(primitive.accept(Event::U8(0)).is_err());
    assert!(primitive.finish().is_ok());
    assert_eq!(
        primitive.to_field("b").unwrap(),
        GenericField::new("b", GenericDataType::Bool, false)
    );
}

#[test]
fn trace_nothing_but_nulls() {
    let tracer = trace(vec![Event::Null, Event::Null]);
    assert!(matches!(tracer, Tracer::Unknown(UnknownTracer { nullable: true })));
    assert_eq!(tracer.to_field("root").unwrap_err().kind, ErrorKind::Trace);
    assert!(UnknownTracer::new().to_field("root").is_err());
    assert!(PrimitiveTracer::new(false).to_field("root").is_err());

    let mut tracer = Tracer::new();
    assert!(tracer.accept(Event::EndSequence).is_err());
    assert!(tracer.accept(Event::EndStruct).is_err());
}

#[test]
fn trace_list_of_structs() {
    let tracer = trace(vec![
        Event::StartSequence,
        Event::StartStruct,
        Event::Str("a"),
        Event::I8(1),
        Event::Str("b"),
        Event::Str("x"),
        Event::EndStruct,
        Event::StartStruct,
        Event::OwnedStr("b".to_string()),
        Event::Null,
        Event::Str("c"),
        Event::StartSequence,
        Event::SomeMarker,
        Event::U64(1),
        Event::EndSequence,
        Event::Str("a"),
        Event::I8(2),
        Event::EndStruct,
        Event::EndSequence,
    ]);
    let expected = GenericField::new("root", GenericDataType::LargeList, false).with_child(
        GenericField::new("element", GenericDataType::Struct, false)
            .with_child(GenericField::new("a", GenericDataType::I8, false))
            .with_child(GenericField::new("b", GenericDataType::LargeUtf8, true))
            .with_child(
                GenericField::new("c", GenericDataType::LargeList, false)
                    .with_child(GenericField::new("element", GenericDataType::U64, true)),
            ),
    );
    assert_eq!(tracer.to_field("root").unwrap(), expected);
}

#[test]
fn trace_nullable_containers() {
    let tracer = trace(vec![
        Event::StartSequence,
        Event::U8(0),
        Event::EndSequence,
        Event::Null,
        Event::SomeMarker,
        Event::StartSequence,
        Event::EndSequence,
    ]);
    let field = tracer.to_field("root").unwrap();
    assert!(field.nullable);
    assert_eq!(field.data_type, GenericDataType::LargeList);

    let tracer = trace(vec![
        Event::Null,
        Event::StartStruct,
        Event::Str("a"),
        Event::SomeMarker,
        Event::Bool(true),
        Event::EndStruct,
    ]);
    let field = tracer.to_field("root").unwrap();
    assert!(field.nullable);
    assert_eq!(field.children, vec![GenericField::new("a", GenericDataType::Bool, true)]);
}

#[test]
fn trace_keeps_track_of_the_depth() {
    let mut tracer = ListTracer::new(false);
    tracer.accept(Event::StartSequence).unwrap();
    assert_eq!(tracer.next, ListTracerState::Item(0));
    tracer.accept(Event::StartSequence).unwrap();
    assert_eq!(tracer.next, ListTracerState::Item(1));
    tracer.accept(Event::StartSequence).unwrap();
    assert_eq!(tracer.next, ListTracerState::Item(2));
    tracer.accept(Event::U8(1)).unwrap();
    assert_eq!(tracer.next, ListTracerState::Item(2));
    assert!(tracer.finish().is_err());
    tracer.accept(Event::EndSequence).unwrap();
    tracer.accept(Event::EndSequence).unwrap();
    assert_eq!(tracer.next, ListTracerState::Item(0));
    assert!(tracer.accept(Event::EndStruct).is_err());
    tracer.accept(Event::EndSequence).unwrap();
    assert_eq!(tracer.next, ListTracerState::Start);
    assert!(tracer.finish().is_ok());
    assert!(tracer.accept(Event::U8(0)).is_err());
}

#[test]
fn trace_struct_states() {
    let mut tracer = StructTracer::new(false);
    assert!(tracer.accept(Event::Str("a")).is_err());
    tracer.accept(Event::StartStruct).unwrap();
    assert_eq!(tracer.next, StructTracerState::Key);
    assert!(tracer.accept(Event::U8(0)).is_err());
    assert!(tracer.accept(Event::EndSequence).is_err());
    tracer.accept(Event::Str("a")).unwrap();
    assert_eq!(tracer.next, StructTracerState::Value(0, 0));
    tracer.accept(Event::SomeMarker).unwrap();
    assert_eq!(tracer.next, StructTracerState::Value(0, 0));
    tracer.accept(Event::StartStruct).unwrap();
    assert_eq!(tracer.next, StructTracerState::Value(0, 1));
    assert!(tracer.finish().is_err());
    tracer.accept(Event::EndStruct).unwrap();
    assert_eq!(tracer.next, StructTracerState::Key);
    tracer.accept(Event::Str("b")).unwrap();
    assert_eq!(tracer.next, StructTracerState::Value(1, 0));
    tracer.accept(Event::U8(1)).unwrap();
    tracer.accept(Event::Str("a")).unwrap();
    assert_eq!(tracer.next, StructTracerState::Value(0, 0));
    assert!(tracer.accept(Event::EndStruct).is_err());
    assert_eq!(tracer.field_names, vec!["a".to_string(), "b".to_string()]);
}

#[test]
fn trace_fails_inside_an_open_container() {
    let mut tracer = Tracer::new();
    tracer.accept(Event::StartSequence).unwrap();
    tracer.accept(Event::U8(0)).unwrap();
    assert_eq!(tracer.finish().unwrap_err().kind, ErrorKind::Trace);

    let mut tracer = Tracer::new();
    tracer.accept(Event::StartStruct).unwrap();
    assert!(tracer.finish().is_err());
    tracer.accept(Event::EndStruct).unwrap();
    assert!(tracer.finish().is_ok());
}

#[test]
fn accepted_events_are_balanced() {
    let events = vec![
        Event::StartSequence,
        Event::StartStruct,
        Event::Str("a"),
        Event::StartSequence,
        Event::EndSequence,
        Event::EndStruct,
        Event::EndSequence,
    ];
    let count = |wanted: &Event<'static>| events.iter().filter(|event| *event == wanted).count();
    assert_eq!(count(&Event::StartSequence), count(&Event::EndSequence));
    assert_eq!(count(&Event::StartStruct), count(&Event::EndStruct));
    trace(events.clone());

    // one end too many, and the end of another kind of container
    let mut tracer = Tracer::new();
    for event in events {
        tracer.accept(event).unwrap();
    }
    assert!(tracer.accept(Event::EndSequence).is_err());
    let mut tracer = Tracer::new();
    tracer.accept(Event::StartSequence).unwrap();
    tracer.accept(Event::StartStruct).unwrap();
    assert!(tracer.accept(Event::EndSequence).is_err());
}

#[test]
fn refused_events_leave_the_tracer_as_it_was() {
    let mut primitive = PrimitiveTracer::new(false);
    primitive.accept(Event::Bool(true)).unwrap();
    assert_eq!(primitive.accept(Event::I8(1)).unwrap_err().kind, ErrorKind::Trace);
    assert_eq!(primitive.item_type, PrimitiveType::Bool);
    assert!(!primitive.nullable);
    assert!(primitive.accept(Event::StartStruct).is_err());
    assert_eq!(primitive.item_type, PrimitiveType::Bool);
    assert!(!primitive.nullable);

    let mut tracer = Tracer::new();
    assert!(tracer.accept(Event::EndSequence).is_err());
    assert!(tracer.accept(Event::EndStruct).is_err());
    assert!(matches!(tracer, Tracer::Unknown(UnknownTracer { nullable: false })));

    // a value of another type for a field that was seen before
    let mut record = StructTracer::new(false);
    record.accept(Event::StartStruct).unwrap();
    record.accept(Event::Str("a")).unwrap();
    record.accept(Event::U8(1)).unwrap();
    record.accept(Event::Str("a")).unwrap();
    let before = format!("{:?}", record);
    assert!(record.accept(Event::Bool(true)).is_err());
    assert_eq!(format!("{:?}", record), before);
    assert_eq!(record.next, StructTracerState::Value(0, 0));
    assert_eq!(record.field_names, vec!["a".to_string()]);
    assert_eq!(record.field_names.len(), record.field_tracers.len());

    // an end outside any container of the value, which the field itself would accept
    let mut record = StructTracer::new(false);
    record.accept(Event::StartStruct).unwrap();
    record.accept(Event::Str("a")).unwrap();
    record.accept(Event::StartSequence).unwrap();
    record.next = StructTracerState::Value(0, 0);
    let before = format!("{:?}", record);
    assert!(record.accept(Event::EndSequence).is_err());
    assert_eq!(format!("{:?}", record), before);

    // a key that is no string
    let mut record = StructTracer::new(false);
    record.accept(Event::StartStruct).unwrap();
    let before = format!("{:?}", record);
    assert!(record.accept(Event::U8(0)).is_err());
    assert_eq!(format!("{:?}", record), before);

    let mut list = ListTracer::new(false);
    list.accept(Event::StartSequence).unwrap();
    list.accept(Event::U8(0)).unwrap();
    let before = format!("{:?}", list);
    assert!(list.accept(Event::Str("a")).is_err());
    assert!(list.accept(Event::EndStruct).is_err());
    assert_eq!(format!("{:?}", list), before);
}
