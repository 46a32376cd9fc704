use serde_arrow::deserializer::{
    expect_bool, expect_char, expect_f32, expect_f64, expect_integer, expect_string,
    expect_token, is_token, presence, value_kind, Deserializer, Presence, ValueKind,
};
use serde_arrow::error::ErrorKind;
use serde_arrow::event::Event;
use serde_arrow::source::{
    duplicate_event, required, EventSource, IntoEventSource, PeekableEventSource, SliceSource,
};

#[test]
fn slice_source_yields_its_events_in_order() {
    let events = vec![Event::U8(1), Event::Str("a"), Event::OwnedStr("b".to_string())];
    let mut source = SliceSource::new(&events);
    assert_eq!(source.next().unwrap(), Some(Event::U8(1)));
    assert_eq!(source.next().unwrap(), Some(Event::Str("a")));
    assert_eq!(source.next().unwrap(), Some(Event::OwnedStr("b".to_string())));
    assert_eq!(source.next().unwrap(), None);
    assert_eq!(source.next().unwrap(), None);

    let mut source = events.as_slice().into_event_source();
    assert_eq!(source.next().unwrap(), Some(Event::U8(1)));
    let mut source = source.into_event_source();
    assert_eq!(source.next().unwrap(), Some(Event::Str("a")));
}

#[test]
fn peekable_source_keeps_the_event_it_looked_at() {
    let events = vec![Event::U8(1), Event::U8(2)];
    let mut source = PeekableEventSource::new((&events).into_event_source());
    assert_eq!(source.peek().unwrap(), Some(Event::U8(1)));
    assert_eq!(source.peek().unwrap(), Some(Event::U8(1)));
    assert_eq!(source.next().unwrap(), Some(Event::U8(1)));
    assert_eq!(source.next().unwrap(), Some(Event::U8(2)));
    assert_eq!(source.peek().unwrap(), None);
    assert_eq!(source.peek().unwrap(), None);
    assert_eq!(source.next().unwrap(), None);
}

#[test]
fn events_are_duplicated_and_required() {
    assert_eq!(duplicate_event(&Some(Event::Str("a"))), Some(Event::Str("a")));
    assert_eq!(duplicate_event(&None), None);
    assert_eq!(Event::OwnedStr("x".to_string()).duplicate(), Event::OwnedStr("x".to_string()));
    assert_eq!(Event::F64(7).duplicate(), Event::F64(7));
    assert_eq!(Event::Str("a").as_str(), Some("a"));
    assert_eq!(Event::OwnedStr("b".to_string()).as_str(), Some("b"));
    assert_eq!(Event::U8(0).as_str(), None);
    assert_eq!(required(Some(Event::Null)).unwrap(), Event::Null);
    assert_eq!(required(None).unwrap_err().kind, ErrorKind::Interpret);
}

#[test]
fn value_kinds() {
    assert_eq!(value_kind(&Some(Event::Bool(true))).unwrap(), ValueKind::Bool);
    assert_eq!(value_kind(&Some(Event::I64(0))).unwrap(), ValueKind::I64);
    assert_eq!(value_kind(&Some(Event::F32(0))).unwrap(), ValueKind::F32);
    assert_eq!(value_kind(&Some(Event::Str("a"))).unwrap(), ValueKind::Str);
    assert_eq!(value_kind(&Some(Event::OwnedStr("a".to_string()))).unwrap(), ValueKind::String);
    assert_eq!(value_kind(&Some(Event::StartStruct)).unwrap(), ValueKind::Fields);
    assert_eq!(value_kind(&Some(Event::StartSequence)).unwrap(), ValueKind::Items);
    for event in [None, Some(Event::Null), Some(Event::SomeMarker), Some(Event::EndStruct)] {
        assert_eq!(value_kind(&event).unwrap_err().kind, ErrorKind::Interpret);
    }
}

#[test]
fn integers_within_bounds() {
    assert_eq!(expect_integer(Some(Event::U8(200)), 0, 255).unwrap(), 200);
    assert_eq!(expect_integer(Some(Event::I64(-128)), -128, 127).unwrap(), -128);
    assert_eq!(expect_integer(Some(Event::U64(u64::MAX)), 0, u64::MAX as i128).unwrap(), u64::MAX as i128);
    assert!(expect_integer(Some(Event::U8(200)), -128, 127).is_err());
    assert!(expect_integer(Some(Event::I8(-1)), 0, 255).is_err());
    assert!(expect_integer(Some(Event::Bool(true)), 0, 255).is_err());
    assert!(expect_integer(Some(Event::F32(1)), 0, 255).is_err());
    assert!(expect_integer(None, 0, 255).is_err());
}

#[test]
fn values_of_other_kinds() {
    assert!(expect_bool(Some(Event::Bool(true))).unwrap());
    assert!(expect_bool(Some(Event::U8(1))).is_err());
    assert!(expect_bool(None).is_err());
    assert_eq!(expect_f32(Some(Event::F32(1.5f32.to_bits()))).unwrap(), 1.5f32.to_bits());
    assert!(expect_f32(Some(Event::F64(0))).is_err());
    assert_eq!(expect_f64(Some(Event::F64(2.5f64.to_bits()))).unwrap(), 2.5f64.to_bits());
    assert!(expect_f64(Some(Event::F32(0))).is_err());
    assert_eq!(expect_string(Some(Event::Str("a"))).unwrap(), "a");
    assert_eq!(expect_string(Some(Event::OwnedStr("b".to_string()))).unwrap(), "b");
    assert!(expect_string(Some(Event::U8(0))).is_err());
}

#[test]
fn characters_are_encoded_as_u32() {
    assert_eq!(expect_char(Some(Event::U32('a' as u32))).unwrap(), 'a');
    assert_eq!(expect_char(Some(Event::U32(0x10FFFF))).unwrap(), '\u{10FFFF}');
    assert_eq!(expect_char(Some(Event::U32(0xD7FF))).unwrap(), '\u{D7FF}');
    assert!(expect_char(Some(Event::U32(0xD800))).is_err());
    assert!(expect_char(Some(Event::U32(0xDFFF))).is_err());
    assert!(expect_char(Some(Event::U32(0x110000))).is_err());
    assert!(expect_char(Some(Event::U8(97))).is_err());
    assert!(expect_char(None).is_err());
}

#[test]
fn tokens_without_values() {
    assert!(expect_token(Some(Event::StartSequence), &Event::StartSequence).is_ok());
    assert!(expect_token(Some(Event::Null), &Event::Null).is_ok());
    assert!(expect_token(Some(Event::StartStruct), &Event::StartSequence).is_err());
    assert!(expect_token(None, &Event::EndStruct).is_err());
    assert!(is_token(&Some(Event::EndSequence), &Event::EndSequence));
    assert!(!is_token(&Some(Event::EndStruct), &Event::EndSequence));
    assert!(!is_token(&None, &Event::EndStruct));
    assert_eq!(presence(&Some(Event::Null)), Presence::Absent);
    assert_eq!(presence(&Some(Event::SomeMarker)), Presence::Marked);
    assert_eq!(presence(&Some(Event::U8(0))), Presence::Unmarked);
    assert_eq!(presence(&None), Presence::Unmarked);
}

#[test]
fn deserializer_reads_a_record() {
    let events = vec![
        Event::StartStruct,
        Event::Str("a"),
        Event::SomeMarker,
        Event::I8(-3),
        Event::Str("b"),
        Event::Null,
        Event::Str("c"),
        Event::StartSequence,
        Event::U32('x' as u32),
        Event::Bool(false),
        Event::EndSequence,
        Event::EndStruct,
    ];
    let mut de = Deserializer::new(SliceSource::new(&events));
    assert_eq!(de.deserialize_any().unwrap(), ValueKind::Fields);
    de.deserialize_token(&Event::StartStruct).unwrap();
    assert!(de.has_next(&Event::EndStruct).unwrap());
    assert_eq!(de.deserialize_string().unwrap(), "a");
    assert!(de.deserialize_option().unwrap());
    assert_eq!(de.deserialize_integer(-128, 127).unwrap(), -3);
    assert_eq!(de.deserialize_string().unwrap(), "b");
    assert!(!de.deserialize_option().unwrap());
    assert_eq!(de.deserialize_string().unwrap(), "c");
    assert!(de.deserialize_option().unwrap());
    assert_eq!(de.deserialize_any().unwrap(), ValueKind::Items);
    de.deserialize_token(&Event::StartSequence).unwrap();
    assert!(de.has_next(&Event::EndSequence).unwrap());
    assert_eq!(de.deserialize_char().unwrap(), 'x');
    assert!(!de.deserialize_bool().unwrap());
    assert!(!de.has_next(&Event::EndSequence).unwrap());
    de.deserialize_token(&Event::EndSequence).unwrap();
    assert!(!de.has_next(&Event::EndStruct).unwrap());
    assert_eq!(de.peek().unwrap(), Some(Event::EndStruct));
    assert_eq!(de.take().unwrap(), Some(Event::EndStruct));
    assert!(de.finish().is_ok());
}

#[test]
fn deserializer_rejects_what_it_does_not_expect() {
    let events = vec![Event::F32(3), Event::F64(4), Event::U8(1), Event::U8(2)];
    let mut de = Deserializer::new(SliceSource::new(&events));
    assert_eq!(de.deserialize_f32().unwrap(), 3);
    assert_eq!(de.deserialize_f64().unwrap(), 4);
    assert!(de.deserialize_token(&Event::Null).is_err());
    assert!(de.finish().is_err());
    assert!(de.deserialize_bool().is_err());
    assert!(de.deserialize_any().is_err());
}
