//! Infers a schema from the events of a batch of values.
//!
//! A tracer is a state machine over the events it accepts. What it does
//! with an event is defined by [`tracer_accept`], the schema it has seen
//! by [`tracer_field`].
use vstd::prelude::*;
use crate::error::{fail, fails_with, Error, ErrorKind};
use crate::event::{Event, Token};
use crate::schema::{FieldView, GenericDataType, GenericField};
use crate::text::{find_name, first_index_of, string_views};
use crate::tracer_laws::{
    fields_are_named, is_nullable, lemma_accept_keeps_fields, lemma_accept_keeps_nullable,
    names_of,
};

verus! {

/// The type of the values that a primitive tracer has seen.
#[derive(Debug, Clone, Copy, PartialEq, Eq, Structural)]
pub enum PrimitiveType {
    Unknown,
    Bool,
    Str,
    I8,
    I16,
    I32,
    I64,
    U8,
    U16,
    U32,
    U64,
    F32,
    F64,
}

/// Where a list tracer stands.
#[derive(Debug, Clone, Copy, PartialEq, Eq, Structural)]
pub enum ListTracerState {
    /// Outside a list.
    Start,
    /// Inside a list, with the given number of containers open in the
    /// current item.
    Item(usize),
}

/// Where a struct tracer stands.
#[derive(Debug, Clone, Copy, PartialEq, Eq, Structural)]
pub enum StructTracerState {
    /// Outside a record.
    Start,
    /// Inside a record, in front of a key or the end of the record.
    Key,
    /// Inside the value of the given field, with the given number of
    /// containers open in it.
    Value(usize, usize),
}

/// Traces a subtree of which only nulls were seen.
#[derive(Debug)]
pub struct UnknownTracer {
    pub nullable: bool,
}

/// Traces values of one primitive type.
#[derive(Debug)]
pub struct PrimitiveTracer {
    pub item_type: PrimitiveType,
    pub nullable: bool,
}

/// Traces lists.
#[derive(Debug)]
pub struct ListTracer {
    pub item_tracer: Box<Tracer>,
    pub nullable: bool,
    pub next: ListTracerState,
}

/// Traces records. The fields are kept in the order in which they were
/// first seen.
#[derive(Debug)]
pub struct StructTracer {
    pub field_tracers: Vec<Tracer>,
    pub nullable: bool,
    pub field_names: Vec<String>,
    pub next: StructTracerState,
}

/// Traces any subtree of values.
#[derive(Debug)]
pub enum Tracer {
    Unknown(UnknownTracer),
    Struct(StructTracer),
    List(ListTracer),
    Primitive(PrimitiveTracer),
}

/// The mathematical value of a [`Tracer`].
#[allow(inconsistent_fields)]
pub enum TracerView {
    Unknown { nullable: bool },
    Struct {
        field_tracers: Seq<TracerView>,
        nullable: bool,
        field_names: Seq<Seq<char>>,
        next: StructTracerState,
    },
    List { item_tracer: Box<TracerView>, nullable: bool, next: ListTracerState },
    Primitive { item_type: PrimitiveType, nullable: bool },
}

/// The views of a list of tracers, in order.
pub open spec fn tracer_views(tracers: Seq<Tracer>) -> Seq<TracerView>
    decreases tracers, 0nat,
{
    Seq::new(
        tracers.len(),
        |i: int|
            if 0 <= i < tracers.len() {
                tracer_view(tracers[i])
            } else {
                arbitrary()
            },
    )
}

/// The view of a tracer: its state, with the tracers nested in it taken by
/// their views.
pub open spec fn tracer_view(tracer: Tracer) -> TracerView
    decreases tracer, 1nat,
{
    match tracer {
        Tracer::Unknown(t) => TracerView::Unknown { nullable: t.nullable },
        Tracer::Struct(t) => TracerView::Struct {
            field_tracers: tracer_views(t.field_tracers@),
            nullable: t.nullable,
            field_names: string_views(t.field_names@),
            next: t.next,
        },
        Tracer::List(t) => TracerView::List {
            item_tracer: Box::new(tracer_view(*t.item_tracer)),
            nullable: t.nullable,
            next: t.next,
        },
        Tracer::Primitive(t) => TracerView::Primitive {
            item_type: t.item_type,
            nullable: t.nullable,
        },
    }
}

impl View for Tracer {
    type V = TracerView;

    open spec fn view(&self) -> TracerView {
        tracer_view(*self)
    }
}

impl View for UnknownTracer {
    type V = TracerView;

    open spec fn view(&self) -> TracerView {
        TracerView::Unknown { nullable: self.nullable }
    }
}

impl View for PrimitiveTracer {
    type V = TracerView;

    open spec fn view(&self) -> TracerView {
        TracerView::Primitive { item_type: self.item_type, nullable: self.nullable }
    }
}

impl View for ListTracer {
    type V = TracerView;

    open spec fn view(&self) -> TracerView {
        TracerView::List {
            item_tracer: Box::new(tracer_view(*self.item_tracer)),
            nullable: self.nullable,
            next: self.next,
        }
    }
}

impl View for StructTracer {
    type V = TracerView;

    open spec fn view(&self) -> TracerView {
        TracerView::Struct {
            field_tracers: tracer_views(self.field_tracers@),
            nullable: self.nullable,
            field_names: string_views(self.field_names@),
            next: self.next,
        }
    }
}

/// The primitive type of the value that a token carries.
pub open spec fn primitive_type_of(token: Token) -> Option<PrimitiveType> {
    match token {
        Token::Bool(_) => Some(PrimitiveType::Bool),
        Token::Str(_) => Some(PrimitiveType::Str),
        Token::I8(_) => Some(PrimitiveType::I8),
        Token::I16(_) => Some(PrimitiveType::I16),
        Token::I32(_) => Some(PrimitiveType::I32),
        Token::I64(_) => Some(PrimitiveType::I64),
        Token::U8(_) => Some(PrimitiveType::U8),
        Token::U16(_) => Some(PrimitiveType::U16),
        Token::U32(_) => Some(PrimitiveType::U32),
        Token::U64(_) => Some(PrimitiveType::U64),
        Token::F32(_) => Some(PrimitiveType::F32),
        Token::F64(_) => Some(PrimitiveType::F64),
        _ => None,
    }
}

/// The data type that stands for a primitive type in a schema. Strings are
/// laid out with 64-bit offsets.
pub open spec fn data_type_of(item_type: PrimitiveType) -> Option<GenericDataType> {
    match item_type {
        PrimitiveType::Unknown => None,
        PrimitiveType::Bool => Some(GenericDataType::Bool),
        PrimitiveType::Str => Some(GenericDataType::LargeUtf8),
        PrimitiveType::I8 => Some(GenericDataType::I8),
        PrimitiveType::I16 => Some(GenericDataType::I16),
        PrimitiveType::I32 => Some(GenericDataType::I32),
        PrimitiveType::I64 => Some(GenericDataType::I64),
        PrimitiveType::U8 => Some(GenericDataType::U8),
        PrimitiveType::U16 => Some(GenericDataType::U16),
        PrimitiveType::U32 => Some(GenericDataType::U32),
        PrimitiveType::U64 => Some(GenericDataType::U64),
        PrimitiveType::F32 => Some(GenericDataType::F32),
        PrimitiveType::F64 => Some(GenericDataType::F64),
    }
}

/// What a primitive tracer becomes by an event: a marker makes it
/// nullable, a value fixes its type. A value of another type and the
/// start or end of a container are rejected.
pub open spec fn primitive_accept(item_type: PrimitiveType, nullable: bool, token: Token) -> Option<
    TracerView,
> {
    if token.is_marker() {
        Some(TracerView::Primitive { item_type, nullable: true })
    } else {
        match primitive_type_of(token) {
            Some(seen) => if item_type == PrimitiveType::Unknown || item_type == seen {
                Some(TracerView::Primitive { item_type: seen, nullable })
            } else {
                None
            },
            None => None,
        }
    }
}

/// The state of a list tracer after the tracer of its items accepted an
/// event at the given depth.
pub open spec fn list_state_after(depth: usize, token: Token) -> Option<ListTracerState> {
    if token.is_start() {
        if depth == usize::MAX {
            None
        } else {
            Some(ListTracerState::Item((depth + 1) as usize))
        }
    } else if token.is_end() {
        if depth == 0 {
            None
        } else {
            Some(ListTracerState::Item((depth - 1) as usize))
        }
    } else {
        Some(ListTracerState::Item(depth))
    }
}

/// The state of a struct tracer after the tracer of the given field
/// accepted an event at the given depth. A value is complete when the
/// container it opened is closed, or, outside containers, with any event
/// but the marker of a present value.
pub open spec fn struct_state_after(field: usize, depth: usize, token: Token) -> Option<
    StructTracerState,
> {
    if token.is_start() {
        if depth == usize::MAX {
            None
        } else {
            Some(StructTracerState::Value(field, (depth + 1) as usize))
        }
    } else if token.is_end() {
        if depth == 0 {
            None
        } else if depth == 1 {
            Some(StructTracerState::Key)
        } else {
            Some(StructTracerState::Value(field, (depth - 1) as usize))
        }
    } else if depth == 0 {
        if token is SomeMarker {
            Some(StructTracerState::Value(field, 0))
        } else {
            Some(StructTracerState::Key)
        }
    } else {
        Some(StructTracerState::Value(field, depth))
    }
}

/// What a tracer becomes by an event, or `None` where it rejects the
/// event.
///
/// A tracer of unknown type becomes nullable by a marker and takes its
/// type from the first other event. A list tracer opens with the start of
/// a sequence, hands the events of its items to the tracer of its items,
/// and closes with the end of the sequence. A struct tracer opens with
/// the start of a struct, selects a field with each key, adding the field
/// if the key is new, hands the events of the value to the tracer of that
/// field, and closes with the end of the struct in place of a key.
/// Outside a list or a record, both become nullable by a marker.
pub open spec fn tracer_accept(tracer: TracerView, token: Token) -> Option<TracerView>
    decreases tracer,
{
    match tracer {
        TracerView::Unknown { nullable } => {
            if token.is_marker() {
                Some(TracerView::Unknown { nullable: true })
            } else if token is StartSequence {
                Some(
                    TracerView::List {
                        item_tracer: Box::new(TracerView::Unknown { nullable: false }),
                        nullable,
                        next: ListTracerState::Item(0),
                    },
                )
            } else if token is StartStruct {
                Some(
                    TracerView::Struct {
                        field_tracers: Seq::empty(),
                        nullable,
                        field_names: Seq::empty(),
                        next: StructTracerState::Key,
                    },
                )
            } else {
                primitive_accept(PrimitiveType::Unknown, nullable, token)
            }
        },
        TracerView::Primitive { item_type, nullable } => primitive_accept(
            item_type,
            nullable,
            token,
        ),
        TracerView::List { item_tracer, nullable, next } => match next {
            ListTracerState::Start => {
                if token is StartSequence {
                    Some(TracerView::List { item_tracer, nullable, next: ListTracerState::Item(0) })
                } else if token.is_marker() {
                    Some(TracerView::List { item_tracer, nullable: true, next })
                } else {
                    None
                }
            },
            ListTracerState::Item(depth) => {
                if depth == 0 && token is EndSequence {
                    Some(TracerView::List { item_tracer, nullable, next: ListTracerState::Start })
                } else if depth == 0 && token is EndStruct {
                    None
                } else {
                    match tracer_accept(*item_tracer, token) {
                        None => None,
                        Some(item) => match list_state_after(depth, token) {
                            None => None,
                            Some(state) => Some(
                                TracerView::List {
                                    item_tracer: Box::new(item),
                                    nullable,
                                    next: state,
                                },
                            ),
                        },
                    }
                }
            },
        },
        TracerView::Struct { field_tracers, nullable, field_names, next } => match next {
            StructTracerState::Start => {
                if token is StartStruct {
                    Some(
                        TracerView::Struct {
                            field_tracers,
                            nullable,
                            field_names,
                            next: StructTracerState::Key,
                        },
                    )
                } else if token.is_marker() {
                    Some(TracerView::Struct { field_tracers, nullable: true, field_names, next })
                } else {
                    None
                }
            },
            StructTracerState::Key => match token {
                Token::Str(key) => match first_index_of(field_names, key) {
                    Some(field) => Some(
                        TracerView::Struct {
                            field_tracers,
                            nullable,
                            field_names,
                            next: StructTracerState::Value(field as usize, 0),
                        },
                    ),
                    None => if field_tracers.len() >= usize::MAX {
                        None
                    } else {
                        Some(
                            TracerView::Struct {
                                field_tracers: field_tracers.push(
                                    TracerView::Unknown { nullable: false },
                                ),
                                nullable,
                                field_names: field_names.push(key),
                                next: StructTracerState::Value(field_tracers.len() as usize, 0),
                            },
                        )
                    },
                },
                Token::EndStruct => Some(
                    TracerView::Struct {
                        field_tracers,
                        nullable,
                        field_names,
                        next: StructTracerState::Start,
                    },
                ),
                _ => None,
            },
            StructTracerState::Value(field, depth) => {
                if field >= field_tracers.len() {
                    None
                } else {
                    match tracer_accept(field_tracers[field as int], token) {
                        None => None,
                        Some(value) => match struct_state_after(field, depth, token) {
                            None => None,
                            Some(state) => Some(
                                TracerView::Struct {
                                    field_tracers: field_tracers.update(field as int, value),
                                    nullable,
                                    field_names,
                                    next: state,
                                },
                            ),
                        },
                    }
                }
            },
        },
    }
}

/// What a tracer becomes by the first `n` of the given events, one after
/// the other.
pub open spec fn tracer_accept_all(tracer: TracerView, tokens: Seq<Token>, n: nat) -> Option<
    TracerView,
>
    decreases n,
{
    if n == 0 || n > tokens.len() {
        Some(tracer)
    } else {
        match tracer_accept_all(tracer, tokens, (n - 1) as nat) {
            None => None,
            Some(before) => tracer_accept(before, tokens[n - 1]),
        }
    }
}

/// Whether the tracer stands outside a list or a record.
pub open spec fn tracer_is_finished(tracer: TracerView) -> bool {
    match tracer {
        TracerView::List { next, .. } => next is Start,
        TracerView::Struct { next, .. } => next is Start,
        _ => true,
    }
}

/// The fields that the first `n` tracers of a struct have seen, under
/// their names.
pub open spec fn tracer_fields(tracers: Seq<TracerView>, names: Seq<Seq<char>>, n: nat) -> Option<
    Seq<FieldView>,
>
    decreases tracers, n,
{
    if n == 0 || n > tracers.len() || n > names.len() {
        Some(Seq::empty())
    } else {
        match tracer_fields(tracers, names, (n - 1) as nat) {
            None => None,
            Some(before) => match tracer_field(tracers[n - 1], names[n - 1]) {
                None => None,
                Some(field) => Some(before.push(field)),
            },
        }
    }
}

/// The field that the tracer has seen, under the given name: a primitive
/// of the type seen, a large list of the items seen, or a struct of the
/// fields seen. There is none while the type of the tracer, or of a
/// tracer nested in it, is unknown, or where a struct tracer has names
/// and tracers that do not go together.
pub open spec fn tracer_field(tracer: TracerView, name: Seq<char>) -> Option<FieldView>
    decreases tracer, 0nat,
{
    match tracer {
        TracerView::Unknown { .. } => None,
        TracerView::Primitive { item_type, nullable } => match data_type_of(item_type) {
            None => None,
            Some(data_type) => Some(
                FieldView { name, data_type, nullable, strategy: None, children: Seq::empty() },
            ),
        },
        TracerView::List { item_tracer, nullable, .. } => match tracer_field(
            *item_tracer,
            "element"@,
        ) {
            None => None,
            Some(item) => Some(
                FieldView {
                    name,
                    data_type: GenericDataType::LargeList,
                    nullable,
                    strategy: None,
                    children: seq![item],
                },
            ),
        },
        TracerView::Struct { field_tracers, nullable, field_names, .. } => {
            if field_tracers.len() != field_names.len() {
                None
            } else {
                match tracer_fields(field_tracers, field_names, field_tracers.len()) {
                    None => None,
                    Some(children) => Some(
                        FieldView {
                            name,
                            data_type: GenericDataType::Struct,
                            nullable,
                            strategy: None,
                            children,
                        },
                    ),
                }
            }
        },
    }
}

/// Whether the exec outcome of accepting an event is the expected one.
pub open spec fn is_accepted(res: Result<(), Error>, tracer: TracerView, expected: Option<TracerView>) -> bool {
    match expected {
        Some(view) => res is Ok && tracer == view,
        None => fails_with(res, ErrorKind::Trace),
    }
}

/// The primitive type of the value that an event carries.
pub fn event_primitive_type(event: &Event<'_>) -> (res: Option<PrimitiveType>)
    ensures
        res == primitive_type_of(event@),
{
    match event {
        Event::Bool(_) => Some(PrimitiveType::Bool),
        Event::Str(_) | Event::OwnedStr(_) => Some(PrimitiveType::Str),
        Event::I8(_) => Some(PrimitiveType::I8),
        Event::I16(_) => Some(PrimitiveType::I16),
        Event::I32(_) => Some(PrimitiveType::I32),
        Event::I64(_) => Some(PrimitiveType::I64),
        Event::U8(_) => Some(PrimitiveType::U8),
        Event::U16(_) => Some(PrimitiveType::U16),
        Event::U32(_) => Some(PrimitiveType::U32),
        Event::U64(_) => Some(PrimitiveType::U64),
        Event::F32(_) => Some(PrimitiveType::F32),
        Event::F64(_) => Some(PrimitiveType::F64),
        _ => None,
    }
}

/// Builds a field from what was traced.
pub trait FieldBuilder<F> {
    /// The field that was traced, under the given name.
    fn to_field(&self, name: &str) -> Result<F, Error>;
}

impl UnknownTracer {
    /// A tracer that has seen nothing.
    pub fn new() -> (res: UnknownTracer)
        ensures
            res@ == (TracerView::Unknown { nullable: false }),
    {
        UnknownTracer { nullable: false }
    }

    /// Ends the batch. A tracer of unknown type is never inside a
    /// container.
    pub fn finish(&mut self) -> (res: Result<(), Error>)
        ensures
            res is Ok,
            final(self)@ == old(self)@,
    {
        Ok(())
    }
}

impl PrimitiveTracer {
    /// A tracer that has seen no value.
    pub fn new(nullable: bool) -> (res: PrimitiveTracer)
        ensures
            res@ == (TracerView::Primitive { item_type: PrimitiveType::Unknown, nullable }),
    {
        PrimitiveTracer { item_type: PrimitiveType::Unknown, nullable }
    }

    /// Accepts one event.
    pub fn accept(&mut self, event: Event<'_>) -> (res: Result<(), Error>)
        ensures
            is_accepted(res, final(self)@, tracer_accept(old(self)@, event@)),
            res is Err ==> final(self)@ == old(self)@,
    {
        match event {
            Event::SomeMarker | Event::Null => {
                self.nullable = true;
                Ok(())
            },
            _ => match event_primitive_type(&event) {
                Some(seen) => {
                    if self.item_type == PrimitiveType::Unknown || self.item_type == seen {
                        self.item_type = seen;
                        Ok(())
                    } else {
                        fail(ErrorKind::Trace, "Cannot accept event for primitive type")
                    }
                },
                None => fail(ErrorKind::Trace, "Cannot accept event for primitive type"),
            },
        }
    }

    /// Ends the batch. A primitive tracer is never inside a container.
    pub fn finish(&mut self) -> (res: Result<(), Error>)
        ensures
            res is Ok,
            final(self)@ == old(self)@,
    {
        Ok(())
    }
}

impl ListTracer {
    /// A tracer that has seen no list.
    pub fn new(nullable: bool) -> (res: ListTracer)
        ensures
            res@ == (TracerView::List {
                item_tracer: Box::new(TracerView::Unknown { nullable: false }),
                nullable,
                next: ListTracerState::Start,
            }),
    {
        ListTracer { item_tracer: Box::new(Tracer::new()), nullable, next: ListTracerState::Start }
    }

    /// Accepts one event.
    pub fn accept(&mut self, event: Event<'_>) -> (res: Result<(), Error>)
        ensures
            is_accepted(res, final(self)@, tracer_accept(old(self)@, event@)),
            res is Err ==> final(self)@ == old(self)@,
            fields_are_named(old(self)@) ==> fields_are_named(final(self)@) && names_of(
                old(self)@,
            ).is_prefix_of(names_of(final(self)@)),
            is_nullable(old(self)@) ==> is_nullable(final(self)@),
        decreases *old(self),
    {
        proof {
            if fields_are_named(self@) && tracer_accept(self@, event@) is Some {
                lemma_accept_keeps_fields(self@, event@);
            }
            if tracer_accept(self@, event@) is Some {
                lemma_accept_keeps_nullable(self@, event@);
            }
        }
        match self.next {
            ListTracerState::Start => match event {
                Event::StartSequence => {
                    self.next = ListTracerState::Item(0);
                    Ok(())
                },
                Event::Null | Event::SomeMarker => {
                    self.nullable = true;
                    Ok(())
                },
                _ => fail(ErrorKind::Trace, "Invalid event for list tracer in state Start"),
            },
            ListTracerState::Item(depth) => {
                let is_start = matches!(event, Event::StartSequence | Event::StartStruct);
                let is_end = matches!(event, Event::EndSequence | Event::EndStruct);
                if depth == 0 && matches!(event, Event::EndSequence) {
                    self.next = ListTracerState::Start;
                    return Ok(());
                }
                if depth == 0 && matches!(event, Event::EndStruct) {
                    return fail(
                        ErrorKind::Trace,
                        "Invalid event for list tracer in state Item(0)",
                    );
                }
                if is_start && depth == usize::MAX {
                    return fail(ErrorKind::Trace, "too many nested containers");
                }
                match self.item_tracer.accept(event) {
                    Ok(()) => {},
                    Err(e) => {
                        return Err(e);
                    },
                }
                if is_start {
                    self.next = ListTracerState::Item(depth + 1);
                } else if is_end {
                    self.next = ListTracerState::Item(depth - 1);
                } else {
                    self.next = ListTracerState::Item(depth);
                }
                Ok(())
            },
        }
    }

    /// Ends the batch. Fails inside a list.
    pub fn finish(&mut self) -> (res: Result<(), Error>)
        ensures
            res is Ok <==> tracer_is_finished(old(self)@),
            res is Err ==> fails_with(res, ErrorKind::Trace),
            final(self)@ == old(self)@,
    {
        if !matches!(self.next, ListTracerState::Start) {
            return fail(ErrorKind::Trace, "Incomplete list in schema tracing");
        }
        Ok(())
    }
}

impl StructTracer {
    /// A tracer that has seen no record.
    pub fn new(nullable: bool) -> (res: StructTracer)
        ensures
            res@ == (TracerView::Struct {
                field_tracers: Seq::empty(),
                nullable,
                field_names: Seq::empty(),
                next: StructTracerState::Start,
            }),
    {
        let res = StructTracer {
            field_tracers: Vec::new(),
            field_names: Vec::new(),
            nullable,
            next: StructTracerState::Start,
        };
        assert(tracer_views(res.field_tracers@) =~= Seq::empty());
        assert(string_views(res.field_names@) =~= Seq::empty());
        res
    }

    /// Accepts one event.
    pub fn accept(&mut self, event: Event<'_>) -> (res: Result<(), Error>)
        ensures
            is_accepted(res, final(self)@, tracer_accept(old(self)@, event@)),
            res is Err ==> final(self)@ == old(self)@,
            fields_are_named(old(self)@) ==> fields_are_named(final(self)@) && names_of(
                old(self)@,
            ).is_prefix_of(names_of(final(self)@)),
            is_nullable(old(self)@) ==> is_nullable(final(self)@),
        decreases *old(self),
    {
        proof {
            if fields_are_named(self@) && tracer_accept(self@, event@) is Some {
                lemma_accept_keeps_fields(self@, event@);
            }
            if tracer_accept(self@, event@) is Some {
                lemma_accept_keeps_nullable(self@, event@);
            }
        }
        match self.next {
            StructTracerState::Start => match event {
                Event::StartStruct => {
                    self.next = StructTracerState::Key;
                    Ok(())
                },
                Event::Null | Event::SomeMarker => {
                    self.nullable = true;
                    Ok(())
                },
                _ => fail(ErrorKind::Trace, "Invalid event for struct tracer in state Start"),
            },
            StructTracerState::Key => {
                if matches!(event, Event::EndStruct) {
                    self.next = StructTracerState::Start;
                    return Ok(());
                }
                let key = match event.as_str() {
                    Some(key) => key,
                    None => {
                        return fail(
                            ErrorKind::Trace,
                            "Invalid event for struct tracer in state Key",
                        );
                    },
                };
                match find_name(&self.field_names, key) {
                    Some(field) => {
                        self.next = StructTracerState::Value(field, 0);
                    },
                    None => {
                        let field: usize = self.field_tracers.len();
                        assert(tracer_views(self.field_tracers@).len() == field);
                        if field == usize::MAX {
                            return fail(ErrorKind::Trace, "too many fields");
                        }
                        self.field_tracers.push(Tracer::new());
                        self.field_names.push(key.to_owned());
                        self.next = StructTracerState::Value(field, 0);
                        assert(tracer_views(self.field_tracers@) =~= tracer_views(
                            old(self).field_tracers@,
                        ).push(TracerView::Unknown { nullable: false }));
                        assert(string_views(self.field_names@) =~= string_views(
                            old(self).field_names@,
                        ).push(key@));
                    },
                }
                Ok(())
            },
            StructTracerState::Value(field, depth) => {
                if field >= self.field_tracers.len() {
                    return fail(ErrorKind::Trace, "the struct tracer has no such field");
                }
                let is_start = matches!(event, Event::StartSequence | Event::StartStruct);
                let is_end = matches!(event, Event::EndSequence | Event::EndStruct);
                let is_some = matches!(event, Event::SomeMarker);
                if is_start && depth == usize::MAX {
                    return fail(ErrorKind::Trace, "too many nested containers");
                }
                if is_end && depth == 0 {
                    return fail(
                        ErrorKind::Trace,
                        "Invalid closing event in struct tracer in state Value",
                    );
                }
                assert(tracer_views(self.field_tracers@)[field as int]
                    == self.field_tracers@[field as int]@);
                match self.field_tracers[field].accept(event) {
                    Ok(()) => {},
                    Err(e) => {
                        assert(tracer_views(self.field_tracers@) =~= tracer_views(
                            old(self).field_tracers@,
                        ));
                        return Err(e);
                    },
                }
                assert(tracer_views(self.field_tracers@) =~= tracer_views(
                    old(self).field_tracers@,
                ).update(field as int, self.field_tracers@[field as int]@));
                if is_start {
                    self.next = StructTracerState::Value(field, depth + 1);
                } else if is_end {
                    if depth == 1 {
                        self.next = StructTracerState::Key;
                    } else {
                        self.next = StructTracerState::Value(field, depth - 1);
                    }
                } else if depth == 0 {
                    if is_some {
                        // the marker is always followed by the actual value
                        self.next = StructTracerState::Value(field, 0);
                    } else {
                        // any other event outside a container is a complete value
                        self.next = StructTracerState::Key;
                    }
                } else {
                    self.next = StructTracerState::Value(field, depth);
                }
                Ok(())
            },
        }
    }

    /// Ends the batch. Fails inside a record.
    pub fn finish(&mut self) -> (res: Result<(), Error>)
        ensures
            res is Ok <==> tracer_is_finished(old(self)@),
            res is Err ==> fails_with(res, ErrorKind::Trace),
            final(self)@ == old(self)@,
    {
        if !matches!(self.next, StructTracerState::Start) {
            return fail(ErrorKind::Trace, "Incomplete struct in schema tracing");
        }
        Ok(())
    }
}

impl Tracer {
    /// A tracer that has seen nothing.
    pub fn new() -> (res: Tracer)
        ensures
            res@ == (TracerView::Unknown { nullable: false }),
    {
        Tracer::Unknown(UnknownTracer::new())
    }

    /// Accepts one event.
    pub fn accept(&mut self, event: Event<'_>) -> (res: Result<(), Error>)
        ensures
            is_accepted(res, final(self)@, tracer_accept(old(self)@, event@)),
            res is Err ==> final(self)@ == old(self)@,
            fields_are_named(old(self)@) ==> fields_are_named(final(self)@) && names_of(
                old(self)@,
            ).is_prefix_of(names_of(final(self)@)),
            is_nullable(old(self)@) ==> is_nullable(final(self)@),
        decreases *old(self),
    {
        proof {
            if fields_are_named(self@) && tracer_accept(self@, event@) is Some {
                lemma_accept_keeps_fields(self@, event@);
            }
            if tracer_accept(self@, event@) is Some {
                lemma_accept_keeps_nullable(self@, event@);
            }
        }
        match self {
            // the tracer of unknown type is the only one that changes its kind
            Tracer::Unknown(tracer) => {
                let nullable = tracer.nullable;
                match event {
                    Event::SomeMarker | Event::Null => {
                        tracer.nullable = true;
                        Ok(())
                    },
                    Event::StartSequence => {
                        let mut tracer = ListTracer::new(nullable);
                        tracer.next = ListTracerState::Item(0);
                        *self = Tracer::List(tracer);
                        Ok(())
                    },
                    Event::StartStruct => {
                        let mut tracer = StructTracer::new(nullable);
                        tracer.next = StructTracerState::Key;
                        *self = Tracer::Struct(tracer);
                        Ok(())
                    },
                    Event::EndSequence | Event::EndStruct => fail(
                        ErrorKind::Trace,
                        "Invalid end nesting events for unknown tracer",
                    ),
                    _ => {
                        let mut tracer = PrimitiveTracer::new(nullable);
                        match tracer.accept(event) {
                            Ok(()) => {
                                *self = Tracer::Primitive(tracer);
                                Ok(())
                            },
                            Err(e) => Err(e),
                        }
                    },
                }
            },
            Tracer::List(tracer) => tracer.accept(event),
            Tracer::Struct(tracer) => tracer.accept(event),
            Tracer::Primitive(tracer) => tracer.accept(event),
        }
    }

    /// Ends the batch. Fails inside a list or a record.
    pub fn finish(&mut self) -> (res: Result<(), Error>)
        ensures
            res is Ok <==> tracer_is_finished(old(self)@),
            res is Err ==> fails_with(res, ErrorKind::Trace),
            final(self)@ == old(self)@,
    {
        match self {
            Tracer::Unknown(tracer) => tracer.finish(),
            Tracer::List(tracer) => tracer.finish(),
            Tracer::Struct(tracer) => tracer.finish(),
            Tracer::Primitive(tracer) => tracer.finish(),
        }
    }
}

/// Whether the exec outcome of building a field is the expected one.
pub open spec fn is_built(res: Result<GenericField, Error>, expected: Option<FieldView>) -> bool {
    match expected {
        Some(field) => res is Ok && res->Ok_0@ == field,
        None => fails_with(res, ErrorKind::Trace),
    }
}

/// Once a field of a struct tracer cannot be built, no longer list of its
/// fields can.
pub proof fn lemma_tracer_fields_fail(
    tracers: Seq<TracerView>,
    names: Seq<Seq<char>>,
    k: nat,
    n: nat,
)
    requires
        k <= n <= tracers.len(),
        n <= names.len(),
        tracer_fields(tracers, names, k) is None,
    ensures
        tracer_fields(tracers, names, n) is None,
    decreases n,
{
    if k < n {
        lemma_tracer_fields_fail(tracers, names, k, (n - 1) as nat);
    }
}

/// The data type that stands for a primitive type in a schema.
fn primitive_data_type(item_type: PrimitiveType) -> (res: Option<GenericDataType>)
    ensures
        res == data_type_of(item_type),
{
    match item_type {
        PrimitiveType::Unknown => None,
        PrimitiveType::Bool => Some(GenericDataType::Bool),
        PrimitiveType::Str => Some(GenericDataType::LargeUtf8),
        PrimitiveType::I8 => Some(GenericDataType::I8),
        PrimitiveType::I16 => Some(GenericDataType::I16),
        PrimitiveType::I32 => Some(GenericDataType::I32),
        PrimitiveType::I64 => Some(GenericDataType::I64),
        PrimitiveType::U8 => Some(GenericDataType::U8),
        PrimitiveType::U16 => Some(GenericDataType::U16),
        PrimitiveType::U32 => Some(GenericDataType::U32),
        PrimitiveType::U64 => Some(GenericDataType::U64),
        PrimitiveType::F32 => Some(GenericDataType::F32),
        PrimitiveType::F64 => Some(GenericDataType::F64),
    }
}

impl ListTracer {
    /// The field that the tracer has seen, under the given name.
    pub fn build_field(&self, name: &str) -> (res: Result<GenericField, Error>)
        ensures
            is_built(res, tracer_field(self@, name@)),
        decreases self,
    {
        let item = match self.item_tracer.build_field("element") {
            Ok(item) => item,
            Err(e) => {
                return Err(e);
            },
        };
        let ghost item_view = item@;
        let res = GenericField::new(name, GenericDataType::LargeList, self.nullable).with_child(
            item,
        );
        assert(res@.children =~= seq![item_view]);
        Ok(res)
    }
}

impl StructTracer {
    /// The field that the tracer has seen, under the given name.
    pub fn build_field(&self, name: &str) -> (res: Result<GenericField, Error>)
        ensures
            is_built(res, tracer_field(self@, name@)),
        decreases self,
    {
        let n: usize = self.field_tracers.len();
        assert(tracer_views(self.field_tracers@).len() == n);
        assert(string_views(self.field_names@).len() == self.field_names@.len());
        if n != self.field_names.len() {
            return fail(ErrorKind::Trace, "the struct tracer does not have a name for each field");
        }
        let ghost tracers = tracer_views(self.field_tracers@);
        let ghost names = string_views(self.field_names@);
        let mut res = GenericField::new(name, GenericDataType::Struct, self.nullable);
        let mut i: usize = 0;
        while i < n
            invariant
                n == self.field_tracers@.len(),
                n == self.field_names@.len(),
                i <= n,
                tracers == tracer_views(self.field_tracers@),
                names == string_views(self.field_names@),
                forall|k: int|
                    0 <= k < n ==> decreases_to!(self => #[trigger] self.field_tracers@[k]),
                tracer_fields(tracers, names, i as nat) == Some(res@.children),
                res@ == (FieldView {
                    name: name@,
                    data_type: GenericDataType::Struct,
                    nullable: self.nullable,
                    strategy: None,
                    children: res@.children,
                }),
            decreases n - i,
        {
            assert(tracers[i as int] == self.field_tracers@[i as int]@);
            assert(names[i as int] == self.field_names@[i as int]@);
            let child = match self.field_tracers[i].build_field(self.field_names[i].as_str()) {
                Ok(child) => child,
                Err(e) => {
                    proof {
                        lemma_tracer_fields_fail(tracers, names, (i + 1) as nat, n as nat);
                    }
                    return Err(e);
                },
            };
            res = res.with_child(child);
            i = i + 1;
        }
        Ok(res)
    }
}

impl Tracer {
    /// The field that the tracer has seen, under the given name.
    pub fn build_field(&self, name: &str) -> (res: Result<GenericField, Error>)
        ensures
            is_built(res, tracer_field(self@, name@)),
        decreases self,
    {
        match self {
            Tracer::Unknown(_) => fail(
                ErrorKind::Trace,
                "Cannot build a field from a tracer of unknown type",
            ),
            Tracer::Primitive(tracer) => match primitive_data_type(tracer.item_type) {
                Some(data_type) => Ok(GenericField::new(name, data_type, tracer.nullable)),
                None => fail(
                    ErrorKind::Trace,
                    "Cannot build a field from a tracer of unknown type",
                ),
            },
            Tracer::List(tracer) => tracer.build_field(name),
            Tracer::Struct(tracer) => tracer.build_field(name),
        }
    }
}

impl FieldBuilder<GenericField> for ListTracer {
    fn to_field(&self, name: &str) -> (res: Result<GenericField, Error>)
        ensures
            is_built(res, tracer_field(self@, name@)),
    {
        self.build_field(name)
    }
}

impl FieldBuilder<GenericField> for StructTracer {
    fn to_field(&self, name: &str) -> (res: Result<GenericField, Error>)
        ensures
            is_built(res, tracer_field(self@, name@)),
    {
        self.build_field(name)
    }
}

impl FieldBuilder<GenericField> for Tracer {
    fn to_field(&self, name: &str) -> (res: Result<GenericField, Error>)
        ensures
            is_built(res, tracer_field(self@, name@)),
    {
        self.build_field(name)
    }
}

impl FieldBuilder<GenericField> for UnknownTracer {
    fn to_field(&self, name: &str) -> (res: Result<GenericField, Error>)
        ensures
            is_built(res, tracer_field(self@, name@)),
    {
        fail(ErrorKind::Trace, "Cannot build a field from a tracer of unknown type")
    }
}

impl FieldBuilder<GenericField> for PrimitiveTracer {
    fn to_field(&self, name: &str) -> (res: Result<GenericField, Error>)
        ensures
            is_built(res, tracer_field(self@, name@)),
    {
        match primitive_data_type(self.item_type) {
            Some(data_type) => Ok(GenericField::new(name, data_type, self.nullable)),
            None => fail(ErrorKind::Trace, "Cannot build a field from a tracer of unknown type"),
        }
    }
}

} // verus!
