//! The tokens that flow between the record model and the columnar model.
use vstd::prelude::*;

verus! {

/// One token of a value stream.
///
/// Containers are bracketed by a start and an end token. `Null` stands for an
/// absent value, `SomeMarker` announces that the value that follows is
/// present. Floating point values are carried as their IEEE-754 bit patterns.
#[derive(Debug, Clone, PartialEq)]
pub enum Event<'a> {
    StartSequence,
    EndSequence,
    StartStruct,
    EndStruct,
    /// A string borrowed from the producer.
    Str(&'a str),
    /// A string that the event owns.
    OwnedStr(String),
    Null,
    SomeMarker,
    Bool(bool),
    I8(i8),
    I16(i16),
    I32(i32),
    I64(i64),
    U8(u8),
    U16(u16),
    U32(u32),
    U64(u64),
    /// The bits of an `f32`.
    F32(u32),
    /// The bits of an `f64`.
    F64(u64),
}

/// What an [`Event`] stands for, regardless of who owns its string.
pub enum Token {
    StartSequence,
    EndSequence,
    StartStruct,
    EndStruct,
    Str(Seq<char>),
    Null,
    SomeMarker,
    Bool(bool),
    I8(i8),
    I16(i16),
    I32(i32),
    I64(i64),
    U8(u8),
    U16(u16),
    U32(u32),
    U64(u64),
    F32(u32),
    F64(u64),
}

impl Token {
    /// Whether the token opens a container.
    pub open spec fn is_start(self) -> bool {
        self is StartSequence || self is StartStruct
    }

    /// Whether the token closes a container.
    pub open spec fn is_end(self) -> bool {
        self is EndSequence || self is EndStruct
    }

    /// Whether the token is `Null` or `SomeMarker`.
    pub open spec fn is_marker(self) -> bool {
        self is Null || self is SomeMarker
    }

    /// Whether the token is a complete value by itself.
    pub open spec fn is_primitive(self) -> bool {
        !self.is_start() && !self.is_end() && !self.is_marker()
    }
}

impl<'a> View for Event<'a> {
    type V = Token;

    open spec fn view(&self) -> Token {
        match self {
            Event::StartSequence => Token::StartSequence,
            Event::EndSequence => Token::EndSequence,
            Event::StartStruct => Token::StartStruct,
            Event::EndStruct => Token::EndStruct,
            Event::Str(s) => Token::Str(s@),
            Event::OwnedStr(s) => Token::Str(s@),
            Event::Null => Token::Null,
            Event::SomeMarker => Token::SomeMarker,
            Event::Bool(v) => Token::Bool(*v),
            Event::I8(v) => Token::I8(*v),
            Event::I16(v) => Token::I16(*v),
            Event::I32(v) => Token::I32(*v),
            Event::I64(v) => Token::I64(*v),
            Event::U8(v) => Token::U8(*v),
            Event::U16(v) => Token::U16(*v),
            Event::U32(v) => Token::U32(*v),
            Event::U64(v) => Token::U64(*v),
            Event::F32(v) => Token::F32(*v),
            Event::F64(v) => Token::F64(*v),
        }
    }
}

/// The tokens of a slice of events, in order.
pub open spec fn tokens_of(events: Seq<Event<'_>>) -> Seq<Token> {
    Seq::new(events.len(), |i: int| events[i]@)
}

impl<'a> Event<'a> {
    /// A copy of the event that stands for the same token.
    pub fn duplicate(&self) -> (res: Event<'a>)
        ensures
            res@ == self@,
    {
        match self {
            Event::StartSequence => Event::StartSequence,
            Event::EndSequence => Event::EndSequence,
            Event::StartStruct => Event::StartStruct,
            Event::EndStruct => Event::EndStruct,
            Event::Str(s) => Event::Str(*s),
            Event::OwnedStr(s) => Event::OwnedStr(s.clone()),
            Event::Null => Event::Null,
            Event::SomeMarker => Event::SomeMarker,
            Event::Bool(v) => Event::Bool(*v),
            Event::I8(v) => Event::I8(*v),
            Event::I16(v) => Event::I16(*v),
            Event::I32(v) => Event::I32(*v),
            Event::I64(v) => Event::I64(*v),
            Event::U8(v) => Event::U8(*v),
            Event::U16(v) => Event::U16(*v),
            Event::U32(v) => Event::U32(*v),
            Event::U64(v) => Event::U64(*v),
            Event::F32(v) => Event::F32(*v),
            Event::F64(v) => Event::F64(*v),
        }
    }

    /// The string of a string event, borrowed or owned.
    pub fn as_str(&self) -> (res: Option<&str>)
        ensures
            match self@ {
                Token::Str(s) => res matches Some(r) && r@ == s,
                _ => res is None,
            },
    {
        match self {
            Event::Str(s) => Some(*s),
            Event::OwnedStr(s) => Some(s.as_str()),
            _ => None,
        }
    }
}

} // verus!
