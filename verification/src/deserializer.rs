//! Reads values back from a source of events.
//!
//! What a value is read from is decided by the functions that take the
//! event: each says which events it accepts and what it reads from them.
//! The methods of [`Deserializer`] take the event from the source and hand
//! it to these functions.
use vstd::prelude::*;
use crate::error::{fail, fails_with, Error, ErrorKind};
use crate::event::{Event, Token};
use crate::source::{
    head_of, required, token_of, yields, EventSource, PeekableEventSource,
};

verus! {

/// The kind of value that starts with an event.
#[derive(Debug, Clone, Copy, PartialEq, Eq, Structural)]
pub enum ValueKind {
    Bool,
    I8,
    I16,
    I32,
    I64,
    U8,
    U16,
    U32,
    U64,
    F32,
    F64,
    /// A string that is borrowed from the producer.
    Str,
    /// A string that the event owns.
    String,
    /// The fields of a struct, as a map.
    Fields,
    /// The items of a sequence.
    Items,
}

/// The kind of value that starts with the event, if a value can start
/// with it.
pub open spec fn kind_of(event: Option<Event<'_>>) -> Option<ValueKind> {
    match event {
        Some(Event::Bool(_)) => Some(ValueKind::Bool),
        Some(Event::I8(_)) => Some(ValueKind::I8),
        Some(Event::I16(_)) => Some(ValueKind::I16),
        Some(Event::I32(_)) => Some(ValueKind::I32),
        Some(Event::I64(_)) => Some(ValueKind::I64),
        Some(Event::U8(_)) => Some(ValueKind::U8),
        Some(Event::U16(_)) => Some(ValueKind::U16),
        Some(Event::U32(_)) => Some(ValueKind::U32),
        Some(Event::U64(_)) => Some(ValueKind::U64),
        Some(Event::F32(_)) => Some(ValueKind::F32),
        Some(Event::F64(_)) => Some(ValueKind::F64),
        Some(Event::Str(_)) => Some(ValueKind::Str),
        Some(Event::OwnedStr(_)) => Some(ValueKind::String),
        Some(Event::StartStruct) => Some(ValueKind::Fields),
        Some(Event::StartSequence) => Some(ValueKind::Items),
        _ => None,
    }
}

impl Token {
    /// The value of an integer token.
    pub open spec fn integer_value(self) -> Option<int> {
        match self {
            Token::I8(v) => Some(v as int),
            Token::I16(v) => Some(v as int),
            Token::I32(v) => Some(v as int),
            Token::I64(v) => Some(v as int),
            Token::U8(v) => Some(v as int),
            Token::U16(v) => Some(v as int),
            Token::U32(v) => Some(v as int),
            Token::U64(v) => Some(v as int),
            _ => None,
        }
    }
}

/// The integer of an event that may be missing, if it lies within the
/// bounds.
pub open spec fn integer_within(token: Option<Token>, min: int, max: int) -> Option<int> {
    match token {
        Some(token) => match token.integer_value() {
            Some(value) => if min <= value <= max {
                Some(value)
            } else {
                None
            },
            None => None,
        },
        None => None,
    }
}

/// Whether the number is a Unicode scalar value.
pub open spec fn is_scalar_value(value: u32) -> bool {
    value < 0xD800 || (0xE000 <= value <= 0x10FFFF)
}

/// The character with the given number.
///
/// Calls `char::from_u32` of the standard library, which yields the
/// character for a Unicode scalar value and `None` for any other number.
#[verifier::external_body]
fn char_from_u32(value: u32) -> (res: Option<char>)
    ensures
        res is Some <==> is_scalar_value(value),
        res matches Some(c) ==> c as u32 == value,
{
    char::from_u32(value)
}

/// The kind of value that starts with the event. Fails for the end of the
/// events and for an event that no value starts with.
pub fn value_kind(event: &Option<Event<'_>>) -> (res: Result<ValueKind, Error>)
    ensures
        match kind_of(*event) {
            Some(kind) => res == Ok::<ValueKind, Error>(kind),
            None => fails_with(res, ErrorKind::Interpret),
        },
{
    match event {
        Some(Event::Bool(_)) => Ok(ValueKind::Bool),
        Some(Event::I8(_)) => Ok(ValueKind::I8),
        Some(Event::I16(_)) => Ok(ValueKind::I16),
        Some(Event::I32(_)) => Ok(ValueKind::I32),
        Some(Event::I64(_)) => Ok(ValueKind::I64),
        Some(Event::U8(_)) => Ok(ValueKind::U8),
        Some(Event::U16(_)) => Ok(ValueKind::U16),
        Some(Event::U32(_)) => Ok(ValueKind::U32),
        Some(Event::U64(_)) => Ok(ValueKind::U64),
        Some(Event::F32(_)) => Ok(ValueKind::F32),
        Some(Event::F64(_)) => Ok(ValueKind::F64),
        Some(Event::Str(_)) => Ok(ValueKind::Str),
        Some(Event::OwnedStr(_)) => Ok(ValueKind::String),
        Some(Event::StartStruct) => Ok(ValueKind::Fields),
        Some(Event::StartSequence) => Ok(ValueKind::Items),
        _ => fail(ErrorKind::Interpret, "Invalid event in deserialize_any"),
    }
}

/// The integer of the event, if it lies within the bounds. Fails for the
/// end of the events, for an event that is no integer, and for an integer
/// outside the bounds.
pub fn expect_integer(event: Option<Event<'_>>, min: i128, max: i128) -> (res: Result<i128, Error>)
    ensures
        match integer_within(token_of(event), min as int, max as int) {
            Some(value) => res == Ok::<i128, Error>(value as i128),
            None => fails_with(res, ErrorKind::Interpret),
        },
{
    let event = match required(event) {
        Ok(event) => event,
        Err(e) => {
            return Err(e);
        },
    };
    let value: i128 = match event {
        Event::I8(v) => v as i128,
        Event::I16(v) => v as i128,
        Event::I32(v) => v as i128,
        Event::I64(v) => v as i128,
        Event::U8(v) => v as i128,
        Event::U16(v) => v as i128,
        Event::U32(v) => v as i128,
        Event::U64(v) => v as i128,
        _ => {
            return fail(ErrorKind::Interpret, "Invalid conversion of an event to an integer");
        },
    };
    if value < min || value > max {
        return fail(ErrorKind::Interpret, "the integer is out of range");
    }
    Ok(value)
}

/// The truth value of a `Bool` event.
pub fn expect_bool(event: Option<Event<'_>>) -> (res: Result<bool, Error>)
    ensures
        match token_of(event) {
            Some(Token::Bool(v)) => res == Ok::<bool, Error>(v),
            _ => fails_with(res, ErrorKind::Interpret),
        },
{
    match event {
        Some(Event::Bool(v)) => Ok(v),
        _ => fail(ErrorKind::Interpret, "Invalid conversion of an event to bool"),
    }
}

/// The bits of an `F32` event.
pub fn expect_f32(event: Option<Event<'_>>) -> (res: Result<u32, Error>)
    ensures
        match token_of(event) {
            Some(Token::F32(v)) => res == Ok::<u32, Error>(v),
            _ => fails_with(res, ErrorKind::Interpret),
        },
{
    match event {
        Some(Event::F32(v)) => Ok(v),
        _ => fail(ErrorKind::Interpret, "Invalid conversion of an event to f32"),
    }
}

/// The bits of an `F64` event.
pub fn expect_f64(event: Option<Event<'_>>) -> (res: Result<u64, Error>)
    ensures
        match token_of(event) {
            Some(Token::F64(v)) => res == Ok::<u64, Error>(v),
            _ => fails_with(res, ErrorKind::Interpret),
        },
{
    match event {
        Some(Event::F64(v)) => Ok(v),
        _ => fail(ErrorKind::Interpret, "Invalid conversion of an event to f64"),
    }
}

/// The character that a `U32` event encodes.
pub fn expect_char(event: Option<Event<'_>>) -> (res: Result<char, Error>)
    ensures
        match token_of(event) {
            Some(Token::U32(v)) => if is_scalar_value(v) {
                res is Ok && res->Ok_0 as u32 == v
            } else {
                fails_with(res, ErrorKind::Interpret)
            },
            _ => fails_with(res, ErrorKind::Interpret),
        },
{
    match event {
        Some(Event::U32(v)) => match char_from_u32(v) {
            Some(c) => Ok(c),
            None => fail(ErrorKind::Interpret, "Invalid character"),
        },
        _ => fail(ErrorKind::Interpret, "Invalid event, expected a character encoded as uint32"),
    }
}

/// The text of a string event, borrowed or owned.
pub fn expect_string(event: Option<Event<'_>>) -> (res: Result<String, Error>)
    ensures
        match token_of(event) {
            Some(Token::Str(text)) => res is Ok && res->Ok_0@ == text,
            _ => fails_with(res, ErrorKind::Interpret),
        },
{
    match event {
        Some(Event::Str(text)) => Ok(text.to_owned()),
        Some(Event::OwnedStr(text)) => Ok(text),
        _ => fail(ErrorKind::Interpret, "Invalid event, expected string"),
    }
}

/// Accepts the event if it stands for the expected token, which is one
/// without a value.
pub fn expect_token(event: Option<Event<'_>>, expected: &Event<'_>) -> (res: Result<(), Error>)
    requires
        expected@ is StartSequence || expected@ is EndSequence || expected@ is StartStruct
            || expected@ is EndStruct || expected@ is Null || expected@ is SomeMarker,
    ensures
        res is Ok <==> token_of(event) == Some(expected@),
        res is Err ==> fails_with(res, ErrorKind::Interpret),
{
    let matches = match (&event, expected) {
        (Some(Event::StartSequence), Event::StartSequence) => true,
        (Some(Event::EndSequence), Event::EndSequence) => true,
        (Some(Event::StartStruct), Event::StartStruct) => true,
        (Some(Event::EndStruct), Event::EndStruct) => true,
        (Some(Event::Null), Event::Null) => true,
        (Some(Event::SomeMarker), Event::SomeMarker) => true,
        _ => false,
    };
    if matches {
        Ok(())
    } else {
        fail(ErrorKind::Interpret, "the event is not the expected one")
    }
}

/// What stands in front of a value that may be absent.
#[derive(Debug, Clone, Copy, PartialEq, Eq, Structural)]
pub enum Presence {
    /// `Null`: the value is absent, and the event stands for it.
    Absent,
    /// The marker of a present value, which the value follows.
    Marked,
    /// The value itself, without a marker.
    Unmarked,
}

/// What an event in front of a value that may be absent says.
pub open spec fn presence_of(token: Option<Token>) -> Presence {
    match token {
        Some(Token::Null) => Presence::Absent,
        Some(Token::SomeMarker) => Presence::Marked,
        _ => Presence::Unmarked,
    }
}

/// What the event in front of a value that may be absent says. Values are
/// read both with and without the marker of a present value.
pub fn presence(event: &Option<Event<'_>>) -> (res: Presence)
    ensures
        res == presence_of(token_of(*event)),
{
    match event {
        Some(Event::Null) => Presence::Absent,
        Some(Event::SomeMarker) => Presence::Marked,
        _ => Presence::Unmarked,
    }
}

/// Whether the event stands for the given token.
pub fn is_token(event: &Option<Event<'_>>, expected: &Event<'_>) -> (res: bool)
    requires
        expected@ is EndSequence || expected@ is EndStruct,
    ensures
        res == (token_of(*event) == Some(expected@)),
{
    match (event, expected) {
        (Some(Event::EndSequence), Event::EndSequence) => true,
        (Some(Event::EndStruct), Event::EndStruct) => true,
        _ => false,
    }
}

/// Whether a value of the given kind starts with the token. A string
/// token starts both kinds of strings.
pub open spec fn is_kind_of(kind: ValueKind, token: Option<Token>) -> bool {
    match token {
        Some(Token::Bool(_)) => kind is Bool,
        Some(Token::I8(_)) => kind is I8,
        Some(Token::I16(_)) => kind is I16,
        Some(Token::I32(_)) => kind is I32,
        Some(Token::I64(_)) => kind is I64,
        Some(Token::U8(_)) => kind is U8,
        Some(Token::U16(_)) => kind is U16,
        Some(Token::U32(_)) => kind is U32,
        Some(Token::U64(_)) => kind is U64,
        Some(Token::F32(_)) => kind is F32,
        Some(Token::F64(_)) => kind is F64,
        Some(Token::Str(_)) => kind is Str || kind is String,
        Some(Token::StartStruct) => kind is Fields,
        Some(Token::StartSequence) => kind is Items,
        _ => false,
    }
}

/// Whether a value can start with the token.
pub open spec fn starts_value(token: Option<Token>) -> bool {
    match token {
        Some(token) => token.is_primitive() || token.is_start(),
        None => false,
    }
}

/// The truth value of a `Bool` token.
pub open spec fn bool_of(token: Option<Token>) -> Option<bool> {
    match token {
        Some(Token::Bool(v)) => Some(v),
        _ => None,
    }
}

/// The bits of an `F32` token.
pub open spec fn f32_of(token: Option<Token>) -> Option<u32> {
    match token {
        Some(Token::F32(v)) => Some(v),
        _ => None,
    }
}

/// The bits of an `F64` token.
pub open spec fn f64_of(token: Option<Token>) -> Option<u64> {
    match token {
        Some(Token::F64(v)) => Some(v),
        _ => None,
    }
}

/// The number of the character that a `U32` token encodes, if it is a
/// Unicode scalar value.
pub open spec fn char_code_of(token: Option<Token>) -> Option<u32> {
    match token {
        Some(Token::U32(v)) => if is_scalar_value(v) {
            Some(v)
        } else {
            None
        },
        _ => None,
    }
}

/// The text of a string token.
pub open spec fn text_of(token: Option<Token>) -> Option<Seq<char>> {
    match token {
        Some(Token::Str(text)) => Some(text),
        _ => None,
    }
}

/// Reads values from the events of a source.
pub struct Deserializer<'event, S: EventSource<'event> + 'event> {
    source: PeekableEventSource<'event, S>,
}

impl<'event, S: EventSource<'event> + 'event> Deserializer<'event, S> {
    /// The tokens of the events that were not taken yet.
    pub closed spec fn remaining(&self) -> Seq<Token> {
        self.source.remaining()
    }

    /// What was looked at and not taken yet: `None` if nothing was, else
    /// the token of the next event, or `None` for the end of the events.
    pub closed spec fn peeked(&self) -> Option<Option<Token>> {
        self.source.peeked()
    }

    /// Whether the source never fails.
    pub closed spec fn never_fails(&self) -> bool {
        self.source.never_fails()
    }

    /// Whether the next event is had for certain: it was looked at
    /// already, or the source never fails. Reading fails then only where
    /// the next event is not what is read.
    pub open spec fn is_certain(&self) -> bool {
        self.peeked() is Some || self.never_fails()
    }

    /// What was looked at is what comes next.
    pub proof fn lemma_peeked_is_next(&self)
        ensures
            self.peeked() matches Some(token) ==> head_of(self.remaining()) == token,
    {
    }

    /// A deserializer in front of the first event of the source.
    pub fn new(source: S) -> (res: Self)
        ensures
            res.remaining() == source.remaining(),
            res.never_fails() == source.never_fails(),
            res.peeked() is None,
    {
        Deserializer { source: PeekableEventSource::new(source) }
    }

    /// The next event, which stays the next event. Fails only where the
    /// source is asked and fails.
    pub fn peek(&mut self) -> (res: Result<Option<Event<'event>>, Error>)
        ensures
            res is Ok ==> final(self).remaining() == old(self).remaining() && token_of(res->Ok_0)
                == head_of(old(self).remaining()) && final(self).peeked() == Some(
                head_of(old(self).remaining()),
            ),
            old(self).is_certain() ==> res is Ok,
            old(self).never_fails() ==> final(self).never_fails(),
    {
        self.source.peek()
    }

    /// Takes the next event. Fails only where the source is asked and
    /// fails.
    pub fn take(&mut self) -> (res: Result<Option<Event<'event>>, Error>)
        ensures
            yields(old(self).remaining(), final(self).remaining(), res),
            old(self).is_certain() ==> res is Ok,
            old(self).never_fails() ==> final(self).never_fails(),
    {
        self.source.next()
    }

    /// The kind of the value that comes next, which is not taken. Fails
    /// where no value can start with the next event, and where the source
    /// is asked and fails.
    pub fn deserialize_any(&mut self) -> (res: Result<ValueKind, Error>)
        ensures
            res matches Ok(kind) ==> final(self).remaining() == old(self).remaining()
                && is_kind_of(kind, head_of(old(self).remaining())),
            !starts_value(head_of(old(self).remaining())) ==> res is Err,
            old(self).is_certain() && starts_value(head_of(old(self).remaining())) ==> res is Ok,
            old(self).never_fails() ==> final(self).never_fails(),
    {
        match self.peek() {
            Ok(event) => value_kind(&event),
            Err(e) => Err(e),
        }
    }

    /// Takes an integer within the bounds. Fails where the next event is
    /// no integer within the bounds, and where the source is asked and
    /// fails.
    pub fn deserialize_integer(&mut self, min: i128, max: i128) -> (res: Result<i128, Error>)
        ensures
            match integer_within(head_of(old(self).remaining()), min as int, max as int) {
                Some(value) => (res is Ok ==> res == Ok::<i128, Error>(value as i128)
                    && final(self).remaining() == old(self).remaining().drop_first()) && (old(self).is_certain() ==> res is Ok),
                None => res is Err,
            },
            old(self).never_fails() ==> final(self).never_fails(),
    {
        match self.take() {
            Ok(event) => expect_integer(event, min, max),
            Err(e) => Err(e),
        }
    }

    /// Takes a truth value. Fails where the next event is none, and where
    /// the source is asked and fails.
    pub fn deserialize_bool(&mut self) -> (res: Result<bool, Error>)
        ensures
            match bool_of(head_of(old(self).remaining())) {
                Some(value) => (res is Ok ==> res == Ok::<bool, Error>(value)
                    && final(self).remaining() == old(self).remaining().drop_first()) && (old(self).is_certain() ==> res is Ok),
                None => res is Err,
            },
            old(self).never_fails() ==> final(self).never_fails(),
    {
        match self.take() {
            Ok(event) => expect_bool(event),
            Err(e) => Err(e),
        }
    }

    /// Takes the bits of a 32-bit floating point value. Fails where the
    /// next event is none, and where the source is asked and fails.
    pub fn deserialize_f32(&mut self) -> (res: Result<u32, Error>)
        ensures
            match f32_of(head_of(old(self).remaining())) {
                Some(value) => (res is Ok ==> res == Ok::<u32, Error>(value)
                    && final(self).remaining() == old(self).remaining().drop_first()) && (old(self).is_certain() ==> res is Ok),
                None => res is Err,
            },
            old(self).never_fails() ==> final(self).never_fails(),
    {
        match self.take() {
            Ok(event) => expect_f32(event),
            Err(e) => Err(e),
        }
    }

    /// Takes the bits of a 64-bit floating point value. Fails where the
    /// next event is none, and where the source is asked and fails.
    pub fn deserialize_f64(&mut self) -> (res: Result<u64, Error>)
        ensures
            match f64_of(head_of(old(self).remaining())) {
                Some(value) => (res is Ok ==> res == Ok::<u64, Error>(value)
                    && final(self).remaining() == old(self).remaining().drop_first()) && (old(self).is_certain() ==> res is Ok),
                None => res is Err,
            },
            old(self).never_fails() ==> final(self).never_fails(),
    {
        match self.take() {
            Ok(event) => expect_f64(event),
            Err(e) => Err(e),
        }
    }

    /// Takes a character, which is encoded as a `U32` event. Fails where
    /// the next event is no `U32` event of a Unicode scalar value, and
    /// where the source is asked and fails.
    pub fn deserialize_char(&mut self) -> (res: Result<char, Error>)
        ensures
            match char_code_of(head_of(old(self).remaining())) {
                Some(code) => (res is Ok ==> res->Ok_0 as u32 == code
                    && final(self).remaining() == old(self).remaining().drop_first()) && (old(self).is_certain() ==> res is Ok),
                None => res is Err,
            },
            old(self).never_fails() ==> final(self).never_fails(),
    {
        match self.take() {
            Ok(event) => expect_char(event),
            Err(e) => Err(e),
        }
    }

    /// Takes a string. Fails where the next event is none, and where the
    /// source is asked and fails.
    pub fn deserialize_string(&mut self) -> (res: Result<String, Error>)
        ensures
            match text_of(head_of(old(self).remaining())) {
                Some(text) => (res is Ok ==> res->Ok_0@ == text
                    && final(self).remaining() == old(self).remaining().drop_first()) && (old(self).is_certain() ==> res is Ok),
                None => res is Err,
            },
            old(self).never_fails() ==> final(self).never_fails(),
    {
        match self.take() {
            Ok(event) => expect_string(event),
            Err(e) => Err(e),
        }
    }

    /// Looks at what stands in front of a value that may be absent, and
    /// takes it unless it is the value itself. Returns whether the value
    /// is present. Fails only where the source is asked and fails.
    pub fn deserialize_option(&mut self) -> (res: Result<bool, Error>)
        ensures
            res matches Ok(present) ==> present == !(presence_of(head_of(old(self).remaining()))
                is Absent) && final(self).remaining() == (if presence_of(
                head_of(old(self).remaining()),
            ) is Unmarked {
                old(self).remaining()
            } else {
                old(self).remaining().drop_first()
            }),
            old(self).is_certain() ==> res is Ok,
            old(self).never_fails() ==> final(self).never_fails(),
    {
        let event = match self.peek() {
            Ok(event) => event,
            Err(e) => {
                return Err(e);
            },
        };
        match presence(&event) {
            Presence::Absent => match self.take() {
                Ok(_) => Ok(false),
                Err(e) => Err(e),
            },
            Presence::Marked => match self.take() {
                Ok(_) => Ok(true),
                Err(e) => Err(e),
            },
            Presence::Unmarked => Ok(true),
        }
    }

    /// Takes the event that stands for the expected token: `Null` for a
    /// unit, the start or the end of a sequence or of a map. Fails where
    /// the next event is another one, and where the source is asked and
    /// fails.
    pub fn deserialize_token(&mut self, expected: &Event<'_>) -> (res: Result<(), Error>)
        requires
            expected@ is StartSequence || expected@ is EndSequence || expected@ is StartStruct
                || expected@ is EndStruct || expected@ is Null || expected@ is SomeMarker,
        ensures
            res is Ok ==> final(self).remaining() == old(self).remaining().drop_first(),
            head_of(old(self).remaining()) != Some(expected@) ==> res is Err,
            old(self).is_certain() && head_of(old(self).remaining()) == Some(expected@)
                ==> res is Ok,
            old(self).never_fails() ==> final(self).never_fails(),
    {
        match self.take() {
            Ok(event) => expect_token(event, expected),
            Err(e) => Err(e),
        }
    }

    /// Whether another element of a sequence, or another key of a map,
    /// comes next: whether the next event is not `end`. Fails only where
    /// the source is asked and fails.
    pub fn has_next(&mut self, end: &Event<'_>) -> (res: Result<bool, Error>)
        requires
            end@ is EndSequence || end@ is EndStruct,
        ensures
            res matches Ok(more) ==> more == (head_of(old(self).remaining()) != Some(end@))
                && final(self).remaining() == old(self).remaining() && final(self).peeked()
                == Some(head_of(old(self).remaining())),
            old(self).is_certain() ==> res is Ok,
            old(self).never_fails() ==> final(self).never_fails(),
    {
        match self.peek() {
            Ok(event) => Ok(!is_token(&event, end)),
            Err(e) => Err(e),
        }
    }

    /// Ends the reading. Fails if the source has another event, and where
    /// the source is asked and fails.
    pub fn finish(&mut self) -> (res: Result<(), Error>)
        ensures
            res is Ok ==> old(self).remaining().len() == 0,
            old(self).remaining().len() > 0 ==> res is Err,
            old(self).is_certain() && old(self).remaining().len() == 0 ==> res is Ok,
            old(self).never_fails() ==> final(self).never_fails(),
    {
        match self.take() {
            Ok(Some(_)) => fail(ErrorKind::Interpret, "from_record_batch: Trailing content"),
            Ok(None) => Ok(()),
            Err(e) => Err(e),
        }
    }
}

} // verus!
