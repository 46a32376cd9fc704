//! Sources that turn the buffers of a column back into events.
use vstd::prelude::*;
use crate::error::{fail, fails_with, Error, ErrorKind};
use crate::event::{Event, Token};
use crate::source::{yields, DynamicSource, EventSource};

verus! {

/// Where a list source stands.
#[derive(Debug, Clone, Copy, PartialEq, Eq, Structural)]
pub enum ListSourceState {
    /// In front of the row `outer`.
    Start { outer: usize },
    /// Inside the row `outer`, in the item `inner`, with `depth` containers
    /// open in that item.
    Value { outer: usize, inner: usize, depth: usize },
    /// Behind the last item of the row `outer`.
    End { outer: usize },
}

/// What a list source does next.
pub enum ListSourceStep {
    /// It yields the token and goes to the state, without asking for the
    /// events of the items.
    Emit(Token, ListSourceState),
    /// It yields nothing more.
    Done,
    /// It passes on the next event of the items.
    Forward,
    /// It fails: the offsets and the validity do not go together.
    Invalid,
}

/// The state after the last event of the item `inner` of the row `outer`.
pub open spec fn list_state_after_item(offsets: Seq<usize>, outer: usize, inner: usize) -> ListSourceState {
    if inner + 1 >= offsets[outer + 1] {
        ListSourceState::End { outer }
    } else {
        ListSourceState::Value { outer, inner: (inner + 1) as usize, depth: 0 }
    }
}

/// What a list source does next in the given state.
///
/// In front of a row: behind the last row it is done; a row that is not
/// valid is a `Null`, and must have no items; a valid row starts a
/// sequence. Inside a row it passes on the events of the items. Behind
/// the last item of a row it ends the sequence.
pub open spec fn list_source_step(
    state: ListSourceState,
    offsets: Seq<usize>,
    validity: Seq<bool>,
) -> ListSourceStep {
    match state {
        ListSourceState::Start { outer } => {
            if outer >= validity.len() {
                ListSourceStep::Done
            } else if outer == usize::MAX || outer + 1 >= offsets.len() {
                ListSourceStep::Invalid
            } else if !validity[outer as int] {
                if offsets[outer as int] < offsets[outer + 1] {
                    ListSourceStep::Invalid
                } else {
                    ListSourceStep::Emit(
                        Token::Null,
                        ListSourceState::Start { outer: (outer + 1) as usize },
                    )
                }
            } else if offsets[outer as int] >= offsets[outer + 1] {
                ListSourceStep::Emit(Token::StartSequence, ListSourceState::End { outer })
            } else {
                ListSourceStep::Emit(
                    Token::StartSequence,
                    ListSourceState::Value { outer, inner: offsets[outer as int], depth: 0 },
                )
            }
        },
        ListSourceState::Value { outer, .. } => {
            if outer == usize::MAX || outer + 1 >= offsets.len() {
                ListSourceStep::Invalid
            } else {
                ListSourceStep::Forward
            }
        },
        ListSourceState::End { outer } => {
            if outer == usize::MAX {
                ListSourceStep::Invalid
            } else {
                ListSourceStep::Emit(
                    Token::EndSequence,
                    ListSourceState::Start { outer: (outer + 1) as usize },
                )
            }
        },
    }
}

/// The state of a list source after it passed on an event of its items,
/// or `None` where the event cannot stand there. An item is complete when
/// the container it opened is closed, or, outside containers, with any
/// event but the marker of a present value.
pub open spec fn list_source_forward(
    offsets: Seq<usize>,
    outer: usize,
    inner: usize,
    depth: usize,
    token: Token,
) -> Option<ListSourceState> {
    if token.is_start() {
        if depth == usize::MAX {
            None
        } else {
            Some(ListSourceState::Value { outer, inner, depth: (depth + 1) as usize })
        }
    } else if token.is_end() {
        if depth == 0 {
            None
        } else if depth == 1 {
            Some(list_state_after_item(offsets, outer, inner))
        } else {
            Some(ListSourceState::Value { outer, inner, depth: (depth - 1) as usize })
        }
    } else if depth == 0 {
        if token is SomeMarker {
            Some(ListSourceState::Value { outer, inner, depth })
        } else {
            Some(list_state_after_item(offsets, outer, inner))
        }
    } else {
        Some(ListSourceState::Value { outer, inner, depth })
    }
}

/// How far a list source is from its end: a number that falls with every
/// token that the source yields without asking for the events of its
/// items.
pub open spec fn list_source_distance(state: ListSourceState, rows: nat) -> nat {
    match state {
        ListSourceState::Start { outer } => if outer < rows {
            (3 * (rows - outer)) as nat
        } else {
            0
        },
        ListSourceState::Value { outer, .. } | ListSourceState::End { outer } => if outer < rows {
            (3 * (rows - outer) - 1) as nat
        } else {
            1
        },
    }
}

/// The tokens that a list source yields from the given state on, until it
/// is done or fails, where `items` are the tokens of the events of its
/// items.
pub open spec fn list_output(
    state: ListSourceState,
    items: Seq<Token>,
    offsets: Seq<usize>,
    validity: Seq<bool>,
) -> Seq<Token>
    decreases items.len(), list_source_distance(state, validity.len()),
{
    match list_source_step(state, offsets, validity) {
        ListSourceStep::Done | ListSourceStep::Invalid => Seq::empty(),
        ListSourceStep::Emit(token, next) => seq![token] + list_output(
            next,
            items,
            offsets,
            validity,
        ),
        ListSourceStep::Forward => {
            if items.len() == 0 {
                Seq::empty()
            } else {
                match state {
                    ListSourceState::Value { outer, inner, depth } => match list_source_forward(
                        offsets,
                        outer,
                        inner,
                        depth,
                        items[0],
                    ) {
                        Some(next) => seq![items[0]] + list_output(
                            next,
                            items.drop_first(),
                            offsets,
                            validity,
                        ),
                        None => Seq::empty(),
                    },
                    _ => Seq::empty(),
                }
            }
        },
    }
}

/// The events of a column of lists: for each row, by its validity, a
/// `Null` or a sequence of as many items as its offsets say, taken from
/// the events of the items.
pub struct ListSource<'a> {
    values: DynamicSource<'a>,
    offsets: Vec<usize>,
    validity: Vec<bool>,
    state: ListSourceState,
}

impl<'a> ListSource<'a> {
    /// The offsets of the rows.
    pub closed spec fn offsets(&self) -> Seq<usize> {
        self.offsets@
    }

    /// The validity of the rows.
    pub closed spec fn validity(&self) -> Seq<bool> {
        self.validity@
    }

    /// Where the source stands.
    pub closed spec fn state(&self) -> ListSourceState {
        self.state
    }

    /// The tokens of the events of the items that were not passed on yet.
    pub closed spec fn items(&self) -> Seq<Token> {
        self.values.remaining()
    }

    /// What remains of a list source is what it yields from where it stands.
    pub proof fn lemma_remaining(&self)
        ensures
            self.remaining() == list_output(
                self.state(),
                self.items(),
                self.offsets(),
                self.validity(),
            ),
    {
    }

    /// A source in front of the first row.
    pub fn new(values: DynamicSource<'a>, offsets: Vec<usize>, validity: Vec<bool>) -> (res: Self)
        ensures
            res.offsets() == offsets@,
            res.validity() == validity@,
            res.state() == (ListSourceState::Start { outer: 0 }),
            res.items() == values.remaining(),
    {
        ListSource { values, offsets, validity, state: ListSourceState::Start { outer: 0 } }
    }

    /// The state after the last event of the item `inner` of the row
    /// `outer`.
    fn after_item(&self, outer: usize, inner: usize) -> (res: ListSourceState)
        requires
            outer + 1 < self.offsets().len(),
        ensures
            res == list_state_after_item(self.offsets(), outer, inner),
    {
        let n: usize = self.offsets.len();
        assert(outer + 1 < n);
        if inner == usize::MAX || inner + 1 >= self.offsets[outer + 1] {
            ListSourceState::End { outer }
        } else {
            ListSourceState::Value { outer, inner: inner + 1, depth: 0 }
        }
    }

    /// Goes on behind an event of the items that is passed on. Fails,
    /// leaving the source where it stands, if the event cannot stand
    /// there.
    pub fn forward(&mut self, event: &Event<'a>) -> (res: Result<(), Error>)
        requires
            old(self).state() is Value,
            list_source_step(old(self).state(), old(self).offsets(), old(self).validity())
                is Forward,
        ensures
            final(self).offsets() == old(self).offsets(),
            final(self).validity() == old(self).validity(),
            final(self).items() == old(self).items(),
            match old(self).state() {
                ListSourceState::Value { outer, inner, depth } => match list_source_forward(
                    old(self).offsets(),
                    outer,
                    inner,
                    depth,
                    event@,
                ) {
                    Some(state) => res is Ok && final(self).state() == state,
                    None => fails_with(res, ErrorKind::Interpret)
                        && final(self).state() == old(self).state(),
                },
                _ => true,
            },
    {
        match self.state {
            ListSourceState::Value { outer, inner, depth } => {
                let is_start = matches!(event, Event::StartSequence | Event::StartStruct);
                let is_end = matches!(event, Event::EndSequence | Event::EndStruct);
                if is_start {
                    if depth == usize::MAX {
                        return fail(ErrorKind::Interpret, "too many nested containers");
                    }
                    self.state = ListSourceState::Value { outer, inner, depth: depth + 1 };
                } else if is_end {
                    if depth == 0 {
                        return fail(ErrorKind::Interpret, "an item ends that did not start");
                    } else if depth == 1 {
                        self.state = self.after_item(outer, inner);
                    } else {
                        self.state = ListSourceState::Value { outer, inner, depth: depth - 1 };
                    }
                } else if depth == 0 {
                    if !matches!(event, Event::SomeMarker) {
                        self.state = self.after_item(outer, inner);
                    }
                }
                Ok(())
            },
            _ => Ok(()),
        }
    }
}

impl<'a> EventSource<'a> for ListSource<'a> {
    /// What the source yields from where it stands, as [`list_output`]
    /// says.
    closed spec fn remaining(&self) -> Seq<Token> {
        list_output(self.state, self.values.remaining(), self.offsets@, self.validity@)
    }

    /// A list source may fail: its offsets, its validity and the events of
    /// its items may not go together.
    open spec fn never_fails(&self) -> bool {
        false
    }

    /// The next event of the column. What the source does is given by
    /// [`list_source_step`]; where it passes on an event of the items, it
    /// goes on as [`list_source_forward`] says, and it fails where the
    /// events of the items fail or end.
    fn next(&mut self) -> (res: Result<Option<Event<'a>>, Error>)
        ensures
            final(self).offsets() == old(self).offsets(),
            final(self).validity() == old(self).validity(),
            match list_source_step(old(self).state(), old(self).offsets(), old(self).validity()) {
                ListSourceStep::Emit(token, state) => res is Ok && res->Ok_0 is Some
                    && res->Ok_0->Some_0@ == token && final(self).state() == state
                        && final(self).items() == old(self).items(),
                ListSourceStep::Done => res is Ok && res->Ok_0 is None && final(self).state()
                    == old(self).state(),
                ListSourceStep::Invalid => res is Err && final(self).state() == old(self).state(),
                ListSourceStep::Forward => match res {
                    Ok(Some(event)) => old(self).state() matches ListSourceState::Value {
                        outer,
                        inner,
                        depth,
                    } && list_source_forward(old(self).offsets(), outer, inner, depth, event@)
                        == Some(final(self).state()) && yields(
                        old(self).items(),
                        final(self).items(),
                        res,
                    ),
                    Ok(None) => false,
                    Err(_) => true,
                },
            },
    {
        let ghost before = self.remaining();
        let ghost items = self.values.remaining();
        let res = self.advance();
        proof {
            let after = list_output(
                self.state,
                self.values.remaining(),
                self.offsets@,
                self.validity@,
            );
            if res is Ok && res->Ok_0 is Some {
                let token = res->Ok_0->Some_0@;
                assert(before =~= seq![token] + after);
                assert(after =~= before.drop_first());
            }
        }
        res
    }
}

impl<'a> ListSource<'a> {
    /// Yields the next event and goes on.
    fn advance(&mut self) -> (res: Result<Option<Event<'a>>, Error>)
        ensures
            final(self).offsets() == old(self).offsets(),
            final(self).validity() == old(self).validity(),
            match list_source_step(old(self).state(), old(self).offsets(), old(self).validity()) {
                ListSourceStep::Emit(token, state) => res is Ok && res->Ok_0 is Some
                    && res->Ok_0->Some_0@ == token && final(self).state() == state
                        && final(self).items() == old(self).items(),
                ListSourceStep::Done => res is Ok && res->Ok_0 is None && final(self).state()
                    == old(self).state() && final(self).items() == old(self).items(),
                ListSourceStep::Invalid => res is Err && final(self).state() == old(self).state(),
                ListSourceStep::Forward => match res {
                    Ok(Some(event)) => old(self).state() matches ListSourceState::Value {
                        outer,
                        inner,
                        depth,
                    } && list_source_forward(old(self).offsets(), outer, inner, depth, event@)
                        == Some(final(self).state()) && yields(
                        old(self).items(),
                        final(self).items(),
                        res,
                    ),
                    Ok(None) => false,
                    Err(_) => true,
                },
            },
    {
        match self.state {
            ListSourceState::Start { outer } => {
                if outer >= self.validity.len() {
                    return Ok(None);
                }
                if outer == usize::MAX || outer + 1 >= self.offsets.len() {
                    return fail(ErrorKind::Interpret, "the offsets of a list end early");
                }
                if !self.validity[outer] {
                    if self.offsets[outer] < self.offsets[outer + 1] {
                        return fail(ErrorKind::Interpret, "a null list must not have items");
                    }
                    self.state = ListSourceState::Start { outer: outer + 1 };
                    Ok(Some(Event::Null))
                } else if self.offsets[outer] >= self.offsets[outer + 1] {
                    self.state = ListSourceState::End { outer };
                    Ok(Some(Event::StartSequence))
                } else {
                    self.state = ListSourceState::Value {
                        outer,
                        inner: self.offsets[outer],
                        depth: 0,
                    };
                    Ok(Some(Event::StartSequence))
                }
            },
            ListSourceState::Value { outer, .. } => {
                if outer == usize::MAX || outer + 1 >= self.offsets.len() {
                    return fail(ErrorKind::Interpret, "the offsets of a list end early");
                }
                let event = match self.values.next() {
                    Ok(Some(event)) => event,
                    Ok(None) => {
                        return fail(ErrorKind::Interpret, "the items of a list end early");
                    },
                    Err(e) => {
                        return Err(e);
                    },
                };
                match self.forward(&event) {
                    Ok(()) => Ok(Some(event)),
                    Err(e) => Err(e),
                }
            },
            ListSourceState::End { outer } => {
                if outer == usize::MAX {
                    return fail(ErrorKind::Interpret, "too many rows");
                }
                self.state = ListSourceState::Start { outer: outer + 1 };
                Ok(Some(Event::EndSequence))
            },
        }
    }
}

} // verus!
