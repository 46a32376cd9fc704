//! Sources of events: what yields the events of a batch, one by one.
use vstd::prelude::*;
use crate::error::{fail, fails_with, Error, ErrorKind};
use crate::event::{tokens_of, Event, Token};

verus! {

/// Whether `res` is what a source yields that has the tokens `before` yet
/// to yield, and has the tokens `after` to yield from then on: the first of
/// the tokens, or `None` when there are none. A source may fail instead.
pub open spec fn yields(before: Seq<Token>, after: Seq<Token>, res: Result<Option<Event<'_>>, Error>) -> bool {
    match res {
        Ok(Some(event)) => before.len() > 0 && event@ == before[0] && after == before.drop_first(),
        Ok(None) => before.len() == 0 && after == before,
        Err(_) => true,
    }
}

/// A source of events. It yields `None` once it has no more events.
pub trait EventSource<'a> {
    /// The tokens of the events that the source has yet to yield.
    spec fn remaining(&self) -> Seq<Token>;

    /// Whether the source never fails: whether it yields each of its
    /// events, and then `None`, whenever it is asked.
    spec fn never_fails(&self) -> bool;

    /// The next event, if there is one.
    fn next(&mut self) -> (res: Result<Option<Event<'a>>, Error>)
        ensures
            yields(old(self).remaining(), final(self).remaining(), res),
            old(self).never_fails() ==> res is Ok && final(self).never_fails(),
    ;
}

/// The first of the tokens, if there is one.
pub open spec fn head_of(tokens: Seq<Token>) -> Option<Token> {
    if tokens.len() > 0 {
        Some(tokens[0])
    } else {
        None
    }
}

/// The token of an event that may be missing.
pub open spec fn token_of(event: Option<Event<'_>>) -> Option<Token> {
    match event {
        Some(event) => Some(event@),
        None => None,
    }
}

/// A copy of an event that may be missing.
pub fn duplicate_event<'a>(event: &Option<Event<'a>>) -> (res: Option<Event<'a>>)
    ensures
        token_of(res) == token_of(*event),
{
    match event {
        Some(event) => Some(event.duplicate()),
        None => None,
    }
}

/// The event, which must not be missing.
pub fn required<'a>(event: Option<Event<'a>>) -> (res: Result<Event<'a>, Error>)
    ensures
        match event {
            Some(event) => res == Ok::<Event<'a>, Error>(event),
            None => fails_with(res, ErrorKind::Interpret),
        },
{
    match event {
        Some(event) => Ok(event),
        None => fail(ErrorKind::Interpret, "Unexpected no event"),
    }
}

/// A source that lets its next event be looked at before it is taken.
pub struct PeekableEventSource<'a, S: EventSource<'a> + 'a> {
    source: S,
    peeked: Option<Option<Event<'a>>>,
}

impl<'a, S: EventSource<'a> + 'a> PeekableEventSource<'a, S> {
    /// What was looked at and not taken yet: `None` if nothing was, else
    /// the token of the next event, or `None` for the end of the events.
    pub closed spec fn peeked(&self) -> Option<Option<Token>> {
        match self.peeked {
            Some(event) => Some(token_of(event)),
            None => None,
        }
    }

    /// The source behind.
    pub closed spec fn inner(&self) -> S {
        self.source
    }

    /// A source over the given source, with nothing looked at.
    pub fn new(source: S) -> (res: Self)
        ensures
            res.peeked() is None,
            res.inner() == source,
    {
        Self { source, peeked: None }
    }

    /// The next event, which stays the next event. Where an event was
    /// looked at before, it is returned again and the source behind is not
    /// asked; otherwise the source behind is asked, and what it yields is
    /// returned and kept. So this fails only where the source behind is
    /// asked and fails.
    pub fn peek(&mut self) -> (res: Result<Option<Event<'a>>, Error>)
        ensures
            old(self).peeked() matches Some(token) ==> res is Ok && token_of(res->Ok_0) == token
                && final(self).peeked() == old(self).peeked()
                && final(self).inner() == old(self).inner(),
            old(self).peeked() is None ==> yields(
                old(self).inner().remaining(),
                final(self).inner().remaining(),
                res,
            ) && (old(self).inner().never_fails() ==> final(self).inner().never_fails()),
            old(self).peeked() is None && res is Ok ==> final(self).peeked() == Some(
                token_of(res->Ok_0),
            ),
            old(self).peeked() is None && res is Err ==> final(self).peeked() is None,
            old(self).never_fails() ==> res is Ok,
            res is Ok ==> final(self).remaining() == old(self).remaining() && token_of(res->Ok_0)
                == head_of(old(self).remaining()),
    {
        match &self.peeked {
            Some(peeked) => Ok(duplicate_event(peeked)),
            None => {
                let ev = match self.source.next() {
                    Ok(ev) => ev,
                    Err(e) => {
                        return Err(e);
                    },
                };
                self.peeked = Some(duplicate_event(&ev));
                proof {
                    if ev is Some {
                        assert(seq![ev.unwrap()@] + self.source.remaining() =~= old(self).source.remaining());
                    }
                }
                Ok(ev)
            },
        }
    }
}

impl<'a, S: EventSource<'a> + 'a> EventSource<'a> for PeekableEventSource<'a, S> {
    /// The event that was looked at, if there is one, and the tokens of
    /// the source behind. Once the end of the events was looked at,
    /// nothing remains.
    open spec fn remaining(&self) -> Seq<Token> {
        match self.peeked() {
            Some(Some(token)) => seq![token] + self.inner().remaining(),
            Some(None) => Seq::empty(),
            None => self.inner().remaining(),
        }
    }

    /// A peekable source never fails if the source behind never does.
    open spec fn never_fails(&self) -> bool {
        self.inner().never_fails()
    }

    /// The next event. Where an event was looked at before, it is the one
    /// that is returned, and the source behind is not asked; otherwise
    /// what the source behind yields is returned. So this fails only where
    /// the source behind is asked and fails. Once the end of the events
    /// was looked at, the source stays at its end.
    fn next(&mut self) -> (res: Result<Option<Event<'a>>, Error>)
        ensures
            old(self).peeked() matches Some(token) ==> res is Ok && token_of(res->Ok_0) == token
                && final(self).inner() == old(self).inner() && final(self).peeked() == (
            if token is Some {
                None::<Option<Token>>
            } else {
                old(self).peeked()
            }),
            old(self).peeked() is None ==> final(self).peeked() is None && yields(
                old(self).inner().remaining(),
                final(self).inner().remaining(),
                res,
            ),
    {
        match &self.peeked {
            Some(None) => Ok(None),
            Some(Some(_)) => {
                let peeked = self.peeked.take();
                proof {
                    assert((seq![peeked.unwrap().unwrap()@] + self.source.remaining()).drop_first()
                        =~= self.source.remaining());
                }
                Ok(peeked.unwrap())
            },
            None => self.source.next(),
        }
    }
}

/// A source of any kind behind one type.
pub struct DynamicSource<'a> {
    source: Box<dyn EventSource<'a> + 'a>,
}

impl<'a> DynamicSource<'a> {
    /// Wraps the given source. The source goes behind a trait object, and
    /// the verifier does not relate a trait object to the value it was
    /// made from: that the new source has the tokens of the given one is
    /// not stated here.
    pub fn new<S: EventSource<'a> + 'a>(source: S) -> Self {
        Self { source: Box::new(source) }
    }
}

impl<'a> EventSource<'a> for DynamicSource<'a> {
    /// The tokens of the wrapped source.
    closed spec fn remaining(&self) -> Seq<Token> {
        self.source.remaining()
    }

    /// A dynamic source never fails if the wrapped source never does.
    closed spec fn never_fails(&self) -> bool {
        self.source.never_fails()
    }

    /// The next event of the wrapped source.
    fn next(&mut self) -> (res: Result<Option<Event<'a>>, Error>)
    {
        self.source.next()
    }
}

/// What can be turned into a source of events.
pub trait IntoEventSource<'a> {
    type EventSource: EventSource<'a>;

    /// The source of the events.
    fn into_event_source(self) -> Self::EventSource;
}

impl<'a, S: EventSource<'a>> IntoEventSource<'a> for S {
    type EventSource = Self;

    fn into_event_source(self) -> (res: Self::EventSource)
        ensures
            res == self,
    {
        self
    }
}

/// A source over a slice of events.
pub struct SliceSource<'items, 'event> {
    items: &'items [Event<'event>],
    next: usize,
}

impl<'items, 'event> SliceSource<'items, 'event> {
    /// A source over the given events, none of which is taken yet.
    pub fn new(items: &'items [Event<'event>]) -> (res: Self)
        ensures
            res.remaining() == tokens_of(items@),
            res.never_fails(),
    {
        proof {
            assert(tokens_of(items@).skip(0) =~= tokens_of(items@));
        }
        SliceSource { items, next: 0 }
    }
}

impl<'items, 'event> EventSource<'event> for SliceSource<'items, 'event> {
    /// The tokens of the events of the slice that were not taken yet.
    closed spec fn remaining(&self) -> Seq<Token> {
        if self.next <= self.items@.len() {
            tokens_of(self.items@).skip(self.next as int)
        } else {
            Seq::empty()
        }
    }

    /// A source over a slice never fails.
    open spec fn never_fails(&self) -> bool {
        true
    }

    /// The events of the slice in order, then `None`.
    fn next(&mut self) -> (res: Result<Option<Event<'event>>, Error>)
    {
        if self.next < self.items.len() {
            let event = self.items[self.next].duplicate();
            self.next = self.next + 1;
            proof {
                let tokens = tokens_of(self.items@);
                assert(tokens.skip(self.next as int) =~= tokens.skip(self.next - 1).drop_first());
            }
            Ok(Some(event))
        } else {
            Ok(None)
        }
    }
}

impl<'items, 'event> IntoEventSource<'event> for &'items [Event<'event>] {
    type EventSource = SliceSource<'items, 'event>;

    fn into_event_source(self) -> (res: Self::EventSource)
        ensures
            res.remaining() == tokens_of(self@),
            res.never_fails(),
    {
        SliceSource::new(self)
    }
}

impl<'items, 'event> IntoEventSource<'event> for &'items Vec<Event<'event>> {
    type EventSource = SliceSource<'items, 'event>;

    fn into_event_source(self) -> (res: Self::EventSource)
        ensures
            res.remaining() == tokens_of(self@),
            res.never_fails(),
    {
        SliceSource::new(self.as_slice())
    }
}

} // verus!
