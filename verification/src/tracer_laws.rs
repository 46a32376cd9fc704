//! What holds of the events that a tracer accepts.
use vstd::prelude::*;
use crate::event::Token;
use crate::text::{first_index_of, is_first_index_of};
use crate::tracer::{
    tracer_accept, tracer_accept_all, tracer_is_finished, ListTracerState, StructTracerState,
    TracerView,
};

verus! {

/// The number of sequences that are open where the tracer stands.
pub open spec fn open_sequences(tracer: TracerView) -> int
    decreases tracer,
{
    match tracer {
        TracerView::List { item_tracer, next, .. } => match next {
            ListTracerState::Start => 0,
            ListTracerState::Item(_) => 1 + open_sequences(*item_tracer),
        },
        TracerView::Struct { field_tracers, next, .. } => match next {
            StructTracerState::Value(field, _) => if field < field_tracers.len() {
                open_sequences(field_tracers[field as int])
            } else {
                0
            },
            _ => 0,
        },
        _ => 0,
    }
}

/// The number of structs that are open where the tracer stands.
pub open spec fn open_structs(tracer: TracerView) -> int
    decreases tracer,
{
    match tracer {
        TracerView::List { item_tracer, next, .. } => match next {
            ListTracerState::Start => 0,
            ListTracerState::Item(_) => open_structs(*item_tracer),
        },
        TracerView::Struct { field_tracers, next, .. } => match next {
            StructTracerState::Start => 0,
            StructTracerState::Key => 1,
            StructTracerState::Value(field, _) => if field < field_tracers.len() {
                1 + open_structs(field_tracers[field as int])
            } else {
                1
            },
        },
        _ => 0,
    }
}

/// Whether the depths that the tracer keeps are the numbers of containers
/// that are open in the tracers nested in it, and the tracers that are not
/// in use stand outside any container.
pub open spec fn is_consistent(tracer: TracerView) -> bool
    decreases tracer,
{
    match tracer {
        TracerView::List { item_tracer, next, .. } => {
            &&& is_consistent(*item_tracer)
            &&& match next {
                ListTracerState::Start => open_sequences(*item_tracer) == 0 && open_structs(
                    *item_tracer,
                ) == 0,
                ListTracerState::Item(depth) => depth == open_sequences(*item_tracer)
                    + open_structs(*item_tracer),
            }
        },
        TracerView::Struct { field_tracers, field_names, next, .. } => {
            &&& field_names.len() == field_tracers.len()
            &&& field_tracers.len() <= usize::MAX
            &&& forall|i: int|
                0 <= i < field_tracers.len() ==> is_consistent(#[trigger] field_tracers[i])
            &&& forall|i: int|
                0 <= i < field_tracers.len() && !(next matches StructTracerState::Value(field, _)
                    && field == i) ==> open_sequences(#[trigger] field_tracers[i]) == 0
                    && open_structs(field_tracers[i]) == 0
            &&& next matches StructTracerState::Value(field, depth) ==> field < field_tracers.len()
                && depth == open_sequences(field_tracers[field as int]) + open_structs(
                field_tracers[field as int],
            )
        },
        _ => true,
    }
}

/// By how much a token changes the number of open sequences.
pub open spec fn sequence_change(token: Token) -> int {
    if token is StartSequence {
        1
    } else if token is EndSequence {
        -1
    } else {
        0
    }
}

/// By how much a token changes the number of open structs.
pub open spec fn struct_change(token: Token) -> int {
    if token is StartStruct {
        1
    } else if token is EndStruct {
        -1
    } else {
        0
    }
}

/// The number of containers that are open is never negative.
pub proof fn lemma_open_is_not_negative(tracer: TracerView)
    ensures
        open_sequences(tracer) >= 0,
        open_structs(tracer) >= 0,
    decreases tracer,
{
    match tracer {
        TracerView::List { item_tracer, .. } => {
            lemma_open_is_not_negative(*item_tracer);
        },
        TracerView::Struct { field_tracers, next, .. } => {
            if let StructTracerState::Value(field, _) = next {
                if field < field_tracers.len() {
                    lemma_open_is_not_negative(field_tracers[field as int]);
                }
            }
        },
        _ => {},
    }
}

/// A tracer that accepts a token keeps count of it: the number of open
/// sequences and of open structs change as the token says.
pub proof fn lemma_accept_counts(tracer: TracerView, token: Token)
    requires
        is_consistent(tracer),
        tracer_accept(tracer, token) is Some,
    ensures
        is_consistent(tracer_accept(tracer, token).unwrap()),
        open_sequences(tracer_accept(tracer, token).unwrap()) == open_sequences(tracer)
            + sequence_change(token),
        open_structs(tracer_accept(tracer, token).unwrap()) == open_structs(tracer)
            + struct_change(token),
    decreases tracer,
{
    let after = tracer_accept(tracer, token).unwrap();
    reveal_with_fuel(open_sequences, 2);
    reveal_with_fuel(open_structs, 2);
    reveal_with_fuel(is_consistent, 2);
    match tracer {
        TracerView::List { item_tracer, nullable, next } => {
            lemma_open_is_not_negative(*item_tracer);
            if let ListTracerState::Item(depth) = next {
                if !(depth == 0 && token is EndSequence) {
                    lemma_accept_counts(*item_tracer, token);
                    lemma_open_is_not_negative(tracer_accept(*item_tracer, token).unwrap());
                }
            }
        },
        TracerView::Struct { field_tracers, nullable, field_names, next } => {
            match next {
                StructTracerState::Value(field, depth) => {
                    let value = tracer_accept(field_tracers[field as int], token).unwrap();
                    lemma_accept_counts(field_tracers[field as int], token);
                    lemma_open_is_not_negative(field_tracers[field as int]);
                    lemma_open_is_not_negative(value);
                    let fields = field_tracers.update(field as int, value);
                    assert forall|i: int| 0 <= i < fields.len() implies is_consistent(
                        #[trigger] fields[i],
                    ) by {
                        if i != field {
                            assert(is_consistent(field_tracers[i]));
                        }
                    }
                    assert forall|i: int|
                        0 <= i < fields.len() && i != field implies open_sequences(
                        #[trigger] fields[i],
                    ) == 0 && open_structs(fields[i]) == 0 by {
                        assert(open_sequences(field_tracers[i]) == 0);
                    }
                },
                StructTracerState::Key => {
                    if let Token::Str(key) = token {
                        if crate::text::first_index_of(field_names, key) is Some {
                            let field = crate::text::first_index_of(field_names, key).unwrap();
                            assert(crate::text::is_first_index_of(field_names, key, field));
                            assert(open_sequences(field_tracers[field]) == 0);
                        } else {
                            let fields = field_tracers.push(TracerView::Unknown { nullable: false });
                            assert forall|i: int| 0 <= i < fields.len() implies is_consistent(
                                #[trigger] fields[i],
                            ) && open_sequences(fields[i]) == 0 && open_structs(fields[i])
                                == 0 by {
                                if i < field_tracers.len() {
                                    assert(is_consistent(field_tracers[i]));
                                    assert(open_sequences(field_tracers[i]) == 0);
                                }
                            }
                        }
                    }
                },
                StructTracerState::Start => {},
            }
        },
        _ => {},
    }
}

/// The sum of the changes of the first `n` tokens: the number of
/// sequences they start less the number they end.
pub open spec fn sequence_depth(tokens: Seq<Token>, n: nat) -> int
    decreases n,
{
    if n == 0 || n > tokens.len() {
        0
    } else {
        sequence_depth(tokens, (n - 1) as nat) + sequence_change(tokens[n - 1])
    }
}

/// The sum of the changes of the first `n` tokens: the number of structs
/// they start less the number they end.
pub open spec fn struct_depth(tokens: Seq<Token>, n: nat) -> int
    decreases n,
{
    if n == 0 || n > tokens.len() {
        0
    } else {
        struct_depth(tokens, (n - 1) as nat) + struct_change(tokens[n - 1])
    }
}

/// Where a tracer stands after it accepted events from its start, as many
/// sequences and structs are open as the events started and did not end;
/// no events end more containers than were started before.
pub proof fn lemma_tracer_counts(tokens: Seq<Token>, n: nat)
    requires
        n <= tokens.len(),
        tracer_accept_all(TracerView::Unknown { nullable: false }, tokens, n) is Some,
    ensures
        ({
            let tracer = tracer_accept_all(
                TracerView::Unknown { nullable: false },
                tokens,
                n,
            ).unwrap();
            &&& is_consistent(tracer)
            &&& open_sequences(tracer) == sequence_depth(tokens, n)
            &&& open_structs(tracer) == struct_depth(tokens, n)
            &&& sequence_depth(tokens, n) >= 0
            &&& struct_depth(tokens, n) >= 0
        }),
    decreases n,
{
    if n > 0 {
        lemma_tracer_counts(tokens, (n - 1) as nat);
        let before = tracer_accept_all(
            TracerView::Unknown { nullable: false },
            tokens,
            (n - 1) as nat,
        ).unwrap();
        lemma_accept_counts(before, tokens[n - 1]);
        lemma_open_is_not_negative(tracer_accept(before, tokens[n - 1]).unwrap());
    }
}

/// The events of a batch that a tracer accepts from its start to its
/// finish are balanced: they start as many sequences as they end, and as
/// many structs as they end.
pub proof fn lemma_accepted_events_are_balanced(tokens: Seq<Token>)
    requires
        tracer_accept_all(TracerView::Unknown { nullable: false }, tokens, tokens.len()) is Some,
        tracer_is_finished(
            tracer_accept_all(
                TracerView::Unknown { nullable: false },
                tokens,
                tokens.len(),
            ).unwrap(),
        ),
    ensures
        sequence_depth(tokens, tokens.len()) == 0,
        struct_depth(tokens, tokens.len()) == 0,
{
    lemma_tracer_counts(tokens, tokens.len());
}

/// Whether the names and the tracers of every struct tracer go together:
/// there is one name for each tracer, and no name occurs twice.
pub open spec fn fields_are_named(tracer: TracerView) -> bool
    decreases tracer,
{
    match tracer {
        TracerView::List { item_tracer, .. } => fields_are_named(*item_tracer),
        TracerView::Struct { field_tracers, field_names, .. } => {
            &&& field_names.len() == field_tracers.len()
            &&& forall|i: int, j: int|
                0 <= i < j < field_names.len() ==> field_names[i] != field_names[j]
            &&& forall|i: int|
                0 <= i < field_tracers.len() ==> fields_are_named(#[trigger] field_tracers[i])
        },
        _ => true,
    }
}

/// The names of the fields of a struct tracer, in the order in which they
/// were first seen; none for another tracer.
pub open spec fn names_of(tracer: TracerView) -> Seq<Seq<char>> {
    match tracer {
        TracerView::Struct { field_names, .. } => field_names,
        _ => Seq::empty(),
    }
}

/// Whether the tracer has seen a value that was absent.
pub open spec fn is_nullable(tracer: TracerView) -> bool {
    match tracer {
        TracerView::Unknown { nullable } => nullable,
        TracerView::Primitive { nullable, .. } => nullable,
        TracerView::List { nullable, .. } => nullable,
        TracerView::Struct { nullable, .. } => nullable,
    }
}

/// A name that has no first position does not occur.
pub proof fn lemma_without_first_index(names: Seq<Seq<char>>, name: Seq<char>, j: int)
    requires
        first_index_of(names, name) is None,
        0 <= j < names.len(),
    ensures
        names[j] != name,
    decreases j,
{
    if names[j] == name {
        if forall|i: int| 0 <= i < j ==> #[trigger] names[i] != name {
            assert(is_first_index_of(names, name, j));
        } else {
            let i = choose|i: int| 0 <= i < j && #[trigger] names[i] == name;
            lemma_without_first_index(names, name, i);
        }
    }
}

/// A tracer that was nullable stays nullable, and a tracer of lists or of
/// structs stays one.
pub proof fn lemma_accept_keeps_nullable(tracer: TracerView, token: Token)
    requires
        tracer_accept(tracer, token) is Some,
    ensures
        is_nullable(tracer) ==> is_nullable(tracer_accept(tracer, token).unwrap()),
        tracer is Struct ==> tracer_accept(tracer, token).unwrap() is Struct,
        tracer is List ==> tracer_accept(tracer, token).unwrap() is List,
{
}

/// A tracer that accepts an event keeps what it has learnt: the names and
/// the tracers of its structs still go together, and a struct tracer keeps
/// its names in the order in which they were first seen and gets at most
/// one more.
pub proof fn lemma_accept_keeps_fields(tracer: TracerView, token: Token)
    requires
        fields_are_named(tracer),
        tracer_accept(tracer, token) is Some,
    ensures
        fields_are_named(tracer_accept(tracer, token).unwrap()),
        names_of(tracer).is_prefix_of(names_of(tracer_accept(tracer, token).unwrap())),
        names_of(tracer_accept(tracer, token).unwrap()).len() <= names_of(tracer).len() + 1,
    decreases tracer,
{
    let after = tracer_accept(tracer, token).unwrap();
    reveal_with_fuel(fields_are_named, 2);
    match tracer {
        TracerView::List { item_tracer, next, .. } => {
            if let ListTracerState::Item(depth) = next {
                if !(depth == 0 && token is EndSequence) {
                    lemma_accept_keeps_fields(*item_tracer, token);
                }
            }
        },
        TracerView::Struct { field_tracers, field_names, next, .. } => {
            match next {
                StructTracerState::Start => {},
                StructTracerState::Key => {
                    if let Token::Str(key) = token {
                        if first_index_of(field_names, key) is None {
                            let names = field_names.push(key);
                            assert forall|i: int, j: int| 0 <= i < j < names.len() implies names[i]
                                != names[j] by {
                                if j == field_names.len() {
                                    lemma_without_first_index(field_names, key, i);
                                }
                            }
                            assert(names_of(after) == names);
                        }
                    }
                },
                StructTracerState::Value(field, depth) => {
                    lemma_accept_keeps_fields(field_tracers[field as int], token);
                },
            }
        },
        _ => {},
    }
}

/// What a tracer has learnt from its start by the events it accepted: the
/// names and the tracers of its structs go together.
pub proof fn lemma_traced_fields_are_named(tokens: Seq<Token>, n: nat)
    requires
        n <= tokens.len(),
        tracer_accept_all(TracerView::Unknown { nullable: false }, tokens, n) is Some,
    ensures
        fields_are_named(
            tracer_accept_all(TracerView::Unknown { nullable: false }, tokens, n).unwrap(),
        ),
    decreases n,
{
    if n > 0 {
        lemma_traced_fields_are_named(tokens, (n - 1) as nat);
        let before = tracer_accept_all(
            TracerView::Unknown { nullable: false },
            tokens,
            (n - 1) as nat,
        ).unwrap();
        lemma_accept_keeps_fields(before, tokens[n - 1]);
    }
}

} // verus!
