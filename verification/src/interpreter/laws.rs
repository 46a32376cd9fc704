//! What holds of the buffers whatever the program and the events.
use vstd::prelude::*;
use crate::bytecode::{BytecodeView, DictionaryIndex, DictionaryValue};
use crate::event::Token;
use crate::interpreter::bit_set::{lemma_bit_set_empty, lemma_bit_set_with, BitSet};
use crate::interpreter::buffers::{
    appended, appended_all, counted, counted_all, items_counted, lemma_with_row_monotone,
    rows_ended, BuffersView, OffsetsView,
};
use crate::interpreter::machine::{step, MachineView};
use crate::interpreter::run::{accepted, accepted_all, fuel_of};
use crate::structure::{BufferCounts, FieldDefinition, NullDefinitionView, StructureView};

verus! {

/// How often `idx` occurs among the first `n` of the indices.
pub open spec fn occurrences(indices: Seq<usize>, idx: int, n: nat) -> nat
    decreases n,
{
    if n == 0 || n > indices.len() {
        0
    } else {
        occurrences(indices, idx, (n - 1) as nat) + if indices[n - 1] == idx {
            1nat
        } else {
            0nat
        }
    }
}

/// The given number of copies of a value.
pub open spec fn repeated<T>(value: T, n: nat) -> Seq<T> {
    Seq::new(n, |i: int| value)
}

/// The number of flags that are set.
pub open spec fn count_true(bits: Seq<bool>) -> nat
    decreases bits.len(),
{
    if bits.len() == 0 {
        0
    } else {
        count_true(bits.drop_last()) + if bits.last() {
            1nat
        } else {
            0nat
        }
    }
}

/// One more flag raises the number of flags that are set by one exactly
/// if it is set.
pub proof fn lemma_count_true_push(bits: Seq<bool>, bit: bool)
    ensures
        count_true(bits.push(bit)) == count_true(bits) + if bit {
            1nat
        } else {
            0nat
        },
{
    assert(bits.push(bit).drop_last() =~= bits);
}

/// Each buffer of a pool gets as many more values as it is listed.
pub proof fn lemma_appended_all_slots<T>(pool: Seq<Seq<T>>, indices: Seq<usize>, value: T, n: nat)
    requires
        n <= indices.len(),
        appended_all(pool, indices, value, n) is Some,
    ensures
        appended_all(pool, indices, value, n).unwrap().len() == pool.len(),
        forall|idx: int|
            0 <= idx < pool.len() ==> #[trigger] appended_all(pool, indices, value, n).unwrap()[idx]
                == pool[idx] + repeated(value, occurrences(indices, idx, n)),
    decreases n,
{
    reveal(appended_all);
    if n == 0 {
        assert forall|idx: int| 0 <= idx < pool.len() implies #[trigger] pool[idx]
            == pool[idx] + repeated(value, 0) by {
            assert(pool[idx] + repeated(value, 0) =~= pool[idx]);
        }
    } else {
        let before = appended_all(pool, indices, value, (n - 1) as nat).unwrap();
        lemma_appended_all_slots(pool, indices, value, (n - 1) as nat);
        let after = appended_all(pool, indices, value, n).unwrap();
        let last = indices[n - 1];
        assert forall|idx: int| 0 <= idx < pool.len() implies #[trigger] after[idx]
            == pool[idx] + repeated(value, occurrences(indices, idx, n)) by {
            let k = occurrences(indices, idx, (n - 1) as nat);
            assert(before[idx] == pool[idx] + repeated(value, k));
            if idx == last {
                assert(repeated(value, k).push(value) =~= repeated(value, k + 1));
                assert((pool[idx] + repeated(value, k)).push(value) =~= pool[idx]
                    + repeated(value, k + 1));
            }
        }
    }
}

/// Each counter is raised as often as it is listed.
pub proof fn lemma_counted_all_slots(pool: Seq<usize>, indices: Seq<usize>, n: nat)
    requires
        n <= indices.len(),
        counted_all(pool, indices, n) is Some,
    ensures
        counted_all(pool, indices, n).unwrap().len() == pool.len(),
        forall|idx: int|
            0 <= idx < pool.len() ==> #[trigger] counted_all(pool, indices, n).unwrap()[idx]
                == pool[idx] + occurrences(indices, idx, n),
    decreases n,
{
    reveal(counted_all);
    if n > 0 {
        lemma_counted_all_slots(pool, indices, (n - 1) as nat);
    }
}

/// Each of the offsets gets as many more rows as it is listed, all of
/// them empty, and monotone offsets stay monotone.
pub proof fn lemma_rows_ended_slots(pool: Seq<OffsetsView>, indices: Seq<usize>, n: nat)
    requires
        n <= indices.len(),
        rows_ended(pool, indices, n) is Some,
    ensures
        rows_ended(pool, indices, n).unwrap().len() == pool.len(),
        forall|idx: int|
            0 <= idx < pool.len() ==> {
                let after = #[trigger] rows_ended(pool, indices, n).unwrap()[idx];
                &&& after.current_items == pool[idx].current_items
                &&& after.offsets == pool[idx].offsets + repeated(
                    pool[idx].current_items,
                    occurrences(indices, idx, n),
                )
                &&& pool[idx].is_monotone() ==> after.is_monotone()
            },
    decreases n,
{
    reveal(rows_ended);
    if n == 0 {
        assert forall|idx: int| 0 <= idx < pool.len() implies pool[idx].offsets
            == #[trigger] pool[idx].offsets + repeated(pool[idx].current_items, 0) by {
            assert(pool[idx].offsets + repeated(pool[idx].current_items, 0)
                =~= pool[idx].offsets);
        }
    } else {
        let before = rows_ended(pool, indices, (n - 1) as nat).unwrap();
        lemma_rows_ended_slots(pool, indices, (n - 1) as nat);
        let after = rows_ended(pool, indices, n).unwrap();
        let last = indices[n - 1];
        assert forall|idx: int| 0 <= idx < pool.len() implies {
            let a = #[trigger] after[idx];
            &&& a.current_items == pool[idx].current_items
            &&& a.offsets == pool[idx].offsets + repeated(
                pool[idx].current_items,
                occurrences(indices, idx, n),
            )
            &&& pool[idx].is_monotone() ==> a.is_monotone()
        } by {
            let k = occurrences(indices, idx, (n - 1) as nat);
            let items = pool[idx].current_items;
            assert(before[idx].offsets == pool[idx].offsets + repeated(items, k));
            if idx == last {
                assert(repeated(items, k).push(items) =~= repeated(items, k + 1));
                assert((pool[idx].offsets + repeated(items, k)).push(items)
                    =~= pool[idx].offsets + repeated(items, k + 1));
                if pool[idx].is_monotone() {
                    lemma_with_row_monotone(before[idx]);
                }
            }
        }
    }
}

impl BuffersView {
    /// Whether all offsets start at 0, never decrease, and do not exceed
    /// the number of items counted.
    pub open spec fn offsets_are_monotone(self) -> bool {
        &&& forall|i: int|
            0 <= i < self.u32_offsets.len() ==> (#[trigger] self.u32_offsets[i]).is_monotone()
        &&& forall|i: int|
            0 <= i < self.u64_offsets.len() ==> (#[trigger] self.u64_offsets[i]).is_monotone()
    }
}

/// One absent value gives each buffer of the null definition as many more
/// slots as the definition lists it: counters are raised, bitmaps get
/// bits 0, value buffers get zeros, and offsets get empty rows. Other
/// buffers stay as they are, and monotone offsets stay monotone.
pub proof fn lemma_with_null_slots(buffers: BuffersView, definition: NullDefinitionView)
    requires
        buffers.with_null(definition) is Some,
    ensures
        ({
            let after = buffers.with_null(definition).unwrap();
            &&& after.seen == buffers.seen
            &&& after.dictionaries == buffers.dictionaries
            &&& after.u0.len() == buffers.u0.len()
            &&& after.u1.len() == buffers.u1.len()
            &&& after.u8.len() == buffers.u8.len()
            &&& after.u16.len() == buffers.u16.len()
            &&& after.u32.len() == buffers.u32.len()
            &&& after.u64.len() == buffers.u64.len()
            &&& after.u32_offsets.len() == buffers.u32_offsets.len()
            &&& after.u64_offsets.len() == buffers.u64_offsets.len()
            &&& forall|idx: int|
                0 <= idx < buffers.u0.len() ==> #[trigger] after.u0[idx] == buffers.u0[idx]
                    + occurrences(definition.u0, idx, definition.u0.len())
            &&& forall|idx: int|
                0 <= idx < buffers.u1.len() ==> #[trigger] after.u1[idx] == buffers.u1[idx]
                    + repeated(false, occurrences(definition.u1, idx, definition.u1.len()))
            &&& forall|idx: int|
                0 <= idx < buffers.u8.len() ==> #[trigger] after.u8[idx] == buffers.u8[idx]
                    + repeated(0u8, occurrences(definition.u8, idx, definition.u8.len()))
            &&& forall|idx: int|
                0 <= idx < buffers.u16.len() ==> #[trigger] after.u16[idx]
                    == buffers.u16[idx] + repeated(
                    0u16,
                    occurrences(definition.u16, idx, definition.u16.len()),
                )
            &&& forall|idx: int|
                0 <= idx < buffers.u32.len() ==> #[trigger] after.u32[idx]
                    == buffers.u32[idx] + repeated(
                    0u32,
                    occurrences(definition.u32, idx, definition.u32.len()),
                )
            &&& forall|idx: int|
                0 <= idx < buffers.u64.len() ==> #[trigger] after.u64[idx]
                    == buffers.u64[idx] + repeated(
                    0u64,
                    occurrences(definition.u64, idx, definition.u64.len()),
                )
            &&& forall|idx: int|
                0 <= idx < buffers.u32_offsets.len() ==> (#[trigger] after.u32_offsets[idx]).offsets
                    == buffers.u32_offsets[idx].offsets + repeated(
                    buffers.u32_offsets[idx].current_items,
                    occurrences(definition.u32_offsets, idx, definition.u32_offsets.len()),
                )
            &&& forall|idx: int|
                0 <= idx < buffers.u64_offsets.len() ==> (#[trigger] after.u64_offsets[idx]).offsets
                    == buffers.u64_offsets[idx].offsets + repeated(
                    buffers.u64_offsets[idx].current_items,
                    occurrences(definition.u64_offsets, idx, definition.u64_offsets.len()),
                )
            &&& buffers.offsets_are_monotone() ==> after.offsets_are_monotone()
        }),
{
    lemma_counted_all_slots(buffers.u0, definition.u0, definition.u0.len());
    lemma_appended_all_slots(buffers.u1, definition.u1, false, definition.u1.len());
    lemma_appended_all_slots(buffers.u8, definition.u8, 0u8, definition.u8.len());
    lemma_appended_all_slots(buffers.u16, definition.u16, 0u16, definition.u16.len());
    lemma_appended_all_slots(buffers.u32, definition.u32, 0u32, definition.u32.len());
    lemma_appended_all_slots(buffers.u64, definition.u64, 0u64, definition.u64.len());
    lemma_rows_ended_slots(
        buffers.u32_offsets,
        definition.u32_offsets,
        definition.u32_offsets.len(),
    );
    lemma_rows_ended_slots(
        buffers.u64_offsets,
        definition.u64_offsets,
        definition.u64_offsets.len(),
    );
    let after = buffers.with_null(definition).unwrap();
    if buffers.offsets_are_monotone() {
        assert forall|i: int| 0 <= i < after.u32_offsets.len() implies (
        #[trigger] after.u32_offsets[i]).is_monotone() by {
            assert(buffers.u32_offsets[i].is_monotone());
        }
        assert forall|i: int| 0 <= i < after.u64_offsets.len() implies (
        #[trigger] after.u64_offsets[i]).is_monotone() by {
            assert(buffers.u64_offsets[i].is_monotone());
        }
    }
}

/// Empty buffers have monotone offsets.
pub proof fn lemma_empty_is_monotone(counts: BufferCounts)
    ensures
        BuffersView::empty(counts).offsets_are_monotone(),
{
}

/// A step of a list keeps offsets monotone.
pub proof fn lemma_list_step_is_monotone(buffers: BuffersView, wide: bool, offsets: usize, ended: bool)
    requires
        buffers.offsets_are_monotone(),
        buffers.with_list_step(wide, offsets, ended) is Some,
    ensures
        buffers.with_list_step(wide, offsets, ended).unwrap().offsets_are_monotone(),
{
    let after = buffers.with_list_step(wide, offsets, ended).unwrap();
    if wide {
        assert(buffers.u64_offsets[offsets as int].is_monotone());
        lemma_with_row_monotone(buffers.u64_offsets[offsets as int]);
        assert forall|i: int| 0 <= i < after.u64_offsets.len() implies (
        #[trigger] after.u64_offsets[i]).is_monotone() by {
            assert(buffers.u64_offsets[i].is_monotone());
        }
    } else {
        assert(buffers.u32_offsets[offsets as int].is_monotone());
        lemma_with_row_monotone(buffers.u32_offsets[offsets as int]);
        assert forall|i: int| 0 <= i < after.u32_offsets.len() implies (
        #[trigger] after.u32_offsets[i]).is_monotone() by {
            assert(buffers.u32_offsets[i].is_monotone());
        }
    }
}

/// A string is one more row: its bytes are appended to the data buffer,
/// the offsets get one more offset, which is the number of bytes counted,
/// and that number grows by the number of the bytes. Monotone offsets
/// stay monotone.
pub proof fn lemma_string_is_one_row(
    buffers: BuffersView,
    wide: bool,
    buffer: usize,
    offsets: usize,
    text: Seq<char>,
)
    requires
        buffers.with_string(wide, buffer, offsets, text) is Some,
    ensures
        ({
            let after = buffers.with_string(wide, buffer, offsets, text).unwrap();
            let bytes = vstd::utf8::encode_utf8(text);
            let before_offsets = if wide {
                buffers.u64_offsets[offsets as int]
            } else {
                buffers.u32_offsets[offsets as int]
            };
            let after_offsets = if wide {
                after.u64_offsets[offsets as int]
            } else {
                after.u32_offsets[offsets as int]
            };
            &&& after.u8[buffer as int] == buffers.u8[buffer as int] + bytes
            &&& after_offsets.offsets.len() == before_offsets.offsets.len() + 1
            &&& after_offsets.offsets.last() == after_offsets.current_items
            &&& after_offsets.current_items == before_offsets.current_items + bytes.len()
            &&& after.seen == buffers.seen
            &&& after.dictionaries == buffers.dictionaries
            &&& buffers.offsets_are_monotone() ==> after.offsets_are_monotone()
        }),
{
    let after = buffers.with_string(wide, buffer, offsets, text).unwrap();
    if buffers.offsets_are_monotone() {
        if wide {
            assert(buffers.u64_offsets[offsets as int].is_monotone());
            let counted = items_counted(
                buffers.u64_offsets,
                offsets,
                vstd::utf8::encode_utf8(text).len() as int,
                crate::interpreter::buffers::MAX_OFFSET_64,
            ).unwrap();
            lemma_with_row_monotone(counted[offsets as int]);
            assert forall|i: int| 0 <= i < after.u64_offsets.len() implies (
            #[trigger] after.u64_offsets[i]).is_monotone() by {
                assert(buffers.u64_offsets[i].is_monotone());
            }
        } else {
            assert(buffers.u32_offsets[offsets as int].is_monotone());
            let counted = items_counted(
                buffers.u32_offsets,
                offsets,
                vstd::utf8::encode_utf8(text).len() as int,
                crate::interpreter::buffers::MAX_OFFSET_32,
            ).unwrap();
            lemma_with_row_monotone(counted[offsets as int]);
            assert forall|i: int| 0 <= i < after.u32_offsets.len() implies (
            #[trigger] after.u32_offsets[i]).is_monotone() by {
                assert(buffers.u32_offsets[i].is_monotone());
            }
        }
    }
}

/// A value of a dictionary keeps offsets monotone.
pub proof fn lemma_dictionary_value_is_monotone(
    buffers: BuffersView,
    values: DictionaryValue,
    indices: DictionaryIndex,
    dictionary: usize,
    text: Seq<char>,
)
    requires
        buffers.offsets_are_monotone(),
        buffers.with_dictionary_value(values, indices, dictionary, text) is Some,
    ensures
        buffers.with_dictionary_value(
            values,
            indices,
            dictionary,
            text,
        ).unwrap().offsets_are_monotone(),
{
    let known = buffers.dictionaries[dictionary as int];
    if crate::text::first_index_of(known, text) is None {
        let added = BuffersView {
            dictionaries: buffers.dictionaries.update(dictionary as int, known.push(text)),
            ..buffers
        };
        assert(added.offsets_are_monotone());
        match values {
            DictionaryValue::Utf8 { buffer, offsets } => {
                lemma_string_is_one_row(added, false, buffer, offsets, text);
            },
            DictionaryValue::LargeUtf8 { buffer, offsets } => {
                lemma_string_is_one_row(added, true, buffer, offsets, text);
            },
        }
    }
}

/// A field that was not seen gets one absent value, as its null
/// definition says; a field that was seen leaves the buffers as they are.
/// Either way the sets of seen fields stay as they are and monotone
/// offsets stay monotone.
pub proof fn lemma_field_closed(
    buffers: BuffersView,
    nulls: Seq<NullDefinitionView>,
    seen: BitSet,
    definition: FieldDefinition,
)
    requires
        buffers.with_field_closed(nulls, seen, definition) is Some,
    ensures
        seen.has(definition.index) ==> buffers.with_field_closed(nulls, seen, definition) == Some(
            buffers,
        ),
        !seen.has(definition.index) ==> definition.null_definition is Some
            && definition.null_definition.unwrap() < nulls.len() && buffers.with_field_closed(
            nulls,
            seen,
            definition,
        ) == buffers.with_null(nulls[definition.null_definition.unwrap() as int]),
        buffers.with_field_closed(nulls, seen, definition).unwrap().seen == buffers.seen,
        buffers.offsets_are_monotone() ==> buffers.with_field_closed(
            nulls,
            seen,
            definition,
        ).unwrap().offsets_are_monotone(),
{
    if !seen.has(definition.index) {
        lemma_with_null_slots(buffers, nulls[definition.null_definition.unwrap() as int]);
    }
}

/// Closing the fields of a struct leaves the sets of seen fields as they
/// are and keeps offsets monotone.
pub proof fn lemma_fields_closed(
    buffers: BuffersView,
    nulls: Seq<NullDefinitionView>,
    seen: BitSet,
    fields: Seq<(Seq<char>, FieldDefinition)>,
    n: nat,
)
    requires
        n <= fields.len(),
        buffers.with_fields_closed(nulls, seen, fields, n) is Some,
    ensures
        buffers.with_fields_closed(nulls, seen, fields, n).unwrap().seen == buffers.seen,
        buffers.offsets_are_monotone() ==> buffers.with_fields_closed(
            nulls,
            seen,
            fields,
            n,
        ).unwrap().offsets_are_monotone(),
    decreases n,
{
    reveal(BuffersView::with_fields_closed);
    if n > 0 {
        lemma_fields_closed(buffers, nulls, seen, fields, (n - 1) as nat);
        let before = buffers.with_fields_closed(nulls, seen, fields, (n - 1) as nat).unwrap();
        lemma_field_closed(before, nulls, seen, fields[n - 1].1);
    }
}

/// Whatever the instruction and the event, a step keeps offsets monotone.
pub proof fn lemma_step_is_monotone(structure: StructureView, machine: MachineView, token: Token)
    requires
        machine.buffers.offsets_are_monotone(),
        step(structure, machine, token) is Some,
    ensures
        step(structure, machine, token).unwrap().machine.buffers.offsets_are_monotone(),
{
    reveal(step);
    let buffers = machine.buffers;
    if machine.skip is None && machine.pc < structure.program.len() {
        match structure.program[machine.pc as int].code {
            BytecodeView::ListItem { offsets, .. } | BytecodeView::ListEnd { offsets, .. } => {
                lemma_list_step_is_monotone(buffers, false, offsets, token is EndSequence);
            },
            BytecodeView::LargeListItem { offsets, .. }
            | BytecodeView::LargeListEnd { offsets, .. } => {
                lemma_list_step_is_monotone(buffers, true, offsets, token is EndSequence);
            },
            BytecodeView::MapItem { offsets, .. } | BytecodeView::MapEnd { offsets, .. } => {
                lemma_list_step_is_monotone(buffers, false, offsets, token is EndStruct);
            },
            BytecodeView::StructField { struct_idx, seen, .. } => {
                if token is EndStruct && token != Token::Str(
                    structure.program[machine.pc as int].code->StructField_field_name,
                ) {
                    let fields = structure.structs[struct_idx as int].fields;
                    lemma_fields_closed(
                        buffers,
                        structure.nulls,
                        buffers.seen[seen as int],
                        fields,
                        fields.len(),
                    );
                }
            },
            BytecodeView::StructItem { struct_idx, seen }
            | BytecodeView::StructEnd { struct_idx, seen } => {
                if token is EndStruct {
                    let fields = structure.structs[struct_idx as int].fields;
                    lemma_fields_closed(
                        buffers,
                        structure.nulls,
                        buffers.seen[seen as int],
                        fields,
                        fields.len(),
                    );
                }
            },
            BytecodeView::OptionMarker { null_definition, .. } => {
                if token is Null {
                    lemma_with_null_slots(buffers, structure.nulls[null_definition as int]);
                }
            },
            BytecodeView::PushUtf8 { buffer, offsets } => {
                lemma_string_is_one_row(buffers, false, buffer, offsets, token.text().unwrap());
            },
            BytecodeView::PushLargeUtf8 { buffer, offsets } => {
                lemma_string_is_one_row(buffers, true, buffer, offsets, token.text().unwrap());
            },
            BytecodeView::PushDictionary { values, indices, dictionary } => {
                lemma_dictionary_value_is_monotone(
                    buffers,
                    values,
                    indices,
                    dictionary,
                    token.text().unwrap(),
                );
            },
            _ => {},
        }
    }
}

/// Accepting an event keeps offsets monotone.
pub proof fn lemma_accepted_is_monotone(
    structure: StructureView,
    machine: MachineView,
    token: Token,
    fuel: nat,
)
    requires
        machine.buffers.offsets_are_monotone(),
        accepted(structure, machine, token, fuel) is Some,
    ensures
        accepted(structure, machine, token, fuel).unwrap().buffers.offsets_are_monotone(),
    decreases fuel,
{
    reveal(accepted);
    if fuel > 0 {
        lemma_step_is_monotone(structure, machine, token);
        let outcome = step(structure, machine, token).unwrap();
        if !outcome.consumed {
            lemma_accepted_is_monotone(structure, outcome.machine, token, (fuel - 1) as nat);
        }
    }
}

/// Every offsets buffer that a program produces from empty buffers starts
/// at 0 and never decreases, whatever the program and the events.
pub proof fn lemma_offsets_are_monotone(
    structure: StructureView,
    machine: MachineView,
    tokens: Seq<Token>,
    n: nat,
)
    requires
        machine.buffers.offsets_are_monotone(),
        n <= tokens.len(),
        accepted_all(structure, machine, tokens, n) is Some,
    ensures
        accepted_all(structure, machine, tokens, n).unwrap().buffers.offsets_are_monotone(),
    decreases n,
{
    reveal(accepted_all);
    if n > 0 {
        lemma_offsets_are_monotone(structure, machine, tokens, (n - 1) as nat);
        let before = accepted_all(structure, machine, tokens, (n - 1) as nat).unwrap();
        lemma_accepted_is_monotone(structure, before, tokens[n - 1], fuel_of(structure));
    }
}

/// An option marker appends one bit to its validity bitmap: 0 for `Null`,
/// where its null definition lists the bitmap once, and 1 for any other
/// event. So the number of bits 1 in the bitmap is the number of values
/// that were present, and the bitmap has one bit per value.
pub proof fn lemma_option_marker_validity(structure: StructureView, machine: MachineView, token: Token)
    requires
        machine.skip is None,
        machine.pc < structure.program.len(),
        structure.program[machine.pc as int].code is OptionMarker,
        step(structure, machine, token) is Some,
        ({
            let code = structure.program[machine.pc as int].code;
            let definition = structure.nulls[code->OptionMarker_null_definition as int];
            token is Null ==> occurrences(
                definition.u1,
                code->OptionMarker_validity as int,
                definition.u1.len(),
            ) == 1
        }),
    ensures
        ({
            let code = structure.program[machine.pc as int].code;
            let validity = code->OptionMarker_validity as int;
            let before = machine.buffers.u1[validity];
            let after = step(structure, machine, token).unwrap().machine.buffers.u1[validity];
            &&& 0 <= validity < machine.buffers.u1.len()
            &&& after == before.push(!(token is Null))
            &&& count_true(after) == count_true(before) + if token is Null {
                0nat
            } else {
                1nat
            }
        }),
{
    reveal(step);
    let code = structure.program[machine.pc as int].code;
    let validity = code->OptionMarker_validity as int;
    let before = machine.buffers.u1[validity];
    if token is Null {
        let definition = structure.nulls[code->OptionMarker_null_definition as int];
        lemma_with_null_slots(machine.buffers, definition);
        assert(occurrences(definition.u1, validity, definition.u1.len()) > 0 ==> validity
            < machine.buffers.u1.len()) by {
            lemma_listed_exists(machine.buffers.u1, definition.u1, false, validity, definition.u1.len());
        }
        assert(repeated(false, 1) =~= seq![false]);
        assert(before + seq![false] =~= before.push(false));
    }
    lemma_count_true_push(before, !(token is Null));
}

/// A buffer that is listed for a value that was appended is a buffer of
/// the pool.
proof fn lemma_listed_exists<T>(pool: Seq<Seq<T>>, indices: Seq<usize>, value: T, idx: int, n: nat)
    requires
        n <= indices.len(),
        appended_all(pool, indices, value, n) is Some,
        occurrences(indices, idx, n) > 0,
    ensures
        0 <= idx < pool.len(),
    decreases n,
{
    reveal(appended_all);
    if n > 0 {
        if indices[n - 1] == idx {
            lemma_appended_all_slots(pool, indices, value, (n - 1) as nat);
        } else {
            lemma_listed_exists(pool, indices, value, idx, (n - 1) as nat);
        }
    }
}

/// A variant consumes the type code, appends it to the buffer of the type
/// codes, and hands control to the entry point of the variant with that
/// code. So the buffer holds the type codes in the order of the values.
pub proof fn lemma_variant_dispatch(structure: StructureView, machine: MachineView, token: Token)
    requires
        machine.skip is None,
        machine.pc < structure.program.len(),
        structure.program[machine.pc as int].code is Variant,
        step(structure, machine, token) is Some,
    ensures
        ({
            let code = structure.program[machine.pc as int].code;
            let type_idx = code->Variant_type_idx as int;
            let variants = structure.unions[code->Variant_union_idx as int];
            let outcome = step(structure, machine, token).unwrap();
            &&& token.index_value() is Some
            &&& 0 <= token.index_value().unwrap() < variants.len()
            &&& outcome.consumed
            &&& outcome.machine.pc == variants[token.index_value().unwrap()]
            &&& outcome.machine.buffers.u8[type_idx] == machine.buffers.u8[type_idx].push(
                token.index_value().unwrap() as u8,
            )
            &&& forall|i: int|
                0 <= i < machine.buffers.u8.len() && i != type_idx
                    ==> #[trigger] outcome.machine.buffers.u8[i] == machine.buffers.u8[i]
        }),
{
    reveal(step);
}

/// When a record starts, no field of the struct is seen; a field that is
/// marked as seen is the only one that joins the set.
pub proof fn lemma_seen_fields(buffers: BuffersView, seen: usize, field_idx: usize, other: usize)
    ensures
        buffers.with_cleared_seen(seen) matches Some(after) ==> !after.seen[seen as int].has(other),
        buffers.with_seen(seen, field_idx) matches Some(after)
            ==> after.seen[seen as int].has(other)
            == (other == field_idx || buffers.seen[seen as int].has(other)),
{
    lemma_bit_set_empty(other);
    if field_idx < 128 {
        lemma_bit_set_with(buffers.seen[seen as int], field_idx, other);
    }
}

} // verus!
