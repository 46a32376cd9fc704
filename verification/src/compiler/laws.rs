//! What holds of every program that the compiler yields.
use vstd::prelude::*;
use vstd::relations::total_ordering;
use crate::bytecode::{BytecodeView, InstructionView};
use crate::compiler::layout::{ProgramView, StructMode};
use crate::interpreter::laws::occurrences;
use crate::schema::FieldView;
use crate::structure::{
    ascending, index_leq, ArrayMappingView, BufferKind, NullDefinitionView, StructureView,
};

verus! {

/// The first `n` of the indices with one more index behind them hold an
/// index as often as the first `n` of the indices alone.
pub proof fn lemma_occurrences_prefix(indices: Seq<usize>, last: usize, idx: int, n: nat)
    requires
        n <= indices.len(),
    ensures
        occurrences(indices.push(last), idx, n) == occurrences(indices, idx, n),
    decreases n,
{
    if n > 0 {
        lemma_occurrences_prefix(indices, last, idx, (n - 1) as nat);
    }
}

/// One more index is one more occurrence of that index, and of no other.
pub proof fn lemma_occurrences_push(indices: Seq<usize>, last: usize, idx: int)
    ensures
        occurrences(indices.push(last), idx, indices.len() + 1) == occurrences(
            indices,
            idx,
            indices.len(),
        ) + if last == idx {
            1nat
        } else {
            0nat
        },
{
    lemma_occurrences_prefix(indices, last, idx, indices.len());
}

/// An index occurs among the first `n` indices as often as the multiset of
/// these indices holds it.
pub proof fn lemma_occurrences_count(indices: Seq<usize>, idx: usize, n: nat)
    requires
        n <= indices.len(),
    ensures
        occurrences(indices, idx as int, n) == indices.take(n as int).to_multiset().count(idx),
    decreases n,
{
    broadcast use vstd::seq_lib::group_to_multiset_ensures;
    broadcast use vstd::multiset::group_multiset_axioms;

    if n == 0 {
        assert(indices.take(0) =~= Seq::<usize>::empty());
        assert(indices.take(0).to_multiset().len() == 0);
    } else {
        lemma_occurrences_count(indices, idx, (n - 1) as nat);
        assert(indices.take(n as int) =~= indices.take(n - 1).push(indices[n - 1]));
    }
}

/// Sorting the indices keeps how often each index occurs.
pub proof fn lemma_ascending_occurrences(indices: Seq<usize>, idx: int)
    ensures
        ascending(indices).len() == indices.len(),
        occurrences(ascending(indices), idx, indices.len()) == occurrences(
            indices,
            idx,
            indices.len(),
        ),
{
    broadcast use vstd::seq_lib::group_to_multiset_ensures;

    let leq = index_leq();
    assert(total_ordering(leq)) by {
        assert(vstd::relations::reflexive(leq));
        assert(vstd::relations::antisymmetric(leq));
        assert(vstd::relations::transitive(leq));
        assert(vstd::relations::strongly_connected(leq));
    }
    indices.lemma_sort_by_ensures(leq);
    let sorted = ascending(indices);
    assert(sorted.len() == indices.len()) by {
        assert(sorted.to_multiset().len() == indices.to_multiset().len());
    }
    if 0 <= idx <= usize::MAX {
        lemma_occurrences_count(indices, idx as usize, indices.len());
        lemma_occurrences_count(sorted, idx as usize, sorted.len());
        assert(indices.take(indices.len() as int) =~= indices);
        assert(sorted.take(sorted.len() as int) =~= sorted);
    } else {
        lemma_occurrences_out_of_range(indices, idx, indices.len());
        lemma_occurrences_out_of_range(sorted, idx, sorted.len());
    }
}

/// A number that is no index does not occur.
pub proof fn lemma_occurrences_out_of_range(indices: Seq<usize>, idx: int, n: nat)
    requires
        idx < 0 || idx > usize::MAX,
    ensures
        occurrences(indices, idx, n) == 0,
    decreases n,
{
    if n > 0 && n <= indices.len() {
        lemma_occurrences_out_of_range(indices, idx, (n - 1) as nat);
    }
}

/// Whether the bitmaps of the columns nested in a column, that is the
/// values of nested columns of truth values and the validity of nested
/// columns, have indices of at least `lo`. The items of lists and the
/// entries of maps do not count.
pub open spec fn nested_bitmaps_at_least(mapping: ArrayMappingView, lo: int) -> bool
    decreases mapping, 0nat,
{
    match mapping {
        ArrayMappingView::Bool { buffer, .. } => buffer >= lo,
        ArrayMappingView::Struct { fields, .. } => forall|i: int|
            0 <= i < fields.len() ==> bitmaps_at_least(#[trigger] fields[i], lo),
        _ => true,
    }
}

/// Whether the bitmaps of a column, its own validity among them, have
/// indices of at least `lo`.
pub open spec fn bitmaps_at_least(mapping: ArrayMappingView, lo: int) -> bool
    decreases mapping, 1nat,
{
    &&& nested_bitmaps_at_least(mapping, lo)
    &&& mapping.validity() matches Some(validity) ==> validity >= lo
}

/// Bitmaps that have indices of at least some bound have indices of at
/// least any lower bound.
pub proof fn lemma_bitmaps_at_least_lower(mapping: ArrayMappingView, lo: int, lower: int)
    requires
        bitmaps_at_least(mapping, lo),
        lower <= lo,
    ensures
        bitmaps_at_least(mapping, lower),
    decreases mapping,
{
    match mapping {
        ArrayMappingView::Struct { fields, .. } => {
            assert forall|i: int| 0 <= i < fields.len() implies bitmaps_at_least(
                #[trigger] fields[i],
                lower,
            ) by {
                lemma_bitmaps_at_least_lower(fields[i], lo, lower);
            }
        },
        _ => {},
    }
}

/// One more buffer in a null definition is one more occurrence of its
/// index among the bitmaps if it is a bitmap, and none otherwise.
pub proof fn lemma_with_index_occurrences(
    definition: NullDefinitionView,
    kind: BufferKind,
    idx: usize,
    bitmap: int,
)
    ensures
        occurrences(
            definition.with_index(kind, idx).u1,
            bitmap,
            definition.with_index(kind, idx).u1.len(),
        ) == occurrences(definition.u1, bitmap, definition.u1.len()) + if kind is U1 && idx
            == bitmap {
            1nat
        } else {
            0nat
        },
{
    if kind is U1 {
        lemma_occurrences_push(definition.u1, idx, bitmap);
    }
}

/// The validity of a column in a null definition is one more occurrence
/// of its index among the bitmaps.
pub proof fn lemma_with_validity_occurrences(
    definition: NullDefinitionView,
    validity: Option<usize>,
    bitmap: int,
)
    ensures
        occurrences(
            definition.with_validity(validity).u1,
            bitmap,
            definition.with_validity(validity).u1.len(),
        ) == occurrences(definition.u1, bitmap, definition.u1.len()) + if validity == Some(
            bitmap as usize,
        ) && 0 <= bitmap <= usize::MAX {
            1nat
        } else {
            0nat
        },
{
    match validity {
        Some(idx) => {
            lemma_with_index_occurrences(definition, BufferKind::U1, idx, bitmap);
        },
        None => {},
    }
}

/// A bitmap below the bitmaps of the first `n` columns occurs in a null
/// definition with these columns as often as without them.
pub proof fn lemma_extended_by_all_keeps(
    definition: NullDefinitionView,
    mappings: Seq<ArrayMappingView>,
    n: nat,
    lo: int,
    bitmap: int,
)
    requires
        n <= mappings.len(),
        definition.extended_by_all(mappings, n) is Some,
        forall|i: int| 0 <= i < mappings.len() ==> bitmaps_at_least(#[trigger] mappings[i], lo),
        bitmap < lo,
    ensures
        ({
            let extended = definition.extended_by_all(mappings, n).unwrap();
            occurrences(extended.u1, bitmap, extended.u1.len()) == occurrences(
                definition.u1,
                bitmap,
                definition.u1.len(),
            )
        }),
    decreases mappings, n,
{
    if n > 0 {
        lemma_extended_by_all_keeps(definition, mappings, (n - 1) as nat, lo, bitmap);
        let before = definition.extended_by_all(mappings, (n - 1) as nat).unwrap();
        lemma_extended_by_keeps(before, mappings[n - 1], lo, bitmap);
    }
}

/// The buffers of a column, without its own validity, in a null
/// definition: the definition that lists them.
pub open spec fn extended_by_nested(definition: NullDefinitionView, mapping: ArrayMappingView) -> Option<
    NullDefinitionView,
> {
    match mapping {
        ArrayMappingView::Struct { fields, .. } => definition.extended_by_all(fields, fields.len()),
        ArrayMappingView::Union { .. } => None,
        ArrayMappingView::Null { field, buffer, .. } => definition.extended_by(
            ArrayMappingView::Null { field, buffer, validity: None },
        ),
        ArrayMappingView::Bool { field, buffer, .. } => definition.extended_by(
            ArrayMappingView::Bool { field, buffer, validity: None },
        ),
        ArrayMappingView::U8 { field, buffer, .. } => definition.extended_by(
            ArrayMappingView::U8 { field, buffer, validity: None },
        ),
        ArrayMappingView::U16 { field, buffer, .. } => definition.extended_by(
            ArrayMappingView::U16 { field, buffer, validity: None },
        ),
        ArrayMappingView::U32 { field, buffer, .. } => definition.extended_by(
            ArrayMappingView::U32 { field, buffer, validity: None },
        ),
        ArrayMappingView::U64 { field, buffer, .. } => definition.extended_by(
            ArrayMappingView::U64 { field, buffer, validity: None },
        ),
        ArrayMappingView::I8 { field, buffer, .. } => definition.extended_by(
            ArrayMappingView::I8 { field, buffer, validity: None },
        ),
        ArrayMappingView::I16 { field, buffer, .. } => definition.extended_by(
            ArrayMappingView::I16 { field, buffer, validity: None },
        ),
        ArrayMappingView::I32 { field, buffer, .. } => definition.extended_by(
            ArrayMappingView::I32 { field, buffer, validity: None },
        ),
        ArrayMappingView::I64 { field, buffer, .. } => definition.extended_by(
            ArrayMappingView::I64 { field, buffer, validity: None },
        ),
        ArrayMappingView::F16 { field, buffer, .. } => definition.extended_by(
            ArrayMappingView::F16 { field, buffer, validity: None },
        ),
        ArrayMappingView::F32 { field, buffer, .. } => definition.extended_by(
            ArrayMappingView::F32 { field, buffer, validity: None },
        ),
        ArrayMappingView::F64 { field, buffer, .. } => definition.extended_by(
            ArrayMappingView::F64 { field, buffer, validity: None },
        ),
        ArrayMappingView::Date64 { field, buffer, .. } => definition.extended_by(
            ArrayMappingView::Date64 { field, buffer, validity: None },
        ),
        ArrayMappingView::Utf8 { field, buffer, offsets, .. } => definition.extended_by(
            ArrayMappingView::Utf8 { field, buffer, offsets, validity: None },
        ),
        ArrayMappingView::LargeUtf8 { field, buffer, offsets, .. } => definition.extended_by(
            ArrayMappingView::LargeUtf8 { field, buffer, offsets, validity: None },
        ),
        ArrayMappingView::KeyValueMap { field, offsets, entries, .. } => definition.extended_by(
            ArrayMappingView::KeyValueMap { field, offsets, entries, validity: None },
        ),
        ArrayMappingView::LargeList { field, item, offsets, .. } => definition.extended_by(
            ArrayMappingView::LargeList { field, item, offsets, validity: None },
        ),
        ArrayMappingView::List { field, item, offsets, .. } => definition.extended_by(
            ArrayMappingView::List { field, item, offsets, validity: None },
        ),
        ArrayMappingView::Dictionary { field, dictionary, indices, .. } => definition.extended_by(
            ArrayMappingView::Dictionary { field, dictionary, indices, validity: None },
        ),
    }
}

/// The buffers of a column in a null definition are the buffers of the
/// column without its own validity, and then its own validity.
pub proof fn lemma_extended_by_parts(definition: NullDefinitionView, mapping: ArrayMappingView)
    ensures
        definition.extended_by(mapping) == (match extended_by_nested(definition, mapping) {
            Some(nested) => Some(nested.with_validity(mapping.validity())),
            None => None,
        }),
{
}

/// A bitmap below the nested bitmaps of a column occurs in a null
/// definition with the buffers of the column without its own validity as
/// often as without them.
pub proof fn lemma_extended_by_nested_keeps(
    definition: NullDefinitionView,
    mapping: ArrayMappingView,
    lo: int,
    bitmap: int,
)
    requires
        extended_by_nested(definition, mapping) is Some,
        nested_bitmaps_at_least(mapping, lo),
        bitmap < lo,
    ensures
        ({
            let extended = extended_by_nested(definition, mapping).unwrap();
            occurrences(extended.u1, bitmap, extended.u1.len()) == occurrences(
                definition.u1,
                bitmap,
                definition.u1.len(),
            )
        }),
    decreases mapping, 0nat,
{
    match mapping {
        ArrayMappingView::Struct { fields, .. } => {
            lemma_extended_by_all_keeps(definition, fields, fields.len(), lo, bitmap);
        },
        ArrayMappingView::Bool { buffer, .. } => {
            lemma_with_index_occurrences(definition, BufferKind::U1, buffer, bitmap);
        },
        ArrayMappingView::Null { buffer, .. } => {
            lemma_with_index_occurrences(definition, BufferKind::U0, buffer, bitmap);
        },
        _ => {},
    }
}

/// A bitmap below the bitmaps of a column occurs in a null definition
/// with the buffers of the column as often as without them.
pub proof fn lemma_extended_by_keeps(
    definition: NullDefinitionView,
    mapping: ArrayMappingView,
    lo: int,
    bitmap: int,
)
    requires
        definition.extended_by(mapping) is Some,
        bitmaps_at_least(mapping, lo),
        bitmap < lo,
    ensures
        ({
            let extended = definition.extended_by(mapping).unwrap();
            occurrences(extended.u1, bitmap, extended.u1.len()) == occurrences(
                definition.u1,
                bitmap,
                definition.u1.len(),
            )
        }),
    decreases mapping, 1nat,
{
    lemma_extended_by_parts(definition, mapping);
    lemma_extended_by_nested_keeps(definition, mapping, lo, bitmap);
    lemma_with_validity_occurrences(
        extended_by_nested(definition, mapping).unwrap(),
        mapping.validity(),
        bitmap,
    );
}

/// The validity of a column whose nested bitmaps come behind it occurs
/// once more in a null definition with the buffers of the column than
/// without them.
pub proof fn lemma_extended_by_own_validity(
    definition: NullDefinitionView,
    mapping: ArrayMappingView,
    validity: usize,
)
    requires
        definition.extended_by(mapping) is Some,
        mapping.validity() == Some(validity),
        nested_bitmaps_at_least(mapping, validity + 1),
    ensures
        ({
            let extended = definition.extended_by(mapping).unwrap();
            occurrences(extended.u1, validity as int, extended.u1.len()) == occurrences(
                definition.u1,
                validity as int,
                definition.u1.len(),
            ) + 1
        }),
{
    lemma_extended_by_parts(definition, mapping);
    lemma_extended_by_nested_keeps(definition, mapping, validity + 1, validity as int);
    lemma_with_validity_occurrences(
        extended_by_nested(definition, mapping).unwrap(),
        mapping.validity(),
        validity as int,
    );
}

/// Whether the option markers of a program from the position `from` on
/// have null definitions from `nulls_from` on, each of which lists the
/// validity bitmap of its marker exactly once.
pub open spec fn markers_are_filled(program: ProgramView, from: int, nulls_from: int) -> bool {
    forall|pc: int|
        from <= pc < program.structure.program.len() && (
        #[trigger] program.structure.program[pc]).code is OptionMarker ==> {
            let code = program.structure.program[pc].code;
            let definition = code->OptionMarker_null_definition as int;
            let validity = code->OptionMarker_validity as int;
            &&& nulls_from <= definition < program.structure.nulls.len()
            &&& occurrences(
                program.structure.nulls[definition].u1,
                validity,
                program.structure.nulls[definition].u1.len(),
            ) == 1
        }
}

/// Whether the instructions and the null definitions of a program can be
/// counted by machine integers.
pub open spec fn fits(program: ProgramView) -> bool {
    &&& program.structure.program.len() <= usize::MAX
    &&& program.structure.nulls.len() <= usize::MAX
}

/// Whether `after` comes from `before` by compiling more: what was there
/// stays, and every option marker that was added has a null definition
/// that was added, which lists the validity bitmap of the marker once.
pub open spec fn extends_well(before: ProgramView, after: ProgramView) -> bool {
    &&& before.structure.precedes(after.structure)
    &&& before.options == after.options
    &&& forall|i: int|
        0 <= i < before.structure.nulls.len() ==> #[trigger] after.structure.nulls[i]
            == before.structure.nulls[i]
    &&& before.buffers.num_u1 <= after.buffers.num_u1
    &&& markers_are_filled(
        after,
        before.structure.program.len() as int,
        before.structure.nulls.len() as int,
    )
}

/// Compiling more after compiling more is compiling more.
pub proof fn lemma_extends_well_twice(first: ProgramView, second: ProgramView, third: ProgramView)
    requires
        extends_well(first, second),
        extends_well(second, third),
    ensures
        extends_well(first, third),
{
    assert forall|pc: int|
        first.structure.program.len() <= pc < third.structure.program.len() && (
        #[trigger] third.structure.program[pc]).code is OptionMarker implies {
        let code = third.structure.program[pc].code;
        let definition = code->OptionMarker_null_definition as int;
        let validity = code->OptionMarker_validity as int;
        &&& first.structure.nulls.len() <= definition < third.structure.nulls.len()
        &&& occurrences(
            third.structure.nulls[definition].u1,
            validity,
            third.structure.nulls[definition].u1.len(),
        ) == 1
    } by {
        if pc < second.structure.program.len() {
            assert(third.structure.program[pc].code == second.structure.program[pc].code);
            assert(second.structure.program[pc].code is OptionMarker);
            let definition = second.structure.program[pc].code->OptionMarker_null_definition as int;
            assert(third.structure.nulls[definition] == second.structure.nulls[definition]);
        }
    }
    assert forall|i: int| 0 <= i < first.structure.program.len() implies (
    #[trigger] third.structure.program[i]).code == first.structure.program[i].code by {
        assert(second.structure.program[i].code == first.structure.program[i].code);
    }
    assert forall|i: int| 0 <= i < first.structure.nulls.len() implies #[trigger] third.structure.nulls[i]
        == first.structure.nulls[i] by {
        assert(second.structure.nulls[i] == first.structure.nulls[i]);
    }
}

/// An instruction that is no option marker is more that was compiled.
pub proof fn lemma_extends_well_emit(program: ProgramView, next: usize, code: BytecodeView)
    requires
        !(code is OptionMarker),
    ensures
        extends_well(program, program.emit_linked(next, code)),
        extends_well(program, program.emit(code)),
        program.emit(code).structure.program.len() == program.structure.program.len() + 1,
        program.emit_linked(next, code).structure.program.len() == program.structure.program.len()
            + 1,
        program.emit(code).structure.nulls == program.structure.nulls,
        program.emit(code).buffers == program.buffers,
{
}

/// Another successor of an instruction is more that was compiled.
pub proof fn lemma_extends_well_next(program: ProgramView, pos: int, next: usize)
    requires
        0 <= pos < program.structure.program.len(),
    ensures
        extends_well(program, program.with_next(pos, next)),
        program.with_next(pos, next).structure.program.len() == program.structure.program.len(),
{
}

/// One more buffer is more that was compiled.
pub proof fn lemma_extends_well_allocate(program: ProgramView, kind: BufferKind)
    requires
        program.allocate(kind) is Some,
    ensures
        extends_well(program, program.allocate(kind).unwrap().0),
        program.allocate(kind).unwrap().1 == program.buffers.count(kind),
        program.allocate(kind).unwrap().0.structure == program.structure,
        program.allocate(kind).unwrap().0.buffers.num_u1 == program.buffers.num_u1 + if kind
            is U1 {
            1int
        } else {
            0int
        },
{
}

/// Whether two programs differ in nothing but the tables of their lists,
/// maps, structs, unions and columns, none of which is shorter in the
/// second.
pub open spec fn differs_in_tables(before: ProgramView, after: ProgramView) -> bool {
    &&& after.options == before.options
    &&& after.buffers == before.buffers
    &&& after.structure.program == before.structure.program
    &&& after.structure.nulls == before.structure.nulls
    &&& before.structure.lists.len() <= after.structure.lists.len()
    &&& before.structure.large_lists.len() <= after.structure.large_lists.len()
    &&& before.structure.maps.len() <= after.structure.maps.len()
    &&& before.structure.structs.len() <= after.structure.structs.len()
    &&& before.structure.unions.len() <= after.structure.unions.len()
    &&& before.structure.array_mapping.len() <= after.structure.array_mapping.len()
}

/// Changes to the tables are more that was compiled.
pub proof fn lemma_extends_well_tables(before: ProgramView, after: ProgramView)
    requires
        differs_in_tables(before, after),
    ensures
        extends_well(before, after),
{
}

/// Whether `after` comes from `before` by compiling a column with the
/// given validity: the mapping of the column has that validity, and the
/// bitmaps nested in it were added.
pub open spec fn compiles_well(
    before: ProgramView,
    after: ProgramView,
    mapping: ArrayMappingView,
    validity: Option<usize>,
) -> bool {
    &&& extends_well(before, after)
    &&& mapping.validity() == validity
    &&& nested_bitmaps_at_least(mapping, before.buffers.num_u1 as int)
}

/// Nested bitmaps that have indices of at least some bound have indices of
/// at least any lower bound.
pub proof fn lemma_nested_bitmaps_at_least_lower(mapping: ArrayMappingView, lo: int, lower: int)
    requires
        nested_bitmaps_at_least(mapping, lo),
        lower <= lo,
    ensures
        nested_bitmaps_at_least(mapping, lower),
{
    match mapping {
        ArrayMappingView::Struct { fields, .. } => {
            assert forall|i: int| 0 <= i < fields.len() implies bitmaps_at_least(
                #[trigger] fields[i],
                lower,
            ) by {
                lemma_bitmaps_at_least_lower(fields[i], lo, lower);
            }
        },
        _ => {},
    }
}

/// A column of a primitive type is compiled well.
pub proof fn lemma_compile_primitive(program: ProgramView, field: FieldView, validity: Option<usize>)
    requires
        program.compile_primitive(field, validity) is Some,
    ensures
        compiles_well(
            program,
            program.compile_primitive(field, validity).unwrap().0,
            program.compile_primitive(field, validity).unwrap().1,
            validity,
        ),
{
    let kind = crate::compiler::layout::primitive_buffer_kind(field.data_type);
    let code = crate::compiler::layout::primitive_code(
        field.data_type,
        field.strategy,
        program.buffers.count(kind),
    ).unwrap();
    lemma_extends_well_allocate(program, kind);
    let allocated = program.allocate(kind).unwrap().0;
    lemma_extends_well_emit(allocated, 0, code);
    lemma_extends_well_twice(program, allocated, allocated.emit(code));
}

/// The instruction for an unknown variant is compiled well.
pub proof fn lemma_compile_panic(program: ProgramView, message: Seq<char>)
    requires
        program.compile_panic(message) is Some,
    ensures
        compiles_well(
            program,
            program.compile_panic(message).unwrap().0,
            program.compile_panic(message).unwrap().1,
            None,
        ),
{
    let code = BytecodeView::Panic { message };
    lemma_extends_well_emit(program, 0, code);
    lemma_extends_well_allocate(program.emit(code), BufferKind::U0);
    lemma_extends_well_twice(
        program,
        program.emit(code),
        program.compile_panic(message).unwrap().0,
    );
}

/// A dictionary is compiled well.
pub proof fn lemma_compile_dictionary(program: ProgramView, field: FieldView, validity: Option<usize>)
    requires
        program.compile_dictionary(field, validity) is Some,
    ensures
        compiles_well(
            program,
            program.compile_dictionary(field, validity).unwrap().0,
            program.compile_dictionary(field, validity).unwrap().1,
            validity,
        ),
{
    let key_type = field.children[0].data_type;
    let value_type = field.children[1].data_type;
    let index_kind = crate::compiler::layout::primitive_buffer_kind(key_type);
    lemma_extends_well_allocate(program, index_kind);
    let s1 = program.allocate(index_kind).unwrap().0;
    lemma_extends_well_allocate(s1, BufferKind::U8);
    let s2 = s1.allocate(BufferKind::U8).unwrap().0;
    let offsets_kind = if value_type is Utf8 {
        BufferKind::U32Offsets
    } else {
        BufferKind::U64Offsets
    };
    lemma_extends_well_allocate(s2, offsets_kind);
    let s3 = s2.allocate(offsets_kind).unwrap().0;
    lemma_extends_well_allocate(s3, BufferKind::Dictionaries);
    let s4 = s3.allocate(BufferKind::Dictionaries).unwrap().0;
    let s5 = program.compile_dictionary(field, validity).unwrap().0;
    assert(extends_well(s4, s5)) by {
        let code = s5.structure.program.last().code;
        lemma_extends_well_emit(s4, 0, code);
    }
    lemma_extends_well_twice(program, s1, s2);
    lemma_extends_well_twice(program, s2, s3);
    lemma_extends_well_twice(program, s3, s4);
    lemma_extends_well_twice(program, s4, s5);
}

/// Whether no table of `after` is shorter than that of `before`, and the
/// options are the same.
pub open spec fn grows(before: ProgramView, after: ProgramView) -> bool {
    &&& before.options == after.options
    &&& before.structure.program.len() <= after.structure.program.len()
    &&& before.structure.lists.len() <= after.structure.lists.len()
    &&& before.structure.large_lists.len() <= after.structure.large_lists.len()
    &&& before.structure.maps.len() <= after.structure.maps.len()
    &&& before.structure.structs.len() <= after.structure.structs.len()
    &&& before.structure.unions.len() <= after.structure.unions.len()
    &&& before.structure.nulls.len() <= after.structure.nulls.len()
    &&& before.structure.array_mapping.len() <= after.structure.array_mapping.len()
}

/// Whether `after` comes from `before` by compiling a column with the
/// given validity, as far as its tables can be counted.
pub open spec fn compiles_column(
    before: ProgramView,
    after: ProgramView,
    mapping: ArrayMappingView,
    validity: Option<usize>,
) -> bool {
    &&& grows(before, after)
    &&& fits(after) ==> compiles_well(before, after, mapping, validity)
}

/// A field with its null check is compiled well: the option marker that
/// is put in front of a nullable field gets a null definition that lists
/// the validity bitmap of the field exactly once.
pub proof fn lemma_compile_field(program: ProgramView, field: FieldView)
    requires
        program.compile_field(field) is Some,
    ensures
        grows(program, program.compile_field(field).unwrap().0),
        fits(program.compile_field(field).unwrap().0) ==> extends_well(
            program,
            program.compile_field(field).unwrap().0,
        ) && bitmaps_at_least(
            program.compile_field(field).unwrap().1,
            program.buffers.num_u1 as int,
        ),
    decreases field, 5nat, 0nat,
{
    let compiled = program.compile_field(field).unwrap().0;
    let mapping = program.compile_field(field).unwrap().1;
    if field.nullable && !(field.data_type is Null) {
        lemma_extends_well_allocate(program, BufferKind::U1);
        let (s1, validity) = program.allocate(BufferKind::U1).unwrap();
        let null_definition = s1.structure.nulls.len() as usize;
        let s2 = s1.with_nulls(s1.structure.nulls.push(NullDefinitionView::empty()));
        let self_pos = s2.pc();
        let s3 = s2.emit(
            BytecodeView::OptionMarker { self_pos, if_none: 0, validity, null_definition },
        );
        let (s4, inner) = s3.compile_field_inner(field, Some(validity)).unwrap();
        lemma_compile_field_inner(s3, field, Some(validity));
        assert(0 <= (self_pos as int) < s4.structure.program.len());
        assert(0 <= (null_definition as int) < s4.structure.nulls.len());
        assert(compiled.structure.program.len() == s4.structure.program.len());
        assert(compiled.structure.nulls.len() == s4.structure.nulls.len());
        if fits(compiled) {
            assert(fits(s4));
            assert(self_pos == program.structure.program.len());
            assert(null_definition == program.structure.nulls.len());
            assert(s4.structure.nulls[null_definition as int] == NullDefinitionView::empty()) by {
                assert(s3.structure.nulls[null_definition as int]
                    == NullDefinitionView::empty());
            }
            let extended = NullDefinitionView::empty().extended_by(inner).unwrap();
            lemma_extended_by_own_validity(NullDefinitionView::empty(), inner, validity);
            lemma_ascending_occurrences(extended.u1, validity as int);
            assert(compiled.structure.nulls[null_definition as int] == extended.sorted());
            assert forall|pc: int|
                program.structure.program.len() <= pc < compiled.structure.program.len() && (
                #[trigger] compiled.structure.program[pc]).code is OptionMarker implies {
                let code = compiled.structure.program[pc].code;
                let definition = code->OptionMarker_null_definition as int;
                let bitmap = code->OptionMarker_validity as int;
                &&& program.structure.nulls.len() <= definition
                    < compiled.structure.nulls.len()
                &&& occurrences(
                    compiled.structure.nulls[definition].u1,
                    bitmap,
                    compiled.structure.nulls[definition].u1.len(),
                ) == 1
            } by {
                if pc == self_pos {
                    assert(s4.structure.program[pc].code == s3.structure.program[pc].code);
                } else {
                    assert(compiled.structure.program[pc] == s4.structure.program[pc]);
                    assert(s4.structure.program[pc].code is OptionMarker);
                    let definition =
                        s4.structure.program[pc].code->OptionMarker_null_definition as int;
                    assert(definition >= s3.structure.nulls.len());
                    assert(compiled.structure.nulls[definition]
                        == s4.structure.nulls[definition]);
                }
            }
            assert forall|i: int| 0 <= i < program.structure.program.len() implies (
            #[trigger] compiled.structure.program[i]).code
                == program.structure.program[i].code by {
                assert(s4.structure.program[i].code == s3.structure.program[i].code);
            }
            assert forall|i: int|
                0 <= i < program.structure.nulls.len() implies #[trigger] compiled.structure.nulls[i]
                == program.structure.nulls[i] by {
                assert(s4.structure.nulls[i] == s3.structure.nulls[i]);
            }
            lemma_nested_bitmaps_at_least_lower(
                mapping,
                s3.buffers.num_u1 as int,
                program.buffers.num_u1 as int,
            );
        }
    } else {
        lemma_compile_field_inner(program, field, None);
    }
}

/// A field without its null check is compiled well, whatever its type.
pub proof fn lemma_compile_field_inner(program: ProgramView, field: FieldView, validity: Option<usize>)
    requires
        program.compile_field_inner(field, validity) is Some,
    ensures
        compiles_column(
            program,
            program.compile_field_inner(field, validity).unwrap().0,
            program.compile_field_inner(field, validity).unwrap().1,
            validity,
        ),
    decreases field, 4nat, 0nat,
{
    match field.data_type {
        crate::schema::GenericDataType::Utf8 => {
            lemma_extends_well_allocate(program, BufferKind::U8);
            let s1 = program.allocate(BufferKind::U8).unwrap().0;
            lemma_extends_well_allocate(s1, BufferKind::U32Offsets);
            let s2 = s1.allocate(BufferKind::U32Offsets).unwrap().0;
            let s3 = program.compile_field_inner(field, validity).unwrap().0;
            lemma_extends_well_emit(s2, 0, s3.structure.program.last().code);
            lemma_extends_well_twice(program, s1, s2);
            lemma_extends_well_twice(program, s2, s3);
        },
        crate::schema::GenericDataType::LargeUtf8 => {
            lemma_extends_well_allocate(program, BufferKind::U8);
            let s1 = program.allocate(BufferKind::U8).unwrap().0;
            lemma_extends_well_allocate(s1, BufferKind::U64Offsets);
            let s2 = s1.allocate(BufferKind::U64Offsets).unwrap().0;
            let s3 = program.compile_field_inner(field, validity).unwrap().0;
            lemma_extends_well_emit(s2, 0, s3.structure.program.last().code);
            lemma_extends_well_twice(program, s1, s2);
            lemma_extends_well_twice(program, s2, s3);
        },
        crate::schema::GenericDataType::Dictionary => {
            lemma_compile_dictionary(program, field, validity);
        },
        crate::schema::GenericDataType::Struct => {
            lemma_compile_struct(program, field, validity);
        },
        crate::schema::GenericDataType::List => {
            lemma_compile_list(program, field, validity);
        },
        crate::schema::GenericDataType::LargeList => {
            lemma_compile_large_list(program, field, validity);
        },
        crate::schema::GenericDataType::Union => {
            lemma_compile_union(program, field, validity);
        },
        crate::schema::GenericDataType::KeyValueMap => {
            lemma_compile_map(program, field, validity);
        },
        _ => {
            lemma_compile_primitive(program, field, validity);
        },
    }
}

/// A list with 32-bit offsets is compiled well.
pub proof fn lemma_compile_list(program: ProgramView, field: FieldView, validity: Option<usize>)
    requires
        program.compile_list(field, validity) is Some,
    ensures
        compiles_column(
            program,
            program.compile_list(field, validity).unwrap().0,
            program.compile_list(field, validity).unwrap().1,
            validity,
        ),
    decreases field, 3nat, 0nat,
{
    let list_idx = program.structure.lists.len() as usize;
    lemma_extends_well_allocate(program, BufferKind::U32Offsets);
    let (s1, offsets) = program.allocate(BufferKind::U32Offsets).unwrap();
    let pushed = s1.with_lists(
        s1.structure.lists.push(
            crate::structure::ListDefinition { item: 0, return_pc: 0, offset: offsets },
        ),
    );
    lemma_extends_well_tables(s1, pushed);
    let started = pushed.emit(BytecodeView::ListStart);
    lemma_extends_well_emit(pushed, 0, BytecodeView::ListStart);
    let s2 = started.emit(BytecodeView::ListItem { list_idx, offsets });
    lemma_extends_well_emit(started, 0, BytecodeView::ListItem { list_idx, offsets });
    let s3 = s2.with_lists(
        s2.structure.lists.update(
            list_idx as int,
            crate::structure::ListDefinition { item: s2.pc(), ..s2.structure.lists[list_idx as int] },
        ),
    );
    assert(0 <= (list_idx as int) < s2.structure.lists.len());
    lemma_extends_well_tables(s2, s3);
    let (s4, item, _) = s3.compile_field(field.children[0]).unwrap();
    lemma_compile_field(s3, field.children[0]);
    let s5 = s4.emit(BytecodeView::ListEnd { list_idx, offsets });
    lemma_extends_well_emit(s4, 0, BytecodeView::ListEnd { list_idx, offsets });
    let s6 = program.compile_list(field, validity).unwrap().0;
    lemma_extends_well_tables(s5, s6);
    if fits(s6) {
        lemma_extends_well_twice(program, s1, pushed);
        lemma_extends_well_twice(program, pushed, started);
        lemma_extends_well_twice(program, started, s2);
        lemma_extends_well_twice(program, s2, s3);
        lemma_extends_well_twice(program, s3, s4);
        lemma_extends_well_twice(program, s4, s5);
        lemma_extends_well_twice(program, s5, s6);
    }
}

/// A list with 64-bit offsets is compiled well.
pub proof fn lemma_compile_large_list(program: ProgramView, field: FieldView, validity: Option<usize>)
    requires
        program.compile_large_list(field, validity) is Some,
    ensures
        compiles_column(
            program,
            program.compile_large_list(field, validity).unwrap().0,
            program.compile_large_list(field, validity).unwrap().1,
            validity,
        ),
    decreases field, 3nat, 0nat,
{
    let list_idx = program.structure.large_lists.len() as usize;
    lemma_extends_well_allocate(program, BufferKind::U64Offsets);
    let (s1, offsets) = program.allocate(BufferKind::U64Offsets).unwrap();
    let pushed = s1.with_large_lists(
        s1.structure.large_lists.push(
            crate::structure::ListDefinition { item: 0, return_pc: 0, offset: offsets },
        ),
    );
    lemma_extends_well_tables(s1, pushed);
    let started = pushed.emit(BytecodeView::LargeListStart);
    lemma_extends_well_emit(pushed, 0, BytecodeView::LargeListStart);
    let s2 = started.emit(BytecodeView::LargeListItem { list_idx, offsets });
    lemma_extends_well_emit(started, 0, BytecodeView::LargeListItem { list_idx, offsets });
    let s3 = s2.with_large_lists(
        s2.structure.large_lists.update(
            list_idx as int,
            crate::structure::ListDefinition {
                item: s2.pc(),
                ..s2.structure.large_lists[list_idx as int]
            },
        ),
    );
    assert(0 <= (list_idx as int) < s2.structure.large_lists.len());
    lemma_extends_well_tables(s2, s3);
    let (s4, item, _) = s3.compile_field(field.children[0]).unwrap();
    lemma_compile_field(s3, field.children[0]);
    let s5 = s4.emit(BytecodeView::LargeListEnd { list_idx, offsets });
    lemma_extends_well_emit(s4, 0, BytecodeView::LargeListEnd { list_idx, offsets });
    let s6 = program.compile_large_list(field, validity).unwrap().0;
    lemma_extends_well_tables(s5, s6);
    if fits(s6) {
        lemma_extends_well_twice(program, s1, pushed);
        lemma_extends_well_twice(program, pushed, started);
        lemma_extends_well_twice(program, started, s2);
        lemma_extends_well_twice(program, s2, s3);
        lemma_extends_well_twice(program, s3, s4);
        lemma_extends_well_twice(program, s4, s5);
        lemma_extends_well_twice(program, s5, s6);
    }
}

/// A map is compiled well.
pub proof fn lemma_compile_map(program: ProgramView, field: FieldView, validity: Option<usize>)
    requires
        program.compile_map(field, validity) is Some,
    ensures
        compiles_column(
            program,
            program.compile_map(field, validity).unwrap().0,
            program.compile_map(field, validity).unwrap().1,
            validity,
        ),
    decreases field, 3nat, 0nat,
{
    let entries = field.children[0];
    let map_idx = program.structure.maps.len() as usize;
    lemma_extends_well_allocate(program, BufferKind::U32Offsets);
    let (s1, offsets) = program.allocate(BufferKind::U32Offsets).unwrap();
    let pushed = s1.with_maps(
        s1.structure.maps.push(crate::structure::MapDefinition { key: 0, return_pc: 0 }),
    );
    lemma_extends_well_tables(s1, pushed);
    let started = pushed.emit(BytecodeView::MapStart);
    lemma_extends_well_emit(pushed, 0, BytecodeView::MapStart);
    let s2 = started.emit(BytecodeView::MapItem { map_idx, offsets });
    lemma_extends_well_emit(started, 0, BytecodeView::MapItem { map_idx, offsets });
    let s3 = s2.with_maps(
        s2.structure.maps.update(
            map_idx as int,
            crate::structure::MapDefinition { key: s2.pc(), ..s2.structure.maps[map_idx as int] },
        ),
    );
    assert(0 <= (map_idx as int) < s2.structure.maps.len());
    lemma_extends_well_tables(s2, s3);
    let (s4, keys, _) = s3.compile_field(entries.children[0]).unwrap();
    lemma_compile_field(s3, entries.children[0]);
    let (s5, values, _) = s4.compile_field(entries.children[1]).unwrap();
    lemma_compile_field(s4, entries.children[1]);
    let s6 = s5.emit(BytecodeView::MapEnd { map_idx, offsets });
    lemma_extends_well_emit(s5, 0, BytecodeView::MapEnd { map_idx, offsets });
    let s7 = program.compile_map(field, validity).unwrap().0;
    lemma_extends_well_tables(s6, s7);
    if fits(s7) {
        lemma_extends_well_twice(program, s1, pushed);
        lemma_extends_well_twice(program, pushed, started);
        lemma_extends_well_twice(program, started, s2);
        lemma_extends_well_twice(program, s2, s3);
        lemma_extends_well_twice(program, s3, s4);
        lemma_extends_well_twice(program, s4, s5);
        lemma_extends_well_twice(program, s5, s6);
        lemma_extends_well_twice(program, s6, s7);
    }
}

/// The instructions in front of the value of a struct field are more
/// that was compiled.
pub proof fn lemma_announce_struct_field(
    program: ProgramView,
    name: Seq<char>,
    mode: StructMode,
    struct_idx: usize,
    seen: usize,
    field_idx: usize,
)
    requires
        !mode.is_tuple ==> (struct_idx as int) < program.structure.structs.len(),
    ensures
        extends_well(
            program,
            program.announce_struct_field(name, mode, struct_idx, seen, field_idx),
        ),
        program.announce_struct_field(name, mode, struct_idx, seen, field_idx).buffers
            == program.buffers,
        program.announce_struct_field(
            name,
            mode,
            struct_idx,
            seen,
            field_idx,
        ).structure.structs.len() == program.structure.structs.len(),
{
    if mode.is_tuple {
        lemma_extends_well_emit(program, 0, BytecodeView::TupleStructItem);
    } else {
        let s1 = if mode.is_map {
            let s = program.emit(BytecodeView::StructItem { struct_idx, seen });
            lemma_extends_well_emit(program, 0, BytecodeView::StructItem { struct_idx, seen });
            if s.structure.structs[struct_idx as int].item == crate::bytecode::UNSET_INSTR {
                let updated = s.with_structs(
                    s.structure.structs.update(
                        struct_idx as int,
                        crate::structure::StructDefinitionView {
                            item: s.pc(),
                            ..s.structure.structs[struct_idx as int]
                        },
                    ),
                );
                lemma_extends_well_tables(s, updated);
                lemma_extends_well_twice(program, s, updated);
                updated
            } else {
                s
            }
        } else {
            program
        };
        let code = BytecodeView::StructField { struct_idx, field_name: name, field_idx, seen };
        let s2 = s1.emit(code);
        lemma_extends_well_emit(s1, 0, code);
        let s3 = program.announce_struct_field(name, mode, struct_idx, seen, field_idx);
        lemma_extends_well_tables(s2, s3);
        lemma_extends_well_twice(program, s1, s2);
        lemma_extends_well_twice(program, s2, s3);
    }
}

/// A field of a struct is compiled well.
pub proof fn lemma_compile_struct_field(
    program: ProgramView,
    field: FieldView,
    mode: StructMode,
    struct_idx: usize,
    seen: usize,
    field_idx: nat,
)
    requires
        program.compile_struct_field(field, mode, struct_idx, seen, field_idx) is Some,
        !mode.is_tuple ==> (struct_idx as int) < program.structure.structs.len(),
    ensures
        ({
            let compiled = program.compile_struct_field(
                field,
                mode,
                struct_idx,
                seen,
                field_idx,
            ).unwrap();
            &&& grows(program, compiled.0)
            &&& fits(compiled.0) ==> extends_well(program, compiled.0) && bitmaps_at_least(
                compiled.1,
                program.buffers.num_u1 as int,
            )
        }),
    decreases field, 1nat, 0nat,
{
    let child = field.children[field_idx as int];
    let s1 = program.announce_struct_field(
        child.name,
        mode,
        struct_idx,
        seen,
        field_idx as usize,
    );
    lemma_announce_struct_field(program, child.name, mode, struct_idx, seen, field_idx as usize);
    let (s2, mapping, null_definition) = s1.compile_field(child).unwrap();
    lemma_compile_field(s1, child);
    let compiled = program.compile_struct_field(field, mode, struct_idx, seen, field_idx).unwrap().0;
    if !mode.is_tuple {
        lemma_extends_well_tables(s2, compiled);
    }
    if fits(compiled) {
        lemma_extends_well_twice(program, s1, s2);
        lemma_extends_well_twice(program, s2, compiled);
    }
}

/// The fields of a struct are compiled well.
pub proof fn lemma_compile_struct_fields(
    program: ProgramView,
    field: FieldView,
    mode: StructMode,
    struct_idx: usize,
    seen: usize,
    n: nat,
)
    requires
        program.compile_struct_fields(field, mode, struct_idx, seen, n) is Some,
        n <= field.children.len(),
        !mode.is_tuple ==> (struct_idx as int) < program.structure.structs.len(),
    ensures
        ({
            let compiled = program.compile_struct_fields(field, mode, struct_idx, seen, n).unwrap();
            &&& grows(program, compiled.program)
            &&& compiled.mappings.len() == n
            &&& fits(compiled.program) ==> extends_well(program, compiled.program) && forall|
                i: int,
            |
                0 <= i < n ==> bitmaps_at_least(
                    #[trigger] compiled.mappings[i],
                    program.buffers.num_u1 as int,
                )
        }),
    decreases field, 2nat, n,
{
    reveal(ProgramView::compile_struct_fields);
    if n == 0 {
        lemma_extends_well_tables(program, program);
    } else {
        let before = program.compile_struct_fields(
            field,
            mode,
            struct_idx,
            seen,
            (n - 1) as nat,
        ).unwrap();
        lemma_compile_struct_fields(program, field, mode, struct_idx, seen, (n - 1) as nat);
        lemma_compile_struct_field(
            before.program,
            field,
            mode,
            struct_idx,
            seen,
            (n - 1) as nat,
        );
        let (next, mapping) = before.program.compile_struct_field(
            field,
            mode,
            struct_idx,
            seen,
            (n - 1) as nat,
        ).unwrap();
        let compiled = program.compile_struct_fields(field, mode, struct_idx, seen, n).unwrap();
        if fits(compiled.program) {
            lemma_extends_well_twice(program, before.program, next);
            assert forall|i: int| 0 <= i < n implies bitmaps_at_least(
                #[trigger] compiled.mappings[i],
                program.buffers.num_u1 as int,
            ) by {
                if i == n - 1 {
                    lemma_bitmaps_at_least_lower(
                        mapping,
                        before.program.buffers.num_u1 as int,
                        program.buffers.num_u1 as int,
                    );
                } else {
                    assert(compiled.mappings[i] == before.mappings[i]);
                }
            }
        }
    }
}

/// A struct is compiled well.
pub proof fn lemma_compile_struct(program: ProgramView, field: FieldView, validity: Option<usize>)
    requires
        program.compile_struct(field, validity) is Some,
    ensures
        compiles_column(
            program,
            program.compile_struct(field, validity).unwrap().0,
            program.compile_struct(field, validity).unwrap().1,
            validity,
        ),
    decreases field, 3nat, 0nat,
{
    reveal(ProgramView::compile_struct_fields);
    let mode = crate::compiler::layout::struct_mode(field.strategy).unwrap();
    let struct_idx = program.structure.structs.len() as usize;
    let compiled = program.compile_struct(field, validity).unwrap().0;
    if mode.is_tuple {
        let s2 = program.emit(BytecodeView::TupleStructStart);
        lemma_extends_well_emit(program, 0, BytecodeView::TupleStructStart);
        let fields = s2.compile_struct_fields(
            field,
            mode,
            struct_idx,
            usize::MAX,
            field.children.len(),
        ).unwrap();
        lemma_compile_struct_fields(s2, field, mode, struct_idx, usize::MAX, field.children.len());
        lemma_extends_well_emit(fields.program, 0, BytecodeView::TupleStructEnd);
        if fits(compiled) {
            lemma_extends_well_twice(program, s2, fields.program);
            lemma_extends_well_twice(program, fields.program, compiled);
        }
    } else {
        lemma_extends_well_allocate(program, BufferKind::Seen);
        let (s1, seen) = program.allocate(BufferKind::Seen).unwrap();
        let pushed = s1.with_structs(
            s1.structure.structs.push(
                crate::structure::StructDefinitionView {
                    item: crate::bytecode::UNSET_INSTR,
                    ..crate::structure::StructDefinitionView::empty()
                },
            ),
        );
        lemma_extends_well_tables(s1, pushed);
        let s2 = pushed.emit(BytecodeView::StructStart { seen });
        lemma_extends_well_emit(pushed, 0, BytecodeView::StructStart { seen });
        assert(0 <= (struct_idx as int) < s2.structure.structs.len());
        let fields = s2.compile_struct_fields(
            field,
            mode,
            struct_idx,
            seen,
            field.children.len(),
        ).unwrap();
        lemma_compile_struct_fields(s2, field, mode, struct_idx, seen, field.children.len());
        let ended = fields.program.emit(BytecodeView::StructEnd { struct_idx, seen });
        lemma_extends_well_emit(fields.program, 0, BytecodeView::StructEnd { struct_idx, seen });
        lemma_extends_well_tables(ended, compiled);
        if fits(compiled) {
            lemma_extends_well_twice(program, s1, pushed);
            lemma_extends_well_twice(program, pushed, s2);
            lemma_extends_well_twice(program, s2, fields.program);
            lemma_extends_well_twice(program, fields.program, ended);
            lemma_extends_well_twice(program, ended, compiled);
        }
    }
}

/// A variant of a union is compiled well.
pub proof fn lemma_compile_union_variant(
    program: ProgramView,
    field: FieldView,
    union_idx: usize,
    child_idx: nat,
)
    requires
        program.compile_union_variant(field, union_idx, child_idx) is Some,
        (union_idx as int) < program.structure.unions.len(),
    ensures
        grows(program, program.compile_union_variant(field, union_idx, child_idx).unwrap().0),
        fits(program.compile_union_variant(field, union_idx, child_idx).unwrap().0)
            ==> extends_well(
            program,
            program.compile_union_variant(field, union_idx, child_idx).unwrap().0,
        ),
    decreases field, 1nat, 0nat,
{
    let child = field.children[child_idx as int];
    let s1 = program.with_unions(
        program.structure.unions.update(
            union_idx as int,
            program.structure.unions[union_idx as int].push(program.pc()),
        ),
    );
    lemma_extends_well_tables(program, s1);
    let compiled = program.compile_union_variant(field, union_idx, child_idx).unwrap().0;
    if child.strategy == Some(crate::schema::Strategy::UnknownVariant) {
        lemma_compile_panic(
            s1,
            crate::compiler::layout::unknown_variant_message(child_idx as usize),
        );
    } else {
        lemma_compile_field(s1, child);
    }
    if fits(compiled) {
        lemma_extends_well_twice(program, s1, compiled);
    }
}

/// The variants of a union are compiled well, and the last instruction of
/// each variant is an instruction of the program.
pub proof fn lemma_compile_union_variants(
    program: ProgramView,
    field: FieldView,
    union_idx: usize,
    n: nat,
)
    requires
        program.compile_union_variants(field, union_idx, n) is Some,
        n <= field.children.len(),
        (union_idx as int) < program.structure.unions.len(),
        program.structure.program.len() > 0,
    ensures
        ({
            let compiled = program.compile_union_variants(field, union_idx, n).unwrap();
            &&& grows(program, compiled.program)
            &&& forall|k: int|
                0 <= k < compiled.last_instrs.len() ==> (#[trigger] compiled.last_instrs[k] as int)
                    < compiled.program.structure.program.len()
            &&& fits(compiled.program) ==> extends_well(program, compiled.program)
        }),
    decreases field, 2nat, n,
{
    reveal(ProgramView::compile_union_variants);
    if n == 0 {
        lemma_extends_well_tables(program, program);
    } else {
        let before = program.compile_union_variants(field, union_idx, (n - 1) as nat).unwrap();
        lemma_compile_union_variants(program, field, union_idx, (n - 1) as nat);
        lemma_compile_union_variant(before.program, field, union_idx, (n - 1) as nat);
        let compiled = program.compile_union_variants(field, union_idx, n).unwrap();
        assert forall|k: int| 0 <= k < compiled.last_instrs.len() implies (
        #[trigger] compiled.last_instrs[k] as int) < compiled.program.structure.program.len() by {
            if k < before.last_instrs.len() {
                assert(compiled.last_instrs[k] == before.last_instrs[k]);
            }
        }
        if fits(compiled.program) {
            lemma_extends_well_twice(program, before.program, compiled.program);
        }
    }
}

/// Other successors of instructions are more that was compiled.
pub proof fn lemma_rejoin(program: ProgramView, last_instrs: Seq<usize>, next: usize, n: nat)
    requires
        n <= last_instrs.len(),
        forall|k: int|
            0 <= k < last_instrs.len() ==> (#[trigger] last_instrs[k] as int)
                < program.structure.program.len(),
    ensures
        extends_well(program, program.rejoin(last_instrs, next, n)),
        program.rejoin(last_instrs, next, n).structure.program.len()
            == program.structure.program.len(),
        program.rejoin(last_instrs, next, n).buffers == program.buffers,
    decreases n,
{
    reveal(ProgramView::rejoin);
    if n == 0 {
        lemma_extends_well_tables(program, program);
    } else {
        lemma_rejoin(program, last_instrs, next, (n - 1) as nat);
        let before = program.rejoin(last_instrs, next, (n - 1) as nat);
        lemma_extends_well_next(before, last_instrs[n - 1] as int, next);
        lemma_extends_well_twice(program, before, program.rejoin(last_instrs, next, n));
    }
}

/// A union is compiled well.
pub proof fn lemma_compile_union(program: ProgramView, field: FieldView, validity: Option<usize>)
    requires
        program.compile_union(field, validity) is Some,
    ensures
        compiles_column(
            program,
            program.compile_union(field, validity).unwrap().0,
            program.compile_union(field, validity).unwrap().1,
            validity,
        ),
    decreases field, 3nat, 0nat,
{
    reveal(ProgramView::compile_union_variants);
    reveal(ProgramView::rejoin);
    let union_idx = program.structure.unions.len() as usize;
    let s1 = program.with_unions(program.structure.unions.push(Seq::empty()));
    lemma_extends_well_tables(program, s1);
    lemma_extends_well_allocate(s1, BufferKind::U8);
    let (s2, type_idx) = s1.allocate(BufferKind::U8).unwrap();
    let s3 = s2.emit(BytecodeView::Variant { union_idx, type_idx });
    lemma_extends_well_emit(s2, 0, BytecodeView::Variant { union_idx, type_idx });
    assert(0 <= (union_idx as int) < s3.structure.unions.len());
    let variants = s3.compile_union_variants(field, union_idx, field.children.len()).unwrap();
    lemma_compile_union_variants(s3, field, union_idx, field.children.len());
    let s4 = variants.program;
    let s5 = s4.rejoin(variants.last_instrs, s4.pc(), variants.last_instrs.len());
    lemma_rejoin(s4, variants.last_instrs, s4.pc(), variants.last_instrs.len());
    let s6 = s5.emit(BytecodeView::UnionEnd);
    lemma_extends_well_emit(s5, 0, BytecodeView::UnionEnd);
    if fits(s6) {
        lemma_extends_well_twice(program, s1, s2);
        lemma_extends_well_twice(program, s2, s3);
        lemma_extends_well_twice(program, s3, s4);
        lemma_extends_well_twice(program, s4, s5);
        lemma_extends_well_twice(program, s5, s6);
    }
}

/// A top-level field is compiled well.
pub proof fn lemma_compile_outer_field(program: ProgramView, fields: Seq<FieldView>, idx: nat)
    requires
        program.compile_outer_field(fields, idx) is Some,
        program.options.wrap_with_struct ==> program.structure.structs.len() > 0,
    ensures
        grows(program, program.compile_outer_field(fields, idx).unwrap()),
        fits(program.compile_outer_field(fields, idx).unwrap()) ==> extends_well(
            program,
            program.compile_outer_field(fields, idx).unwrap(),
        ),
{
    let field = fields[idx as int];
    let compiled = program.compile_outer_field(fields, idx).unwrap();
    let s1 = if program.options.wrap_with_struct {
        let code = BytecodeView::OuterRecordField { struct_idx: 0, field_name: field.name };
        let s = program.emit(code);
        lemma_extends_well_emit(program, 0, code);
        let announced = s.with_structs(
            s.structure.structs.update(
                0,
                s.structure.structs[0].insert(
                    field.name,
                    crate::structure::FieldDefinition {
                        index: idx as usize,
                        jump: s.pc(),
                        null_definition: None,
                    },
                ),
            ),
        );
        lemma_extends_well_tables(s, announced);
        lemma_extends_well_twice(program, s, announced);
        announced
    } else {
        lemma_extends_well_tables(program, program);
        program
    };
    let (s2, mapping, _) = s1.compile_field(field).unwrap();
    lemma_compile_field(s1, field);
    lemma_extends_well_tables(s2, compiled);
    if fits(compiled) {
        lemma_extends_well_twice(program, s1, s2);
        lemma_extends_well_twice(program, s2, compiled);
    }
}

/// The top-level fields are compiled well.
pub proof fn lemma_compile_outer_fields(program: ProgramView, fields: Seq<FieldView>, n: nat)
    requires
        program.compile_outer_fields(fields, n) is Some,
        n <= fields.len(),
        program.options.wrap_with_struct ==> program.structure.structs.len() > 0,
    ensures
        grows(program, program.compile_outer_fields(fields, n).unwrap()),
        fits(program.compile_outer_fields(fields, n).unwrap()) ==> extends_well(
            program,
            program.compile_outer_fields(fields, n).unwrap(),
        ),
    decreases n,
{
    reveal(ProgramView::compile_outer_fields);
    if n == 0 {
        lemma_extends_well_tables(program, program);
    } else {
        let before = program.compile_outer_fields(fields, (n - 1) as nat).unwrap();
        lemma_compile_outer_fields(program, fields, (n - 1) as nat);
        lemma_compile_outer_field(before, fields, (n - 1) as nat);
        let compiled = program.compile_outer_fields(fields, n).unwrap();
        if fits(compiled) {
            lemma_extends_well_twice(program, before, compiled);
        }
    }
}

/// The whole program for top-level fields, before linking, is compiled
/// well.
pub proof fn lemma_compile_outer_structure(program: ProgramView, fields: Seq<FieldView>)
    requires
        program.compile_outer_structure(fields) is Some,
    ensures
        grows(program, program.compile_outer_structure(fields).unwrap()),
        fits(program.compile_outer_structure(fields).unwrap()) ==> extends_well(
            program,
            program.compile_outer_structure(fields).unwrap(),
        ),
{
    reveal(ProgramView::compile_outer_fields);
    // the start of the rows and of the record
    let pushed = program.with_large_lists(
        program.structure.large_lists.push(
            crate::structure::ListDefinition { item: 0, return_pc: 0, offset: 0 },
        ),
    );
    lemma_extends_well_tables(program, pushed);
    let started = pushed.emit(BytecodeView::OuterSequenceStart);
    lemma_extends_well_emit(pushed, 0, BytecodeView::OuterSequenceStart);
    let s1 = started.emit(BytecodeView::OuterSequenceItem { list_idx: 0 });
    lemma_extends_well_emit(started, 0, BytecodeView::OuterSequenceItem { list_idx: 0 });
    let s2 = s1.with_large_lists(
        s1.structure.large_lists.update(
            0,
            crate::structure::ListDefinition { item: s1.pc(), ..s1.structure.large_lists[0] },
        ),
    );
    lemma_extends_well_tables(s1, s2);
    let opened = program.open_outer_structure();
    if program.options.wrap_with_struct {
        let with_record = s2.with_structs(
            s2.structure.structs.push(crate::structure::StructDefinitionView::empty()),
        );
        lemma_extends_well_tables(s2, with_record);
        lemma_extends_well_emit(with_record, 0, BytecodeView::OuterRecordStart);
        lemma_extends_well_twice(s2, with_record, opened);
    } else {
        lemma_extends_well_tables(s2, opened);
    }
    lemma_extends_well_twice(program, pushed, started);
    lemma_extends_well_twice(program, started, s1);
    lemma_extends_well_twice(program, s1, s2);
    lemma_extends_well_twice(program, s2, opened);
    // the fields
    let compiled = opened.compile_outer_fields(fields, fields.len()).unwrap();
    lemma_compile_outer_fields(opened, fields, fields.len());
    // the end of the record and of the rows
    let closed = compiled.close_outer_structure();
    let c1 = if compiled.options.wrap_with_struct {
        let s = compiled.emit(BytecodeView::OuterRecordEnd { struct_idx: 0 });
        lemma_extends_well_emit(compiled, 0, BytecodeView::OuterRecordEnd { struct_idx: 0 });
        let ended = s.with_structs(
            s.structure.structs.update(
                0,
                crate::structure::StructDefinitionView {
                    return_pc: s.pc(),
                    ..s.structure.structs[0]
                },
            ),
        );
        lemma_extends_well_tables(s, ended);
        lemma_extends_well_twice(compiled, s, ended);
        ended
    } else {
        lemma_extends_well_tables(compiled, compiled);
        compiled
    };
    let c2 = c1.emit(BytecodeView::OuterSequenceEnd { list_idx: 0 });
    lemma_extends_well_emit(c1, 0, BytecodeView::OuterSequenceEnd { list_idx: 0 });
    let c3 = c2.with_large_lists(
        c2.structure.large_lists.update(
            0,
            crate::structure::ListDefinition { return_pc: c2.pc(), ..c2.structure.large_lists[0] },
        ),
    );
    lemma_extends_well_tables(c2, c3);
    lemma_extends_well_emit(c3, c3.pc(), BytecodeView::ProgramEnd);
    lemma_extends_well_twice(compiled, c1, c2);
    lemma_extends_well_twice(compiled, c2, c3);
    lemma_extends_well_twice(compiled, c3, closed);
    if fits(closed) {
        lemma_extends_well_twice(program, opened, compiled);
        lemma_extends_well_twice(program, compiled, closed);
    }
}

/// In every program that the compiler yields, each option marker has a
/// null definition that lists the validity bitmap of the marker exactly
/// once. So for each value that is absent, the marker appends exactly one
/// bit 0 to the bitmap.
pub proof fn lemma_compiled_markers_are_filled(
    options: crate::compiler::layout::CompilationOptions,
    fields: Seq<FieldView>,
)
    requires
        ProgramView::empty(options).compile(fields) is Some,
        fits(ProgramView::empty(options).compile(fields).unwrap()),
    ensures
        markers_are_filled(ProgramView::empty(options).compile(fields).unwrap(), 0, 0),
{
    let start = ProgramView::empty(options);
    let compiled = start.compile_outer_structure(fields).unwrap();
    let linked = start.compile(fields).unwrap();
    lemma_compile_outer_structure(start, fields);
    let defaults = crate::linker::link_defaults(compiled.structure.program);
    crate::linker::lemma_linked_skips_union_ends(compiled.structure);
    assert(linked.structure.nulls == compiled.structure.nulls);
    assert(linked.structure.program.len() == compiled.structure.program.len());
    assert(fits(compiled));
    assert forall|pc: int|
        0 <= pc < linked.structure.program.len() && (
        #[trigger] linked.structure.program[pc]).code is OptionMarker implies {
        let code = linked.structure.program[pc].code;
        let definition = code->OptionMarker_null_definition as int;
        let validity = code->OptionMarker_validity as int;
        &&& 0 <= definition < linked.structure.nulls.len()
        &&& occurrences(
            linked.structure.nulls[definition].u1,
            validity,
            linked.structure.nulls[definition].u1.len(),
        ) == 1
    } by {
        assert(defaults[pc].code == compiled.structure.program[pc].code);
        assert(compiled.structure.program[pc].code is OptionMarker);
    }
}

/// In a program that the compiler yields, an option marker appends
/// exactly one bit to the validity bitmap of its column, whatever the
/// event: 0 for `Null` and 1 for any other event. So the bitmap has one
/// bit for each value, and as many bits 1 as there were values that were
/// present.
pub proof fn lemma_compiled_validity_agrees(
    options: crate::compiler::layout::CompilationOptions,
    fields: Seq<FieldView>,
    machine: crate::interpreter::machine::MachineView,
    token: crate::event::Token,
)
    requires
        ProgramView::empty(options).compile(fields) is Some,
        fits(ProgramView::empty(options).compile(fields).unwrap()),
        machine.skip is None,
        machine.pc < ProgramView::empty(options).compile(fields).unwrap().structure.program.len(),
        ProgramView::empty(options).compile(
            fields,
        ).unwrap().structure.program[machine.pc as int].code is OptionMarker,
        crate::interpreter::machine::step(
            ProgramView::empty(options).compile(fields).unwrap().structure,
            machine,
            token,
        ) is Some,
    ensures
        ({
            let structure = ProgramView::empty(options).compile(fields).unwrap().structure;
            let validity = structure.program[machine.pc as int].code->OptionMarker_validity as int;
            let before = machine.buffers.u1[validity];
            let after = crate::interpreter::machine::step(
                structure,
                machine,
                token,
            ).unwrap().machine.buffers.u1[validity];
            &&& after == before.push(!(token is Null))
            &&& crate::interpreter::laws::count_true(after) == crate::interpreter::laws::count_true(
                before,
            ) + if token is Null {
                0nat
            } else {
                1nat
            }
        }),
{
    let program = ProgramView::empty(options).compile(fields).unwrap();
    lemma_compiled_markers_are_filled(options, fields);
    assert(program.structure.program[machine.pc as int].code is OptionMarker);
    crate::interpreter::laws::lemma_option_marker_validity(program.structure, machine, token);
}

} // verus!
