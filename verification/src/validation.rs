//! Checks a linked program against what the interpreter relies on.
use vstd::prelude::*;
use crate::bytecode::{
    Bytecode, BytecodeView, DictionaryIndex, DictionaryValue, Instruction, InstructionView,
};
use crate::compiler::layout::{Program, ProgramView};
use crate::error::{fail, fails_with, Error, ErrorKind};
use crate::structure::{
    index_buffer, index_buffer_kind, mapping_views, ArrayMapping, ArrayMappingView, BufferCounts,
    FieldDefinition, ListDefinition, MapDefinition, NullDefinitionView, StructDefinitionView,
};

verus! {

/// The instruction just in front of the position `idx`.
pub open spec fn instruction_before(program: Seq<InstructionView>, idx: usize) -> Option<
    InstructionView,
> {
    if 0 < idx <= program.len() {
        Some(program[idx - 1])
    } else {
        None
    }
}

/// Whether the position lies in the program and a jump may land on it.
pub open spec fn is_jump_target(program: Seq<InstructionView>, pos: usize) -> bool {
    pos < program.len() && !(program[pos as int].code is UnionEnd)
}

/// Whether the instruction checks for one more item of the list `idx`.
pub open spec fn is_list_item(code: BytecodeView, large: bool, idx: usize) -> bool {
    match code {
        BytecodeView::ListItem { list_idx, .. } => !large && list_idx == idx,
        BytecodeView::LargeListItem { list_idx, .. } => large && list_idx == idx,
        BytecodeView::OuterSequenceItem { list_idx } => large && list_idx == idx,
        _ => false,
    }
}

/// Whether the instruction ends the list `idx`.
pub open spec fn is_list_end(code: BytecodeView, large: bool, idx: usize) -> bool {
    match code {
        BytecodeView::ListEnd { list_idx, .. } => !large && list_idx == idx,
        BytecodeView::LargeListEnd { list_idx, .. } => large && list_idx == idx,
        BytecodeView::OuterSequenceEnd { list_idx } => large && list_idx == idx,
        _ => false,
    }
}

/// Whether the item of the list `idx` starts just after the check for one
/// more item, and control returns just after the end of the list.
pub open spec fn list_is_valid(
    program: Seq<InstructionView>,
    list: ListDefinition,
    large: bool,
    idx: usize,
) -> bool {
    &&& instruction_before(program, list.item) is Some
    &&& is_list_item(instruction_before(program, list.item).unwrap().code, large, idx)
    &&& instruction_before(program, list.return_pc) is Some
    &&& is_list_end(instruction_before(program, list.return_pc).unwrap().code, large, idx)
}

/// Whether each of the lists is valid at its position.
pub open spec fn all_lists_are_valid(
    program: Seq<InstructionView>,
    lists: Seq<ListDefinition>,
    large: bool,
) -> bool {
    forall|i: int|
        0 <= i < lists.len() ==> list_is_valid(program, #[trigger] lists[i], large, i as usize)
}

/// Whether the key of the map `idx` starts just after the check for one
/// more entry, and control returns just after the end of the map.
pub open spec fn map_is_valid(program: Seq<InstructionView>, map: MapDefinition, idx: usize) -> bool {
    &&& instruction_before(program, map.key) matches Some(instr)
    &&& instr.code matches BytecodeView::MapItem { map_idx, .. }
    &&& map_idx == idx
    &&& instruction_before(program, map.return_pc) matches Some(end)
    &&& end.code matches BytecodeView::MapEnd { map_idx: end_idx, .. }
    &&& end_idx == idx
}

/// Whether the instruction announces the field `name` of the struct `idx`.
pub open spec fn is_field_of(code: BytecodeView, idx: usize, name: Seq<char>) -> bool {
    match code {
        BytecodeView::StructField { struct_idx, field_name, .. } => struct_idx == idx
            && field_name == name,
        BytecodeView::OuterRecordField { struct_idx, field_name } => struct_idx == idx
            && field_name == name,
        _ => false,
    }
}

/// Whether the value of the field starts just after the instruction that
/// announces it, on an instruction that a jump may land on.
pub open spec fn struct_field_is_valid(
    program: Seq<InstructionView>,
    idx: usize,
    name: Seq<char>,
    definition: FieldDefinition,
) -> bool {
    &&& instruction_before(program, definition.jump) is Some
    &&& is_field_of(instruction_before(program, definition.jump).unwrap().code, idx, name)
    &&& is_jump_target(program, definition.jump)
}

/// Whether the instruction may stand just in front of the return target
/// of a struct.
pub open spec fn is_struct_end(code: BytecodeView) -> bool {
    code is StructEnd || code is OuterRecordEnd || code is UnionEnd
}

/// Whether every field of the struct `idx` is valid, and control returns
/// just after the end of the struct or of a union around it, to an
/// instruction that a jump may land on.
pub open spec fn struct_is_valid(
    program: Seq<InstructionView>,
    definition: StructDefinitionView,
    idx: usize,
) -> bool {
    &&& forall|k: int|
        0 <= k < definition.fields.len() ==> struct_field_is_valid(
            program,
            idx,
            (#[trigger] definition.fields[k]).0,
            definition.fields[k].1,
        )
    &&& instruction_before(program, definition.return_pc) is Some
    &&& is_struct_end(instruction_before(program, definition.return_pc).unwrap().code)
    &&& is_jump_target(program, definition.return_pc)
}

/// Whether every index is below the bound.
pub open spec fn all_below(indices: Seq<usize>, bound: usize) -> bool {
    forall|k: int| 0 <= k < indices.len() ==> #[trigger] indices[k] < bound
}

/// Whether every buffer that the null definition lists exists.
pub open spec fn null_is_valid(definition: NullDefinitionView, counts: BufferCounts) -> bool {
    &&& all_below(definition.u0, counts.num_u0)
    &&& all_below(definition.u1, counts.num_u1)
    &&& all_below(definition.u8, counts.num_u8)
    &&& all_below(definition.u16, counts.num_u16)
    &&& all_below(definition.u32, counts.num_u32)
    &&& all_below(definition.u64, counts.num_u64)
    &&& all_below(definition.u32_offsets, counts.num_u32_offsets)
    &&& all_below(definition.u64_offsets, counts.num_u64_offsets)
}

/// Whether the buffers of the values of a dictionary exist.
pub open spec fn dictionary_values_in_bounds(values: DictionaryValue, counts: BufferCounts) -> bool {
    match values {
        DictionaryValue::Utf8 { buffer, offsets } => buffer < counts.num_u8 && offsets
            < counts.num_u32_offsets,
        DictionaryValue::LargeUtf8 { buffer, offsets } => buffer < counts.num_u8 && offsets
            < counts.num_u64_offsets,
    }
}

impl ArrayMappingView {
    /// The validity bitmap of the column, if it has one.
    pub open spec fn validity(self) -> Option<usize> {
        match self {
            ArrayMappingView::Null { validity, .. } => validity,
            ArrayMappingView::Bool { validity, .. } => validity,
            ArrayMappingView::U8 { validity, .. } => validity,
            ArrayMappingView::U16 { validity, .. } => validity,
            ArrayMappingView::U32 { validity, .. } => validity,
            ArrayMappingView::U64 { validity, .. } => validity,
            ArrayMappingView::I8 { validity, .. } => validity,
            ArrayMappingView::I16 { validity, .. } => validity,
            ArrayMappingView::I32 { validity, .. } => validity,
            ArrayMappingView::I64 { validity, .. } => validity,
            ArrayMappingView::F16 { validity, .. } => validity,
            ArrayMappingView::F32 { validity, .. } => validity,
            ArrayMappingView::F64 { validity, .. } => validity,
            ArrayMappingView::Utf8 { validity, .. } => validity,
            ArrayMappingView::LargeUtf8 { validity, .. } => validity,
            ArrayMappingView::Date64 { validity, .. } => validity,
            ArrayMappingView::List { validity, .. } => validity,
            ArrayMappingView::Dictionary { validity, .. } => validity,
            ArrayMappingView::LargeList { validity, .. } => validity,
            ArrayMappingView::Struct { validity, .. } => validity,
            ArrayMappingView::Union { .. } => None,
            ArrayMappingView::KeyValueMap { validity, .. } => validity,
        }
    }

    /// Whether the buffers that the column itself writes to exist.
    pub open spec fn buffers_in_bounds(self, counts: BufferCounts) -> bool {
        match self {
            ArrayMappingView::Null { buffer, .. } => buffer < counts.num_u0,
            ArrayMappingView::Bool { buffer, .. } => buffer < counts.num_u1,
            ArrayMappingView::U8 { buffer, .. } => buffer < counts.num_u8,
            ArrayMappingView::U16 { buffer, .. } => buffer < counts.num_u16,
            ArrayMappingView::U32 { buffer, .. } => buffer < counts.num_u32,
            ArrayMappingView::U64 { buffer, .. } => buffer < counts.num_u64,
            ArrayMappingView::I8 { buffer, .. } => buffer < counts.num_u8,
            ArrayMappingView::I16 { buffer, .. } => buffer < counts.num_u16,
            ArrayMappingView::I32 { buffer, .. } => buffer < counts.num_u32,
            ArrayMappingView::I64 { buffer, .. } => buffer < counts.num_u64,
            ArrayMappingView::F16 { buffer, .. } => buffer < counts.num_u16,
            ArrayMappingView::F32 { buffer, .. } => buffer < counts.num_u32,
            ArrayMappingView::F64 { buffer, .. } => buffer < counts.num_u64,
            ArrayMappingView::Utf8 { buffer, offsets, .. } => buffer < counts.num_u8 && offsets
                < counts.num_u32_offsets,
            ArrayMappingView::LargeUtf8 { buffer, offsets, .. } => buffer < counts.num_u8
                && offsets < counts.num_u64_offsets,
            ArrayMappingView::Date64 { buffer, .. } => buffer < counts.num_u64,
            ArrayMappingView::List { offsets, .. } => offsets < counts.num_u32_offsets,
            ArrayMappingView::Dictionary { dictionary, indices, .. } => index_buffer(indices)
                < counts.count(index_buffer_kind(indices)) && dictionary_values_in_bounds(
                dictionary,
                counts,
            ),
            ArrayMappingView::LargeList { offsets, .. } => offsets < counts.num_u64_offsets,
            ArrayMappingView::Struct { .. } => true,
            ArrayMappingView::Union { types, .. } => types < counts.num_u8,
            ArrayMappingView::KeyValueMap { offsets, .. } => offsets < counts.num_u32_offsets,
        }
    }

    /// Whether the column has a validity bitmap exactly if its field is
    /// nullable. Columns of type `Null` are exempt: they never have a
    /// validity bitmap. Neither has a union, so the field of a union must
    /// not be nullable.
    pub open spec fn nullability_matches(self) -> bool {
        self is Null || (self.validity() is Some) == self.field().nullable
    }

    /// What holds of the column without looking at the columns nested in
    /// it: its buffers and its validity bitmap exist, and its nullability
    /// matches.
    pub open spec fn is_valid_alone(self, counts: BufferCounts) -> bool {
        &&& self.buffers_in_bounds(counts)
        &&& self.nullability_matches()
        &&& self.validity() matches Some(validity) ==> validity < counts.num_u1
    }

    /// Whether the column and every column nested in it is valid.
    pub open spec fn is_valid(self, counts: BufferCounts) -> bool
        decreases self,
    {
        &&& self.is_valid_alone(counts)
        &&& match self {
            ArrayMappingView::List { item, .. } => item.is_valid(counts),
            ArrayMappingView::LargeList { item, .. } => item.is_valid(counts),
            ArrayMappingView::KeyValueMap { entries, .. } => entries.is_valid(counts),
            ArrayMappingView::Struct { fields, .. } => forall|k: int|
                0 <= k < fields.len() ==> (#[trigger] fields[k]).is_valid(counts),
            ArrayMappingView::Union { fields, .. } => forall|k: int|
                0 <= k < fields.len() ==> (#[trigger] fields[k]).is_valid(counts),
            _ => true,
        }
    }
}

impl ProgramView {
    /// Whether every list of the given width is valid.
    pub open spec fn lists_are_valid(self, large: bool) -> bool {
        all_lists_are_valid(
            self.structure.program,
            if large {
                self.structure.large_lists
            } else {
                self.structure.lists
            },
            large,
        )
    }

    /// Whether every map is valid.
    pub open spec fn maps_are_valid(self) -> bool {
        forall|i: int|
            0 <= i < self.structure.maps.len() ==> map_is_valid(
                self.structure.program,
                #[trigger] self.structure.maps[i],
                i as usize,
            )
    }

    /// Whether every struct is valid.
    pub open spec fn structs_are_valid(self) -> bool {
        forall|i: int|
            0 <= i < self.structure.structs.len() ==> struct_is_valid(
                self.structure.program,
                #[trigger] self.structure.structs[i],
                i as usize,
            )
    }

    /// Whether every null definition is valid.
    pub open spec fn nulls_are_valid(self) -> bool {
        forall|i: int|
            0 <= i < self.structure.nulls.len() ==> null_is_valid(
                #[trigger] self.structure.nulls[i],
                self.buffers,
            )
    }

    /// Whether the mapping of every column is valid.
    pub open spec fn array_mappings_are_valid(self) -> bool {
        forall|i: int|
            0 <= i < self.structure.array_mapping.len() ==> (
            #[trigger] self.structure.array_mapping[i]).is_valid(self.buffers)
    }

    /// Whether every successor is an instruction that a jump may land on,
    /// and the last instruction is its own successor.
    pub open spec fn next_instructions_are_valid(self) -> bool {
        let program = self.structure.program;
        &&& forall|i: int|
            0 <= i < program.len() ==> is_jump_target(program, (#[trigger] program[i]).next)
        &&& program.len() > 0
        &&& program.last().next == program.len() - 1
    }

    /// Whether the program is what the interpreter relies on.
    pub open spec fn is_valid(self) -> bool {
        &&& self.lists_are_valid(false)
        &&& self.lists_are_valid(true)
        &&& self.maps_are_valid()
        &&& self.structs_are_valid()
        &&& self.nulls_are_valid()
        &&& self.array_mappings_are_valid()
        &&& self.next_instructions_are_valid()
    }
}

/// Whether every index is below the bound.
fn check_all_below(indices: &Vec<usize>, bound: usize) -> (res: bool)
    ensures
        res == all_below(indices@, bound),
{
    let n: usize = indices.len();
    let mut k: usize = 0;
    while k < n
        invariant
            n == indices@.len(),
            k <= n,
            forall|j: int| 0 <= j < k ==> #[trigger] indices@[j] < bound,
        decreases n - k,
    {
        if indices[k] >= bound {
            return false;
        }
        k = k + 1;
    }
    true
}

/// The validity bitmap of the column, if it has one.
fn validity_of(mapping: &ArrayMapping) -> (res: Option<usize>)
    ensures
        res == mapping@.validity(),
{
    match mapping {
        ArrayMapping::Null { validity, .. } => *validity,
        ArrayMapping::Bool { validity, .. } => *validity,
        ArrayMapping::U8 { validity, .. } => *validity,
        ArrayMapping::U16 { validity, .. } => *validity,
        ArrayMapping::U32 { validity, .. } => *validity,
        ArrayMapping::U64 { validity, .. } => *validity,
        ArrayMapping::I8 { validity, .. } => *validity,
        ArrayMapping::I16 { validity, .. } => *validity,
        ArrayMapping::I32 { validity, .. } => *validity,
        ArrayMapping::I64 { validity, .. } => *validity,
        ArrayMapping::F16 { validity, .. } => *validity,
        ArrayMapping::F32 { validity, .. } => *validity,
        ArrayMapping::F64 { validity, .. } => *validity,
        ArrayMapping::Utf8 { validity, .. } => *validity,
        ArrayMapping::LargeUtf8 { validity, .. } => *validity,
        ArrayMapping::Date64 { validity, .. } => *validity,
        ArrayMapping::List { validity, .. } => *validity,
        ArrayMapping::Dictionary { validity, .. } => *validity,
        ArrayMapping::LargeList { validity, .. } => *validity,
        ArrayMapping::Struct { validity, .. } => *validity,
        ArrayMapping::Union { .. } => None,
        ArrayMapping::KeyValueMap { validity, .. } => *validity,
    }
}

/// Whether the buffers that the column itself writes to exist.
fn buffers_in_bounds(mapping: &ArrayMapping, counts: &BufferCounts) -> (res: bool)
    ensures
        res == mapping@.buffers_in_bounds(*counts),
{
    match mapping {
        ArrayMapping::Null { buffer, .. } => *buffer < counts.num_u0,
        ArrayMapping::Bool { buffer, .. } => *buffer < counts.num_u1,
        ArrayMapping::U8 { buffer, .. } => *buffer < counts.num_u8,
        ArrayMapping::U16 { buffer, .. } => *buffer < counts.num_u16,
        ArrayMapping::U32 { buffer, .. } => *buffer < counts.num_u32,
        ArrayMapping::U64 { buffer, .. } => *buffer < counts.num_u64,
        ArrayMapping::I8 { buffer, .. } => *buffer < counts.num_u8,
        ArrayMapping::I16 { buffer, .. } => *buffer < counts.num_u16,
        ArrayMapping::I32 { buffer, .. } => *buffer < counts.num_u32,
        ArrayMapping::I64 { buffer, .. } => *buffer < counts.num_u64,
        ArrayMapping::F16 { buffer, .. } => *buffer < counts.num_u16,
        ArrayMapping::F32 { buffer, .. } => *buffer < counts.num_u32,
        ArrayMapping::F64 { buffer, .. } => *buffer < counts.num_u64,
        ArrayMapping::Utf8 { buffer, offsets, .. } => *buffer < counts.num_u8 && *offsets
            < counts.num_u32_offsets,
        ArrayMapping::LargeUtf8 { buffer, offsets, .. } => *buffer < counts.num_u8 && *offsets
            < counts.num_u64_offsets,
        ArrayMapping::Date64 { buffer, .. } => *buffer < counts.num_u64,
        ArrayMapping::List { offsets, .. } => *offsets < counts.num_u32_offsets,
        ArrayMapping::Dictionary { dictionary, indices, .. } => {
            let index_ok = match indices {
                DictionaryIndex::U8(idx) | DictionaryIndex::I8(idx) => *idx < counts.num_u8,
                DictionaryIndex::U16(idx) | DictionaryIndex::I16(idx) => *idx < counts.num_u16,
                DictionaryIndex::U32(idx) | DictionaryIndex::I32(idx) => *idx < counts.num_u32,
                DictionaryIndex::U64(idx) | DictionaryIndex::I64(idx) => *idx < counts.num_u64,
            };
            let values_ok = match dictionary {
                DictionaryValue::Utf8 { buffer, offsets } => *buffer < counts.num_u8 && *offsets
                    < counts.num_u32_offsets,
                DictionaryValue::LargeUtf8 { buffer, offsets } => *buffer < counts.num_u8
                    && *offsets < counts.num_u64_offsets,
            };
            index_ok && values_ok
        },
        ArrayMapping::LargeList { offsets, .. } => *offsets < counts.num_u64_offsets,
        ArrayMapping::Struct { .. } => true,
        ArrayMapping::Union { types, .. } => *types < counts.num_u8,
        ArrayMapping::KeyValueMap { offsets, .. } => *offsets < counts.num_u32_offsets,
    }
}

impl Program {
    /// The instruction just in front of the position `idx`.
    pub fn instruction_before(&self, idx: usize) -> (res: Option<&Instruction>)
        ensures
            match instruction_before(self@.structure.program, idx) {
                Some(instr) => res is Some && res->Some_0@ == instr,
                None => res is None,
            },
    {
        if idx != 0 && idx <= self.structure.program.len() {
            Some(&self.structure.program[idx - 1])
        } else {
            None
        }
    }

    /// Whether the position lies in the program and a jump may land on it.
    pub fn is_jump_target(&self, pos: usize) -> (res: bool)
        ensures
            res == is_jump_target(self@.structure.program, pos),
    {
        pos < self.structure.program.len()
            && self.structure.program[pos].code.is_allowed_jump_target()
    }

    /// Checks the program against everything the interpreter relies on.
    pub fn validate(&self) -> (res: Result<(), Error>)
        ensures
            res is Ok <==> self@.is_valid(),
            res is Err ==> fails_with(res, ErrorKind::Compile),
    {
        match self.validate_lists(false) {
            Ok(()) => {},
            Err(e) => {
                return Err(e);
            },
        }
        match self.validate_lists(true) {
            Ok(()) => {},
            Err(e) => {
                return Err(e);
            },
        }
        match self.validate_maps() {
            Ok(()) => {},
            Err(e) => {
                return Err(e);
            },
        }
        match self.validate_structs() {
            Ok(()) => {},
            Err(e) => {
                return Err(e);
            },
        }
        match self.validate_nulls() {
            Ok(()) => {},
            Err(e) => {
                return Err(e);
            },
        }
        match self.validate_array_mappings() {
            Ok(()) => {},
            Err(e) => {
                return Err(e);
            },
        }
        self.validate_next_instruction()
    }

    /// Checks the lists with 32-bit offsets, or those with 64-bit offsets.
    pub fn validate_lists(&self, large: bool) -> (res: Result<(), Error>)
        ensures
            res is Ok <==> self@.lists_are_valid(large),
            res is Err ==> fails_with(res, ErrorKind::Compile),
    {
        let definitions = if large {
            &self.structure.large_lists
        } else {
            &self.structure.lists
        };
        let n: usize = definitions.len();
        let mut list_idx: usize = 0;
        while list_idx < n
            invariant
                n == definitions@.len(),
                list_idx <= n,
                definitions@ == (if large {
                    self@.structure.large_lists
                } else {
                    self@.structure.lists
                }),
                forall|i: int|
                    0 <= i < list_idx ==> list_is_valid(
                        self@.structure.program,
                        #[trigger] definitions@[i],
                        large,
                        i as usize,
                    ),
            decreases n - list_idx,
        {
            let list = &definitions[list_idx];
            let item_ok = match self.instruction_before(list.item) {
                Some(instr) => match instr.code {
                    Bytecode::ListItem { list_idx: idx, .. } => !large && idx == list_idx,
                    Bytecode::LargeListItem { list_idx: idx, .. } => large && idx == list_idx,
                    Bytecode::OuterSequenceItem { list_idx: idx } => large && idx == list_idx,
                    _ => false,
                },
                None => false,
            };
            if !item_ok {
                assert(!all_lists_are_valid(self@.structure.program, definitions@, large)) by {
                    assert(!list_is_valid(
                        self@.structure.program,
                        definitions@[list_idx as int],
                        large,
                        list_idx as int as usize,
                    ));
                }
                return fail(ErrorKind::Compile, "invalid list definition: item");
            }
            let return_ok = match self.instruction_before(list.return_pc) {
                Some(instr) => match instr.code {
                    Bytecode::ListEnd { list_idx: idx, .. } => !large && idx == list_idx,
                    Bytecode::LargeListEnd { list_idx: idx, .. } => large && idx == list_idx,
                    Bytecode::OuterSequenceEnd { list_idx: idx } => large && idx == list_idx,
                    _ => false,
                },
                None => false,
            };
            if !return_ok {
                assert(!all_lists_are_valid(self@.structure.program, definitions@, large)) by {
                    assert(!list_is_valid(
                        self@.structure.program,
                        definitions@[list_idx as int],
                        large,
                        list_idx as int as usize,
                    ));
                }
                return fail(ErrorKind::Compile, "invalid list definition: instr before return");
            }
            list_idx = list_idx + 1;
        }
        Ok(())
    }

    /// Checks the maps.
    pub fn validate_maps(&self) -> (res: Result<(), Error>)
        ensures
            res is Ok <==> self@.maps_are_valid(),
            res is Err ==> fails_with(res, ErrorKind::Compile),
    {
        let n: usize = self.structure.maps.len();
        let mut map_idx: usize = 0;
        while map_idx < n
            invariant
                n == self@.structure.maps.len(),
                map_idx <= n,
                forall|i: int|
                    0 <= i < map_idx ==> map_is_valid(
                        self@.structure.program,
                        #[trigger] self@.structure.maps[i],
                        i as usize,
                    ),
            decreases n - map_idx,
        {
            let map = &self.structure.maps[map_idx];
            let key_ok = match self.instruction_before(map.key) {
                Some(instr) => match instr.code {
                    Bytecode::MapItem { map_idx: idx, .. } => idx == map_idx,
                    _ => false,
                },
                None => false,
            };
            let return_ok = match self.instruction_before(map.return_pc) {
                Some(instr) => match instr.code {
                    Bytecode::MapEnd { map_idx: idx, .. } => idx == map_idx,
                    _ => false,
                },
                None => false,
            };
            if !key_ok || !return_ok {
                assert(!map_is_valid(
                    self@.structure.program,
                    self@.structure.maps[map_idx as int],
                    map_idx,
                ));
                return fail(ErrorKind::Compile, "invalid map definition");
            }
            map_idx = map_idx + 1;
        }
        Ok(())
    }

    /// Checks one field of the struct `struct_idx`.
    fn struct_field_is_valid(&self, struct_idx: usize, name: &String, definition: &FieldDefinition) -> (res:
        bool)
        ensures
            res == struct_field_is_valid(self@.structure.program, struct_idx, name@, *definition),
    {
        let announced = match self.instruction_before(definition.jump) {
            Some(instr) => match &instr.code {
                Bytecode::StructField { struct_idx: idx, field_name, .. } => *idx == struct_idx
                    && *field_name == *name,
                Bytecode::OuterRecordField { struct_idx: idx, field_name } => *idx == struct_idx
                    && *field_name == *name,
                _ => false,
            },
            None => false,
        };
        announced && self.is_jump_target(definition.jump)
    }

    /// Checks the structs.
    pub fn validate_structs(&self) -> (res: Result<(), Error>)
        ensures
            res is Ok <==> self@.structs_are_valid(),
            res is Err ==> fails_with(res, ErrorKind::Compile),
    {
        let n: usize = self.structure.structs.len();
        let mut struct_idx: usize = 0;
        while struct_idx < n
            invariant
                n == self.structure.structs@.len(),
                n == self@.structure.structs.len(),
                struct_idx <= n,
                forall|i: int|
                    0 <= i < struct_idx ==> struct_is_valid(
                        self@.structure.program,
                        #[trigger] self@.structure.structs[i],
                        i as usize,
                    ),
            decreases n - struct_idx,
        {
            let definition = &self.structure.structs[struct_idx];
            let ghost view = self@.structure.structs[struct_idx as int];
            assert(view == definition@);
            let m: usize = definition.fields.len();
            let mut k: usize = 0;
            while k < m
                invariant
                    m == definition.fields@.len(),
                    m == view.fields.len(),
                    view == definition@,
                    struct_idx < n,
                    n == self@.structure.structs.len(),
                    view == self@.structure.structs[struct_idx as int],
                    k <= m,
                    forall|j: int|
                        0 <= j < k ==> struct_field_is_valid(
                            self@.structure.program,
                            struct_idx,
                            (#[trigger] view.fields[j]).0,
                            view.fields[j].1,
                        ),
                decreases m - k,
            {
                let entry = &definition.fields[k];
                assert(view.fields[k as int] == (entry.0@, entry.1));
                if !self.struct_field_is_valid(struct_idx, &entry.0, &entry.1) {
                    assert(!struct_field_is_valid(
                        self@.structure.program,
                        struct_idx,
                        view.fields[k as int].0,
                        view.fields[k as int].1,
                    ));
                    assert(!struct_is_valid(self@.structure.program, view, struct_idx));
                    assert(!self@.structs_are_valid()) by {
                        assert(!struct_is_valid(
                            self@.structure.program,
                            self@.structure.structs[struct_idx as int],
                            struct_idx as int as usize,
                        ));
                    }
                    return fail(ErrorKind::Compile, "invalid struct definition: field");
                }
                k = k + 1;
            }
            let end_ok = match self.instruction_before(definition.return_pc) {
                Some(instr) => matches!(
                    instr.code,
                    Bytecode::StructEnd { .. } | Bytecode::OuterRecordEnd { .. } | Bytecode::UnionEnd
                ),
                None => false,
            };
            if !end_ok {
                assert(!struct_is_valid(self@.structure.program, view, struct_idx));
                return fail(ErrorKind::Compile, "invalid struct definition: instr before return");
            }
            if !self.is_jump_target(definition.return_pc) {
                assert(!struct_is_valid(self@.structure.program, view, struct_idx));
                return fail(
                    ErrorKind::Compile,
                    "invalid struct definition: return jumps to invalid target",
                );
            }
            struct_idx = struct_idx + 1;
        }
        Ok(())
    }

    /// Checks the null definitions.
    pub fn validate_nulls(&self) -> (res: Result<(), Error>)
        ensures
            res is Ok <==> self@.nulls_are_valid(),
            res is Err ==> fails_with(res, ErrorKind::Compile),
    {
        let n: usize = self.structure.nulls.len();
        let mut idx: usize = 0;
        while idx < n
            invariant
                n == self.structure.nulls@.len(),
                n == self@.structure.nulls.len(),
                idx <= n,
                forall|i: int|
                    0 <= i < idx ==> null_is_valid(
                        #[trigger] self@.structure.nulls[i],
                        self@.buffers,
                    ),
            decreases n - idx,
        {
            let null = &self.structure.nulls[idx];
            assert(self@.structure.nulls[idx as int] == null@);
            let ok = check_all_below(&null.u0, self.buffers.num_u0) && check_all_below(
                &null.u1,
                self.buffers.num_u1,
            ) && check_all_below(&null.u8, self.buffers.num_u8) && check_all_below(
                &null.u16,
                self.buffers.num_u16,
            ) && check_all_below(&null.u32, self.buffers.num_u32) && check_all_below(
                &null.u64,
                self.buffers.num_u64,
            ) && check_all_below(&null.u32_offsets, self.buffers.num_u32_offsets)
                && check_all_below(&null.u64_offsets, self.buffers.num_u64_offsets);
            if !ok {
                return fail(ErrorKind::Compile, "invalid null definition: index out of bounds");
            }
            idx = idx + 1;
        }
        Ok(())
    }

    /// Checks the mappings of the columns.
    pub fn validate_array_mappings(&self) -> (res: Result<(), Error>)
        ensures
            res is Ok <==> self@.array_mappings_are_valid(),
            res is Err ==> fails_with(res, ErrorKind::Compile),
    {
        let n: usize = self.structure.array_mapping.len();
        let mut idx: usize = 0;
        while idx < n
            invariant
                n == self.structure.array_mapping@.len(),
                n == self@.structure.array_mapping.len(),
                idx <= n,
                forall|i: int|
                    0 <= i < idx ==> (#[trigger] self@.structure.array_mapping[i]).is_valid(
                        self@.buffers,
                    ),
            decreases n - idx,
        {
            assert(self@.structure.array_mapping[idx as int]
                == self.structure.array_mapping@[idx as int]@);
            match self.validate_array_mapping(&self.structure.array_mapping[idx]) {
                Ok(()) => {},
                Err(e) => {
                    return Err(e);
                },
            }
            idx = idx + 1;
        }
        Ok(())
    }

    /// Checks the mapping of a column and of the columns nested in it.
    pub fn validate_array_mapping(&self, mapping: &ArrayMapping) -> (res: Result<(), Error>)
        ensures
            res is Ok <==> mapping@.is_valid(self@.buffers),
            res is Err ==> fails_with(res, ErrorKind::Compile),
        decreases mapping,
    {
        if !buffers_in_bounds(mapping, &self.buffers) {
            return fail(ErrorKind::Compile, "invalid array mapping: buffer index out of bounds");
        }
        let validity = validity_of(mapping);
        let exempt = matches!(mapping, ArrayMapping::Null { .. });
        let field = mapping.field();
        proof {
            field.lemma_view();
        }
        if !exempt && validity.is_some() != field.nullable {
            return fail(ErrorKind::Compile, "invalid array mapping: inconsistent nullability");
        }
        match validity {
            Some(validity) => {
                if validity >= self.buffers.num_u1 {
                    return fail(ErrorKind::Compile, "invalid array mapping: validity out of bounds");
                }
            },
            None => {},
        }
        assert(mapping@.is_valid_alone(self@.buffers));
        match mapping {
            ArrayMapping::List { item, .. } => {
                assert(mapping@ matches ArrayMappingView::List { item: view, .. } && *view
                    == item@);
                self.validate_array_mapping(item)
            },
            ArrayMapping::LargeList { item, .. } => {
                assert(mapping@ matches ArrayMappingView::LargeList { item: view, .. } && *view
                    == item@);
                self.validate_array_mapping(item)
            },
            ArrayMapping::KeyValueMap { entries, .. } => {
                assert(mapping@ matches ArrayMappingView::KeyValueMap { entries: view, .. }
                    && *view == entries@);
                self.validate_array_mapping(entries)
            },
            ArrayMapping::Struct { fields, .. } => {
                assert(mapping@ matches ArrayMappingView::Struct { fields: views, .. } && views
                    == mapping_views(fields@));
                self.validate_nested(mapping, fields)
            },
            ArrayMapping::Union { fields, .. } => {
                assert(mapping@ matches ArrayMappingView::Union { fields: views, .. } && views
                    == mapping_views(fields@));
                self.validate_nested(mapping, fields)
            },
            _ => Ok(()),
        }
    }

    /// Checks the columns nested in a struct or a union.
    fn validate_nested(&self, parent: &ArrayMapping, fields: &Vec<ArrayMapping>) -> (res: Result<
        (),
        Error,
    >)
        requires
            forall|k: int| 0 <= k < fields@.len()
                ==> decreases_to!(parent => #[trigger] fields@[k]),
        ensures
            res is Ok <==> forall|k: int|
                0 <= k < fields@.len() ==> (#[trigger] mapping_views(fields@)[k]).is_valid(
                    self@.buffers,
                ),
            res is Err ==> fails_with(res, ErrorKind::Compile),
        decreases parent, 0nat,
    {
        let n: usize = fields.len();
        let mut k: usize = 0;
        while k < n
            invariant
                n == fields@.len(),
                k <= n,
                forall|j: int| 0 <= j < n ==> decreases_to!(parent => #[trigger] fields@[j]),
                forall|j: int|
                    0 <= j < k ==> (#[trigger] mapping_views(fields@)[j]).is_valid(self@.buffers),
            decreases n - k,
        {
            assert(mapping_views(fields@)[k as int] == fields@[k as int]@);
            match self.validate_array_mapping(&fields[k]) {
                Ok(()) => {},
                Err(e) => {
                    return Err(e);
                },
            }
            k = k + 1;
        }
        Ok(())
    }

    /// Checks every successor and the end of the program.
    pub fn validate_next_instruction(&self) -> (res: Result<(), Error>)
        ensures
            res is Ok <==> self@.next_instructions_are_valid(),
            res is Err ==> fails_with(res, ErrorKind::Compile),
    {
        let n: usize = self.structure.program.len();
        let mut pos: usize = 0;
        while pos < n
            invariant
                n == self.structure.program@.len(),
                n == self@.structure.program.len(),
                pos <= n,
                forall|i: int|
                    0 <= i < pos ==> is_jump_target(
                        self@.structure.program,
                        (#[trigger] self@.structure.program[i]).next,
                    ),
            decreases n - pos,
        {
            if !self.is_jump_target(self.structure.program[pos].get_next()) {
                assert(!is_jump_target(
                    self@.structure.program,
                    self@.structure.program[pos as int].next,
                ));
                return fail(ErrorKind::Compile, "invalid next instruction");
            }
            pos = pos + 1;
        }
        if n == 0 {
            return fail(ErrorKind::Compile, "the program is empty");
        }
        let last: usize = n - 1;
        if self.structure.program[last].get_next() != last {
            return fail(ErrorKind::Compile, "invalid next instruciton for program end");
        }
        Ok(())
    }
}

} // verus!
