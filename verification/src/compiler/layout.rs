//! What a compiled program looks like.
//!
//! The layout of a program is defined by the spec functions of
//! [`ProgramView`]: each takes the program compiled so far and returns the
//! program after one more piece of the schema, or `None` where the schema
//! cannot be compiled.
use vstd::prelude::*;
use crate::bytecode::{
    Bytecode, BytecodeView, DictionaryIndex, DictionaryValue, Instruction, InstructionView,
    UNSET_INSTR,
};
use crate::error::Error;
use crate::schema::{unique_names, FieldView, GenericDataType, GenericField, Strategy};
use crate::structure::{
    with_if_none, ArrayMapping, ArrayMappingView, BufferCounts, BufferKind, FieldDefinition,
    ListDefinition, MapDefinition, NullDefinitionView, StructDefinitionView, Structure,
    StructureView,
};
use crate::text::decimal_digits;

verus! {


/// The number of fields that the set of seen fields of a struct can hold.
pub const MAX_STRUCT_FIELDS: usize = 128;

/// How to compile a schema.
#[derive(Debug, Clone, Copy, PartialEq, Eq, Structural)]
pub struct CompilationOptions {
    /// Whether the top-level fields are the fields of one record per row.
    /// Without it there must be exactly one top-level field.
    pub wrap_with_struct: bool,
}

impl Default for CompilationOptions {
    fn default() -> (res: CompilationOptions)
        ensures
            res.wrap_with_struct,
    {
        CompilationOptions { wrap_with_struct: true }
    }
}

impl CompilationOptions {
    /// The same options with `wrap_with_struct` set to `value`.
    pub fn wrap_with_struct(self, value: bool) -> (res: CompilationOptions)
        ensures
            res == (CompilationOptions { wrap_with_struct: value }),
    {
        let mut res = self;
        res.wrap_with_struct = value;
        res
    }
}

/// A program: its instructions with their tables, and the number of buffers
/// it writes to.
#[derive(Debug, PartialEq)]
pub struct Program {
    pub options: CompilationOptions,
    pub structure: Structure,
    pub buffers: BufferCounts,
}

/// The mathematical value of a [`Program`].
pub struct ProgramView {
    pub options: CompilationOptions,
    pub structure: StructureView,
    pub buffers: BufferCounts,
}

impl View for Program {
    type V = ProgramView;

    open spec fn view(&self) -> ProgramView {
        ProgramView { options: self.options, structure: self.structure@, buffers: self.buffers }
    }
}

/// How the records of a struct arrive.
pub struct StructMode {
    /// As sequences of fixed length.
    pub is_tuple: bool,
    /// As maps whose keys are looked up when they arrive.
    pub is_map: bool,
}

/// The mode that a strategy selects for a struct, if it is one for structs.
pub open spec fn struct_mode(strategy: Option<Strategy>) -> Option<StructMode> {
    match strategy {
        None => Some(StructMode { is_tuple: false, is_map: false }),
        Some(Strategy::MapAsStruct) => Some(StructMode { is_tuple: false, is_map: true }),
        Some(Strategy::TupleAsStruct) => Some(StructMode { is_tuple: true, is_map: false }),
        Some(_) => None,
    }
}

/// The pool that holds the values of a primitive type.
pub open spec fn primitive_buffer_kind(data_type: GenericDataType) -> BufferKind {
    match data_type {
        GenericDataType::Null => BufferKind::U0,
        GenericDataType::Bool => BufferKind::U1,
        GenericDataType::U8 | GenericDataType::I8 => BufferKind::U8,
        GenericDataType::U16 | GenericDataType::I16 | GenericDataType::F16 => BufferKind::U16,
        GenericDataType::U32 | GenericDataType::I32 | GenericDataType::F32 => BufferKind::U32,
        _ => BufferKind::U64,
    }
}

/// The instruction that appends a value of a primitive type to the buffer
/// `idx`. A `Date64` is fed from integers or, by strategy, from strings.
/// `None` for other types and for a `Date64` with another strategy.
pub open spec fn primitive_code(
    data_type: GenericDataType,
    strategy: Option<Strategy>,
    idx: usize,
) -> Option<BytecodeView> {
    match data_type {
        GenericDataType::Null => Some(BytecodeView::PushNull { idx }),
        GenericDataType::Bool => Some(BytecodeView::PushBool { idx }),
        GenericDataType::U8 => Some(BytecodeView::PushU8 { idx }),
        GenericDataType::U16 => Some(BytecodeView::PushU16 { idx }),
        GenericDataType::U32 => Some(BytecodeView::PushU32 { idx }),
        GenericDataType::U64 => Some(BytecodeView::PushU64 { idx }),
        GenericDataType::I8 => Some(BytecodeView::PushI8 { idx }),
        GenericDataType::I16 => Some(BytecodeView::PushI16 { idx }),
        GenericDataType::I32 => Some(BytecodeView::PushI32 { idx }),
        GenericDataType::I64 => Some(BytecodeView::PushI64 { idx }),
        GenericDataType::F16 => Some(BytecodeView::PushF16 { idx }),
        GenericDataType::F32 => Some(BytecodeView::PushF32 { idx }),
        GenericDataType::F64 => Some(BytecodeView::PushF64 { idx }),
        GenericDataType::Date64 => match strategy {
            None => Some(BytecodeView::PushI64 { idx }),
            Some(Strategy::NaiveStrAsDate64) => Some(
                BytecodeView::PushDate64FromNaiveStr { idx },
            ),
            Some(Strategy::UtcStrAsDate64) => Some(BytecodeView::PushDate64FromUtcStr { idx }),
            Some(_) => None,
        },
        _ => None,
    }
}

/// The mapping of a column of a primitive type.
pub open spec fn primitive_mapping(
    field: FieldView,
    buffer: usize,
    validity: Option<usize>,
) -> ArrayMappingView {
    match field.data_type {
        GenericDataType::Null => ArrayMappingView::Null { field, buffer, validity },
        GenericDataType::Bool => ArrayMappingView::Bool { field, buffer, validity },
        GenericDataType::U8 => ArrayMappingView::U8 { field, buffer, validity },
        GenericDataType::U16 => ArrayMappingView::U16 { field, buffer, validity },
        GenericDataType::U32 => ArrayMappingView::U32 { field, buffer, validity },
        GenericDataType::U64 => ArrayMappingView::U64 { field, buffer, validity },
        GenericDataType::I8 => ArrayMappingView::I8 { field, buffer, validity },
        GenericDataType::I16 => ArrayMappingView::I16 { field, buffer, validity },
        GenericDataType::I32 => ArrayMappingView::I32 { field, buffer, validity },
        GenericDataType::I64 => ArrayMappingView::I64 { field, buffer, validity },
        GenericDataType::F16 => ArrayMappingView::F16 { field, buffer, validity },
        GenericDataType::F32 => ArrayMappingView::F32 { field, buffer, validity },
        GenericDataType::F64 => ArrayMappingView::F64 { field, buffer, validity },
        _ => ArrayMappingView::Date64 { field, buffer, validity },
    }
}

/// The index buffer of a dictionary whose keys have the given type, if it
/// is an integer type.
pub open spec fn dictionary_index(data_type: GenericDataType, idx: usize) -> Option<
    DictionaryIndex,
> {
    match data_type {
        GenericDataType::U8 => Some(DictionaryIndex::U8(idx)),
        GenericDataType::U16 => Some(DictionaryIndex::U16(idx)),
        GenericDataType::U32 => Some(DictionaryIndex::U32(idx)),
        GenericDataType::U64 => Some(DictionaryIndex::U64(idx)),
        GenericDataType::I8 => Some(DictionaryIndex::I8(idx)),
        GenericDataType::I16 => Some(DictionaryIndex::I16(idx)),
        GenericDataType::I32 => Some(DictionaryIndex::I32(idx)),
        GenericDataType::I64 => Some(DictionaryIndex::I64(idx)),
        _ => None,
    }
}

/// The message of the instruction that stands for an unknown variant.
pub open spec fn unknown_variant_message(child_idx: usize) -> Seq<char> {
    "Serialization failed: an unknown variant with index "@ + decimal_digits(child_idx as nat)
        + " for field was encountered. To fix this error, sure all variants are seen during schema tracing or add the relevant variants manually to the traced fields."@
}

/// The field that stands for an unknown variant in the mapping of a union.
pub open spec fn placeholder_field() -> FieldView {
    FieldView {
        name: ""@,
        data_type: GenericDataType::Null,
        nullable: true,
        strategy: None,
        children: Seq::empty(),
    }
}

/// What compiling the fields of a struct yields.
pub struct CompiledFields {
    pub program: ProgramView,
    pub mappings: Seq<ArrayMappingView>,
}

/// What compiling the variants of a union yields.
pub struct CompiledVariants {
    pub program: ProgramView,
    pub mappings: Seq<ArrayMappingView>,
    /// The position of the last instruction of each variant.
    pub last_instrs: Seq<usize>,
}

/// Whether a field of a primitive type is refused as it stands: its data
/// type is no primitive type, or it is a `Date64` with a strategy that is
/// none for dates.
pub open spec fn primitive_is_refused(field: FieldView) -> bool {
    match field.data_type {
        GenericDataType::Date64 => match field.strategy {
            None | Some(Strategy::NaiveStrAsDate64) | Some(Strategy::UtcStrAsDate64) => false,
            Some(_) => true,
        },
        GenericDataType::Null
        | GenericDataType::Bool
        | GenericDataType::U8
        | GenericDataType::U16
        | GenericDataType::U32
        | GenericDataType::U64
        | GenericDataType::I8
        | GenericDataType::I16
        | GenericDataType::I32
        | GenericDataType::I64
        | GenericDataType::F16
        | GenericDataType::F32
        | GenericDataType::F64 => false,
        _ => true,
    }
}

/// Whether a dictionary is refused as it stands: it has not two children,
/// keys that are no integers, or values that are no strings.
pub open spec fn dictionary_is_refused(field: FieldView) -> bool {
    ||| field.children.len() != 2
    ||| !field.children[0].data_type.is_integer()
    ||| !field.children[1].data_type.is_string()
}

/// Whether a list is refused as it stands: it has a validity bitmap
/// without being nullable, or is nullable without one, or has no child.
pub open spec fn list_is_refused(field: FieldView, validity: Option<usize>) -> bool {
    field.nullable != validity.is_some() || field.children.len() == 0
}

/// Whether a map is refused as it stands: it has a validity bitmap without
/// being nullable, or is nullable without one, or has not the shape of a
/// map.
pub open spec fn map_is_refused(field: FieldView, validity: Option<usize>) -> bool {
    field.nullable != validity.is_some() || !field.has_map_shape()
}

/// Whether a struct is refused as it stands: it is nullable without a
/// validity bitmap or without fields, its strategy is none for structs, or
/// two of its children have the same name.
pub open spec fn struct_is_refused(field: FieldView, validity: Option<usize>) -> bool {
    ||| field.nullable && (validity is None || field.children.len() == 0)
    ||| struct_mode(field.strategy) is None
    ||| !field.has_unique_child_names()
}

/// Whether a union is refused as it stands: it has a validity bitmap, or
/// no children.
pub open spec fn union_is_refused(field: FieldView, validity: Option<usize>) -> bool {
    validity is Some || field.children.len() == 0
}

/// Whether a field is refused as it stands, by its data type. Such a field
/// is not compiled, and the program stays as it is.
pub open spec fn is_refused(field: FieldView, validity: Option<usize>) -> bool {
    match field.data_type {
        GenericDataType::Utf8 | GenericDataType::LargeUtf8 => false,
        GenericDataType::Dictionary => dictionary_is_refused(field),
        GenericDataType::Struct => struct_is_refused(field, validity),
        GenericDataType::List | GenericDataType::LargeList => list_is_refused(field, validity),
        GenericDataType::Union => union_is_refused(field, validity),
        GenericDataType::KeyValueMap => map_is_refused(field, validity),
        _ => primitive_is_refused(field),
    }
}

/// Whether the top-level fields are refused as they stand: without
/// wrapping there is not exactly one field, or with wrapping two of the
/// fields have the same name.
pub open spec fn outer_is_refused(options: CompilationOptions, fields: Seq<FieldView>) -> bool {
    if options.wrap_with_struct {
        !unique_names(fields)
    } else {
        fields.len() != 1
    }
}

impl ProgramView {
    /// The program counter of the next instruction to be emitted.
    pub open spec fn pc(self) -> usize {
        self.structure.program.len() as usize
    }

    /// The program with one more instruction, whose successor is not linked
    /// yet.
    pub open spec fn emit(self, code: BytecodeView) -> ProgramView {
        self.emit_linked(UNSET_INSTR, code)
    }

    /// The program with one more instruction with the given successor.
    pub open spec fn emit_linked(self, next: usize, code: BytecodeView) -> ProgramView {
        ProgramView {
            structure: StructureView {
                program: self.structure.program.push(InstructionView { next, code }),
                ..self.structure
            },
            ..self
        }
    }

    /// The program with one more buffer of the given kind, and the index of
    /// that buffer.
    pub open spec fn allocate(self, kind: BufferKind) -> Option<(ProgramView, usize)> {
        match self.buffers.allocated(kind) {
            Some((buffers, idx)) => Some((ProgramView { buffers, ..self }, idx)),
            None => None,
        }
    }

    /// The program with the successor of the instruction at `pos` replaced.
    pub open spec fn with_next(self, pos: int, next: usize) -> ProgramView {
        ProgramView {
            structure: StructureView {
                program: self.structure.program.update(
                    pos,
                    InstructionView { next, ..self.structure.program[pos] },
                ),
                ..self.structure
            },
            ..self
        }
    }

    /// The program with the given list of struct definitions.
    pub open spec fn with_structs(self, structs: Seq<StructDefinitionView>) -> ProgramView {
        ProgramView { structure: StructureView { structs, ..self.structure }, ..self }
    }

    /// The program with the given list of list definitions.
    pub open spec fn with_lists(self, lists: Seq<ListDefinition>) -> ProgramView {
        ProgramView { structure: StructureView { lists, ..self.structure }, ..self }
    }

    /// The program with the given list of large list definitions.
    pub open spec fn with_large_lists(self, large_lists: Seq<ListDefinition>) -> ProgramView {
        ProgramView { structure: StructureView { large_lists, ..self.structure }, ..self }
    }

    /// The program with the given list of map definitions.
    pub open spec fn with_maps(self, maps: Seq<MapDefinition>) -> ProgramView {
        ProgramView { structure: StructureView { maps, ..self.structure }, ..self }
    }

    /// The program with the given list of union definitions.
    pub open spec fn with_unions(self, unions: Seq<Seq<usize>>) -> ProgramView {
        ProgramView { structure: StructureView { unions, ..self.structure }, ..self }
    }

    /// The program with the given list of null definitions.
    pub open spec fn with_nulls(self, nulls: Seq<NullDefinitionView>) -> ProgramView {
        ProgramView { structure: StructureView { nulls, ..self.structure }, ..self }
    }

    /// The program with the given list of column mappings.
    pub open spec fn with_array_mapping(self, array_mapping: Seq<ArrayMappingView>) -> ProgramView {
        ProgramView { structure: StructureView { array_mapping, ..self.structure }, ..self }
    }

    /// A field with its null check, if it needs one.
    ///
    /// A nullable field of any type but `Null` gets a validity bitmap, a
    /// null definition and an option marker in front of its code. Once the
    /// code is there, the marker is pointed past it, and the null
    /// definition lists, in ascending order, the buffers of the field.
    pub open spec fn compile_field(self, field: FieldView) -> Option<
        (ProgramView, ArrayMappingView, Option<usize>),
    >
        decreases field, 5nat, 0nat,
    {
        if field.nullable && !(field.data_type is Null) {
            match self.allocate(BufferKind::U1) {
                None => None,
                Some((s1, validity)) => {
                    let null_definition = s1.structure.nulls.len() as usize;
                    let s2 = s1.with_nulls(s1.structure.nulls.push(NullDefinitionView::empty()));
                    let self_pos = s2.pc();
                    let s3 = s2.emit(
                        BytecodeView::OptionMarker {
                            self_pos,
                            if_none: 0,
                            validity,
                            null_definition,
                        },
                    );
                    match s3.compile_field_inner(field, Some(validity)) {
                        None => None,
                        Some((s4, mapping)) => {
                            let s5 = ProgramView {
                                structure: StructureView {
                                    program: s4.structure.program.update(
                                        self_pos as int,
                                        with_if_none(
                                            s4.structure.program[self_pos as int],
                                            s4.pc(),
                                        ),
                                    ),
                                    ..s4.structure
                                },
                                ..s4
                            };
                            match s5.structure.nulls[null_definition as int].extended_by(
                                mapping,
                            ) {
                                None => None,
                                Some(definition) => Some(
                                    (
                                        s5.with_nulls(
                                            s5.structure.nulls.update(
                                                null_definition as int,
                                                definition.sorted(),
                                            ),
                                        ),
                                        mapping,
                                        Some(null_definition),
                                    ),
                                ),
                            }
                        },
                    }
                },
            }
        } else {
            match self.compile_field_inner(field, None) {
                None => None,
                Some((s1, mapping)) => Some((s1, mapping, None)),
            }
        }
    }

    /// A field without its null check, by data type.
    pub open spec fn compile_field_inner(self, field: FieldView, validity: Option<usize>) -> Option<
        (ProgramView, ArrayMappingView),
    >
        decreases field, 4nat, 0nat,
    {
        match field.data_type {
            GenericDataType::Utf8 => match self.allocate(BufferKind::U8) {
                None => None,
                Some((s1, buffer)) => match s1.allocate(BufferKind::U32Offsets) {
                    None => None,
                    Some((s2, offsets)) => Some(
                        (
                            s2.emit(BytecodeView::PushUtf8 { buffer, offsets }),
                            ArrayMappingView::Utf8 { field, buffer, offsets, validity },
                        ),
                    ),
                },
            },
            GenericDataType::LargeUtf8 => match self.allocate(BufferKind::U8) {
                None => None,
                Some((s1, buffer)) => match s1.allocate(BufferKind::U64Offsets) {
                    None => None,
                    Some((s2, offsets)) => Some(
                        (
                            s2.emit(BytecodeView::PushLargeUtf8 { buffer, offsets }),
                            ArrayMappingView::LargeUtf8 { field, buffer, offsets, validity },
                        ),
                    ),
                },
            },
            GenericDataType::Dictionary => self.compile_dictionary(field, validity),
            GenericDataType::Struct => self.compile_struct(field, validity),
            GenericDataType::List => self.compile_list(field, validity),
            GenericDataType::LargeList => self.compile_large_list(field, validity),
            GenericDataType::Union => self.compile_union(field, validity),
            GenericDataType::KeyValueMap => self.compile_map(field, validity),
            _ => self.compile_primitive(field, validity),
        }
    }

    /// A field of a primitive type: one instruction and one buffer.
    pub open spec fn compile_primitive(self, field: FieldView, validity: Option<usize>) -> Option<
        (ProgramView, ArrayMappingView),
    > {
        let kind = primitive_buffer_kind(field.data_type);
        match primitive_code(field.data_type, field.strategy, self.buffers.count(kind)) {
            None => None,
            Some(code) => match self.allocate(kind) {
                None => None,
                Some((s1, buffer)) => Some(
                    (s1.emit(code), primitive_mapping(field, buffer, validity)),
                ),
            },
        }
    }

    /// The instruction that fails when an unknown variant is selected, with
    /// a counter of its own.
    pub open spec fn compile_panic(self, message: Seq<char>) -> Option<
        (ProgramView, ArrayMappingView),
    > {
        match self.emit(BytecodeView::Panic { message }).allocate(BufferKind::U0) {
            None => None,
            Some((s1, buffer)) => Some(
                (
                    s1,
                    ArrayMappingView::Null { field: placeholder_field(), buffer, validity: None },
                ),
            ),
        }
    }

    /// A dictionary: an index buffer by the type of the key, a data and an
    /// offsets buffer by the type of the value, a dictionary slot, and one
    /// instruction.
    pub open spec fn compile_dictionary(self, field: FieldView, validity: Option<usize>) -> Option<
        (ProgramView, ArrayMappingView),
    > {
        if dictionary_is_refused(field) {
            None
        } else {
            let key_type = field.children[0].data_type;
            let value_type = field.children[1].data_type;
            match self.allocate(primitive_buffer_kind(key_type)) {
                None => None,
                Some((s1, index_buffer)) => match s1.allocate(BufferKind::U8) {
                    None => None,
                    Some((s2, buffer)) => {
                        let indices = dictionary_index(key_type, index_buffer).unwrap();
                        let offsets_kind = if value_type is Utf8 {
                            BufferKind::U32Offsets
                        } else {
                            BufferKind::U64Offsets
                        };
                        match s2.allocate(offsets_kind) {
                            None => None,
                            Some((s3, offsets)) => {
                                let values = if value_type is Utf8 {
                                    DictionaryValue::Utf8 { buffer, offsets }
                                } else {
                                    DictionaryValue::LargeUtf8 { buffer, offsets }
                                };
                                match s3.allocate(BufferKind::Dictionaries) {
                                    None => None,
                                    Some((s4, dictionary)) => Some(
                                        (
                                            s4.emit(
                                                BytecodeView::PushDictionary {
                                                    values,
                                                    indices,
                                                    dictionary,
                                                },
                                            ),
                                            ArrayMappingView::Dictionary {
                                                field,
                                                dictionary: values,
                                                indices,
                                                validity,
                                            },
                                        ),
                                    ),
                                }
                            },
                        }
                    },
                },
            }
        }
    }

    /// A list with 32-bit offsets: its start, the check for one more item,
    /// the item, and its end.
    pub open spec fn compile_list(self, field: FieldView, validity: Option<usize>) -> Option<
        (ProgramView, ArrayMappingView),
    >
        decreases field, 3nat, 0nat,
    {
        if list_is_refused(field, validity) {
            None
        } else {
            let list_idx = self.structure.lists.len() as usize;
            match self.allocate(BufferKind::U32Offsets) {
                None => None,
                Some((s1, offsets)) => {
                    let s2 = s1.with_lists(
                        s1.structure.lists.push(
                            ListDefinition { item: 0, return_pc: 0, offset: offsets },
                        ),
                    ).emit(BytecodeView::ListStart).emit(
                        BytecodeView::ListItem { list_idx, offsets },
                    );
                    let s3 = s2.with_lists(
                        s2.structure.lists.update(
                            list_idx as int,
                            ListDefinition { item: s2.pc(), ..s2.structure.lists[list_idx as int] },
                        ),
                    );
                    match s3.compile_field(field.children[0]) {
                        None => None,
                        Some((s4, item, _)) => {
                            let s5 = s4.emit(BytecodeView::ListEnd { list_idx, offsets });
                            Some(
                                (
                                    s5.with_lists(
                                        s5.structure.lists.update(
                                            list_idx as int,
                                            ListDefinition {
                                                return_pc: s5.pc(),
                                                ..s5.structure.lists[list_idx as int]
                                            },
                                        ),
                                    ),
                                    ArrayMappingView::List {
                                        field,
                                        item: Box::new(item),
                                        offsets,
                                        validity,
                                    },
                                ),
                            )
                        },
                    }
                },
            }
        }
    }

    /// A list with 64-bit offsets: its start, the check for one more item,
    /// the item, and its end.
    pub open spec fn compile_large_list(self, field: FieldView, validity: Option<usize>) -> Option<
        (ProgramView, ArrayMappingView),
    >
        decreases field, 3nat, 0nat,
    {
        if list_is_refused(field, validity) {
            None
        } else {
            let list_idx = self.structure.large_lists.len() as usize;
            match self.allocate(BufferKind::U64Offsets) {
                None => None,
                Some((s1, offsets)) => {
                    let s2 = s1.with_large_lists(
                        s1.structure.large_lists.push(
                            ListDefinition { item: 0, return_pc: 0, offset: offsets },
                        ),
                    ).emit(BytecodeView::LargeListStart).emit(
                        BytecodeView::LargeListItem { list_idx, offsets },
                    );
                    let s3 = s2.with_large_lists(
                        s2.structure.large_lists.update(
                            list_idx as int,
                            ListDefinition {
                                item: s2.pc(),
                                ..s2.structure.large_lists[list_idx as int]
                            },
                        ),
                    );
                    match s3.compile_field(field.children[0]) {
                        None => None,
                        Some((s4, item, _)) => {
                            let s5 = s4.emit(BytecodeView::LargeListEnd { list_idx, offsets });
                            Some(
                                (
                                    s5.with_large_lists(
                                        s5.structure.large_lists.update(
                                            list_idx as int,
                                            ListDefinition {
                                                return_pc: s5.pc(),
                                                ..s5.structure.large_lists[list_idx as int]
                                            },
                                        ),
                                    ),
                                    ArrayMappingView::LargeList {
                                        field,
                                        item: Box::new(item),
                                        offsets,
                                        validity,
                                    },
                                ),
                            )
                        },
                    }
                },
            }
        }
    }

    /// A map: its start, the check for one more entry, the key, the value,
    /// and its end. Its entries are mapped as a struct of key and value
    /// that is never absent.
    pub open spec fn compile_map(self, field: FieldView, validity: Option<usize>) -> Option<
        (ProgramView, ArrayMappingView),
    >
        decreases field, 3nat, 0nat,
    {
        if map_is_refused(field, validity) {
            None
        } else {
            let entries = field.children[0];
            let map_idx = self.structure.maps.len() as usize;
            match self.allocate(BufferKind::U32Offsets) {
                None => None,
                Some((s1, offsets)) => {
                    let s2 = s1.with_maps(
                        s1.structure.maps.push(MapDefinition { key: 0, return_pc: 0 }),
                    ).emit(BytecodeView::MapStart).emit(BytecodeView::MapItem { map_idx, offsets });
                    let s3 = s2.with_maps(
                        s2.structure.maps.update(
                            map_idx as int,
                            MapDefinition { key: s2.pc(), ..s2.structure.maps[map_idx as int] },
                        ),
                    );
                    match s3.compile_field(entries.children[0]) {
                        None => None,
                        Some((s4, keys, _)) => match s4.compile_field(entries.children[1]) {
                            None => None,
                            Some((s5, values, _)) => {
                                let s6 = s5.emit(BytecodeView::MapEnd { map_idx, offsets });
                                Some(
                                    (
                                        s6.with_maps(
                                            s6.structure.maps.update(
                                                map_idx as int,
                                                MapDefinition {
                                                    return_pc: s6.pc(),
                                                    ..s6.structure.maps[map_idx as int]
                                                },
                                            ),
                                        ),
                                        ArrayMappingView::KeyValueMap {
                                            field,
                                            offsets,
                                            validity,
                                            entries: Box::new(
                                                ArrayMappingView::Struct {
                                                    field: entries,
                                                    fields: seq![keys, values],
                                                    validity: None,
                                                },
                                            ),
                                        },
                                    ),
                                )
                            },
                        },
                    }
                },
            }
        }
    }

    /// The first `n` fields of a struct, one after the other.
    #[verifier::opaque]
    pub open spec fn compile_struct_fields(
        self,
        field: FieldView,
        mode: StructMode,
        struct_idx: usize,
        seen: usize,
        n: nat,
    ) -> Option<CompiledFields>
        decreases field, 2nat, n,
    {
        if n == 0 || n > field.children.len() {
            Some(CompiledFields { program: self, mappings: Seq::empty() })
        } else {
            match self.compile_struct_fields(field, mode, struct_idx, seen, (n - 1) as nat) {
                None => None,
                Some(before) => match before.program.compile_struct_field(
                    field,
                    mode,
                    struct_idx,
                    seen,
                    (n - 1) as nat,
                ) {
                    None => None,
                    Some((program, mapping)) => Some(
                        CompiledFields { program, mappings: before.mappings.push(mapping) },
                    ),
                },
            }
        }
    }

    /// The field of a struct at position `field_idx`. Outside a tuple, the
    /// field is announced by an instruction that checks its name and is
    /// entered into the struct's table with the place of its value and,
    /// once its value is compiled, with its null definition; in a map, an
    /// instruction that looks up the next key comes before that. Outside a
    /// tuple, the position must fit into the set of seen fields.
    pub open spec fn compile_struct_field(
        self,
        field: FieldView,
        mode: StructMode,
        struct_idx: usize,
        seen: usize,
        field_idx: nat,
    ) -> Option<(ProgramView, ArrayMappingView)>
        decreases field, 1nat, 0nat,
    {
        if field_idx >= field.children.len() || (!mode.is_tuple && field_idx
            >= MAX_STRUCT_FIELDS) {
            None
        } else {
            let child = field.children[field_idx as int];
            let s1 = self.announce_struct_field(
                child.name,
                mode,
                struct_idx,
                seen,
                field_idx as usize,
            );
            match s1.compile_field(child) {
                None => None,
                Some((s2, mapping, null_definition)) => {
                    if mode.is_tuple {
                        Some((s2, mapping))
                    } else {
                        match s2.structure.structs[struct_idx as int].with_null_definition(
                            child.name,
                            null_definition,
                        ) {
                            None => None,
                            Some(definition) => Some(
                                (
                                    s2.with_structs(
                                        s2.structure.structs.update(struct_idx as int, definition),
                                    ),
                                    mapping,
                                ),
                            ),
                        }
                    }
                },
            }
        }
    }

    /// The instructions in front of the value of a struct field.
    pub open spec fn announce_struct_field(
        self,
        name: Seq<char>,
        mode: StructMode,
        struct_idx: usize,
        seen: usize,
        field_idx: usize,
    ) -> ProgramView {
        if mode.is_tuple {
            self.emit(BytecodeView::TupleStructItem)
        } else {
            let s1 = if mode.is_map {
                let s = self.emit(BytecodeView::StructItem { struct_idx, seen });
                if s.structure.structs[struct_idx as int].item == UNSET_INSTR {
                    s.with_structs(
                        s.structure.structs.update(
                            struct_idx as int,
                            StructDefinitionView {
                                item: s.pc(),
                                ..s.structure.structs[struct_idx as int]
                            },
                        ),
                    )
                } else {
                    s
                }
            } else {
                self
            };
            let s2 = s1.emit(
                BytecodeView::StructField { struct_idx, field_name: name, field_idx, seen },
            );
            s2.with_structs(
                s2.structure.structs.update(
                    struct_idx as int,
                    s2.structure.structs[struct_idx as int].insert(
                        name,
                        FieldDefinition { index: field_idx, jump: s2.pc(), null_definition: None },
                    ),
                ),
            )
        }
    }

    /// A struct: its start, its fields, and its end. Outside a tuple it has
    /// a set of seen fields and a table of its fields. A nullable struct
    /// must have fields, and no two fields may have the same name.
    pub open spec fn compile_struct(self, field: FieldView, validity: Option<usize>) -> Option<
        (ProgramView, ArrayMappingView),
    >
        decreases field, 3nat, 0nat,
    {
        if struct_is_refused(field, validity) {
            None
        } else {
            match struct_mode(field.strategy) {
                None => None,
                Some(mode) => {
                    let struct_idx = self.structure.structs.len() as usize;
                    let started = if mode.is_tuple {
                        Some((self.emit(BytecodeView::TupleStructStart), usize::MAX))
                    } else {
                        match self.allocate(BufferKind::Seen) {
                            None => None,
                            Some((s1, seen)) => Some(
                                (
                                    s1.with_structs(
                                        s1.structure.structs.push(
                                            StructDefinitionView {
                                                item: UNSET_INSTR,
                                                ..StructDefinitionView::empty()
                                            },
                                        ),
                                    ).emit(BytecodeView::StructStart { seen }),
                                    seen,
                                ),
                            ),
                        }
                    };
                    match started {
                        None => None,
                        Some((s2, seen)) => match s2.compile_struct_fields(
                            field,
                            mode,
                            struct_idx,
                            seen,
                            field.children.len(),
                        ) {
                            None => None,
                            Some(compiled) => {
                                let s3 = compiled.program;
                                let s4 = if mode.is_tuple {
                                    s3.emit(BytecodeView::TupleStructEnd)
                                } else {
                                    let s = s3.emit(BytecodeView::StructEnd { struct_idx, seen });
                                    s.with_structs(
                                        s.structure.structs.update(
                                            struct_idx as int,
                                            StructDefinitionView {
                                                return_pc: s.pc(),
                                                ..s.structure.structs[struct_idx as int]
                                            },
                                        ),
                                    )
                                };
                                Some(
                                    (
                                        s4,
                                        ArrayMappingView::Struct {
                                            field,
                                            fields: compiled.mappings,
                                            validity,
                                        },
                                    ),
                                )
                            },
                        },
                    }
                },
            }
        }
    }

    /// The first `n` variants of a union, one after the other, with the
    /// position of the last instruction of each.
    #[verifier::opaque]
    pub open spec fn compile_union_variants(self, field: FieldView, union_idx: usize, n: nat) -> Option<
        CompiledVariants,
    >
        decreases field, 2nat, n,
    {
        if n == 0 || n > field.children.len() {
            Some(
                CompiledVariants { program: self, mappings: Seq::empty(), last_instrs: Seq::empty() },
            )
        } else {
            match self.compile_union_variants(field, union_idx, (n - 1) as nat) {
                None => None,
                Some(before) => match before.program.compile_union_variant(
                    field,
                    union_idx,
                    (n - 1) as nat,
                ) {
                    None => None,
                    Some((program, mapping)) => Some(
                        CompiledVariants {
                            program,
                            mappings: before.mappings.push(mapping),
                            last_instrs: before.last_instrs.push((program.pc() - 1) as usize),
                        },
                    ),
                },
            }
        }
    }

    /// The variant of a union at position `child_idx`. Its entry point is
    /// entered into the union's table. A variant marked as unknown is an
    /// instruction that fails.
    pub open spec fn compile_union_variant(self, field: FieldView, union_idx: usize, child_idx: nat) -> Option<
        (ProgramView, ArrayMappingView),
    >
        decreases field, 1nat, 0nat,
    {
        if child_idx >= field.children.len() {
            None
        } else {
            let child = field.children[child_idx as int];
            let s1 = self.with_unions(
                self.structure.unions.update(
                    union_idx as int,
                    self.structure.unions[union_idx as int].push(self.pc()),
                ),
            );
            if child.strategy == Some(Strategy::UnknownVariant) {
                s1.compile_panic(unknown_variant_message(child_idx as usize))
            } else {
                match s1.compile_field(child) {
                    None => None,
                    Some((s2, mapping, _)) => Some((s2, mapping)),
                }
            }
        }
    }

    /// The program in which the first `n` of the given instructions have
    /// the successor `next`.
    #[verifier::opaque]
    pub open spec fn rejoin(self, last_instrs: Seq<usize>, next: usize, n: nat) -> ProgramView
        decreases n,
    {
        if n == 0 || n > last_instrs.len() {
            self
        } else {
            self.rejoin(last_instrs, next, (n - 1) as nat).with_next(
                last_instrs[n - 1] as int,
                next,
            )
        }
    }

    /// A dense union: the dispatch on the type code, the variants, and the
    /// end of the union, which the last instruction of each variant has as
    /// its successor. A union is never nullable and has a variant.
    pub open spec fn compile_union(self, field: FieldView, validity: Option<usize>) -> Option<
        (ProgramView, ArrayMappingView),
    >
        decreases field, 3nat, 0nat,
    {
        if union_is_refused(field, validity) {
            None
        } else {
            let union_idx = self.structure.unions.len() as usize;
            let s1 = self.with_unions(self.structure.unions.push(Seq::empty()));
            match s1.allocate(BufferKind::U8) {
                None => None,
                Some((s2, type_idx)) => {
                    let s3 = s2.emit(BytecodeView::Variant { union_idx, type_idx });
                    match s3.compile_union_variants(field, union_idx, field.children.len()) {
                        None => None,
                        Some(compiled) => {
                            let s4 = compiled.program;
                            let s5 = s4.rejoin(
                                compiled.last_instrs,
                                s4.pc(),
                                compiled.last_instrs.len(),
                            );
                            Some(
                                (
                                    s5.emit(BytecodeView::UnionEnd),
                                    ArrayMappingView::Union {
                                        field,
                                        fields: compiled.mappings,
                                        types: type_idx,
                                    },
                                ),
                            )
                        },
                    }
                },
            }
        }
    }
}

impl ProgramView {
    /// The top-level field at position `idx`. Where the fields are wrapped
    /// into a record, the field is announced by an instruction that checks
    /// its name and is entered into the table of the record, which is the
    /// first struct. The mapping of the field is added to the columns.
    pub open spec fn compile_outer_field(self, fields: Seq<FieldView>, idx: nat) -> Option<
        ProgramView,
    >
        recommends
            idx < fields.len(),
    {
        let field = fields[idx as int];
        let s1 = if self.options.wrap_with_struct {
            let s = self.emit(
                BytecodeView::OuterRecordField { struct_idx: 0, field_name: field.name },
            );
            s.with_structs(
                s.structure.structs.update(
                    0,
                    s.structure.structs[0].insert(
                        field.name,
                        FieldDefinition { index: idx as usize, jump: s.pc(), null_definition: None },
                    ),
                ),
            )
        } else {
            self
        };
        match s1.compile_field(field) {
            None => None,
            Some((s2, mapping, _)) => Some(
                s2.with_array_mapping(s2.structure.array_mapping.push(mapping)),
            ),
        }
    }

    /// The first `n` top-level fields, one after the other.
    #[verifier::opaque]
    pub open spec fn compile_outer_fields(self, fields: Seq<FieldView>, n: nat) -> Option<
        ProgramView,
    >
        decreases n,
    {
        if n == 0 || n > fields.len() {
            Some(self)
        } else {
            match self.compile_outer_fields(fields, (n - 1) as nat) {
                None => None,
                Some(before) => before.compile_outer_field(fields, (n - 1) as nat),
            }
        }
    }

    /// The program before its top-level fields: the start of the sequence
    /// of rows, which is the first large list, the check for one more row
    /// and, where the fields are wrapped, the start of the record.
    pub open spec fn open_outer_structure(self) -> ProgramView {
        let s1 = self.with_large_lists(
            self.structure.large_lists.push(ListDefinition { item: 0, return_pc: 0, offset: 0 }),
        ).emit(BytecodeView::OuterSequenceStart).emit(
            BytecodeView::OuterSequenceItem { list_idx: 0 },
        );
        let s2 = s1.with_large_lists(
            s1.structure.large_lists.update(
                0,
                ListDefinition { item: s1.pc(), ..s1.structure.large_lists[0] },
            ),
        );
        if self.options.wrap_with_struct {
            s2.with_structs(s2.structure.structs.push(StructDefinitionView::empty())).emit(
                BytecodeView::OuterRecordStart,
            )
        } else {
            s2
        }
    }

    /// The program after its top-level fields: the end of the record, where
    /// the fields are wrapped, the end of the sequence of rows, and the end
    /// of the program, which is its own successor.
    pub open spec fn close_outer_structure(self) -> ProgramView {
        let s1 = if self.options.wrap_with_struct {
            let s = self.emit(BytecodeView::OuterRecordEnd { struct_idx: 0 });
            s.with_structs(
                s.structure.structs.update(
                    0,
                    StructDefinitionView { return_pc: s.pc(), ..s.structure.structs[0] },
                ),
            )
        } else {
            self
        };
        let s2 = s1.emit(BytecodeView::OuterSequenceEnd { list_idx: 0 });
        let s3 = s2.with_large_lists(
            s2.structure.large_lists.update(
                0,
                ListDefinition { return_pc: s2.pc(), ..s2.structure.large_lists[0] },
            ),
        );
        s3.emit_linked(s3.pc(), BytecodeView::ProgramEnd)
    }

    /// The whole program for the given top-level fields, before linking.
    /// Without wrapping there must be exactly one field; with wrapping no
    /// two fields may have the same name.
    pub open spec fn compile_outer_structure(self, fields: Seq<FieldView>) -> Option<ProgramView> {
        if outer_is_refused(self.options, fields) {
            None
        } else {
            match self.open_outer_structure().compile_outer_fields(fields, fields.len()) {
                None => None,
                Some(compiled) => Some(compiled.close_outer_structure()),
            }
        }
    }
}

/// Compiling no top-level field leaves the program as it is, and the first
/// `k + 1` fields are the first `k` and then the field at position `k`.
pub proof fn lemma_outer_fields_step(program: ProgramView, fields: Seq<FieldView>, k: nat)
    ensures
        program.compile_outer_fields(fields, 0) == Some(program),
        k < fields.len() ==> program.compile_outer_fields(fields, k + 1) == (
        match program.compile_outer_fields(fields, k) {
            None => None,
            Some(before) => before.compile_outer_field(fields, k),
        }),
{
    reveal(ProgramView::compile_outer_fields);
    assert((k + 1 - 1) as nat == k);
}

/// Once a top-level field cannot be compiled, no longer list of fields can.
pub proof fn lemma_outer_fields_fail(program: ProgramView, fields: Seq<FieldView>, k: nat, n: nat)
    requires
        k <= n <= fields.len(),
        program.compile_outer_fields(fields, k) is None,
    ensures
        program.compile_outer_fields(fields, n) is None,
    decreases n,
{
    reveal(ProgramView::compile_outer_fields);
    if k < n {
        lemma_outer_fields_fail(program, fields, k, (n - 1) as nat);
    }
}

/// A field that is refused as it stands is not compiled, whatever the
/// program before it.
pub proof fn lemma_refused_is_not_compiled(
    program: ProgramView,
    field: FieldView,
    validity: Option<usize>,
)
    requires
        is_refused(field, validity),
    ensures
        program.compile_field_inner(field, validity) is None,
{
}

/// Top-level fields that are refused as they stand are not compiled.
pub proof fn lemma_refused_outer_is_not_compiled(program: ProgramView, fields: Seq<FieldView>)
    requires
        outer_is_refused(program.options, fields),
    ensures
        program.compile_outer_structure(fields) is None,
        program.compile(fields) is None,
{
}

/// Whether the outcome of compiling a field with its null check is the
/// expected one.
pub open spec fn is_compiled_field(
    res: Result<(ArrayMapping, Option<usize>), Error>,
    program: ProgramView,
    expected: Option<(ProgramView, ArrayMappingView, Option<usize>)>,
) -> bool {
    match expected {
        Some((expected_program, mapping, null_definition)) => {
            &&& res is Ok
            &&& res->Ok_0.0@ == mapping
            &&& res->Ok_0.1 == null_definition
            &&& program == expected_program
        },
        None => res is Err,
    }
}

/// Whether the outcome of compiling a piece of a schema is the expected
/// one.
pub open spec fn is_compiled(
    res: Result<ArrayMapping, Error>,
    program: ProgramView,
    expected: Option<(ProgramView, ArrayMappingView)>,
) -> bool {
    match expected {
        Some((expected_program, mapping)) => {
            &&& res is Ok
            &&& res->Ok_0@ == mapping
            &&& program == expected_program
        },
        None => res is Err,
    }
}

/// Compiling no fields of a struct leaves the program as it is.
pub proof fn lemma_struct_fields_none(
    program: ProgramView,
    field: FieldView,
    mode: StructMode,
    struct_idx: usize,
    seen: usize,
)
    ensures
        program.compile_struct_fields(field, mode, struct_idx, seen, 0) == Some(
            CompiledFields { program, mappings: Seq::empty() },
        ),
{
    reveal(ProgramView::compile_struct_fields);
}

/// The first `k + 1` fields of a struct are the first `k` and then the
/// field at position `k`.
pub proof fn lemma_struct_fields_step(
    program: ProgramView,
    field: FieldView,
    mode: StructMode,
    struct_idx: usize,
    seen: usize,
    k: nat,
)
    requires
        k < field.children.len(),
    ensures
        program.compile_struct_fields(field, mode, struct_idx, seen, k + 1) == (
        match program.compile_struct_fields(field, mode, struct_idx, seen, k) {
            None => None,
            Some(before) => match before.program.compile_struct_field(
                field,
                mode,
                struct_idx,
                seen,
                k,
            ) {
                None => None,
                Some((next, mapping)) => Some(
                    CompiledFields { program: next, mappings: before.mappings.push(mapping) },
                ),
            },
        }),
{
    reveal(ProgramView::compile_struct_fields);
    assert((k + 1 - 1) as nat == k);
}

/// Once a field of a struct cannot be compiled, no longer list of its
/// fields can.
pub proof fn lemma_struct_fields_fail(
    program: ProgramView,
    field: FieldView,
    mode: StructMode,
    struct_idx: usize,
    seen: usize,
    k: nat,
    n: nat,
)
    requires
        k <= n <= field.children.len(),
        program.compile_struct_fields(field, mode, struct_idx, seen, k) is None,
    ensures
        program.compile_struct_fields(field, mode, struct_idx, seen, n) is None,
    decreases n,
{
    reveal(ProgramView::compile_struct_fields);
    if k < n {
        lemma_struct_fields_fail(program, field, mode, struct_idx, seen, k, (n - 1) as nat);
    }
}

/// Compiling no variants of a union leaves the program as it is.
pub proof fn lemma_union_variants_none(program: ProgramView, field: FieldView, union_idx: usize)
    ensures
        program.compile_union_variants(field, union_idx, 0) == Some(
            CompiledVariants { program, mappings: Seq::empty(), last_instrs: Seq::empty() },
        ),
{
    reveal(ProgramView::compile_union_variants);
}

/// The first `k + 1` variants of a union are the first `k` and then the
/// variant at position `k`.
pub proof fn lemma_union_variants_step(
    program: ProgramView,
    field: FieldView,
    union_idx: usize,
    k: nat,
)
    requires
        k < field.children.len(),
    ensures
        program.compile_union_variants(field, union_idx, k + 1) == (
        match program.compile_union_variants(field, union_idx, k) {
            None => None,
            Some(before) => match before.program.compile_union_variant(field, union_idx, k) {
                None => None,
                Some((next, mapping)) => Some(
                    CompiledVariants {
                        program: next,
                        mappings: before.mappings.push(mapping),
                        last_instrs: before.last_instrs.push((next.pc() - 1) as usize),
                    },
                ),
            },
        }),
{
    reveal(ProgramView::compile_union_variants);
    assert((k + 1 - 1) as nat == k);
}

/// Once a variant of a union cannot be compiled, no longer list of its
/// variants can.
pub proof fn lemma_union_variants_fail(
    program: ProgramView,
    field: FieldView,
    union_idx: usize,
    k: nat,
    n: nat,
)
    requires
        k <= n <= field.children.len(),
        program.compile_union_variants(field, union_idx, k) is None,
    ensures
        program.compile_union_variants(field, union_idx, n) is None,
    decreases n,
{
    reveal(ProgramView::compile_union_variants);
    if k < n {
        lemma_union_variants_fail(program, field, union_idx, k, (n - 1) as nat);
    }
}

/// Rejoining no instruction leaves the program as it is, and rejoining one
/// more replaces its successor.
pub proof fn lemma_rejoin_step(program: ProgramView, last_instrs: Seq<usize>, next: usize, k: nat)
    ensures
        program.rejoin(last_instrs, next, 0) == program,
        k < last_instrs.len() ==> program.rejoin(last_instrs, next, k + 1) == program.rejoin(
            last_instrs,
            next,
            k,
        ).with_next(last_instrs[k as int] as int, next),
{
    reveal(ProgramView::rejoin);
    assert((k + 1 - 1) as nat == k);
}

impl ProgramView {
    /// No instructions, empty tables and no buffers.
    pub open spec fn empty(options: CompilationOptions) -> ProgramView {
        ProgramView { options, structure: StructureView::empty(), buffers: BufferCounts::empty() }
    }
}

impl Program {
    /// A program without instructions.
    pub fn new(options: CompilationOptions) -> (res: Program)
        ensures
            res@ == ProgramView::empty(options),
    {
        Program { options, structure: Structure::new(), buffers: BufferCounts::new() }
    }

    /// Appends an instruction whose successor is still to be linked.
    pub fn push_instr(&mut self, code: Bytecode)
        ensures
            final(self)@ == old(self)@.emit(code@),
    {
        self.structure.push_instr(Instruction::unlinked(code));
    }

    /// Takes the next buffer of the given kind.
    pub(crate) fn allocate(&mut self, kind: BufferKind) -> (res: Result<usize, Error>)
        ensures
            match old(self)@.allocate(kind) {
                Some((program, idx)) => final(self)@ == program && res == Ok::<usize, Error>(idx),
                None => final(self)@ == old(self)@ && res is Err,
            },
    {
        self.buffers.allocate(kind)
    }

    /// Whether the field gets a null check: a nullable field of any type
    /// but `Null`, whose absent values are counted by its own instruction.
    pub fn requires_null_check(&self, field: &GenericField) -> (res: bool)
        ensures
            res == (field@.nullable && !(field@.data_type is Null)),
    {
        proof {
            field.lemma_view();
        }
        field.nullable && !matches!(field.data_type, GenericDataType::Null)
    }
}

} // verus!
