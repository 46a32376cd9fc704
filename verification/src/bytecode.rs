//! The instruction set of compiled programs.
use vstd::prelude::*;

verus! {

/// The successor of an instruction that has not been linked yet.
pub const UNSET_INSTR: usize = usize::MAX;

/// The buffer that receives the indices of a dictionary, by key type.
#[derive(Debug, Clone, Copy, PartialEq, Eq, Structural)]
pub enum DictionaryIndex {
    U8(usize),
    U16(usize),
    U32(usize),
    U64(usize),
    I8(usize),
    I16(usize),
    I32(usize),
    I64(usize),
}

/// The buffers that receive the distinct values of a dictionary.
#[derive(Debug, Clone, Copy, PartialEq, Eq, Structural)]
pub enum DictionaryValue {
    Utf8 { buffer: usize, offsets: usize },
    LargeUtf8 { buffer: usize, offsets: usize },
}

/// What an instruction does, with its operands.
#[derive(Debug, Clone, PartialEq)]
pub enum Bytecode {
    Panic { message: String },
    ProgramEnd,
    OuterSequenceStart,
    OuterSequenceItem { list_idx: usize },
    OuterSequenceEnd { list_idx: usize },
    OuterRecordStart,
    OuterRecordField { struct_idx: usize, field_name: String },
    OuterRecordEnd { struct_idx: usize },
    LargeListStart,
    LargeListItem { list_idx: usize, offsets: usize },
    LargeListEnd { list_idx: usize, offsets: usize },
    ListStart,
    ListItem { list_idx: usize, offsets: usize },
    ListEnd { list_idx: usize, offsets: usize },
    MapStart,
    MapItem { map_idx: usize, offsets: usize },
    MapEnd { map_idx: usize, offsets: usize },
    StructStart { seen: usize },
    StructItem { struct_idx: usize, seen: usize },
    StructField { struct_idx: usize, field_name: String, field_idx: usize, seen: usize },
    StructEnd { struct_idx: usize, seen: usize },
    TupleStructStart,
    TupleStructItem,
    TupleStructEnd,
    Variant { union_idx: usize, type_idx: usize },
    UnionEnd,
    OptionMarker { self_pos: usize, if_none: usize, validity: usize, null_definition: usize },
    PushNull { idx: usize },
    PushBool { idx: usize },
    PushU8 { idx: usize },
    PushU16 { idx: usize },
    PushU32 { idx: usize },
    PushU64 { idx: usize },
    PushI8 { idx: usize },
    PushI16 { idx: usize },
    PushI32 { idx: usize },
    PushI64 { idx: usize },
    PushF16 { idx: usize },
    PushF32 { idx: usize },
    PushF64 { idx: usize },
    PushDate64FromNaiveStr { idx: usize },
    PushDate64FromUtcStr { idx: usize },
    PushUtf8 { buffer: usize, offsets: usize },
    PushLargeUtf8 { buffer: usize, offsets: usize },
    PushDictionary { values: DictionaryValue, indices: DictionaryIndex, dictionary: usize },
}

/// The mathematical value of a [`Bytecode`].
pub enum BytecodeView {
    Panic { message: Seq<char> },
    ProgramEnd,
    OuterSequenceStart,
    OuterSequenceItem { list_idx: usize },
    OuterSequenceEnd { list_idx: usize },
    OuterRecordStart,
    OuterRecordField { struct_idx: usize, field_name: Seq<char> },
    OuterRecordEnd { struct_idx: usize },
    LargeListStart,
    LargeListItem { list_idx: usize, offsets: usize },
    LargeListEnd { list_idx: usize, offsets: usize },
    ListStart,
    ListItem { list_idx: usize, offsets: usize },
    ListEnd { list_idx: usize, offsets: usize },
    MapStart,
    MapItem { map_idx: usize, offsets: usize },
    MapEnd { map_idx: usize, offsets: usize },
    StructStart { seen: usize },
    StructItem { struct_idx: usize, seen: usize },
    StructField { struct_idx: usize, field_name: Seq<char>, field_idx: usize, seen: usize },
    StructEnd { struct_idx: usize, seen: usize },
    TupleStructStart,
    TupleStructItem,
    TupleStructEnd,
    Variant { union_idx: usize, type_idx: usize },
    UnionEnd,
    OptionMarker { self_pos: usize, if_none: usize, validity: usize, null_definition: usize },
    PushNull { idx: usize },
    PushBool { idx: usize },
    PushU8 { idx: usize },
    PushU16 { idx: usize },
    PushU32 { idx: usize },
    PushU64 { idx: usize },
    PushI8 { idx: usize },
    PushI16 { idx: usize },
    PushI32 { idx: usize },
    PushI64 { idx: usize },
    PushF16 { idx: usize },
    PushF32 { idx: usize },
    PushF64 { idx: usize },
    PushDate64FromNaiveStr { idx: usize },
    PushDate64FromUtcStr { idx: usize },
    PushUtf8 { buffer: usize, offsets: usize },
    PushLargeUtf8 { buffer: usize, offsets: usize },
    PushDictionary { values: DictionaryValue, indices: DictionaryIndex, dictionary: usize },
}

impl View for Bytecode {
    type V = BytecodeView;

    open spec fn view(&self) -> BytecodeView {
        match *self {
            Bytecode::Panic { message } => BytecodeView::Panic { message: message@ },
            Bytecode::ProgramEnd => BytecodeView::ProgramEnd,
            Bytecode::OuterSequenceStart => BytecodeView::OuterSequenceStart,
            Bytecode::OuterSequenceItem { list_idx } => BytecodeView::OuterSequenceItem {
                list_idx,
            },
            Bytecode::OuterSequenceEnd { list_idx } => BytecodeView::OuterSequenceEnd { list_idx },
            Bytecode::OuterRecordStart => BytecodeView::OuterRecordStart,
            Bytecode::OuterRecordField { struct_idx, field_name } => {
                BytecodeView::OuterRecordField { struct_idx, field_name: field_name@ }
            },
            Bytecode::OuterRecordEnd { struct_idx } => BytecodeView::OuterRecordEnd { struct_idx },
            Bytecode::LargeListStart => BytecodeView::LargeListStart,
            Bytecode::LargeListItem { list_idx, offsets } => BytecodeView::LargeListItem {
                list_idx,
                offsets,
            },
            Bytecode::LargeListEnd { list_idx, offsets } => BytecodeView::LargeListEnd {
                list_idx,
                offsets,
            },
            Bytecode::ListStart => BytecodeView::ListStart,
            Bytecode::ListItem { list_idx, offsets } => BytecodeView::ListItem {
                list_idx,
                offsets,
            },
            Bytecode::ListEnd { list_idx, offsets } => BytecodeView::ListEnd { list_idx, offsets },
            Bytecode::MapStart => BytecodeView::MapStart,
            Bytecode::MapItem { map_idx, offsets } => BytecodeView::MapItem { map_idx, offsets },
            Bytecode::MapEnd { map_idx, offsets } => BytecodeView::MapEnd { map_idx, offsets },
            Bytecode::StructStart { seen } => BytecodeView::StructStart { seen },
            Bytecode::StructItem { struct_idx, seen } => BytecodeView::StructItem {
                struct_idx,
                seen,
            },
            Bytecode::StructField { struct_idx, field_name, field_idx, seen } => {
                BytecodeView::StructField { struct_idx, field_name: field_name@, field_idx, seen }
            },
            Bytecode::StructEnd { struct_idx, seen } => BytecodeView::StructEnd {
                struct_idx,
                seen,
            },
            Bytecode::TupleStructStart => BytecodeView::TupleStructStart,
            Bytecode::TupleStructItem => BytecodeView::TupleStructItem,
            Bytecode::TupleStructEnd => BytecodeView::TupleStructEnd,
            Bytecode::Variant { union_idx, type_idx } => BytecodeView::Variant {
                union_idx,
                type_idx,
            },
            Bytecode::UnionEnd => BytecodeView::UnionEnd,
            Bytecode::OptionMarker { self_pos, if_none, validity, null_definition } => {
                BytecodeView::OptionMarker { self_pos, if_none, validity, null_definition }
            },
            Bytecode::PushNull { idx } => BytecodeView::PushNull { idx },
            Bytecode::PushBool { idx } => BytecodeView::PushBool { idx },
            Bytecode::PushU8 { idx } => BytecodeView::PushU8 { idx },
            Bytecode::PushU16 { idx } => BytecodeView::PushU16 { idx },
            Bytecode::PushU32 { idx } => BytecodeView::PushU32 { idx },
            Bytecode::PushU64 { idx } => BytecodeView::PushU64 { idx },
            Bytecode::PushI8 { idx } => BytecodeView::PushI8 { idx },
            Bytecode::PushI16 { idx } => BytecodeView::PushI16 { idx },
            Bytecode::PushI32 { idx } => BytecodeView::PushI32 { idx },
            Bytecode::PushI64 { idx } => BytecodeView::PushI64 { idx },
            Bytecode::PushF16 { idx } => BytecodeView::PushF16 { idx },
            Bytecode::PushF32 { idx } => BytecodeView::PushF32 { idx },
            Bytecode::PushF64 { idx } => BytecodeView::PushF64 { idx },
            Bytecode::PushDate64FromNaiveStr { idx } => BytecodeView::PushDate64FromNaiveStr {
                idx,
            },
            Bytecode::PushDate64FromUtcStr { idx } => BytecodeView::PushDate64FromUtcStr { idx },
            Bytecode::PushUtf8 { buffer, offsets } => BytecodeView::PushUtf8 { buffer, offsets },
            Bytecode::PushLargeUtf8 { buffer, offsets } => BytecodeView::PushLargeUtf8 {
                buffer,
                offsets,
            },
            Bytecode::PushDictionary { values, indices, dictionary } => {
                BytecodeView::PushDictionary { values, indices, dictionary }
            },
        }
    }
}

impl Bytecode {
    /// Whether a jump may land on this instruction: on any but `UnionEnd`.
    pub fn is_allowed_jump_target(&self) -> (res: bool)
        ensures
            res == !(self@ is UnionEnd),
    {
        !matches!(self, Bytecode::UnionEnd)
    }
}

/// One instruction of a program: what it does and where control goes next.
#[derive(Debug, Clone, PartialEq)]
pub struct Instruction {
    /// The program counter of the default successor.
    pub next: usize,
    pub code: Bytecode,
}

/// The mathematical value of an [`Instruction`].
pub struct InstructionView {
    pub next: usize,
    pub code: BytecodeView,
}

impl View for Instruction {
    type V = InstructionView;

    open spec fn view(&self) -> InstructionView {
        InstructionView { next: self.next, code: self.code@ }
    }
}

impl Instruction {
    /// An instruction whose successor is still to be linked.
    pub fn unlinked(code: Bytecode) -> (res: Instruction)
        ensures
            res@ == (InstructionView { next: UNSET_INSTR, code: code@ }),
    {
        Instruction { next: UNSET_INSTR, code }
    }

    /// The default successor.
    pub fn get_next(&self) -> (res: usize)
        ensures
            res == self@.next,
    {
        self.next
    }

    /// Replaces the default successor.
    pub fn set_next(&mut self, val: usize)
        ensures
            final(self)@ == (InstructionView { next: val, code: old(self)@.code }),
    {
        self.next = val;
    }
}

/// The views of a program's instructions, in order.
pub open spec fn program_view(program: Seq<Instruction>) -> Seq<InstructionView> {
    Seq::new(program.len(), |i: int| program[i]@)
}

} // verus!
