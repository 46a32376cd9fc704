//! What one instruction does with one event.
//!
//! The machine reads the instruction at its program counter and hands it
//! the next event. The instruction either consumes the event or leaves it
//! to the instruction that control goes to. What happens is defined by
//! [`step`]; anything that [`step`] does not provide for fails.
use vstd::prelude::*;
use vstd::utf8::encode_utf8;
use crate::bytecode::{BytecodeView, DictionaryIndex, DictionaryValue, UNSET_INSTR};
use crate::event::Token;
use crate::interpreter::bit_set::BitSet;
use crate::interpreter::buffers::{
    appended, counted, extended, items_counted, row_ended, BuffersView, MAX_OFFSET_32,
    MAX_OFFSET_64,
};
use crate::interpreter::dates::{naive_datetime_millis, utc_datetime_millis};
use crate::structure::{FieldDefinition, StructDefinitionView, StructureView};
use crate::text::first_index_of;

verus! {

/// The part of an interpreter that changes while it runs.
pub struct MachineView {
    /// The position of the instruction that gets the next event.
    pub pc: usize,
    /// While the value of an unknown key is passed over: the number of
    /// containers open in it.
    pub skip: Option<usize>,
    pub buffers: BuffersView,
}

/// What an instruction did with an event.
pub struct Outcome {
    /// Whether the event was consumed.
    pub consumed: bool,
    pub machine: MachineView,
}

impl Token {
    /// The text of a string token.
    pub open spec fn text(self) -> Option<Seq<char>> {
        match self {
            Token::Str(text) => Some(text),
            _ => None,
        }
    }

    /// The value of an integer token that is not negative.
    pub open spec fn index_value(self) -> Option<int> {
        match self {
            Token::U8(v) => Some(v as int),
            Token::U16(v) => Some(v as int),
            Token::U32(v) => Some(v as int),
            Token::U64(v) => Some(v as int),
            Token::I8(v) => if v >= 0 {
                Some(v as int)
            } else {
                None
            },
            Token::I16(v) => if v >= 0 {
                Some(v as int)
            } else {
                None
            },
            Token::I32(v) => if v >= 0 {
                Some(v as int)
            } else {
                None
            },
            Token::I64(v) => if v >= 0 {
                Some(v as int)
            } else {
                None
            },
            _ => None,
        }
    }
}

/// The largest index that fits into the index buffer of a dictionary.
pub open spec fn max_dictionary_index(indices: DictionaryIndex) -> int {
    match indices {
        DictionaryIndex::U8(_) => 0xff,
        DictionaryIndex::U16(_) => 0xffff,
        DictionaryIndex::U32(_) => 0xffff_ffff,
        DictionaryIndex::U64(_) => 0xffff_ffff_ffff_ffff,
        DictionaryIndex::I8(_) => 0x7f,
        DictionaryIndex::I16(_) => 0x7fff,
        DictionaryIndex::I32(_) => 0x7fff_ffff,
        DictionaryIndex::I64(_) => 0x7fff_ffff_ffff_ffff,
    }
}

/// The number of containers open in a value that is passed over, after
/// one more event of it, or `None` once the value is complete. The outer
/// `None` is for an event that cannot stand there.
pub open spec fn skip_after(depth: usize, token: Token) -> Option<Option<usize>> {
    if token.is_start() {
        if depth == usize::MAX {
            None
        } else {
            Some(Some((depth + 1) as usize))
        }
    } else if token.is_end() {
        if depth == 0 {
            None
        } else if depth == 1 {
            Some(None)
        } else {
            Some(Some((depth - 1) as usize))
        }
    } else if depth == 0 {
        if token is SomeMarker {
            Some(Some(0))
        } else {
            Some(None)
        }
    } else {
        Some(Some(depth))
    }
}

impl BuffersView {
    /// The buffers after a list saw the end of its row, or one more item.
    pub open spec fn with_list_step(self, wide: bool, offsets: usize, ended: bool) -> Option<
        BuffersView,
    > {
        if wide {
            let pool = if ended {
                row_ended(self.u64_offsets, offsets)
            } else {
                items_counted(self.u64_offsets, offsets, 1, MAX_OFFSET_64)
            };
            match pool {
                Some(u64_offsets) => Some(BuffersView { u64_offsets, ..self }),
                None => None,
            }
        } else {
            let pool = if ended {
                row_ended(self.u32_offsets, offsets)
            } else {
                items_counted(self.u32_offsets, offsets, 1, MAX_OFFSET_32)
            };
            match pool {
                Some(u32_offsets) => Some(BuffersView { u32_offsets, ..self }),
                None => None,
            }
        }
    }

    /// The buffers after the field at `field_idx` was seen in the current
    /// record of the struct with the set `seen`.
    pub open spec fn with_seen(self, seen: usize, field_idx: usize) -> Option<BuffersView> {
        if seen < self.seen.len() && field_idx < 128 {
            Some(
                BuffersView {
                    seen: self.seen.update(seen as int, self.seen[seen as int].with(field_idx)),
                    ..self
                },
            )
        } else {
            None
        }
    }

    /// The buffers after a record of the struct with the set `seen`
    /// started.
    pub open spec fn with_cleared_seen(self, seen: usize) -> Option<BuffersView> {
        if seen < self.seen.len() {
            Some(BuffersView { seen: self.seen.update(seen as int, BitSet { bits: 0 }), ..self })
        } else {
            None
        }
    }

    /// The buffers after the field was found absent, if it was not seen:
    /// each buffer of its null definition gets one more slot. A field
    /// that was not seen must have a null definition.
    pub open spec fn with_field_closed(
        self,
        nulls: Seq<crate::structure::NullDefinitionView>,
        seen: BitSet,
        definition: FieldDefinition,
    ) -> Option<BuffersView> {
        if seen.has(definition.index) {
            Some(self)
        } else {
            match definition.null_definition {
                Some(idx) => if idx < nulls.len() {
                    self.with_null(nulls[idx as int])
                } else {
                    None
                },
                None => None,
            }
        }
    }

    /// The buffers after the first `n` fields of a struct were closed.
    #[verifier::opaque]
    pub open spec fn with_fields_closed(
        self,
        nulls: Seq<crate::structure::NullDefinitionView>,
        seen: BitSet,
        fields: Seq<(Seq<char>, FieldDefinition)>,
        n: nat,
    ) -> Option<BuffersView>
        decreases n,
    {
        if n == 0 || n > fields.len() {
            Some(self)
        } else {
            match self.with_fields_closed(nulls, seen, fields, (n - 1) as nat) {
                Some(before) => before.with_field_closed(nulls, seen, fields[n - 1].1),
                None => None,
            }
        }
    }

    /// The buffers after a record of the struct `struct_idx` ended: each
    /// of its fields that was not seen gets one absent value.
    pub open spec fn with_struct_closed(
        self,
        structure: StructureView,
        struct_idx: usize,
        seen: usize,
    ) -> Option<BuffersView> {
        if struct_idx < structure.structs.len() && seen < self.seen.len() {
            let fields = structure.structs[struct_idx as int].fields;
            self.with_fields_closed(structure.nulls, self.seen[seen as int], fields, fields.len())
        } else {
            None
        }
    }

    /// The buffers after the value of a primitive token was appended by
    /// the given instruction. Signed values and the bits of floating
    /// point values go to the buffer of their width. There are none if
    /// the token is not what the instruction appends.
    pub open spec fn with_primitive(self, code: BytecodeView, token: Token) -> Option<BuffersView> {
        match (code, token) {
            (BytecodeView::PushNull { idx }, Token::Null) => match counted(self.u0, idx) {
                Some(u0) => Some(BuffersView { u0, ..self }),
                None => None,
            },
            (BytecodeView::PushBool { idx }, Token::Bool(v)) => match appended(self.u1, idx, v) {
                Some(u1) => Some(BuffersView { u1, ..self }),
                None => None,
            },
            (BytecodeView::PushU8 { idx }, Token::U8(v)) => self.with_u8(idx, v),
            (BytecodeView::PushI8 { idx }, Token::I8(v)) => self.with_u8(idx, v as u8),
            (BytecodeView::PushU16 { idx }, Token::U16(v)) => self.with_u16(idx, v),
            (BytecodeView::PushI16 { idx }, Token::I16(v)) => self.with_u16(idx, v as u16),
            (BytecodeView::PushU32 { idx }, Token::U32(v)) => self.with_u32(idx, v),
            (BytecodeView::PushI32 { idx }, Token::I32(v)) => self.with_u32(idx, v as u32),
            (BytecodeView::PushF32 { idx }, Token::F32(v)) => self.with_u32(idx, v),
            (BytecodeView::PushU64 { idx }, Token::U64(v)) => self.with_u64(idx, v),
            (BytecodeView::PushI64 { idx }, Token::I64(v)) => self.with_u64(idx, v as u64),
            (BytecodeView::PushF64 { idx }, Token::F64(v)) => self.with_u64(idx, v),
            (BytecodeView::PushDate64FromNaiveStr { idx }, Token::Str(text)) => {
                match naive_datetime_millis(text) {
                    Some(millis) => self.with_u64(idx, millis as u64),
                    None => None,
                }
            },
            (BytecodeView::PushDate64FromUtcStr { idx }, Token::Str(text)) => {
                match utc_datetime_millis(text) {
                    Some(millis) => self.with_u64(idx, millis as u64),
                    None => None,
                }
            },
            _ => None,
        }
    }

    /// The buffers after a value was appended to the 8-bit buffer `idx`.
    pub open spec fn with_u8(self, idx: usize, value: u8) -> Option<BuffersView> {
        match appended(self.u8, idx, value) {
            Some(u8) => Some(BuffersView { u8, ..self }),
            None => None,
        }
    }

    /// The buffers after a value was appended to the 16-bit buffer `idx`.
    pub open spec fn with_u16(self, idx: usize, value: u16) -> Option<BuffersView> {
        match appended(self.u16, idx, value) {
            Some(u16) => Some(BuffersView { u16, ..self }),
            None => None,
        }
    }

    /// The buffers after a value was appended to the 32-bit buffer `idx`.
    pub open spec fn with_u32(self, idx: usize, value: u32) -> Option<BuffersView> {
        match appended(self.u32, idx, value) {
            Some(u32) => Some(BuffersView { u32, ..self }),
            None => None,
        }
    }

    /// The buffers after a value was appended to the 64-bit buffer `idx`.
    pub open spec fn with_u64(self, idx: usize, value: u64) -> Option<BuffersView> {
        match appended(self.u64, idx, value) {
            Some(u64) => Some(BuffersView { u64, ..self }),
            None => None,
        }
    }

    /// The buffers after a flag was appended to the bitmap `idx`.
    pub open spec fn with_bit(self, idx: usize, value: bool) -> Option<BuffersView> {
        match appended(self.u1, idx, value) {
            Some(u1) => Some(BuffersView { u1, ..self }),
            None => None,
        }
    }

    /// The buffers after a string was appended as one row: its bytes to
    /// the data buffer, and the end of the row to the offsets, which count
    /// bytes.
    pub open spec fn with_string(self, wide: bool, buffer: usize, offsets: usize, text: Seq<char>) -> Option<
        BuffersView,
    > {
        let bytes = encode_utf8(text);
        match extended(self.u8, buffer, bytes) {
            None => None,
            Some(u8) => {
                if wide {
                    match items_counted(self.u64_offsets, offsets, bytes.len() as int, MAX_OFFSET_64) {
                        None => None,
                        Some(counted) => match row_ended(counted, offsets) {
                            None => None,
                            Some(u64_offsets) => Some(BuffersView { u8, u64_offsets, ..self }),
                        },
                    }
                } else {
                    match items_counted(self.u32_offsets, offsets, bytes.len() as int, MAX_OFFSET_32) {
                        None => None,
                        Some(counted) => match row_ended(counted, offsets) {
                            None => None,
                            Some(u32_offsets) => Some(BuffersView { u8, u32_offsets, ..self }),
                        },
                    }
                }
            },
        }
    }

    /// The buffers after an index was appended to the index buffer of a
    /// dictionary.
    pub open spec fn with_dictionary_index(self, indices: DictionaryIndex, index: int) -> Option<
        BuffersView,
    > {
        if index < 0 || index > max_dictionary_index(indices) {
            None
        } else {
            match indices {
                DictionaryIndex::U8(idx) => self.with_u8(idx, index as u8),
                DictionaryIndex::I8(idx) => self.with_u8(idx, index as u8),
                DictionaryIndex::U16(idx) => self.with_u16(idx, index as u16),
                DictionaryIndex::I16(idx) => self.with_u16(idx, index as u16),
                DictionaryIndex::U32(idx) => self.with_u32(idx, index as u32),
                DictionaryIndex::I32(idx) => self.with_u32(idx, index as u32),
                DictionaryIndex::U64(idx) => self.with_u64(idx, index as u64),
                DictionaryIndex::I64(idx) => self.with_u64(idx, index as u64),
            }
        }
    }

    /// The buffers after a string was appended to a column that is laid
    /// out as a dictionary. A string that the dictionary does not hold is
    /// added to it, and to the buffers of its values as one more row; the
    /// index of a string is its position in the dictionary. The index must
    /// fit into the index buffer.
    pub open spec fn with_dictionary_value(
        self,
        values: DictionaryValue,
        indices: DictionaryIndex,
        dictionary: usize,
        text: Seq<char>,
    ) -> Option<BuffersView> {
        if dictionary >= self.dictionaries.len() {
            None
        } else {
            let known = self.dictionaries[dictionary as int];
            match first_index_of(known, text) {
                Some(index) => self.with_dictionary_index(indices, index),
                None => {
                    let added = BuffersView {
                        dictionaries: self.dictionaries.update(dictionary as int, known.push(text)),
                        ..self
                    };
                    let stored = match values {
                        DictionaryValue::Utf8 { buffer, offsets } => added.with_string(
                            false,
                            buffer,
                            offsets,
                            text,
                        ),
                        DictionaryValue::LargeUtf8 { buffer, offsets } => added.with_string(
                            true,
                            buffer,
                            offsets,
                            text,
                        ),
                    };
                    match stored {
                        Some(buffers) => buffers.with_dictionary_index(indices, known.len() as int),
                        None => None,
                    }
                },
            }
        }
    }
}

impl MachineView {
    /// The machine at another instruction.
    pub open spec fn at(self, pc: usize) -> MachineView {
        MachineView { pc, ..self }
    }

    /// The outcome of an instruction that consumed the event, changed the
    /// buffers, if it could, and handed control to `pc`.
    pub open spec fn consume(self, buffers: Option<BuffersView>, pc: usize) -> Option<Outcome> {
        match buffers {
            Some(buffers) => Some(
                Outcome { consumed: true, machine: MachineView { pc, buffers, ..self } },
            ),
            None => None,
        }
    }

    /// The outcome of an instruction that left the event to the
    /// instruction at `pc`, after it changed the buffers, if it could.
    pub open spec fn pass_on(self, buffers: Option<BuffersView>, pc: usize) -> Option<Outcome> {
        match buffers {
            Some(buffers) => Some(
                Outcome { consumed: false, machine: MachineView { pc, buffers, ..self } },
            ),
            None => None,
        }
    }
}

/// What the list `list` does with a token in front of an item or behind
/// one: the end of the sequence ends the row and hands control to `done`;
/// anything else is one more item, which `item` gets.
pub open spec fn list_step(
    machine: MachineView,
    token: Token,
    wide: bool,
    offsets: usize,
    done: usize,
    item: usize,
) -> Option<Outcome> {
    if token is EndSequence {
        machine.consume(machine.buffers.with_list_step(wide, offsets, true), done)
    } else {
        machine.pass_on(machine.buffers.with_list_step(wide, offsets, false), item)
    }
}

/// What a map does with a token in front of a key or behind a value: the
/// end of the struct ends the row and hands control to `done`; anything
/// else is one more entry, whose key `key` gets.
pub open spec fn map_step(
    machine: MachineView,
    token: Token,
    offsets: usize,
    done: usize,
    key: usize,
) -> Option<Outcome> {
    if token is EndStruct {
        machine.consume(machine.buffers.with_list_step(false, offsets, true), done)
    } else {
        machine.pass_on(machine.buffers.with_list_step(false, offsets, false), key)
    }
}

/// What a struct that arrives as a map does with a key: the name of one
/// of its fields marks the field as seen and hands control to the value
/// of the field; any other primitive key has its value passed over.
/// Nothing but a primitive can be a key.
pub open spec fn key_step(
    definition: StructDefinitionView,
    machine: MachineView,
    token: Token,
    seen: usize,
) -> Option<Outcome> {
    if !token.is_primitive() {
        None
    } else {
        let known = match token.text() {
            Some(key) => definition.get(key),
            None => None,
        };
        match known {
            Some(field) => machine.consume(
                machine.buffers.with_seen(seen, field.index),
                field.jump,
            ),
            None => Some(
                Outcome { consumed: true, machine: MachineView { skip: Some(0), ..machine } },
            ),
        }
    }
}

/// What the machine does with a token while it runs the given program,
/// or `None` where it fails.
///
/// While the value of an unknown key is passed over, the token is
/// consumed and the machine stays where it is. Otherwise the instruction
/// at the program counter decides:
///
/// - the start and the end of the rows, of a record, a list, a map, a
///   struct or a tuple consume the token that they stand for;
/// - in front of an item and behind it, a list ends its row with the end
///   of the sequence and counts one more item with anything else; a map
///   does so with its entries;
/// - the field of a record consumes its name; the field of a struct
///   consumes its name and marks the field as seen, and ends the record
///   with the end of the struct;
/// - the item of a struct that arrives as a map ends the record with the
///   end of the struct, and otherwise consumes a key: a name of the
///   struct marks the field as seen and hands control to its value, any
///   other primitive key has its value passed over;
/// - the end of a struct gives each field that was not seen one absent
///   value; in a struct that arrives as a map, anything but the end of
///   the struct is one more key;
/// - a variant consumes the type code, appends it, and hands control to
///   the entry point of the variant;
/// - an option marker consumes `Null`, gives each buffer of its null
///   definition one more slot and hands control behind the value; it
///   appends a bit 1 with any other token, and consumes that token if it
///   is the marker of a present value;
/// - the instructions that push a value consume the token of their type.
///
/// The end of a union, the end of the program, the instruction for an
/// unknown variant and the instruction for 16-bit floating point values
/// accept nothing.
#[verifier::opaque]
pub open spec fn step(structure: StructureView, machine: MachineView, token: Token) -> Option<
    Outcome,
> {
    if machine.skip is Some {
        match skip_after(machine.skip.unwrap(), token) {
            Some(skip) => Some(Outcome { consumed: true, machine: MachineView { skip, ..machine } }),
            None => None,
        }
    } else if machine.pc >= structure.program.len() {
        None
    } else {
        let instr = structure.program[machine.pc as int];
        let next = instr.next;
        let buffers = machine.buffers;
        match instr.code {
            BytecodeView::OuterSequenceStart
            | BytecodeView::ListStart
            | BytecodeView::LargeListStart
            | BytecodeView::TupleStructStart => {
                if token is StartSequence {
                    machine.consume(Some(buffers), next)
                } else {
                    None
                }
            },
            BytecodeView::OuterRecordStart | BytecodeView::MapStart => {
                if token is StartStruct {
                    machine.consume(Some(buffers), next)
                } else {
                    None
                }
            },
            BytecodeView::StructStart { seen } => {
                if token is StartStruct {
                    machine.consume(buffers.with_cleared_seen(seen), next)
                } else {
                    None
                }
            },
            BytecodeView::OuterRecordEnd { .. } => {
                if token is EndStruct {
                    machine.consume(Some(buffers), next)
                } else {
                    None
                }
            },
            BytecodeView::TupleStructEnd => {
                if token is EndSequence {
                    machine.consume(Some(buffers), next)
                } else {
                    None
                }
            },
            BytecodeView::TupleStructItem => {
                if token is EndSequence {
                    None
                } else {
                    machine.pass_on(Some(buffers), next)
                }
            },
            BytecodeView::OuterSequenceItem { list_idx } => {
                if list_idx >= structure.large_lists.len() {
                    None
                } else if token is EndSequence {
                    machine.consume(Some(buffers), structure.large_lists[list_idx as int].return_pc)
                } else {
                    machine.pass_on(Some(buffers), next)
                }
            },
            BytecodeView::OuterSequenceEnd { list_idx } => {
                if list_idx >= structure.large_lists.len() {
                    None
                } else if token is EndSequence {
                    machine.consume(Some(buffers), next)
                } else {
                    machine.pass_on(Some(buffers), structure.large_lists[list_idx as int].item)
                }
            },
            BytecodeView::ListItem { list_idx, offsets } => {
                if list_idx >= structure.lists.len() {
                    None
                } else {
                    list_step(
                        machine,
                        token,
                        false,
                        offsets,
                        structure.lists[list_idx as int].return_pc,
                        next,
                    )
                }
            },
            BytecodeView::ListEnd { list_idx, offsets } => {
                if list_idx >= structure.lists.len() {
                    None
                } else {
                    list_step(
                        machine,
                        token,
                        false,
                        offsets,
                        next,
                        structure.lists[list_idx as int].item,
                    )
                }
            },
            BytecodeView::LargeListItem { list_idx, offsets } => {
                if list_idx >= structure.large_lists.len() {
                    None
                } else {
                    list_step(
                        machine,
                        token,
                        true,
                        offsets,
                        structure.large_lists[list_idx as int].return_pc,
                        next,
                    )
                }
            },
            BytecodeView::LargeListEnd { list_idx, offsets } => {
                if list_idx >= structure.large_lists.len() {
                    None
                } else {
                    list_step(
                        machine,
                        token,
                        true,
                        offsets,
                        next,
                        structure.large_lists[list_idx as int].item,
                    )
                }
            },
            BytecodeView::MapItem { map_idx, offsets } => {
                if map_idx >= structure.maps.len() {
                    None
                } else {
                    map_step(
                        machine,
                        token,
                        offsets,
                        structure.maps[map_idx as int].return_pc,
                        next,
                    )
                }
            },
            BytecodeView::MapEnd { map_idx, offsets } => {
                if map_idx >= structure.maps.len() {
                    None
                } else {
                    map_step(machine, token, offsets, next, structure.maps[map_idx as int].key)
                }
            },
            BytecodeView::OuterRecordField { field_name, .. } => {
                if token == Token::Str(field_name) {
                    machine.consume(Some(buffers), next)
                } else {
                    None
                }
            },
            BytecodeView::StructField { struct_idx, field_name, field_idx, seen } => {
                if token == Token::Str(field_name) {
                    machine.consume(buffers.with_seen(seen, field_idx), next)
                } else if token is EndStruct && struct_idx < structure.structs.len() {
                    machine.consume(
                        buffers.with_struct_closed(structure, struct_idx, seen),
                        structure.structs[struct_idx as int].return_pc,
                    )
                } else {
                    None
                }
            },
            BytecodeView::StructItem { struct_idx, seen } => {
                if struct_idx >= structure.structs.len() {
                    None
                } else if token is EndStruct {
                    machine.consume(
                        buffers.with_struct_closed(structure, struct_idx, seen),
                        structure.structs[struct_idx as int].return_pc,
                    )
                } else {
                    key_step(structure.structs[struct_idx as int], machine, token, seen)
                }
            },
            BytecodeView::StructEnd { struct_idx, seen } => {
                if struct_idx >= structure.structs.len() {
                    None
                } else if token is EndStruct {
                    machine.consume(buffers.with_struct_closed(structure, struct_idx, seen), next)
                } else if structure.structs[struct_idx as int].item != UNSET_INSTR {
                    key_step(structure.structs[struct_idx as int], machine, token, seen)
                } else {
                    None
                }
            },
            BytecodeView::Variant { union_idx, type_idx } => {
                if union_idx >= structure.unions.len() {
                    None
                } else {
                    let variants = structure.unions[union_idx as int];
                    match token.index_value() {
                        Some(tag) => if tag < variants.len() && tag < 128 {
                            machine.consume(buffers.with_u8(type_idx, tag as u8), variants[tag])
                        } else {
                            None
                        },
                        None => None,
                    }
                }
            },
            BytecodeView::OptionMarker { if_none, validity, null_definition, .. } => {
                if token is Null {
                    if null_definition < structure.nulls.len() {
                        machine.consume(
                            buffers.with_null(structure.nulls[null_definition as int]),
                            if_none,
                        )
                    } else {
                        None
                    }
                } else if token is SomeMarker {
                    machine.consume(buffers.with_bit(validity, true), next)
                } else {
                    machine.pass_on(buffers.with_bit(validity, true), next)
                }
            },
            BytecodeView::PushUtf8 { buffer, offsets } => match token.text() {
                Some(text) => machine.consume(buffers.with_string(false, buffer, offsets, text), next),
                None => None,
            },
            BytecodeView::PushLargeUtf8 { buffer, offsets } => match token.text() {
                Some(text) => machine.consume(buffers.with_string(true, buffer, offsets, text), next),
                None => None,
            },
            BytecodeView::PushDictionary { values, indices, dictionary } => match token.text() {
                Some(text) => machine.consume(
                    buffers.with_dictionary_value(values, indices, dictionary, text),
                    next,
                ),
                None => None,
            },
            BytecodeView::Panic { .. }
            | BytecodeView::ProgramEnd
            | BytecodeView::UnionEnd
            | BytecodeView::PushF16 { .. } => None,
            code => machine.consume(buffers.with_primitive(code, token), next),
        }
    }
}

} // verus!
