//! Compiles single fields: the null check and the fields without children.
use vstd::prelude::*;
use crate::bytecode::{Bytecode, DictionaryIndex, DictionaryValue};
use crate::compiler::layout::{
    dictionary_index, dictionary_is_refused, is_compiled, is_compiled_field, is_refused,
    primitive_buffer_kind, primitive_code, primitive_is_refused, primitive_mapping,
    unknown_variant_message, Program,
};
use crate::error::{fail, Error, ErrorKind};
use crate::schema::{GenericDataType, GenericField, Strategy};
use crate::structure::{ArrayMapping, BufferKind};
use crate::text::decimal;

verus! {

/// The instruction that appends a value of a primitive type to the buffer
/// `idx`.
fn primitive_instruction(data_type: GenericDataType, strategy: Option<Strategy>, idx: usize) -> (res:
    Option<Bytecode>)
    ensures
        match primitive_code(data_type, strategy, idx) {
            Some(code) => res is Some && res->Some_0@ == code,
            None => res is None,
        },
{
    match data_type {
        GenericDataType::Null => Some(Bytecode::PushNull { idx }),
        GenericDataType::Bool => Some(Bytecode::PushBool { idx }),
        GenericDataType::U8 => Some(Bytecode::PushU8 { idx }),
        GenericDataType::U16 => Some(Bytecode::PushU16 { idx }),
        GenericDataType::U32 => Some(Bytecode::PushU32 { idx }),
        GenericDataType::U64 => Some(Bytecode::PushU64 { idx }),
        GenericDataType::I8 => Some(Bytecode::PushI8 { idx }),
        GenericDataType::I16 => Some(Bytecode::PushI16 { idx }),
        GenericDataType::I32 => Some(Bytecode::PushI32 { idx }),
        GenericDataType::I64 => Some(Bytecode::PushI64 { idx }),
        GenericDataType::F16 => Some(Bytecode::PushF16 { idx }),
        GenericDataType::F32 => Some(Bytecode::PushF32 { idx }),
        GenericDataType::F64 => Some(Bytecode::PushF64 { idx }),
        GenericDataType::Date64 => match strategy {
            None => Some(Bytecode::PushI64 { idx }),
            Some(Strategy::NaiveStrAsDate64) => Some(Bytecode::PushDate64FromNaiveStr { idx }),
            Some(Strategy::UtcStrAsDate64) => Some(Bytecode::PushDate64FromUtcStr { idx }),
            Some(_) => None,
        },
        _ => None,
    }
}

/// The pool that holds the values of a primitive type.
fn primitive_buffer(data_type: GenericDataType) -> (res: BufferKind)
    ensures
        res == primitive_buffer_kind(data_type),
{
    match data_type {
        GenericDataType::Null => BufferKind::U0,
        GenericDataType::Bool => BufferKind::U1,
        GenericDataType::U8 | GenericDataType::I8 => BufferKind::U8,
        GenericDataType::U16 | GenericDataType::I16 | GenericDataType::F16 => BufferKind::U16,
        GenericDataType::U32 | GenericDataType::I32 | GenericDataType::F32 => BufferKind::U32,
        _ => BufferKind::U64,
    }
}

/// The mapping of a column of a primitive type.
fn primitive_array_mapping(field: GenericField, buffer: usize, validity: Option<usize>) -> (res:
    ArrayMapping)
    ensures
        res@ == primitive_mapping(field@, buffer, validity),
{
    proof {
        field.lemma_view();
    }
    match field.data_type {
        GenericDataType::Null => ArrayMapping::Null { field, buffer, validity },
        GenericDataType::Bool => ArrayMapping::Bool { field, buffer, validity },
        GenericDataType::U8 => ArrayMapping::U8 { field, buffer, validity },
        GenericDataType::U16 => ArrayMapping::U16 { field, buffer, validity },
        GenericDataType::U32 => ArrayMapping::U32 { field, buffer, validity },
        GenericDataType::U64 => ArrayMapping::U64 { field, buffer, validity },
        GenericDataType::I8 => ArrayMapping::I8 { field, buffer, validity },
        GenericDataType::I16 => ArrayMapping::I16 { field, buffer, validity },
        GenericDataType::I32 => ArrayMapping::I32 { field, buffer, validity },
        GenericDataType::I64 => ArrayMapping::I64 { field, buffer, validity },
        GenericDataType::F16 => ArrayMapping::F16 { field, buffer, validity },
        GenericDataType::F32 => ArrayMapping::F32 { field, buffer, validity },
        GenericDataType::F64 => ArrayMapping::F64 { field, buffer, validity },
        _ => ArrayMapping::Date64 { field, buffer, validity },
    }
}

/// The index buffer of a dictionary whose keys have the given type.
fn dictionary_index_of(data_type: GenericDataType, idx: usize) -> (res: Option<DictionaryIndex>)
    ensures
        res == dictionary_index(data_type, idx),
        res is Some <==> data_type.is_integer(),
{
    match data_type {
        GenericDataType::U8 => Some(DictionaryIndex::U8(idx)),
        GenericDataType::U16 => Some(DictionaryIndex::U16(idx)),
        GenericDataType::U32 => Some(DictionaryIndex::U32(idx)),
        GenericDataType::U64 => Some(DictionaryIndex::U64(idx)),
        GenericDataType::I8 => Some(DictionaryIndex::I8(idx)),
        GenericDataType::I16 => Some(DictionaryIndex::I16(idx)),
        GenericDataType::I32 => Some(DictionaryIndex::I32(idx)),
        GenericDataType::I64 => Some(DictionaryIndex::I64(idx)),
        _ => None,
    }
}

/// The message of the instruction that stands for an unknown variant.
pub(crate) fn unknown_variant_text(child_idx: usize) -> (res: String)
    ensures
        res@ == unknown_variant_message(child_idx),
{
    let mut res = "Serialization failed: an unknown variant with index ".to_owned();
    let digits = decimal(child_idx);
    res.append(digits.as_str());
    res.append(
        " for field was encountered. To fix this error, sure all variants are seen during schema tracing or add the relevant variants manually to the traced fields.",
    );
    res
}

impl Program {
    /// Compiles a field with its null check, and returns its mapping and
    /// the index of its null definition, if it has one.
    pub fn compile_field(&mut self, field: &GenericField) -> (res: Result<
        (ArrayMapping, Option<usize>),
        Error,
    >)
        ensures
            is_compiled_field(res, final(self)@, old(self)@.compile_field(field@)),
            !(field@.nullable && !(field@.data_type is Null)) && is_refused(field@, None)
                ==> final(self)@ == old(self)@,
            res is Ok ==> old(self)@.structure.precedes(final(self)@.structure),
            final(self)@.options == old(self)@.options,
        decreases field, 5nat,
    {
        if self.requires_null_check(field) {
            let validity = match self.allocate(BufferKind::U1) {
                Ok(validity) => validity,
                Err(e) => {
                    return Err(e);
                },
            };
            let null_definition: usize = self.structure.nulls.len();
            self.structure.push_null();
            let self_pos: usize = self.structure.program.len();
            self.push_instr(
                Bytecode::OptionMarker { self_pos, if_none: 0, validity, null_definition },
            );
            let array_mapping = match self.compile_field_inner(field, Some(validity)) {
                Ok(array_mapping) => array_mapping,
                Err(e) => {
                    return Err(e);
                },
            };
            let current_program_len: usize = self.structure.program.len();
            self.structure.set_if_none(self_pos, current_program_len);
            match self.structure.fill_null(null_definition, &array_mapping) {
                Ok(()) => {},
                Err(e) => {
                    return Err(e);
                },
            }
            Ok((array_mapping, Some(null_definition)))
        } else {
            match self.compile_field_inner(field, None) {
                Ok(array_mapping) => Ok((array_mapping, None)),
                Err(e) => Err(e),
            }
        }
    }

    /// Compiles a field without its null check, by data type.
    pub fn compile_field_inner(&mut self, field: &GenericField, validity: Option<usize>) -> (res:
        Result<ArrayMapping, Error>)
        ensures
            is_compiled(res, final(self)@, old(self)@.compile_field_inner(field@, validity)),
            is_refused(field@, validity) ==> final(self)@ == old(self)@,
            res is Ok ==> old(self)@.structure.precedes(final(self)@.structure),
            final(self)@.options == old(self)@.options,
        decreases field, 4nat,
    {
        proof {
            field.lemma_view();
        }
        match field.data_type {
            GenericDataType::Utf8 => {
                let buffer = match self.allocate(BufferKind::U8) {
                    Ok(buffer) => buffer,
                    Err(e) => {
                        return Err(e);
                    },
                };
                let offsets = match self.allocate(BufferKind::U32Offsets) {
                    Ok(offsets) => offsets,
                    Err(e) => {
                        return Err(e);
                    },
                };
                self.push_instr(Bytecode::PushUtf8 { buffer, offsets });
                Ok(ArrayMapping::Utf8 { field: field.clone(), buffer, offsets, validity })
            },
            GenericDataType::LargeUtf8 => {
                let buffer = match self.allocate(BufferKind::U8) {
                    Ok(buffer) => buffer,
                    Err(e) => {
                        return Err(e);
                    },
                };
                let offsets = match self.allocate(BufferKind::U64Offsets) {
                    Ok(offsets) => offsets,
                    Err(e) => {
                        return Err(e);
                    },
                };
                self.push_instr(Bytecode::PushLargeUtf8 { buffer, offsets });
                Ok(ArrayMapping::LargeUtf8 { field: field.clone(), buffer, offsets, validity })
            },
            GenericDataType::Dictionary => self.compile_dictionary(field, validity),
            GenericDataType::Struct => self.compile_struct(field, validity),
            GenericDataType::List => self.compile_list(field, validity),
            GenericDataType::LargeList => self.compile_large_list(field, validity),
            GenericDataType::Union => self.compile_union(field, validity),
            GenericDataType::KeyValueMap => self.compile_map(field, validity),
            _ => self.compile_primitive(field, validity),
        }
    }

    /// Compiles a field of a primitive type.
    pub fn compile_primitive(&mut self, field: &GenericField, validity: Option<usize>) -> (res:
        Result<ArrayMapping, Error>)
        ensures
            is_compiled(res, final(self)@, old(self)@.compile_primitive(field@, validity)),
            primitive_is_refused(field@) ==> final(self)@ == old(self)@,
            res is Ok ==> old(self)@.structure.precedes(final(self)@.structure),
            final(self)@.options == old(self)@.options,
    {
        proof {
            field.lemma_view();
        }
        let kind = primitive_buffer(field.data_type);
        let code = match primitive_instruction(
            field.data_type,
            field.strategy,
            self.buffers.get(kind),
        ) {
            Some(code) => code,
            None => {
                return fail(ErrorKind::Compile, "cannot compile the field with its strategy");
            },
        };
        let buffer = match self.allocate(kind) {
            Ok(buffer) => buffer,
            Err(e) => {
                return Err(e);
            },
        };
        self.push_instr(code);
        Ok(primitive_array_mapping(field.clone(), buffer, validity))
    }

    /// Compiles the instruction that fails when an unknown variant is
    /// selected.
    pub fn compile_panic(&mut self, message: String) -> (res: Result<ArrayMapping, Error>)
        ensures
            is_compiled(res, final(self)@, old(self)@.compile_panic(message@)),
            res is Ok ==> old(self)@.structure.precedes(final(self)@.structure),
            final(self)@.options == old(self)@.options,
    {
        self.push_instr(Bytecode::Panic { message });
        let buffer = match self.allocate(BufferKind::U0) {
            Ok(buffer) => buffer,
            Err(e) => {
                return Err(e);
            },
        };
        Ok(
            ArrayMapping::Null {
                field: GenericField::new("", GenericDataType::Null, true),
                buffer,
                validity: None,
            },
        )
    }

    /// Compiles a dictionary.
    pub fn compile_dictionary(&mut self, field: &GenericField, validity: Option<usize>) -> (res:
        Result<ArrayMapping, Error>)
        ensures
            is_compiled(res, final(self)@, old(self)@.compile_dictionary(field@, validity)),
            dictionary_is_refused(field@) ==> final(self)@ == old(self)@,
            res is Ok ==> old(self)@.structure.precedes(final(self)@.structure),
            final(self)@.options == old(self)@.options,
    {
        proof {
            field.lemma_view();
        }
        if field.children.len() != 2 {
            return fail(ErrorKind::Compile, "Dictionary must have 2 children");
        }
        proof {
            field.children@[0].lemma_view();
            field.children@[1].lemma_view();
        }
        let key_type = field.children[0].data_type;
        let value_type = field.children[1].data_type;
        if !key_type.has_integer_type() {
            return fail(ErrorKind::Compile, "cannot compile dictionary with indices of this type");
        }
        if !value_type.has_string_type() {
            return fail(ErrorKind::Compile, "cannot compile dictionary with values of this type");
        }
        let index_buffer = match self.allocate(primitive_buffer(key_type)) {
            Ok(idx) => idx,
            Err(e) => {
                return Err(e);
            },
        };
        let indices = match dictionary_index_of(key_type, index_buffer) {
            Some(indices) => indices,
            None => {
                return fail(
                    ErrorKind::Compile,
                    "cannot compile dictionary with indices of this type",
                );
            },
        };
        let buffer = match self.allocate(BufferKind::U8) {
            Ok(buffer) => buffer,
            Err(e) => {
                return Err(e);
            },
        };
        let is_utf8 = matches!(value_type, GenericDataType::Utf8);
        let offsets_kind = if is_utf8 {
            BufferKind::U32Offsets
        } else {
            BufferKind::U64Offsets
        };
        let offsets = match self.allocate(offsets_kind) {
            Ok(offsets) => offsets,
            Err(e) => {
                return Err(e);
            },
        };
        let values = if is_utf8 {
            DictionaryValue::Utf8 { buffer, offsets }
        } else {
            DictionaryValue::LargeUtf8 { buffer, offsets }
        };
        let dictionary = match self.allocate(BufferKind::Dictionaries) {
            Ok(dictionary) => dictionary,
            Err(e) => {
                return Err(e);
            },
        };
        self.push_instr(Bytecode::PushDictionary { values, indices, dictionary });
        Ok(ArrayMapping::Dictionary { field: field.clone(), dictionary: values, indices, validity })
    }
}

} // verus!
