//! The writes of the instructions to the buffers.
use vstd::prelude::*;
use vstd::utf8::encode_utf8;
use crate::bytecode::{Bytecode, DictionaryIndex, DictionaryValue};
use crate::error::{fail, Error, ErrorKind};
use crate::event::Event;
use crate::interpreter::bit_set::BitSet;
use crate::interpreter::buffers::{
    count_at, count_items, dictionary_views, end_row, nested, push_to, Buffers, BuffersView,
    MAX_OFFSET_32, MAX_OFFSET_64,
};
use crate::interpreter::dates::{parse_naive_datetime, parse_utc_datetime};
use crate::structure::{null_views, FieldDefinition, NullDefinition, NullDefinitionView, Structure};
use crate::text::{find_name, string_views};

verus! {

/// Whether the exec outcome of a write is the expected one.
pub open spec fn is_written(res: Result<(), Error>, buffers: BuffersView, expected: Option<BuffersView>) -> bool {
    match expected {
        Some(view) => res is Ok && buffers == view,
        None => res is Err,
    }
}

/// How closing the fields of a struct unfolds.
pub proof fn lemma_fields_closed_step(
    buffers: BuffersView,
    nulls: Seq<NullDefinitionView>,
    seen: BitSet,
    fields: Seq<(Seq<char>, FieldDefinition)>,
    k: nat,
)
    ensures
        buffers.with_fields_closed(nulls, seen, fields, 0) == Some(buffers),
        k < fields.len() ==> buffers.with_fields_closed(nulls, seen, fields, k + 1) == (
        match buffers.with_fields_closed(nulls, seen, fields, k) {
            Some(before) => before.with_field_closed(nulls, seen, fields[k as int].1),
            None => None,
        }),
{
    reveal(BuffersView::with_fields_closed);
    assert((k + 1 - 1) as nat == k);
}

/// Once a field cannot be closed, no longer list of fields can.
pub proof fn lemma_fields_closed_fail(
    buffers: BuffersView,
    nulls: Seq<NullDefinitionView>,
    seen: BitSet,
    fields: Seq<(Seq<char>, FieldDefinition)>,
    k: nat,
    n: nat,
)
    requires
        k <= n <= fields.len(),
        buffers.with_fields_closed(nulls, seen, fields, k) is None,
    ensures
        buffers.with_fields_closed(nulls, seen, fields, n) is None,
    decreases n,
{
    reveal(BuffersView::with_fields_closed);
    if k < n {
        lemma_fields_closed_fail(buffers, nulls, seen, fields, k, (n - 1) as nat);
    }
}

/// Appends the bytes of a string to a buffer.
fn push_bytes(buffer: &mut Vec<u8>, text: &str)
    ensures
        final(buffer)@ == old(buffer)@ + encode_utf8(text@),
{
    let bytes = text.as_bytes();
    let n: usize = bytes.len();
    let mut i: usize = 0;
    while i < n
        invariant
            n == bytes@.len(),
            i <= n,
            bytes@ == encode_utf8(text@),
            buffer@ == old(buffer)@ + bytes@.subrange(0, i as int),
        decreases n - i,
    {
        buffer.push(bytes[i]);
        assert(bytes@.subrange(0, i + 1) =~= bytes@.subrange(0, i as int).push(bytes@[i as int]));
        i = i + 1;
    }
    assert(bytes@.subrange(0, n as int) =~= bytes@);
}

impl Buffers {
    /// Ends the row of a list, or counts one more item of it.
    pub fn list_step(&mut self, wide: bool, offsets: usize, ended: bool) -> (res: Result<(), Error>)
        ensures
            is_written(res, final(self)@, old(self)@.with_list_step(wide, offsets, ended)),
    {
        if wide {
            if ended {
                end_row(&mut self.u64_offsets, offsets)
            } else {
                count_items(&mut self.u64_offsets, offsets, 1, MAX_OFFSET_64)
            }
        } else {
            if ended {
                end_row(&mut self.u32_offsets, offsets)
            } else {
                count_items(&mut self.u32_offsets, offsets, 1, MAX_OFFSET_32)
            }
        }
    }

    /// Marks the field at `field_idx` as seen in the current record.
    pub fn mark_seen(&mut self, seen: usize, field_idx: usize) -> (res: Result<(), Error>)
        ensures
            is_written(res, final(self)@, old(self)@.with_seen(seen, field_idx)),
    {
        if seen >= self.seen.len() || field_idx >= 128 {
            return fail(ErrorKind::Interpret, "the program marks a field that does not exist");
        }
        let mut set = self.seen[seen];
        set.insert(field_idx);
        self.seen[seen] = set;
        Ok(())
    }

    /// Starts a record: no field is seen yet.
    pub fn clear_seen(&mut self, seen: usize) -> (res: Result<(), Error>)
        ensures
            is_written(res, final(self)@, old(self)@.with_cleared_seen(seen)),
    {
        if seen >= self.seen.len() {
            return fail(ErrorKind::Interpret, "the program clears a set that does not exist");
        }
        self.seen[seen] = BitSet::new();
        Ok(())
    }

    /// Gives a field that was not seen one absent value.
    pub fn close_field(&mut self, nulls: &Vec<NullDefinition>, seen: BitSet, definition: &FieldDefinition) -> (res:
        Result<(), Error>)
        ensures
            is_written(
                res,
                final(self)@,
                old(self)@.with_field_closed(null_views(nulls@), seen, *definition),
            ),
    {
        if seen.contains(definition.index) {
            return Ok(());
        }
        match definition.null_definition {
            Some(idx) => {
                if idx >= nulls.len() {
                    return fail(
                        ErrorKind::Interpret,
                        "the program uses a null definition that does not exist",
                    );
                }
                self.apply_null(&nulls[idx])
            },
            None => fail(ErrorKind::Interpret, "a field that cannot be null is missing"),
        }
    }

    /// Ends a record of the struct `struct_idx`: each of its fields that
    /// was not seen gets one absent value.
    pub fn close_struct(&mut self, structure: &Structure, struct_idx: usize, seen: usize) -> (res:
        Result<(), Error>)
        ensures
            is_written(
                res,
                final(self)@,
                old(self)@.with_struct_closed(structure@, struct_idx, seen),
            ),
    {
        if struct_idx >= structure.structs.len() || seen >= self.seen.len() {
            return fail(ErrorKind::Interpret, "the program ends a struct that does not exist");
        }
        let definition = &structure.structs[struct_idx];
        let set = self.seen[seen];
        let ghost fields = structure@.structs[struct_idx as int].fields;
        let ghost nulls = structure@.nulls;
        assert(structure@.structs[struct_idx as int] == definition@);
        let n: usize = definition.fields.len();
        let mut k: usize = 0;
        proof {
            lemma_fields_closed_step(old(self)@, nulls, set, fields, 0);
        }
        while k < n
            invariant
                n == definition.fields@.len(),
                n == fields.len(),
                k <= n,
                fields == definition@.fields,
                nulls == null_views(structure.nulls@),
                nulls == structure@.nulls,
                struct_idx < structure@.structs.len(),
                fields == structure@.structs[struct_idx as int].fields,
                seen < old(self)@.seen.len(),
                set == old(self)@.seen[seen as int],
                old(self)@.with_fields_closed(nulls, set, fields, k as nat) == Some(self@),
            decreases n - k,
        {
            proof {
                lemma_fields_closed_step(old(self)@, nulls, set, fields, k as nat);
            }
            assert(fields[k as int].1 == definition.fields@[k as int].1);
            match self.close_field(&structure.nulls, set, &definition.fields[k].1) {
                Ok(()) => {},
                Err(e) => {
                    proof {
                        lemma_fields_closed_fail(
                            old(self)@,
                            nulls,
                            set,
                            fields,
                            (k + 1) as nat,
                            n as nat,
                        );
                    }
                    return Err(e);
                },
            }
            k = k + 1;
        }
        Ok(())
    }

    /// Appends the value of a primitive event with the given instruction.
    pub fn push_primitive(&mut self, code: &Bytecode, event: &Event<'_>) -> (res: Result<(), Error>)
        ensures
            is_written(res, final(self)@, old(self)@.with_primitive(code@, event@)),
    {
        match (code, event) {
            (Bytecode::PushNull { idx }, Event::Null) => count_at(&mut self.u0, *idx),
            (Bytecode::PushBool { idx }, Event::Bool(v)) => push_to(&mut self.u1, *idx, *v),
            (Bytecode::PushU8 { idx }, Event::U8(v)) => push_to(&mut self.u8, *idx, *v),
            (Bytecode::PushI8 { idx }, Event::I8(v)) => push_to(&mut self.u8, *idx, *v as u8),
            (Bytecode::PushU16 { idx }, Event::U16(v)) => push_to(&mut self.u16, *idx, *v),
            (Bytecode::PushI16 { idx }, Event::I16(v)) => push_to(&mut self.u16, *idx, *v as u16),
            (Bytecode::PushU32 { idx }, Event::U32(v)) => push_to(&mut self.u32, *idx, *v),
            (Bytecode::PushI32 { idx }, Event::I32(v)) => push_to(&mut self.u32, *idx, *v as u32),
            (Bytecode::PushF32 { idx }, Event::F32(v)) => push_to(&mut self.u32, *idx, *v),
            (Bytecode::PushU64 { idx }, Event::U64(v)) => push_to(&mut self.u64, *idx, *v),
            (Bytecode::PushI64 { idx }, Event::I64(v)) => push_to(&mut self.u64, *idx, *v as u64),
            (Bytecode::PushF64 { idx }, Event::F64(v)) => push_to(&mut self.u64, *idx, *v),
            (Bytecode::PushDate64FromNaiveStr { idx }, Event::Str(text)) => {
                self.push_date(*idx, parse_naive_datetime(text))
            },
            (Bytecode::PushDate64FromNaiveStr { idx }, Event::OwnedStr(text)) => {
                self.push_date(*idx, parse_naive_datetime(text.as_str()))
            },
            (Bytecode::PushDate64FromUtcStr { idx }, Event::Str(text)) => {
                self.push_date(*idx, parse_utc_datetime(text))
            },
            (Bytecode::PushDate64FromUtcStr { idx }, Event::OwnedStr(text)) => {
                self.push_date(*idx, parse_utc_datetime(text.as_str()))
            },
            _ => fail(ErrorKind::Interpret, "the event does not match the instruction"),
        }
    }

    /// Appends a date that was read from text, as milliseconds since the
    /// epoch. Fails for text that was rejected.
    pub fn push_date(&mut self, idx: usize, millis: Option<i64>) -> (res: Result<(), Error>)
        ensures
            is_written(
                res,
                final(self)@,
                match millis {
                    Some(millis) => old(self)@.with_u64(idx, millis as u64),
                    None => None,
                },
            ),
    {
        match millis {
            Some(millis) => push_to(&mut self.u64, idx, millis as u64),
            None => fail(ErrorKind::Interpret, "the text is not a date"),
        }
    }

    /// Appends a string as one row.
    pub fn push_string(&mut self, wide: bool, buffer: usize, offsets: usize, text: &str) -> (res:
        Result<(), Error>)
        ensures
            is_written(res, final(self)@, old(self)@.with_string(wide, buffer, offsets, text@)),
    {
        if buffer >= self.u8.len() {
            return fail(ErrorKind::Interpret, "the program writes to a buffer that does not exist");
        }
        let before: usize = self.u8[buffer].len();
        push_bytes(&mut self.u8[buffer], text);
        let after: usize = self.u8[buffer].len();
        assert(nested(self.u8@) =~= nested(old(self).u8@).update(
            buffer as int,
            nested(old(self).u8@)[buffer as int] + encode_utf8(text@),
        ));
        let n: usize = after - before;
        if wide {
            match count_items(&mut self.u64_offsets, offsets, n, MAX_OFFSET_64) {
                Ok(()) => {},
                Err(e) => {
                    return Err(e);
                },
            }
            end_row(&mut self.u64_offsets, offsets)
        } else {
            match count_items(&mut self.u32_offsets, offsets, n, MAX_OFFSET_32) {
                Ok(()) => {},
                Err(e) => {
                    return Err(e);
                },
            }
            end_row(&mut self.u32_offsets, offsets)
        }
    }

    /// Appends an index to the index buffer of a dictionary.
    pub fn push_dictionary_index(&mut self, indices: &DictionaryIndex, index: usize) -> (res: Result<
        (),
        Error,
    >)
        ensures
            is_written(res, final(self)@, old(self)@.with_dictionary_index(*indices, index as int)),
    {
        let wide: u64 = index as u64;
        match indices {
            DictionaryIndex::U8(idx) => {
                if wide > 0xff {
                    return fail(ErrorKind::Interpret, "dictionary overflow");
                }
                push_to(&mut self.u8, *idx, wide as u8)
            },
            DictionaryIndex::I8(idx) => {
                if wide > 0x7f {
                    return fail(ErrorKind::Interpret, "dictionary overflow");
                }
                push_to(&mut self.u8, *idx, wide as u8)
            },
            DictionaryIndex::U16(idx) => {
                if wide > 0xffff {
                    return fail(ErrorKind::Interpret, "dictionary overflow");
                }
                push_to(&mut self.u16, *idx, wide as u16)
            },
            DictionaryIndex::I16(idx) => {
                if wide > 0x7fff {
                    return fail(ErrorKind::Interpret, "dictionary overflow");
                }
                push_to(&mut self.u16, *idx, wide as u16)
            },
            DictionaryIndex::U32(idx) => {
                if wide > 0xffff_ffff {
                    return fail(ErrorKind::Interpret, "dictionary overflow");
                }
                push_to(&mut self.u32, *idx, wide as u32)
            },
            DictionaryIndex::I32(idx) => {
                if wide > 0x7fff_ffff {
                    return fail(ErrorKind::Interpret, "dictionary overflow");
                }
                push_to(&mut self.u32, *idx, wide as u32)
            },
            DictionaryIndex::U64(idx) => push_to(&mut self.u64, *idx, wide),
            DictionaryIndex::I64(idx) => {
                if wide > 0x7fff_ffff_ffff_ffff {
                    return fail(ErrorKind::Interpret, "dictionary overflow");
                }
                push_to(&mut self.u64, *idx, wide)
            },
        }
    }

    /// Appends a string to a column that is laid out as a dictionary.
    pub fn push_dictionary_value(
        &mut self,
        values: &DictionaryValue,
        indices: &DictionaryIndex,
        dictionary: usize,
        text: &str,
    ) -> (res: Result<(), Error>)
        ensures
            is_written(
                res,
                final(self)@,
                old(self)@.with_dictionary_value(*values, *indices, dictionary, text@),
            ),
    {
        if dictionary >= self.dictionaries.len() {
            return fail(ErrorKind::Interpret, "the program uses a dictionary that does not exist");
        }
        assert(dictionary_views(self.dictionaries@)[dictionary as int] == string_views(
            self.dictionaries@[dictionary as int]@,
        ));
        match find_name(&self.dictionaries[dictionary], text) {
            Some(index) => self.push_dictionary_index(indices, index),
            None => {
                let index: usize = self.dictionaries[dictionary].len();
                self.dictionaries[dictionary].push(text.to_owned());
                assert(dictionary_views(self.dictionaries@) =~= dictionary_views(
                    old(self).dictionaries@,
                ).update(
                    dictionary as int,
                    dictionary_views(old(self).dictionaries@)[dictionary as int].push(text@),
                )) by {
                    assert(string_views(self.dictionaries@[dictionary as int]@) =~= string_views(
                        old(self).dictionaries@[dictionary as int]@,
                    ).push(text@));
                }
                let stored = match values {
                    DictionaryValue::Utf8 { buffer, offsets } => self.push_string(
                        false,
                        *buffer,
                        *offsets,
                        text,
                    ),
                    DictionaryValue::LargeUtf8 { buffer, offsets } => self.push_string(
                        true,
                        *buffer,
                        *offsets,
                        text,
                    ),
                };
                match stored {
                    Ok(()) => self.push_dictionary_index(indices, index),
                    Err(e) => Err(e),
                }
            },
        }
    }
}

} // verus!
