//! The tables that accompany the bytecode of a program: the definitions of
//! its lists, maps, structs, unions and null sets, the counts of the buffers
//! it writes to, and the mapping from output columns to those buffers.
use vstd::prelude::*;
use vstd::relations::{sorted_by, total_ordering};
use vstd::seq_lib::lemma_sorted_unique;
use crate::bytecode::{
    program_view, Bytecode, BytecodeView, DictionaryIndex, DictionaryValue, Instruction,
    InstructionView,
};
use crate::error::{fail, fails_with, Error, ErrorKind};
use crate::schema::{FieldView, GenericField};
use crate::text::str_eq;

verus! {

/// The pools of buffers, one per cell width and purpose.
#[derive(Debug, Clone, Copy, PartialEq, Eq, Structural)]
pub enum BufferKind {
    /// Counters of values without bits.
    U0,
    /// Bitmaps.
    U1,
    U8,
    U16,
    U32,
    U64,
    /// Offsets of 32 bits.
    U32Offsets,
    /// Offsets of 64 bits.
    U64Offsets,
    /// Maps from strings to indices.
    Dictionaries,
    /// Bit sets of the struct fields seen in a record.
    Seen,
}

/// How many buffers of each kind a program writes to.
#[derive(Debug, Clone, Copy, PartialEq, Eq, Structural)]
pub struct BufferCounts {
    pub num_u0: usize,
    pub num_u1: usize,
    pub num_u8: usize,
    pub num_u16: usize,
    pub num_u32: usize,
    pub num_u64: usize,
    pub num_u32_offsets: usize,
    pub num_u64_offsets: usize,
    pub num_dictionaries: usize,
    pub num_seen: usize,
}

impl BufferCounts {
    /// The number of buffers of the given kind.
    pub open spec fn count(self, kind: BufferKind) -> usize {
        match kind {
            BufferKind::U0 => self.num_u0,
            BufferKind::U1 => self.num_u1,
            BufferKind::U8 => self.num_u8,
            BufferKind::U16 => self.num_u16,
            BufferKind::U32 => self.num_u32,
            BufferKind::U64 => self.num_u64,
            BufferKind::U32Offsets => self.num_u32_offsets,
            BufferKind::U64Offsets => self.num_u64_offsets,
            BufferKind::Dictionaries => self.num_dictionaries,
            BufferKind::Seen => self.num_seen,
        }
    }

    /// The counts with the given number of buffers of the given kind.
    pub open spec fn with_count(self, kind: BufferKind, n: usize) -> BufferCounts {
        match kind {
            BufferKind::U0 => BufferCounts { num_u0: n, ..self },
            BufferKind::U1 => BufferCounts { num_u1: n, ..self },
            BufferKind::U8 => BufferCounts { num_u8: n, ..self },
            BufferKind::U16 => BufferCounts { num_u16: n, ..self },
            BufferKind::U32 => BufferCounts { num_u32: n, ..self },
            BufferKind::U64 => BufferCounts { num_u64: n, ..self },
            BufferKind::U32Offsets => BufferCounts { num_u32_offsets: n, ..self },
            BufferKind::U64Offsets => BufferCounts { num_u64_offsets: n, ..self },
            BufferKind::Dictionaries => BufferCounts { num_dictionaries: n, ..self },
            BufferKind::Seen => BufferCounts { num_seen: n, ..self },
        }
    }

    /// The index of the next buffer of the given kind and the counts after
    /// it is taken, unless the count cannot grow.
    pub open spec fn allocated(self, kind: BufferKind) -> Option<(BufferCounts, usize)> {
        if self.count(kind) == usize::MAX {
            None
        } else {
            Some((self.with_count(kind, (self.count(kind) + 1) as usize), self.count(kind)))
        }
    }

    /// No buffers of any kind.
    pub open spec fn empty() -> BufferCounts {
        BufferCounts {
            num_u0: 0,
            num_u1: 0,
            num_u8: 0,
            num_u16: 0,
            num_u32: 0,
            num_u64: 0,
            num_u32_offsets: 0,
            num_u64_offsets: 0,
            num_dictionaries: 0,
            num_seen: 0,
        }
    }

    /// No buffers of any kind.
    pub fn new() -> (res: BufferCounts)
        ensures
            res == BufferCounts::empty(),
    {
        BufferCounts {
            num_u0: 0,
            num_u1: 0,
            num_u8: 0,
            num_u16: 0,
            num_u32: 0,
            num_u64: 0,
            num_u32_offsets: 0,
            num_u64_offsets: 0,
            num_dictionaries: 0,
            num_seen: 0,
        }
    }

    /// The number of buffers of the given kind.
    pub fn get(&self, kind: BufferKind) -> (res: usize)
        ensures
            res == self.count(kind),
    {
        match kind {
            BufferKind::U0 => self.num_u0,
            BufferKind::U1 => self.num_u1,
            BufferKind::U8 => self.num_u8,
            BufferKind::U16 => self.num_u16,
            BufferKind::U32 => self.num_u32,
            BufferKind::U64 => self.num_u64,
            BufferKind::U32Offsets => self.num_u32_offsets,
            BufferKind::U64Offsets => self.num_u64_offsets,
            BufferKind::Dictionaries => self.num_dictionaries,
            BufferKind::Seen => self.num_seen,
        }
    }

    /// Takes the next buffer of the given kind and returns its index. Fails,
    /// leaving the counts as they are, when the count cannot grow.
    pub fn allocate(&mut self, kind: BufferKind) -> (res: Result<usize, Error>)
        ensures
            match old(self).allocated(kind) {
                Some((counts, idx)) => *final(self) == counts && res == Ok::<usize, Error>(idx),
                None => *final(self) == *old(self) && fails_with(res, ErrorKind::Compile),
            },
    {
        let idx: usize = self.get(kind);
        if idx == usize::MAX {
            return fail(ErrorKind::Compile, "too many buffers");
        }
        let n: usize = idx + 1;
        match kind {
            BufferKind::U0 => self.num_u0 = n,
            BufferKind::U1 => self.num_u1 = n,
            BufferKind::U8 => self.num_u8 = n,
            BufferKind::U16 => self.num_u16 = n,
            BufferKind::U32 => self.num_u32 = n,
            BufferKind::U64 => self.num_u64 = n,
            BufferKind::U32Offsets => self.num_u32_offsets = n,
            BufferKind::U64Offsets => self.num_u64_offsets = n,
            BufferKind::Dictionaries => self.num_dictionaries = n,
            BufferKind::Seen => self.num_seen = n,
        }
        Ok(idx)
    }
}

/// A list: where an item starts, where control goes after the list, and the
/// buffer of its offsets.
#[derive(Debug, Clone, Copy, PartialEq, Eq, Structural)]
pub struct ListDefinition {
    /// The jump target if another item is encountered.
    pub item: usize,
    /// The jump target if the list is closed.
    pub return_pc: usize,
    pub offset: usize,
}

/// A map: where a key starts and where control goes after the map.
#[derive(Debug, Clone, Copy, PartialEq, Eq, Structural)]
pub struct MapDefinition {
    /// The jump target if another entry is encountered.
    pub key: usize,
    /// The jump target if the map is closed.
    pub return_pc: usize,
}

/// One field of a struct.
#[derive(Debug, Clone, Copy, PartialEq, Eq, Structural)]
pub struct FieldDefinition {
    /// The position of the field in its struct.
    pub index: usize,
    /// The jump target for the value of the field.
    pub jump: usize,
    /// The null definition to apply when the field is absent.
    pub null_definition: Option<usize>,
}

/// A struct: its fields by name, in the order in which they were first
/// inserted, and its jump targets.
#[derive(Debug, Clone, PartialEq)]
pub struct StructDefinition {
    /// The fields of the struct; no name occurs twice.
    pub fields: Vec<(String, FieldDefinition)>,
    /// The jump target for an item.
    pub item: usize,
    /// The jump target if the struct is closed.
    pub return_pc: usize,
}

/// The mathematical value of a [`StructDefinition`].
pub struct StructDefinitionView {
    pub fields: Seq<(Seq<char>, FieldDefinition)>,
    pub item: usize,
    pub return_pc: usize,
}

/// Whether `k` is the first position in `fields` with the given name.
pub open spec fn is_position_of(
    fields: Seq<(Seq<char>, FieldDefinition)>,
    name: Seq<char>,
    k: int,
) -> bool {
    &&& 0 <= k < fields.len()
    &&& fields[k].0 == name
    &&& forall|j: int| 0 <= j < k ==> (#[trigger] fields[j]).0 != name
}

/// The first position in `fields` with the given name.
pub open spec fn position_of(fields: Seq<(Seq<char>, FieldDefinition)>, name: Seq<char>) -> Option<
    int,
> {
    if exists|k: int| is_position_of(fields, name, k) {
        Some(choose|k: int| is_position_of(fields, name, k))
    } else {
        None
    }
}

/// The first position with a name is unique.
pub proof fn lemma_position_of(fields: Seq<(Seq<char>, FieldDefinition)>, name: Seq<char>, k: int)
    requires
        is_position_of(fields, name, k),
    ensures
        position_of(fields, name) == Some(k),
{
    let c = choose|c: int| is_position_of(fields, name, c);
    assert(is_position_of(fields, name, c));
    if c < k {
        assert(fields[c].0 != name);
    }
    if k < c {
        assert(fields[k].0 != name);
    }
}

/// A name that no field has, has no position.
pub proof fn lemma_position_of_absent(fields: Seq<(Seq<char>, FieldDefinition)>, name: Seq<char>)
    requires
        forall|j: int| 0 <= j < fields.len() ==> (#[trigger] fields[j]).0 != name,
    ensures
        position_of(fields, name) is None,
{
    if exists|k: int| is_position_of(fields, name, k) {
        let c = choose|c: int| is_position_of(fields, name, c);
        assert(fields[c].0 != name);
    }
}

impl StructDefinitionView {
    /// A struct without fields and with jump targets 0.
    pub open spec fn empty() -> StructDefinitionView {
        StructDefinitionView { fields: Seq::empty(), item: 0, return_pc: 0 }
    }

    /// The definition of the field with the given name.
    pub open spec fn get(self, name: Seq<char>) -> Option<FieldDefinition> {
        match position_of(self.fields, name) {
            Some(k) => Some(self.fields[k].1),
            None => None,
        }
    }

    /// The struct after the field is inserted: in place of the field of
    /// that name if there is one, at the end otherwise.
    pub open spec fn insert(self, name: Seq<char>, definition: FieldDefinition) -> StructDefinitionView {
        match position_of(self.fields, name) {
            Some(k) => StructDefinitionView {
                fields: self.fields.update(k, (name, definition)),
                ..self
            },
            None => StructDefinitionView { fields: self.fields.push((name, definition)), ..self },
        }
    }

    /// The struct after the null definition of the named field is set, if
    /// there is such a field.
    pub open spec fn with_null_definition(
        self,
        name: Seq<char>,
        null_definition: Option<usize>,
    ) -> Option<StructDefinitionView> {
        match position_of(self.fields, name) {
            Some(k) => Some(
                StructDefinitionView {
                    fields: self.fields.update(
                        k,
                        (name, FieldDefinition { null_definition, ..self.fields[k].1 }),
                    ),
                    ..self
                },
            ),
            None => None,
        }
    }
}

impl View for StructDefinition {
    type V = StructDefinitionView;

    open spec fn view(&self) -> StructDefinitionView {
        StructDefinitionView {
            fields: Seq::new(
                self.fields@.len(),
                |i: int| (self.fields@[i].0@, self.fields@[i].1),
            ),
            item: self.item,
            return_pc: self.return_pc,
        }
    }
}

impl StructDefinition {
    /// A struct without fields and with jump targets 0.
    pub fn new() -> (res: StructDefinition)
        ensures
            res@ == StructDefinitionView::empty(),
    {
        let res = StructDefinition { fields: Vec::new(), item: 0, return_pc: 0 };
        assert(res@.fields =~= Seq::empty());
        res
    }

    /// The first position of the field with the given name.
    pub fn position(&self, name: &str) -> (res: Option<usize>)
        ensures
            match res {
                Some(i) => position_of(self@.fields, name@) == Some(i as int) && i
                    < self.fields@.len(),
                None => position_of(self@.fields, name@) is None,
            },
    {
        let n: usize = self.fields.len();
        let mut i: usize = 0;
        while i < n
            invariant
                n == self.fields@.len(),
                i <= n,
                forall|j: int| 0 <= j < i ==> (#[trigger] self@.fields[j]).0 != name@,
            decreases n - i,
        {
            if str_eq(self.fields[i].0.as_str(), name) {
                proof {
                    lemma_position_of(self@.fields, name@, i as int);
                }
                return Some(i);
            }
            i = i + 1;
        }
        proof {
            lemma_position_of_absent(self@.fields, name@);
        }
        None
    }

    /// The definition of the field with the given name.
    pub fn get(&self, name: &str) -> (res: Option<FieldDefinition>)
        ensures
            res == self@.get(name@),
    {
        match self.position(name) {
            Some(k) => Some(self.fields[k].1),
            None => None,
        }
    }

    /// Inserts a field: in place of the field of that name if there is one,
    /// at the end otherwise.
    pub fn insert(&mut self, name: String, definition: FieldDefinition)
        ensures
            final(self)@ == old(self)@.insert(name@, definition),
    {
        match self.position(name.as_str()) {
            Some(k) => {
                self.fields[k] = (name, definition);
                assert(self@.fields =~= old(self)@.fields.update(k as int, (name@, definition)));
            },
            None => {
                self.fields.push((name, definition));
                assert(self@.fields =~= old(self)@.fields.push((name@, definition)));
            },
        }
    }

    /// Sets the null definition of the named field. Fails, leaving the
    /// struct as it is, if there is no such field.
    pub fn set_null_definition(&mut self, name: &String, null_definition: Option<usize>) -> (res:
        Result<(), Error>)
        ensures
            match old(self)@.with_null_definition(name@, null_definition) {
                Some(v) => res is Ok && final(self)@ == v,
                None => final(self)@ == old(self)@ && fails_with(res, ErrorKind::Compile),
            },
    {
        match self.position(name.as_str()) {
            Some(k) => {
                let definition = self.fields[k].1;
                assert(is_position_of(old(self)@.fields, name@, k as int));
                self.fields[k].1 = FieldDefinition { null_definition, ..definition };
                assert(self@.fields =~= old(self)@.fields.update(
                    k as int,
                    (name@, FieldDefinition { null_definition, ..definition }),
                ));
                Ok(())
            },
            None => fail(ErrorKind::Compile, "compile error: could not read struct field"),
        }
    }
}

/// A union: the entry point of each variant, by type code.
#[derive(Debug, Clone, PartialEq)]
pub struct UnionDefinition {
    pub fields: Vec<usize>,
}

impl UnionDefinition {
    /// A union without variants.
    pub fn new() -> (res: UnionDefinition)
        ensures
            res.fields@ == Seq::<usize>::empty(),
    {
        UnionDefinition { fields: Vec::new() }
    }
}

/// Maps a column to the buffers that hold it.
#[derive(Debug, PartialEq)]
pub enum ArrayMapping {
    Null { field: GenericField, buffer: usize, validity: Option<usize> },
    Bool { field: GenericField, buffer: usize, validity: Option<usize> },
    U8 { field: GenericField, buffer: usize, validity: Option<usize> },
    U16 { field: GenericField, buffer: usize, validity: Option<usize> },
    U32 { field: GenericField, buffer: usize, validity: Option<usize> },
    U64 { field: GenericField, buffer: usize, validity: Option<usize> },
    I8 { field: GenericField, buffer: usize, validity: Option<usize> },
    I16 { field: GenericField, buffer: usize, validity: Option<usize> },
    I32 { field: GenericField, buffer: usize, validity: Option<usize> },
    I64 { field: GenericField, buffer: usize, validity: Option<usize> },
    F16 { field: GenericField, buffer: usize, validity: Option<usize> },
    F32 { field: GenericField, buffer: usize, validity: Option<usize> },
    F64 { field: GenericField, buffer: usize, validity: Option<usize> },
    Utf8 { field: GenericField, buffer: usize, offsets: usize, validity: Option<usize> },
    LargeUtf8 { field: GenericField, buffer: usize, offsets: usize, validity: Option<usize> },
    Date64 { field: GenericField, buffer: usize, validity: Option<usize> },
    List { field: GenericField, item: Box<ArrayMapping>, offsets: usize, validity: Option<usize> },
    Dictionary {
        field: GenericField,
        dictionary: DictionaryValue,
        indices: DictionaryIndex,
        validity: Option<usize>,
    },
    LargeList {
        field: GenericField,
        item: Box<ArrayMapping>,
        offsets: usize,
        validity: Option<usize>,
    },
    Struct { field: GenericField, fields: Vec<ArrayMapping>, validity: Option<usize> },
    Union { field: GenericField, fields: Vec<ArrayMapping>, types: usize },
    KeyValueMap {
        field: GenericField,
        offsets: usize,
        validity: Option<usize>,
        entries: Box<ArrayMapping>,
    },
}

/// The mathematical value of an [`ArrayMapping`].
pub enum ArrayMappingView {
    Null { field: FieldView, buffer: usize, validity: Option<usize> },
    Bool { field: FieldView, buffer: usize, validity: Option<usize> },
    U8 { field: FieldView, buffer: usize, validity: Option<usize> },
    U16 { field: FieldView, buffer: usize, validity: Option<usize> },
    U32 { field: FieldView, buffer: usize, validity: Option<usize> },
    U64 { field: FieldView, buffer: usize, validity: Option<usize> },
    I8 { field: FieldView, buffer: usize, validity: Option<usize> },
    I16 { field: FieldView, buffer: usize, validity: Option<usize> },
    I32 { field: FieldView, buffer: usize, validity: Option<usize> },
    I64 { field: FieldView, buffer: usize, validity: Option<usize> },
    F16 { field: FieldView, buffer: usize, validity: Option<usize> },
    F32 { field: FieldView, buffer: usize, validity: Option<usize> },
    F64 { field: FieldView, buffer: usize, validity: Option<usize> },
    Utf8 { field: FieldView, buffer: usize, offsets: usize, validity: Option<usize> },
    LargeUtf8 { field: FieldView, buffer: usize, offsets: usize, validity: Option<usize> },
    Date64 { field: FieldView, buffer: usize, validity: Option<usize> },
    List { field: FieldView, item: Box<ArrayMappingView>, offsets: usize, validity: Option<usize> },
    Dictionary {
        field: FieldView,
        dictionary: DictionaryValue,
        indices: DictionaryIndex,
        validity: Option<usize>,
    },
    LargeList {
        field: FieldView,
        item: Box<ArrayMappingView>,
        offsets: usize,
        validity: Option<usize>,
    },
    Struct { field: FieldView, fields: Seq<ArrayMappingView>, validity: Option<usize> },
    Union { field: FieldView, fields: Seq<ArrayMappingView>, types: usize },
    KeyValueMap {
        field: FieldView,
        offsets: usize,
        validity: Option<usize>,
        entries: Box<ArrayMappingView>,
    },
}

/// The views of a list of mappings, in order.
pub open spec fn mapping_views(mappings: Seq<ArrayMapping>) -> Seq<ArrayMappingView>
    decreases mappings, 0nat,
{
    Seq::new(
        mappings.len(),
        |i: int|
            if 0 <= i < mappings.len() {
                mapping_view(mappings[i])
            } else {
                arbitrary()
            },
    )
}

/// The view of a mapping: its buffers, with its field and the mappings
/// nested in it taken by their views.
pub open spec fn mapping_view(mapping: ArrayMapping) -> ArrayMappingView
    decreases mapping, 1nat,
{
    match mapping {
        ArrayMapping::Null { field, buffer, validity } => ArrayMappingView::Null {
            field: field@,
            buffer,
            validity,
        },
        ArrayMapping::Bool { field, buffer, validity } => ArrayMappingView::Bool {
            field: field@,
            buffer,
            validity,
        },
        ArrayMapping::U8 { field, buffer, validity } => ArrayMappingView::U8 {
            field: field@,
            buffer,
            validity,
        },
        ArrayMapping::U16 { field, buffer, validity } => ArrayMappingView::U16 {
            field: field@,
            buffer,
            validity,
        },
        ArrayMapping::U32 { field, buffer, validity } => ArrayMappingView::U32 {
            field: field@,
            buffer,
            validity,
        },
        ArrayMapping::U64 { field, buffer, validity } => ArrayMappingView::U64 {
            field: field@,
            buffer,
            validity,
        },
        ArrayMapping::I8 { field, buffer, validity } => ArrayMappingView::I8 {
            field: field@,
            buffer,
            validity,
        },
        ArrayMapping::I16 { field, buffer, validity } => ArrayMappingView::I16 {
            field: field@,
            buffer,
            validity,
        },
        ArrayMapping::I32 { field, buffer, validity } => ArrayMappingView::I32 {
            field: field@,
            buffer,
            validity,
        },
        ArrayMapping::I64 { field, buffer, validity } => ArrayMappingView::I64 {
            field: field@,
            buffer,
            validity,
        },
        ArrayMapping::F16 { field, buffer, validity } => ArrayMappingView::F16 {
            field: field@,
            buffer,
            validity,
        },
        ArrayMapping::F32 { field, buffer, validity } => ArrayMappingView::F32 {
            field: field@,
            buffer,
            validity,
        },
        ArrayMapping::F64 { field, buffer, validity } => ArrayMappingView::F64 {
            field: field@,
            buffer,
            validity,
        },
        ArrayMapping::Utf8 { field, buffer, offsets, validity } => ArrayMappingView::Utf8 {
            field: field@,
            buffer,
            offsets,
            validity,
        },
        ArrayMapping::LargeUtf8 { field, buffer, offsets, validity } => {
            ArrayMappingView::LargeUtf8 { field: field@, buffer, offsets, validity }
        },
        ArrayMapping::Date64 { field, buffer, validity } => ArrayMappingView::Date64 {
            field: field@,
            buffer,
            validity,
        },
        ArrayMapping::List { field, item, offsets, validity } => ArrayMappingView::List {
            field: field@,
            item: Box::new(mapping_view(*item)),
            offsets,
            validity,
        },
        ArrayMapping::Dictionary { field, dictionary, indices, validity } => {
            ArrayMappingView::Dictionary { field: field@, dictionary, indices, validity }
        },
        ArrayMapping::LargeList { field, item, offsets, validity } => {
            ArrayMappingView::LargeList {
                field: field@,
                item: Box::new(mapping_view(*item)),
                offsets,
                validity,
            }
        },
        ArrayMapping::Struct { field, fields, validity } => ArrayMappingView::Struct {
            field: field@,
            fields: mapping_views(fields@),
            validity,
        },
        ArrayMapping::Union { field, fields, types } => ArrayMappingView::Union {
            field: field@,
            fields: mapping_views(fields@),
            types,
        },
        ArrayMapping::KeyValueMap { field, offsets, validity, entries } => {
            ArrayMappingView::KeyValueMap {
                field: field@,
                offsets,
                validity,
                entries: Box::new(mapping_view(*entries)),
            }
        },
    }
}

impl View for ArrayMapping {
    type V = ArrayMappingView;

    open spec fn view(&self) -> ArrayMappingView {
        mapping_view(*self)
    }
}

impl ArrayMappingView {
    /// The field that the mapping was made for.
    pub open spec fn field(self) -> FieldView {
        match self {
            ArrayMappingView::Null { field, .. } => field,
            ArrayMappingView::Bool { field, .. } => field,
            ArrayMappingView::U8 { field, .. } => field,
            ArrayMappingView::U16 { field, .. } => field,
            ArrayMappingView::U32 { field, .. } => field,
            ArrayMappingView::U64 { field, .. } => field,
            ArrayMappingView::I8 { field, .. } => field,
            ArrayMappingView::I16 { field, .. } => field,
            ArrayMappingView::I32 { field, .. } => field,
            ArrayMappingView::I64 { field, .. } => field,
            ArrayMappingView::F16 { field, .. } => field,
            ArrayMappingView::F32 { field, .. } => field,
            ArrayMappingView::F64 { field, .. } => field,
            ArrayMappingView::Utf8 { field, .. } => field,
            ArrayMappingView::LargeUtf8 { field, .. } => field,
            ArrayMappingView::Date64 { field, .. } => field,
            ArrayMappingView::List { field, .. } => field,
            ArrayMappingView::Dictionary { field, .. } => field,
            ArrayMappingView::LargeList { field, .. } => field,
            ArrayMappingView::Struct { field, .. } => field,
            ArrayMappingView::Union { field, .. } => field,
            ArrayMappingView::KeyValueMap { field, .. } => field,
        }
    }
}

impl ArrayMapping {
    /// The field that the mapping was made for.
    pub fn field(&self) -> (res: &GenericField)
        ensures
            res@ == self@.field(),
    {
        match self {
            ArrayMapping::Null { field, .. } => field,
            ArrayMapping::Bool { field, .. } => field,
            ArrayMapping::U8 { field, .. } => field,
            ArrayMapping::U16 { field, .. } => field,
            ArrayMapping::U32 { field, .. } => field,
            ArrayMapping::U64 { field, .. } => field,
            ArrayMapping::I8 { field, .. } => field,
            ArrayMapping::I16 { field, .. } => field,
            ArrayMapping::I32 { field, .. } => field,
            ArrayMapping::I64 { field, .. } => field,
            ArrayMapping::F16 { field, .. } => field,
            ArrayMapping::F32 { field, .. } => field,
            ArrayMapping::F64 { field, .. } => field,
            ArrayMapping::Utf8 { field, .. } => field,
            ArrayMapping::LargeUtf8 { field, .. } => field,
            ArrayMapping::Date64 { field, .. } => field,
            ArrayMapping::List { field, .. } => field,
            ArrayMapping::Dictionary { field, .. } => field,
            ArrayMapping::LargeList { field, .. } => field,
            ArrayMapping::Struct { field, .. } => field,
            ArrayMapping::Union { field, .. } => field,
            ArrayMapping::KeyValueMap { field, .. } => field,
        }
    }
}

/// The buffers to advance by one slot when a nullable field is absent.
#[derive(Debug, Clone, PartialEq)]
pub struct NullDefinition {
    pub u0: Vec<usize>,
    pub u1: Vec<usize>,
    pub u8: Vec<usize>,
    pub u16: Vec<usize>,
    pub u32: Vec<usize>,
    pub u64: Vec<usize>,
    pub u32_offsets: Vec<usize>,
    pub u64_offsets: Vec<usize>,
}

/// The mathematical value of a [`NullDefinition`].
pub struct NullDefinitionView {
    pub u0: Seq<usize>,
    pub u1: Seq<usize>,
    pub u8: Seq<usize>,
    pub u16: Seq<usize>,
    pub u32: Seq<usize>,
    pub u64: Seq<usize>,
    pub u32_offsets: Seq<usize>,
    pub u64_offsets: Seq<usize>,
}

/// The order of buffer indices.
pub open spec fn index_leq() -> spec_fn(usize, usize) -> bool {
    |a: usize, b: usize| a <= b
}

/// The indices in ascending order.
pub open spec fn ascending(indices: Seq<usize>) -> Seq<usize> {
    indices.sort_by(index_leq())
}

impl NullDefinitionView {
    /// No buffers.
    pub open spec fn empty() -> NullDefinitionView {
        NullDefinitionView {
            u0: Seq::empty(),
            u1: Seq::empty(),
            u8: Seq::empty(),
            u16: Seq::empty(),
            u32: Seq::empty(),
            u64: Seq::empty(),
            u32_offsets: Seq::empty(),
            u64_offsets: Seq::empty(),
        }
    }

    /// The indices of the given kind. Dictionaries and seen sets are never
    /// listed.
    pub open spec fn indices(self, kind: BufferKind) -> Seq<usize> {
        match kind {
            BufferKind::U0 => self.u0,
            BufferKind::U1 => self.u1,
            BufferKind::U8 => self.u8,
            BufferKind::U16 => self.u16,
            BufferKind::U32 => self.u32,
            BufferKind::U64 => self.u64,
            BufferKind::U32Offsets => self.u32_offsets,
            BufferKind::U64Offsets => self.u64_offsets,
            BufferKind::Dictionaries => Seq::empty(),
            BufferKind::Seen => Seq::empty(),
        }
    }

    /// The definition with one more index of the given kind at the end.
    pub open spec fn with_index(self, kind: BufferKind, idx: usize) -> NullDefinitionView {
        match kind {
            BufferKind::U0 => NullDefinitionView { u0: self.u0.push(idx), ..self },
            BufferKind::U1 => NullDefinitionView { u1: self.u1.push(idx), ..self },
            BufferKind::U8 => NullDefinitionView { u8: self.u8.push(idx), ..self },
            BufferKind::U16 => NullDefinitionView { u16: self.u16.push(idx), ..self },
            BufferKind::U32 => NullDefinitionView { u32: self.u32.push(idx), ..self },
            BufferKind::U64 => NullDefinitionView { u64: self.u64.push(idx), ..self },
            BufferKind::U32Offsets => NullDefinitionView {
                u32_offsets: self.u32_offsets.push(idx),
                ..self
            },
            BufferKind::U64Offsets => NullDefinitionView {
                u64_offsets: self.u64_offsets.push(idx),
                ..self
            },
            BufferKind::Dictionaries => self,
            BufferKind::Seen => self,
        }
    }

    /// The definition with the validity bitmap of a column, if it has one.
    pub open spec fn with_validity(self, validity: Option<usize>) -> NullDefinitionView {
        match validity {
            Some(idx) => self.with_index(BufferKind::U1, idx),
            None => self,
        }
    }

    /// The definition extended by the first `n` of the given mappings, in
    /// order.
    pub open spec fn extended_by_all(self, mappings: Seq<ArrayMappingView>, n: nat) -> Option<
        NullDefinitionView,
    >
        decreases mappings, n,
    {
        if n == 0 || n > mappings.len() {
            Some(self)
        } else {
            match self.extended_by_all(mappings, (n - 1) as nat) {
                Some(definition) => definition.extended_by(mappings[n - 1]),
                None => None,
            }
        }
    }

    /// The definition extended by every buffer that one row of the mapped
    /// column appends to: the value buffer of a primitive, the offsets of a
    /// string, list or map, the index buffer of a dictionary, all fields of
    /// a struct, and the validity bitmap. The items of a list and the
    /// entries of a map get no slot for an absent row. Columns laid out
    /// as unions cannot be absent.
    pub open spec fn extended_by(self, mapping: ArrayMappingView) -> Option<NullDefinitionView>
        decreases mapping, 0nat,
    {
        match mapping {
            ArrayMappingView::Null { buffer, validity, .. } => Some(
                self.with_index(BufferKind::U0, buffer).with_validity(validity),
            ),
            ArrayMappingView::Bool { buffer, validity, .. } => Some(
                self.with_index(BufferKind::U1, buffer).with_validity(validity),
            ),
            ArrayMappingView::U8 { buffer, validity, .. } => Some(
                self.with_index(BufferKind::U8, buffer).with_validity(validity),
            ),
            ArrayMappingView::U16 { buffer, validity, .. } => Some(
                self.with_index(BufferKind::U16, buffer).with_validity(validity),
            ),
            ArrayMappingView::U32 { buffer, validity, .. } => Some(
                self.with_index(BufferKind::U32, buffer).with_validity(validity),
            ),
            ArrayMappingView::U64 { buffer, validity, .. } => Some(
                self.with_index(BufferKind::U64, buffer).with_validity(validity),
            ),
            ArrayMappingView::I8 { buffer, validity, .. } => Some(
                self.with_index(BufferKind::U8, buffer).with_validity(validity),
            ),
            ArrayMappingView::I16 { buffer, validity, .. } => Some(
                self.with_index(BufferKind::U16, buffer).with_validity(validity),
            ),
            ArrayMappingView::I32 { buffer, validity, .. } => Some(
                self.with_index(BufferKind::U32, buffer).with_validity(validity),
            ),
            ArrayMappingView::I64 { buffer, validity, .. } => Some(
                self.with_index(BufferKind::U64, buffer).with_validity(validity),
            ),
            ArrayMappingView::F16 { buffer, validity, .. } => Some(
                self.with_index(BufferKind::U16, buffer).with_validity(validity),
            ),
            ArrayMappingView::F32 { buffer, validity, .. } => Some(
                self.with_index(BufferKind::U32, buffer).with_validity(validity),
            ),
            ArrayMappingView::F64 { buffer, validity, .. } => Some(
                self.with_index(BufferKind::U64, buffer).with_validity(validity),
            ),
            ArrayMappingView::Utf8 { offsets, validity, .. } => Some(
                self.with_index(BufferKind::U32Offsets, offsets).with_validity(validity),
            ),
            ArrayMappingView::LargeUtf8 { offsets, validity, .. } => Some(
                self.with_index(BufferKind::U64Offsets, offsets).with_validity(validity),
            ),
            ArrayMappingView::Date64 { buffer, validity, .. } => Some(
                self.with_index(BufferKind::U64, buffer).with_validity(validity),
            ),
            ArrayMappingView::Struct { fields, validity, .. } => {
                match self.extended_by_all(fields, fields.len()) {
                    Some(definition) => Some(definition.with_validity(validity)),
                    None => None,
                }
            },
            ArrayMappingView::KeyValueMap { offsets, validity, .. } => Some(
                self.with_index(BufferKind::U32Offsets, offsets).with_validity(validity),
            ),
            ArrayMappingView::LargeList { offsets, validity, .. } => Some(
                self.with_index(BufferKind::U64Offsets, offsets).with_validity(validity),
            ),
            ArrayMappingView::Dictionary { indices, validity, .. } => Some(
                self.with_index(index_buffer_kind(indices), index_buffer(indices)).with_validity(
                    validity,
                ),
            ),
            ArrayMappingView::List { offsets, validity, .. } => Some(
                self.with_index(BufferKind::U32Offsets, offsets).with_validity(validity),
            ),
            ArrayMappingView::Union { .. } => None,
        }
    }

    /// The definition with each list of indices in ascending order.
    pub open spec fn sorted(self) -> NullDefinitionView {
        NullDefinitionView {
            u0: ascending(self.u0),
            u1: ascending(self.u1),
            u8: ascending(self.u8),
            u16: ascending(self.u16),
            u32: ascending(self.u32),
            u64: ascending(self.u64),
            u32_offsets: ascending(self.u32_offsets),
            u64_offsets: ascending(self.u64_offsets),
        }
    }
}

/// The pool that holds the index buffer of a dictionary.
pub open spec fn index_buffer_kind(indices: DictionaryIndex) -> BufferKind {
    match indices {
        DictionaryIndex::U8(_) | DictionaryIndex::I8(_) => BufferKind::U8,
        DictionaryIndex::U16(_) | DictionaryIndex::I16(_) => BufferKind::U16,
        DictionaryIndex::U32(_) | DictionaryIndex::I32(_) => BufferKind::U32,
        DictionaryIndex::U64(_) | DictionaryIndex::I64(_) => BufferKind::U64,
    }
}

/// The index buffer of a dictionary within its pool.
pub open spec fn index_buffer(indices: DictionaryIndex) -> usize {
    match indices {
        DictionaryIndex::U8(idx) => idx,
        DictionaryIndex::U16(idx) => idx,
        DictionaryIndex::U32(idx) => idx,
        DictionaryIndex::U64(idx) => idx,
        DictionaryIndex::I8(idx) => idx,
        DictionaryIndex::I16(idx) => idx,
        DictionaryIndex::I32(idx) => idx,
        DictionaryIndex::I64(idx) => idx,
    }
}

impl View for NullDefinition {
    type V = NullDefinitionView;

    open spec fn view(&self) -> NullDefinitionView {
        NullDefinitionView {
            u0: self.u0@,
            u1: self.u1@,
            u8: self.u8@,
            u16: self.u16@,
            u32: self.u32@,
            u64: self.u64@,
            u32_offsets: self.u32_offsets@,
            u64_offsets: self.u64_offsets@,
        }
    }
}

/// Sorts the indices in place, in ascending order.
///
/// Calls `slice::sort` of the standard library, which leaves the elements
/// it was given, each as often as before, in ascending order.
#[verifier::external_body]
fn sort_in_place(indices: &mut Vec<usize>)
    ensures
        final(indices)@.to_multiset() == old(indices)@.to_multiset(),
        forall|i: int, j: int|
            0 <= i < j < final(indices)@.len() ==> final(indices)@[i] <= final(indices)@[j],
{
    indices.sort();
}

/// Sorts the indices in place, in ascending order.
pub fn sort_ascending(indices: &mut Vec<usize>)
    ensures
        final(indices)@ == ascending(old(indices)@),
{
    sort_in_place(indices);
    proof {
        let leq = index_leq();
        assert(total_ordering(leq)) by {
            assert(vstd::relations::reflexive(leq));
            assert(vstd::relations::antisymmetric(leq));
            assert(vstd::relations::transitive(leq));
            assert(vstd::relations::strongly_connected(leq));
        }
        old(indices)@.lemma_sort_by_ensures(leq);
        assert(sorted_by(indices@, leq));
        lemma_sorted_unique(indices@, old(indices)@.sort_by(leq), leq);
    }
}

impl NullDefinition {
    /// No buffers.
    pub fn new() -> (res: NullDefinition)
        ensures
            res@ == NullDefinitionView::empty(),
    {
        NullDefinition {
            u0: Vec::new(),
            u1: Vec::new(),
            u8: Vec::new(),
            u16: Vec::new(),
            u32: Vec::new(),
            u64: Vec::new(),
            u32_offsets: Vec::new(),
            u64_offsets: Vec::new(),
        }
    }

    /// Lists one more buffer of the given kind.
    pub fn push(&mut self, kind: BufferKind, idx: usize)
        ensures
            final(self)@ == old(self)@.with_index(kind, idx),
    {
        match kind {
            BufferKind::U0 => self.u0.push(idx),
            BufferKind::U1 => self.u1.push(idx),
            BufferKind::U8 => self.u8.push(idx),
            BufferKind::U16 => self.u16.push(idx),
            BufferKind::U32 => self.u32.push(idx),
            BufferKind::U64 => self.u64.push(idx),
            BufferKind::U32Offsets => self.u32_offsets.push(idx),
            BufferKind::U64Offsets => self.u64_offsets.push(idx),
            BufferKind::Dictionaries => {},
            BufferKind::Seen => {},
        }
    }

    /// Lists the validity bitmap of a column, if it has one.
    pub fn push_validity(&mut self, validity: Option<usize>)
        ensures
            final(self)@ == old(self)@.with_validity(validity),
    {
        match validity {
            Some(idx) => self.push(BufferKind::U1, idx),
            None => {},
        }
    }

    /// Lists every buffer that one row of the mapped column appends to.
    /// Fails for a column that cannot be absent: one laid out as a union,
    /// by itself or in a struct.
    pub fn update_from_array_mapping(&mut self, m: &ArrayMapping) -> (res: Result<(), Error>)
        ensures
            match old(self)@.extended_by(m@) {
                Some(definition) => res is Ok && final(self)@ == definition,
                None => fails_with(res, ErrorKind::Compile),
            },
        decreases m,
    {
        match m {
            ArrayMapping::Null { buffer, validity, .. } => {
                self.push(BufferKind::U0, *buffer);
                self.push_validity(*validity);
            },
            ArrayMapping::Bool { buffer, validity, .. } => {
                self.push(BufferKind::U1, *buffer);
                self.push_validity(*validity);
            },
            ArrayMapping::U8 { buffer, validity, .. } => {
                self.push(BufferKind::U8, *buffer);
                self.push_validity(*validity);
            },
            ArrayMapping::U16 { buffer, validity, .. } => {
                self.push(BufferKind::U16, *buffer);
                self.push_validity(*validity);
            },
            ArrayMapping::U32 { buffer, validity, .. } => {
                self.push(BufferKind::U32, *buffer);
                self.push_validity(*validity);
            },
            ArrayMapping::U64 { buffer, validity, .. } => {
                self.push(BufferKind::U64, *buffer);
                self.push_validity(*validity);
            },
            ArrayMapping::I8 { buffer, validity, .. } => {
                self.push(BufferKind::U8, *buffer);
                self.push_validity(*validity);
            },
            ArrayMapping::I16 { buffer, validity, .. } => {
                self.push(BufferKind::U16, *buffer);
                self.push_validity(*validity);
            },
            ArrayMapping::I32 { buffer, validity, .. } => {
                self.push(BufferKind::U32, *buffer);
                self.push_validity(*validity);
            },
            ArrayMapping::I64 { buffer, validity, .. } => {
                self.push(BufferKind::U64, *buffer);
                self.push_validity(*validity);
            },
            ArrayMapping::F16 { buffer, validity, .. } => {
                self.push(BufferKind::U16, *buffer);
                self.push_validity(*validity);
            },
            ArrayMapping::F32 { buffer, validity, .. } => {
                self.push(BufferKind::U32, *buffer);
                self.push_validity(*validity);
            },
            ArrayMapping::F64 { buffer, validity, .. } => {
                self.push(BufferKind::U64, *buffer);
                self.push_validity(*validity);
            },
            ArrayMapping::Utf8 { offsets, validity, .. } => {
                // an empty string holds no data
                self.push(BufferKind::U32Offsets, *offsets);
                self.push_validity(*validity);
            },
            ArrayMapping::LargeUtf8 { offsets, validity, .. } => {
                // an empty string holds no data
                self.push(BufferKind::U64Offsets, *offsets);
                self.push_validity(*validity);
            },
            ArrayMapping::Date64 { buffer, validity, .. } => {
                self.push(BufferKind::U64, *buffer);
                self.push_validity(*validity);
            },
            ArrayMapping::Struct { fields, validity, .. } => {
                let n: usize = fields.len();
                let mut i: usize = 0;
                while i < n
                    invariant
                        n == fields@.len(),
                        i <= n,
                        m@ matches ArrayMappingView::Struct { fields: views, .. } && views
                            == mapping_views(fields@),
                        forall|k: int|
                            0 <= k < n ==> decreases_to!(*m => #[trigger] fields@[k]),
                        old(self)@.extended_by_all(mapping_views(fields@), i as nat) == Some(
                            self@,
                        ),
                    decreases n - i,
                {
                    match self.update_from_array_mapping(&fields[i]) {
                        Ok(()) => {},
                        Err(e) => {
                            proof {
                                lemma_extended_by_all_fails(
                                    old(self)@,
                                    mapping_views(fields@),
                                    (i + 1) as nat,
                                    n as nat,
                                );
                            }
                            return Err(e);
                        },
                    }
                    i = i + 1;
                }
                self.push_validity(*validity);
            },
            ArrayMapping::KeyValueMap { offsets, validity, .. } => {
                // the entries get no slot
                self.push(BufferKind::U32Offsets, *offsets);
                self.push_validity(*validity);
            },
            ArrayMapping::LargeList { offsets, validity, .. } => {
                // the item gets no slot
                self.push(BufferKind::U64Offsets, *offsets);
                self.push_validity(*validity);
            },
            ArrayMapping::Dictionary { indices, validity, .. } => {
                match indices {
                    DictionaryIndex::U8(idx) => self.push(BufferKind::U8, *idx),
                    DictionaryIndex::U16(idx) => self.push(BufferKind::U16, *idx),
                    DictionaryIndex::U32(idx) => self.push(BufferKind::U32, *idx),
                    DictionaryIndex::U64(idx) => self.push(BufferKind::U64, *idx),
                    DictionaryIndex::I8(idx) => self.push(BufferKind::U8, *idx),
                    DictionaryIndex::I16(idx) => self.push(BufferKind::U16, *idx),
                    DictionaryIndex::I32(idx) => self.push(BufferKind::U32, *idx),
                    DictionaryIndex::I64(idx) => self.push(BufferKind::U64, *idx),
                }
                self.push_validity(*validity);
            },
            ArrayMapping::List { offsets, validity, .. } => {
                // the item gets no slot
                self.push(BufferKind::U32Offsets, *offsets);
                self.push_validity(*validity);
            },
            ArrayMapping::Union { .. } => {
                return fail(ErrorKind::Compile, "cannot update null definition from a union");
            },
        }
        Ok(())
    }

    /// Puts each list of indices in ascending order.
    pub fn sort_indices(&mut self)
        ensures
            final(self)@ == old(self)@.sorted(),
    {
        sort_ascending(&mut self.u0);
        sort_ascending(&mut self.u1);
        sort_ascending(&mut self.u8);
        sort_ascending(&mut self.u16);
        sort_ascending(&mut self.u32);
        sort_ascending(&mut self.u64);
        sort_ascending(&mut self.u32_offsets);
        sort_ascending(&mut self.u64_offsets);
    }
}

/// Once a mapping cannot be absent, no longer list of mappings can.
pub proof fn lemma_extended_by_all_fails(
    definition: NullDefinitionView,
    mappings: Seq<ArrayMappingView>,
    k: nat,
    n: nat,
)
    requires
        k <= n <= mappings.len(),
        definition.extended_by_all(mappings, k) is None,
    ensures
        definition.extended_by_all(mappings, n) is None,
    decreases n,
{
    if k < n {
        lemma_extended_by_all_fails(definition, mappings, k, (n - 1) as nat);
    }
}

/// The views of a list of struct definitions, in order.
pub open spec fn struct_views(structs: Seq<StructDefinition>) -> Seq<StructDefinitionView> {
    Seq::new(structs.len(), |i: int| structs[i]@)
}

/// The variants of a list of union definitions, in order.
pub open spec fn union_views(unions: Seq<UnionDefinition>) -> Seq<Seq<usize>> {
    Seq::new(unions.len(), |i: int| unions[i].fields@)
}

/// The views of a list of null definitions, in order.
pub open spec fn null_views(nulls: Seq<NullDefinition>) -> Seq<NullDefinitionView> {
    Seq::new(nulls.len(), |i: int| nulls[i]@)
}

/// The instructions of a program and the tables they refer to.
#[derive(Debug, PartialEq)]
pub struct Structure {
    /// The instructions; `UNSET_INSTR` marks a successor that is not linked
    /// yet.
    pub program: Vec<Instruction>,
    pub lists: Vec<ListDefinition>,
    pub large_lists: Vec<ListDefinition>,
    pub maps: Vec<MapDefinition>,
    pub structs: Vec<StructDefinition>,
    pub unions: Vec<UnionDefinition>,
    pub nulls: Vec<NullDefinition>,
    pub array_mapping: Vec<ArrayMapping>,
}

/// The mathematical value of a [`Structure`].
pub struct StructureView {
    pub program: Seq<InstructionView>,
    pub lists: Seq<ListDefinition>,
    pub large_lists: Seq<ListDefinition>,
    pub maps: Seq<MapDefinition>,
    pub structs: Seq<StructDefinitionView>,
    pub unions: Seq<Seq<usize>>,
    pub nulls: Seq<NullDefinitionView>,
    pub array_mapping: Seq<ArrayMappingView>,
}

impl View for Structure {
    type V = StructureView;

    open spec fn view(&self) -> StructureView {
        StructureView {
            program: program_view(self.program@),
            lists: self.lists@,
            large_lists: self.large_lists@,
            maps: self.maps@,
            structs: struct_views(self.structs@),
            unions: union_views(self.unions@),
            nulls: null_views(self.nulls@),
            array_mapping: mapping_views(self.array_mapping@),
        }
    }
}

impl StructureView {
    /// No instructions and empty tables.
    pub open spec fn empty() -> StructureView {
        StructureView {
            program: Seq::empty(),
            lists: Seq::empty(),
            large_lists: Seq::empty(),
            maps: Seq::empty(),
            structs: Seq::empty(),
            unions: Seq::empty(),
            nulls: Seq::empty(),
            array_mapping: Seq::empty(),
        }
    }

    /// Whether `later` can come from this structure by compiling more:
    /// no table is shorter, and the instructions that are there do what
    /// they did.
    pub open spec fn precedes(self, later: StructureView) -> bool {
        &&& self.program.len() <= later.program.len()
        &&& self.lists.len() <= later.lists.len()
        &&& self.large_lists.len() <= later.large_lists.len()
        &&& self.maps.len() <= later.maps.len()
        &&& self.structs.len() <= later.structs.len()
        &&& self.unions.len() <= later.unions.len()
        &&& self.nulls.len() <= later.nulls.len()
        &&& self.array_mapping.len() <= later.array_mapping.len()
        &&& forall|i: int|
            0 <= i < self.program.len() ==> (#[trigger] later.program[i]).code
                == self.program[i].code
    }
}

impl Structure {
    /// No instructions and empty tables.
    pub fn new() -> (res: Structure)
        ensures
            res@ == StructureView::empty(),
    {
        let res = Structure {
            program: Vec::new(),
            lists: Vec::new(),
            large_lists: Vec::new(),
            maps: Vec::new(),
            structs: Vec::new(),
            unions: Vec::new(),
            nulls: Vec::new(),
            array_mapping: Vec::new(),
        };
        assert(res@.program =~= Seq::empty());
        assert(res@.structs =~= Seq::empty());
        assert(res@.unions =~= Seq::empty());
        assert(res@.nulls =~= Seq::empty());
        assert(res@.array_mapping =~= Seq::empty());
        res
    }

    /// Appends an instruction.
    pub fn push_instr(&mut self, instr: Instruction)
        ensures
            final(self)@ == (StructureView {
                program: old(self)@.program.push(instr@),
                ..old(self)@
            }),
    {
        self.program.push(instr);
        assert(self@.program =~= old(self)@.program.push(instr@));
    }

    /// Replaces the successor of the instruction at `pos`.
    pub fn set_next(&mut self, pos: usize, next: usize)
        requires
            pos < old(self)@.program.len(),
        ensures
            final(self)@ == (StructureView {
                program: old(self)@.program.update(
                    pos as int,
                    InstructionView { next, ..old(self)@.program[pos as int] },
                ),
                ..old(self)@
            }),
    {
        self.program[pos].next = next;
        assert(self@.program =~= old(self)@.program.update(
            pos as int,
            InstructionView { next, ..old(self)@.program[pos as int] },
        ));
    }

    /// Replaces the target that the option marker at `pos` jumps to when
    /// the value is absent. Other instructions are left as they are.
    pub fn set_if_none(&mut self, pos: usize, target: usize)
        requires
            pos < old(self)@.program.len(),
        ensures
            final(self)@ == (StructureView {
                program: old(self)@.program.update(
                    pos as int,
                    with_if_none(old(self)@.program[pos as int], target),
                ),
                ..old(self)@
            }),
    {
        match &mut self.program[pos].code {
            Bytecode::OptionMarker { if_none, .. } => {
                *if_none = target;
            },
            _ => {},
        }
        assert(self@.program =~= old(self)@.program.update(
            pos as int,
            with_if_none(old(self)@.program[pos as int], target),
        ));
    }

    /// Appends a struct definition.
    pub fn push_struct(&mut self, definition: StructDefinition)
        ensures
            final(self)@ == (StructureView {
                structs: old(self)@.structs.push(definition@),
                ..old(self)@
            }),
    {
        self.structs.push(definition);
        assert(self@.structs =~= old(self)@.structs.push(definition@));
    }

    /// Sets the jump target for an item of the struct at `idx`.
    pub fn set_struct_item(&mut self, idx: usize, item: usize)
        requires
            idx < old(self)@.structs.len(),
        ensures
            final(self)@ == (StructureView {
                structs: old(self)@.structs.update(
                    idx as int,
                    StructDefinitionView { item, ..old(self)@.structs[idx as int] },
                ),
                ..old(self)@
            }),
    {
        self.structs[idx].item = item;
        assert(self@.structs =~= old(self)@.structs.update(
            idx as int,
            StructDefinitionView { item, ..old(self)@.structs[idx as int] },
        ));
    }

    /// Sets the jump target for the end of the struct at `idx`.
    pub fn set_struct_return(&mut self, idx: usize, return_pc: usize)
        requires
            idx < old(self)@.structs.len(),
        ensures
            final(self)@ == (StructureView {
                structs: old(self)@.structs.update(
                    idx as int,
                    StructDefinitionView { return_pc, ..old(self)@.structs[idx as int] },
                ),
                ..old(self)@
            }),
    {
        self.structs[idx].return_pc = return_pc;
        assert(self@.structs =~= old(self)@.structs.update(
            idx as int,
            StructDefinitionView { return_pc, ..old(self)@.structs[idx as int] },
        ));
    }

    /// Inserts a field into the struct at `idx`.
    pub fn insert_struct_field(&mut self, idx: usize, name: String, definition: FieldDefinition)
        requires
            idx < old(self)@.structs.len(),
        ensures
            final(self)@ == (StructureView {
                structs: old(self)@.structs.update(
                    idx as int,
                    old(self)@.structs[idx as int].insert(name@, definition),
                ),
                ..old(self)@
            }),
    {
        self.structs[idx].insert(name, definition);
        assert(self@.structs =~= old(self)@.structs.update(
            idx as int,
            old(self)@.structs[idx as int].insert(name@, definition),
        ));
    }

    /// Sets the null definition of a field of the struct at `idx`. Fails,
    /// leaving the structure as it is, if the struct has no such field.
    pub fn set_struct_field_null_definition(
        &mut self,
        idx: usize,
        name: &String,
        null_definition: Option<usize>,
    ) -> (res: Result<(), Error>)
        requires
            idx < old(self)@.structs.len(),
        ensures
            match old(self)@.structs[idx as int].with_null_definition(name@, null_definition) {
                Some(definition) => res is Ok && final(self)@ == (StructureView {
                    structs: old(self)@.structs.update(idx as int, definition),
                    ..old(self)@
                }),
                None => final(self)@ == old(self)@ && fails_with(res, ErrorKind::Compile),
            },
    {
        let res = self.structs[idx].set_null_definition(name, null_definition);
        proof {
            match old(self)@.structs[idx as int].with_null_definition(name@, null_definition) {
                Some(definition) => {
                    assert(self@.structs =~= old(self)@.structs.update(idx as int, definition));
                },
                None => {
                    assert(self@.structs =~= old(self)@.structs);
                },
            }
        }
        res
    }

    /// Appends a union without variants.
    pub fn push_union(&mut self)
        ensures
            final(self)@ == (StructureView {
                unions: old(self)@.unions.push(Seq::empty()),
                ..old(self)@
            }),
    {
        self.unions.push(UnionDefinition::new());
        assert(self@.unions =~= old(self)@.unions.push(Seq::empty()));
    }

    /// Appends the entry point of one more variant to the union at `idx`.
    pub fn push_union_variant(&mut self, idx: usize, entry: usize)
        requires
            idx < old(self)@.unions.len(),
        ensures
            final(self)@ == (StructureView {
                unions: old(self)@.unions.update(
                    idx as int,
                    old(self)@.unions[idx as int].push(entry),
                ),
                ..old(self)@
            }),
    {
        self.unions[idx].fields.push(entry);
        assert(self@.unions =~= old(self)@.unions.update(
            idx as int,
            old(self)@.unions[idx as int].push(entry),
        ));
    }

    /// Appends an empty null definition.
    pub fn push_null(&mut self)
        ensures
            final(self)@ == (StructureView {
                nulls: old(self)@.nulls.push(NullDefinitionView::empty()),
                ..old(self)@
            }),
    {
        self.nulls.push(NullDefinition::new());
        assert(self@.nulls =~= old(self)@.nulls.push(NullDefinitionView::empty()));
    }

    /// Lists in the null definition at `idx` every buffer that one row of
    /// the mapped column appends to, and sorts the definition. Fails for a
    /// column that cannot be absent.
    pub fn fill_null(&mut self, idx: usize, mapping: &ArrayMapping) -> (res: Result<(), Error>)
        requires
            idx < old(self)@.nulls.len(),
        ensures
            match old(self)@.nulls[idx as int].extended_by(mapping@) {
                Some(definition) => res is Ok && final(self)@ == (StructureView {
                    nulls: old(self)@.nulls.update(idx as int, definition.sorted()),
                    ..old(self)@
                }),
                None => fails_with(res, ErrorKind::Compile),
            },
    {
        match self.nulls[idx].update_from_array_mapping(mapping) {
            Ok(()) => {},
            Err(e) => {
                return Err(e);
            },
        }
        self.nulls[idx].sort_indices();
        assert(self@.nulls =~= old(self)@.nulls.update(
            idx as int,
            old(self)@.nulls[idx as int].extended_by(mapping@).unwrap().sorted(),
        ));
        Ok(())
    }

    /// Appends the mapping of one more column.
    pub fn push_array_mapping(&mut self, mapping: ArrayMapping)
        ensures
            final(self)@ == (StructureView {
                array_mapping: old(self)@.array_mapping.push(mapping@),
                ..old(self)@
            }),
    {
        self.array_mapping.push(mapping);
        assert(self@.array_mapping =~= old(self)@.array_mapping.push(mapping@));
    }
}

/// The instruction with the target of its option marker replaced; any other
/// instruction as it is.
pub open spec fn with_if_none(instr: InstructionView, target: usize) -> InstructionView {
    match instr.code {
        BytecodeView::OptionMarker { self_pos, if_none, validity, null_definition } => {
            InstructionView {
                next: instr.next,
                code: BytecodeView::OptionMarker {
                    self_pos,
                    if_none: target,
                    validity,
                    null_definition,
                },
            }
        },
        _ => instr,
    }
}

} // verus!
