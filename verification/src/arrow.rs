//! Conversion between the generic schema and the schema of Arrow.
//!
//! The fields and data types of Arrow are modelled by [`Field`] and
//! [`DataType`], which hold what the conversion reads from them.
use vstd::prelude::*;
use crate::error::{fail, fails_with, Error, ErrorKind};
use crate::schema::{FieldView, GenericDataType, GenericField, Strategy, STRATEGY_KEY};
use crate::text::str_eq;

verus! {

/// How the variants of a union are laid out.
#[derive(Debug, Clone, Copy, PartialEq, Eq, Structural)]
pub enum UnionMode {
    Sparse,
    Dense,
}

/// A data type of Arrow.
#[derive(Debug, PartialEq)]
pub enum DataType {
    Null,
    Boolean,
    Int8,
    Int16,
    Int32,
    Int64,
    UInt8,
    UInt16,
    UInt32,
    UInt64,
    Float16,
    Float32,
    Float64,
    Utf8,
    LargeUtf8,
    Date64,
    List(Box<Field>),
    LargeList(Box<Field>),
    Struct(Vec<Field>),
    /// A map with the field of its entries, and whether its keys are
    /// sorted.
    KeyValueMap(Box<Field>, bool),
    /// A union with its variants, each with its type code.
    Union(Vec<(i8, Field)>, UnionMode),
    /// A dictionary with the type of its keys and of its values.
    Dictionary(Box<DataType>, Box<DataType>),
    /// Any other data type.
    Unsupported,
}

/// A field of Arrow.
#[derive(Debug, PartialEq)]
pub struct Field {
    pub name: String,
    pub data_type: DataType,
    pub nullable: bool,
    /// The metadata of the field: pairs of key and value, no key twice.
    pub metadata: Vec<(String, String)>,
}

/// The generic data type of a primitive data type of Arrow.
pub open spec fn primitive_of(data_type: DataType) -> Option<GenericDataType> {
    match data_type {
        DataType::Boolean => Some(GenericDataType::Bool),
        DataType::Null => Some(GenericDataType::Null),
        DataType::Int8 => Some(GenericDataType::I8),
        DataType::Int16 => Some(GenericDataType::I16),
        DataType::Int32 => Some(GenericDataType::I32),
        DataType::Int64 => Some(GenericDataType::I64),
        DataType::UInt8 => Some(GenericDataType::U8),
        DataType::UInt16 => Some(GenericDataType::U16),
        DataType::UInt32 => Some(GenericDataType::U32),
        DataType::UInt64 => Some(GenericDataType::U64),
        DataType::Float16 => Some(GenericDataType::F16),
        DataType::Float32 => Some(GenericDataType::F32),
        DataType::Float64 => Some(GenericDataType::F64),
        DataType::Utf8 => Some(GenericDataType::Utf8),
        DataType::LargeUtf8 => Some(GenericDataType::LargeUtf8),
        DataType::Date64 => Some(GenericDataType::Date64),
        _ => None,
    }
}

/// Whether `k` is the first position in the metadata with the given key.
pub open spec fn is_entry_of(metadata: Seq<(String, String)>, key: Seq<char>, k: int) -> bool {
    &&& 0 <= k < metadata.len()
    &&& metadata[k].0@ == key
    &&& forall|j: int| 0 <= j < k ==> (#[trigger] metadata[j]).0@ != key
}

/// The value of the first entry of the metadata with the given key.
pub open spec fn metadata_value(metadata: Seq<(String, String)>, key: Seq<char>) -> Option<
    Seq<char>,
> {
    if exists|k: int| is_entry_of(metadata, key, k) {
        Some(metadata[choose|k: int| is_entry_of(metadata, key, k)].1@)
    } else {
        None
    }
}

/// The strategy that the metadata names: none without an entry for
/// strategies; the outer `None` is for a name that is no strategy.
pub open spec fn strategy_of(metadata: Seq<(String, String)>) -> Option<Option<Strategy>> {
    match metadata_value(metadata, STRATEGY_KEY@) {
        None => Some(None),
        Some(name) => match Strategy::parse_spec(name) {
            Some(strategy) => Some(Some(strategy)),
            None => None,
        },
    }
}

/// A field without name, strategy and children that is never null.
pub open spec fn unnamed(data_type: GenericDataType) -> FieldView {
    FieldView { name: ""@, data_type, nullable: false, strategy: None, children: Seq::empty() }
}

/// The generic fields of the first `n` of the given fields.
pub open spec fn generic_fields_of(fields: Seq<Field>, n: nat) -> Option<Seq<FieldView>>
    decreases fields, n,
{
    if n == 0 || n > fields.len() {
        Some(Seq::empty())
    } else {
        match generic_fields_of(fields, (n - 1) as nat) {
            None => None,
            Some(before) => match generic_field_of(fields[n - 1]) {
                None => None,
                Some(field) => Some(before.push(field)),
            },
        }
    }
}

/// The generic fields of the first `n` variants of a union, whose type
/// codes must be their positions.
pub open spec fn generic_variants_of(variants: Seq<(i8, Field)>, n: nat) -> Option<Seq<FieldView>>
    decreases variants, n,
{
    if n == 0 || n > variants.len() {
        Some(Seq::empty())
    } else {
        match generic_variants_of(variants, (n - 1) as nat) {
            None => None,
            Some(before) => if variants[n - 1].0 != n - 1 {
                None
            } else {
                match generic_field_of(variants[n - 1].1) {
                    None => None,
                    Some(field) => Some(before.push(field)),
                }
            },
        }
    }
}

/// The data type and the children of the generic field for a data type
/// of Arrow. Only dense unions whose type codes are the positions of the
/// variants are supported, and only dictionaries of primitive types.
pub open spec fn generic_type_of(data_type: DataType) -> Option<(GenericDataType, Seq<FieldView>)>
    decreases data_type, 0nat,
{
    match data_type {
        DataType::List(field) => match generic_field_of(*field) {
            Some(child) => Some((GenericDataType::List, seq![child])),
            None => None,
        },
        DataType::LargeList(field) => match generic_field_of(*field) {
            Some(child) => Some((GenericDataType::LargeList, seq![child])),
            None => None,
        },
        DataType::Struct(fields) => match generic_fields_of(fields@, fields@.len()) {
            Some(children) => Some((GenericDataType::Struct, children)),
            None => None,
        },
        DataType::KeyValueMap(field, _) => match generic_field_of(*field) {
            Some(child) => Some((GenericDataType::KeyValueMap, seq![child])),
            None => None,
        },
        DataType::Union(variants, mode) => if mode is Dense {
            match generic_variants_of(variants@, variants@.len()) {
                Some(children) => Some((GenericDataType::Union, children)),
                None => None,
            }
        } else {
            None
        },
        DataType::Dictionary(key_type, value_type) => match (
            primitive_of(*key_type),
            primitive_of(*value_type),
        ) {
            (Some(key), Some(value)) => Some(
                (GenericDataType::Dictionary, seq![unnamed(key), unnamed(value)]),
            ),
            _ => None,
        },
        data_type => match primitive_of(data_type) {
            Some(data_type) => Some((data_type, Seq::empty())),
            None => None,
        },
    }
}

/// The generic field for a field of Arrow: its name and nullability, the
/// strategy that its metadata names, and the data type and children for
/// its data type. There is none where the metadata names no strategy that
/// exists, or the data type is not supported.
pub open spec fn generic_field_of(field: Field) -> Option<FieldView>
    decreases field, 1nat,
{
    match strategy_of(field.metadata@) {
        None => None,
        Some(strategy) => match generic_type_of(field.data_type) {
            None => None,
            Some((data_type, children)) => Some(
                FieldView { name: field.name@, data_type, nullable: field.nullable, strategy, children },
            ),
        },
    }
}

/// The first entry of the metadata with the given key.
pub fn find_metadata<'a>(metadata: &'a Vec<(String, String)>, key: &str) -> (res: Option<&'a String>)
    ensures
        match metadata_value(metadata@, key@) {
            Some(value) => res is Some && res->Some_0@ == value,
            None => res is None,
        },
{
    let n: usize = metadata.len();
    let mut i: usize = 0;
    while i < n
        invariant
            n == metadata@.len(),
            i <= n,
            forall|j: int| 0 <= j < i ==> (#[trigger] metadata@[j]).0@ != key@,
        decreases n - i,
    {
        if str_eq(metadata[i].0.as_str(), key) {
            proof {
                let c = choose|c: int| is_entry_of(metadata@, key@, c);
                assert(is_entry_of(metadata@, key@, i as int));
                if c < i {
                    assert(metadata@[c].0@ != key@);
                }
                if i < c {
                    assert(metadata@[i as int].0@ != key@);
                }
            }
            return Some(&metadata[i].1);
        }
        i = i + 1;
    }
    proof {
        if exists|k: int| is_entry_of(metadata@, key@, k) {
            let c = choose|c: int| is_entry_of(metadata@, key@, c);
            assert(metadata@[c].0@ != key@);
        }
    }
    None
}

impl GenericDataType {
    /// The generic data type of a primitive data type of Arrow. Any other
    /// data type is rejected.
    pub fn try_from(value: &DataType) -> (res: Result<GenericDataType, Error>)
        ensures
            match primitive_of(*value) {
                Some(data_type) => res == Ok::<GenericDataType, Error>(data_type),
                None => fails_with(res, ErrorKind::Schema),
            },
    {
        match value {
            DataType::Boolean => Ok(GenericDataType::Bool),
            DataType::Null => Ok(GenericDataType::Null),
            DataType::Int8 => Ok(GenericDataType::I8),
            DataType::Int16 => Ok(GenericDataType::I16),
            DataType::Int32 => Ok(GenericDataType::I32),
            DataType::Int64 => Ok(GenericDataType::I64),
            DataType::UInt8 => Ok(GenericDataType::U8),
            DataType::UInt16 => Ok(GenericDataType::U16),
            DataType::UInt32 => Ok(GenericDataType::U32),
            DataType::UInt64 => Ok(GenericDataType::U64),
            DataType::Float16 => Ok(GenericDataType::F16),
            DataType::Float32 => Ok(GenericDataType::F32),
            DataType::Float64 => Ok(GenericDataType::F64),
            DataType::Utf8 => Ok(GenericDataType::Utf8),
            DataType::LargeUtf8 => Ok(GenericDataType::LargeUtf8),
            DataType::Date64 => Ok(GenericDataType::Date64),
            _ => fail(
                ErrorKind::Schema,
                "Only primitive data types can be converted to GenericDataType",
            ),
        }
    }
}

/// Once a field is not supported, no longer list of fields is.
pub proof fn lemma_generic_fields_fail(fields: Seq<Field>, k: nat, n: nat)
    requires
        k <= n <= fields.len(),
        generic_fields_of(fields, k) is None,
    ensures
        generic_fields_of(fields, n) is None,
    decreases n,
{
    if k < n {
        lemma_generic_fields_fail(fields, k, (n - 1) as nat);
    }
}

/// Once a variant is not supported, no longer list of variants is.
pub proof fn lemma_generic_variants_fail(variants: Seq<(i8, Field)>, k: nat, n: nat)
    requires
        k <= n <= variants.len(),
        generic_variants_of(variants, k) is None,
    ensures
        generic_variants_of(variants, n) is None,
    decreases n,
{
    if k < n {
        lemma_generic_variants_fail(variants, k, (n - 1) as nat);
    }
}

/// Whether the exec outcome of a conversion to a generic field is the
/// expected one.
pub open spec fn is_generic(res: Result<GenericField, Error>, expected: Option<FieldView>) -> bool {
    match expected {
        Some(field) => res is Ok && res->Ok_0@ == field,
        None => fails_with(res, ErrorKind::Schema),
    }
}

impl GenericField {
    /// The generic field for a field of Arrow.
    pub fn try_from(field: &Field) -> (res: Result<GenericField, Error>)
        ensures
            is_generic(res, generic_field_of(*field)),
        decreases field,
    {
        let strategy: Option<Strategy> = match find_metadata(&field.metadata, STRATEGY_KEY) {
            Some(name) => match Strategy::from_str(name.as_str()) {
                Ok(strategy) => Some(strategy),
                Err(_) => {
                    return fail(ErrorKind::Schema, "Unknown strategy");
                },
            },
            None => None,
        };
        let mut children: Vec<GenericField> = Vec::new();
        let ghost mut child_views: Seq<FieldView> = Seq::empty();
        let data_type = match &field.data_type {
            DataType::List(child) => {
                match GenericField::try_from(child) {
                    Ok(child) => {
                        proof {
                            child_views = seq![child@];
                        }
                        children.push(child);
                    },
                    Err(e) => {
                        return Err(e);
                    },
                }
                GenericDataType::List
            },
            DataType::LargeList(child) => {
                match GenericField::try_from(child) {
                    Ok(child) => {
                        proof {
                            child_views = seq![child@];
                        }
                        children.push(child);
                    },
                    Err(e) => {
                        return Err(e);
                    },
                }
                GenericDataType::LargeList
            },
            DataType::Struct(fields) => {
                let n: usize = fields.len();
                let mut i: usize = 0;
                while i < n
                    invariant
                        n == fields@.len(),
                        i <= n,
                        field.data_type == DataType::Struct(*fields),
                        strategy_of(field.metadata@) is Some,
                        forall|k: int| 0 <= k < n ==> decreases_to!(field => #[trigger] fields@[k]),
                        children@.len() == i,
                        child_views.len() == i,
                        forall|k: int| 0 <= k < i ==> (#[trigger] children@[k])@ == child_views[k],
                        generic_fields_of(fields@, i as nat) == Some(child_views),
                    decreases n - i,
                {
                    match GenericField::try_from(&fields[i]) {
                        Ok(child) => {
                            proof {
                                child_views = child_views.push(child@);
                            }
                            children.push(child);
                        },
                        Err(e) => {
                            proof {
                                lemma_generic_fields_fail(fields@, (i + 1) as nat, n as nat);
                            }
                            return Err(e);
                        },
                    }
                    i = i + 1;
                }
                GenericDataType::Struct
            },
            DataType::KeyValueMap(child, _) => {
                match GenericField::try_from(child) {
                    Ok(child) => {
                        proof {
                            child_views = seq![child@];
                        }
                        children.push(child);
                    },
                    Err(e) => {
                        return Err(e);
                    },
                }
                GenericDataType::KeyValueMap
            },
            DataType::Union(variants, mode) => {
                if !matches!(mode, UnionMode::Dense) {
                    return fail(
                        ErrorKind::Schema,
                        "Only dense unions are supported at the moment",
                    );
                }
                let n: usize = variants.len();
                let mut pos: usize = 0;
                while pos < n
                    invariant
                        n == variants@.len(),
                        pos <= n,
                        field.data_type == DataType::Union(*variants, *mode),
                        *mode is Dense,
                        strategy_of(field.metadata@) is Some,
                        forall|k: int|
                            0 <= k < n ==> decreases_to!(field => (#[trigger] variants@[k]).1),
                        children@.len() == pos,
                        child_views.len() == pos,
                        forall|k: int|
                            0 <= k < pos ==> (#[trigger] children@[k])@ == child_views[k],
                        generic_variants_of(variants@, pos as nat) == Some(child_views),
                    decreases n - pos,
                {
                    let idx: i8 = variants[pos].0;
                    if idx < 0 || idx as usize != pos {
                        proof {
                            lemma_generic_variants_fail(variants@, (pos + 1) as nat, n as nat);
                        }
                        return fail(
                            ErrorKind::Schema,
                            "Union types with explicit field indices are not supported",
                        );
                    }
                    match GenericField::try_from(&variants[pos].1) {
                        Ok(child) => {
                            proof {
                                child_views = child_views.push(child@);
                            }
                            children.push(child);
                        },
                        Err(e) => {
                            proof {
                                lemma_generic_variants_fail(variants@, (pos + 1) as nat, n as nat);
                            }
                            return Err(e);
                        },
                    }
                    pos = pos + 1;
                }
                GenericDataType::Union
            },
            DataType::Dictionary(key_type, value_type) => {
                let key = match GenericDataType::try_from(key_type) {
                    Ok(key) => key,
                    Err(e) => {
                        return Err(e);
                    },
                };
                let value = match GenericDataType::try_from(value_type) {
                    Ok(value) => value,
                    Err(e) => {
                        return Err(e);
                    },
                };
                let key_field = GenericField::new("", key, false);
                let value_field = GenericField::new("", value, false);
                proof {
                    child_views = seq![key_field@, value_field@];
                }
                children.push(key_field);
                children.push(value_field);
                GenericDataType::Dictionary
            },
            data_type => match GenericDataType::try_from(data_type) {
                Ok(data_type) => data_type,
                Err(e) => {
                    return Err(e);
                },
            },
        };
        let res = GenericField {
            data_type,
            name: field.name.clone(),
            strategy,
            children,
            nullable: field.nullable,
        };
        proof {
            res.lemma_view();
            assert(res@.children =~= child_views);
        }
        Ok(res)
    }
}

impl FieldView {
    /// Whether the field has a field of Arrow: lists and maps have their
    /// child, unions have at most 128 variants, dictionaries have keys of
    /// an integer type and values, and every child that is converted has a
    /// field of Arrow.
    pub open spec fn has_arrow_field(self) -> bool
        decreases self,
    {
        match self.data_type {
            GenericDataType::List | GenericDataType::LargeList | GenericDataType::KeyValueMap => {
                self.children.len() >= 1 && self.children[0].has_arrow_field()
            },
            GenericDataType::Struct => forall|i: int|
                0 <= i < self.children.len() ==> (#[trigger] self.children[i]).has_arrow_field(),
            GenericDataType::Union => self.children.len() <= 128 && forall|i: int|
                0 <= i < self.children.len() ==> (#[trigger] self.children[i]).has_arrow_field(),
            GenericDataType::Dictionary => self.children.len() >= 2
                && self.children[0].data_type.is_integer() && self.children[1].has_arrow_field(),
            _ => true,
        }
    }
}

/// Whether the metadata of a field of Arrow says what the strategy of a
/// generic field is: one entry for the strategy, or none.
pub open spec fn metadata_represents(metadata: Seq<(String, String)>, strategy: Option<Strategy>) -> bool {
    match strategy {
        Some(strategy) => metadata.len() == 1 && metadata[0].0@ == STRATEGY_KEY@ && metadata[0].1@
            == strategy.name_spec(),
        None => metadata.len() == 0,
    }
}

/// Whether the data type of Arrow is the one for the generic field: the
/// data type of the same name for a primitive; a list, a struct or a
/// dense union of the converted children, a union with the positions of
/// its variants as type codes; a map of the converted child, whose keys
/// are not sorted; a dictionary of the type of the first child and of the
/// converted type of the second.
pub open spec fn type_represents(data_type: DataType, field: FieldView) -> bool
    decreases data_type, 0nat,
{
    match field.data_type {
        GenericDataType::List => data_type matches DataType::List(child) && field.children.len()
            >= 1 && represents(*child, field.children[0]),
        GenericDataType::LargeList => data_type matches DataType::LargeList(child)
            && field.children.len() >= 1 && represents(*child, field.children[0]),
        GenericDataType::KeyValueMap => data_type matches DataType::KeyValueMap(child, sorted)
            && !sorted && field.children.len() >= 1 && represents(*child, field.children[0]),
        GenericDataType::Struct => data_type matches DataType::Struct(fields) && fields@.len()
            == field.children.len() && forall|i: int|
            0 <= i < fields@.len() ==> represents(#[trigger] fields@[i], field.children[i]),
        GenericDataType::Union => data_type matches DataType::Union(variants, mode) && mode is Dense
            && variants@.len() == field.children.len() && forall|i: int|
            0 <= i < variants@.len() ==> (#[trigger] variants@[i]).0 == i && represents(
                variants@[i].1,
                field.children[i],
            ),
        GenericDataType::Dictionary => data_type matches DataType::Dictionary(key_type, value_type)
            && field.children.len() >= 2 && primitive_of(*key_type) == Some(
            field.children[0].data_type,
        ) && type_represents(*value_type, field.children[1]),
        primitive => primitive_of(data_type) == Some(primitive),
    }
}

/// Whether the field of Arrow is the one for the generic field: it has
/// its name and nullability, its strategy as metadata, and the data type
/// for it.
pub open spec fn represents(arrow: Field, field: FieldView) -> bool
    decreases arrow, 1nat,
{
    &&& arrow.name@ == field.name
    &&& arrow.nullable == field.nullable
    &&& metadata_represents(arrow.metadata@, field.strategy)
    &&& type_represents(arrow.data_type, field)
}

/// The data type of Arrow for a primitive generic data type.
fn primitive_arrow_type(data_type: GenericDataType) -> (res: Option<DataType>)
    ensures
        data_type.is_nested() ==> res is None,
        !data_type.is_nested() ==> res is Some && primitive_of(res->Some_0) == Some(data_type),
{
    match data_type {
        GenericDataType::Null => Some(DataType::Null),
        GenericDataType::Bool => Some(DataType::Boolean),
        GenericDataType::I8 => Some(DataType::Int8),
        GenericDataType::I16 => Some(DataType::Int16),
        GenericDataType::I32 => Some(DataType::Int32),
        GenericDataType::I64 => Some(DataType::Int64),
        GenericDataType::U8 => Some(DataType::UInt8),
        GenericDataType::U16 => Some(DataType::UInt16),
        GenericDataType::U32 => Some(DataType::UInt32),
        GenericDataType::U64 => Some(DataType::UInt64),
        GenericDataType::F16 => Some(DataType::Float16),
        GenericDataType::F32 => Some(DataType::Float32),
        GenericDataType::F64 => Some(DataType::Float64),
        GenericDataType::Date64 => Some(DataType::Date64),
        GenericDataType::Utf8 => Some(DataType::Utf8),
        GenericDataType::LargeUtf8 => Some(DataType::LargeUtf8),
        _ => None,
    }
}

impl Field {
    /// A field of Arrow without metadata.
    pub fn new(name: &str, data_type: DataType, nullable: bool) -> (res: Field)
        ensures
            res.name@ == name@,
            res.data_type == data_type,
            res.nullable == nullable,
            res.metadata@.len() == 0,
    {
        Field { name: name.to_owned(), data_type, nullable, metadata: Vec::new() }
    }

    /// The field of Arrow for a generic field.
    pub fn try_from(value: &GenericField) -> (res: Result<Field, Error>)
        ensures
            res is Ok <==> value@.has_arrow_field(),
            res is Ok ==> represents(res->Ok_0, value@),
            res is Err ==> fails_with(res, ErrorKind::Schema),
        decreases value,
    {
        proof {
            value.lemma_view();
        }
        let data_type = match value.data_type {
            GenericDataType::List => {
                if value.children.len() == 0 {
                    return fail(ErrorKind::Schema, "List must a single child");
                }
                match Field::try_from(&value.children[0]) {
                    Ok(child) => DataType::List(Box::new(child)),
                    Err(e) => {
                        return Err(e);
                    },
                }
            },
            GenericDataType::LargeList => {
                if value.children.len() == 0 {
                    return fail(ErrorKind::Schema, "List must a single child");
                }
                match Field::try_from(&value.children[0]) {
                    Ok(child) => DataType::LargeList(Box::new(child)),
                    Err(e) => {
                        return Err(e);
                    },
                }
            },
            GenericDataType::KeyValueMap => {
                if value.children.len() == 0 {
                    return fail(ErrorKind::Schema, "Map must a single child");
                }
                match Field::try_from(&value.children[0]) {
                    Ok(child) => DataType::KeyValueMap(Box::new(child), false),
                    Err(e) => {
                        return Err(e);
                    },
                }
            },
            GenericDataType::Struct => {
                let mut fields: Vec<Field> = Vec::new();
                let n: usize = value.children.len();
                let mut i: usize = 0;
                while i < n
                    invariant
                        n == value.children@.len(),
                        n == value@.children.len(),
                        value@.data_type is Struct,
                        i <= n,
                        forall|k: int|
                            0 <= k < n ==> #[trigger] value@.children[k] == value.children@[k]@,
                        forall|k: int|
                            0 <= k < n ==> decreases_to!(value => #[trigger] value.children@[k]),
                        fields@.len() == i,
                        forall|k: int|
                            0 <= k < i ==> represents(#[trigger] fields@[k], value@.children[k]),
                        forall|k: int|
                            0 <= k < i ==> (#[trigger] value@.children[k]).has_arrow_field(),
                    decreases n - i,
                {
                    match Field::try_from(&value.children[i]) {
                        Ok(child) => {
                            fields.push(child);
                        },
                        Err(e) => {
                            assert(!value@.children[i as int].has_arrow_field());
                            return Err(e);
                        },
                    }
                    i = i + 1;
                }
                DataType::Struct(fields)
            },
            GenericDataType::Union => {
                let mut variants: Vec<(i8, Field)> = Vec::new();
                let n: usize = value.children.len();
                if n > 128 {
                    return fail(ErrorKind::Schema, "a union has at most 128 variants");
                }
                let mut i: usize = 0;
                while i < n
                    invariant
                        n == value.children@.len(),
                        n == value@.children.len(),
                        n <= 128,
                        value@.data_type is Union,
                        i <= n,
                        forall|k: int|
                            0 <= k < n ==> #[trigger] value@.children[k] == value.children@[k]@,
                        forall|k: int|
                            0 <= k < n ==> decreases_to!(value => #[trigger] value.children@[k]),
                        variants@.len() == i,
                        forall|k: int|
                            0 <= k < i ==> (#[trigger] variants@[k]).0 == k && represents(
                                variants@[k].1,
                                value@.children[k],
                            ),
                        forall|k: int|
                            0 <= k < i ==> (#[trigger] value@.children[k]).has_arrow_field(),
                    decreases n - i,
                {
                    match Field::try_from(&value.children[i]) {
                        Ok(child) => {
                            variants.push((i as i8, child));
                        },
                        Err(e) => {
                            assert(!value@.children[i as int].has_arrow_field());
                            return Err(e);
                        },
                    }
                    i = i + 1;
                }
                DataType::Union(variants, UnionMode::Dense)
            },
            GenericDataType::Dictionary => {
                if value.children.len() < 2 {
                    return fail(ErrorKind::Schema, "Dictionary must a two children");
                }
                proof {
                    value.children@[0].lemma_view();
                }
                let key_field = &value.children[0];
                let val_field = match Field::try_from(&value.children[1]) {
                    Ok(val_field) => val_field,
                    Err(e) => {
                        return Err(e);
                    },
                };
                if !key_field.data_type.has_integer_type() {
                    return fail(ErrorKind::Schema, "Invalid key type for dictionary");
                }
                let key_type = match primitive_arrow_type(key_field.data_type) {
                    Some(key_type) => key_type,
                    None => {
                        return fail(ErrorKind::Schema, "Invalid key type for dictionary");
                    },
                };
                DataType::Dictionary(Box::new(key_type), Box::new(val_field.data_type))
            },
            primitive => match primitive_arrow_type(primitive) {
                Some(data_type) => data_type,
                None => {
                    return fail(ErrorKind::Schema, "the data type is not supported");
                },
            },
        };
        let mut field = Field::new(value.name.as_str(), data_type, value.nullable);
        match value.strategy {
            Some(strategy) => {
                field.metadata.push((STRATEGY_KEY.to_owned(), strategy.name().to_owned()));
            },
            None => {},
        }
        Ok(field)
    }
}

} // verus!
