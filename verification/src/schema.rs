//! The generic schema: a tree of fields over a closed set of data types.
use vstd::prelude::*;
use crate::error::{fail, fails_with, Error, ErrorKind};
use crate::text::str_eq;

verus! {

/// The metadata key under which a field's strategy travels.
pub const STRATEGY_KEY: &'static str = "SERDE_ARROW:strategy";

/// The data types a field can have.
#[derive(Debug, Clone, Copy, PartialEq, Eq, Structural)]
pub enum GenericDataType {
    Null,
    Bool,
    I8,
    I16,
    I32,
    I64,
    U8,
    U16,
    U32,
    U64,
    F16,
    F32,
    F64,
    Utf8,
    LargeUtf8,
    Date64,
    Struct,
    List,
    LargeList,
    Union,
    /// A map from keys to values, laid out as a list of entries.
    KeyValueMap,
    Dictionary,
}

impl GenericDataType {
    /// Whether the type is a signed or unsigned integer of any width.
    pub open spec fn is_integer(self) -> bool {
        self is I8 || self is I16 || self is I32 || self is I64 || self is U8 || self is U16
            || self is U32 || self is U64
    }

    /// Whether the type is one of the two string types.
    pub open spec fn is_string(self) -> bool {
        self is Utf8 || self is LargeUtf8
    }

    /// Whether fields of the type have children.
    pub open spec fn is_nested(self) -> bool {
        self is Struct || self is List || self is LargeList || self is Union || self is KeyValueMap
            || self is Dictionary
    }

    /// Executable form of [`Self::is_integer`].
    pub fn has_integer_type(&self) -> (res: bool)
        ensures
            res == self.is_integer(),
    {
        match self {
            GenericDataType::I8
            | GenericDataType::I16
            | GenericDataType::I32
            | GenericDataType::I64
            | GenericDataType::U8
            | GenericDataType::U16
            | GenericDataType::U32
            | GenericDataType::U64 => true,
            _ => false,
        }
    }

    /// Executable form of [`Self::is_string`].
    pub fn has_string_type(&self) -> (res: bool)
        ensures
            res == self.is_string(),
    {
        match self {
            GenericDataType::Utf8 | GenericDataType::LargeUtf8 => true,
            _ => false,
        }
    }

    /// Executable form of [`Self::is_nested`].
    pub fn has_nested_type(&self) -> (res: bool)
        ensures
            res == self.is_nested(),
    {
        match self {
            GenericDataType::Struct
            | GenericDataType::List
            | GenericDataType::LargeList
            | GenericDataType::Union
            | GenericDataType::KeyValueMap
            | GenericDataType::Dictionary => true,
            _ => false,
        }
    }
}

/// A hint that selects another representation of a field without another
/// data type.
#[derive(Debug, Clone, Copy, PartialEq, Eq, Structural)]
pub enum Strategy {
    /// `Date64` fed from strings in UTC with a `Z` suffix.
    UtcStrAsDate64,
    /// `Date64` fed from strings without a time zone.
    NaiveStrAsDate64,
    /// A struct whose records arrive as maps of key and value.
    MapAsStruct,
    /// A struct whose records arrive as sequences of fixed length.
    TupleAsStruct,
    /// The placeholder of a union variant that must never be selected.
    UnknownVariant,
}

impl Strategy {
    /// The name under which the strategy is written to metadata.
    pub open spec fn name_spec(self) -> Seq<char> {
        match self {
            Strategy::UtcStrAsDate64 => "UtcStrAsDate64"@,
            Strategy::NaiveStrAsDate64 => "NaiveStrAsDate64"@,
            Strategy::MapAsStruct => "MapAsStruct"@,
            Strategy::TupleAsStruct => "TupleAsStruct"@,
            Strategy::UnknownVariant => "UnknownVariant"@,
        }
    }

    /// The second name under which metadata may carry a strategy: the two
    /// date strategies are also known by the kind of text they read.
    pub open spec fn second_name_spec(self) -> Option<Seq<char>> {
        match self {
            Strategy::UtcStrAsDate64 => Some("UtcDateTimeStr"@),
            Strategy::NaiveStrAsDate64 => Some("NaiveDateTimeStr"@),
            _ => None,
        }
    }

    /// The strategy with the given name, if there is one. A strategy is
    /// written under its own name and read under either of its names.
    pub open spec fn parse_spec(name: Seq<char>) -> Option<Strategy> {
        if name == Strategy::UtcStrAsDate64.name_spec() {
            Some(Strategy::UtcStrAsDate64)
        } else if name == Strategy::NaiveStrAsDate64.name_spec() {
            Some(Strategy::NaiveStrAsDate64)
        } else if name == Strategy::MapAsStruct.name_spec() {
            Some(Strategy::MapAsStruct)
        } else if name == Strategy::TupleAsStruct.name_spec() {
            Some(Strategy::TupleAsStruct)
        } else if name == Strategy::UnknownVariant.name_spec() {
            Some(Strategy::UnknownVariant)
        } else if Strategy::UtcStrAsDate64.second_name_spec() == Some(name) {
            Some(Strategy::UtcStrAsDate64)
        } else if Strategy::NaiveStrAsDate64.second_name_spec() == Some(name) {
            Some(Strategy::NaiveStrAsDate64)
        } else {
            None
        }
    }

    /// The name under which the strategy is written to metadata.
    pub fn name(&self) -> (res: &'static str)
        ensures
            res@ == self.name_spec(),
    {
        match self {
            Strategy::UtcStrAsDate64 => "UtcStrAsDate64",
            Strategy::NaiveStrAsDate64 => "NaiveStrAsDate64",
            Strategy::MapAsStruct => "MapAsStruct",
            Strategy::TupleAsStruct => "TupleAsStruct",
            Strategy::UnknownVariant => "UnknownVariant",
        }
    }

    /// Reads a strategy from either of its names; any other text is
    /// rejected.
    pub fn from_str(s: &str) -> (res: Result<Strategy, Error>)
        ensures
            match Strategy::parse_spec(s@) {
                Some(strategy) => res == Ok::<Strategy, Error>(strategy),
                None => fails_with(res, ErrorKind::Strategy),
            },
    {
        if str_eq(s, "UtcStrAsDate64") {
            Ok(Strategy::UtcStrAsDate64)
        } else if str_eq(s, "NaiveStrAsDate64") {
            Ok(Strategy::NaiveStrAsDate64)
        } else if str_eq(s, "MapAsStruct") {
            Ok(Strategy::MapAsStruct)
        } else if str_eq(s, "TupleAsStruct") {
            Ok(Strategy::TupleAsStruct)
        } else if str_eq(s, "UnknownVariant") {
            Ok(Strategy::UnknownVariant)
        } else if str_eq(s, "UtcDateTimeStr") {
            Ok(Strategy::UtcStrAsDate64)
        } else if str_eq(s, "NaiveDateTimeStr") {
            Ok(Strategy::NaiveStrAsDate64)
        } else {
            fail(ErrorKind::Strategy, "Unknown strategy")
        }
    }
}

/// Every strategy is read back from its own name.
pub proof fn lemma_strategy_name_round_trip(strategy: Strategy)
    ensures
        Strategy::parse_spec(strategy.name_spec()) == Some(strategy),
{
    reveal_strlit("UtcStrAsDate64");
    reveal_strlit("NaiveStrAsDate64");
    reveal_strlit("MapAsStruct");
    reveal_strlit("TupleAsStruct");
    reveal_strlit("UnknownVariant");
    assert("UtcStrAsDate64"@.len() == 14);
    assert("NaiveStrAsDate64"@.len() == 16);
    assert("MapAsStruct"@.len() == 11);
    assert("TupleAsStruct"@.len() == 13);
    assert("UnknownVariant"@.len() == 14);
    assert("UtcStrAsDate64"@[1] == 't');
    assert("UnknownVariant"@[1] == 'n');
}

/// A strategy is read back from its second name, where it has one.
pub proof fn lemma_strategy_second_name(strategy: Strategy)
    requires
        strategy.second_name_spec() is Some,
    ensures
        Strategy::parse_spec(strategy.second_name_spec().unwrap()) == Some(strategy),
{
    reveal_strlit("UtcStrAsDate64");
    reveal_strlit("NaiveStrAsDate64");
    reveal_strlit("MapAsStruct");
    reveal_strlit("TupleAsStruct");
    reveal_strlit("UnknownVariant");
    reveal_strlit("UtcDateTimeStr");
    reveal_strlit("NaiveDateTimeStr");
    assert("UtcStrAsDate64"@.len() == 14);
    assert("NaiveStrAsDate64"@.len() == 16);
    assert("MapAsStruct"@.len() == 11);
    assert("TupleAsStruct"@.len() == 13);
    assert("UnknownVariant"@.len() == 14);
    assert("UtcDateTimeStr"@.len() == 14);
    assert("NaiveDateTimeStr"@.len() == 16);
    assert("UtcStrAsDate64"@[3] == 'S');
    assert("UnknownVariant"@[3] == 'n');
    assert("UtcDateTimeStr"@[3] == 'D');
    assert("NaiveStrAsDate64"@[5] == 'S');
    assert("NaiveDateTimeStr"@[5] == 'D');
}

/// One field of a schema, with the fields nested in it.
#[derive(Debug, PartialEq)]
pub struct GenericField {
    pub name: String,
    pub data_type: GenericDataType,
    pub nullable: bool,
    pub strategy: Option<Strategy>,
    pub children: Vec<GenericField>,
}

/// The mathematical value of a [`GenericField`].
pub struct FieldView {
    pub name: Seq<char>,
    pub data_type: GenericDataType,
    pub nullable: bool,
    pub strategy: Option<Strategy>,
    pub children: Seq<FieldView>,
}

/// The view of a field: its own attributes and the views of its children.
pub open spec fn field_view(field: GenericField) -> FieldView
    decreases field,
{
    FieldView {
        name: field.name@,
        data_type: field.data_type,
        nullable: field.nullable,
        strategy: field.strategy,
        children: Seq::new(
            field.children@.len(),
            |i: int|
                if 0 <= i < field.children@.len() {
                    field_view(field.children@[i])
                } else {
                    arbitrary()
                },
        ),
    }
}

impl View for GenericField {
    type V = FieldView;

    open spec fn view(&self) -> FieldView {
        field_view(*self)
    }
}

impl FieldView {
    /// Whether no two children have the same name.
    pub open spec fn has_unique_child_names(self) -> bool {
        unique_names(self.children)
    }

    /// What the data type asks of the field's own children, not looking
    /// into them.
    pub open spec fn has_valid_shape(self) -> bool {
        match self.data_type {
            GenericDataType::List | GenericDataType::LargeList => self.children.len() == 1,
            GenericDataType::KeyValueMap => self.has_map_shape(),
            GenericDataType::Struct => self.has_unique_child_names(),
            GenericDataType::Union => true,
            GenericDataType::Dictionary => {
                &&& self.children.len() == 2
                &&& self.children[0].data_type.is_integer()
                &&& self.children[1].data_type.is_string()
            },
            _ => self.children.len() == 0,
        }
    }

    /// Whether the only child is a non-nullable struct of two fields, the
    /// key and the value.
    pub open spec fn has_map_shape(self) -> bool {
        &&& self.children.len() == 1
        &&& self.children[0].data_type is Struct
        &&& !self.children[0].nullable
        &&& self.children[0].children.len() == 2
    }

    /// Whether the field and every field below it has a valid shape.
    pub open spec fn is_valid(self) -> bool
        decreases self,
    {
        &&& self.has_valid_shape()
        &&& forall|i: int|
            0 <= i < self.children.len() ==> (#[trigger] self.children[i]).is_valid()
    }
}

impl GenericField {
    /// Unfolds the view by one level.
    pub proof fn lemma_view(&self)
        ensures
            self@.name == self.name@,
            self@.data_type == self.data_type,
            self@.nullable == self.nullable,
            self@.strategy == self.strategy,
            self@.children.len() == self.children@.len(),
            forall|i: int|
                0 <= i < self.children@.len() ==> #[trigger] self@.children[i]
                    == self.children@[i]@,
    {
    }
}

impl Clone for GenericField {
    fn clone(&self) -> (res: GenericField)
        ensures
            res@ == self@,
        decreases self,
    {
        let mut children: Vec<GenericField> = Vec::new();
        let n: usize = self.children.len();
        let mut i: usize = 0;
        while i < n
            invariant
                n == self.children@.len(),
                i <= n,
                children@.len() == i,
                forall|k: int| 0 <= k < i ==> children@[k]@ == self.children@[k]@,
            decreases n - i,
        {
            let child = self.children[i].clone();
            children.push(child);
            i = i + 1;
        }
        let res = GenericField {
            name: self.name.clone(),
            data_type: self.data_type,
            nullable: self.nullable,
            strategy: self.strategy,
            children,
        };
        proof {
            res.lemma_view();
            self.lemma_view();
            assert(res@.children =~= self@.children);
        }
        res
    }
}

impl GenericField {
    /// A field without strategy and without children.
    pub fn new(name: &str, data_type: GenericDataType, nullable: bool) -> (res: GenericField)
        ensures
            res@ == (FieldView {
                name: name@,
                data_type,
                nullable,
                strategy: None,
                children: Seq::empty(),
            }),
    {
        let res = GenericField {
            name: name.to_owned(),
            data_type,
            nullable,
            strategy: None,
            children: Vec::new(),
        };
        assert(res@.children =~= Seq::empty());
        res
    }

    /// The same field with the given strategy.
    pub fn with_strategy(self, strategy: Strategy) -> (res: GenericField)
        ensures
            res@ == (FieldView { strategy: Some(strategy), ..self@ }),
    {
        proof {
            self.lemma_view();
        }
        let mut res = self;
        res.strategy = Some(strategy);
        proof {
            res.lemma_view();
            assert(res@.children =~= self@.children);
        }
        res
    }

    /// The same field with one more child at the end.
    pub fn with_child(self, child: GenericField) -> (res: GenericField)
        ensures
            res@ == (FieldView { children: self@.children.push(child@), ..self@ }),
    {
        proof {
            self.lemma_view();
        }
        let mut res = self;
        res.children.push(child);
        proof {
            res.lemma_view();
            assert(res@.children =~= self@.children.push(child@));
        }
        res
    }

    /// Whether no two children have the same name.
    pub fn has_unique_child_names(&self) -> (res: bool)
        ensures
            res == self@.has_unique_child_names(),
    {
        proof {
            self.lemma_view();
            assert(views_of(self.children@) =~= self@.children);
        }
        have_unique_names(self.children.as_slice())
    }

    /// Whether the only child is a non-nullable struct of two fields.
    pub fn has_map_shape(&self) -> (res: bool)
        ensures
            res == self@.has_map_shape(),
    {
        proof {
            self.lemma_view();
        }
        if self.children.len() != 1 {
            return false;
        }
        let entries = &self.children[0];
        proof {
            entries.lemma_view();
        }
        matches!(entries.data_type, GenericDataType::Struct) && !entries.nullable
            && entries.children.len() == 2
    }

    /// Checks that a map field has the shape of a map.
    pub fn validate_map(&self) -> (res: Result<(), Error>)
        ensures
            res is Ok <==> self@.has_map_shape(),
            res is Err ==> fails_with(res, ErrorKind::Schema),
    {
        if self.has_map_shape() {
            Ok(())
        } else {
            fail(ErrorKind::Schema, "a map must have a single non-nullable struct child with a key and a value field")
        }
    }

    /// Whether the field's own children are what its data type asks for.
    pub fn has_valid_shape(&self) -> (res: bool)
        ensures
            res == self@.has_valid_shape(),
    {
        proof {
            self.lemma_view();
            if self.children@.len() == 2 {
                self.children@[0].lemma_view();
                self.children@[1].lemma_view();
            }
        }
        match self.data_type {
            GenericDataType::List | GenericDataType::LargeList => self.children.len() == 1,
            GenericDataType::KeyValueMap => self.has_map_shape(),
            GenericDataType::Struct => self.has_unique_child_names(),
            GenericDataType::Union => true,
            GenericDataType::Dictionary => {
                self.children.len() == 2 && self.children[0].data_type.has_integer_type()
                    && self.children[1].data_type.has_string_type()
            },
            _ => self.children.len() == 0,
        }
    }

    /// Checks the field and every field below it against the shape that its
    /// data type asks for.
    pub fn validate(&self) -> (res: Result<(), Error>)
        ensures
            res is Ok <==> self@.is_valid(),
            res is Err ==> fails_with(res, ErrorKind::Schema),
        decreases self,
    {
        if !self.has_valid_shape() {
            return fail(ErrorKind::Schema, "the children of a field do not fit its data type");
        }
        proof {
            self.lemma_view();
        }
        let n: usize = self.children.len();
        let mut i: usize = 0;
        while i < n
            invariant
                n == self.children@.len(),
                n == self@.children.len(),
                forall|k: int| 0 <= k < n ==> #[trigger] self@.children[k] == self.children@[k]@,
                i <= n,
                self@.has_valid_shape(),
                forall|k: int| 0 <= k < i ==> (#[trigger] self@.children[k]).is_valid(),
            decreases n - i,
        {
            match self.children[i].validate() {
                Ok(()) => {},
                Err(e) => {
                    assert(!self@.children[i as int].is_valid());
                    return Err(e);
                },
            }
            i = i + 1;
        }
        Ok(())
    }
}

/// Whether no two of the fields have the same name.
pub open spec fn unique_names(fields: Seq<FieldView>) -> bool {
    forall|i: int, j: int| 0 <= i < j < fields.len() ==> fields[i].name != fields[j].name
}

/// Whether no two of the fields have the same name.
pub fn have_unique_names(fields: &[GenericField]) -> (res: bool)
    ensures
        res == unique_names(views_of(fields@)),
{
    let n: usize = fields.len();
    let mut j: usize = 0;
    while j < n
        invariant
            n == fields@.len(),
            j <= n,
            forall|a: int, b: int| 0 <= a < b < j ==> fields@[a]@.name != fields@[b]@.name,
        decreases n - j,
    {
        let mut i: usize = 0;
        while i < j
            invariant
                n == fields@.len(),
                j < n,
                i <= j,
                forall|a: int| 0 <= a < i ==> fields@[a]@.name != fields@[j as int]@.name,
            decreases j - i,
        {
            proof {
                fields@[i as int].lemma_view();
                fields@[j as int].lemma_view();
            }
            if fields[i].name == fields[j].name {
                assert(views_of(fields@)[i as int].name == views_of(fields@)[j as int].name);
                return false;
            }
            i = i + 1;
        }
        j = j + 1;
    }
    assert forall|a: int, b: int| 0 <= a < b < views_of(fields@).len() implies views_of(
        fields@,
    )[a].name != views_of(fields@)[b].name by {
        assert(views_of(fields@)[a] == fields@[a]@);
        assert(views_of(fields@)[b] == fields@[b]@);
    }
    true
}

/// The views of a list of fields, in order.
pub open spec fn views_of(fields: Seq<GenericField>) -> Seq<FieldView> {
    Seq::new(fields.len(), |i: int| fields[i]@)
}

} // verus!
