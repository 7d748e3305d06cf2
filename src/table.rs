use vstd::prelude::*;
use vstd::string::*;

use crate::value::SqlValue;

verus! {

/// One column of one table, identified by the pair (table, name).
pub struct Field {
    pub table: String,
    pub name: String,
}

/// A table: its name and its columns in declaration order.
pub struct Table {
    pub name: String,
    pub fields: Vec<Field>,
}

/// Why a table definition was refused.
#[derive(Debug, PartialEq, Eq, Structural)]
pub enum SchemaError {
    /// Two columns of the table carry the same name.
    DuplicateColumn,
}

/// The value a column assignment binds: the backend's own default, or an explicit value.
pub enum FieldValue {
    Default,
    Value(SqlValue),
}

/// An assignment of a value to one column, the unit of an INSERT's column list.
pub struct SetField<'a> {
    pub field: &'a Field,
    pub value: FieldValue,
}

/// The condition "field equals a bound value".
pub struct EqValue<'a> {
    pub field: &'a Field,
    pub value: SqlValue,
}

/// The condition "field equals another field".
pub struct EqField<'a> {
    pub left: &'a Field,
    pub right: &'a Field,
}

/// No two of the strings are equal.
pub open spec fn distinct_names(s: Seq<Seq<char>>) -> bool {
    forall|i: int, j: int| 0 <= i < j < s.len() ==> s[i] != s[j]
}

/// The names of a sequence of fields, in order.
pub open spec fn field_names(fs: Seq<Field>) -> Seq<Seq<char>> {
    fs.map_values(|f: Field| f.name@)
}

/// The views of a sequence of strings.
pub open spec fn string_views(ss: Seq<String>) -> Seq<Seq<char>> {
    ss.map_values(|s: String| s@)
}

impl Field {
    pub fn new(table: String, name: String) -> (r: Field)
        ensures
            r.table@ == table@,
            r.name@ == name@,
    {
        Field { table, name }
    }

    pub fn name(&self) -> (r: &str)
        ensures
            r@ == self.name@,
    {
        self.name.as_str()
    }

    /// The column name prefixed by its table and a dot.
    pub fn qualified_name(&self) -> (r: String)
        ensures
            r@ == self.table@ + seq!['.'] + self.name@,
    {
        let mut r = self.table.clone();
        r.append(".");
        proof {
            reveal_strlit(".");
        }
        r.append(self.name.as_str());
        r
    }

    /// Identity comparison: same table and same column name.
    pub fn same_identity(&self, other: &Field) -> (r: bool)
        ensures
            r == (self.table@ == other.table@ && self.name@ == other.name@),
    {
        self.table == other.table && self.name == other.name
    }

    pub fn eq<'a>(&'a self, value: SqlValue) -> (r: EqValue<'a>)
        ensures
            r.field == self,
            r.value == value,
    {
        EqValue { field: self, value }
    }

    pub fn same_as<'a>(&'a self, other: &'a Field) -> (r: EqField<'a>)
        ensures
            r.left == self,
            r.right == other,
    {
        EqField { left: self, right: other }
    }

    pub fn set<'a>(&'a self, value: SqlValue) -> (r: SetField<'a>)
        ensures
            r.field == self,
            r.value == FieldValue::Value(value),
    {
        SetField { field: self, value: FieldValue::Value(value) }
    }

    pub fn set_default<'a>(&'a self) -> (r: SetField<'a>)
        ensures
            r.field == self,
            r.value == FieldValue::Default,
    {
        SetField { field: self, value: FieldValue::Default }
    }
}

impl FieldValue {
    pub fn is_default(&self) -> (r: bool)
        ensures
            r == (*self is Default),
    {
        match self {
            FieldValue::Default => true,
            _ => false,
        }
    }

    pub fn is_value(&self) -> (r: bool)
        ensures
            r == (*self is Value),
    {
        match self {
            FieldValue::Value(_) => true,
            _ => false,
        }
    }

    pub fn from(v: SqlValue) -> (r: FieldValue)
        ensures
            r == FieldValue::Value(v),
    {
        FieldValue::Value(v)
    }
}

impl Table {
    /// Every field belongs to this table and no two fields share a name.
    pub open spec fn wf(&self) -> bool {
        &&& distinct_names(field_names(self.fields@))
        &&& forall|i: int| 0 <= i < self.fields@.len() ==> (#[trigger] self.fields@[i]).table@ == self.name@
    }

    /// Defines a table from its name and its column names, in order.
    /// Refused when two columns share a name.
    pub fn new(name: String, columns: Vec<String>) -> (r: Result<Table, SchemaError>)
        ensures
            r is Ok <==> distinct_names(string_views(columns@)),
            r matches Ok(t) ==> {
                &&& t.wf()
                &&& t.name@ == name@
                &&& field_names(t.fields@) == string_views(columns@)
            },
            r matches Err(e) ==> e == SchemaError::DuplicateColumn,
    {
        let n = columns.len();
        let mut j: usize = 0;
        while j < n
            invariant
                n == columns@.len(),
                j <= n,
                forall|a: int, b: int| 0 <= a < b < j ==> columns@[a]@ != columns@[b]@,
            decreases n - j,
        {
            let mut i: usize = 0;
            while i < j
                invariant
                    n == columns@.len(),
                    i <= j < n,
                    forall|a: int| 0 <= a < i ==> columns@[a]@ != columns@[j as int]@,
                decreases j - i,
            {
                if columns[i] == columns[j] {
                    proof {
                        assert(string_views(columns@)[i as int] == string_views(columns@)[j as int]);
                    }
                    return Err(SchemaError::DuplicateColumn);
                }
                i = i + 1;
            }
            j = j + 1;
        }
        let mut fields: Vec<Field> = Vec::new();
        let mut k: usize = 0;
        while k < n
            invariant
                n == columns@.len(),
                k <= n,
                fields@.len() == k,
                forall|a: int| 0 <= a < k ==> (#[trigger] fields@[a]).name@ == columns@[a]@
                    && fields@[a].table@ == name@,
            decreases n - k,
        {
            fields.push(Field { table: name.clone(), name: columns[k].clone() });
            k = k + 1;
        }
        let t = Table { name, fields };
        proof {
            assert(field_names(t.fields@) =~= string_views(columns@));
        }
        Ok(t)
    }

    pub fn name(&self) -> (r: &str)
        ensures
            r@ == self.name@,
    {
        self.name.as_str()
    }

    pub fn fields(&self) -> (r: &Vec<Field>)
        ensures
            r@ == self.fields@,
    {
        &self.fields
    }
}

/// Within a well-formed table no two fields have the same identity:
/// their (table, name) pairs are pairwise different.
pub proof fn lemma_field_identities_unique(t: &Table)
    requires
        t.wf(),
    ensures
        forall|i: int, j: int|
            0 <= i < j < t.fields@.len() ==> (t.fields@[i].table@, t.fields@[i].name@) != (
                t.fields@[j].table@,
                t.fields@[j].name@,
            ),
{
    assert forall|i: int, j: int| 0 <= i < j < t.fields@.len() implies (
        t.fields@[i].table@,
        t.fields@[i].name@,
    ) != (t.fields@[j].table@, t.fields@[j].name@) by {
        assert(field_names(t.fields@)[i] != field_names(t.fields@)[j]);
    }
}

} // verus!
