use vstd::prelude::*;

use crate::sql::Backend;
use crate::table::{distinct_names, field_names, Field, FieldValue, SetField, Table};
use crate::value::SqlValue;

verus! {

/// The largest value of a signed 64-bit column.
pub const I64_MAX: u64 = 0x7fff_ffff_ffff_ffff;

/// The domain value of one field of a record.
pub enum FieldData {
    U64(u64),
    I64(i64),
    Bool(bool),
    Text(String),
    OptText(Option<String>),
}

/// The type of one field of a record, which tells how to read it back from a row.
#[derive(Clone, Copy, Debug, PartialEq, Eq, Structural)]
pub enum FieldKind {
    U64,
    I64,
    Bool,
    Text,
    OptText,
}

/// Why a value could not cross the boundary between record and row.
#[derive(Debug, PartialEq, Eq, Structural)]
pub enum MappingError {
    /// The value does not fit the target type.
    OutOfRange,
    /// The column holds a scalar of another type than the field expects.
    TypeMismatch,
}

pub open spec fn kind_of(d: FieldData) -> FieldKind {
    match d {
        FieldData::U64(_) => FieldKind::U64,
        FieldData::I64(_) => FieldKind::I64,
        FieldData::Bool(_) => FieldKind::Bool,
        FieldData::Text(_) => FieldKind::Text,
        FieldData::OptText(_) => FieldKind::OptText,
    }
}

/// How a field is written for a backend: `None` when the field is absent
/// and its column is left out. Backends without an unsigned 64-bit column
/// store such values as signed and refuse those that would not fit.
pub open spec fn encode_spec(b: Backend, d: FieldData) -> Result<Option<SqlValue>, MappingError> {
    match d {
        FieldData::U64(v) => match b {
            Backend::MySql => Ok(Some(SqlValue::UInt(v))),
            _ => if v <= I64_MAX {
                Ok(Some(SqlValue::Int(v as i64)))
            } else {
                Err(MappingError::OutOfRange)
            },
        },
        FieldData::I64(v) => Ok(Some(SqlValue::Int(v))),
        FieldData::Bool(x) => match b {
            Backend::Sqlite => Ok(Some(SqlValue::SmallInt(if x { 1 } else { 0 }))),
            _ => Ok(Some(SqlValue::Bool(x))),
        },
        FieldData::Text(s) => Ok(Some(SqlValue::Text(s))),
        FieldData::OptText(None) => Ok(None),
        FieldData::OptText(Some(s)) => Ok(Some(SqlValue::Text(s))),
    }
}

/// The field is present and accepted: it yields a column assignment.
pub open spec fn present(b: Backend, d: FieldData) -> bool {
    encode_spec(b, d) is Ok && encode_spec(b, d)->Ok_0 is Some
}

/// The scalar a present field is written as.
pub open spec fn encoded(b: Backend, d: FieldData) -> SqlValue {
    encode_spec(b, d)->Ok_0->0
}

/// How a column's scalar is read back as a field of the given kind; values
/// outside the field's range are refused, never wrapped.
pub open spec fn decode_spec(k: FieldKind, v: SqlValue) -> Result<FieldData, MappingError> {
    match k {
        FieldKind::U64 => match v {
            SqlValue::Int(i) => if i >= 0 {
                Ok(FieldData::U64(i as u64))
            } else {
                Err(MappingError::OutOfRange)
            },
            SqlValue::UInt(u) => Ok(FieldData::U64(u)),
            _ => Err(MappingError::TypeMismatch),
        },
        FieldKind::I64 => match v {
            SqlValue::Int(i) => Ok(FieldData::I64(i)),
            SqlValue::UInt(u) => if u <= I64_MAX {
                Ok(FieldData::I64(u as i64))
            } else {
                Err(MappingError::OutOfRange)
            },
            _ => Err(MappingError::TypeMismatch),
        },
        FieldKind::Bool => match v {
            SqlValue::Bool(x) => Ok(FieldData::Bool(x)),
            SqlValue::SmallInt(i) => if i == 0 {
                Ok(FieldData::Bool(false))
            } else if i == 1 {
                Ok(FieldData::Bool(true))
            } else {
                Err(MappingError::OutOfRange)
            },
            _ => Err(MappingError::TypeMismatch),
        },
        FieldKind::Text => match v {
            SqlValue::Text(s) => Ok(FieldData::Text(s)),
            _ => Err(MappingError::TypeMismatch),
        },
        FieldKind::OptText => match v {
            SqlValue::Null => Ok(FieldData::OptText(None)),
            SqlValue::Text(s) => Ok(FieldData::OptText(Some(s))),
            _ => Err(MappingError::TypeMismatch),
        },
    }
}

/// The column assignments of a record whose i-th field maps to `fields[i]`:
/// one per present field, in field order; the first refusal otherwise.
pub open spec fn values_spec(b: Backend, fields: Seq<Field>, rec: Seq<FieldData>) -> Result<
    Seq<(Field, FieldValue)>,
    MappingError,
>
    decreases rec.len(),
{
    if rec.len() == 0 {
        Ok(Seq::empty())
    } else {
        match values_spec(b, fields, rec.drop_last()) {
            Err(e) => Err(e),
            Ok(acc) => match encode_spec(b, rec.last()) {
                Err(e) => Err(e),
                Ok(None) => Ok(acc),
                Ok(Some(v)) => Ok(acc.push((fields[rec.len() - 1], FieldValue::Value(v)))),
            },
        }
    }
}

pub open spec fn set_pairs(sets: Seq<SetField>) -> Seq<(Field, FieldValue)> {
    sets.map_values(|s: SetField| (*s.field, s.value))
}

/// What a row holds for an assignment: the bound value, or null where the
/// backend's default applies.
pub open spec fn stored(v: FieldValue) -> SqlValue {
    match v {
        FieldValue::Default => SqlValue::Null,
        FieldValue::Value(x) => x,
    }
}

/// `v` is what the assignments write to the column of `f`: the first one
/// naming that column, or null when none does.
pub open spec fn row_entry(pairs: Seq<(Field, FieldValue)>, f: Field, v: SqlValue) -> bool {
    ||| exists|p: int|
        0 <= p < pairs.len() && (#[trigger] pairs[p]).0.name@ == f.name@ && (forall|q: int|
            0 <= q < p ==> (#[trigger] pairs[q]).0.name@ != f.name@) && v == stored(pairs[p].1)
    ||| (forall|p: int| 0 <= p < pairs.len() ==> (#[trigger] pairs[p]).0.name@ != f.name@) && v
        is Null
}

/// Facts on the assignments of a record: every field was accepted, each
/// present field has its assignment, and each assignment comes from a present field.
pub proof fn lemma_values_facts(b: Backend, fields: Seq<Field>, rec: Seq<FieldData>)
    requires
        rec.len() <= fields.len(),
        values_spec(b, fields, rec) is Ok,
    ensures
        forall|k: int| 0 <= k < rec.len() ==> encode_spec(b, #[trigger] rec[k]) is Ok,
        forall|k: int|
            0 <= k < rec.len() && present(b, #[trigger] rec[k]) ==> exists|p: int|
                0 <= p < values_spec(b, fields, rec)->Ok_0.len() && #[trigger] values_spec(
                    b,
                    fields,
                    rec,
                )->Ok_0[p] == (fields[k], FieldValue::Value(encoded(b, rec[k]))),
        forall|p: int|
            0 <= p < values_spec(b, fields, rec)->Ok_0.len() ==> exists|k: int|
                0 <= k < rec.len() && present(b, rec[k]) && (#[trigger] values_spec(
                    b,
                    fields,
                    rec,
                )->Ok_0[p]) == (fields[k], FieldValue::Value(encoded(b, rec[k]))),
    decreases rec.len(),
{
    if rec.len() > 0 {
        let init = rec.drop_last();
        lemma_values_facts(b, fields, init);
        let acc = values_spec(b, fields, init)->Ok_0;
        let vals = values_spec(b, fields, rec)->Ok_0;
        let last = rec.len() - 1;
        assert(rec[last] == rec.last());
        assert forall|k: int| 0 <= k < rec.len() implies encode_spec(b, #[trigger] rec[k]) is Ok by {
            if k < last {
                assert(init[k] == rec[k]);
            }
        }
        assert forall|k: int| 0 <= k < rec.len() && present(b, #[trigger] rec[k]) implies exists|p: int|
            0 <= p < vals.len() && #[trigger] vals[p] == (fields[k], FieldValue::Value(encoded(b, rec[k]))) by {
            let v = encoded(b, rec[k]);
            if k < last {
                assert(init[k] == rec[k]);
                let p = choose|p: int|
                    0 <= p < acc.len() && #[trigger] acc[p] == (fields[k], FieldValue::Value(v));
                assert(vals[p] == acc[p]);
            } else {
                assert(vals[acc.len() as int] == (fields[k], FieldValue::Value(v)));
            }
        }
        assert forall|p: int| 0 <= p < vals.len() implies exists|k: int|
            0 <= k < rec.len() && present(b, rec[k]) && (#[trigger] vals[p]) == (
                fields[k],
                FieldValue::Value(encoded(b, rec[k])),
            ) by {
            if p < acc.len() {
                assert(vals[p] == acc[p]);
                let k = choose|k: int|
                    0 <= k < init.len() && present(b, init[k]) && (#[trigger] acc[p]) == (
                        fields[k],
                        FieldValue::Value(encoded(b, init[k])),
                    );
                assert(init[k] == rec[k]);
            } else {
                assert(vals[p] == (fields[last], FieldValue::Value(encoded(b, rec[last]))));
            }
        }
    }
}

/// Reading back what a field was written as gives the field again.
pub proof fn lemma_decode_encoded(b: Backend, d: FieldData)
    requires
        encode_spec(b, d) is Ok,
    ensures
        present(b, d) ==> decode_spec(kind_of(d), encoded(b, d)) == Ok::<FieldData, MappingError>(d),
        !present(b, d) ==> decode_spec(kind_of(d), SqlValue::Null) == Ok::<FieldData, MappingError>(d),
{
}

proof fn lemma_names_differ(fields: Seq<Field>, i: int, k: int)
    requires
        distinct_names(field_names(fields)),
        0 <= i < fields.len(),
        0 <= k < fields.len(),
        i != k,
    ensures
        fields[i].name@ != fields[k].name@,
{
    assert(field_names(fields)[k] == fields[k].name@);
    assert(field_names(fields)[i] == fields[i].name@);
    if k < i {
        assert(field_names(fields)[k] != field_names(fields)[i]);
    } else {
        assert(field_names(fields)[i] != field_names(fields)[k]);
    }
}

proof fn lemma_row_entry_encoded(
    b: Backend,
    fields: Seq<Field>,
    rec: Seq<FieldData>,
    v: SqlValue,
    i: int,
)
    requires
        distinct_names(field_names(fields)),
        rec.len() == fields.len(),
        values_spec(b, fields, rec) is Ok,
        0 <= i < fields.len(),
        row_entry(values_spec(b, fields, rec)->Ok_0, fields[i], v),
    ensures
        encode_spec(b, rec[i]) is Ok,
        v == if present(b, rec[i]) {
            encoded(b, rec[i])
        } else {
            SqlValue::Null
        },
{
    lemma_values_facts(b, fields, rec);
    let vals = values_spec(b, fields, rec)->Ok_0;
    if exists|p: int| 0 <= p < vals.len() && (#[trigger] vals[p]).0.name@ == fields[i].name@ {
        let p0 = choose|p: int|
            0 <= p < vals.len() && (#[trigger] vals[p]).0.name@ == fields[i].name@ && (forall|q: int|
                0 <= q < p ==> (#[trigger] vals[q]).0.name@ != fields[i].name@) && v == stored(vals[p].1);
        let k0 = choose|k: int|
            0 <= k < rec.len() && present(b, rec[k]) && (#[trigger] vals[p0]) == (
                fields[k],
                FieldValue::Value(encoded(b, rec[k])),
            );
        if k0 != i {
            lemma_names_differ(fields, i, k0);
        }
    } else {
        if present(b, rec[i]) {
            let p = choose|p: int|
                0 <= p < vals.len() && #[trigger] vals[p] == (fields[i], FieldValue::Value(encoded(b, rec[i])));
            assert(vals[p].0.name@ == fields[i].name@);
        }
    }
}

/// Writing a record's assignments into a row and reading that row back with
/// the record's field kinds gives the record again, on every backend, for
/// every record whose fields the backend accepted.
pub proof fn lemma_round_trip(b: Backend, fields: Seq<Field>, rec: Seq<FieldData>, row: Seq<SqlValue>)
    requires
        distinct_names(field_names(fields)),
        rec.len() == fields.len(),
        values_spec(b, fields, rec) is Ok,
        row.len() == fields.len(),
        forall|i: int|
            0 <= i < fields.len() ==> row_entry(values_spec(b, fields, rec)->Ok_0, fields[i], #[trigger] row[i]),
    ensures
        forall|i: int| 0 <= i < rec.len() ==> decode_spec(kind_of(rec[i]), #[trigger] row[i]) == Ok::<FieldData, MappingError>(rec[i]),
{
    assert forall|i: int| 0 <= i < rec.len() implies decode_spec(kind_of(rec[i]), #[trigger] row[i]) == Ok::<FieldData, MappingError>(rec[i]) by {
        lemma_row_entry_encoded(b, fields, rec, row[i], i);
        lemma_decode_encoded(b, rec[i]);
    }
}

/// Writes one field for a backend: `Ok(None)` for an absent field.
pub fn encode(b: Backend, d: &FieldData) -> (r: Result<Option<SqlValue>, MappingError>)
    ensures
        r == encode_spec(b, *d),
{
    match d {
        FieldData::U64(v) => match b {
            Backend::MySql => Ok(Some(SqlValue::UInt(*v))),
            _ => if *v <= I64_MAX {
                Ok(Some(SqlValue::Int(*v as i64)))
            } else {
                Err(MappingError::OutOfRange)
            },
        },
        FieldData::I64(v) => Ok(Some(SqlValue::Int(*v))),
        FieldData::Bool(x) => match b {
            Backend::Sqlite => Ok(Some(SqlValue::SmallInt(if *x { 1 } else { 0 }))),
            _ => Ok(Some(SqlValue::Bool(*x))),
        },
        FieldData::Text(s) => Ok(Some(SqlValue::Text(s.clone()))),
        FieldData::OptText(None) => Ok(None),
        FieldData::OptText(Some(s)) => Ok(Some(SqlValue::Text(s.clone()))),
    }
}

/// Reads one column's scalar back as a field of kind `k`.
pub fn decode(k: FieldKind, v: &SqlValue) -> (r: Result<FieldData, MappingError>)
    ensures
        r == decode_spec(k, *v),
{
    match k {
        FieldKind::U64 => match v {
            SqlValue::Int(i) => if *i >= 0 {
                Ok(FieldData::U64(*i as u64))
            } else {
                Err(MappingError::OutOfRange)
            },
            SqlValue::UInt(u) => Ok(FieldData::U64(*u)),
            _ => Err(MappingError::TypeMismatch),
        },
        FieldKind::I64 => match v {
            SqlValue::Int(i) => Ok(FieldData::I64(*i)),
            SqlValue::UInt(u) => if *u <= I64_MAX {
                Ok(FieldData::I64(*u as i64))
            } else {
                Err(MappingError::OutOfRange)
            },
            _ => Err(MappingError::TypeMismatch),
        },
        FieldKind::Bool => match v {
            SqlValue::Bool(x) => Ok(FieldData::Bool(*x)),
            SqlValue::SmallInt(i) => if *i == 0 {
                Ok(FieldData::Bool(false))
            } else if *i == 1 {
                Ok(FieldData::Bool(true))
            } else {
                Err(MappingError::OutOfRange)
            },
            _ => Err(MappingError::TypeMismatch),
        },
        FieldKind::Text => match v {
            SqlValue::Text(s) => Ok(FieldData::Text(s.clone())),
            _ => Err(MappingError::TypeMismatch),
        },
        FieldKind::OptText => match v {
            SqlValue::Null => Ok(FieldData::OptText(None)),
            SqlValue::Text(s) => Ok(FieldData::OptText(Some(s.clone()))),
            _ => Err(MappingError::TypeMismatch),
        },
    }
}

/// The column assignments of a record for a backend: the i-th field of the
/// record goes to the i-th column of the table; absent fields are left out.
pub fn values<'a>(b: Backend, table: &'a Table, rec: &Vec<FieldData>) -> (r: Result<
    Vec<SetField<'a>>,
    MappingError,
>)
    requires
        rec@.len() == table.fields@.len(),
    ensures
        r is Ok <==> values_spec(b, table.fields@, rec@) is Ok,
        r matches Ok(sets) ==> set_pairs(sets@) == values_spec(b, table.fields@, rec@)->Ok_0,
        r matches Err(e) ==> values_spec(b, table.fields@, rec@) == Err::<
            Seq<(Field, FieldValue)>,
            MappingError,
        >(e),
{
    let mut out: Vec<SetField<'a>> = Vec::new();
    let mut i: usize = 0;
    while i < rec.len()
        invariant
            i <= rec@.len(),
            rec@.len() == table.fields@.len(),
            values_spec(b, table.fields@, rec@.subrange(0, i as int)) is Ok,
            set_pairs(out@) == values_spec(b, table.fields@, rec@.subrange(0, i as int))->Ok_0,
        decreases rec@.len() - i,
    {
        let ghost sub = rec@.subrange(0, i + 1);
        assert(sub.drop_last() =~= rec@.subrange(0, i as int));
        assert(sub.last() == rec@[i as int]);
        match encode(b, &rec[i]) {
            Err(e) => {
                proof { lemma_values_err_extends(b, table.fields@, rec@, i as int + 1); }
                return Err(e);
            },
            Ok(None) => {},
            Ok(Some(v)) => {
                let ghost before = out@;
                out.push(SetField { field: &table.fields[i], value: FieldValue::Value(v) });
                assert(set_pairs(out@) =~= set_pairs(before).push((table.fields@[i as int], FieldValue::Value(v))));
            },
        }
        i = i + 1;
    }
    assert(rec@.subrange(0, rec@.len() as int) =~= rec@);
    Ok(out)
}

/// Once a prefix of the record is refused, the whole record is, with the same error.
proof fn lemma_values_err_extends(b: Backend, fields: Seq<Field>, rec: Seq<FieldData>, n: int)
    requires
        0 <= n <= rec.len(),
        values_spec(b, fields, rec.subrange(0, n)) is Err,
    ensures
        values_spec(b, fields, rec) == values_spec(b, fields, rec.subrange(0, n)),
    decreases rec.len() - n,
{
    if n == rec.len() {
        assert(rec.subrange(0, n) =~= rec);
    } else {
        let sub = rec.subrange(0, n + 1);
        assert(sub.drop_last() =~= rec.subrange(0, n));
        lemma_values_err_extends(b, fields, rec, n + 1);
    }
}

/// A row written from column assignments: for each column of the table, the
/// value of the first assignment naming it, or null where none does.
pub fn row_from(table: &Table, sets: &Vec<SetField>) -> (r: Vec<SqlValue>)
    ensures
        r@.len() == table.fields@.len(),
        forall|i: int|
            0 <= i < r@.len() ==> row_entry(set_pairs(sets@), table.fields@[i], #[trigger] r@[i]),
{
    let ghost pairs = set_pairs(sets@);
    let mut row: Vec<SqlValue> = Vec::new();
    let mut i: usize = 0;
    while i < table.fields.len()
        invariant
            i <= table.fields@.len(),
            row@.len() == i,
            pairs == set_pairs(sets@),
            forall|a: int| 0 <= a < i ==> row_entry(pairs, table.fields@[a], #[trigger] row@[a]),
        decreases table.fields@.len() - i,
    {
        let f = &table.fields[i];
        let mut p: usize = 0;
        let mut found = false;
        while !found && p < sets.len()
            invariant
                p <= sets@.len(),
                pairs == set_pairs(sets@),
                found ==> p < sets@.len() && pairs[p as int].0.name@ == f.name@,
                forall|q: int| 0 <= q < p ==> (#[trigger] pairs[q]).0.name@ != f.name@,
            decreases sets@.len() - p + if found { 0int } else { 1int },
        {
            if sets[p].field.name == f.name {
                found = true;
            } else {
                p = p + 1;
            }
        }
        if found {
            let v = match &sets[p].value {
                FieldValue::Default => SqlValue::Null,
                FieldValue::Value(x) => x.duplicate(),
            };
            assert(pairs[p as int] == (*sets@[p as int].field, sets@[p as int].value));
            assert(row_entry(pairs, table.fields@[i as int], v));
            row.push(v);
        } else {
            row.push(SqlValue::Null);
        }
        assert(row@[i as int] == row@.last());
        i = i + 1;
    }
    row
}

/// Reads a record of the given field kinds from a row, one column per
/// field starting at `offset`; refused with the first field that does not decode.
pub fn from_row(kinds: &Vec<FieldKind>, row: &Vec<SqlValue>, offset: usize) -> (r: Result<
    Vec<FieldData>,
    MappingError,
>)
    requires
        offset + kinds@.len() <= row@.len(),
    ensures
        r is Ok <==> forall|i: int|
            0 <= i < kinds@.len() ==> (#[trigger] decode_spec(kinds@[i], row@[offset + i])) is Ok,
        r matches Ok(rec) ==> rec@.len() == kinds@.len() && forall|i: int|
            0 <= i < kinds@.len() ==> decode_spec(kinds@[i], row@[offset + i])
                == Ok::<FieldData, MappingError>(#[trigger] rec@[i]),
        r matches Err(e) ==> exists|i: int|
            0 <= i < kinds@.len() && (#[trigger] decode_spec(kinds@[i], row@[offset + i]))
                == Err::<FieldData, MappingError>(e),
{
    let n = row.len();
    let mut out: Vec<FieldData> = Vec::new();
    let mut i: usize = 0;
    while i < kinds.len()
        invariant
            i <= kinds@.len(),
            n == row@.len(),
            offset + kinds@.len() <= row@.len(),
            out@.len() == i,
            forall|a: int|
                0 <= a < i ==> decode_spec(kinds@[a], row@[offset + a]) == Ok::<FieldData, MappingError>(
                    #[trigger] out@[a],
                ),
        decreases kinds@.len() - i,
    {
        match decode(kinds[i], &row[offset + i]) {
            Err(e) => {
                assert(decode_spec(kinds@[i as int], row@[offset + i]) == Err::<FieldData, MappingError>(e));
                return Err(e);
            },
            Ok(d) => {
                out.push(d);
            },
        }
        i = i + 1;
    }
    proof {
        assert forall|a: int| 0 <= a < kinds@.len() implies (#[trigger] decode_spec(kinds@[a], row@[offset + a])) is Ok by {
            assert(decode_spec(kinds@[a], row@[offset + a]) == Ok::<FieldData, MappingError>(out@[a]));
        }
    }
    Ok(out)
}

/// The kinds of a record's fields, in order.
pub fn kinds_of(rec: &Vec<FieldData>) -> (r: Vec<FieldKind>)
    ensures
        r@.len() == rec@.len(),
        forall|i: int| 0 <= i < r@.len() ==> #[trigger] r@[i] == kind_of(rec@[i]),
{
    let mut out: Vec<FieldKind> = Vec::new();
    let mut i: usize = 0;
    while i < rec.len()
        invariant
            i <= rec@.len(),
            out@.len() == i,
            forall|a: int| 0 <= a < i ==> #[trigger] out@[a] == kind_of(rec@[a]),
        decreases rec@.len() - i,
    {
        let k = match &rec[i] {
            FieldData::U64(_) => FieldKind::U64,
            FieldData::I64(_) => FieldKind::I64,
            FieldData::Bool(_) => FieldKind::Bool,
            FieldData::Text(_) => FieldKind::Text,
            FieldData::OptText(_) => FieldKind::OptText,
        };
        out.push(k);
        i = i + 1;
    }
    out
}

} // verus!
