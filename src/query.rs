use vstd::prelude::*;
use vstd::string::*;

use crate::sql::{ident_text, value_text, write_ident, write_value, Backend};
use crate::table::{EqField, EqValue, Field, FieldValue, SetField};
use crate::value::SqlValue;

verus! {

/// Parts joined by a comma and a space.
pub open spec fn joined(parts: Seq<Seq<char>>) -> Seq<char>
    decreases parts.len(),
{
    if parts.len() == 0 {
        Seq::empty()
    } else if parts.len() == 1 {
        parts[0]
    } else {
        joined(parts.drop_last()) + seq![',', ' '] + parts.last()
    }
}

pub proof fn lemma_joined_step(parts: Seq<Seq<char>>, i: int)
    requires
        0 <= i < parts.len(),
    ensures
        joined(parts.subrange(0, i + 1)) == joined(parts.subrange(0, i)) + (if i == 0 {
            Seq::<char>::empty()
        } else {
            seq![',', ' ']
        }) + parts[i],
{
    let t = parts.subrange(0, i + 1);
    assert(t.drop_last() =~= parts.subrange(0, i));
    if i == 0 {
        assert(joined(parts.subrange(0, 0)) =~= Seq::<char>::empty());
        assert(joined(t) =~= Seq::<char>::empty() + Seq::<char>::empty() + parts[0]);
    }
}

/// `table.column`, each part quoted.
pub open spec fn field_text(b: Backend, f: Field) -> Seq<char> {
    ident_text(b, f.table@) + seq!['.'] + ident_text(b, f.name@)
}

/// A value condition: `IS NULL` against null, `=` against anything else.
pub open spec fn eq_value_text(b: Backend, f: Field, v: SqlValue) -> Seq<char> {
    if v is Null {
        field_text(b, f) + seq![' ', 'I', 'S', ' ', 'N', 'U', 'L', 'L']
    } else {
        field_text(b, f) + seq![' ', '=', ' '] + value_text(v)
    }
}

pub open spec fn eq_field_text(b: Backend, l: Field, r: Field) -> Seq<char> {
    field_text(b, l) + seq![' ', '=', ' '] + field_text(b, r)
}

/// What an assignment binds: the keyword DEFAULT or a literal.
pub open spec fn field_value_text(v: FieldValue) -> Seq<char> {
    match v {
        FieldValue::Default => seq!['D', 'E', 'F', 'A', 'U', 'L', 'T'],
        FieldValue::Value(x) => value_text(x),
    }
}

pub open spec fn insert_columns(b: Backend, sets: Seq<SetField>) -> Seq<Seq<char>> {
    sets.map_values(|s: SetField| ident_text(b, s.field.name@))
}

pub open spec fn insert_values(sets: Seq<SetField>) -> Seq<Seq<char>> {
    sets.map_values(|s: SetField| field_value_text(s.value))
}

/// `INSERT INTO t (c1, c2) VALUES (v1, v2)`, columns and values in assignment order.
pub open spec fn insert_text(b: Backend, table: Seq<char>, sets: Seq<SetField>) -> Seq<char> {
    seq!['I', 'N', 'S', 'E', 'R', 'T', ' ', 'I', 'N', 'T', 'O', ' '] + ident_text(b, table) + seq![
        ' ',
        '(',
    ] + joined(insert_columns(b, sets)) + seq![')', ' ', 'V', 'A', 'L', 'U', 'E', 'S', ' ', '(']
        + joined(insert_values(sets)) + seq![')']
}

fn write_field(out: &mut String, b: Backend, f: &Field)
    ensures
        final(out)@ == old(out)@ + field_text(b, *f),
{
    write_ident(out, b, f.table.as_str());
    out.append(".");
    proof { reveal_strlit("."); }
    write_ident(out, b, f.name.as_str());
    assert(out@ =~= old(out)@ + field_text(b, *f));
}

impl<'a> EqValue<'a> {
    /// The condition as SQL text for the backend.
    pub fn to_sql_unprepared(&self, b: Backend) -> (r: String)
        ensures
            r@ == eq_value_text(b, *self.field, self.value),
    {
        let mut out = String::new();
        write_field(&mut out, b, self.field);
        match &self.value {
            SqlValue::Null => {
                out.append(" IS NULL");
                proof { reveal_strlit(" IS NULL"); }
            },
            v => {
                out.append(" = ");
                proof { reveal_strlit(" = "); }
                write_value(&mut out, v);
            },
        }
        assert(out@ =~= eq_value_text(b, *self.field, self.value));
        out
    }
}

impl<'a> EqField<'a> {
    /// The condition as SQL text for the backend.
    pub fn to_sql_unprepared(&self, b: Backend) -> (r: String)
        ensures
            r@ == eq_field_text(b, *self.left, *self.right),
    {
        let mut out = String::new();
        write_field(&mut out, b, self.left);
        out.append(" = ");
        proof { reveal_strlit(" = "); }
        write_field(&mut out, b, self.right);
        assert(out@ =~= eq_field_text(b, *self.left, *self.right));
        out
    }
}

fn write_field_value(out: &mut String, v: &FieldValue)
    ensures
        final(out)@ == old(out)@ + field_value_text(*v),
{
    match v {
        FieldValue::Default => {
            out.append("DEFAULT");
            proof { reveal_strlit("DEFAULT"); }
        },
        FieldValue::Value(x) => write_value(out, x),
    }
}

fn write_separator(out: &mut String, i: usize)
    ensures
        final(out)@ == old(out)@ + if i == 0 {
            Seq::<char>::empty()
        } else {
            seq![',', ' ']
        },
{
    if i > 0 {
        out.append(", ");
        proof { reveal_strlit(", "); }
    } else {
        assert(out@ =~= old(out)@ + Seq::<char>::empty());
    }
}

/// The INSERT statement that assigns `sets` in the table named `table`.
pub fn insert_sql(b: Backend, table: &str, sets: &Vec<SetField>) -> (r: String)
    ensures
        r@ == insert_text(b, table@, sets@),
{
    let mut out = String::new();
    out.append("INSERT INTO ");
    proof { reveal_strlit("INSERT INTO "); }
    write_ident(&mut out, b, table);
    out.append(" (");
    proof { reveal_strlit(" ("); }
    let ghost start = out@;
    let ghost cols = insert_columns(b, sets@);
    let mut i: usize = 0;
    while i < sets.len()
        invariant
            i <= sets@.len(),
            cols == insert_columns(b, sets@),
            out@ == start + joined(cols.subrange(0, i as int)),
        decreases sets@.len() - i,
    {
        proof { lemma_joined_step(cols, i as int); }
        write_separator(&mut out, i);
        write_ident(&mut out, b, sets[i].field.name.as_str());
        assert(out@ =~= start + joined(cols.subrange(0, i + 1)));
        i = i + 1;
    }
    assert(cols.subrange(0, sets@.len() as int) =~= cols);
    out.append(") VALUES (");
    proof { reveal_strlit(") VALUES ("); }
    let ghost mid = out@;
    let ghost vals = insert_values(sets@);
    let mut j: usize = 0;
    while j < sets.len()
        invariant
            j <= sets@.len(),
            vals == insert_values(sets@),
            out@ == mid + joined(vals.subrange(0, j as int)),
        decreases sets@.len() - j,
    {
        proof { lemma_joined_step(vals, j as int); }
        write_separator(&mut out, j);
        write_field_value(&mut out, &sets[j].value);
        assert(out@ =~= mid + joined(vals.subrange(0, j + 1)));
        j = j + 1;
    }
    assert(vals.subrange(0, sets@.len() as int) =~= vals);
    out.append(")");
    proof { reveal_strlit(")"); }
    assert(out@ =~= insert_text(b, table@, sets@));
    out
}

} // verus!
