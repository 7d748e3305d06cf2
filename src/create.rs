use vstd::prelude::*;
use vstd::string::*;

use crate::query::{joined, lemma_joined_step};
use crate::sql::{ident_text, value_text, write_ident, write_value, Backend};
use crate::table::Table;
use crate::value::SqlValue;

verus! {

/// A column policy attached at table creation.
pub enum Constraint {
    NotNull,
    Unique,
    PrimaryKey,
    Default(SqlValue),
}

/// Which policy a constraint is, without its value.
#[derive(Clone, Copy, Debug, PartialEq, Eq, Structural)]
pub enum ConstraintKind {
    NotNull,
    Unique,
    PrimaryKey,
    Default,
}

/// A column type, named natively by each backend that has it.
#[derive(Clone, Copy, Debug, PartialEq, Eq, Structural)]
pub enum SqlType {
    SmallInt,
    Integer,
    BigInt,
    UnsignedBigInt,
    Text,
    Boolean,
    Timestamp,
}

/// Why a CREATE statement could not be built for a backend.
#[derive(Debug, PartialEq, Eq, Structural)]
pub enum BuildError {
    /// A column's type has no native name on the backend.
    UnsupportedType,
}

/// One column of a CREATE statement.
pub struct Column {
    pub name: String,
    pub sql_type: SqlType,
    pub constraints: Vec<Constraint>,
}

/// A CREATE TABLE statement under construction.
pub struct Create {
    pub table: String,
    pub columns: Vec<Column>,
}

pub open spec fn kind(c: Constraint) -> ConstraintKind {
    match c {
        Constraint::NotNull => ConstraintKind::NotNull,
        Constraint::Unique => ConstraintKind::Unique,
        Constraint::PrimaryKey => ConstraintKind::PrimaryKey,
        Constraint::Default(_) => ConstraintKind::Default,
    }
}

pub open spec fn has_kind(s: Seq<Constraint>, k: ConstraintKind) -> bool {
    exists|i: int| 0 <= i < s.len() && kind(#[trigger] s[i]) == k
}

/// No two constraints of the list are of the same kind.
pub open spec fn kinds_distinct(s: Seq<Constraint>) -> bool {
    forall|i: int, j: int| 0 <= i < j < s.len() ==> kind(s[i]) != kind(s[j])
}

/// The constraints that a list of modifiers asks for: each modifier is added
/// unless one of its kind was added before it.
pub open spec fn accumulate(mods: Seq<Constraint>) -> Seq<Constraint>
    decreases mods.len(),
{
    if mods.len() == 0 {
        Seq::empty()
    } else {
        let acc = accumulate(mods.drop_last());
        if has_kind(acc, kind(mods.last())) {
            acc
        } else {
            acc.push(mods.last())
        }
    }
}

pub open spec fn constraint_text(c: Constraint) -> Seq<char> {
    match c {
        Constraint::NotNull => seq!['N', 'O', 'T', ' ', 'N', 'U', 'L', 'L'],
        Constraint::Unique => seq!['U', 'N', 'I', 'Q', 'U', 'E'],
        Constraint::PrimaryKey => seq!['P', 'R', 'I', 'M', 'A', 'R', 'Y', ' ', 'K', 'E', 'Y'],
        Constraint::Default(v) => seq!['D', 'E', 'F', 'A', 'U', 'L', 'T', ' '] + value_text(v),
    }
}

/// Each constraint preceded by a space, in list order.
pub open spec fn constraints_text(cs: Seq<Constraint>) -> Seq<char>
    decreases cs.len(),
{
    if cs.len() == 0 {
        Seq::empty()
    } else {
        constraints_text(cs.drop_last()) + seq![' '] + constraint_text(cs.last())
    }
}

pub open spec fn type_text(b: Backend, t: SqlType) -> Option<Seq<char>> {
    match t {
        SqlType::SmallInt => Some(seq!['S', 'M', 'A', 'L', 'L', 'I', 'N', 'T']),
        SqlType::Integer => Some(seq!['I', 'N', 'T', 'E', 'G', 'E', 'R']),
        SqlType::BigInt => Some(seq!['B', 'I', 'G', 'I', 'N', 'T']),
        SqlType::UnsignedBigInt => match b {
            Backend::MySql => Some(
                seq!['B', 'I', 'G', 'I', 'N', 'T', ' ', 'U', 'N', 'S', 'I', 'G', 'N', 'E', 'D'],
            ),
            _ => None,
        },
        SqlType::Text => Some(seq!['T', 'E', 'X', 'T']),
        SqlType::Boolean => Some(seq!['B', 'O', 'O', 'L', 'E', 'A', 'N']),
        SqlType::Timestamp => match b {
            Backend::MySql => Some(seq!['D', 'A', 'T', 'E', 'T', 'I', 'M', 'E']),
            _ => Some(seq!['T', 'I', 'M', 'E', 'S', 'T', 'A', 'M', 'P']),
        },
    }
}

/// Whether every column's type has a native name on the backend.
pub open spec fn types_supported(b: Backend, cols: Seq<Column>) -> bool {
    forall|i: int| 0 <= i < cols.len() ==> (#[trigger] type_text(b, cols[i].sql_type)) is Some
}

/// `name TYPE` followed by the column's constraints.
pub open spec fn column_text(b: Backend, c: Column) -> Seq<char> {
    ident_text(b, c.name@) + seq![' '] + type_text(b, c.sql_type)->0 + constraints_text(
        c.constraints@,
    )
}

pub open spec fn column_texts(b: Backend, cols: Seq<Column>) -> Seq<Seq<char>> {
    cols.map_values(|c: Column| column_text(b, c))
}

/// `CREATE TABLE t (col1, col2)`, columns in the order they were added.
pub open spec fn create_text(b: Backend, table: Seq<char>, cols: Seq<Column>) -> Seq<char> {
    seq!['C', 'R', 'E', 'A', 'T', 'E', ' ', 'T', 'A', 'B', 'L', 'E', ' '] + ident_text(b, table)
        + seq![' ', '('] + joined(column_texts(b, cols)) + seq![')']
}

/// The accumulated list has at most one constraint of each kind, and has a
/// kind exactly when some modifier asked for it.
pub proof fn lemma_accumulate(mods: Seq<Constraint>)
    ensures
        kinds_distinct(accumulate(mods)),
        forall|k: ConstraintKind| has_kind(accumulate(mods), k) <==> has_kind(mods, k),
        forall|i: int|
            0 <= i < accumulate(mods).len() ==> exists|j: int|
                0 <= j < mods.len() && mods[j] == #[trigger] accumulate(mods)[i],
    decreases mods.len(),
{
    if mods.len() > 0 {
        let init = mods.drop_last();
        lemma_accumulate(init);
        let acc = accumulate(init);
        assert forall|k: ConstraintKind| has_kind(accumulate(mods), k) <==> has_kind(mods, k) by {
            if has_kind(mods, k) {
                let j = choose|j: int| 0 <= j < mods.len() && kind(#[trigger] mods[j]) == k;
                if j < mods.len() - 1 {
                    assert(init[j] == mods[j]);
                    assert(has_kind(init, k));
                }
                if !has_kind(acc, kind(mods.last())) {
                    assert(accumulate(mods)[acc.len() as int] == mods.last());
                    if has_kind(acc, k) {
                        let i = choose|i: int| 0 <= i < acc.len() && kind(#[trigger] acc[i]) == k;
                        assert(accumulate(mods)[i] == acc[i]);
                    }
                }
            }
            if has_kind(accumulate(mods), k) {
                let i = choose|i: int|
                    0 <= i < accumulate(mods).len() && kind(#[trigger] accumulate(mods)[i]) == k;
                if i < acc.len() {
                    assert(accumulate(mods)[i] == acc[i]);
                    assert(has_kind(acc, k));
                    let j = choose|j: int| 0 <= j < init.len() && kind(#[trigger] init[j]) == k;
                    assert(mods[j] == init[j]);
                } else {
                    assert(mods[mods.len() - 1] == mods.last());
                }
            }
        }
        assert forall|i: int| 0 <= i < accumulate(mods).len() implies exists|j: int|
            0 <= j < mods.len() && mods[j] == #[trigger] accumulate(mods)[i] by {
            if i < acc.len() {
                assert(accumulate(mods)[i] == acc[i]);
                let j = choose|j: int| 0 <= j < init.len() && init[j] == acc[i];
                assert(mods[j] == init[j]);
            } else {
                assert(mods[mods.len() - 1] == accumulate(mods)[i]);
            }
        }
        if !has_kind(acc, kind(mods.last())) {
            let r = accumulate(mods);
            assert forall|i: int, j: int| 0 <= i < j < r.len() implies kind(r[i]) != kind(r[j]) by {
                if j == acc.len() {
                    assert(r[i] == acc[i]);
                } else {
                    assert(r[i] == acc[i] && r[j] == acc[j]);
                }
            }
        }
    }
}

/// Constraints built from two modifier lists that ask for the same kinds, in
/// whatever order and with whatever repetition, hold the same kinds, each once.
pub proof fn lemma_constraints_order_insensitive(a: Seq<Constraint>, b: Seq<Constraint>)
    requires
        forall|k: ConstraintKind| has_kind(a, k) <==> has_kind(b, k),
    ensures
        kinds_distinct(accumulate(a)),
        kinds_distinct(accumulate(b)),
        forall|k: ConstraintKind| has_kind(accumulate(a), k) <==> has_kind(accumulate(b), k),
{
    lemma_accumulate(a);
    lemma_accumulate(b);
    assert forall|k: ConstraintKind| has_kind(accumulate(a), k) <==> has_kind(accumulate(b), k) by {
        assert(has_kind(accumulate(a), k) <==> has_kind(a, k));
        assert(has_kind(accumulate(b), k) <==> has_kind(b, k));
    }
}

impl Constraint {
    pub fn kind(&self) -> (r: ConstraintKind)
        ensures
            r == kind(*self),
    {
        match self {
            Constraint::NotNull => ConstraintKind::NotNull,
            Constraint::Unique => ConstraintKind::Unique,
            Constraint::PrimaryKey => ConstraintKind::PrimaryKey,
            Constraint::Default(_) => ConstraintKind::Default,
        }
    }

    /// A copy of the same constraint.
    pub fn duplicate(&self) -> (r: Constraint)
        ensures
            r == *self,
    {
        match self {
            Constraint::NotNull => Constraint::NotNull,
            Constraint::Unique => Constraint::Unique,
            Constraint::PrimaryKey => Constraint::PrimaryKey,
            Constraint::Default(v) => Constraint::Default(v.duplicate()),
        }
    }
}

fn contains_kind(s: &Vec<Constraint>, k: ConstraintKind) -> (r: bool)
    ensures
        r == has_kind(s@, k),
{
    let mut i: usize = 0;
    while i < s.len()
        invariant
            i <= s@.len(),
            forall|a: int| 0 <= a < i ==> kind(#[trigger] s@[a]) != k,
        decreases s@.len() - i,
    {
        if s[i].kind() == k {
            return true;
        }
        i = i + 1;
    }
    false
}

/// Folds the modifiers of a column declaration into its constraint list,
/// keeping one constraint of each kind asked for.
pub fn constraints_from(mods: &Vec<Constraint>) -> (r: Vec<Constraint>)
    ensures
        r@ == accumulate(mods@),
        kinds_distinct(r@),
        forall|k: ConstraintKind| has_kind(r@, k) <==> has_kind(mods@, k),
{
    let mut acc: Vec<Constraint> = Vec::new();
    let mut i: usize = 0;
    while i < mods.len()
        invariant
            i <= mods@.len(),
            acc@ == accumulate(mods@.subrange(0, i as int)),
        decreases mods@.len() - i,
    {
        let ghost sub = mods@.subrange(0, i + 1);
        assert(sub.drop_last() =~= mods@.subrange(0, i as int));
        assert(sub.last() == mods@[i as int]);
        if !contains_kind(&acc, mods[i].kind()) {
            acc.push(mods[i].duplicate());
        }
        i = i + 1;
    }
    assert(mods@.subrange(0, mods@.len() as int) =~= mods@);
    proof { lemma_accumulate(mods@); }
    acc
}

fn type_str(b: Backend, t: SqlType) -> (r: Option<&'static str>)
    ensures
        r is Some <==> type_text(b, t) is Some,
        r matches Some(s) ==> s@ == type_text(b, t)->0,
{
    match t {
        SqlType::SmallInt => {
            proof { reveal_strlit("SMALLINT"); }
            Some("SMALLINT")
        },
        SqlType::Integer => {
            proof { reveal_strlit("INTEGER"); }
            Some("INTEGER")
        },
        SqlType::BigInt => {
            proof { reveal_strlit("BIGINT"); }
            Some("BIGINT")
        },
        SqlType::UnsignedBigInt => match b {
            Backend::MySql => {
                proof { reveal_strlit("BIGINT UNSIGNED"); }
                Some("BIGINT UNSIGNED")
            },
            _ => None,
        },
        SqlType::Text => {
            proof { reveal_strlit("TEXT"); }
            Some("TEXT")
        },
        SqlType::Boolean => {
            proof { reveal_strlit("BOOLEAN"); }
            Some("BOOLEAN")
        },
        SqlType::Timestamp => match b {
            Backend::MySql => {
                proof { reveal_strlit("DATETIME"); }
                Some("DATETIME")
            },
            _ => {
                proof { reveal_strlit("TIMESTAMP"); }
                Some("TIMESTAMP")
            },
        },
    }
}

fn write_constraint(out: &mut String, c: &Constraint)
    ensures
        final(out)@ == old(out)@ + constraint_text(*c),
{
    match c {
        Constraint::NotNull => {
            out.append("NOT NULL");
            proof { reveal_strlit("NOT NULL"); }
        },
        Constraint::Unique => {
            out.append("UNIQUE");
            proof { reveal_strlit("UNIQUE"); }
        },
        Constraint::PrimaryKey => {
            out.append("PRIMARY KEY");
            proof { reveal_strlit("PRIMARY KEY"); }
        },
        Constraint::Default(v) => {
            out.append("DEFAULT ");
            proof { reveal_strlit("DEFAULT "); }
            write_value(out, v);
            assert(out@ =~= old(out)@ + constraint_text(*c));
        },
    }
}

impl Column {
    /// A column with the constraints that its modifiers ask for.
    pub fn new(name: String, sql_type: SqlType, mods: &Vec<Constraint>) -> (r: Column)
        ensures
            r.name@ == name@,
            r.sql_type == sql_type,
            r.constraints@ == accumulate(mods@),
            kinds_distinct(r.constraints@),
            forall|k: ConstraintKind| has_kind(r.constraints@, k) <==> has_kind(mods@, k),
    {
        Column { name, sql_type, constraints: constraints_from(mods) }
    }

    /// The column's fragment of a CREATE statement, if its type exists on the backend.
    pub fn to_sql_unprepared(&self, b: Backend) -> (r: Result<String, BuildError>)
        ensures
            r is Ok <==> type_text(b, self.sql_type) is Some,
            r matches Ok(s) ==> s@ == column_text(b, *self),
            r matches Err(e) ==> e == BuildError::UnsupportedType,
    {
        let mut out = String::new();
        self.write_sql(&mut out, b)?;
        Ok(out)
    }

    fn write_sql(&self, out: &mut String, b: Backend) -> (r: Result<(), BuildError>)
        ensures
            r is Ok <==> type_text(b, self.sql_type) is Some,
            r is Ok ==> final(out)@ == old(out)@ + column_text(b, *self),
            r matches Err(e) ==> e == BuildError::UnsupportedType,
    {
        let ty = match type_str(b, self.sql_type) {
            Some(t) => t,
            None => return Err(BuildError::UnsupportedType),
        };
        write_ident(out, b, self.name.as_str());
        out.append(" ");
        proof { reveal_strlit(" "); }
        out.append(ty);
        let ghost start = out@;
        let cs = &self.constraints;
        let mut i: usize = 0;
        while i < cs.len()
            invariant
                i <= cs@.len(),
                out@ == start + constraints_text(cs@.subrange(0, i as int)),
            decreases cs@.len() - i,
        {
            let ghost sub = cs@.subrange(0, i + 1);
            assert(sub.drop_last() =~= cs@.subrange(0, i as int));
            assert(sub.last() == cs@[i as int]);
            out.append(" ");
            proof { reveal_strlit(" "); }
            write_constraint(out, &cs[i]);
            assert(out@ =~= start + constraints_text(sub));
            i = i + 1;
        }
        assert(cs@.subrange(0, cs@.len() as int) =~= cs@);
        assert(out@ =~= old(out)@ + column_text(b, *self));
        Ok(())
    }
}

impl Table {
    /// Starts a CREATE statement for this table, with no column yet.
    pub fn create(&self) -> (r: Create)
        ensures
            r.table@ == self.name@,
            r.columns@ == Seq::<Column>::empty(),
    {
        Create { table: self.name.clone(), columns: Vec::new() }
    }
}

impl Create {
    /// Adds a column after those already added.
    pub fn with_column(self, column: Column) -> (r: Create)
        ensures
            r.table@ == self.table@,
            r.columns@ == self.columns@.push(column),
    {
        let mut columns = self.columns;
        columns.push(column);
        Create { table: self.table, columns }
    }

    /// The statement as SQL text for the backend; refused when a column's
    /// type has no native name there.
    pub fn to_sql_unprepared(&self, b: Backend) -> (r: Result<String, BuildError>)
        ensures
            r is Ok <==> types_supported(b, self.columns@),
            r matches Ok(s) ==> s@ == create_text(b, self.table@, self.columns@),
            r matches Err(e) ==> e == BuildError::UnsupportedType,
    {
        let mut out = String::new();
        out.append("CREATE TABLE ");
        proof { reveal_strlit("CREATE TABLE "); }
        write_ident(&mut out, b, self.table.as_str());
        out.append(" (");
        proof { reveal_strlit(" ("); }
        let ghost start = out@;
        let ghost texts = column_texts(b, self.columns@);
        let cols = &self.columns;
        let mut i: usize = 0;
        while i < cols.len()
            invariant
                i <= cols@.len(),
                cols@ == self.columns@,
                texts == column_texts(b, self.columns@),
                forall|a: int| 0 <= a < i ==> (#[trigger] type_text(b, cols@[a].sql_type)) is Some,
                out@ == start + joined(texts.subrange(0, i as int)),
            decreases cols@.len() - i,
        {
            proof { lemma_joined_step(texts, i as int); }
            if i > 0 {
                out.append(", ");
                proof { reveal_strlit(", "); }
            }
            let ghost before = out@;
            let w = cols[i].write_sql(&mut out, b);
            if w.is_err() {
                return Err(BuildError::UnsupportedType);
            }
            proof {
                if i == 0 {
                    assert(before =~= start + joined(texts.subrange(0, i as int)) + Seq::<char>::empty());
                }
            }
            assert(out@ =~= start + joined(texts.subrange(0, i + 1)));
            i = i + 1;
        }
        assert(texts.subrange(0, cols@.len() as int) =~= texts);
        out.append(")");
        proof { reveal_strlit(")"); }
        assert(out@ =~= create_text(b, self.table@, self.columns@));
        Ok(out)
    }
}

} // verus!
