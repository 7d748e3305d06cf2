use vstd::prelude::*;
use vstd::string::*;

use crate::value::SqlValue;

verus! {

/// A database engine, with its own dialect.
#[derive(Clone, Copy, Debug, PartialEq, Eq, Structural)]
pub enum Backend {
    Postgres,
    Sqlite,
    MySql,
}

/// The character that opens and closes a quoted identifier or literal.
#[derive(Clone, Copy, Debug, PartialEq, Eq, Structural)]
pub enum Quote {
    Single,
    Double,
    Backtick,
}

pub open spec fn quote_char(q: Quote) -> char {
    match q {
        Quote::Single => '\'',
        Quote::Double => '"',
        Quote::Backtick => '`',
    }
}

/// Identifiers are quoted with backticks on MySQL and double quotes elsewhere.
pub open spec fn ident_quote(b: Backend) -> Quote {
    match b {
        Backend::MySql => Quote::Backtick,
        _ => Quote::Double,
    }
}

pub open spec fn digit_char(d: nat) -> char {
    if d == 0 {
        '0'
    } else if d == 1 {
        '1'
    } else if d == 2 {
        '2'
    } else if d == 3 {
        '3'
    } else if d == 4 {
        '4'
    } else if d == 5 {
        '5'
    } else if d == 6 {
        '6'
    } else if d == 7 {
        '7'
    } else if d == 8 {
        '8'
    } else {
        '9'
    }
}

/// Decimal digits of a natural number, most significant first.
pub open spec fn dec(n: nat) -> Seq<char>
    decreases n,
{
    if n < 10 {
        seq![digit_char(n)]
    } else {
        dec(n / 10) + seq![digit_char(n % 10)]
    }
}

/// Decimal text of an integer, with a leading minus when negative.
pub open spec fn int_text(i: int) -> Seq<char> {
    if i < 0 {
        seq!['-'] + dec((-i) as nat)
    } else {
        dec(i as nat)
    }
}

/// The characters of `s`, each occurrence of `q` doubled.
pub open spec fn escaped(s: Seq<char>, q: char) -> Seq<char>
    decreases s.len(),
{
    if s.len() == 0 {
        Seq::empty()
    } else {
        escaped(s.drop_last(), q) + if s.last() == q {
            seq![q, q]
        } else {
            seq![s.last()]
        }
    }
}

/// `s` between two quote characters, with the quote character escaped inside.
pub open spec fn quoted(s: Seq<char>, q: Quote) -> Seq<char> {
    seq![quote_char(q)] + escaped(s, quote_char(q)) + seq![quote_char(q)]
}

/// An identifier as the backend writes it.
pub open spec fn ident_text(b: Backend, s: Seq<char>) -> Seq<char> {
    quoted(s, ident_quote(b))
}

/// A scalar written as an SQL literal.
pub open spec fn value_text(v: SqlValue) -> Seq<char> {
    match v {
        SqlValue::Null => seq!['N', 'U', 'L', 'L'],
        SqlValue::Int(i) => int_text(i as int),
        SqlValue::UInt(u) => dec(u as nat),
        SqlValue::SmallInt(i) => int_text(i as int),
        SqlValue::Bool(true) => seq!['T', 'R', 'U', 'E'],
        SqlValue::Bool(false) => seq!['F', 'A', 'L', 'S', 'E'],
        SqlValue::Text(s) => quoted(s@, Quote::Single),
    }
}

fn digit_str(d: u64) -> (r: &'static str)
    requires
        d < 10,
    ensures
        r@ == seq![digit_char(d as nat)],
{
    if d == 0 {
        proof { reveal_strlit("0"); }
        "0"
    } else if d == 1 {
        proof { reveal_strlit("1"); }
        "1"
    } else if d == 2 {
        proof { reveal_strlit("2"); }
        "2"
    } else if d == 3 {
        proof { reveal_strlit("3"); }
        "3"
    } else if d == 4 {
        proof { reveal_strlit("4"); }
        "4"
    } else if d == 5 {
        proof { reveal_strlit("5"); }
        "5"
    } else if d == 6 {
        proof { reveal_strlit("6"); }
        "6"
    } else if d == 7 {
        proof { reveal_strlit("7"); }
        "7"
    } else if d == 8 {
        proof { reveal_strlit("8"); }
        "8"
    } else {
        proof { reveal_strlit("9"); }
        "9"
    }
}

fn quote_str(q: Quote) -> (r: &'static str)
    ensures
        r@ == seq![quote_char(q)],
{
    match q {
        Quote::Single => {
            proof { reveal_strlit("'"); }
            "'"
        },
        Quote::Double => {
            proof { reveal_strlit("\""); }
            "\""
        },
        Quote::Backtick => {
            proof { reveal_strlit("`"); }
            "`"
        },
    }
}

/// Appends the decimal digits of `n`.
pub fn write_dec(out: &mut String, n: u64)
    ensures
        final(out)@ == old(out)@ + dec(n as nat),
    decreases n,
{
    if n >= 10 {
        write_dec(out, n / 10);
    }
    out.append(digit_str(n % 10));
    proof {
        if n >= 10 {
            assert(final(out)@ =~= old(out)@ + dec(n as nat));
        } else {
            assert(final(out)@ =~= old(out)@ + dec(n as nat));
        }
    }
}

/// Appends the decimal text of `n`.
pub fn write_int(out: &mut String, n: i64)
    ensures
        final(out)@ == old(out)@ + int_text(n as int),
{
    if n < 0 {
        out.append("-");
        proof { reveal_strlit("-"); }
        let m: u64 = ((-(n + 1)) as u64) + 1;
        assert(m as int == -(n as int));
        write_dec(out, m);
        assert(final(out)@ =~= old(out)@ + int_text(n as int));
    } else {
        write_dec(out, n as u64);
    }
}

/// Appends `s` quoted with `q`, doubling each `q` inside.
pub fn write_quoted(out: &mut String, s: &str, q: Quote)
    ensures
        final(out)@ == old(out)@ + quoted(s@, q),
{
    let qs = quote_str(q);
    out.append(qs);
    let n = s.unicode_len();
    let mut i: usize = 0;
    while i < n
        invariant
            n == s@.len(),
            i <= n,
            qs@ == seq![quote_char(q)],
            out@ == old(out)@ + seq![quote_char(q)] + escaped(s@.subrange(0, i as int), quote_char(q)),
        decreases n - i,
    {
        let c = s.get_char(i);
        let ghost prev = out@;
        if c == quote_char_exec(q) {
            out.append(qs);
            out.append(qs);
        } else {
            out.append(s.substring_char(i, i + 1));
        }
        proof {
            let t = s@.subrange(0, i + 1);
            assert(t.drop_last() =~= s@.subrange(0, i as int));
            assert(t.last() == c);
            assert(out@ =~= prev + if c == quote_char(q) {
                seq![quote_char(q), quote_char(q)]
            } else {
                seq![c]
            });
        }
        i = i + 1;
    }
    out.append(qs);
    assert(s@.subrange(0, n as int) =~= s@);
    assert(out@ =~= old(out)@ + quoted(s@, q));
}

fn quote_char_exec(q: Quote) -> (r: char)
    ensures
        r == quote_char(q),
{
    match q {
        Quote::Single => '\'',
        Quote::Double => '"',
        Quote::Backtick => '`',
    }
}

/// Appends an identifier as the backend writes it.
pub fn write_ident(out: &mut String, b: Backend, s: &str)
    ensures
        final(out)@ == old(out)@ + ident_text(b, s@),
{
    let q = match b {
        Backend::MySql => Quote::Backtick,
        _ => Quote::Double,
    };
    write_quoted(out, s, q);
}

/// Appends a scalar written as an SQL literal.
pub fn write_value(out: &mut String, v: &SqlValue)
    ensures
        final(out)@ == old(out)@ + value_text(*v),
{
    match v {
        SqlValue::Null => {
            out.append("NULL");
            proof { reveal_strlit("NULL"); }
        },
        SqlValue::Int(i) => write_int(out, *i),
        SqlValue::UInt(u) => write_dec(out, *u),
        SqlValue::SmallInt(i) => write_int(out, *i as i64),
        SqlValue::Bool(x) => {
            if *x {
                out.append("TRUE");
                proof { reveal_strlit("TRUE"); }
            } else {
                out.append("FALSE");
                proof { reveal_strlit("FALSE"); }
            }
        },
        SqlValue::Text(s) => write_quoted(out, s.as_str(), Quote::Single),
    }
}

} // verus!
