//! Typed SQL values and their rendering as SQL literal text.
//!
//! A [`Value`] is one cell of a row: the unit that models, conditions and
//! assignments carry. Rendering a value into SQL literal text is specified
//! by [`spec_value_sql`] and performed by [`push_value`], which appends the
//! rendered text to a growing statement string.

use vstd::prelude::*;
use vstd::string::StringExecFns;
use vstd::string::StrSliceExecFns;

verus! {

/// One typed cell of a row.
#[derive(Debug, Clone)]
pub enum Value {
    /// SQL NULL.
    Null,
    /// A boolean.
    Bool(bool),
    /// A signed integer.
    Int(i64),
    /// A character string.
    Text(String),
    /// A binary blob.
    Bytes(Vec<u8>),
}

/// The mathematical value of a [`Value`]: the same shape, with text as a
/// character sequence, bytes as a byte sequence and integers unbounded.
/// Contracts speak of values through this view.
pub enum ValueView {
    Null,
    Bool(bool),
    Int(int),
    Text(Seq<char>),
    Bytes(Seq<u8>),
}

impl View for Value {
    type V = ValueView;

    open spec fn view(&self) -> ValueView {
        match *self {
            Value::Null => ValueView::Null,
            Value::Bool(b) => ValueView::Bool(b),
            Value::Int(n) => ValueView::Int(n as int),
            Value::Text(s) => ValueView::Text(s@),
            Value::Bytes(bs) => ValueView::Bytes(bs@),
        }
    }
}

fn bytes_eq(a: &Vec<u8>, b: &Vec<u8>) -> (r: bool)
    ensures
        r == (a@ == b@),
{
    let n = a.len();
    if n != b.len() {
        return false;
    }
    let mut i: usize = 0;
    while i < n
        invariant
            i <= n,
            n == a@.len(),
            n == b@.len(),
            forall|j: int| 0 <= j < i as int ==> a@[j] == b@[j],
        decreases n - i,
    {
        if a[i] != b[i] {
            proof {
                if a@ == b@ {
                    assert(a@[i as int] == b@[i as int]);
                }
            }
            return false;
        }
        i = i + 1;
    }
    proof {
        assert(a@ =~= b@);
    }
    true
}

impl PartialEq for Value {
    /// Equality of the mathematical values: same variant, same contents.
    fn eq(&self, other: &Value) -> (r: bool) {
        match (self, other) {
            (Value::Null, Value::Null) => true,
            (Value::Bool(a), Value::Bool(b)) => *a == *b,
            (Value::Int(a), Value::Int(b)) => *a == *b,
            (Value::Text(a), Value::Text(b)) => *a == *b,
            (Value::Bytes(a), Value::Bytes(b)) => bytes_eq(a, b),
            _ => false,
        }
    }
}

impl vstd::std_specs::cmp::PartialEqSpecImpl for Value {
    open spec fn obeys_eq_spec() -> bool {
        true
    }

    open spec fn eq_spec(&self, other: &Value) -> bool {
        self@ == other@
    }
}

/// The SQL type a column maps to; a [`Value`] is checked against it when
/// a row is decoded.
#[derive(Debug, Clone, Copy, PartialEq, Eq, Structural)]
pub enum ColumnType {
    Boolean,
    Integer,
    Text,
    Blob,
}

/// Whether a value is acceptable for a column of the given type and
/// nullability.
pub open spec fn spec_value_fits(v: ValueView, ty: ColumnType, nullable: bool) -> bool {
    match v {
        ValueView::Null => nullable,
        ValueView::Bool(_) => ty == ColumnType::Boolean,
        ValueView::Int(_) => ty == ColumnType::Integer,
        ValueView::Text(_) => ty == ColumnType::Text,
        ValueView::Bytes(_) => ty == ColumnType::Blob,
    }
}

/// Exec check mirroring [`spec_value_fits`].
pub fn value_fits(v: &Value, ty: ColumnType, nullable: bool) -> (r: bool)
    ensures
        r == spec_value_fits(v@, ty, nullable),
{
    match v {
        Value::Null => nullable,
        Value::Bool(_) => ty == ColumnType::Boolean,
        Value::Int(_) => ty == ColumnType::Integer,
        Value::Text(_) => ty == ColumnType::Text,
        Value::Bytes(_) => ty == ColumnType::Blob,
    }
}

/// The decimal digit character for `d` in `0 ..= 9`.
pub open spec fn spec_digit(d: int) -> char {
    if d == 0 { '0' }
    else if d == 1 { '1' }
    else if d == 2 { '2' }
    else if d == 3 { '3' }
    else if d == 4 { '4' }
    else if d == 5 { '5' }
    else if d == 6 { '6' }
    else if d == 7 { '7' }
    else if d == 8 { '8' }
    else { '9' }
}

/// The decimal rendering of a natural number, most significant digit first.
pub open spec fn spec_dec_nat(n: nat) -> Seq<char>
    decreases n,
{
    if n < 10 {
        seq![spec_digit(n as int)]
    } else {
        spec_dec_nat(n / 10) + seq![spec_digit((n % 10) as int)]
    }
}

/// The decimal rendering of an integer: a minus sign for negatives, then
/// the magnitude's digits.
pub open spec fn spec_dec_int(n: int) -> Seq<char> {
    if n < 0 {
        seq!['-'] + spec_dec_nat((-n) as nat)
    } else {
        spec_dec_nat(n as nat)
    }
}

fn push_digit(out: &mut String, d: u64)
    requires
        d < 10,
    ensures
        final(out)@ == old(out)@ + seq![spec_digit(d as int)],
{
    let s: &str = if d == 0 { "0" }
    else if d == 1 { "1" }
    else if d == 2 { "2" }
    else if d == 3 { "3" }
    else if d == 4 { "4" }
    else if d == 5 { "5" }
    else if d == 6 { "6" }
    else if d == 7 { "7" }
    else if d == 8 { "8" }
    else { "9" };
    proof {
        reveal_strlit("0");
        reveal_strlit("1");
        reveal_strlit("2");
        reveal_strlit("3");
        reveal_strlit("4");
        reveal_strlit("5");
        reveal_strlit("6");
        reveal_strlit("7");
        reveal_strlit("8");
        reveal_strlit("9");
        assert(s@ =~= seq![spec_digit(d as int)]);
    }
    out.append(s);
}

/// Appends the decimal rendering of `n` to `out`.
pub fn push_u64_dec(out: &mut String, n: u64)
    ensures
        final(out)@ == old(out)@ + spec_dec_nat(n as nat),
    decreases n,
{
    if n < 10 {
        push_digit(out, n);
    } else {
        push_u64_dec(out, n / 10);
        push_digit(out, n % 10);
        proof {
            assert(out@ =~= old(out)@ + spec_dec_nat(n as nat));
        }
    }
}

/// Appends the decimal rendering of `n` to `out`, with a leading minus
/// sign when `n` is negative.
pub fn push_i64_dec(out: &mut String, n: i64)
    ensures
        final(out)@ == old(out)@ + spec_dec_int(n as int),
{
    if n >= 0 {
        push_u64_dec(out, n as u64);
    } else {
        proof {
            reveal_strlit("-");
            assert("-"@ =~= seq!['-']);
        }
        out.append("-");
        let mag: u64 = ((-(n + 1)) as u64) + 1;
        assert(mag as nat == (-(n as int)) as nat);
        push_u64_dec(out, mag);
        proof {
            assert(out@ =~= old(out)@ + spec_dec_int(n as int));
        }
    }
}

/// Relies on `String::push`: appends the one character to the end of the
/// string.
#[verifier::external_body]
fn push_char(out: &mut String, c: char)
    ensures
        final(out)@ == old(out)@ + seq![c],
{
    out.push(c)
}

/// A string with every single quote doubled, from position `i` on: the
/// escaping a SQL string literal's body needs.
pub open spec fn spec_escaped_from(s: Seq<char>, i: int) -> Seq<char>
    decreases s.len() - i,
{
    if i < 0 || i >= s.len() {
        Seq::empty()
    } else {
        (if s[i] == '\'' { seq!['\'', '\''] } else { seq![s[i]] }) + spec_escaped_from(s, i + 1)
    }
}

/// The whole string with every single quote doubled.
pub open spec fn spec_escaped(s: Seq<char>) -> Seq<char> {
    spec_escaped_from(s, 0)
}

fn push_escaped_from(out: &mut String, s: &str, i: usize, n: usize)
    requires
        n == s@.len(),
        i <= n,
    ensures
        final(out)@ == old(out)@ + spec_escaped_from(s@, i as int),
    decreases n - i,
{
    if i < n {
        let c = s.get_char(i);
        if c == '\'' {
            proof {
                reveal_strlit("''");
                assert("''"@ =~= seq!['\'', '\'']);
            }
            out.append("''");
        } else {
            push_char(out, c);
        }
        push_escaped_from(out, s, i + 1, n);
        proof {
            assert(out@ =~= old(out)@ + spec_escaped_from(s@, i as int));
        }
    }
}

/// Appends `s` with every single quote doubled.
pub fn push_escaped(out: &mut String, s: &str)
    ensures
        final(out)@ == old(out)@ + spec_escaped(s@),
{
    let n = s.unicode_len();
    push_escaped_from(out, s, 0, n);
}

/// The upper-case hexadecimal digit character for `d` in `0 ..= 15`.
pub open spec fn spec_hex_digit(d: int) -> char {
    if d < 10 { spec_digit(d) }
    else if d == 10 { 'A' }
    else if d == 11 { 'B' }
    else if d == 12 { 'C' }
    else if d == 13 { 'D' }
    else if d == 14 { 'E' }
    else { 'F' }
}

/// Two hexadecimal digits for one byte, high nibble first.
pub open spec fn spec_hex_byte(b: int) -> Seq<char> {
    seq![spec_hex_digit(b / 16), spec_hex_digit(b % 16)]
}

/// The hexadecimal rendering of a byte string, from position `i` on.
pub open spec fn spec_hex_from(bs: Seq<u8>, i: int) -> Seq<char>
    decreases bs.len() - i,
{
    if i < 0 || i >= bs.len() {
        Seq::empty()
    } else {
        spec_hex_byte(bs[i] as int) + spec_hex_from(bs, i + 1)
    }
}

fn push_hex_digit(out: &mut String, d: u8)
    requires
        d < 16,
    ensures
        final(out)@ == old(out)@ + seq![spec_hex_digit(d as int)],
{
    if d < 10 {
        push_digit(out, d as u64);
    } else {
        let s: &str = if d == 10 { "A" }
        else if d == 11 { "B" }
        else if d == 12 { "C" }
        else if d == 13 { "D" }
        else if d == 14 { "E" }
        else { "F" };
        proof {
            reveal_strlit("A");
            reveal_strlit("B");
            reveal_strlit("C");
            reveal_strlit("D");
            reveal_strlit("E");
            reveal_strlit("F");
            assert(s@ =~= seq![spec_hex_digit(d as int)]);
        }
        out.append(s);
    }
}

fn push_hex_from(out: &mut String, bs: &Vec<u8>, i: usize)
    requires
        i <= bs@.len(),
    ensures
        final(out)@ == old(out)@ + spec_hex_from(bs@, i as int),
    decreases bs@.len() - i,
{
    if i < bs.len() {
        let b = bs[i];
        push_hex_digit(out, b / 16);
        push_hex_digit(out, b % 16);
        push_hex_from(out, bs, i + 1);
        proof {
            assert(out@ =~= old(out)@ + spec_hex_from(bs@, i as int));
        }
    }
}

/// The SQL literal text of a value: `NULL`, `TRUE`/`FALSE`, a decimal
/// number, a single-quoted string with quotes doubled, or a hex blob
/// literal `x'..'`.
pub open spec fn spec_value_sql(v: ValueView) -> Seq<char> {
    match v {
        ValueView::Null => seq!['N', 'U', 'L', 'L'],
        ValueView::Bool(b) => if b {
            seq!['T', 'R', 'U', 'E']
        } else {
            seq!['F', 'A', 'L', 'S', 'E']
        },
        ValueView::Int(n) => spec_dec_int(n),
        ValueView::Text(s) => seq!['\''] + spec_escaped(s) + seq!['\''],
        ValueView::Bytes(bs) => seq!['x', '\''] + spec_hex_from(bs, 0) + seq!['\''],
    }
}

/// Appends the SQL literal text of `v` to `out`.
pub fn push_value(out: &mut String, v: &Value)
    ensures
        final(out)@ == old(out)@ + spec_value_sql(v@),
{
    match v {
        Value::Null => {
            proof {
                reveal_strlit("NULL");
                assert("NULL"@ =~= seq!['N', 'U', 'L', 'L']);
            }
            out.append("NULL");
        },
        Value::Bool(b) => {
            if *b {
                proof {
                    reveal_strlit("TRUE");
                    assert("TRUE"@ =~= seq!['T', 'R', 'U', 'E']);
                }
                out.append("TRUE");
            } else {
                proof {
                    reveal_strlit("FALSE");
                    assert("FALSE"@ =~= seq!['F', 'A', 'L', 'S', 'E']);
                }
                out.append("FALSE");
            }
        },
        Value::Int(n) => {
            push_i64_dec(out, *n);
        },
        Value::Text(s) => {
            proof {
                reveal_strlit("'");
                assert("'"@ =~= seq!['\'']);
            }
            out.append("'");
            push_escaped(out, s.as_str());
            out.append("'");
            proof {
                assert(out@ =~= old(out)@ + spec_value_sql(v@));
            }
        },
        Value::Bytes(bs) => {
            proof {
                reveal_strlit("x'");
                reveal_strlit("'");
                assert("x'"@ =~= seq!['x', '\'']);
                assert("'"@ =~= seq!['\'']);
            }
            out.append("x'");
            push_hex_from(out, bs, 0);
            out.append("'");
            proof {
                assert(out@ =~= old(out)@ + spec_value_sql(v@));
            }
        },
    }
}

} // verus!
