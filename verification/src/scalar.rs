//! Scalar values and data types: the closed set of column kinds the core
//! dispatches over, with a total comparison order used by sort keys.

use vstd::prelude::*;

verus! {

/// A single (non-null) cell value. The engine dispatches over a closed set of
/// column kinds; matching is exhaustive by construction.
#[derive(Debug)]
pub enum ScalarValue {
    Bool(bool),
    Int64(i64),
    Utf8(String),
}

/// Spec-level image of a `ScalarValue` (strings abstracted to `Seq<char>`).
pub enum ScalarV {
    Bool(bool),
    Int64(i64),
    Utf8(Seq<char>),
}

impl View for ScalarValue {
    type V = ScalarV;

    open spec fn view(&self) -> ScalarV {
        match self {
            ScalarValue::Bool(b) => ScalarV::Bool(*b),
            ScalarValue::Int64(i) => ScalarV::Int64(*i),
            ScalarValue::Utf8(s) => ScalarV::Utf8(s@),
        }
    }
}

/// A nullable cell.
pub type Datum = Option<ScalarValue>;

/// Spec-level image of a `Datum`.
pub type DatumV = Option<ScalarV>;

pub open spec fn view_datum(d: &Datum) -> DatumV {
    match d {
        Option::None => Option::None,
        Option::Some(s) => Option::Some(s@),
    }
}

impl Clone for ScalarValue {
    fn clone(&self) -> (r: Self)
        ensures
            r@ == self@,
    {
        match self {
            ScalarValue::Bool(b) => ScalarValue::Bool(*b),
            ScalarValue::Int64(i) => ScalarValue::Int64(*i),
            ScalarValue::Utf8(s) => ScalarValue::Utf8(s.clone()),
        }
    }
}

/// The closed set of SQL data types the core speaks about.
#[derive(Debug)]
pub enum DataType {
    Boolean,
    Int32,
    Int64,
    Varchar,
    Timestamp,
    Interval,
    List(Box<DataType>),
}

impl Clone for DataType {
    fn clone(&self) -> (r: Self)
        ensures
            r == *self,
        decreases *self,
    {
        match self {
            DataType::Boolean => DataType::Boolean,
            DataType::Int32 => DataType::Int32,
            DataType::Int64 => DataType::Int64,
            DataType::Varchar => DataType::Varchar,
            DataType::Timestamp => DataType::Timestamp,
            DataType::Interval => DataType::Interval,
            DataType::List(inner) => DataType::List(Box::new((**inner).clone())),
        }
    }
}

impl DataType {
    /// Structural equality on data types.
    pub fn same_as(&self, other: &DataType) -> (r: bool)
        ensures
            r == (*self == *other),
        decreases *self,
    {
        match (self, other) {
            (DataType::Boolean, DataType::Boolean) => true,
            (DataType::Int32, DataType::Int32) => true,
            (DataType::Int64, DataType::Int64) => true,
            (DataType::Varchar, DataType::Varchar) => true,
            (DataType::Timestamp, DataType::Timestamp) => true,
            (DataType::Interval, DataType::Interval) => true,
            (DataType::List(a), DataType::List(b)) => a.same_as(b),
            _ => false,
        }
    }
}

/// Outcome of a three-way comparison.
#[derive(Clone, Copy, PartialEq, Eq, Structural, Debug)]
pub enum Rel {
    Less,
    Equal,
    Greater,
}

/// Lexicographic three-way comparison of character sequences, by code point.
pub open spec fn cmp_chars(a: Seq<char>, b: Seq<char>) -> Rel
    decreases a.len(),
{
    if a.len() == 0 && b.len() == 0 {
        Rel::Equal
    } else if a.len() == 0 {
        Rel::Less
    } else if b.len() == 0 {
        Rel::Greater
    } else if (a[0] as int) < (b[0] as int) {
        Rel::Less
    } else if (a[0] as int) > (b[0] as int) {
        Rel::Greater
    } else {
        cmp_chars(a.drop_first(), b.drop_first())
    }
}

proof fn lemma_cmp_chars_skip(a: Seq<char>, b: Seq<char>, i: int)
    requires
        0 <= i < a.len(),
        0 <= i < b.len(),
        a[i] == b[i],
    ensures
        cmp_chars(a.skip(i), b.skip(i)) == cmp_chars(a.skip(i + 1), b.skip(i + 1)),
{
    assert(a.skip(i).len() > 0);
    assert(b.skip(i).len() > 0);
    assert(a.skip(i)[0] == a[i]);
    assert(b.skip(i)[0] == b[i]);
    assert(a.skip(i).drop_first() =~= a.skip(i + 1));
    assert(b.skip(i).drop_first() =~= b.skip(i + 1));
}

/// Three-way comparison of strings, lexicographic by code point. This is the
/// order Rust's `str` comparison induces, since UTF-8 byte order agrees with
/// code-point order.
pub fn cmp_str(a: &str, b: &str) -> (r: Rel)
    ensures
        r == cmp_chars(a@, b@),
{
    let a_len = a.unicode_len();
    let b_len = b.unicode_len();
    let mut i: usize = 0;
    proof {
        assert(a@.skip(0) =~= a@);
        assert(b@.skip(0) =~= b@);
    }
    loop
        invariant
            i <= a_len,
            i <= b_len,
            a_len == a@.len(),
            b_len == b@.len(),
            cmp_chars(a@, b@) == cmp_chars(a@.skip(i as int), b@.skip(i as int)),
        decreases a_len - i,
    {
        proof {
            assert(a@.skip(i as int).len() == a_len - i);
            assert(b@.skip(i as int).len() == b_len - i);
        }
        if i == a_len {
            if i == b_len {
                return Rel::Equal;
            } else {
                return Rel::Less;
            }
        }
        if i == b_len {
            return Rel::Greater;
        }
        let ca = a.get_char(i);
        let cb = b.get_char(i);
        proof {
            assert(a@.skip(i as int)[0] == a@[i as int]);
            assert(b@.skip(i as int)[0] == b@[i as int]);
        }
        if (ca as u32) < (cb as u32) {
            return Rel::Less;
        }
        if (ca as u32) > (cb as u32) {
            return Rel::Greater;
        }
        proof {
            lemma_cmp_chars_skip(a@, b@, i as int);
        }
        i = i + 1;
    }
}

/// The opposite comparison outcome.
pub open spec fn rel_reverse(r: Rel) -> Rel {
    match r {
        Rel::Less => Rel::Greater,
        Rel::Equal => Rel::Equal,
        Rel::Greater => Rel::Less,
    }
}

pub proof fn lemma_cmp_chars_flip(a: Seq<char>, b: Seq<char>)
    ensures
        cmp_chars(b, a) == rel_reverse(cmp_chars(a, b)),
    decreases a.len(),
{
    if a.len() > 0 && b.len() > 0 && (a[0] as int) == (b[0] as int) {
        lemma_cmp_chars_flip(a.drop_first(), b.drop_first());
    }
}

pub proof fn lemma_cmp_chars_equal(a: Seq<char>, b: Seq<char>)
    requires
        cmp_chars(a, b) == Rel::Equal,
    ensures
        a == b,
    decreases a.len(),
{
    if a.len() > 0 && b.len() > 0 {
        assert((a[0] as int) == (b[0] as int));
        assert(a[0] == b[0]);
        lemma_cmp_chars_equal(a.drop_first(), b.drop_first());
        assert(a.len() == b.len());
        assert forall|i: int| 0 <= i < a.len() implies a[i] == b[i] by {
            if i > 0 {
                assert(a.drop_first()[i - 1] == a[i]);
                assert(b.drop_first()[i - 1] == b[i]);
            }
        }
        assert(a =~= b);
    } else {
        assert(a =~= b);
    }
}

pub proof fn lemma_cmp_chars_less_trans(a: Seq<char>, b: Seq<char>, c: Seq<char>)
    requires
        cmp_chars(a, b) == Rel::Less,
        cmp_chars(b, c) == Rel::Less,
    ensures
        cmp_chars(a, c) == Rel::Less,
    decreases a.len(),
{
    if a.len() > 0 {
        assert(b.len() > 0);
        assert(c.len() > 0);
        if (a[0] as int) == (b[0] as int) && (b[0] as int) == (c[0] as int) {
            lemma_cmp_chars_less_trans(a.drop_first(), b.drop_first(), c.drop_first());
        }
    } else {
        assert(b.len() > 0);
        assert(c.len() > 0);
    }
}

/// Rank of a value kind in the cross-kind order: booleans, then integers,
/// then strings.
pub open spec fn kind_rank(s: ScalarV) -> int {
    match s {
        ScalarV::Bool(_) => 0,
        ScalarV::Int64(_) => 1,
        ScalarV::Utf8(_) => 2,
    }
}

/// Total three-way order on nullable cells: null sorts before every value;
/// values of different kinds order by kind rank; booleans order false before
/// true; integers by value; strings lexicographically by code point.
pub open spec fn cmp_datum_v(a: DatumV, b: DatumV) -> Rel {
    match (a, b) {
        (Option::None, Option::None) => Rel::Equal,
        (Option::None, Option::Some(_)) => Rel::Less,
        (Option::Some(_), Option::None) => Rel::Greater,
        (Option::Some(x), Option::Some(y)) => if kind_rank(x) < kind_rank(y) {
            Rel::Less
        } else if kind_rank(x) > kind_rank(y) {
            Rel::Greater
        } else {
            match (x, y) {
                (ScalarV::Bool(p), ScalarV::Bool(q)) => if p == q {
                    Rel::Equal
                } else if !p {
                    Rel::Less
                } else {
                    Rel::Greater
                },
                (ScalarV::Int64(p), ScalarV::Int64(q)) => if p < q {
                    Rel::Less
                } else if p > q {
                    Rel::Greater
                } else {
                    Rel::Equal
                },
                (ScalarV::Utf8(p), ScalarV::Utf8(q)) => cmp_chars(p, q),
                _ => Rel::Equal,  // unreachable: ranks agree only on equal kinds
            }
        },
    }
}

pub proof fn lemma_cmp_datum_flip(a: DatumV, b: DatumV)
    ensures
        cmp_datum_v(b, a) == rel_reverse(cmp_datum_v(a, b)),
{
    match (a, b) {
        (Option::Some(ScalarV::Utf8(p)), Option::Some(ScalarV::Utf8(q))) => {
            lemma_cmp_chars_flip(p, q);
        },
        _ => {},
    }
}

pub proof fn lemma_cmp_datum_equal(a: DatumV, b: DatumV)
    requires
        cmp_datum_v(a, b) == Rel::Equal,
    ensures
        a == b,
{
    match (a, b) {
        (Option::Some(ScalarV::Utf8(p)), Option::Some(ScalarV::Utf8(q))) => {
            lemma_cmp_chars_equal(p, q);
        },
        _ => {},
    }
}

pub proof fn lemma_cmp_datum_less_trans(a: DatumV, b: DatumV, c: DatumV)
    requires
        cmp_datum_v(a, b) == Rel::Less,
        cmp_datum_v(b, c) == Rel::Less,
    ensures
        cmp_datum_v(a, c) == Rel::Less,
{
    match (a, b, c) {
        (
            Option::Some(ScalarV::Utf8(p)),
            Option::Some(ScalarV::Utf8(q)),
            Option::Some(ScalarV::Utf8(r)),
        ) => {
            lemma_cmp_chars_less_trans(p, q, r);
        },
        _ => {},
    }
}

/// Executable counterpart of `cmp_datum_v`.
pub fn cmp_datum(a: &Datum, b: &Datum) -> (r: Rel)
    ensures
        r == cmp_datum_v(view_datum(a), view_datum(b)),
{
    match (a, b) {
        (Option::None, Option::None) => Rel::Equal,
        (Option::None, Option::Some(_)) => Rel::Less,
        (Option::Some(_), Option::None) => Rel::Greater,
        (Option::Some(x), Option::Some(y)) => match (x, y) {
            (ScalarValue::Bool(p), ScalarValue::Bool(q)) => {
                if *p == *q {
                    Rel::Equal
                } else if !*p {
                    Rel::Less
                } else {
                    Rel::Greater
                }
            },
            (ScalarValue::Bool(_), _) => Rel::Less,
            (ScalarValue::Int64(_), ScalarValue::Bool(_)) => Rel::Greater,
            (ScalarValue::Int64(p), ScalarValue::Int64(q)) => {
                if *p < *q {
                    Rel::Less
                } else if *p > *q {
                    Rel::Greater
                } else {
                    Rel::Equal
                }
            },
            (ScalarValue::Int64(_), ScalarValue::Utf8(_)) => Rel::Less,
            (ScalarValue::Utf8(_), ScalarValue::Bool(_)) => Rel::Greater,
            (ScalarValue::Utf8(_), ScalarValue::Int64(_)) => Rel::Greater,
            (ScalarValue::Utf8(p), ScalarValue::Utf8(q)) => cmp_str(p.as_str(), q.as_str()),
        },
    }
}

} // verus!
