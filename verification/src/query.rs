//! Decision core of query handling: classifying statements, resolving the
//! query mode, and extracting the affected-row count from the first result
//! row. Planning, scheduling and the wire protocol live outside the verified
//! core; the binary row-count decode goes through `postgres-types`.

use vstd::prelude::*;

verus! {

/// The statement shapes the handler distinguishes. Anything else is
/// unsupported here.
#[derive(Clone, Copy, PartialEq, Eq, Structural, Debug)]
pub enum Statement {
    Query,
    Insert { has_returning: bool },
    Delete { has_returning: bool },
    Update { has_returning: bool },
    Other,
}

/// The response tag a finished statement reports.
#[derive(Clone, Copy, PartialEq, Eq, Structural, Debug)]
pub enum StatementType {
    Select,
    Insert,
    Delete,
    Update,
    InsertReturning,
    DeleteReturning,
    UpdateReturning,
}

/// Where a query runs.
#[derive(Clone, Copy, PartialEq, Eq, Structural, Debug)]
pub enum QueryMode {
    Local,
    Distributed,
}

/// How result values are encoded on the wire.
#[derive(Clone, Copy, PartialEq, Eq, Structural, Debug)]
pub enum Format {
    Text,
    Binary,
}

/// Why query handling failed.
#[derive(Clone, Copy, PartialEq, Eq, Structural, Debug)]
pub enum QueryError {
    /// The statement shape is not handled here.
    UnsupportedStatement,
    /// The optimizer forced the query to both local and distributed mode.
    ConflictingQueryMode,
    /// The binary affected-rows value was not a well-formed INT8, or does not
    /// fit a 32-bit count.
    BadAffectedRows,
}

/// The statement type of each supported statement shape.
pub open spec fn statement_type_of(stmt: Statement) -> Option<StatementType> {
    match stmt {
        Statement::Query => Some(StatementType::Select),
        Statement::Insert { has_returning } => Some(
            if has_returning {
                StatementType::InsertReturning
            } else {
                StatementType::Insert
            },
        ),
        Statement::Delete { has_returning } => Some(
            if has_returning {
                StatementType::DeleteReturning
            } else {
                StatementType::Delete
            },
        ),
        Statement::Update { has_returning } => Some(
            if has_returning {
                StatementType::UpdateReturning
            } else {
                StatementType::Update
            },
        ),
        Statement::Other => None,
    }
}

/// Classifies a statement, rejecting shapes this handler does not support.
pub fn to_statement_type(stmt: &Statement) -> (r: Result<StatementType, QueryError>)
    ensures
        match statement_type_of(*stmt) {
            Some(t) => r == Ok::<StatementType, QueryError>(t),
            None => r == Err::<StatementType, QueryError>(QueryError::UnsupportedStatement),
        },
{
    match stmt {
        Statement::Query => Ok(StatementType::Select),
        Statement::Insert { has_returning } => Ok(
            if *has_returning {
                StatementType::InsertReturning
            } else {
                StatementType::Insert
            },
        ),
        Statement::Delete { has_returning } => Ok(
            if *has_returning {
                StatementType::DeleteReturning
            } else {
                StatementType::Delete
            },
        ),
        Statement::Update { has_returning } => Ok(
            if *has_returning {
                StatementType::UpdateReturning
            } else {
                StatementType::Update
            },
        ),
        Statement::Other => Err(QueryError::UnsupportedStatement),
    }
}

/// Whether a statement type writes data.
pub open spec fn is_dml_spec(t: StatementType) -> bool {
    match t {
        StatementType::Select => false,
        _ => true,
    }
}

pub fn is_dml(t: &StatementType) -> (r: bool)
    ensures
        r == is_dml_spec(*t),
{
    !matches!(t, StatementType::Select)
}

/// Whether the handler counts affected rows itself: plain DML without a
/// RETURNING clause. SELECT and RETURNING statements stream rows instead.
pub open spec fn needs_row_count_spec(t: StatementType) -> bool {
    match t {
        StatementType::Insert | StatementType::Delete | StatementType::Update => true,
        _ => false,
    }
}

pub fn needs_row_count(t: &StatementType) -> (r: bool)
    ensures
        r == needs_row_count_spec(*t),
{
    matches!(t, StatementType::Insert | StatementType::Delete | StatementType::Update)
}

/// Resolves where the query runs. DML must run distributed; a query over a
/// system table must run locally; both at once is a planning contradiction;
/// with neither constraint the session default decides.
pub fn resolve_query_mode(must_dist: bool, must_local: bool, session_default: QueryMode) -> (r:
    Result<QueryMode, QueryError>)
    ensures
        match (must_dist, must_local) {
            (true, true) => r == Err::<QueryMode, QueryError>(QueryError::ConflictingQueryMode),
            (true, false) => r == Ok::<QueryMode, QueryError>(QueryMode::Distributed),
            (false, true) => r == Ok::<QueryMode, QueryError>(QueryMode::Local),
            (false, false) => r == Ok::<QueryMode, QueryError>(session_default),
        },
{
    match (must_dist, must_local) {
        (true, true) => Err(QueryError::ConflictingQueryMode),
        (true, false) => Ok(QueryMode::Distributed),
        (false, true) => Ok(QueryMode::Local),
        (false, false) => Ok(session_default),
    }
}

/// Whether the post-query callback flushes: the session asks for implicit
/// flushes and the statement wrote data.
pub fn should_implicit_flush(implicit_flush: bool, t: &StatementType) -> (r: bool)
    ensures
        r == (implicit_flush && is_dml_spec(*t)),
{
    implicit_flush && is_dml(t)
}

/// The unsigned big-endian reading of a byte sequence.
pub open spec fn be_u64(s: Seq<u8>) -> nat
    decreases s.len(),
{
    if s.len() == 0 {
        0
    } else {
        be_u64(s.drop_last()) * 256 + s.last() as nat
    }
}

/// The signed 64-bit value eight big-endian bytes encode, two's complement.
pub open spec fn be_i64(s: Seq<u8>) -> i64 {
    be_u64(s) as u64 as i64
}

/// Relies on `postgres_types`' `FromSql` for `i64` (`int8_from_sql` of
/// postgres-protocol): an INT8 value is exactly eight bytes, big-endian two's
/// complement; any other length is an error.
#[verifier::external_body]
fn int8_from_sql(raw: &Vec<u8>) -> (r: Option<i64>)
    ensures
        r == if raw@.len() == 8 {
            Some(be_i64(raw@))
        } else {
            None::<i64>
        },
{
    <i64 as postgres_types::FromSql>::from_sql(&postgres_types::Type::INT8, raw.as_slice()).ok()
}

pub open spec fn is_ascii_digit(b: u8) -> bool {
    48 <= b <= 57
}

/// The number the digit bytes spell in decimal.
pub open spec fn digits_val(s: Seq<u8>) -> int
    decreases s.len(),
{
    if s.len() == 0 {
        0
    } else {
        digits_val(s.drop_last()) * 10 + (s.last() - 48)
    }
}

pub open spec fn all_digits(s: Seq<u8>) -> bool {
    forall|i: int| 0 <= i < s.len() ==> is_ascii_digit(#[trigger] s[i])
}

/// What `i32` parsing accepts: an optional sign, then one or more decimal
/// digits, the value within the 32-bit signed range.
pub open spec fn parsed_i32(s: Seq<u8>) -> Option<i32> {
    let neg = s.len() > 0 && s[0] == 45;
    let digits = if s.len() > 0 && (s[0] == 43 || s[0] == 45) {
        s.drop_first()
    } else {
        s
    };
    if digits.len() == 0 || !all_digits(digits) {
        None
    } else {
        let v = if neg {
            -digits_val(digits)
        } else {
            digits_val(digits)
        };
        if i32::MIN <= v <= i32::MAX {
            Some(v as i32)
        } else {
            None
        }
    }
}

proof fn lemma_digits_val_nonneg(s: Seq<u8>)
    requires
        all_digits(s),
    ensures
        digits_val(s) >= 0,
    decreases s.len(),
{
    if s.len() > 0 {
        assert(all_digits(s.drop_last())) by {
            assert(forall|i: int|
                0 <= i < s.len() - 1 ==> #[trigger] s.drop_last()[i] == s[i]);
        }
        lemma_digits_val_nonneg(s.drop_last());
        assert(is_ascii_digit(s.last()));
    }
}

proof fn lemma_digits_val_take_step(s: Seq<u8>, i: int)
    requires
        0 <= i < s.len(),
    ensures
        digits_val(s.take(i + 1)) == digits_val(s.take(i)) * 10 + (s[i] - 48),
{
    assert(s.take(i + 1).drop_last() =~= s.take(i));
    assert(s.take(i + 1).last() == s[i]);
}

proof fn lemma_digits_val_prefix(s: Seq<u8>, i: int)
    requires
        all_digits(s),
        0 <= i <= s.len(),
    ensures
        digits_val(s.take(i)) <= digits_val(s),
    decreases s.len() - i,
{
    if i < s.len() {
        lemma_digits_val_take_step(s, i);
        assert(all_digits(s.take(i))) by {
            assert(forall|k: int| 0 <= k < i ==> #[trigger] s.take(i)[k] == s[k]);
        }
        lemma_digits_val_nonneg(s.take(i));
        assert(is_ascii_digit(s[i]));
        assert(digits_val(s.take(i)) <= digits_val(s.take(i + 1)));
        lemma_digits_val_prefix(s, i + 1);
    } else {
        assert(s.take(i) =~= s);
    }
}

/// Parses a decimal `i32` from ASCII bytes: an optional sign, then digits.
/// Returns nothing on any other shape or when the value does not fit.
pub fn parse_i32_ascii(raw: &Vec<u8>) -> (r: Option<i32>)
    ensures
        r == parsed_i32(raw@),
{
    let n = raw.len();
    if n == 0 {
        return Option::None;
    }
    let first = raw[0];
    let has_sign = first == 43 || first == 45;
    let neg = first == 45;
    let start: usize = if has_sign {
        1
    } else {
        0
    };
    let ghost digits = if has_sign {
        raw@.drop_first()
    } else {
        raw@
    };
    proof {
        assert(digits.len() == n - start);
        assert(forall|k: int|
            0 <= k < digits.len() ==> #[trigger] digits[k] == raw@[k + start]);
    }
    if start == n {
        return Option::None;
    }
    let mut acc: u64 = 0;
    let mut i: usize = start;
    proof {
        assert(digits.take(0) =~= Seq::<u8>::empty());
    }
    while i < n
        invariant
            start <= i <= n,
            n == raw@.len(),
            n > 0,
            start <= 1,
            has_sign == (raw@[0] == 43 || raw@[0] == 45),
            neg == (raw@[0] == 45),
            start == if has_sign {
                1int
            } else {
                0int
            },
            digits == if has_sign {
                raw@.drop_first()
            } else {
                raw@
            },
            digits.len() == n - start,
            forall|k: int| 0 <= k < digits.len() ==> #[trigger] digits[k] == raw@[k + start],
            all_digits(digits.take(i - start)),
            acc == digits_val(digits.take(i - start)),
            acc <= 0x8000_0000u64,
        decreases n - i,
    {
        let b = raw[i];
        if b < 48 || b > 57 {
            proof {
                assert(digits[i - start] == raw@[i as int]);
                assert(!is_ascii_digit(digits[i - start]));
                assert(!all_digits(digits));
            }
            return Option::None;
        }
        proof {
            lemma_digits_val_take_step(digits, i - start);
        }
        acc = acc * 10 + ((b - 48) as u64);
        proof {
            assert(all_digits(digits.take(i + 1 - start))) by {
                assert(forall|k: int|
                    0 <= k < i + 1 - start ==> #[trigger] digits.take(i + 1 - start)[k]
                        == digits[k]);
            }
        }
        if acc > 0x8000_0000u64 {
            proof {
                if all_digits(digits) {
                    lemma_digits_val_prefix(digits, i + 1 - start);
                    assert(digits_val(digits) > 0x8000_0000);
                }
            }
            return Option::None;
        }
        i = i + 1;
    }
    proof {
        assert(digits.take(n - start) =~= digits);
    }
    if neg {
        let v = -(acc as i64);
        proof {
            assert(i32::MIN <= v <= i32::MAX);
        }
        Option::Some(v as i32)
    } else {
        if acc > 0x7FFF_FFFFu64 {
            proof {
                assert(digits_val(digits) == 0x8000_0000);
            }
            return Option::None;
        }
        Option::Some(acc as i32)
    }
}

/// The affected-row count the first result row reports: a binary INT8 that
/// must fit 32 bits, or decimal text, where any malformed text counts as
/// zero.
pub open spec fn affected_rows_of(format: Format, raw: Seq<u8>) -> Result<i32, QueryError> {
    match format {
        Format::Binary => {
            if raw.len() == 8 && i32::MIN <= be_i64(raw) <= i32::MAX {
                Ok(be_i64(raw) as i32)
            } else {
                Err(QueryError::BadAffectedRows)
            }
        },
        Format::Text => Ok(
            match parsed_i32(raw) {
                Some(v) => v,
                None => 0,
            },
        ),
    }
}

/// Extracts the affected-row count from the raw value of the first field of
/// the first result row.
pub fn parse_affected_rows(format: Format, raw: &Vec<u8>) -> (r: Result<i32, QueryError>)
    ensures
        r == affected_rows_of(format, raw@),
{
    match format {
        Format::Binary => {
            match int8_from_sql(raw) {
                Option::Some(v) => {
                    if v >= i32::MIN as i64 && v <= i32::MAX as i64 {
                        Ok(v as i32)
                    } else {
                        Err(QueryError::BadAffectedRows)
                    }
                },
                Option::None => Err(QueryError::BadAffectedRows),
            }
        },
        Format::Text => {
            match parse_i32_ascii(raw) {
                Option::Some(v) => Ok(v),
                Option::None => Ok(0),
            }
        },
    }
}

} // verus!
