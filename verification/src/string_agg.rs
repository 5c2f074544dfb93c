//! An order-sensitive streaming aggregator: incrementally maintains the
//! concatenation of the string values seen so far, ordered by a configured
//! multi-column sort key, and exposes point-in-time snapshots.

use std::sync::Arc;

use vstd::prelude::*;

use crate::array::{ArrayBuilderImpl, Column, Row};
use crate::chunk::{DataChunk, DataChunkV};
use vstd::multiset::Multiset;
use vstd::string::StringExecFns;
use crate::scalar::{
    cmp_datum_v, lemma_cmp_datum_equal, lemma_cmp_datum_flip, lemma_cmp_datum_less_trans,
    rel_reverse, DataType, DatumV, Rel, ScalarV, ScalarValue,
};

verus! {

/// Sort direction for one key column.
#[derive(Clone, Copy, PartialEq, Eq, Structural, Debug)]
pub enum OrderType {
    Ascending,
    Descending,
}

/// One component of a sort key: a column and a direction.
#[derive(Clone, Copy, PartialEq, Eq, Structural, Debug)]
pub struct OrderPair {
    pub column_idx: usize,
    pub order_type: OrderType,
}

/// The comparison one key component induces between two rows.
pub open spec fn dir_cmp(p: OrderPair, a: Seq<DatumV>, b: Seq<DatumV>) -> Rel {
    match p.order_type {
        OrderType::Ascending => cmp_datum_v(a[p.column_idx as int], b[p.column_idx as int]),
        OrderType::Descending => cmp_datum_v(b[p.column_idx as int], a[p.column_idx as int]),
    }
}

/// Lexicographic comparison of two rows over the configured key columns.
pub open spec fn cmp_rows_v(pairs: Seq<OrderPair>, a: Seq<DatumV>, b: Seq<DatumV>) -> Rel
    decreases pairs.len(),
{
    if pairs.len() == 0 {
        Rel::Equal
    } else {
        match dir_cmp(pairs[0], a, b) {
            Rel::Equal => cmp_rows_v(pairs.drop_first(), a, b),
            r => r,
        }
    }
}

/// `a` sorts no later than `b` under the key.
pub open spec fn row_le(pairs: Seq<OrderPair>, a: Seq<DatumV>, b: Seq<DatumV>) -> bool {
    cmp_rows_v(pairs, a, b) != Rel::Greater
}

pub proof fn lemma_cmp_rows_flip(pairs: Seq<OrderPair>, a: Seq<DatumV>, b: Seq<DatumV>)
    ensures
        cmp_rows_v(pairs, b, a) == rel_reverse(cmp_rows_v(pairs, a, b)),
    decreases pairs.len(),
{
    if pairs.len() > 0 {
        let p = pairs[0];
        match p.order_type {
            OrderType::Ascending => {
                lemma_cmp_datum_flip(a[p.column_idx as int], b[p.column_idx as int]);
            },
            OrderType::Descending => {
                lemma_cmp_datum_flip(b[p.column_idx as int], a[p.column_idx as int]);
            },
        }
        if dir_cmp(p, a, b) == Rel::Equal {
            lemma_cmp_rows_flip(pairs.drop_first(), a, b);
        }
    }
}

/// Transitivity of the key order.
pub proof fn lemma_row_le_trans(
    pairs: Seq<OrderPair>,
    a: Seq<DatumV>,
    b: Seq<DatumV>,
    c: Seq<DatumV>,
)
    requires
        row_le(pairs, a, b),
        row_le(pairs, b, c),
    ensures
        row_le(pairs, a, c),
    decreases pairs.len(),
{
    if pairs.len() > 0 {
        let p = pairs[0];
        let i = p.column_idx as int;
        let ab = dir_cmp(p, a, b);
        let bc = dir_cmp(p, b, c);
        match (ab, bc) {
            (Rel::Less, Rel::Less) => {
                match p.order_type {
                    OrderType::Ascending => {
                        lemma_cmp_datum_less_trans(a[i], b[i], c[i]);
                    },
                    OrderType::Descending => {
                        lemma_cmp_datum_less_trans(c[i], b[i], a[i]);
                    },
                }
            },
            (Rel::Less, Rel::Equal) => {
                match p.order_type {
                    OrderType::Ascending => {
                        lemma_cmp_datum_equal(b[i], c[i]);
                    },
                    OrderType::Descending => {
                        lemma_cmp_datum_equal(c[i], b[i]);
                    },
                }
            },
            (Rel::Equal, Rel::Less) => {
                match p.order_type {
                    OrderType::Ascending => {
                        lemma_cmp_datum_equal(a[i], b[i]);
                    },
                    OrderType::Descending => {
                        lemma_cmp_datum_equal(b[i], a[i]);
                    },
                }
            },
            (Rel::Equal, Rel::Equal) => {
                match p.order_type {
                    OrderType::Ascending => {
                        lemma_cmp_datum_equal(a[i], b[i]);
                    },
                    OrderType::Descending => {
                        lemma_cmp_datum_equal(b[i], a[i]);
                    },
                }
                lemma_row_le_trans(pairs.drop_first(), a, b, c);
            },
            _ => {},
        }
    }
}

/// A sequence of rows in ascending key order.
pub open spec fn rows_sorted(pairs: Seq<OrderPair>, s: Seq<Seq<DatumV>>) -> bool {
    forall|i: int, j: int| 0 <= i < j < s.len() ==> row_le(pairs, #[trigger] s[i], #[trigger] s[j])
}

/// No two different rows of the collection tie on the sort key.
pub open spec fn keys_distinct(pairs: Seq<OrderPair>, ms: Multiset<Seq<DatumV>>) -> bool {
    forall|x: Seq<DatumV>, y: Seq<DatumV>|
        #[trigger] ms.contains(x) && #[trigger] ms.contains(y) && x != y ==> cmp_rows_v(pairs, x, y)
            != Rel::Equal
}

/// Two sorted sequences of the same rows are the same sequence, provided no
/// two different rows tie on the key.
pub proof fn lemma_sorted_unique(pairs: Seq<OrderPair>, a: Seq<Seq<DatumV>>, b: Seq<Seq<DatumV>>)
    requires
        a.to_multiset() == b.to_multiset(),
        rows_sorted(pairs, a),
        rows_sorted(pairs, b),
        keys_distinct(pairs, a.to_multiset()),
    ensures
        a == b,
    decreases a.len(),
{
    a.to_multiset_ensures();
    b.to_multiset_ensures();
    if a.len() == 0 {
        assert(a =~= b);
    } else {
        assert(b.len() == a.len());
        assert(a.contains(a[0]));
        assert(a.to_multiset().contains(a[0]));
        assert(b.to_multiset().count(a[0]) > 0);
        assert(b.contains(a[0]));
        assert(b.contains(b[0]));
        assert(b.to_multiset().contains(b[0]));
        assert(a.to_multiset().count(b[0]) > 0);
        assert(a.contains(b[0]));
        if a[0] != b[0] {
            let k = choose|k: int| 0 <= k < b.len() && b[k] == a[0];
            let m = choose|m: int| 0 <= m < a.len() && a[m] == b[0];
            assert(k != 0 && m != 0);
            assert(row_le(pairs, b[0], b[k]));
            assert(row_le(pairs, a[0], a[m]));
            assert(cmp_rows_v(pairs, a[0], b[0]) != Rel::Greater);
            assert(cmp_rows_v(pairs, b[0], a[0]) != Rel::Greater);
            lemma_cmp_rows_flip(pairs, a[0], b[0]);
            assert(cmp_rows_v(pairs, a[0], b[0]) == Rel::Equal);
            assert(a.to_multiset().contains(a[0]) && a.to_multiset().contains(b[0]));
            assert(false);
        }
        let a1 = a.drop_first();
        let b1 = b.drop_first();
        assert(a.remove(0) =~= a1);
        assert(b.remove(0) =~= b1);
        assert(a1.to_multiset() == a.to_multiset().remove(a[0]));
        assert(b1.to_multiset() == b.to_multiset().remove(b[0]));
        assert(a1.to_multiset() == b1.to_multiset());
        assert(rows_sorted(pairs, a1)) by {
            assert forall|i: int, j: int| 0 <= i < j < a1.len() implies row_le(
                pairs,
                #[trigger] a1[i],
                #[trigger] a1[j],
            ) by {
                assert(a1[i] == a[i + 1] && a1[j] == a[j + 1]);
            }
        }
        assert(rows_sorted(pairs, b1)) by {
            assert forall|i: int, j: int| 0 <= i < j < b1.len() implies row_le(
                pairs,
                #[trigger] b1[i],
                #[trigger] b1[j],
            ) by {
                assert(b1[i] == b[i + 1] && b1[j] == b[j + 1]);
            }
        }
        assert(keys_distinct(pairs, a1.to_multiset())) by {
            a1.to_multiset_ensures();
            assert forall|x: Seq<DatumV>, y: Seq<DatumV>|
                #[trigger] a1.to_multiset().contains(x) && #[trigger] a1.to_multiset().contains(y)
                    && x != y implies cmp_rows_v(pairs, x, y) != Rel::Equal by {
                assert(a.to_multiset().count(x) >= a1.to_multiset().count(x));
                assert(a.to_multiset().count(y) >= a1.to_multiset().count(y));
                assert(a.to_multiset().contains(x) && a.to_multiset().contains(y));
            }
        }
        lemma_sorted_unique(pairs, a1, b1);
        assert forall|i: int| 0 <= i < a.len() implies a[i] == b[i] by {
            if i > 0 {
                assert(a1[i - 1] == a[i]);
                assert(b1[i - 1] == b[i]);
            }
        }
        assert(a =~= b);
    }
}

/// All key columns of `pairs` exist in a row of width `width`.
pub open spec fn pairs_in_bounds(pairs: Seq<OrderPair>, width: nat) -> bool {
    forall|k: int| 0 <= k < pairs.len() ==> (#[trigger] pairs[k]).column_idx < width
}

/// Compares two rows over the configured key columns, lexicographically,
/// honouring each component's direction.
pub fn compare_rows(pairs: &Vec<OrderPair>, a: &Row, b: &Row) -> (r: Rel)
    requires
        pairs_in_bounds(pairs@, a@.len()),
        pairs_in_bounds(pairs@, b@.len()),
    ensures
        r == cmp_rows_v(pairs@, a@, b@),
{
    let n = pairs.len();
    let mut i: usize = 0;
    proof {
        assert(pairs@.skip(0) =~= pairs@);
    }
    loop
        invariant
            i <= n,
            n == pairs@.len(),
            pairs_in_bounds(pairs@, a@.len()),
            pairs_in_bounds(pairs@, b@.len()),
            cmp_rows_v(pairs@, a@, b@) == cmp_rows_v(pairs@.skip(i as int), a@, b@),
        decreases n - i,
    {
        proof {
            assert(pairs@.skip(i as int).len() == n - i);
        }
        if i == n {
            return Rel::Equal;
        }
        let p = pairs[i];
        proof {
            assert(pairs@.skip(i as int)[0] == pairs@[i as int]);
        }
        let da = a.value_at(p.column_idx);
        let db = b.value_at(p.column_idx);
        let c = match p.order_type {
            OrderType::Ascending => crate::scalar::cmp_datum(da, db),
            OrderType::Descending => crate::scalar::cmp_datum(db, da),
        };
        proof {
            assert(c == dir_cmp(pairs@[i as int], a@, b@));
        }
        match c {
            Rel::Equal => {
                proof {
                    assert(pairs@.skip(i as int).drop_first() =~= pairs@.skip(i as int + 1));
                }
                i = i + 1;
            },
            r => {
                return r;
            },
        }
    }
}

/// A captured copy of one input row plus a shared reference to the ordering
/// key definition.
pub struct OrderableRow {
    pub row: Row,
    pub order_pairs: Arc<Vec<OrderPair>>,
}

impl OrderableRow {
    /// Three-way comparison by the shared key, ascending. (The captured rows
    /// are kept in an ascending sorted sequence, so no reversal is needed.)
    pub fn cmp(&self, other: &Self) -> (r: Rel)
        requires
            pairs_in_bounds(self.order_pairs@, self.row@.len()),
            pairs_in_bounds(self.order_pairs@, other.row@.len()),
        ensures
            r == cmp_rows_v(self.order_pairs@, self.row@, other.row@),
    {
        compare_rows(&self.order_pairs, &self.row, &other.row)
    }
}

/// The string value a captured row contributes to the aggregate.
pub open spec fn agg_str(row: Seq<DatumV>, col: int) -> Seq<char> {
    match row[col] {
        Some(ScalarV::Utf8(s)) => s,
        _ => Seq::empty(),
    }
}

/// The concatenation of the rows' string values at column `col`, in row
/// order, with no separator.
pub open spec fn concat_values(rows: Seq<Seq<DatumV>>, col: int) -> Seq<char>
    decreases rows.len(),
{
    if rows.len() == 0 {
        Seq::empty()
    } else {
        concat_values(rows.drop_last(), col) + agg_str(rows.last(), col)
    }
}

proof fn lemma_concat_values_take_step(rows: Seq<Seq<DatumV>>, col: int, i: int)
    requires
        0 <= i < rows.len(),
    ensures
        concat_values(rows.take(i + 1), col) == concat_values(rows.take(i), col) + agg_str(
            rows[i],
            col,
        ),
{
    assert(rows.take(i + 1).drop_last() =~= rows.take(i));
    assert(rows.take(i + 1).last() == rows[i]);
}

/// Streaming string concatenation ordered by a multi-column sort key. The
/// captured rows are held sorted ascending by the key; ties keep their
/// insertion order behind the equal keys already present (deterministic, but
/// not guaranteed stable across re-accumulation).
pub struct StringAgg {
    pub agg_col_idx: usize,
    pub order_pairs: Arc<Vec<OrderPair>>,
    pub rows: Vec<OrderableRow>,
    pub all_nulls: bool,
}

/// The aggregate failed a typing contract: the input column or the output
/// builder is not of string kind. A programming error, not a data error.
#[derive(Clone, Copy, PartialEq, Eq, Structural, Debug)]
pub enum AggError {
    InputTypeMismatch,
    BuilderTypeMismatch,
}

impl StringAgg {
    /// The captured rows, in their stored (sorted) order.
    pub open spec fn captured(self) -> Seq<Seq<DatumV>> {
        self.rows@.map_values(|r: OrderableRow| r.row@)
    }

    /// The captured row at `i` is usable: it shares the key definition, the
    /// key columns and the aggregated column exist, and the aggregated cell
    /// is a string.
    pub open spec fn row_ok(self, i: int) -> bool {
        let r = self.rows@[i];
        &&& r.order_pairs@ == self.order_pairs@
        &&& pairs_in_bounds(self.order_pairs@, r.row@.len())
        &&& self.agg_col_idx < r.row@.len()
        &&& r.row@[self.agg_col_idx as int] matches Some(s) && s is Utf8
    }

    pub open spec fn le_between(self, i: int, j: int) -> bool {
        row_le(self.order_pairs@, self.rows@[i].row@, self.rows@[j].row@)
    }

    /// Captured rows are sorted ascending by the key.
    pub open spec fn sorted_ok(self) -> bool {
        forall|i: int, j: int| 0 <= i < j < self.rows@.len() ==> #[trigger] self.le_between(i, j)
    }

    /// The aggregator invariant, established by `new` and preserved by every
    /// update and output.
    pub open spec fn wf(self) -> bool {
        &&& forall|i: int| 0 <= i < self.rows@.len() ==> #[trigger] self.row_ok(i)
        &&& self.sorted_ok()
        &&& (self.all_nulls <==> self.rows@.len() == 0)
    }

    /// The snapshot value: null while no non-null input was ever captured,
    /// else the concatenation of the captured strings in sort-key order.
    pub open spec fn result_v(self) -> Option<Seq<char>> {
        if self.all_nulls {
            None
        } else {
            Some(concat_values(self.captured(), self.agg_col_idx as int))
        }
    }

    pub fn new(agg_col_idx: usize, order_pairs: Vec<OrderPair>) -> (s: StringAgg)
        ensures
            s.wf(),
            s.agg_col_idx == agg_col_idx,
            s.order_pairs@ == order_pairs@,
            s.captured() == Seq::<Seq<DatumV>>::empty(),
            s.all_nulls,
            s.result_v() is None,
    {
        let s = StringAgg {
            agg_col_idx,
            order_pairs: Arc::new(order_pairs),
            rows: Vec::new(),
            all_nulls: true,
        };
        proof {
            assert(s.captured() =~= Seq::<Seq<DatumV>>::empty());
        }
        s
    }

    /// The declared output type of this aggregate.
    pub fn return_type(&self) -> (t: DataType)
        ensures
            t == DataType::Varchar,
    {
        DataType::Varchar
    }

    /// Where a new row goes in the sorted sequence: after every row it does
    /// not sort strictly before, so a tie lands behind the equal keys already
    /// present.
    fn insert_position(&self, orow: &OrderableRow) -> (k: usize)
        requires
            self.wf(),
            orow.order_pairs@ == self.order_pairs@,
            pairs_in_bounds(self.order_pairs@, orow.row@.len()),
        ensures
            k <= self.rows@.len(),
            forall|i: int|
                0 <= i < k ==> cmp_rows_v(self.order_pairs@, orow.row@, (#[trigger] self.rows@[i]).row@)
                    != Rel::Less,
            k < self.rows@.len() ==> cmp_rows_v(
                self.order_pairs@,
                orow.row@,
                self.rows@[k as int].row@,
            ) == Rel::Less,
    {
        let n = self.rows.len();
        let mut k: usize = 0;
        while k < n
            invariant
                k <= n,
                n == self.rows@.len(),
                self.wf(),
                orow.order_pairs@ == self.order_pairs@,
                pairs_in_bounds(self.order_pairs@, orow.row@.len()),
                forall|i: int|
                    0 <= i < k ==> cmp_rows_v(
                        self.order_pairs@,
                        orow.row@,
                        (#[trigger] self.rows@[i]).row@,
                    ) != Rel::Less,
            decreases n - k,
        {
            proof {
                assert(self.row_ok(k as int));
            }
            let c = orow.cmp(&self.rows[k]);
            if matches!(c, Rel::Less) {
                return k;
            }
            k = k + 1;
        }
        k
    }

    /// Captures the full row at `row_id` (sort key and output value) into the
    /// ordered structure and clears the all-null flag.
    #[verifier::rlimit(30)]
    fn push_row(&mut self, chunk: &DataChunk, row_id: usize)
        requires
            old(self).wf(),
            chunk@.wf(),
            row_id < chunk@.nrows(),
            chunk@.visible(row_id as int),
            old(self).agg_col_idx < chunk@.cols.len(),
            pairs_in_bounds(old(self).order_pairs@, chunk@.cols.len()),
            chunk@.row_at_v(row_id as int)[old(self).agg_col_idx as int] matches Some(s) && s
                is Utf8,
        ensures
            final(self).wf(),
            final(self).agg_col_idx == old(self).agg_col_idx,
            final(self).order_pairs@ == old(self).order_pairs@,
            final(self).captured().to_multiset() == old(self).captured().to_multiset().insert(
                chunk@.row_at_v(row_id as int),
            ),
            !final(self).all_nulls,
    {
        let (row, _vis) = chunk.row_at(row_id);
        let orow = OrderableRow { row, order_pairs: self.order_pairs.clone() };
        let ghost rv = orow.row@;
        let ghost pairs = self.order_pairs@;
        let ghost old_rows = self.rows@;
        let ghost oc = self.captured();
        let k = self.insert_position(&orow);
        self.rows.insert(k, orow);
        self.all_nulls = false;
        proof {
            old_rows.insert_ensures(k as int, orow);
            oc.insert_ensures(k as int, rv);
            assert(self.captured() =~= oc.insert(k as int, rv));
            vstd::seq_lib::to_multiset_insert(oc, k as int, rv);
            // Every stored row is still usable.
            assert forall|i: int| 0 <= i < self.rows@.len() implies #[trigger] self.row_ok(i) by {
                if i < k {
                    assert(old(self).row_ok(i));
                } else if i > k {
                    assert(old(self).row_ok(i - 1));
                }
            }
            // The sequence is still sorted: the new row went after everything
            // it does not sort strictly before and before everything larger.
            assert forall|i: int, j: int| 0 <= i < j < self.rows@.len() implies #[trigger] self.le_between(
                i,
                j,
            ) by {
                let ki = k as int;
                if j < ki {
                    assert(old(self).le_between(i, j));
                } else if i < ki && j == ki {
                    lemma_cmp_rows_flip(pairs, rv, old_rows[i].row@);
                } else if i < ki && j > ki {
                    assert(old(self).le_between(i, j - 1));
                } else if i == ki {
                    // j > k: the new row sorts strictly before the old row at
                    // position k, which sorts no later than the one at j - 1.
                    assert(ki < old_rows.len());
                    if j - 1 > ki {
                        assert(old(self).le_between(ki, j - 1));
                        lemma_row_le_trans(pairs, rv, old_rows[ki].row@, old_rows[j - 1].row@);
                    }
                } else {
                    assert(old(self).le_between(i - 1, j - 1));
                }
            }
        }
    }

    /// Captures the row at `row_id` if its value in the aggregated column is
    /// non-null; a no-op on null. Fails, changing nothing, when the
    /// aggregated column is not a string column.
    pub fn update_single(&mut self, input: &DataChunk, row_id: usize) -> (r: Result<
        (),
        AggError,
    >)
        requires
            old(self).wf(),
            input@.wf(),
            row_id < input@.nrows(),
            old(self).agg_col_idx < input@.cols.len(),
            pairs_in_bounds(old(self).order_pairs@, input@.cols.len()),
            input@.cols[old(self).agg_col_idx as int][row_id as int] is Some ==> input@.visible(
                row_id as int,
            ),
        ensures
            final(self).agg_col_idx == old(self).agg_col_idx,
            final(self).order_pairs@ == old(self).order_pairs@,
            final(self).wf(),
            match r {
                Ok(()) => input.columns@[old(self).agg_col_idx as int] is Utf8 && match input@.cols[old(self).agg_col_idx as int][row_id as int] {
                    Some(_) => final(self).captured().to_multiset() == old(self).captured().to_multiset().insert(input@.row_at_v(row_id as int)) && !final(self).all_nulls,
                    None => *final(self) == *old(self),
                },
                Err(e) => !(input.columns@[old(self).agg_col_idx as int] is Utf8) && e
                    == AggError::InputTypeMismatch && *final(self) == *old(self),
            },
    {
        proof {
            assert(input@.cols[self.agg_col_idx as int] == input.columns@[self.agg_col_idx as int]@);
        }
        match &input.columns[self.agg_col_idx] {
            Column::Utf8(cells) => {
                match &cells[row_id] {
                    Option::Some(_) => {
                        proof {
                            assert(input@.row_at_v(row_id as int)[self.agg_col_idx as int]
                                == input@.cols[self.agg_col_idx as int][row_id as int]);
                        }
                        self.push_row(input, row_id);
                        Ok(())
                    },
                    Option::None => Ok(()),
                }
            },
            _ => Err(AggError::InputTypeMismatch),
        }
    }

    /// The rows of `c` in `[start, end)` whose cell in column `col` is
    /// non-null, in ascending index order.
    pub open spec fn captured_in_range(c: DataChunkV, col: int, start: int, end: int) -> Seq<
        Seq<DatumV>,
    >
        decreases end - start,
    {
        if end <= start {
            Seq::empty()
        } else {
            Self::captured_in_range(c, col, start, end - 1) + if c.cols[col][end - 1] is Some {
                seq![c.row_at_v(end - 1)]
            } else {
                Seq::empty()
            }
        }
    }

    /// `update_single` applied to every row index in `[start, end)`, in
    /// ascending index order. Fails, changing nothing, when the aggregated
    /// column is not a string column.
    pub fn update_multi(&mut self, input: &DataChunk, start_row_id: usize, end_row_id: usize) -> (r:
        Result<(), AggError>)
        requires
            old(self).wf(),
            input@.wf(),
            start_row_id <= end_row_id <= input@.nrows(),
            old(self).agg_col_idx < input@.cols.len(),
            pairs_in_bounds(old(self).order_pairs@, input@.cols.len()),
            forall|i: int|
                start_row_id <= i < end_row_id && (#[trigger] input@.cols[old(self).agg_col_idx as int][i]) is Some ==> input@.visible(i),
        ensures
            final(self).agg_col_idx == old(self).agg_col_idx,
            final(self).order_pairs@ == old(self).order_pairs@,
            final(self).wf(),
            match r {
                Ok(()) => {
                    let added = Self::captured_in_range(
                        input@,
                        old(self).agg_col_idx as int,
                        start_row_id as int,
                        end_row_id as int,
                    );
                    &&& input.columns@[old(self).agg_col_idx as int] is Utf8
                    &&& final(self).captured().to_multiset() == old(self).captured().to_multiset().add(added.to_multiset())
                    &&& (final(self).all_nulls <==> (old(self).all_nulls && added.len() == 0))
                },
                Err(e) => !(input.columns@[old(self).agg_col_idx as int] is Utf8) && e
                    == AggError::InputTypeMismatch && *final(self) == *old(self),
            },
    {
        let ghost col = self.agg_col_idx as int;
        let ghost cv = input@;
        let ghost old_ms = self.captured().to_multiset();
        let ghost old_all_nulls = self.all_nulls;
        proof {
            assert(cv.cols[col] == input.columns@[col]@);
        }
        match &input.columns[self.agg_col_idx] {
            Column::Utf8(_) => {
                proof {
                    let empty_range = Self::captured_in_range(
                        cv,
                        col,
                        start_row_id as int,
                        start_row_id as int,
                    );
                    empty_range.to_multiset_ensures();
                    assert forall|x: Seq<DatumV>|
                        empty_range.to_multiset().count(x) == Multiset::<Seq<DatumV>>::empty().count(
                            x,
                        ) by {
                        assert(!empty_range.contains(x));
                    }
                    assert(empty_range.to_multiset() =~= Multiset::empty());
                    assert(old_ms.add(empty_range.to_multiset()) =~= old_ms);
                }
                let mut i: usize = start_row_id;
                while i < end_row_id
                    invariant
                        start_row_id <= i <= end_row_id,
                        end_row_id <= cv.nrows(),
                        self.wf(),
                        cv.wf(),
                        cv == input@,
                        self.agg_col_idx == old(self).agg_col_idx,
                        self.order_pairs@ == old(self).order_pairs@,
                        col == self.agg_col_idx as int,
                        col < cv.cols.len(),
                        pairs_in_bounds(self.order_pairs@, cv.cols.len()),
                        input.columns@[col] is Utf8,
                        forall|j: int|
                            start_row_id <= j < end_row_id && (#[trigger] cv.cols[col][j]) is Some
                                ==> cv.visible(j),
                        self.captured().to_multiset() == old_ms.add(
                            Self::captured_in_range(
                                cv,
                                col,
                                start_row_id as int,
                                i as int,
                            ).to_multiset(),
                        ),
                        self.all_nulls <==> (old_all_nulls && Self::captured_in_range(
                            cv,
                            col,
                            start_row_id as int,
                            i as int,
                        ).len() == 0),
                    decreases end_row_id - i,
                {
                    let ghost range_before = Self::captured_in_range(
                        cv,
                        col,
                        start_row_id as int,
                        i as int,
                    );
                    let r = self.update_single(input, i);
                    proof {
                        assert(r is Ok);
                        let range_after = Self::captured_in_range(
                            cv,
                            col,
                            start_row_id as int,
                            i as int + 1,
                        );
                        if cv.cols[col][i as int] is Some {
                            let rv = cv.row_at_v(i as int);
                            assert(range_after =~= range_before.push(rv));
                            range_before.to_multiset_ensures();
                            assert(range_after.to_multiset() =~= range_before.to_multiset().insert(
                                rv,
                            ));
                            assert(old_ms.add(range_before.to_multiset().insert(rv)) =~= old_ms.add(
                                range_before.to_multiset(),
                            ).insert(rv));
                            assert(self.captured().to_multiset() =~= old_ms.add(
                                range_after.to_multiset(),
                            ));
                        } else {
                            assert(range_after =~= range_before);
                        }
                    }
                    i = i + 1;
                }
                Ok(())
            },
            _ => Err(AggError::InputTypeMismatch),
        }
    }

    /// The snapshot: null while no non-null value was ever captured, else the
    /// concatenation of the captured strings in sort-key order.
    pub fn get_result(&self) -> (r: Option<String>)
        requires
            self.wf(),
        ensures
            match (r, self.result_v()) {
                (Option::Some(s), Option::Some(v)) => s@ == v,
                (Option::None, Option::None) => true,
                _ => false,
            },
    {
        if self.all_nulls {
            return Option::None;
        }
        let ghost col = self.agg_col_idx as int;
        let mut out = String::new();
        let n = self.rows.len();
        let mut i: usize = 0;
        proof {
            assert(self.captured().take(0) =~= Seq::<Seq<DatumV>>::empty());
        }
        while i < n
            invariant
                i <= n,
                n == self.rows@.len(),
                self.wf(),
                col == self.agg_col_idx as int,
                out@ == concat_values(self.captured().take(i as int), col),
            decreases n - i,
        {
            proof {
                assert(self.row_ok(i as int));
                lemma_concat_values_take_step(self.captured(), col, i as int);
                assert(self.captured()[i as int] == self.rows@[i as int].row@);
            }
            let cell = self.rows[i].row.value_at(self.agg_col_idx);
            match cell {
                Option::Some(ScalarValue::Utf8(s)) => {
                    out.append(s.as_str());
                },
                _ => {
                    proof {
                        assert(false);
                    }
                },
            }
            i = i + 1;
        }
        proof {
            assert(self.captured().take(n as int) =~= self.captured());
        }
        Option::Some(out)
    }

    /// Like `get_result`, but also clears all captured state and re-arms the
    /// all-null flag, starting a new accumulation epoch.
    pub fn get_result_and_reset(&mut self) -> (r: Option<String>)
        requires
            old(self).wf(),
        ensures
            match (r, old(self).result_v()) {
                (Option::Some(s), Option::Some(v)) => s@ == v,
                (Option::None, Option::None) => true,
                _ => false,
            },
            final(self).wf(),
            final(self).all_nulls,
            final(self).captured() == Seq::<Seq<DatumV>>::empty(),
            final(self).result_v() is None,
            final(self).agg_col_idx == old(self).agg_col_idx,
            final(self).order_pairs@ == old(self).order_pairs@,
    {
        let r = self.get_result();
        self.rows = Vec::new();
        self.all_nulls = true;
        proof {
            assert(self.captured() =~= Seq::<Seq<DatumV>>::empty());
        }
        r
    }

    /// Appends the snapshot to the builder: the concatenation in sort-key
    /// order, or a null marker while nothing non-null was captured. Fails,
    /// changing nothing, when the builder is not of string kind. Does not
    /// mutate the aggregate, so snapshots can be taken repeatedly.
    pub fn output(&self, builder: &mut ArrayBuilderImpl) -> (r: Result<(), AggError>)
        requires
            self.wf(),
        ensures
            match r {
                Ok(()) => *old(builder) is Utf8 && final(builder)@ == old(builder)@.push(
                    match self.result_v() {
                        Option::None => Option::None,
                        Option::Some(s) => Option::Some(ScalarV::Utf8(s)),
                    },
                ),
                Err(e) => !(*old(builder) is Utf8) && e == AggError::BuilderTypeMismatch && *final(builder) == *old(builder),
            },
    {
        match builder {
            ArrayBuilderImpl::Utf8(cells) => {
                let ghost prev = cells@;
                let s = self.get_result();
                cells.push(s);
                proof {
                    assert(builder@ =~= old(builder)@.push(
                        match self.result_v() {
                            Option::None => Option::None,
                            Option::Some(v) => Option::Some(ScalarV::Utf8(v)),
                        },
                    ));
                }
                Ok(())
            },
            _ => Err(AggError::BuilderTypeMismatch),
        }
    }

    /// Like `output`, but additionally clears the captured state and re-arms
    /// the all-null flag.
    pub fn output_and_reset(&mut self, builder: &mut ArrayBuilderImpl) -> (r: Result<(), AggError>)
        requires
            old(self).wf(),
        ensures
            final(self).agg_col_idx == old(self).agg_col_idx,
            final(self).order_pairs@ == old(self).order_pairs@,
            final(self).wf(),
            match r {
                Ok(()) => *old(builder) is Utf8 && final(builder)@ == old(builder)@.push(
                    match old(self).result_v() {
                        Option::None => Option::None,
                        Option::Some(s) => Option::Some(ScalarV::Utf8(s)),
                    },
                ) && final(self).all_nulls && final(self).captured() == Seq::<Seq<DatumV>>::empty(),
                Err(e) => !(*old(builder) is Utf8) && e == AggError::BuilderTypeMismatch && *final(builder) == *old(builder) && *final(self) == *old(self),
            },
    {
        match builder {
            ArrayBuilderImpl::Utf8(cells) => {
                let ghost prev = cells@;
                let s = self.get_result_and_reset();
                cells.push(s);
                proof {
                    assert(builder@ =~= old(builder)@.push(
                        match old(self).result_v() {
                            Option::None => Option::None,
                            Option::Some(v) => Option::Some(ScalarV::Utf8(v)),
                        },
                    ));
                }
                Ok(())
            },
            _ => Err(AggError::BuilderTypeMismatch),
        }
    }
}

/// Aggregator order correctness: however the update calls were interleaved,
/// two aggregators over the same key and aggregated column that captured the
/// same rows hold identical sequences and produce identical snapshots,
/// provided no two different rows tie on the key. (With ties, which of the
/// tied rows comes first depends on insertion order, as documented.)
pub proof fn lemma_agg_result_canonical(a: StringAgg, b: StringAgg)
    requires
        a.wf(),
        b.wf(),
        a.order_pairs@ == b.order_pairs@,
        a.agg_col_idx == b.agg_col_idx,
        a.captured().to_multiset() == b.captured().to_multiset(),
        keys_distinct(a.order_pairs@, a.captured().to_multiset()),
    ensures
        a.captured() == b.captured(),
        a.result_v() == b.result_v(),
{
    let pairs = a.order_pairs@;
    assert(rows_sorted(pairs, a.captured())) by {
        assert forall|i: int, j: int| 0 <= i < j < a.captured().len() implies row_le(
            pairs,
            #[trigger] a.captured()[i],
            #[trigger] a.captured()[j],
        ) by {
            assert(a.le_between(i, j));
        }
    }
    assert(rows_sorted(pairs, b.captured())) by {
        assert forall|i: int, j: int| 0 <= i < j < b.captured().len() implies row_le(
            pairs,
            #[trigger] b.captured()[i],
            #[trigger] b.captured()[j],
        ) by {
            assert(b.le_between(i, j));
        }
    }
    lemma_sorted_unique(pairs, a.captured(), b.captured());
    a.captured().to_multiset_ensures();
    b.captured().to_multiset_ensures();
    assert(a.all_nulls == b.all_nulls);
}

} // verus!
