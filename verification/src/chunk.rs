//! The change-record model: per-row operation tags, columnar data chunks with
//! visibility bitmaps, and the stream chunks every operator consumes and
//! produces.

use vstd::prelude::*;

use crate::array::Column;
use crate::scalar::{Datum, DatumV};

verus! {

/// The semantic effect of one row within a chunk. An `UpdateDelete` is paired
/// with the `UpdateInsert` at the next position; see `well_paired`.
#[derive(Clone, Copy, PartialEq, Eq, Structural, Debug)]
pub enum Op {
    Insert,
    Delete,
    UpdateDelete,
    UpdateInsert,
}

/// Number of `true` bits in a visibility bitmap.
pub open spec fn count_trues(s: Seq<bool>) -> nat
    decreases s.len(),
{
    if s.len() == 0 {
        0
    } else {
        count_trues(s.drop_last()) + if s.last() {
            1nat
        } else {
            0nat
        }
    }
}

pub proof fn lemma_count_trues_le_len(s: Seq<bool>)
    ensures
        count_trues(s) <= s.len(),
    decreases s.len(),
{
    if s.len() > 0 {
        lemma_count_trues_le_len(s.drop_last());
    }
}

pub proof fn lemma_count_trues_take_step(s: Seq<bool>, i: int)
    requires
        0 <= i < s.len(),
    ensures
        count_trues(s.take(i + 1)) == count_trues(s.take(i)) + if s[i] {
            1nat
        } else {
            0nat
        },
{
    assert(s.take(i + 1).drop_last() =~= s.take(i));
    assert(s.take(i + 1).last() == s[i]);
}

/// Counts the set bits of a visibility bitmap.
pub fn count_trues_vec(v: &Vec<bool>) -> (n: usize)
    ensures
        n == count_trues(v@),
{
    let mut n: usize = 0;
    let mut i: usize = 0;
    proof {
        assert(v@.take(0) =~= Seq::<bool>::empty());
    }
    while i < v.len()
        invariant
            i <= v@.len(),
            n == count_trues(v@.take(i as int)),
            n <= i,
        decreases v@.len() - i,
    {
        proof {
            lemma_count_trues_take_step(v@, i as int);
        }
        if v[i] {
            n = n + 1;
        }
        i = i + 1;
    }
    proof {
        assert(v@.take(v@.len() as int) =~= v@);
    }
    n
}

/// The rows kept by a visibility bitmap, in order.
pub open spec fn compact_seq<A>(s: Seq<A>, vis: Seq<bool>) -> Seq<A>
    decreases s.len(),
{
    if s.len() == 0 {
        Seq::empty()
    } else {
        compact_seq(s.drop_last(), vis.drop_last()) + if vis.last() {
            seq![s.last()]
        } else {
            Seq::empty()
        }
    }
}

pub proof fn lemma_compact_seq_len<A>(s: Seq<A>, vis: Seq<bool>)
    requires
        s.len() == vis.len(),
    ensures
        compact_seq(s, vis).len() == count_trues(vis),
    decreases s.len(),
{
    if s.len() > 0 {
        lemma_compact_seq_len(s.drop_last(), vis.drop_last());
    }
}

pub proof fn lemma_compact_seq_all_visible<A>(s: Seq<A>, vis: Seq<bool>)
    requires
        s.len() == vis.len(),
        count_trues(vis) == vis.len(),
    ensures
        compact_seq(s, vis) == s,
    decreases s.len(),
{
    if s.len() > 0 {
        lemma_count_trues_le_len(vis.drop_last());
        lemma_compact_seq_all_visible(s.drop_last(), vis.drop_last());
        assert(compact_seq(s, vis) =~= s);
    } else {
        assert(compact_seq(s, vis) =~= s);
    }
}

pub proof fn lemma_compact_seq_take_step<A>(s: Seq<A>, vis: Seq<bool>, i: int)
    requires
        0 <= i < s.len(),
        s.len() == vis.len(),
    ensures
        compact_seq(s.take(i + 1), vis.take(i + 1)) == compact_seq(s.take(i), vis.take(i)) + if vis[i] {
            seq![s[i]]
        } else {
            Seq::<A>::empty()
        },
{
    assert(s.take(i + 1).drop_last() =~= s.take(i));
    assert(vis.take(i + 1).drop_last() =~= vis.take(i));
    assert(s.take(i + 1).last() == s[i]);
    assert(vis.take(i + 1).last() == vis[i]);
}

pub proof fn lemma_compact_map<A, B>(s: Seq<A>, vis: Seq<bool>, f: spec_fn(A) -> B)
    requires
        s.len() == vis.len(),
    ensures
        compact_seq(s, vis).map_values(f) == compact_seq(s.map_values(f), vis),
    decreases s.len(),
{
    if s.len() == 0 {
        assert(compact_seq(s, vis).map_values(f) =~= compact_seq(s.map_values(f), vis));
    } else {
        lemma_compact_map(s.drop_last(), vis.drop_last(), f);
        assert(s.map_values(f).drop_last() =~= s.drop_last().map_values(f));
        assert(s.map_values(f).last() == f(s.last()));
        assert(compact_seq(s, vis).map_values(f) =~= compact_seq(s.map_values(f), vis));
    }
}

/// Spec-level image of a `DataChunk`.
pub struct DataChunkV {
    pub cols: Seq<Seq<DatumV>>,
    pub vis: Option<Seq<bool>>,
    pub card: nat,
}

impl DataChunkV {
    /// Row count; with no bitmap, the cardinality is the row count.
    pub open spec fn nrows(self) -> nat {
        match self.vis {
            Option::Some(v) => v.len(),
            Option::None => self.card,
        }
    }

    pub open spec fn wf(self) -> bool {
        &&& forall|j: int| 0 <= j < self.cols.len() ==> (#[trigger] self.cols[j]).len() == self.nrows()
        &&& match self.vis {
            Option::Some(v) => self.card == count_trues(v),
            Option::None => true,
        }
    }

    pub open spec fn visible(self, i: int) -> bool {
        match self.vis {
            Option::Some(v) => v[i],
            Option::None => true,
        }
    }

    /// The row at index `i`: one cell from each column.
    pub open spec fn row_at_v(self, i: int) -> Seq<DatumV> {
        Seq::new(self.cols.len(), |j: int| self.cols[j][i])
    }
}

/// A columnar batch: one array per field, an optional visibility bitmap, and
/// the count of visible rows.
pub struct DataChunk {
    pub columns: Vec<Column>,
    pub visibility: Option<Vec<bool>>,
    pub cardinality: usize,
}

impl View for DataChunk {
    type V = DataChunkV;

    open spec fn view(&self) -> DataChunkV {
        DataChunkV {
            cols: self.columns@.map_values(|c: Column| c@),
            vis: match &self.visibility {
                Option::Some(v) => Option::Some(v@),
                Option::None => Option::None,
            },
            card: self.cardinality as nat,
        }
    }
}

impl DataChunk {
    /// Row count of the chunk.
    pub fn nrows(&self) -> (n: usize)
        requires
            self@.wf(),
        ensures
            n == self@.nrows(),
    {
        match &self.visibility {
            Option::Some(v) => v.len(),
            Option::None => self.cardinality,
        }
    }

    /// Checks the chunk invariant: every column has the row count's length
    /// and the cardinality equals the number of visible rows.
    pub fn well_formed(&self) -> (r: bool)
        ensures
            r == self@.wf(),
    {
        let n = match &self.visibility {
            Option::Some(v) => v.len(),
            Option::None => self.cardinality,
        };
        let mut j: usize = 0;
        while j < self.columns.len()
            invariant
                j <= self.columns@.len(),
                forall|k: int| 0 <= k < j ==> (#[trigger] self@.cols[k]).len() == n,
                n == self@.nrows(),
            decreases self.columns@.len() - j,
        {
            proof {
                assert(self@.cols[j as int] == self.columns@[j as int]@);
            }
            if self.columns[j].len() != n {
                return false;
            }
            j = j + 1;
        }
        match &self.visibility {
            Option::Some(v) => {
                let c = count_trues_vec(v);
                c == self.cardinality
            },
            Option::None => true,
        }
    }

    /// The row at index `i` and whether it is visible.
    pub fn row_at(&self, i: usize) -> (r: (crate::array::Row, bool))
        requires
            self@.wf(),
            i < self@.nrows(),
        ensures
            r.0@ == self@.row_at_v(i as int),
            r.1 == self@.visible(i as int),
    {
        let mut cells: Vec<Datum> = Vec::new();
        let mut j: usize = 0;
        while j < self.columns.len()
            invariant
                j <= self.columns@.len(),
                self@.wf(),
                i < self@.nrows(),
                cells@.len() == j,
                forall|k: int| 0 <= k < j ==> crate::scalar::view_datum(&#[trigger] cells@[k])
                    == self@.cols[k][i as int],
            decreases self.columns@.len() - j,
        {
            proof {
                assert(self@.cols[j as int] == self.columns@[j as int]@);
            }
            let d = self.columns[j].datum_at(i);
            cells.push(d);
            j = j + 1;
        }
        let vis = match &self.visibility {
            Option::Some(v) => v[i],
            Option::None => true,
        };
        let row = crate::array::Row(cells);
        proof {
            assert(row@ =~= self@.row_at_v(i as int));
        }
        (row, vis)
    }

    /// Drops the rows the bitmap hides, yielding a dense chunk of the same
    /// cardinality with no bitmap.
    pub fn compact(self) -> (r: DataChunk)
        requires
            self@.wf(),
        ensures
            r@.wf(),
            r@.vis is None,
            r@.card == self@.card,
            r@.cols.len() == self@.cols.len(),
            forall|j: int| 0 <= j < self@.cols.len() ==> #[trigger] r@.cols[j] == match self@.vis {
                Option::Some(v) => compact_seq(self@.cols[j], v),
                Option::None => self@.cols[j],
            },
    {
        match self.visibility {
            Option::None => {
                DataChunk { columns: self.columns, visibility: Option::None, cardinality: self.cardinality }
            },
            Option::Some(vis) => {
                let ghost old_cols = self.columns@.map_values(|c: Column| c@);
                let mut out: Vec<Column> = Vec::new();
                let mut j: usize = 0;
                let columns = self.columns;
                while j < columns.len()
                    invariant
                        j <= columns@.len(),
                        old_cols == columns@.map_values(|c: Column| c@),
                        forall|k: int| 0 <= k < old_cols.len() ==> (#[trigger] old_cols[k]).len()
                            == vis@.len(),
                        out@.len() == j,
                        forall|k: int| 0 <= k < j ==> (#[trigger] out@[k])@ == compact_seq(
                            old_cols[k],
                            vis@,
                        ),
                    decreases columns@.len() - j,
                {
                    proof {
                        assert(old_cols[j as int] == columns@[j as int]@);
                    }
                    let c = compact_column(&columns[j], &vis);
                    out.push(c);
                    j = j + 1;
                }
                let r = DataChunk { columns: out, visibility: Option::None, cardinality: self.cardinality };
                proof {
                    assert(r@.cols =~= out@.map_values(|c: Column| c@));
                    assert forall|k: int| 0 <= k < r@.cols.len() implies (#[trigger] r@.cols[k]).len()
                        == r@.nrows() by {
                        lemma_compact_seq_len(old_cols[k], vis@);
                    }
                }
                r
            },
        }
    }
}

/// Keeps the cells of `v` whose visibility bit is set.
fn compact_cells_bool(v: &Vec<Option<bool>>, vis: &Vec<bool>) -> (r: Vec<Option<bool>>)
    requires
        v@.len() == vis@.len(),
    ensures
        r@ == compact_seq(v@, vis@),
{
    let mut r: Vec<Option<bool>> = Vec::new();
    let mut i: usize = 0;
    proof {
        assert(v@.take(0) =~= Seq::<Option<bool>>::empty());
        assert(vis@.take(0) =~= Seq::<bool>::empty());
    }
    while i < v.len()
        invariant
            i <= v@.len(),
            v@.len() == vis@.len(),
            r@ == compact_seq(v@.take(i as int), vis@.take(i as int)),
        decreases v@.len() - i,
    {
        proof {
            lemma_compact_seq_take_step(v@, vis@, i as int);
        }
        if vis[i] {
            r.push(v[i]);
        }
        i = i + 1;
    }
    proof {
        assert(v@.take(v@.len() as int) =~= v@);
        assert(vis@.take(vis@.len() as int) =~= vis@);
    }
    r
}

fn compact_cells_int64(v: &Vec<Option<i64>>, vis: &Vec<bool>) -> (r: Vec<Option<i64>>)
    requires
        v@.len() == vis@.len(),
    ensures
        r@ == compact_seq(v@, vis@),
{
    let mut r: Vec<Option<i64>> = Vec::new();
    let mut i: usize = 0;
    proof {
        assert(v@.take(0) =~= Seq::<Option<i64>>::empty());
        assert(vis@.take(0) =~= Seq::<bool>::empty());
    }
    while i < v.len()
        invariant
            i <= v@.len(),
            v@.len() == vis@.len(),
            r@ == compact_seq(v@.take(i as int), vis@.take(i as int)),
        decreases v@.len() - i,
    {
        proof {
            lemma_compact_seq_take_step(v@, vis@, i as int);
        }
        if vis[i] {
            r.push(v[i]);
        }
        i = i + 1;
    }
    proof {
        assert(v@.take(v@.len() as int) =~= v@);
        assert(vis@.take(vis@.len() as int) =~= vis@);
    }
    r
}

fn compact_cells_utf8(v: &Vec<Option<String>>, vis: &Vec<bool>) -> (r: Vec<Option<String>>)
    requires
        v@.len() == vis@.len(),
    ensures
        r@.map_values(|c: Option<String>| crate::array::view_utf8_cell(c)) == compact_seq(
            v@.map_values(|c: Option<String>| crate::array::view_utf8_cell(c)),
            vis@,
        ),
{
    let ghost f = |c: Option<String>| crate::array::view_utf8_cell(c);
    let mut r: Vec<Option<String>> = Vec::new();
    let mut i: usize = 0;
    proof {
        assert(r@.map_values(f) =~= compact_seq(v@.map_values(f).take(0), vis@.take(0)));
    }
    while i < v.len()
        invariant
            i <= v@.len(),
            v@.len() == vis@.len(),
            r@.map_values(f) == compact_seq(v@.map_values(f).take(i as int), vis@.take(i as int)),
        decreases v@.len() - i,
    {
        proof {
            lemma_compact_seq_take_step(v@.map_values(f), vis@, i as int);
        }
        if vis[i] {
            let cell: Option<String> = match &v[i] {
                Option::None => Option::None,
                Option::Some(s) => Option::Some(s.clone()),
            };
            let ghost prev = r@;
            r.push(cell);
            proof {
                assert(r@.map_values(f) =~= prev.map_values(f).push(f(v@[i as int])));
                assert(prev.map_values(f).push(f(v@[i as int])) =~= prev.map_values(f) + seq![
                    v@.map_values(f)[i as int],
                ]);
            }
        } else {
            proof {
                assert(r@.map_values(f) + Seq::<DatumV>::empty() =~= r@.map_values(f));
            }
        }
        i = i + 1;
    }
    proof {
        assert(v@.map_values(f).take(v@.len() as int) =~= v@.map_values(f));
        assert(vis@.take(vis@.len() as int) =~= vis@);
    }
    r
}

/// Keeps the rows of a column that the bitmap marks visible.
fn compact_column(col: &Column, vis: &Vec<bool>) -> (r: Column)
    requires
        col@.len() == vis@.len(),
    ensures
        r@ == compact_seq(col@, vis@),
{
    match col {
        Column::Bool(v) => {
            let r = Column::Bool(compact_cells_bool(v, vis));
            proof {
                lemma_compact_map(v@, vis@, |c: Option<bool>| crate::array::view_bool_cell(c));
            }
            r
        },
        Column::Int64(v) => {
            let r = Column::Int64(compact_cells_int64(v, vis));
            proof {
                lemma_compact_map(v@, vis@, |c: Option<i64>| crate::array::view_int64_cell(c));
            }
            r
        },
        Column::Utf8(v) => Column::Utf8(compact_cells_utf8(v, vis)),
    }
}

/// Spec-level image of a `StreamChunk`.
pub struct StreamChunkV {
    pub ops: Seq<Op>,
    pub cols: Seq<Seq<DatumV>>,
    pub vis: Option<Seq<bool>>,
    pub card: nat,
}

impl StreamChunkV {
    pub open spec fn nrows(self) -> nat {
        self.ops.len()
    }

    pub open spec fn wf(self) -> bool {
        &&& forall|j: int| 0 <= j < self.cols.len() ==> (#[trigger] self.cols[j]).len() == self.nrows()
        &&& match self.vis {
            Option::Some(v) => v.len() == self.nrows() && self.card == count_trues(v),
            Option::None => self.card == self.nrows(),
        }
    }
}

/// An ordered batch of row changes: one op tag per row, columnar data, an
/// optional visibility bitmap, and the count of visible rows.
pub struct StreamChunk {
    pub ops: Vec<Op>,
    pub columns: Vec<Column>,
    pub visibility: Option<Vec<bool>>,
    pub cardinality: usize,
}

impl View for StreamChunk {
    type V = StreamChunkV;

    open spec fn view(&self) -> StreamChunkV {
        StreamChunkV {
            ops: self.ops@,
            cols: self.columns@.map_values(|c: Column| c@),
            vis: match &self.visibility {
                Option::Some(v) => Option::Some(v@),
                Option::None => Option::None,
            },
            card: self.cardinality as nat,
        }
    }
}

impl StreamChunk {
    /// Checks the chunk invariant: ops, bitmap and every column agree on the
    /// row count, and the cardinality counts the visible rows.
    pub fn well_formed(&self) -> (r: bool)
        ensures
            r == self@.wf(),
    {
        let n = self.ops.len();
        let mut j: usize = 0;
        while j < self.columns.len()
            invariant
                j <= self.columns@.len(),
                n == self@.nrows(),
                forall|k: int| 0 <= k < j ==> (#[trigger] self@.cols[k]).len() == n,
            decreases self.columns@.len() - j,
        {
            proof {
                assert(self@.cols[j as int] == self.columns@[j as int]@);
            }
            if self.columns[j].len() != n {
                return false;
            }
            j = j + 1;
        }
        match &self.visibility {
            Option::Some(v) => {
                if v.len() != n {
                    return false;
                }
                let c = count_trues_vec(v);
                c == self.cardinality
            },
            Option::None => self.cardinality == n,
        }
    }
}

} // verus!
