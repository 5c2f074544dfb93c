//! The filter operator: evaluates a boolean predicate per row and re-derives
//! operation tags so that downstream operators see a valid, paired change
//! stream. A row whose predicate result changes across an update is
//! re-expressed as a plain insert or delete, since only one side of the
//! update remains visible.

use vstd::prelude::*;

use crate::array::Column;
use crate::chunk::{
    compact_seq, count_trues, lemma_compact_seq_all_visible, lemma_count_trues_le_len, DataChunk,
    DataChunkV, Op, StreamChunk, StreamChunkV,
};
use crate::message::{Barrier, Message, MessageV};
use crate::operator::{Expression, Output, StreamError, StreamOperator};
use crate::scalar::DatumV;

verus! {

/// The pairing condition at one position: an `UpdateDelete` is immediately
/// followed by an `UpdateInsert`, and an `UpdateInsert` immediately preceded
/// by an `UpdateDelete`.
pub open spec fn paired_at(ops: Seq<Op>, i: int) -> bool {
    &&& (ops[i] == Op::UpdateDelete ==> i + 1 < ops.len() && ops[i + 1] == Op::UpdateInsert)
    &&& (ops[i] == Op::UpdateInsert ==> 0 < i && ops[i - 1] == Op::UpdateDelete)
}

/// Every `UpdateDelete` is immediately followed by its `UpdateInsert`, and
/// every `UpdateInsert` immediately preceded by its `UpdateDelete`. A chunk
/// whose ops violate this is malformed and must not be forwarded.
pub open spec fn well_paired(ops: Seq<Op>) -> bool {
    forall|i: int| 0 <= i < ops.len() ==> #[trigger] paired_at(ops, i)
}

/// The visible-pairing condition at one position: a visible `UpdateDelete`
/// is immediately followed by a visible `UpdateInsert` and vice versa.
pub open spec fn paired_vis_at(ops: Seq<Op>, vis: Seq<bool>, i: int) -> bool {
    &&& (vis[i] && ops[i] == Op::UpdateDelete ==> i + 1 < ops.len() && ops[i + 1]
        == Op::UpdateInsert && vis[i + 1])
    &&& (vis[i] && ops[i] == Op::UpdateInsert ==> 0 < i && ops[i - 1] == Op::UpdateDelete && vis[i
        - 1])
}

/// Pairing restricted to the visible rows, so no visible update tag is
/// orphaned. Invisible update tags are placeholders that occupy a row slot
/// without carrying update semantics.
pub open spec fn well_paired_vis(ops: Seq<Op>, vis: Seq<bool>) -> bool {
    forall|i: int| 0 <= i < ops.len() ==> #[trigger] paired_vis_at(ops, vis, i)
}

/// Checks `well_paired` over a chunk's ops.
pub fn is_well_paired(ops: &Vec<Op>) -> (r: bool)
    ensures
        r == well_paired(ops@),
{
    let n = ops.len();
    let mut i: usize = 0;
    while i < n
        invariant
            i <= n,
            n == ops@.len(),
            forall|k: int| 0 <= k < i ==> #[trigger] paired_at(ops@, k),
        decreases n - i,
    {
        if ops[i] == Op::UpdateDelete {
            if i + 1 >= n || ops[i + 1] != Op::UpdateInsert {
                proof {
                    assert(!paired_at(ops@, i as int));
                }
                return false;
            }
        }
        if ops[i] == Op::UpdateInsert {
            if i == 0 || ops[i - 1] != Op::UpdateDelete {
                proof {
                    assert(!paired_at(ops@, i as int));
                }
                return false;
            }
        }
        proof {
            assert(paired_at(ops@, i as int));
        }
        i = i + 1;
    }
    true
}

/// Predicate results with null read as "row does not pass".
pub open spec fn pred_bools(pred: Seq<Option<bool>>) -> Seq<bool> {
    pred.map_values(
        |p: Option<bool>| match p {
            Some(b) => b,
            None => false,
        },
    )
}

/// The re-derived ops, visibility bits and cardinality delta for an update
/// row whose old predicate result is `a` and whose new result is `b`: the
/// truth table at the heart of the filter.
pub open spec fn update_pair(a: bool, b: bool) -> (Op, Op, bool, bool) {
    if a && !b {
        (Op::Delete, Op::UpdateInsert, true, false)
    } else if !a && b {
        (Op::UpdateDelete, Op::Insert, false, true)
    } else if a && b {
        (Op::UpdateDelete, Op::UpdateInsert, true, true)
    } else {
        (Op::Insert, Op::Insert, false, false)
    }
}

/// Truth-table exactness, spelled out: for an update row with old predicate
/// result `a` and new result `b`, the emitted op and visibility pair is
/// exactly the one the table in the filter's design gives.
pub proof fn lemma_update_truth_table()
    ensures
        update_pair(true, false) == (Op::Delete, Op::UpdateInsert, true, false),
        update_pair(false, true) == (Op::UpdateDelete, Op::Insert, false, true),
        update_pair(true, true) == (Op::UpdateDelete, Op::UpdateInsert, true, true),
        update_pair(false, false) == (Op::Insert, Op::Insert, false, false),
{
}

/// State of the op re-derivation scan: the output so far and the predicate
/// result of the most recent unmatched `UpdateDelete`.
pub struct FilterAcc {
    pub ops: Seq<Op>,
    pub vis: Seq<bool>,
    pub last: bool,
}

/// One step of the scan. Inserts and deletes pass through with their
/// predicate result as visibility; an `UpdateDelete` is held back; its
/// `UpdateInsert` emits the pair the truth table gives.
pub open spec fn filter_step(acc: FilterAcc, op: Op, res: bool) -> FilterAcc {
    match op {
        Op::Insert | Op::Delete => FilterAcc {
            ops: acc.ops.push(op),
            vis: acc.vis.push(res),
            last: acc.last,
        },
        Op::UpdateDelete => FilterAcc { ops: acc.ops, vis: acc.vis, last: res },
        Op::UpdateInsert => {
            let p = update_pair(acc.last, res);
            FilterAcc {
                ops: acc.ops.push(p.0).push(p.1),
                vis: acc.vis.push(p.2).push(p.3),
                last: acc.last,
            }
        },
    }
}

/// The scan over the first `n` rows.
pub open spec fn filter_fold(ops: Seq<Op>, pred: Seq<bool>, n: int) -> FilterAcc
    decreases n,
{
    if n <= 0 {
        FilterAcc { ops: Seq::empty(), vis: Seq::empty(), last: false }
    } else {
        filter_step(filter_fold(ops, pred, n - 1), ops[n - 1], pred[n - 1])
    }
}

/// The re-derived ops and visibility for a whole chunk.
pub open spec fn filter_out(ops: Seq<Op>, pred: Seq<bool>) -> FilterAcc {
    filter_fold(ops, pred, ops.len() as int)
}

proof fn lemma_count_trues_push(s: Seq<bool>, b: bool)
    ensures
        count_trues(s.push(b)) == count_trues(s) + if b {
            1nat
        } else {
            0nat
        },
{
    assert(s.push(b).drop_last() =~= s);
}

/// The scan emits ops and visibility bits in lockstep.
pub proof fn lemma_fold_lens_eq(ops: Seq<Op>, pred: Seq<bool>, n: int)
    ensures
        filter_fold(ops, pred, n).ops.len() == filter_fold(ops, pred, n).vis.len(),
    decreases n,
{
    if n > 0 {
        lemma_fold_lens_eq(ops, pred, n - 1);
    }
}

/// A position that directly follows an unmatched `UpdateDelete`.
pub open spec fn pending_update(ops: Seq<Op>, i: int) -> bool {
    0 < i <= ops.len() && ops[i - 1] == Op::UpdateDelete
}

proof fn lemma_fold_len(ops: Seq<Op>, pred: Seq<bool>, n: int)
    requires
        well_paired(ops),
        ops.len() == pred.len(),
        0 <= n <= ops.len(),
    ensures
        filter_fold(ops, pred, n).ops.len() == n - if pending_update(ops, n) {
            1int
        } else {
            0int
        },
    decreases n,
{
    if n > 0 {
        lemma_fold_len(ops, pred, n - 1);
        assert(paired_at(ops, n - 1));
        if n >= 2 {
            assert(paired_at(ops, n - 2));
        }
    }
}

/// Row alignment: on a well-paired chunk the filter emits exactly one op and
/// one visibility bit per input row.
pub proof fn lemma_filter_alignment(ops: Seq<Op>, pred: Seq<bool>)
    requires
        well_paired(ops),
        ops.len() == pred.len(),
    ensures
        filter_out(ops, pred).ops.len() == ops.len(),
        filter_out(ops, pred).vis.len() == ops.len(),
{
    let n = ops.len() as int;
    lemma_fold_len(ops, pred, n);
    if pending_update(ops, n) {
        assert(paired_at(ops, n - 1));
    }
    lemma_fold_lens_eq(ops, pred, n);
}

proof fn lemma_fold_wpv(ops: Seq<Op>, pred: Seq<bool>, n: int)
    requires
        0 <= n <= ops.len(),
    ensures
        filter_fold(ops, pred, n).ops.len() == filter_fold(ops, pred, n).vis.len(),
        well_paired_vis(filter_fold(ops, pred, n).ops, filter_fold(ops, pred, n).vis),
    decreases n,
{
    if n > 0 {
        lemma_fold_wpv(ops, pred, n - 1);
        let f = filter_fold(ops, pred, n - 1);
        let g = filter_fold(ops, pred, n);
        let op = ops[n - 1];
        let res = pred[n - 1];
        let l = f.ops.len() as int;
        match op {
            Op::Insert | Op::Delete => {
                assert forall|i: int| 0 <= i < g.ops.len() implies #[trigger] paired_vis_at(
                    g.ops,
                    g.vis,
                    i,
                ) by {
                    if i < l {
                        assert(paired_vis_at(f.ops, f.vis, i));
                        assert(f.ops[i] == g.ops[i] && f.vis[i] == g.vis[i]);
                        if i + 1 < l {
                            assert(f.ops[i + 1] == g.ops[i + 1] && f.vis[i + 1] == g.vis[i + 1]);
                        }
                        if 0 < i {
                            assert(f.ops[i - 1] == g.ops[i - 1] && f.vis[i - 1] == g.vis[i - 1]);
                        }
                    }
                }
            },
            Op::UpdateDelete => {
            },
            Op::UpdateInsert => {
                assert forall|i: int| 0 <= i < g.ops.len() implies #[trigger] paired_vis_at(
                    g.ops,
                    g.vis,
                    i,
                ) by {
                    if i < l {
                        assert(paired_vis_at(f.ops, f.vis, i));
                        assert(f.ops[i] == g.ops[i] && f.vis[i] == g.vis[i]);
                        if i + 1 < l {
                            assert(f.ops[i + 1] == g.ops[i + 1] && f.vis[i + 1] == g.vis[i + 1]);
                        }
                        if 0 < i {
                            assert(f.ops[i - 1] == g.ops[i - 1] && f.vis[i - 1] == g.vis[i - 1]);
                        }
                    } else {
                        assert(g.ops[l] == update_pair(f.last, res).0);
                        assert(g.ops[l + 1] == update_pair(f.last, res).1);
                        assert(g.vis[l] == update_pair(f.last, res).2);
                        assert(g.vis[l + 1] == update_pair(f.last, res).3);
                    }
                }
            },
        }
    }
}

/// Op-pairing preservation: whatever the input pairing, the ops the filter
/// emits are well paired over the visible rows — no orphan visible update
/// tag ever leaves the operator.
pub proof fn lemma_filter_preserves_pairing(ops: Seq<Op>, pred: Seq<bool>)
    ensures
        well_paired_vis(filter_out(ops, pred).ops, filter_out(ops, pred).vis),
{
    lemma_fold_wpv(ops, pred, ops.len() as int);
}

proof fn lemma_fold_passthrough(ops: Seq<Op>, pred: Seq<bool>, n: int)
    requires
        ops.len() == pred.len(),
        0 <= n <= ops.len(),
        forall|i: int| 0 <= i < ops.len() ==> (#[trigger] ops[i]) == Op::Insert || ops[i]
            == Op::Delete,
    ensures
        filter_fold(ops, pred, n).ops =~= ops.take(n),
        filter_fold(ops, pred, n).vis =~= pred.take(n),
        filter_fold(ops, pred, n).last == false,
    decreases n,
{
    if n > 0 {
        lemma_fold_passthrough(ops, pred, n - 1);
        assert(ops.take(n).drop_last() =~= ops.take(n - 1));
        assert(pred.take(n).drop_last() =~= pred.take(n - 1));
    }
}

/// Filter idempotence on the insert/delete path: on a chunk of plain inserts
/// and deletes the filter leaves the ops unchanged and sets visibility to the
/// predicate results, so running it a second time (the predicate, being pure,
/// re-evaluates identically) changes nothing further.
pub proof fn lemma_filter_idempotent(ops: Seq<Op>, pred: Seq<bool>)
    requires
        ops.len() == pred.len(),
        forall|i: int| 0 <= i < ops.len() ==> (#[trigger] ops[i]) == Op::Insert || ops[i]
            == Op::Delete,
    ensures
        filter_out(ops, pred).ops == ops,
        filter_out(ops, pred).vis == pred,
        filter_out(filter_out(ops, pred).ops, pred) == filter_out(ops, pred),
{
    lemma_fold_passthrough(ops, pred, ops.len() as int);
    assert(ops.take(ops.len() as int) =~= ops);
    assert(pred.take(pred.len() as int) =~= pred);
}

/// Executable truth table: re-derives the op and visibility pair for an
/// update row from the old (`a`) and new (`b`) predicate results.
pub fn apply_update_pair(a: bool, b: bool) -> (r: (Op, Op, bool, bool))
    ensures
        r == update_pair(a, b),
{
    if a && !b {
        (Op::Delete, Op::UpdateInsert, true, false)
    } else if !a && b {
        (Op::UpdateDelete, Op::Insert, false, true)
    } else if a && b {
        (Op::UpdateDelete, Op::UpdateInsert, true, true)
    } else {
        (Op::Insert, Op::Insert, false, false)
    }
}

/// Re-derives ops and visibility for a whole chunk: returns the new ops, the
/// new visibility bitmap, and the new cardinality (the count of set bits).
pub fn filter_transform(ops: &Vec<Op>, pred: &Vec<Option<bool>>) -> (r: (Vec<Op>, Vec<bool>, usize))
    requires
        ops@.len() == pred@.len(),
    ensures
        r.0@ == filter_out(ops@, pred_bools(pred@)).ops,
        r.1@ == filter_out(ops@, pred_bools(pred@)).vis,
        r.2 == count_trues(filter_out(ops@, pred_bools(pred@)).vis),
{
    let ghost predb = pred_bools(pred@);
    let n = ops.len();
    let mut new_ops: Vec<Op> = Vec::new();
    let mut new_vis: Vec<bool> = Vec::new();
    let mut card: usize = 0;
    let mut last: bool = false;
    let mut i: usize = 0;
    while i < n
        invariant
            i <= n,
            n == ops@.len(),
            ops@.len() == pred@.len(),
            predb == pred_bools(pred@),
            new_ops@ == filter_fold(ops@, predb, i as int).ops,
            new_vis@ == filter_fold(ops@, predb, i as int).vis,
            last == filter_fold(ops@, predb, i as int).last,
            card == count_trues(new_vis@),
        decreases n - i,
    {
        let res = match pred[i] {
            Option::Some(b) => b,
            Option::None => false,
        };
        proof {
            assert(predb[i as int] == res);
        }
        let op = ops[i];
        match op {
            Op::Insert | Op::Delete => {
                new_ops.push(op);
                proof {
                    lemma_count_trues_push(new_vis@, res);
                }
                new_vis.push(res);
                if res {
                    proof {
                        lemma_count_trues_le_len(new_vis@);
                    }
                    let cap = new_vis.len();
                    proof {
                        assert(card + 1 <= cap);
                    }
                    card = card + 1;
                }
            },
            Op::UpdateDelete => {
                last = res;
            },
            Op::UpdateInsert => {
                let (o1, o2, v1, v2) = apply_update_pair(last, res);
                new_ops.push(o1);
                new_ops.push(o2);
                proof {
                    lemma_count_trues_push(new_vis@, v1);
                    lemma_count_trues_push(new_vis@.push(v1), v2);
                }
                new_vis.push(v1);
                new_vis.push(v2);
                proof {
                    lemma_count_trues_le_len(new_vis@);
                }
                let cap = new_vis.len();
                proof {
                    assert(count_trues(new_vis@) <= cap);
                }
                if v1 {
                    card = card + 1;
                }
                if v2 {
                    card = card + 1;
                }
            },
        }
        i = i + 1;
    }
    (new_ops, new_vis, card)
}

/// The dense form of a stream chunk: visibility compaction applied, ready for
/// predicate evaluation.
pub open spec fn dense_of(c: StreamChunkV) -> DataChunkV {
    DataChunkV {
        cols: match c.vis {
            Some(v) => c.cols.map_values(|s: Seq<DatumV>| compact_seq(s, v)),
            None => c.cols,
        },
        vis: None,
        card: c.card,
    }
}

/// The chunk the filter emits for input `c` under predicate results `pred`:
/// re-derived ops, the input columns unchanged (filtering is expressed
/// purely through ops and visibility), the fresh bitmap and its cardinality.
pub open spec fn filtered_chunk_v(c: StreamChunkV, pred: Seq<Option<bool>>) -> StreamChunkV {
    let f = filter_out(c.ops, pred_bools(pred));
    StreamChunkV { ops: f.ops, cols: c.cols, vis: Some(f.vis), card: count_trues(f.vis) }
}

/// Row/column alignment: every chunk the filter emits is well formed — ops,
/// bitmap and every column agree on the row count, and the cardinality counts
/// the set visibility bits.
pub proof fn lemma_filtered_chunk_wf(c: StreamChunkV, pred: Seq<Option<bool>>)
    requires
        c.wf(),
        well_paired(c.ops),
        pred.len() == c.ops.len(),
    ensures
        filtered_chunk_v(c, pred).wf(),
        filtered_chunk_v(c, pred).nrows() == c.nrows(),
{
    lemma_filter_alignment(c.ops, pred_bools(pred));
}

/// Filters data with a predicate expression. The expression takes a chunk of
/// data and returns a boolean array on whether each row is retained; the
/// operator re-derives insert, delete and update tags accordingly and emits
/// exactly one chunk downstream (or fails and emits nothing).
pub struct FilterOperator<O: Output, E: Expression> {
    /// The output of the current operator.
    pub output: O,
    /// The predicate. It must always produce the same output for the same
    /// input; `Expression::eval_spec` makes that a theorem.
    pub expr: E,
}

impl<O: Output, E: Expression> FilterOperator<O, E> {
    pub fn new(output: O, expr: E) -> (s: Self)
        ensures
            s.output == output,
            s.expr == expr,
    {
        FilterOperator { output, expr }
    }

    /// The predicate results for a chunk: the expression evaluated over the
    /// chunk's dense form.
    pub open spec fn chunk_pred(self, c: StreamChunkV) -> Option<Seq<Option<bool>>> {
        self.expr.eval_spec(dense_of(c))
    }

    /// What consuming a chunk must produce: the filtered chunk, or the exact
    /// error owed — evaluation failure, a predicate length that diverges from
    /// the op count, or malformed update pairing (in that order of checks).
    pub open spec fn chunk_outcome(self, c: StreamChunkV) -> Result<StreamChunkV, StreamError> {
        match self.chunk_pred(c) {
            None => Err(StreamError::Eval),
            Some(pred) => if pred.len() != c.ops.len() {
                Err(StreamError::LengthMismatch)
            } else if !well_paired(c.ops) {
                Err(StreamError::MalformedChunk)
            } else {
                Ok(filtered_chunk_v(c, pred))
            },
        }
    }

    /// Consumes one data chunk and emits the filtered chunk downstream,
    /// exactly once; on failure nothing is emitted. Succeeds whenever the
    /// predicate evaluates, lengths agree, pairing is intact and the sink
    /// accepts. The emitted chunk is well formed, keeps the input's row
    /// count, and its visible update tags are well paired.
    pub fn consume_chunk(&mut self, chunk: StreamChunk) -> (r: Result<(), StreamError>)
        requires
            chunk@.wf(),
        ensures
            final(self).expr == old(self).expr,
            match r {
                Ok(()) => old(self).chunk_outcome(chunk@) matches Ok(out)
                    && final(self).output.collected() == old(self).output.collected().push(
                    MessageV::Chunk(out),
                ) && out.wf() && out.nrows() == chunk@.nrows() && (out.vis matches Some(v)
                    && well_paired_vis(out.ops, v)),
                Err(e) => final(self).output.collected() == old(self).output.collected() && match old(
                    self,
                ).chunk_outcome(chunk@) {
                    Ok(_) => e == StreamError::Sink,
                    Err(cause) => e == cause,
                },
            },
    {
        let ghost cv = chunk@;
        let StreamChunk { ops, columns, visibility, cardinality } = chunk;
        let data = DataChunk { columns, visibility, cardinality };
        proof {
            assert(data@.cols =~= cv.cols);
            assert(data@.wf());
        }
        let dense = data.compact();
        proof {
            assert(dense@.cols =~= dense_of(cv).cols);
            assert(dense@ == dense_of(cv));
        }
        let pred = match self.expr.eval(&dense) {
            Ok(p) => p,
            Err(_) => {
                return Err(StreamError::Eval);
            },
        };
        if pred.len() != ops.len() {
            return Err(StreamError::LengthMismatch);
        }
        if !is_well_paired(&ops) {
            return Err(StreamError::MalformedChunk);
        }
        let (new_ops, new_vis, new_card) = filter_transform(&ops, &pred);
        proof {
            // All rows were visible: the predicate length matches the op
            // count only when nothing was compacted away.
            match cv.vis {
                Some(v) => {
                    lemma_count_trues_le_len(v);
                    assert(count_trues(v) == v.len());
                    assert forall|j: int| 0 <= j < cv.cols.len() implies #[trigger] dense_of(
                        cv,
                    ).cols[j] == cv.cols[j] by {
                        lemma_compact_seq_all_visible(cv.cols[j], v);
                    }
                    assert(dense_of(cv).cols =~= cv.cols);
                },
                None => {},
            }
            assert(dense@.cols == cv.cols);
        }
        let out_chunk = StreamChunk {
            ops: new_ops,
            columns: dense.columns,
            visibility: Some(new_vis),
            cardinality: new_card,
        };
        proof {
            assert(out_chunk@.cols =~= dense@.cols);
            assert(out_chunk@ == filtered_chunk_v(cv, pred@));
            lemma_filtered_chunk_wf(cv, pred@);
            lemma_filter_preserves_pairing(cv.ops, pred_bools(pred@));
        }
        match self.output.collect(Message::Chunk(out_chunk)) {
            Ok(()) => Ok(()),
            Err(_) => Err(StreamError::Sink),
        }
    }

    /// Forwards a barrier downstream unchanged, exactly once, in order.
    pub fn consume_barrier(&mut self, barrier: Barrier) -> (r: Result<(), StreamError>)
        ensures
            final(self).expr == old(self).expr,
            match r {
                Ok(()) => final(self).output.collected() == old(self).output.collected().push(
                    MessageV::Barrier(barrier),
                ),
                Err(e) => final(self).output.collected() == old(self).output.collected() && e
                    == StreamError::Sink,
            },
    {
        match self.output.collect(Message::Barrier(barrier)) {
            Ok(()) => Ok(()),
            Err(_) => Err(StreamError::Sink),
        }
    }
}

impl<O: Output, E: Expression> StreamOperator for FilterOperator<O, E> {
    open spec fn emitted(&self) -> Seq<MessageV> {
        self.output.collected()
    }

    fn consume_message(&mut self, msg: Message) -> (r: Result<(), StreamError>) {
        match msg {
            Message::Chunk(c) => {
                let ghost cv = c@;
                let res = self.consume_chunk(c);
                proof {
                    if res is Ok {
                        match old(self).chunk_outcome(cv) {
                            Ok(out) => {
                                assert(self.emitted() == old(self).emitted().push(
                                    MessageV::Chunk(out),
                                ));
                            },
                            Err(_) => {
                                assert(false);
                            },
                        }
                    }
                }
                res
            },
            Message::Barrier(b) => self.consume_barrier(b),
        }
    }
}

} // verus!
