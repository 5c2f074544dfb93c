//! Decision core of a synthetic-data source: how a per-second row budget is
//! split across partitions, how each second's budget is cut into bounded
//! batches, and how offsets advance. The timer loop, payload building and
//! message transport live outside the verified core.

use vstd::prelude::*;

verus! {

/// Most rows one yielded batch may carry.
pub const MAX_ROWS_PER_YIELD: u64 = 1024;

/// Metadata attached to each generated message.
#[derive(Debug, Clone)]
pub struct DatagenMeta {
    /// Timestamp (milliseconds) of the data generated.
    pub timestamp: Option<i64>,
}

/// The rows-per-second share of one partition: an even split of the total
/// budget, with one extra row for the first `rows_per_second % split_num`
/// partitions so the shares sum to the whole budget.
pub open spec fn partition_share(rows_per_second: u64, split_num: u64, split_index: u64) -> int {
    rows_per_second as int / split_num as int + if rows_per_second as int % split_num as int
        > split_index as int {
        1int
    } else {
        0int
    }
}

/// Generator state for one partition of a synthetic source: the next offset
/// to assign and the partition's per-second row budget.
pub struct DatagenEventGenerator {
    pub offset: u64,
    pub split_id: String,
    pub partition_rows_per_second: u64,
}

impl DatagenEventGenerator {
    pub fn new(
        rows_per_second: u64,
        offset: u64,
        split_id: String,
        split_num: u64,
        split_index: u64,
    ) -> (r: Self)
        requires
            split_num > 0,
        ensures
            r.offset == offset,
            r.split_id@ == split_id@,
            r.partition_rows_per_second == partition_share(rows_per_second, split_num, split_index),
    {
        let base = rows_per_second / split_num;
        let partition_rows_per_second = if rows_per_second % split_num > split_index {
            proof {
                // The remainder is positive, so at least two partitions share
                // the budget and the share leaves room for the extra row.
                vstd::arithmetic::div_mod::lemma_fundamental_div_mod(
                    rows_per_second as int,
                    split_num as int,
                );
                assert(split_num >= 2);
                assert((split_num as int) * (base as int) >= 2 * (base as int))
                    by (nonlinear_arith)
                    requires
                        split_num >= 2,
                        base >= 0,
                {}
                assert(base < u64::MAX);
            }
            base + 1
        } else {
            base
        };
        Self { offset, split_id, partition_rows_per_second }
    }

    /// How many rows the next batch of the current second holds, given how
    /// many this second already produced: the remaining budget, capped at
    /// `MAX_ROWS_PER_YIELD`.
    pub fn next_batch_size(&self, rows_generated_this_second: u64) -> (n: u64)
        requires
            rows_generated_this_second <= self.partition_rows_per_second,
        ensures
            n == if self.partition_rows_per_second - rows_generated_this_second
                <= MAX_ROWS_PER_YIELD {
                self.partition_rows_per_second - rows_generated_this_second
            } else {
                MAX_ROWS_PER_YIELD as int
            },
    {
        let remaining = self.partition_rows_per_second - rows_generated_this_second;
        if remaining <= MAX_ROWS_PER_YIELD {
            remaining
        } else {
            MAX_ROWS_PER_YIELD
        }
    }

    /// Hands out the offsets of the next `count` rows, in order, and advances
    /// the generator past them.
    pub fn next_offsets(&mut self, count: u64) -> (offsets: Vec<u64>)
        requires
            old(self).offset + count <= u64::MAX,
        ensures
            offsets@.len() == count,
            forall|k: int| 0 <= k < count ==> offsets@[k] == old(self).offset + k,
            final(self).offset == old(self).offset + count,
            final(self).split_id@ == old(self).split_id@,
            final(self).partition_rows_per_second == old(self).partition_rows_per_second,
    {
        let mut offsets: Vec<u64> = Vec::new();
        let mut k: u64 = 0;
        while k < count
            invariant
                k <= count,
                self.offset + count <= u64::MAX,
                self.offset == old(self).offset,
                self.split_id@ == old(self).split_id@,
                self.partition_rows_per_second == old(self).partition_rows_per_second,
                offsets@.len() == k,
                forall|j: int| 0 <= j < k ==> offsets@[j] == self.offset + j,
            decreases count - k,
        {
            offsets.push(self.offset + k);
            k = k + 1;
        }
        self.offset = self.offset + count;
        offsets
    }
}

} // verus!
