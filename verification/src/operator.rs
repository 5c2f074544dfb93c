//! The operator contract: the sink capability an operator emits to, the
//! expression capability a filter evaluates, and the message-consumption
//! contract every unary stream operator obeys (barriers are forwarded
//! unchanged, exactly once, in order).

use vstd::prelude::*;

use crate::chunk::{DataChunk, DataChunkV};
use crate::message::{Message, MessageV};
use crate::scalar::{DatumV, ScalarV};

verus! {

/// Predicate evaluation failed (for example, an arithmetic fault inside a
/// user expression). Recoverable at the operator level: the chunk is dropped
/// undelivered.
#[derive(Clone, Copy, PartialEq, Eq, Structural, Debug)]
pub struct EvalError;

/// The downstream sink refused the message.
#[derive(Clone, Copy, PartialEq, Eq, Structural, Debug)]
pub struct SinkError;

/// Why a processing step failed. Everything but `Eval` and `Sink` is a
/// contract violation in the surrounding system, fatal for the task.
#[derive(Clone, Copy, PartialEq, Eq, Structural, Debug)]
pub enum StreamError {
    /// Predicate evaluation failed; the chunk was dropped undelivered.
    Eval,
    /// The evaluated predicate length diverged from the op count.
    LengthMismatch,
    /// The chunk's update ops are not well paired.
    MalformedChunk,
    /// The downstream sink refused the message.
    Sink,
}

/// The one-method capability an operator uses to emit a message downstream.
/// `collected` abstracts everything the sink has accepted, in order.
pub trait Output: Sized {
    spec fn collected(&self) -> Seq<MessageV>;

    /// Accepts one message. On success the message is appended exactly once;
    /// on failure nothing is delivered.
    fn collect(&mut self, msg: Message) -> (r: Result<(), SinkError>)
        ensures
            r is Ok ==> final(self).collected() == old(self).collected().push(msg@),
            r is Err ==> final(self).collected() == old(self).collected(),
    ;
}

/// A sink that buffers every accepted message in memory.
pub struct VecOutput {
    pub messages: Vec<Message>,
}

impl VecOutput {
    pub fn new() -> (s: Self)
        ensures
            s.collected() == Seq::<MessageV>::empty(),
    {
        let s = VecOutput { messages: Vec::new() };
        proof {
            assert(s.collected() =~= Seq::<MessageV>::empty());
        }
        s
    }
}

impl Output for VecOutput {
    open spec fn collected(&self) -> Seq<MessageV> {
        self.messages@.map_values(|m: Message| m@)
    }

    fn collect(&mut self, msg: Message) -> (r: Result<(), SinkError>) {
        let ghost prev = self.messages@;
        self.messages.push(msg);
        proof {
            assert(self.collected() =~= prev.map_values(|m: Message| m@).push(
                self.messages@.last()@,
            ));
        }
        Ok(())
    }
}

/// A compiled scalar predicate: a pure function from a dense columnar batch
/// to a same-length boolean (nullable) array. `eval_spec` is the abstract
/// result; being a spec function of the input alone, it makes the required
/// determinism (identical inputs yield identical results) a theorem.
pub trait Expression: Sized {
    /// The abstract evaluation result: `None` when evaluation fails.
    spec fn eval_spec(&self, data: DataChunkV) -> Option<Seq<Option<bool>>>;

    /// Evaluates the predicate over every row of a dense chunk.
    fn eval(&self, data: &DataChunk) -> (r: Result<Vec<Option<bool>>, EvalError>)
        requires
            data@.wf(),
            data@.vis is None,
        ensures
            match r {
                Ok(v) => self.eval_spec(data@) == Some(v@) && v@.len() == data@.card,
                Err(_) => self.eval_spec(data@) is None,
            },
    ;
}

/// Cells that are booleans or null, read as nullable booleans.
pub open spec fn bool_cells(col: Seq<DatumV>) -> Option<Seq<Option<bool>>> {
    if forall|i: int| 0 <= i < col.len() ==> ((#[trigger] col[i]) matches Some(s) ==> s is Bool) {
        Some(
            Seq::new(
                col.len(),
                |i: int| match col[i] {
                    Some(ScalarV::Bool(b)) => Some(b),
                    _ => None,
                },
            ),
        )
    } else {
        None
    }
}

/// A predicate that reads one boolean column of the input: the simplest
/// compiled expression, enough to drive the filter operator end to end.
pub struct BoolColumnExpr {
    pub column: usize,
}

impl Expression for BoolColumnExpr {
    open spec fn eval_spec(&self, data: DataChunkV) -> Option<Seq<Option<bool>>> {
        if self.column < data.cols.len() && data.cols[self.column as int].len() == data.card {
            bool_cells(data.cols[self.column as int])
        } else {
            None
        }
    }

    fn eval(&self, data: &DataChunk) -> (r: Result<Vec<Option<bool>>, EvalError>) {
        if self.column >= data.columns.len() {
            return Err(EvalError);
        }
        let ghost col = data@.cols[self.column as int];
        proof {
            assert(col == data.columns@[self.column as int]@);
        }
        let n = data.columns[self.column].len();
        let mut out: Vec<Option<bool>> = Vec::new();
        let mut i: usize = 0;
        while i < n
            invariant
                i <= n,
                self.column < data.columns@.len(),
                col == data.columns@[self.column as int]@,
                n == col.len(),
                out@.len() == i,
                forall|k: int| 0 <= k < i ==> ((#[trigger] col[k]) matches Some(s) ==> s is Bool),
                forall|k: int| 0 <= k < i ==> #[trigger] out@[k] == match col[k] {
                    Some(ScalarV::Bool(b)) => Some(b),
                    _ => None::<bool>,
                },
            decreases n - i,
        {
            let d = data.columns[self.column].datum_at(i);
            match d {
                Option::None => out.push(None),
                Option::Some(crate::scalar::ScalarValue::Bool(b)) => out.push(Some(b)),
                Option::Some(_) => {
                    return Err(EvalError);
                },
            }
            i = i + 1;
        }
        proof {
            assert(bool_cells(col) matches Some(s) && s =~= out@);
        }
        Ok(out)
    }
}

/// The general operator contract: consume one message, react, possibly emit
/// downstream. A barrier is forwarded unchanged, exactly once, in order; a
/// data chunk produces at most one emitted chunk, and nothing is delivered on
/// failure (emission is atomic from the consumer's side).
pub trait StreamOperator: Sized {
    /// Everything this operator has emitted downstream, in order.
    spec fn emitted(&self) -> Seq<MessageV>;

    fn consume_message(&mut self, msg: Message) -> (r: Result<(), StreamError>)
        requires
            msg@ matches MessageV::Chunk(c) ==> c.wf(),
        ensures
            msg@ matches MessageV::Barrier(b) ==> match r {
                Ok(()) => final(self).emitted() == old(self).emitted().push(MessageV::Barrier(b)),
                Err(_) => final(self).emitted() == old(self).emitted(),
            },
            msg@ matches MessageV::Chunk(_) ==> match r {
                Ok(()) => exists|c: crate::chunk::StreamChunkV|
                    final(self).emitted() == old(self).emitted().push(MessageV::Chunk(c)),
                Err(_) => final(self).emitted() == old(self).emitted(),
            },
    ;
}

} // verus!
