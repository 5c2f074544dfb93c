//! The message envelope passed between operators: either a data chunk or an
//! epoch-tagged barrier used for consistent checkpointing.

use vstd::prelude::*;

use crate::chunk::{StreamChunk, StreamChunkV};

verus! {

/// An epoch-tagged checkpoint marker. Barriers flow through every operator
/// unmodified and in order relative to the chunks around them.
#[derive(Clone, Copy, PartialEq, Eq, Structural, Debug)]
pub struct Barrier {
    pub epoch: u64,
}

/// The unit passed between operators: a batch of row changes or a barrier.
pub enum Message {
    Chunk(StreamChunk),
    Barrier(Barrier),
}

/// Spec-level image of a `Message`.
pub enum MessageV {
    Chunk(StreamChunkV),
    Barrier(Barrier),
}

impl View for Message {
    type V = MessageV;

    open spec fn view(&self) -> MessageV {
        match self {
            Message::Chunk(c) => MessageV::Chunk(c@),
            Message::Barrier(b) => MessageV::Barrier(*b),
        }
    }
}

} // verus!
