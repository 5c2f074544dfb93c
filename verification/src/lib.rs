//! Incremental dataflow core for a streaming SQL engine: the change-data
//! stream model (ops, chunks, barriers), the operator contract, a filtering
//! operator that re-derives update semantics from a per-row predicate, and an
//! order-sensitive string-concatenation aggregator.

pub mod array;
pub mod binder;
pub mod chunk;
pub mod datagen;
pub mod filter;
pub mod message;
pub mod operator;
pub mod query;
pub mod scalar;
pub mod string_agg;
