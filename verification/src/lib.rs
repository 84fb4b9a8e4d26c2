//! Typed tabular conversion: a closed taxonomy of column types, a generator of
//! random batches for a declared schema, a codec that renders cells as text or
//! as structured values, and the batching rules of row ingestion.
//!
//! The library computes on values in memory. Whoever uses it reads the
//! sources and writes the sinks: it hands in records, cells and the clock,
//! and gets back batches, the paths of their files, and what each sink is to
//! write. Numbers with a floating point are held as their bits and neither
//! drawn nor printed here.

pub mod cli;
pub mod converters;
pub mod error;
pub mod paths;
pub mod text;
pub mod utils;
