//! The conversion engine: the batch model, the value codec, the schema and
//! the generator, the two row ingestions and the comparison of field lists.

pub mod batch;
pub mod calendar;
pub mod common;
pub mod csv;
pub mod datagen;
pub mod diff;
pub mod excel;
pub mod ingest;
pub mod rng;
