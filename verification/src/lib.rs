//! Splits a sequence of text lines into batches, each held to a budget of
//! display rows, where a line longer than the display width counts for as many
//! rows as it wraps into.

pub mod weight;
pub mod batch;
pub mod model;
pub mod partitioner;
pub mod guarantees;
pub mod output;
