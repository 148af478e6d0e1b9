//! A benchmarking harness for in-memory sorting of 32-bit integers: the
//! command-line resolver, the binary dataset decoder, the measurement
//! schedule and the CSV rows it records, each with a verified contract.

pub mod dataset;
pub mod distribution;
pub mod measure;
pub mod csv;
pub mod cli;
