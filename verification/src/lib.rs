//! A micro-benchmark harness for pattern-matching operations: it builds
//! deterministic text corpora, times operations with an adaptive sampling
//! loop, normalizes the measurements for inner-loop amortization, and
//! renders the accumulated results as a sorted table and a JSON document.

pub mod corpus;
pub mod errors;
pub mod export;
pub mod measurement;
pub mod order;
pub mod pattern;
pub mod scenario;
pub mod store;
pub mod strfmt;
pub mod suite;
pub mod timer;
