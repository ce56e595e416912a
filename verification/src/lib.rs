//! A runtime oracle for static alias and heap-membership predictions.
//!
//! Instrumented programs report their allocations and deallocations and ask,
//! at each unsafe access, whether a prediction made ahead of time holds at
//! run time. Every answer is classified into a confusion-matrix bucket and
//! counted, per call site and per thread, and the counts are turned into a
//! final accuracy report.

pub mod alias;
pub mod guard;
pub mod oracle;
pub mod report;
pub mod sites;
pub mod sums;
pub mod text;
pub mod trace;
pub mod tracker;
