//! Differential testing harness core for a candidate shell implementation.
//!
//! A suite of command scripts is run against both a trusted reference shell
//! and the candidate; captured exit codes and output streams are normalized
//! and compared, yielding one verdict per test. This crate holds the verified
//! core: output normalization, verdict classification, fixture and command
//! planning, suite orchestration state, the file-watch event filter, and the
//! dashboard's bookkeeping. Process spawning, file access and rendering live
//! with the callers.

pub mod dashboard;
pub mod exec;
pub mod norm;
pub mod numfmt;
pub mod options;
pub mod order;
pub mod plan;
pub mod rewrite;
pub mod run;
pub mod test;
pub mod watch;
