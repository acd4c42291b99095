//! A verified core for a concurrent website status checker.
//!
//! The library holds the logic that decides what a run of the checker does:
//! the per-target retry policy (`probe`), the dispatch/collection engine that
//! hands each target to exactly one worker and gathers exactly one outcome per
//! target (`dispatch`), the textual report rendering (`report`), command-line
//! option parsing (`options`), and target-list filtering (`loader`).
//! The surrounding program performs the network calls, threading and file
//! I/O, and drives these verified pieces.

pub mod model;
pub mod probe;
pub mod dispatch;
pub mod report;
pub mod options;
pub mod loader;
