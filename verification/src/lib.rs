//! Core logic of a bulk file-signing run: discovery of regular files under a
//! set of root paths, dispatch of one signing worker per discovered file, and
//! aggregation of the workers' terminal outcomes into a summary report.
//!
//! Everything here is pure logic over plain values. The surrounding binary
//! performs the actual filesystem walk, thread spawning and subprocess
//! invocation, and feeds the results of those effects into these functions.
pub mod walk;
pub mod dispatch;

