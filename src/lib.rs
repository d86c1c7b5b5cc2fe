//! Sorting files into directories named after their extensions.
//!
//! The library holds the decisions of a tidy run: which directory a file
//! belongs in, the directory coordinator that creates or validates each
//! target directory once, the per-file worker, and the bookkeeping of the
//! whole run. Filesystem work and task scheduling are performed by the
//! caller, which hands the results back to these state machines.

pub mod classify;
pub mod coordinator;
pub mod model;
pub mod run;
pub mod worker;
