//! Finds, in tabular files stored inside archives, the rows whose value in one
//! column carries a defect marker, and gathers them into a single report.
//!
//! The crate holds the decisions of that pipeline: which files become work,
//! what a worker does with what it takes from the queue, which rows of a table
//! are findings, and how the findings of many workers become one table.
//! Reading archives and writing the report are left to the caller.

pub mod aggregate;
pub mod finding;
pub mod outside;
pub mod permutation;
pub mod scan;
pub mod select;
pub mod text;
pub mod work;
