//! Verified core of a ground-penetrating-radar (GPR) trace-processing
//! pipeline.
//!
//! A GPR profile is a dense two-dimensional array of reflected-signal
//! amplitudes: rows are depth samples, columns are successive traces along
//! a survey line.  This crate holds the parts of the pipeline whose
//! behaviour can be stated and proved over plain values: the index layout
//! of the block-reduction primitives, the step registry and the step-list
//! parser and validator, the batch-merge grouping rule, and the resolution
//! of a command-line invocation into run parameters.

pub mod cli;
pub mod engine;
pub mod steps;
pub mod errors;
pub mod filters;
