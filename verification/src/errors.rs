use vstd::prelude::*;

verus! {

/// The error kinds that the verified core reports.  Rendering a kind as a
/// human-readable message is left to the caller, so each variant carries
/// the values the message needs.
#[derive(Debug, PartialEq, Eq)]
pub enum GprError {
    /// An averaging window below the allowed minimum of two.
    WindowTooSmall { window: usize },
    /// An averaging window wider than the profile it would reduce.
    WindowTooLarge { window: usize, width: usize },
    /// A step token that matches no name of the step registry.
    UnrecognizedStep { token: String },
    /// A merge-threshold string that is not a well-formed duration.
    MergeParse { message: String },
    /// An invocation that names no input file path or pattern.
    NoFilepath,
}

} // verus!
