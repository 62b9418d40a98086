//! The configuration one run of the line-filtering pipeline is given. It is
//! built once and only read afterwards.

use vstd::prelude::*;

verus! {

/// What the sink does with the matching lines.
#[derive(Clone, Copy, PartialEq, Eq, Structural, Debug)]
pub enum OutputMode {
    /// Emit each matching line as soon as it arrives.
    Print,
    /// Buffer every matching line, sort by text, then emit.
    SortAndPrint,
    /// Emit only the number of matching lines and the pattern.
    Count,
}

/// Which files to scan, what to look for, and how to report it.
pub struct Options {
    /// The files to read, in the order their lines are to appear.
    pub files: Vec<String>,
    /// The needle: a literal, or a regular expression when `regex` is set.
    pub pattern: String,
    pub output_mode: OutputMode,
    pub regex: bool,
}

} // verus!
