//! Errors that the build plan reports.

use vstd::prelude::*;
use crate::command::CommandLine;

verus! {

/// Why a decimal unsigned 32-bit number could not be read.
#[derive(Debug, Clone, Copy, PartialEq, Eq, Structural)]
pub enum UidParseError {
    /// The text is empty.
    Empty,
    /// The text holds a character that is not a decimal digit.
    InvalidDigit,
    /// The number does not fit in 32 bits.
    PosOverflow,
}

/// An error of a build step.
#[derive(Debug)]
pub enum NdkError {
    /// The command ran and did not succeed.
    CmdFailed(CommandLine),
    /// A path that the step needs does not exist.
    PathNotFound(String),
    /// No line of the package list names the package.
    PackageNotInOutput { package: String, output: String },
    /// The package's line holds no `uid:` field.
    UidNotInOutput(String),
    /// The `uid:` field is not a number.
    NotAUid(UidParseError, String),
}

} // verus!
