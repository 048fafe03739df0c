//! How a run ends, and the exit status that tells it to the caller.

use crate::mode::Mode;
use vstd::prelude::*;

verus! {

/// Exit status of a run that did what it was asked to do.
pub const EXIT_SUCCESS: i32 = 0;

/// Exit status of a failure that has no status of its own.
pub const EXIT_FAILURE: i32 = 1;

/// Exit status when the file, or a directory on the way to it, does not exist.
pub const EXIT_NOT_FOUND: i32 = 2;

/// Exit status when access to the file is denied.
pub const EXIT_PERMISSION_DENIED: i32 = 3;

/// Exit status when the tool was not started with exactly one argument.
pub const EXIT_USAGE: i32 = 4;

/// Why the file system refused an operation, as far as the exit status
/// depends on it.
#[derive(Clone, Copy, Debug, PartialEq, Eq, Structural)]
pub enum FailureKind {
    /// The file does not exist.
    NotFound,
    /// Access was denied.
    PermissionDenied,
    /// Any other failure.
    Other,
}

/// The exit status for a file that could not be opened.
pub open spec fn open_failure_code(kind: FailureKind) -> i32 {
    match kind {
        FailureKind::NotFound => EXIT_NOT_FOUND,
        FailureKind::PermissionDenied => EXIT_PERMISSION_DENIED,
        FailureKind::Other => EXIT_FAILURE,
    }
}

/// The exit status for text that could not be written to the open file. Only
/// a denied access has a status of its own here.
pub open spec fn write_failure_code(kind: FailureKind) -> i32 {
    match kind {
        FailureKind::PermissionDenied => EXIT_PERMISSION_DENIED,
        FailureKind::NotFound | FailureKind::Other => EXIT_FAILURE,
    }
}

/// How a run ended.
#[derive(Clone, Copy, Debug, PartialEq, Eq, Structural)]
pub enum Outcome {
    /// The tool was not started with exactly one argument.
    Usage,
    /// A prompt could not be shown.
    PromptFailed,
    /// No line could be read from the console.
    InputFailed,
    /// The file could not be opened for `mode`.
    OpenFailed { mode: Mode, kind: FailureKind },
    /// A line of the file could not be read.
    ReadFailed,
    /// The text could not be written to the file.
    WriteFailed { kind: FailureKind },
    /// Every line of the file was printed.
    Printed,
    /// The text was appended to the file.
    Written,
}

impl Outcome {
    /// The exit status that reports this outcome.
    pub open spec fn code(self) -> i32 {
        match self {
            Outcome::Usage => EXIT_USAGE,
            Outcome::PromptFailed | Outcome::InputFailed | Outcome::ReadFailed => EXIT_FAILURE,
            Outcome::OpenFailed { mode: _, kind } => open_failure_code(kind),
            Outcome::WriteFailed { kind } => write_failure_code(kind),
            Outcome::Printed | Outcome::Written => EXIT_SUCCESS,
        }
    }

    /// Whether this outcome is a failure.
    pub open spec fn failed(self) -> bool {
        !(self is Printed || self is Written)
    }

    /// The exit status that reports this outcome.
    pub fn exit_code(&self) -> (code: i32)
        ensures
            code == self.code(),
    {
        match self {
            Outcome::Usage => EXIT_USAGE,
            Outcome::PromptFailed => EXIT_FAILURE,
            Outcome::InputFailed => EXIT_FAILURE,
            Outcome::ReadFailed => EXIT_FAILURE,
            Outcome::OpenFailed { mode: _, kind } => match kind {
                FailureKind::NotFound => EXIT_NOT_FOUND,
                FailureKind::PermissionDenied => EXIT_PERMISSION_DENIED,
                FailureKind::Other => EXIT_FAILURE,
            },
            Outcome::WriteFailed { kind } => match kind {
                FailureKind::PermissionDenied => EXIT_PERMISSION_DENIED,
                _ => EXIT_FAILURE,
            },
            Outcome::Printed => EXIT_SUCCESS,
            Outcome::Written => EXIT_SUCCESS,
        }
    }
}

/// An exit status is zero exactly when the run did not fail, and a failure is
/// reported with a status from one to four.
pub proof fn lemma_code_tells_failure(outcome: Outcome)
    ensures
        outcome.code() == EXIT_SUCCESS <==> !outcome.failed(),
        outcome.failed() ==> EXIT_FAILURE <= outcome.code() <= EXIT_USAGE,
{
}

} // verus!
