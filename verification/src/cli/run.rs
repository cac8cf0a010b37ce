//! The command line's choices that depend on no I/O: how a report is shown,
//! and the exit status of each ending.
use vstd::prelude::*;

use crate::cli::report::{OutputFormat, ValidationReport};
use crate::cli::validate::ValidateFailure;

verus! {

/// The exit status when the arguments cannot be parsed.
pub const USAGE_EXIT_CODE: i32 = 2;

/// The output asked for, else human-readable on a terminal and JSON
/// otherwise.
pub fn output_mode(requested: Option<OutputFormat>, stdout_is_tty: bool) -> (r: OutputFormat)
    ensures
        r == match requested {
            Some(f) => f,
            None => if stdout_is_tty {
                OutputFormat::Human
            } else {
                OutputFormat::Json
            },
        },
{
    match requested {
        Some(f) => f,
        None => if stdout_is_tty {
            OutputFormat::Human
        } else {
            OutputFormat::Json
        },
    }
}

/// A passing report exits with 0, a failing one with 1.
pub fn report_exit_code(report: &ValidationReport) -> (r: i32)
    ensures
        r == if report.outcome is Success {
            0i32
        } else {
            1i32
        },
{
    if report.outcome.is_ok() {
        0
    } else {
        1
    }
}

/// An input that cannot be read exits with 3, any other failure with 1.
pub fn failure_exit_code(failure: &ValidateFailure) -> (r: i32)
    ensures
        r == if *failure is Io {
            3i32
        } else {
            1i32
        },
{
    if failure.is_io() {
        3
    } else {
        1
    }
}

} // verus!
