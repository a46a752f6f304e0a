//! What a command-line front end decides: which limits the caller asked
//! for, and how a run's end becomes an exit code.

use vstd::prelude::*;
use crate::config::Language;
use crate::types::{ExecutionResult, ResourceLimits, Seconds};

verus! {

/// The exit code after a failed compilation.
pub const COMPILE_FAILED: i32 = 1;

/// The limits that the caller asked for on the command line: only the two
/// that can be given there, so that nothing else overrides the language's
/// own limits; `None` where neither was given.
pub fn requested_limits(time_limit: Option<Seconds>, memory_limit: Option<u64>) -> (r: Option<
    ResourceLimits,
>)
    ensures
        r == (if time_limit is None && memory_limit is None {
            None
        } else {
            Some(ResourceLimits { time_limit, memory_limit, ..ResourceLimits::unbounded() })
        }),
{
    if time_limit.is_none() && memory_limit.is_none() {
        return None;
    }
    let mut limits = ResourceLimits::none();
    limits.time_limit = time_limit;
    limits.memory_limit = memory_limit;
    Some(limits)
}

/// The exit code after a run: 0 after success, else the program's own
/// exit code, and 1 where it has none.
pub fn run_exit_code(result: &ExecutionResult) -> (code: i32)
    ensures
        code == (if result.succeeded() {
            0
        } else {
            match result.exit_code {
                Some(c) => c,
                None => 1,
            }
        }),
{
    if result.is_success() {
        0
    } else {
        match result.exit_code {
            Some(c) => c,
            None => 1,
        }
    }
}

/// How a language is listed: `compiled` or `interpreted`.
pub fn language_kind(language: &Language) -> (kind: &'static str)
    ensures
        kind@ == (if language.compile is Some {
            "compiled"@
        } else {
            "interpreted"@
        }),
{
    if language.is_compiled() {
        "compiled"
    } else {
        "interpreted"
    }
}

} // verus!
