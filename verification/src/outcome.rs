//! Mapping of the external tool's termination status to this process's
//! own result and exit code.

use vstd::prelude::*;

verus! {

/// Exit code reported when the external process terminated without a
/// code of its own (for example, killed by a signal).
pub const FALLBACK_FAILURE_CODE: i32 = 1;

/// Outcome of one delegated run of the external tool. `Failure` carries
/// the exit code to propagate; it is not an internal error, the tool's
/// own judgment is surfaced unchanged.
#[derive(Clone, Copy, Debug, PartialEq, Eq, Structural)]
pub enum ExecutionResult {
    Success,
    Failure(i32),
}

/// The outcome that a termination status denotes: `code` is the exit
/// code the process reported, or `None` if it terminated abnormally
/// without one.
pub open spec fn outcome_of(code: Option<i32>) -> ExecutionResult {
    match code {
        Option::Some(c) => if c == 0 {
            ExecutionResult::Success
        } else {
            ExecutionResult::Failure(c)
        },
        Option::None => ExecutionResult::Failure(FALLBACK_FAILURE_CODE),
    }
}

/// The exit code this process reports for an outcome.
pub open spec fn exit_code_spec(result: ExecutionResult) -> i32 {
    match result {
        ExecutionResult::Success => 0,
        ExecutionResult::Failure(c) => c,
    }
}

impl ExecutionResult {
    /// Classifies a termination status: exit code zero is `Success`, any
    /// other code is `Failure` with that code preserved, and a missing
    /// code becomes `Failure(FALLBACK_FAILURE_CODE)`.
    pub fn from_termination(code: Option<i32>) -> (result: ExecutionResult)
        ensures
            result == outcome_of(code),
    {
        match code {
            Option::Some(c) => if c == 0 {
                ExecutionResult::Success
            } else {
                ExecutionResult::Failure(c)
            },
            Option::None => ExecutionResult::Failure(FALLBACK_FAILURE_CODE),
        }
    }

    /// The exit code this process reports: 0 for `Success`, otherwise
    /// the carried failure code, unchanged.
    pub fn exit_code(&self) -> (code: i32)
        ensures
            code == exit_code_spec(*self),
    {
        match self {
            ExecutionResult::Success => 0,
            ExecutionResult::Failure(c) => *c,
        }
    }
}

/// Round trip from termination status to reported exit code: code 0
/// maps to `Success` and back to exit code 0; any nonzero code is
/// preserved exactly; an absent code maps to the fixed fallback, which
/// is stable at `FALLBACK_FAILURE_CODE`.
pub proof fn lemma_outcome_round_trip(code: Option<i32>)
    ensures
        code == Option::Some(0i32) ==> outcome_of(code) == ExecutionResult::Success
            && exit_code_spec(outcome_of(code)) == 0,
        (code matches Option::Some(c) && c != 0) ==> outcome_of(code)
            == ExecutionResult::Failure(code->0) && exit_code_spec(outcome_of(code)) == code->0,
        code is None ==> outcome_of(code) == ExecutionResult::Failure(FALLBACK_FAILURE_CODE)
            && exit_code_spec(outcome_of(code)) == FALLBACK_FAILURE_CODE,
{
}

} // verus!
