//! What a toolchain made of a reproducer, judged from how the compiler
//! process ended and what it printed.
//!
//! The judgement is a heuristic on raw diagnostic text: the compiler offers
//! no structured way to tell a crash from a rejected input, so the
//! conventional marker strings are the only signal there is.

use vstd::prelude::*;
use crate::text::{contains, str_contains};

verus! {

/// The outcome of compiling one reproducer with one toolchain. Outcomes are
/// compared by kind alone.
#[derive(Clone, Copy, Debug, PartialEq, Eq, Structural)]
pub enum CompilationOutcome {
    /// The compiler exited with success.
    Compiled,
    /// The compiler rejected the input in the ordinary way.
    Failed,
    /// The compiler crashed.
    InternalError,
    /// The requested toolchain is not installed.
    ToolchainMissing,
    /// The attempt itself broke down before the compiler's verdict was known.
    /// No classification yields this kind.
    RunnerError,
}

/// First half of the notice that a toolchain is missing.
pub open spec fn toolchain_marker() -> Seq<char> {
    "toolchain"@
}

/// Second half of the notice that a toolchain is missing.
pub open spec fn not_installed_marker() -> Seq<char> {
    "is not installed"@
}

/// The phrase with which the compiler announces its own crash.
pub open spec fn internal_error_marker() -> Seq<char> {
    "internal compiler error"@
}

/// The captured text says that the toolchain is missing: both halves of the
/// notice occur in it, anywhere.
pub open spec fn reports_missing_toolchain(captured: Seq<char>) -> bool {
    contains(captured, toolchain_marker()) && contains(captured, not_installed_marker())
}

/// The captured text carries the crash marker.
pub open spec fn reports_internal_error(captured: Seq<char>) -> bool {
    contains(captured, internal_error_marker())
}

/// The outcome for an exit status and the captured text. The first rule that
/// applies decides: success, missing toolchain, internal error, failed.
pub open spec fn classification(exit_success: bool, captured: Seq<char>) -> CompilationOutcome {
    if exit_success {
        CompilationOutcome::Compiled
    } else if reports_missing_toolchain(captured) {
        CompilationOutcome::ToolchainMissing
    } else if reports_internal_error(captured) {
        CompilationOutcome::InternalError
    } else {
        CompilationOutcome::Failed
    }
}

/// Classifies a finished compilation from its exit status and the text it
/// wrote to its standard streams.
pub fn classify(exit_success: bool, captured: &str) -> (outcome: CompilationOutcome)
    ensures
        outcome == classification(exit_success, captured@),
{
    if exit_success {
        CompilationOutcome::Compiled
    } else if str_contains(captured, "toolchain") && str_contains(captured, "is not installed") {
        CompilationOutcome::ToolchainMissing
    } else if str_contains(captured, "internal compiler error") {
        CompilationOutcome::InternalError
    } else {
        CompilationOutcome::Failed
    }
}

/// Every exit status and every text has exactly one classification, and it
/// is one of the four verdicts on the compiler: a breakdown of the attempt is
/// never the result of classifying.
pub proof fn lemma_classification_total(exit_success: bool, captured: Seq<char>)
    ensures
        classification(exit_success, captured) != CompilationOutcome::RunnerError,
        classification(exit_success, captured) == CompilationOutcome::Compiled <==> exit_success,
        classification(exit_success, captured) == CompilationOutcome::ToolchainMissing <==> !exit_success
            && reports_missing_toolchain(captured),
        classification(exit_success, captured) == CompilationOutcome::InternalError <==> !exit_success
            && !reports_missing_toolchain(captured) && reports_internal_error(captured),
        classification(exit_success, captured) == CompilationOutcome::Failed <==> !exit_success
            && !reports_missing_toolchain(captured) && !reports_internal_error(captured),
{
}

/// The rules are tried in a fixed order, and markers of a later rule do not
/// disturb an earlier one: success wins over every marker, and the notice of
/// a missing toolchain wins over the crash marker.
pub proof fn lemma_classification_precedence(captured: Seq<char>)
    ensures
        classification(true, captured) == CompilationOutcome::Compiled,
        reports_missing_toolchain(captured) ==> classification(false, captured)
            == CompilationOutcome::ToolchainMissing,
        reports_internal_error(captured) && !reports_missing_toolchain(captured)
            ==> classification(false, captured) == CompilationOutcome::InternalError,
{
}

} // verus!
