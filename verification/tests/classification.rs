use ice_triage::outcome::{classify, CompilationOutcome};

#[test]
fn success_is_compiled_whatever_was_printed() {
    assert_eq!(classify(true, ""), CompilationOutcome::Compiled);
    assert_eq!(classify(true, "warning: unused variable"), CompilationOutcome::Compiled);
    assert_eq!(
        classify(true, "internal compiler error; toolchain 'x' is not installed"),
        CompilationOutcome::Compiled
    );
}

#[test]
fn missing_toolchain_is_recognised() {
    let text = "error: toolchain 'nightly-2019-01-01-x86_64-unknown-linux-gnu' is not installed\n";
    assert_eq!(classify(false, text), CompilationOutcome::ToolchainMissing);
}

#[test]
fn missing_toolchain_wins_over_crash_marker() {
    let text = "error: internal compiler error: boom\nerror: toolchain 'nightly-x' is not installed";
    assert_eq!(classify(false, text), CompilationOutcome::ToolchainMissing);
}

#[test]
fn missing_toolchain_needs_both_halves() {
    assert_eq!(classify(false, "the toolchain broke"), CompilationOutcome::Failed);
    assert_eq!(classify(false, "rustc is not installed"), CompilationOutcome::Failed);
    assert_eq!(
        classify(false, "internal compiler error in the toolchain"),
        CompilationOutcome::InternalError
    );
}

#[test]
fn missing_toolchain_halves_may_stand_in_any_order() {
    assert_eq!(
        classify(false, "it is not installed, that toolchain"),
        CompilationOutcome::ToolchainMissing
    );
}

#[test]
fn crash_marker_is_an_internal_error() {
    let text = "error: internal compiler error: unexpected panic\n\nnote: the compiler unexpectedly panicked";
    assert_eq!(classify(false, text), CompilationOutcome::InternalError);
    assert_eq!(classify(false, "internal compiler error"), CompilationOutcome::InternalError);
}

#[test]
fn ordinary_rejection_is_failed() {
    assert_eq!(classify(false, "error[E0308]: mismatched types"), CompilationOutcome::Failed);
    assert_eq!(classify(false, ""), CompilationOutcome::Failed);
}

#[test]
fn markers_are_matched_exactly() {
    assert_eq!(classify(false, "Internal Compiler Error"), CompilationOutcome::Failed);
    assert_eq!(classify(false, "internal compiler erro"), CompilationOutcome::Failed);
    assert_eq!(classify(false, "internal  compiler error"), CompilationOutcome::Failed);
}

#[test]
fn markers_are_found_among_other_scripts() {
    assert_eq!(
        classify(false, "エラー: internal compiler error — паника"),
        CompilationOutcome::InternalError
    );
}

#[test]
fn classification_never_reports_a_runner_error() {
    let texts = ["", "internal compiler error", "toolchain is not installed", "error"];
    for text in texts {
        for success in [true, false] {
            assert_ne!(classify(success, text), CompilationOutcome::RunnerError);
        }
    }
}

#[test]
fn classification_is_repeatable() {
    let text = "error: internal compiler error";
    assert_eq!(classify(false, text), classify(false, text));
}
