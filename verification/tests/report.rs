use ice_triage::outcome::CompilationOutcome::{self, Compiled, Failed, InternalError, RunnerError, ToolchainMissing};
use ice_triage::report::{
    header_cells, row_changed, Cell, Progress, ReportRow, Tint, HEADER_EVERY, HEADER_LEAD_WIDTH,
    TOOLCHAIN_WIDTH, URL_WIDTH,
};
use ice_triage::runner::ToolchainResult;

#[test]
fn equal_outcomes_are_not_changed() {
    assert!(!row_changed(&vec![Compiled, Compiled, Compiled]));
    assert!(!row_changed(&vec![InternalError, InternalError]));
}

#[test]
fn differing_outcome_is_changed() {
    assert!(row_changed(&vec![Compiled, Failed, Compiled]));
    assert!(row_changed(&vec![InternalError, InternalError, Compiled]));
    assert!(row_changed(&vec![Failed, InternalError]));
    assert!(row_changed(&vec![Compiled, Compiled, RunnerError]));
}

#[test]
fn single_toolchain_is_never_changed() {
    for outcome in [Compiled, Failed, InternalError, ToolchainMissing, RunnerError] {
        assert!(!row_changed(&vec![outcome]));
    }
    assert!(!row_changed(&Vec::new()));
}

#[test]
fn changed_agrees_with_comparing_all_pairs() {
    let kinds = [Compiled, Failed, InternalError];
    for a in kinds {
        for b in kinds {
            for c in kinds {
                let row = vec![a, b, c];
                let all_equal = a == b && b == c && a == c;
                assert_eq!(row_changed(&row), !all_equal, "{row:?}");
            }
        }
    }
}

#[test]
fn labels_and_colours_of_the_outcomes() {
    let expected = [
        (Compiled, "compiled", Tint::Green),
        (Failed, "failed", Tint::Yellow),
        (InternalError, "ICE", Tint::Red),
        (ToolchainMissing, "missing", Tint::Cyan),
        (RunnerError, "error", Tint::Magenta),
    ];
    for (outcome, label, tint) in expected {
        assert_eq!(outcome.label(), label);
        assert_eq!(outcome.tint(), tint);
    }
}

#[test]
fn row_has_one_outcome_per_toolchain() {
    let results = vec![
        ToolchainResult { index: 2, outcome: Failed },
        ToolchainResult { index: 0, outcome: Compiled },
    ];
    let row = ReportRow::assemble("u".to_owned(), 3, &results);
    assert_eq!(row.url, "u");
    assert_eq!(row.outcomes, vec![Compiled, RunnerError, Failed]);
    assert_eq!(ReportRow::assemble("u".to_owned(), 0, &results).outcomes, Vec::<CompilationOutcome>::new());
}

#[test]
fn cells_of_a_changed_row() {
    let row = ReportRow { url: "https://example.org/issues/7".to_owned(), outcomes: vec![InternalError, Compiled] };
    assert_eq!(
        row.cells(),
        vec![
            Cell { text: "https://example.org/issues/7".to_owned(), tint: Some(Tint::Blue), width: 50 },
            Cell { text: "ICE".to_owned(), tint: Some(Tint::Red), width: 20 },
            Cell { text: "compiled".to_owned(), tint: Some(Tint::Green), width: 20 },
        ]
    );
}

#[test]
fn cells_of_an_unchanged_row() {
    let row = ReportRow { url: "https://example.org/issues/8".to_owned(), outcomes: vec![Failed, Failed] };
    assert_eq!(
        row.cells(),
        vec![
            Cell { text: "https://example.org/issues/8".to_owned(), tint: None, width: URL_WIDTH },
            Cell { text: "failed".to_owned(), tint: Some(Tint::Yellow), width: TOOLCHAIN_WIDTH },
            Cell { text: "failed".to_owned(), tint: Some(Tint::Yellow), width: TOOLCHAIN_WIDTH },
        ]
    );
    let bare = ReportRow { url: String::new(), outcomes: Vec::new() };
    assert_eq!(bare.cells(), vec![Cell { text: String::new(), tint: None, width: 50 }]);
}

#[test]
fn header_cells_are_a_lead_and_the_toolchains() {
    let toolchains = vec!["nightly-2020-01-01".to_owned(), "nightly-2020-02-01".to_owned()];
    assert_eq!(
        header_cells(&toolchains),
        vec![
            Cell { text: String::new(), tint: None, width: HEADER_LEAD_WIDTH },
            Cell { text: "nightly-2020-01-01".to_owned(), tint: None, width: 20 },
            Cell { text: "nightly-2020-02-01".to_owned(), tint: None, width: 20 },
        ]
    );
    assert_eq!(header_cells(&Vec::new()), vec![Cell { text: String::new(), tint: None, width: 49 }]);
}

#[test]
fn header_comes_before_the_first_row_and_then_every_tenth() {
    assert_eq!(HEADER_EVERY, 10);
    let mut progress = Progress::new();
    let mut due_before = Vec::new();
    for row in 0..35 {
        if progress.header_due() {
            due_before.push(row);
        }
        progress.row_rendered();
    }
    assert_eq!(due_before, vec![0, 10, 20, 30]);
}

#[test]
fn setting_a_report_aside_does_not_count_as_a_row() {
    let mut progress = Progress::new();
    assert!(progress.header_due());
    progress.set_aside("https://example.org/issues/1".to_owned());
    assert!(progress.header_due());
    progress.row_rendered();
    assert!(!progress.header_due());
}

#[test]
fn closing_lines_list_the_reports_set_aside() {
    let mut progress = Progress::new();
    assert_eq!(progress.closing_lines(), vec!["", "Issues without MCVEs:"]);
    progress.set_aside("https://example.org/issues/3".to_owned());
    progress.row_rendered();
    progress.set_aside("https://example.org/issues/1".to_owned());
    assert_eq!(
        progress.closing_lines(),
        vec!["", "Issues without MCVEs:", "https://example.org/issues/3", "https://example.org/issues/1"]
    );
}
