//! The comparison table, as plain values: one row of cells per tested
//! report, a header row that comes back at a fixed interval, and the list of
//! reports that could not be tested.

use vstd::prelude::*;
use crate::outcome::CompilationOutcome;
use crate::runner::{in_input_order, restore_order, ToolchainResult};
use crate::text::string_views;

verus! {

/// Width of the column that holds the address of a report.
pub const URL_WIDTH: u16 = 50;

/// Width of the first, empty cell of the header row.
pub const HEADER_LEAD_WIDTH: u16 = 49;

/// Width of the column of one toolchain.
pub const TOOLCHAIN_WIDTH: u16 = 20;

/// The header row is shown again after this many rows.
pub const HEADER_EVERY: usize = 10;

/// The colour of a cell's text.
#[derive(Clone, Copy, Debug, PartialEq, Eq, Structural)]
pub enum Tint {
    Green,
    Yellow,
    Red,
    Blue,
    Magenta,
    Cyan,
}

/// One cell of the table: its text, its colour if it has one, and the width
/// to which the text is filled up.
#[derive(Clone, Debug, PartialEq, Eq)]
pub struct Cell {
    pub text: String,
    pub tint: Option<Tint>,
    pub width: u16,
}

/// A [`Cell`] over a sequence of characters.
pub struct CellView {
    pub text: Seq<char>,
    pub tint: Option<Tint>,
    pub width: nat,
}

impl View for Cell {
    type V = CellView;

    open spec fn view(&self) -> CellView {
        CellView { text: self.text@, tint: self.tint, width: self.width as nat }
    }
}

/// The views of a list of cells.
pub open spec fn cell_views(cells: Seq<Cell>) -> Seq<CellView> {
    Seq::new(cells.len(), |i: int| cells[i]@)
}

/// The word that stands for an outcome in the table.
pub open spec fn outcome_label(outcome: CompilationOutcome) -> Seq<char> {
    match outcome {
        CompilationOutcome::Compiled => "compiled"@,
        CompilationOutcome::Failed => "failed"@,
        CompilationOutcome::InternalError => "ICE"@,
        CompilationOutcome::ToolchainMissing => "missing"@,
        CompilationOutcome::RunnerError => "error"@,
    }
}

/// The colour in which an outcome is shown.
pub open spec fn outcome_tint(outcome: CompilationOutcome) -> Tint {
    match outcome {
        CompilationOutcome::Compiled => Tint::Green,
        CompilationOutcome::Failed => Tint::Yellow,
        CompilationOutcome::InternalError => Tint::Red,
        CompilationOutcome::ToolchainMissing => Tint::Cyan,
        CompilationOutcome::RunnerError => Tint::Magenta,
    }
}

/// The cell of one outcome.
pub open spec fn outcome_cell(outcome: CompilationOutcome) -> CellView {
    CellView {
        text: outcome_label(outcome),
        tint: Some(outcome_tint(outcome)),
        width: TOOLCHAIN_WIDTH as nat,
    }
}

/// The cell of a report's address: blue where the row is flagged, plain
/// otherwise.
pub open spec fn url_cell(url: Seq<char>, changed: bool) -> CellView {
    CellView {
        text: url,
        tint: if changed {
            Some(Tint::Blue)
        } else {
            None
        },
        width: URL_WIDTH as nat,
    }
}

/// Two neighbours in the row differ.
pub open spec fn differs_somewhere(outcomes: Seq<CompilationOutcome>) -> bool {
    exists|i: int| 0 <= i && i + 1 < outcomes.len() && #[trigger] outcomes[i] != outcomes[i + 1]
}

/// The cells of the row of one report: its address, then one cell per
/// toolchain.
pub open spec fn row_cells_of(url: Seq<char>, outcomes: Seq<CompilationOutcome>) -> Seq<CellView> {
    seq![url_cell(url, differs_somewhere(outcomes))] + Seq::new(
        outcomes.len(),
        |i: int| outcome_cell(outcomes[i]),
    )
}

/// The cells of the header row: an empty lead, then the toolchains.
pub open spec fn header_cells_of(toolchains: Seq<Seq<char>>) -> Seq<CellView> {
    seq![CellView { text: Seq::<char>::empty(), tint: None, width: HEADER_LEAD_WIDTH as nat }]
        + Seq::new(
        toolchains.len(),
        |i: int| CellView { text: toolchains[i], tint: None, width: TOOLCHAIN_WIDTH as nat },
    )
}

impl CompilationOutcome {
    /// The word that stands for this outcome in the table.
    pub fn label(&self) -> (label: String)
        ensures
            label@ == outcome_label(*self),
    {
        match self {
            CompilationOutcome::Compiled => "compiled".to_owned(),
            CompilationOutcome::Failed => "failed".to_owned(),
            CompilationOutcome::InternalError => "ICE".to_owned(),
            CompilationOutcome::ToolchainMissing => "missing".to_owned(),
            CompilationOutcome::RunnerError => "error".to_owned(),
        }
    }

    /// The colour in which this outcome is shown.
    pub fn tint(&self) -> (tint: Tint)
        ensures
            tint == outcome_tint(*self),
    {
        match self {
            CompilationOutcome::Compiled => Tint::Green,
            CompilationOutcome::Failed => Tint::Yellow,
            CompilationOutcome::InternalError => Tint::Red,
            CompilationOutcome::ToolchainMissing => Tint::Cyan,
            CompilationOutcome::RunnerError => Tint::Magenta,
        }
    }
}

/// Whether the row is flagged as changed: some outcome differs from its
/// neighbour.
pub fn row_changed(outcomes: &Vec<CompilationOutcome>) -> (changed: bool)
    ensures
        changed == differs_somewhere(outcomes@),
{
    let mut i: usize = 1;
    while i < outcomes.len()
        invariant
            1 <= i,
            forall|k: int| 0 <= k && k + 1 < i ==> #[trigger] outcomes@[k] == outcomes@[k + 1],
        decreases outcomes.len() - i,
    {
        if outcomes[i - 1] != outcomes[i] {
            assert(outcomes@[i - 1] != outcomes@[i - 1 + 1]);
            return true;
        }
        i += 1;
    }
    false
}

/// A row is flagged exactly when not all of its outcomes are the same: if
/// any two differ, two neighbours differ.
pub proof fn lemma_changed_iff_not_all_equal(outcomes: Seq<CompilationOutcome>)
    ensures
        differs_somewhere(outcomes) <==> exists|i: int, j: int|
            0 <= i < outcomes.len() && 0 <= j < outcomes.len() && outcomes[i] != outcomes[j],
{
    if differs_somewhere(outcomes) {
        let i = choose|i: int|
            0 <= i && i + 1 < outcomes.len() && #[trigger] outcomes[i] != outcomes[i + 1];
        assert(0 <= i < outcomes.len() && 0 <= i + 1 < outcomes.len() && outcomes[i] != outcomes[i
            + 1]);
    } else {
        assert forall|i: int| 0 <= i < outcomes.len() implies #[trigger] outcomes[i]
            == outcomes[0] by {
            lemma_equal_to_first(outcomes, i);
        }
    }
}

/// Where no two neighbours differ, every outcome equals the first.
proof fn lemma_equal_to_first(outcomes: Seq<CompilationOutcome>, i: int)
    requires
        !differs_somewhere(outcomes),
        0 <= i < outcomes.len(),
    ensures
        outcomes[i] == outcomes[0],
    decreases i,
{
    if i > 0 {
        lemma_equal_to_first(outcomes, i - 1);
        assert(outcomes[i - 1] == outcomes[i - 1 + 1]);
    }
}

/// A row over no toolchain or one is never flagged.
pub proof fn lemma_short_row_unchanged(outcomes: Seq<CompilationOutcome>)
    requires
        outcomes.len() <= 1,
    ensures
        !differs_somewhere(outcomes),
{
}

/// The row of one report: its address and one outcome per toolchain, in the
/// order of the toolchain list.
#[derive(Clone, Debug, PartialEq, Eq)]
pub struct ReportRow {
    pub url: String,
    pub outcomes: Vec<CompilationOutcome>,
}

impl ReportRow {
    /// The row has one outcome for each of `toolchain_count` toolchains.
    pub open spec fn fits(&self, toolchain_count: nat) -> bool {
        self.outcomes@.len() == toolchain_count
    }

    /// The row of the report at `url`, from the results of the attempts in
    /// the order in which they completed.
    pub fn assemble(url: String, toolchain_count: usize, results: &Vec<ToolchainResult>) -> (row:
        ReportRow)
        ensures
            row.url == url,
            row.outcomes@ == in_input_order(results@, toolchain_count as nat),
            row.fits(toolchain_count as nat),
    {
        ReportRow { url, outcomes: restore_order(results, toolchain_count) }
    }

    /// Whether the row is flagged as changed.
    pub fn changed(&self) -> (changed: bool)
        ensures
            changed == differs_somewhere(self.outcomes@),
    {
        row_changed(&self.outcomes)
    }

    /// The cells of the row.
    pub fn cells(&self) -> (cells: Vec<Cell>)
        ensures
            cell_views(cells@) == row_cells_of(self.url@, self.outcomes@),
    {
        let changed = row_changed(&self.outcomes);
        let mut cells: Vec<Cell> = Vec::new();
        cells.push(
            Cell {
                text: self.url.clone(),
                tint: if changed {
                    Some(Tint::Blue)
                } else {
                    None
                },
                width: URL_WIDTH,
            },
        );
        let mut i: usize = 0;
        while i < self.outcomes.len()
            invariant
                i <= self.outcomes.len(),
                cells.len() == i + 1,
                cells@[0]@ == url_cell(self.url@, differs_somewhere(self.outcomes@)),
                forall|k: int| 0 <= k < i ==> (#[trigger] cells@[k + 1])@ == outcome_cell(self.outcomes@[k]),
            decreases self.outcomes.len() - i,
        {
            let outcome = self.outcomes[i];
            cells.push(
                Cell { text: outcome.label(), tint: Some(outcome.tint()), width: TOOLCHAIN_WIDTH },
            );
            i += 1;
        }
        assert(cell_views(cells@) =~= row_cells_of(self.url@, self.outcomes@)) by {
            assert forall|k: int| 0 <= k < cells.len() implies cell_views(cells@)[k] == row_cells_of(
                self.url@,
                self.outcomes@,
            )[k] by {
                if k > 0 {
                    assert(cells@[(k - 1) + 1]@ == outcome_cell(self.outcomes@[k - 1]));
                }
            }
        }
        cells
    }
}

/// The cells of the header row for the given toolchains.
pub fn header_cells(toolchains: &Vec<String>) -> (cells: Vec<Cell>)
    ensures
        cell_views(cells@) == header_cells_of(string_views(toolchains@)),
{
    let mut cells: Vec<Cell> = Vec::new();
    cells.push(Cell { text: String::new(), tint: None, width: HEADER_LEAD_WIDTH });
    let mut i: usize = 0;
    while i < toolchains.len()
        invariant
            i <= toolchains.len(),
            cells.len() == i + 1,
            cells@[0]@ == (CellView {
                text: Seq::<char>::empty(),
                tint: None,
                width: HEADER_LEAD_WIDTH as nat,
            }),
            forall|k: int|
                0 <= k < i ==> (#[trigger] cells@[k + 1])@ == (CellView {
                    text: toolchains@[k]@,
                    tint: None,
                    width: TOOLCHAIN_WIDTH as nat,
                }),
        decreases toolchains.len() - i,
    {
        cells.push(Cell { text: toolchains[i].clone(), tint: None, width: TOOLCHAIN_WIDTH });
        i += 1;
    }
    assert(cell_views(cells@) =~= header_cells_of(string_views(toolchains@))) by {
        assert forall|k: int| 0 <= k < cells.len() implies cell_views(cells@)[k] == header_cells_of(
            string_views(toolchains@),
        )[k] by {
            if k > 0 {
                assert(cells@[(k - 1) + 1]@.text == toolchains@[k - 1]@);
            }
        }
    }
    cells
}

/// The number of rows rendered, and beside it the number of rows since the
/// last header.
struct RowCount {
    rendered: Ghost<nat>,
    since_header: usize,
}

impl RowCount {
    /// The counter of rows since the last header agrees with the number of
    /// rows rendered.
    #[verifier::type_invariant]
    spec fn agrees(self) -> bool {
        self.since_header < HEADER_EVERY && self.since_header == self.rendered@ % (HEADER_EVERY as nat)
    }
}

/// How far the report has come: how many rows were rendered, and which
/// reports had no reproducer.
pub struct Progress {
    count: RowCount,
    untested: Vec<String>,
}

impl Progress {
    /// The number of rows rendered so far.
    pub closed spec fn rows_rendered(&self) -> nat {
        self.count.rendered@
    }

    /// The addresses of the reports without a reproducer, in the order in
    /// which they were met.
    pub closed spec fn untested(&self) -> Seq<Seq<char>> {
        string_views(self.untested@)
    }

    /// Nothing rendered, nothing set aside.
    pub fn new() -> (progress: Progress)
        ensures
            progress.rows_rendered() == 0,
            progress.untested() == Seq::<Seq<char>>::empty(),
    {
        let progress = Progress {
            count: RowCount { rendered: Ghost(0), since_header: 0 },
            untested: Vec::new(),
        };
        assert(progress.untested() =~= Seq::<Seq<char>>::empty());
        progress
    }

    /// Whether the header row comes before the next row: before the first
    /// row, and then again after every [`HEADER_EVERY`] rows.
    pub fn header_due(&self) -> (due: bool)
        ensures
            due == (self.rows_rendered() % (HEADER_EVERY as nat) == 0),
    {
        proof {
            use_type_invariant(&self.count);
        }
        self.count.since_header == 0
    }

    /// Counts one more rendered row.
    pub fn row_rendered(&mut self)
        ensures
            final(self).rows_rendered() == old(self).rows_rendered() + 1,
            final(self).untested() == old(self).untested(),
    {
        proof {
            use_type_invariant(&self.count);
        }
        let since_header: usize = if self.count.since_header + 1 == HEADER_EVERY {
            0
        } else {
            self.count.since_header + 1
        };
        self.count = RowCount {
            rendered: Ghost((self.count.rendered@ + 1) as nat),
            since_header,
        };
    }

    /// Sets aside a report without a reproducer.
    pub fn set_aside(&mut self, url: String)
        ensures
            final(self).rows_rendered() == old(self).rows_rendered(),
            final(self).untested() == old(self).untested().push(url@),
    {
        self.untested.push(url);
        assert(self.untested() =~= old(self).untested().push(url@));
    }

    /// The lines that close the report: an empty line, a heading, and the
    /// address of every report that was set aside.
    pub fn closing_lines(&self) -> (lines: Vec<String>)
        ensures
            string_views(lines@) == seq![Seq::<char>::empty(), "Issues without MCVEs:"@]
                + self.untested(),
    {
        let mut lines: Vec<String> = Vec::new();
        lines.push(String::new());
        lines.push("Issues without MCVEs:".to_owned());
        let mut i: usize = 0;
        while i < self.untested.len()
            invariant
                i <= self.untested.len(),
                string_views(lines@) == seq![Seq::<char>::empty(), "Issues without MCVEs:"@]
                    + string_views(self.untested@).take(i as int),
            decreases self.untested.len() - i,
        {
            let ghost before = lines@;
            lines.push(self.untested[i].clone());
            i += 1;
            assert(string_views(lines@) =~= string_views(before).push(self.untested@[i - 1]@));
            assert(string_views(self.untested@).take(i as int) =~= string_views(
                self.untested@,
            ).take(i - 1).push(self.untested@[i - 1]@));
        }
        assert(string_views(self.untested@).take(self.untested.len() as int) =~= string_views(
            self.untested@,
        ));
        lines
    }
}

} // verus!
