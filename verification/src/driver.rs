//! The run as a whole, seen from the reports: which report is tested, what
//! is shown for it, and what is listed at the end.
//!
//! The toolchain list is fixed when the run begins and is never changed
//! afterwards. Reports are taken one at a time: a report is either set aside
//! for want of a reproducer, or it becomes a job whose results, once all
//! attempts have completed, are shown as one row of the table.

use vstd::prelude::*;
use crate::config::{toolchain_name_of, toolchain_names};
use crate::render::{header_texts, paints_all, plain_texts, row_texts};
use crate::report::{header_cells_of, row_cells_of, Progress, ReportRow, HEADER_EVERY};
use crate::runner::{fan_out, in_input_order, Attempt, AttemptState, ToolchainResult};
use crate::snippet::{reproducer, reproducer_in, Issue, SnippetError};
use crate::text::string_views;

verus! {

/// A report to test: its address and its reproducer.
#[derive(Clone, Debug, PartialEq, Eq)]
pub struct Job {
    pub url: String,
    pub snippet: String,
}

/// One line of the table, as the texts of its cells.
#[derive(Clone, Debug, PartialEq, Eq)]
pub enum TableLine {
    /// The header row: the names of the toolchains.
    Header(Vec<String>),
    /// The row of one report.
    Row(Vec<String>),
}

/// `line` is the header row for `toolchains`.
pub open spec fn is_header_line(line: TableLine, toolchains: Seq<Seq<char>>) -> bool {
    &&& line is Header
    &&& string_views(line->Header_0@) == plain_texts(header_cells_of(toolchains))
}

/// `line` can be the row of the report at `url` with the given results for
/// `count` toolchains.
pub open spec fn is_row_line(
    line: TableLine,
    url: Seq<char>,
    results: Seq<ToolchainResult>,
    count: nat,
) -> bool {
    &&& line is Row
    &&& paints_all(row_cells_of(url, in_input_order(results, count)), string_views(line->Row_0@))
}

/// The run: the toolchain list and how far the report has come.
pub struct Driver {
    toolchains: Vec<String>,
    progress: Progress,
}

impl Driver {
    /// The names of the toolchains, in the order of the command line.
    pub closed spec fn toolchains(&self) -> Seq<Seq<char>> {
        string_views(self.toolchains@)
    }

    /// The number of rows shown so far.
    pub closed spec fn rows_rendered(&self) -> nat {
        self.progress.rows_rendered()
    }

    /// The addresses of the reports set aside, in the order in which they
    /// came.
    pub closed spec fn untested(&self) -> Seq<Seq<char>> {
        self.progress.untested()
    }

    /// A run against the toolchains with the given identifiers: nothing
    /// shown yet, nothing set aside.
    pub fn new(identifiers: &Vec<String>) -> (driver: Driver)
        ensures
            driver.toolchains() == Seq::new(
                identifiers@.len(),
                |i: int| toolchain_name_of(identifiers@[i]@),
            ),
            driver.rows_rendered() == 0,
            driver.untested() == Seq::<Seq<char>>::empty(),
    {
        Driver { toolchains: toolchain_names(identifiers), progress: Progress::new() }
    }

    /// Decides on the next report: it becomes a job if it has a reproducer,
    /// and is set aside if it has none.
    pub fn triage(&mut self, issue: Issue) -> (job: Result<Option<Job>, SnippetError>)
        ensures
            final(self).toolchains() == old(self).toolchains(),
            final(self).rows_rendered() == old(self).rows_rendered(),
            match reproducer_in(issue.body@) {
                Ok(Some(code)) => {
                    &&& job is Ok
                    &&& job->Ok_0 is Some
                    &&& job->Ok_0->0.url == issue.html_url
                    &&& job->Ok_0->0.snippet@ == code
                    &&& final(self).untested() == old(self).untested()
                },
                Ok(None) => {
                    &&& job is Ok
                    &&& job->Ok_0 is None
                    &&& final(self).untested() == old(self).untested().push(issue.html_url@)
                },
                Err(e) => {
                    &&& job is Err
                    &&& job->Err_0 == e
                    &&& final(self).untested() == old(self).untested()
                },
            },
    {
        match reproducer(&issue) {
            Ok(Some(snippet)) => Ok(Some(Job { url: issue.html_url, snippet })),
            Ok(None) => {
                self.progress.set_aside(issue.html_url);
                Ok(None)
            },
            Err(e) => Err(e),
        }
    }

    /// The attempts of one job: one per toolchain, each at the position of
    /// its toolchain in the list.
    pub fn attempts(&self) -> (attempts: Vec<Attempt>)
        ensures
            attempts.len() == self.toolchains().len(),
            forall|i: int|
                0 <= i < attempts.len() ==> {
                    &&& (#[trigger] attempts[i]).position() == i
                    &&& attempts[i].toolchain() == self.toolchains()[i]
                    &&& attempts[i].state() == AttemptState::Acquiring
                },
    {
        fan_out(&self.toolchains)
    }

    /// Takes the results of a job, in the order in which its attempts
    /// completed, and gives the lines to show: the row of the report, with
    /// one outcome per toolchain in the order of the toolchain list, and
    /// before it the header row if this is the first row or the tenth since
    /// the last header.
    pub fn report(&mut self, url: String, results: &Vec<ToolchainResult>) -> (lines: Vec<TableLine>)
        ensures
            final(self).toolchains() == old(self).toolchains(),
            final(self).untested() == old(self).untested(),
            final(self).rows_rendered() == old(self).rows_rendered() + 1,
            old(self).rows_rendered() % (HEADER_EVERY as nat) == 0 ==> {
                &&& lines.len() == 2
                &&& is_header_line(lines[0], old(self).toolchains())
                &&& is_row_line(lines[1], url@, results@, old(self).toolchains().len())
            },
            old(self).rows_rendered() % (HEADER_EVERY as nat) != 0 ==> {
                &&& lines.len() == 1
                &&& is_row_line(lines[0], url@, results@, old(self).toolchains().len())
            },
    {
        let row = ReportRow::assemble(url, self.toolchains.len(), results);
        let mut lines: Vec<TableLine> = Vec::new();
        if self.progress.header_due() {
            lines.push(TableLine::Header(header_texts(&self.toolchains)));
        }
        lines.push(TableLine::Row(row_texts(&row)));
        self.progress.row_rendered();
        lines
    }

    /// The lines that close the report: an empty line, a heading, and the
    /// address of every report that was set aside.
    pub fn closing_lines(&self) -> (lines: Vec<String>)
        ensures
            string_views(lines@) == seq![Seq::<char>::empty(), "Issues without MCVEs:"@]
                + self.untested(),
    {
        self.progress.closing_lines()
    }
}

} // verus!
