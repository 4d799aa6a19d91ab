//! From cells to the text that stands in the table: filled up to the cell's
//! width, and coloured by `colored`.

use vstd::prelude::*;
use crate::report::{cell_views, header_cells, header_cells_of, row_cells_of, Cell, CellView, ReportRow, Tint};
use crate::text::{pad_right, padded, string_views};

verus! {

/// Trusted: `colored`'s `Colorize::color` and the `Display` of the
/// `ColoredString` it returns, formatted to the minimum width `width`.
/// Whether escape sequences are written depends on the environment and the
/// terminal, so of the text only this is claimed: it is no shorter than
/// `text` nor than `width`.
#[verifier::external_body]
fn tinted(text: &str, tint: Tint, width: u16) -> (painted: String)
    ensures
        painted@.len() >= text@.len(),
        painted@.len() >= width,
{
    let color = match tint {
        Tint::Green => colored::Color::Green,
        Tint::Yellow => colored::Color::Yellow,
        Tint::Red => colored::Color::Red,
        Tint::Blue => colored::Color::Blue,
        Tint::Magenta => colored::Color::Magenta,
        Tint::Cyan => colored::Color::Cyan,
    };
    format!("{:width$}", colored::Colorize::color(text, color), width = usize::from(width))
}

/// `painted` can be the text of `cell`: it is no shorter than the cell's
/// text nor than its width, and for a cell without colour it is the text
/// filled up to the width.
pub open spec fn paints(cell: CellView, painted: Seq<char>) -> bool {
    &&& painted.len() >= cell.text.len()
    &&& painted.len() >= cell.width
    &&& cell.tint is None ==> painted == padded(cell.text, cell.width)
}

/// `painted` can be the texts of `cells`, one for one.
pub open spec fn paints_all(cells: Seq<CellView>, painted: Seq<Seq<char>>) -> bool {
    &&& painted.len() == cells.len()
    &&& forall|i: int| 0 <= i < cells.len() ==> paints(#[trigger] cells[i], painted[i])
}

/// The texts of cells without colour: each filled up to its width.
pub open spec fn plain_texts(cells: Seq<CellView>) -> Seq<Seq<char>> {
    Seq::new(cells.len(), |i: int| padded(cells[i].text, cells[i].width))
}

/// The text of a cell, filled up to its width and, where the cell has a
/// colour and the terminal takes colours, wrapped in the escape sequences of
/// that colour.
pub fn paint(cell: &Cell) -> (painted: String)
    ensures
        paints(cell@, painted@),
{
    match cell.tint {
        None => pad_right(cell.text.as_str(), cell.width as usize),
        Some(tint) => tinted(cell.text.as_str(), tint, cell.width),
    }
}

/// The texts of the cells, one for one.
pub fn paint_all(cells: &Vec<Cell>) -> (painted: Vec<String>)
    ensures
        paints_all(cell_views(cells@), string_views(painted@)),
{
    let mut painted: Vec<String> = Vec::new();
    let mut i: usize = 0;
    while i < cells.len()
        invariant
            i <= cells.len(),
            painted.len() == i,
            forall|k: int| 0 <= k < i ==> paints(#[trigger] cells@[k]@, painted@[k]@),
        decreases cells.len() - i,
    {
        painted.push(paint(&cells[i]));
        i += 1;
    }
    painted
}

/// The texts of the row of one report: the address, blue where the row is
/// flagged, then each outcome in its colour.
pub fn row_texts(row: &ReportRow) -> (texts: Vec<String>)
    ensures
        paints_all(row_cells_of(row.url@, row.outcomes@), string_views(texts@)),
{
    paint_all(&row.cells())
}

/// The texts of the header row: an empty lead, then each toolchain, every
/// one filled up to the width of its column.
pub fn header_texts(toolchains: &Vec<String>) -> (texts: Vec<String>)
    ensures
        string_views(texts@) == plain_texts(header_cells_of(string_views(toolchains@))),
{
    let texts = paint_all(&header_cells(toolchains));
    assert(string_views(texts@) =~= plain_texts(header_cells_of(string_views(toolchains@))));
    texts
}

} // verus!
