use ice_triage::outcome::CompilationOutcome::{Compiled, Failed, InternalError};
use ice_triage::render::{header_texts, paint, paint_all, row_texts};
use ice_triage::report::{Cell, ReportRow, Tint};

fn cell(text: &str, tint: Option<Tint>, width: u16) -> Cell {
    Cell { text: text.to_owned(), tint, width }
}

#[test]
fn plain_cell_is_filled_up() {
    assert_eq!(paint(&cell("abc", None, 6)), "abc   ");
    assert_eq!(paint(&cell("abcdef", None, 3)), "abcdef");
    assert_eq!(paint(&cell("", None, 0)), "");
}

#[test]
fn coloured_cell_is_wrapped_in_escape_sequences() {
    colored::control::set_override(true);
    assert_eq!(paint(&cell("compiled", Some(Tint::Green), 20)), "\u{1b}[32mcompiled            \u{1b}[0m");
    assert_eq!(paint(&cell("failed", Some(Tint::Yellow), 8)), "\u{1b}[33mfailed  \u{1b}[0m");
    assert_eq!(paint(&cell("ICE", Some(Tint::Red), 0)), "\u{1b}[31mICE\u{1b}[0m");
    assert_eq!(paint(&cell("u", Some(Tint::Blue), 2)), "\u{1b}[34mu \u{1b}[0m");
    assert_eq!(paint(&cell("error", Some(Tint::Magenta), 5)), "\u{1b}[35merror\u{1b}[0m");
    assert_eq!(paint(&cell("missing", Some(Tint::Cyan), 7)), "\u{1b}[36mmissing\u{1b}[0m");
}

#[test]
fn coloured_cell_without_colours_is_filled_up() {
    colored::control::set_override(false);
    assert_eq!(paint(&cell("compiled", Some(Tint::Green), 20)), "compiled            ");
    assert_eq!(paint(&cell("ICE", Some(Tint::Red), 2)), "ICE");
}

#[test]
fn widest_cell_is_painted() {
    colored::control::set_override(true);
    let painted = paint(&cell("x", Some(Tint::Red), u16::MAX));
    assert_eq!(painted.chars().filter(|c| *c == ' ').count(), usize::from(u16::MAX) - 1);
    assert_eq!(paint(&cell("x", None, u16::MAX)).len(), usize::from(u16::MAX));
}

#[test]
fn cells_are_painted_one_for_one() {
    colored::control::set_override(false);
    let cells = vec![cell("a", None, 3), cell("b", Some(Tint::Blue), 2), cell("c", None, 1)];
    assert_eq!(paint_all(&cells), vec!["a  ", "b ", "c"]);
    assert_eq!(paint_all(&Vec::new()), Vec::<String>::new());
}

#[test]
fn row_texts_of_a_changed_row() {
    colored::control::set_override(true);
    let row = ReportRow { url: "https://example.org/issues/7".to_owned(), outcomes: vec![InternalError, Compiled] };
    assert_eq!(
        row_texts(&row),
        vec![
            format!("\u{1b}[34m{:50}\u{1b}[0m", "https://example.org/issues/7"),
            format!("\u{1b}[31m{:20}\u{1b}[0m", "ICE"),
            format!("\u{1b}[32m{:20}\u{1b}[0m", "compiled"),
        ]
    );
}

#[test]
fn row_texts_of_an_unchanged_row() {
    colored::control::set_override(true);
    let row = ReportRow { url: "https://example.org/issues/8".to_owned(), outcomes: vec![Failed, Failed] };
    let texts = row_texts(&row);
    assert_eq!(texts.len(), 3);
    assert_eq!(texts[0], format!("{:50}", "https://example.org/issues/8"));
    assert_eq!(texts[1], format!("\u{1b}[33m{:20}\u{1b}[0m", "failed"));
    assert_eq!(texts[2], texts[1]);
}

#[test]
fn header_texts_are_filled_up_to_the_columns() {
    let toolchains = vec!["nightly-2020-01-01".to_owned(), "nightly-a-very-long-toolchain-name".to_owned()];
    assert_eq!(
        header_texts(&toolchains),
        vec![" ".repeat(49), "nightly-2020-01-01  ".to_owned(), "nightly-a-very-long-toolchain-name".to_owned()]
    );
}

#[test]
fn painted_text_is_never_shorter_than_text_or_width() {
    let texts = ["", "x", "žluťoučký kůň", "a\u{1b}[0mb", "0123456789012345678901234567890123456789"];
    for colours in [true, false] {
        colored::control::set_override(colours);
        for text in texts {
            for width in [0u16, 1, 12, 20, 50] {
                let painted = paint(&cell(text, Some(Tint::Red), width));
                let length = painted.chars().count();
                assert!(length >= text.chars().count(), "{text:?} {width}");
                assert!(length >= usize::from(width), "{text:?} {width}");
            }
        }
    }
}
