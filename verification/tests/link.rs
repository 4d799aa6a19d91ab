use ice_triage::link::{scan_link_header, LinkScan};

const TWO: &str = "<https://api.github.com/repositories/724712/issues?labels=I-ice&state=open&page=2>; rel=\"next\", <https://api.github.com/repositories/724712/issues?labels=I-ice&state=open&page=5>; rel=\"last\"";

fn next(url: &str) -> LinkScan {
    LinkScan::Next(url.to_owned())
}

#[test]
fn next_entry_gives_the_address() {
    assert_eq!(
        scan_link_header(TWO),
        next("https://api.github.com/repositories/724712/issues?labels=I-ice&state=open&page=2")
    );
}

#[test]
fn next_entry_is_found_behind_others() {
    let header = "<https://x/1>; rel=\"prev\", <https://x/3>; rel=\"next\", <https://x/9>; rel=\"last\"";
    assert_eq!(scan_link_header(header), next("https://x/3"));
}

#[test]
fn header_without_next_entry_gives_nothing() {
    let header = "<https://x/1>; rel=\"prev\", <https://x/1>; rel=\"first\"";
    assert_eq!(scan_link_header(header), LinkScan::NoNext);
    assert_eq!(scan_link_header("<a>; rel=\"last\""), LinkScan::NoNext);
}

#[test]
fn first_of_two_next_entries_is_taken() {
    let header = "<https://x/a>; rel=\"next\", <https://x/b>; rel=\"next\"";
    assert_eq!(scan_link_header(header), next("https://x/a"));
}

#[test]
fn white_space_around_the_parts_is_dropped() {
    let header = "  <https://x/2> ;   rel=\"next\"  ";
    assert_eq!(scan_link_header(header), next("https://x/2"));
    let spread = "<https://x/1>;rel=\"prev\"  ,\t<https://x/2>\t;\trel=\"next\"";
    assert_eq!(scan_link_header(spread), next("https://x/2"));
}

#[test]
fn white_space_inside_the_brackets_is_kept() {
    assert_eq!(scan_link_header("< https://x/2 >; rel=\"next\""), next(" https://x/2 "));
    assert_eq!(scan_link_header("<https://x/2>; rel=\" next \""), LinkScan::NoNext);
}

#[test]
fn parts_after_the_second_are_not_looked_at() {
    let header = "<https://x/2>; rel=\"next\"; title=\"two\"; anything";
    assert_eq!(scan_link_header(header), next("https://x/2"));
}

#[test]
fn empty_address_is_an_address() {
    assert_eq!(scan_link_header("<>; rel=\"next\""), next(""));
}

#[test]
fn empty_relation_name_is_not_next() {
    assert_eq!(scan_link_header("<https://x/2>; rel=\"\""), LinkScan::NoNext);
}

#[test]
fn relation_name_is_matched_exactly() {
    assert_eq!(scan_link_header("<https://x/2>; rel=\"Next\""), LinkScan::NoNext);
    assert_eq!(scan_link_header("<https://x/2>; rel=\"next prev\""), LinkScan::NoNext);
}

#[test]
fn entries_behind_the_next_entry_are_not_read() {
    let header = "<https://x/2>; rel=\"next\", this is no entry";
    assert_eq!(scan_link_header(header), next("https://x/2"));
}

#[test]
fn malformed_entry_before_the_next_entry_is_reported() {
    let header = "this is no entry, <https://x/2>; rel=\"next\"";
    assert_eq!(scan_link_header(header), LinkScan::Malformed);
}

#[test]
fn malformed_entries_of_every_kind() {
    let cases = [
        "",
        "<https://x/2>",
        "https://x/2; rel=\"next\"",
        "<https://x/2; rel=\"next\"",
        "<; rel=\"next\"",
        ">; rel=\"next\"",
        "<https://x/2>; rel=next",
        "<https://x/2>; rel=\"next",
        "<https://x/2>; rel=\"",
        "<https://x/2>; REL=\"next\"",
        "<https://x/2>; ; rel=\"next\"",
        "<https://x/1>; rel=\"prev\",",
        "<https://x/1,2>; rel=\"next\"",
    ];
    for header in cases {
        assert_eq!(scan_link_header(header), LinkScan::Malformed, "{header:?}");
    }
}

#[test]
fn address_may_hold_any_character() {
    assert_eq!(scan_link_header("<https://x/ü?q=→>; rel=\"next\""), next("https://x/ü?q=→"));
}
