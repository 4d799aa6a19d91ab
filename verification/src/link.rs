//! The `Link` header of a paginated response: a comma-separated list of
//! entries `<url>; rel="name"`, of which the one named `next` leads on.
//!
//! Entries are read from the left, and reading stops at the first entry named
//! `next`: what follows it is never looked at, so only the entries up to
//! there have to be well formed.

use vstd::prelude::*;
use crate::text::{
    chars_of,
    matches_at,
    split,
    split_on,
    starts_with,
    string_of,
    trim,
    trimmed,
    views,
};

verus! {

/// What reading a `Link` header gives.
#[derive(Clone, Debug, PartialEq, Eq)]
pub enum LinkScan {
    /// The address of the next page.
    Next(String),
    /// Every entry is well formed and none is named `next`.
    NoNext,
    /// An entry before any entry named `next` is not of the form
    /// `<url>; rel="name"`.
    Malformed,
}

/// [`LinkScan`] over sequences of characters.
pub enum LinkScanView {
    Next(Seq<char>),
    NoNext,
    Malformed,
}

impl View for LinkScan {
    type V = LinkScanView;

    open spec fn view(&self) -> LinkScanView {
        match self {
            LinkScan::Next(url) => LinkScanView::Next(url@),
            LinkScan::NoNext => LinkScanView::NoNext,
            LinkScan::Malformed => LinkScanView::Malformed,
        }
    }
}

/// What stands in `s` between `opening` and a final `closing`, if `s` has
/// that form.
pub open spec fn enclosed(s: Seq<char>, opening: Seq<char>, closing: char) -> Option<Seq<char>> {
    if s.len() > opening.len() && s.take(opening.len() as int) == opening && s.last() == closing {
        Some(s.subrange(opening.len() as int, s.len() - 1))
    } else {
        None
    }
}

/// The relation name and the address of one entry, if it is well formed: at
/// least two parts separated by `;`, the first `<url>` and the second
/// `rel="name"`, each with white space around it allowed. Further parts are
/// not looked at.
pub open spec fn parse_entry(entry: Seq<char>) -> Option<(Seq<char>, Seq<char>)> {
    let parts = split_on(entry, ';');
    if parts.len() < 2 {
        None
    } else {
        match (enclosed(trimmed(parts[0]), "<"@, '>'), enclosed(trimmed(parts[1]), "rel=\""@, '"')) {
            (Some(url), Some(rel)) => Some((rel, url)),
            _ => None,
        }
    }
}

/// Reads entries from the left up to the first one named `next`.
pub open spec fn scan_entries(entries: Seq<Seq<char>>) -> LinkScanView
    decreases entries.len(),
{
    if entries.len() == 0 {
        LinkScanView::NoNext
    } else {
        match parse_entry(trimmed(entries.first())) {
            None => LinkScanView::Malformed,
            Some((rel, url)) => if rel == "next"@ {
                LinkScanView::Next(url)
            } else {
                scan_entries(entries.drop_first())
            },
        }
    }
}

/// What reading the header value `value` gives.
pub open spec fn link_scan(value: Seq<char>) -> LinkScanView {
    scan_entries(split_on(value, ','))
}

/// An address, if there is one, as a sequence of characters.
pub open spec fn address_text(url: Option<String>) -> Option<Seq<char>> {
    match url {
        Some(u) => Some(u@),
        None => None,
    }
}

/// The header can be read: it is absent, or no malformed entry stands before
/// its first entry named `next`.
pub open spec fn link_is_well_formed(link: Option<Seq<char>>) -> bool {
    link matches Some(value) ==> !(link_scan(value) is Malformed)
}

/// The address of the next page according to the header: that of the first
/// entry named `next`, none without a header or without such an entry.
pub open spec fn next_link(link: Option<Seq<char>>) -> Option<Seq<char>> {
    match link {
        Some(value) => match link_scan(value) {
            LinkScanView::Next(url) => Some(url),
            _ => None,
        },
        None => None,
    }
}

/// Whether two vectors hold the same characters.
fn same_chars(a: &Vec<char>, b: &Vec<char>) -> (same: bool)
    ensures
        same == (a@ == b@),
{
    if a.len() != b.len() {
        return false;
    }
    let same = matches_at(a, b, 0);
    assert(a@.subrange(0, 0 + b.len()) =~= a@);
    same
}

/// What stands in `v` between `opening` and a final `closing`.
fn enclosed_part(v: &Vec<char>, opening: &Vec<char>, closing: char) -> (inner: Option<Vec<char>>)
    ensures
        match inner {
            Some(part) => enclosed(v@, opening@, closing) == Some(part@),
            None => enclosed(v@, opening@, closing) is None,
        },
{
    if v.len() > opening.len() && starts_with(v, opening) && v[v.len() - 1] == closing {
        let mut part: Vec<char> = Vec::new();
        let mut i: usize = opening.len();
        while i < v.len() - 1
            invariant
                opening.len() <= i <= v.len() - 1,
                part@ == v@.subrange(opening.len() as int, i as int),
            decreases v.len() - i,
        {
            part.push(v[i]);
            i += 1;
        }
        Some(part)
    } else {
        None
    }
}

/// The relation name and the address of one entry.
fn read_entry(entry: &Vec<char>) -> (parsed: Option<(Vec<char>, Vec<char>)>)
    ensures
        match parsed {
            Some((rel, url)) => parse_entry(entry@) == Some((rel@, url@)),
            None => parse_entry(entry@) is None,
        },
{
    let parts = split(entry, ';');
    assert(views(parts@).len() == parts.len());
    if parts.len() < 2 {
        return None;
    }
    assert(views(parts@)[0] == parts@[0]@);
    assert(views(parts@)[1] == parts@[1]@);
    let url_part = trim(&parts[0]);
    let rel_part = trim(&parts[1]);
    let url = enclosed_part(&url_part, &chars_of("<"), '>');
    let rel = enclosed_part(&rel_part, &chars_of("rel=\""), '"');
    match (url, rel) {
        (Some(url), Some(rel)) => Some((rel, url)),
        _ => None,
    }
}

/// Reads a `Link` header value.
pub fn scan_link_header(value: &str) -> (scan: LinkScan)
    ensures
        scan@ == link_scan(value@),
{
    let chars = chars_of(value);
    let entries = split(&chars, ',');
    let next = chars_of("next");
    let mut i: usize = 0;
    assert(views(entries@).skip(0) =~= views(entries@));
    while i < entries.len()
        invariant
            i <= entries.len(),
            views(entries@) == split_on(value@, ','),
            next@ == "next"@,
            link_scan(value@) == scan_entries(views(entries@).skip(i as int)),
        decreases entries.len() - i,
    {
        proof {
            let rest = views(entries@).skip(i as int);
            assert(rest.first() == entries@[i as int]@);
            assert(rest.drop_first() =~= views(entries@).skip(i + 1));
        }
        let entry = trim(&entries[i]);
        match read_entry(&entry) {
            None => {
                return LinkScan::Malformed;
            },
            Some((rel, url)) => {
                if same_chars(&rel, &next) {
                    assert(url@.subrange(0, url.len() as int) =~= url@);
                    return LinkScan::Next(string_of(&url, 0, url.len()));
                }
            },
        }
        i += 1;
    }
    LinkScan::NoNext
}

} // verus!
