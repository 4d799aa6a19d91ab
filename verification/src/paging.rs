//! Walking the pages of the tracker's listing: where to ask next, and when
//! to stop.
//!
//! The caller fetches; [`Pager`] holds the address to ask for and follows the
//! `Link` header of each response until a response names no next page.

use vstd::prelude::*;
use crate::link::{address_text, link_is_well_formed, next_link, scan_link_header, LinkScan};
use crate::snippet::Issue;

verus! {

/// One response of the tracker: the value of its `Link` header, if it has
/// one that is text, and the reports it lists.
#[derive(Clone, Debug, PartialEq, Eq)]
pub struct Page {
    pub link: Option<String>,
    pub issues: Vec<Issue>,
}

/// The open reports that are labelled as internal compiler errors.
pub open spec fn first_page_address() -> Seq<char> {
    "https://api.github.com/repos/rust-lang/rust/issues?labels=I-ice&state=open"@
}

impl Page {
    /// The `Link` header as a sequence of characters.
    pub open spec fn link_text(&self) -> Option<Seq<char>> {
        match self.link {
            Some(value) => Some(value@),
            None => None,
        }
    }

    /// The address of the page after this one, if the response names one.
    pub open spec fn next_address(&self) -> Option<Seq<char>> {
        next_link(self.link_text())
    }

    /// Whether the `Link` header of this response can be read: it is
    /// absent, or no malformed entry stands before its first entry named
    /// `next`.
    pub fn link_readable(&self) -> (readable: bool)
        ensures
            readable == link_is_well_formed(self.link_text()),
    {
        match &self.link {
            Some(value) => match scan_link_header(value.as_str()) {
                LinkScan::Malformed => false,
                _ => true,
            },
            None => true,
        }
    }
}

/// The address of the page after `response`, from its `Link` header: that of
/// the first entry named `next`. There is none where the header is absent or
/// holds no such entry.
pub fn get_next_link(response: &Page) -> (url: Option<String>)
    requires
        link_is_well_formed(response.link_text()),
    ensures
        address_text(url) == response.next_address(),
{
    match &response.link {
        Some(value) => match scan_link_header(value.as_str()) {
            LinkScan::Next(url) => Some(url),
            _ => None,
        },
        None => None,
    }
}

/// The walk through the listing: the address to ask for next, if any.
pub struct Pager {
    next_url: Option<String>,
}

impl Pager {
    /// The address to ask for next; none once the listing is exhausted.
    pub closed spec fn pending(&self) -> Option<Seq<char>> {
        address_text(self.next_url)
    }

    /// A walk that begins at the first page of the listing.
    pub fn new() -> (pager: Pager)
        ensures
            pager.pending() == Some(first_page_address()),
    {
        Pager {
            next_url: Some(
                "https://api.github.com/repos/rust-lang/rust/issues?labels=I-ice&state=open".to_owned(),
            ),
        }
    }

    /// The address to fetch now; none once the listing is exhausted.
    pub fn next_request(&self) -> (url: Option<String>)
        ensures
            address_text(url) == self.pending(),
    {
        self.next_url.clone()
    }

    /// Takes the response to the last request: hands its reports on, in
    /// their order, and moves to the page that the response names as next.
    pub fn receive(&mut self, page: Page) -> (issues: Vec<Issue>)
        requires
            link_is_well_formed(page.link_text()),
        ensures
            issues == page.issues,
            final(self).pending() == page.next_address(),
    {
        self.next_url = get_next_link(&page);
        page.issues
    }

    /// Takes the response to the last request if its `Link` header can be
    /// read, as [`Pager::receive`] does. A response whose header cannot be
    /// read is handed back as it came, and the walk stays where it is.
    pub fn try_receive(&mut self, page: Page) -> (taken: Result<Vec<Issue>, Page>)
        ensures
            match taken {
                Ok(issues) => {
                    &&& link_is_well_formed(page.link_text())
                    &&& issues == page.issues
                    &&& final(self).pending() == page.next_address()
                },
                Err(back) => {
                    &&& !link_is_well_formed(page.link_text())
                    &&& back == page
                    &&& final(self).pending() == old(self).pending()
                },
            },
    {
        if page.link_readable() {
            Ok(self.receive(page))
        } else {
            Err(page)
        }
    }
}

/// What a walk fetches and yields.
pub struct Walk {
    /// The addresses asked for, in order.
    pub requests: Seq<Seq<char>>,
    /// The reports handed on, in order.
    pub issues: Seq<Issue>,
}

/// The walk of a pager with `pending` to ask for, against a source that
/// answers with `responses` in turn: ask, receive, follow the response, until
/// nothing is pending or the source has no more answers.
pub open spec fn walk(pending: Option<Seq<char>>, responses: Seq<Page>) -> Walk
    decreases responses.len(),
{
    match pending {
        Some(url) if responses.len() > 0 => {
            let rest = walk(responses.first().next_address(), responses.drop_first());
            Walk {
                requests: seq![url] + rest.requests,
                issues: responses.first().issues@ + rest.issues,
            }
        },
        _ => Walk { requests: Seq::empty(), issues: Seq::empty() },
    }
}

/// The reports of all pages, page after page.
pub open spec fn all_issues(pages: Seq<Page>) -> Seq<Issue>
    decreases pages.len(),
{
    if pages.len() == 0 {
        Seq::empty()
    } else {
        pages.first().issues@ + all_issues(pages.drop_first())
    }
}

/// The pages form a chain: each but the last names a next page, and the last
/// can be read and names none.
pub open spec fn is_chain(pages: Seq<Page>) -> bool {
    &&& pages.len() > 0
    &&& forall|i: int| 0 <= i < pages.len() - 1 ==> (#[trigger] pages[i]).next_address() is Some
    &&& link_is_well_formed(pages.last().link_text())
    &&& pages.last().next_address() is None
}

/// Against a source of `k` pages of which only the last names no next page,
/// a walk makes exactly `k` requests, every response on the way can be read,
/// and the walk yields the reports of all pages in the order of the pages.
/// The source may hold more answers after the chain: they are never asked
/// for.
pub proof fn lemma_walk_covers_chain(start: Seq<char>, pages: Seq<Page>, beyond: Seq<Page>)
    requires
        is_chain(pages),
    ensures
        forall|i: int| 0 <= i < pages.len() ==> link_is_well_formed((#[trigger] pages[i]).link_text()),
        walk(Some(start), pages + beyond).requests.len() == pages.len(),
        walk(Some(start), pages + beyond).requests[0] == start,
        forall|i: int|
            0 < i < pages.len() ==> Some(#[trigger] walk(Some(start), pages + beyond).requests[i])
                == pages[i - 1].next_address(),
        walk(Some(start), pages + beyond).issues == all_issues(pages),
    decreases pages.len(),
{
    let source = pages + beyond;
    assert(source.first() == pages.first());
    if pages.len() == 1 {
        assert(pages.last() == pages.first());
        assert(all_issues(pages.drop_first()) == Seq::<Issue>::empty());
        let stop = walk(pages.first().next_address(), source.drop_first());
        assert(stop.requests == Seq::<Seq<char>>::empty() && stop.issues == Seq::<Issue>::empty());
        assert(walk(Some(start), source).issues =~= all_issues(pages));
        assert(walk(Some(start), source).requests =~= seq![start]);
    } else {
        let rest = pages.drop_first();
        assert(source.drop_first() =~= rest + beyond);
        assert(rest.last() == pages.last());
        assert forall|i: int| 0 <= i < rest.len() - 1 implies (#[trigger] rest[i]).next_address() is Some by {
            assert(rest[i] == pages[i + 1]);
        }
        let next = pages.first().next_address()->0;
        assert(pages[0].next_address() is Some);
        lemma_walk_covers_chain(next, rest, beyond);
        let tail = walk(Some(next), rest + beyond);
        assert(walk(Some(start), source).requests =~= seq![start] + tail.requests);
        assert(walk(Some(start), source).issues =~= pages.first().issues@ + tail.issues);
        assert forall|i: int| 0 < i < pages.len() implies Some(
            #[trigger] walk(Some(start), source).requests[i],
        ) == pages[i - 1].next_address() by {
            if i == 1 {
                assert(walk(Some(start), source).requests[1] == tail.requests[0]);
            } else {
                assert(walk(Some(start), source).requests[i] == tail.requests[i - 1]);
                assert(rest[i - 2] == pages[i - 1]);
            }
        }
    }
}

} // verus!
