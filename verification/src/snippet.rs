//! The reproducer of a report: the first fenced code block of its text that
//! is tagged `rust`, without the white space around it.

use vstd::prelude::*;
use crate::text::{chars_of, string_of, string_views, trim, trimmed};

verus! {

/// A bug report as the tracker serves it.
#[derive(Clone, Debug, PartialEq, Eq)]
pub struct Issue {
    pub html_url: String,
    pub body: String,
}

/// Why the code blocks of a report could not be read.
#[derive(Clone, Copy, Debug, PartialEq, Eq, Structural)]
pub enum SnippetError {
    /// The pattern for code blocks was not accepted as a regular expression.
    Pattern,
    /// A code block was found in which the group that holds the code took no
    /// part.
    Group,
}

/// A fence tagged `rust`, code without a backtick in it, and a closing
/// fence.
pub open spec fn codeblock_pattern() -> Seq<char> {
    "```rust(?P<snippet>[^`]+)```"@
}

/// The group of [`codeblock_pattern`] that holds the code.
pub open spec fn snippet_group() -> Seq<char> {
    "snippet"@
}

/// For each match of `pattern` in `haystack`, from the left and without
/// overlap, the text that the group named `group` matched, if the pattern
/// has such a group and it took part in the match; nothing at all where
/// `pattern` is not accepted as a regular expression.
///
/// Trusted: this names what the `regex` crate finds; see [`captures_of`].
pub uninterp spec fn regex_captures(
    pattern: Seq<char>,
    group: Seq<char>,
    haystack: Seq<char>,
) -> Option<Seq<Option<Seq<char>>>>;

/// Trusted: `regex::Error`, the error of `Regex::new`, as a value of which
/// nothing is known.
#[verifier::external_type_specification]
#[verifier::external_body]
pub struct ExRegexError(regex::Error);

/// The views of a list of strings of which some may be missing.
pub open spec fn group_views(groups: Seq<Option<String>>) -> Seq<Option<Seq<char>>> {
    Seq::new(
        groups.len(),
        |i: int|
            match groups[i] {
                Some(s) => Some(s@),
                None => None,
            },
    )
}

/// Trusted: `regex::Regex::new` on `pattern`, then `Regex::captures_iter` on
/// `haystack`, and of each match `Captures::name` for `group`. What comes
/// back depends on the three texts alone, and [`regex_captures`] is its name;
/// the error is that of `Regex::new`.
#[verifier::external_body]
fn captures_of(pattern: &str, group: &str, haystack: &str) -> (found: Result<
    Vec<Option<String>>,
    regex::Error,
>)
    ensures
        match found {
            Ok(groups) => regex_captures(pattern@, group@, haystack@) == Some(group_views(groups@)),
            Err(_) => regex_captures(pattern@, group@, haystack@) is None,
        },
{
    let re = regex::Regex::new(pattern)?;
    Ok(re.captures_iter(haystack).map(|c| c.name(group).map(|m| m.as_str().to_owned())).collect())
}

/// The snippets for the groups of all matches: each group's text without the
/// white space around it, in the order of the matches. There are none as
/// soon as one group is missing.
pub open spec fn snippets_of(groups: Seq<Option<Seq<char>>>) -> Option<Seq<Seq<char>>> {
    if forall|i: int| 0 <= i < groups.len() ==> (#[trigger] groups[i]) is Some {
        Some(Seq::new(groups.len(), |i: int| trimmed(groups[i]->0)))
    } else {
        None
    }
}

/// The reproducer for the groups of all matches: the first snippet. The
/// groups after the first are not looked at.
pub open spec fn reproducer_of(groups: Seq<Option<Seq<char>>>) -> Result<
    Option<Seq<char>>,
    SnippetError,
> {
    if groups.len() == 0 {
        Ok(None)
    } else {
        match groups[0] {
            Some(code) => Ok(Some(trimmed(code))),
            None => Err(SnippetError::Group),
        }
    }
}

/// The code blocks of `body` that are tagged `rust`, in the order in which
/// they stand in it.
pub open spec fn mcves_of(body: Seq<char>) -> Result<Seq<Seq<char>>, SnippetError> {
    match regex_captures(codeblock_pattern(), snippet_group(), body) {
        None => Err(SnippetError::Pattern),
        Some(groups) => match snippets_of(groups) {
            None => Err(SnippetError::Group),
            Some(snippets) => Ok(snippets),
        },
    }
}

/// The reproducer in `body`: its first code block tagged `rust`, none where
/// it has no such block.
pub open spec fn reproducer_in(body: Seq<char>) -> Result<Option<Seq<char>>, SnippetError> {
    match regex_captures(codeblock_pattern(), snippet_group(), body) {
        None => Err(SnippetError::Pattern),
        Some(groups) => reproducer_of(groups),
    }
}

/// For each match of `pattern` in `haystack`, what its group named `group`
/// matched.
pub fn named_groups(pattern: &str, group: &str, haystack: &str) -> (found: Result<
    Vec<Option<String>>,
    SnippetError,
>)
    ensures
        match found {
            Ok(groups) => regex_captures(pattern@, group@, haystack@) == Some(group_views(groups@)),
            Err(e) => e == SnippetError::Pattern && regex_captures(pattern@, group@, haystack@) is None,
        },
{
    match captures_of(pattern, group, haystack) {
        Ok(groups) => Ok(groups),
        Err(_) => Err(SnippetError::Pattern),
    }
}

/// `text` without the white space around it.
pub fn trimmed_text(text: &str) -> (snippet: String)
    ensures
        snippet@ == trimmed(text@),
{
    let inner = trim(&chars_of(text));
    assert(inner@.subrange(0, inner.len() as int) =~= inner@);
    string_of(&inner, 0, inner.len())
}

/// The snippets for the groups of all matches, none as soon as one group is
/// missing.
pub fn snippets(groups: &Vec<Option<String>>) -> (found: Option<Vec<String>>)
    ensures
        match found {
            Some(list) => snippets_of(group_views(groups@)) == Some(string_views(list@)),
            None => snippets_of(group_views(groups@)) is None,
        },
{
    let mut list: Vec<String> = Vec::new();
    let mut i: usize = 0;
    while i < groups.len()
        invariant
            i <= groups.len(),
            list.len() == i,
            forall|k: int| 0 <= k < i ==> (#[trigger] group_views(groups@)[k]) is Some,
            forall|k: int|
                0 <= k < i ==> (#[trigger] list@[k])@ == trimmed(group_views(groups@)[k]->0),
        decreases groups.len() - i,
    {
        match &groups[i] {
            Some(code) => {
                list.push(trimmed_text(code.as_str()));
            },
            None => {
                assert(group_views(groups@)[i as int] is None);
                return None;
            },
        }
        i += 1;
    }
    assert(snippets_of(group_views(groups@))->0 =~= string_views(list@));
    Some(list)
}

/// The reproducer for the groups of all matches: the first snippet.
pub fn first_snippet(groups: &Vec<Option<String>>) -> (found: Result<Option<String>, SnippetError>)
    ensures
        match found {
            Ok(Some(code)) => reproducer_of(group_views(groups@)) == Ok::<
                Option<Seq<char>>,
                SnippetError,
            >(Some(code@)),
            Ok(None) => reproducer_of(group_views(groups@)) == Ok::<Option<Seq<char>>, SnippetError>(
                None,
            ),
            Err(e) => reproducer_of(group_views(groups@)) == Err::<Option<Seq<char>>, SnippetError>(e),
        },
{
    if groups.len() == 0 {
        return Ok(None);
    }
    match &groups[0] {
        Some(code) => Ok(Some(trimmed_text(code.as_str()))),
        None => Err(SnippetError::Group),
    }
}

/// The code blocks of the report that are tagged `rust`, each without the
/// white space around it, in the order in which they stand in the text.
pub fn get_mcves(issue: &Issue) -> (found: Result<Vec<String>, SnippetError>)
    ensures
        match found {
            Ok(list) => mcves_of(issue.body@) == Ok::<Seq<Seq<char>>, SnippetError>(
                string_views(list@),
            ),
            Err(e) => mcves_of(issue.body@) == Err::<Seq<Seq<char>>, SnippetError>(e),
        },
{
    match named_groups("```rust(?P<snippet>[^`]+)```", "snippet", issue.body.as_str()) {
        Err(e) => Err(e),
        Ok(groups) => match snippets(&groups) {
            Some(list) => Ok(list),
            None => Err(SnippetError::Group),
        },
    }
}

/// The reproducer of the report: its first code block tagged `rust`, without
/// the white space around it; none where the text has no such block.
pub fn reproducer(issue: &Issue) -> (found: Result<Option<String>, SnippetError>)
    ensures
        match found {
            Ok(Some(code)) => reproducer_in(issue.body@) == Ok::<Option<Seq<char>>, SnippetError>(
                Some(code@),
            ),
            Ok(None) => reproducer_in(issue.body@) == Ok::<Option<Seq<char>>, SnippetError>(None),
            Err(e) => reproducer_in(issue.body@) == Err::<Option<Seq<char>>, SnippetError>(e),
        },
{
    match named_groups("```rust(?P<snippet>[^`]+)```", "snippet", issue.body.as_str()) {
        Err(e) => Err(e),
        Ok(groups) => first_snippet(&groups),
    }
}

} // verus!
