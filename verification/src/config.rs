//! The toolchain list: fixed at startup, read-only afterwards.

use vstd::prelude::*;
use vstd::string::StringExecFns;
use crate::text::string_views;

verus! {

/// The channel that every toolchain identifier is taken from.
pub open spec fn channel_prefix() -> Seq<char> {
    "nightly-"@
}

/// The full name of the toolchain with the given identifier.
pub open spec fn toolchain_name_of(identifier: Seq<char>) -> Seq<char> {
    channel_prefix() + identifier
}

/// The full name of the toolchain with the given identifier: the channel tag
/// in front of it.
pub fn toolchain_name(identifier: &str) -> (name: String)
    ensures
        name@ == toolchain_name_of(identifier@),
{
    let mut name = "nightly-".to_owned();
    name.append(identifier);
    name
}

/// The toolchain list for the identifiers given at startup, in their order.
pub fn toolchain_names(identifiers: &Vec<String>) -> (names: Vec<String>)
    ensures
        string_views(names@) == Seq::new(
            identifiers@.len(),
            |i: int| toolchain_name_of(identifiers@[i]@),
        ),
{
    let mut names: Vec<String> = Vec::new();
    let mut i: usize = 0;
    while i < identifiers.len()
        invariant
            i <= identifiers.len(),
            names.len() == i,
            forall|k: int| 0 <= k < i ==> (#[trigger] names@[k])@ == toolchain_name_of(identifiers@[k]@),
        decreases identifiers.len() - i,
    {
        names.push(toolchain_name(identifiers[i].as_str()));
        i += 1;
    }
    assert(string_views(names@) =~= Seq::new(
        identifiers@.len(),
        |i: int| toolchain_name_of(identifiers@[i]@),
    ));
    names
}

} // verus!
