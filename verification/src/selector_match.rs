//! The verdict an adapter gives on a selector.
use vstd::prelude::*;

verus! {

/// The type of match that was made for a given selector.
#[derive(Debug, PartialEq, Eq, Clone, Copy, Structural)]
pub enum SelectorMatch {
    /// The selector matches, and no further adapters should be checked.
    Exclusive,
    /// The selector matches, but other adapters should be checked.
    Shared,
    /// The selector does not match.
    NoMatch,
}

/// Returns [`SelectorMatch::Exclusive`], or [`SelectorMatch::NoMatch`],
/// depending on the bool.
pub fn exclusive_or_none(test: bool) -> (r: SelectorMatch)
    ensures
        test ==> r == SelectorMatch::Exclusive,
        !test ==> r == SelectorMatch::NoMatch,
{
    if test {
        SelectorMatch::Exclusive
    } else {
        SelectorMatch::NoMatch
    }
}

/// Returns [`SelectorMatch::Shared`], or [`SelectorMatch::NoMatch`], depending
/// on the bool.
pub fn shared_or_none(test: bool) -> (r: SelectorMatch)
    ensures
        test ==> r == SelectorMatch::Shared,
        !test ==> r == SelectorMatch::NoMatch,
{
    if test {
        SelectorMatch::Shared
    } else {
        SelectorMatch::NoMatch
    }
}

} // verus!
