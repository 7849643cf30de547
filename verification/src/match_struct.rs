//! The outcome of one match attempt at a fixed offset: either no
//! match, or a half-open span `[start, end)` of consumed characters.

use vstd::prelude::*;

verus! {

/// A half-open span: `start` is the offset the attempt was made at,
/// `end` the offset of the first unconsumed character.
#[derive(Debug, Eq, PartialEq, Clone, Copy, Structural)]
pub struct MatchIndices {
    /// Start index of the match (inclusive).
    pub start: usize,
    /// End index of the match (exclusive).
    pub end: usize,
}

/// The result of attempting to recognize a pattern at a fixed offset.
#[derive(Debug, Eq, PartialEq, Clone, Copy, Structural)]
pub enum Match {
    /// The pattern was recognized over the recorded span.
    Matched(MatchIndices),
    /// The pattern was not recognized; an ordinary outcome, not an
    /// error.
    NoMatch,
}

impl Match {
    /// The match spanning `[start, end)`.
    pub fn at(start: usize, end: usize) -> (r: Match)
        ensures
            r == Match::Matched(MatchIndices { start, end }),
    {
        Match::Matched(MatchIndices { start, end })
    }

    /// Whether this outcome is a match.
    pub fn is_match(&self) -> (b: bool)
        ensures
            b == (*self is Matched),
    {
        match self {
            Match::Matched(_) => true,
            Match::NoMatch => false,
        }
    }

    /// If there is a match, call `f` on its span to produce a new
    /// outcome; otherwise stay `NoMatch`.
    pub fn and_then<F: FnOnce(&MatchIndices) -> Match>(&self, f: F) -> (r: Match)
        requires
            self matches Match::Matched(indices) ==> call_requires(f, (&indices,)),
        ensures
            *self is NoMatch ==> r == Match::NoMatch,
            self matches Match::Matched(indices) ==> call_ensures(f, (&indices,), r),
    {
        match self {
            Match::NoMatch => Match::NoMatch,
            Match::Matched(indices) => f(indices),
        }
    }

    /// This outcome if it is a match, or else `default`.
    pub fn match_or(self, default: Match) -> (r: Match)
        ensures
            self is NoMatch ==> r == default,
            self is Matched ==> r == self,
    {
        match self {
            Match::NoMatch => default,
            _ => self,
        }
    }
}

impl Default for Match {
    /// The default outcome is no match.
    fn default() -> (r: Self)
        ensures
            r == Match::NoMatch,
    {
        Match::NoMatch
    }
}

/// Combine two sequential matches: the second attempt saw the text
/// starting where the first one stopped, so its end offset is
/// relative and is added to the first one's end, never substituted.
pub fn combine_match(first_match: &MatchIndices, second_match: &MatchIndices) -> (r: Match)
    requires
        first_match.end + second_match.end <= usize::MAX,
    ensures
        r == Match::Matched(
            MatchIndices {
                start: first_match.start,
                end: (first_match.end + second_match.end) as usize,
            },
        ),
{
    Match::at(first_match.start, first_match.end + second_match.end)
}

} // verus!
