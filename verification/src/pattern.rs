//! The pattern engine: a closed tree of matching primitives and the
//! algorithm that tries them against a character sequence.
//!
//! Every node recognizes text starting at a fixed offset and reports
//! how many characters it consumed.  Concatenation is the
//! `Sequence` node; when its first operand is a greedy quantifier or
//! an alternation, recognition backtracks: the quantifier gives up
//! repetitions one at a time, and the alternation retries its second
//! branch, until the rest of the sequence can match.
//!
//! The two anchor nodes are not chainable: they may only stand at
//! the outermost position of a compiled pattern, `StartAnchor`
//! pinning the match to offset zero and `EndAnchor` requiring it to
//! consume the whole text.

use vstd::prelude::*;

use crate::character_class::CharacterClass;
use crate::character_class::char_in_class;
use crate::match_struct::Match;

verus! {

/// One node of a compiled pattern.
#[derive(Debug)]
pub enum Pattern {
    /// Zero-width match at any offset; compiled from the empty
    /// pattern and closing every concatenation chain.
    AlwaysMatch,
    /// Matches exactly one given Unicode scalar.
    Literal(char),
    /// Matches one character satisfying a character class.
    ClassMatch(CharacterClass),
    /// Matches any one character; fails only at the end of input.
    Wildcard,
    /// Concatenation: the first operand must match, then the second
    /// must match the remainder.
    Sequence(Box<Pattern>, Box<Pattern>),
    /// Matches the first operand, or, if it (or its continuation)
    /// fails, the second.
    Alternation(Box<Pattern>, Box<Pattern>),
    /// One or more consecutive matches of the operand, greedy, with
    /// backtracking when chained.
    OneOrMore(Box<Pattern>),
    /// Zero or one match of the operand, greedy, with backtracking
    /// when chained.
    ZeroOrOne(Box<Pattern>),
    /// Constrains the operand to begin at offset zero.
    StartAnchor(Box<Pattern>),
    /// Constrains the operand to end at the text's length.
    EndAnchor(Box<Pattern>),
}

/// The offset reached by attempting `pattern` at the start of
/// `text`: `Some(end)` when the pattern is recognized after
/// consuming exactly `end` characters, `None` when it is not.
///
/// This is the meaning of each node, including the backtracking
/// discipline of a quantifier or alternation standing first in a
/// `Sequence`: the greedy run is retried one repetition shorter at a
/// time (the alternation retries its second branch) until the rest
/// of the sequence matches.  A repetition that consumes no
/// characters cannot make later repetitions see new text, so the
/// greedy run stops there.
pub open spec fn exact_end(pattern: Pattern, text: Seq<char>) -> Option<nat>
    decreases text.len(), pattern,
{
    match pattern {
        Pattern::AlwaysMatch => Some(0nat),
        Pattern::Literal(l) => if text.len() > 0 && text[0] == l {
            Some(1nat)
        } else {
            None
        },
        Pattern::ClassMatch(class) => if text.len() > 0 && char_in_class(class, text[0]) {
            Some(1nat)
        } else {
            None
        },
        Pattern::Wildcard => if text.len() > 0 {
            Some(1nat)
        } else {
            None
        },
        Pattern::Alternation(first, second) => if exact_end(*first, text) is Some {
            exact_end(*first, text)
        } else {
            exact_end(*second, text)
        },
        Pattern::OneOrMore(inner) => match exact_end(*inner, text) {
            None => None,
            Some(e1) => if e1 == 0 {
                Some(0nat)
            } else if e1 > text.len() {
                // unreachable: a match never consumes more than the text
                None
            } else {
                match exact_end(pattern, text.skip(e1 as int)) {
                    None => Some(e1),
                    Some(rest) => Some(e1 + rest),
                }
            },
        },
        Pattern::ZeroOrOne(inner) => match exact_end(*inner, text) {
            None => Some(0nat),
            Some(e1) => Some(e1),
        },
        Pattern::StartAnchor(inner) => exact_end(*inner, text),
        Pattern::EndAnchor(inner) => match exact_end(*inner, text) {
            None => None,
            Some(e1) => if e1 == text.len() {
                Some(e1)
            } else {
                None
            },
        },
        Pattern::Sequence(first, second) => match *first {
            Pattern::OneOrMore(inner) => match exact_end(*inner, text) {
                None => None,
                Some(e1) => if e1 > text.len() {
                    // unreachable: a match never consumes more than the text
                    None
                } else {
                    let continued = if e1 == 0 {
                        None
                    } else {
                        exact_end(pattern, text.skip(e1 as int))
                    };
                    match continued {
                        Some(rest) => Some(e1 + rest),
                        None => match exact_end(*second, text.skip(e1 as int)) {
                            None => None,
                            Some(rest) => Some(e1 + rest),
                        },
                    }
                },
            },
            Pattern::ZeroOrOne(inner) => match exact_end(*inner, text) {
                None => exact_end(*second, text),
                Some(e1) => if e1 > text.len() {
                    // unreachable: a match never consumes more than the text
                    None
                } else {
                    match exact_end(*second, text.skip(e1 as int)) {
                        Some(rest) => Some(e1 + rest),
                        None => exact_end(*second, text),
                    }
                },
            },
            Pattern::Alternation(opt1, opt2) => {
                let first_try = match exact_end(*opt1, text) {
                    None => None,
                    Some(e1) => if e1 > text.len() {
                        // unreachable: a match never consumes more than the text
                        None
                    } else {
                        match exact_end(*second, text.skip(e1 as int)) {
                            None => None,
                            Some(rest) => Some(e1 + rest),
                        }
                    },
                };
                match first_try {
                    Some(end) => Some(end),
                    None => match exact_end(*opt2, text) {
                        None => None,
                        Some(e1) => if e1 > text.len() {
                            // unreachable: a match never consumes more than the text
                            None
                        } else {
                            match exact_end(*second, text.skip(e1 as int)) {
                                None => None,
                                Some(rest) => Some(e1 + rest),
                            }
                        },
                    },
                }
            },
            _ => match exact_end(*first, text) {
                None => None,
                Some(e1) => if e1 > text.len() {
                    // unreachable: a match never consumes more than the text
                    None
                } else {
                    match exact_end(*second, text.skip(e1 as int)) {
                        None => None,
                        Some(rest) => Some(e1 + rest),
                    }
                },
            },
        },
    }
}

impl Pattern {
    /// Whether this pattern may be concatenated with another: every
    /// node but the two anchors, which must sit outermost.
    pub open spec fn is_chainable(self) -> bool
        decreases self,
    {
        match self {
            Pattern::AlwaysMatch => true,
            Pattern::Literal(_) => true,
            Pattern::ClassMatch(_) => true,
            Pattern::Wildcard => true,
            Pattern::Sequence(first, second) => first.is_chainable() && second.is_chainable(),
            Pattern::Alternation(first, second) => first.is_chainable() && second.is_chainable(),
            Pattern::OneOrMore(inner) => inner.is_chainable(),
            Pattern::ZeroOrOne(inner) => inner.is_chainable(),
            Pattern::StartAnchor(_) => false,
            Pattern::EndAnchor(_) => false,
        }
    }

    /// A compiled pattern is well formed when anchors stand only at
    /// its outermost positions: at most one start anchor, which may
    /// wrap a chainable pattern or an end anchor of one, and an end
    /// anchor only around a chainable pattern.
    pub open spec fn is_well_formed(self) -> bool {
        match self {
            Pattern::StartAnchor(inner) => match *inner {
                Pattern::EndAnchor(innermost) => innermost.is_chainable(),
                _ => inner.is_chainable(),
            },
            Pattern::EndAnchor(inner) => inner.is_chainable(),
            _ => self.is_chainable(),
        }
    }
}

/// Whether searching `text` for `pattern` succeeds: a start-anchored
/// pattern is attempted at offset zero only; any other pattern is
/// attempted at every offset from zero through the text's length
/// inclusive, so a zero-width pattern can still match at the very
/// end.
pub open spec fn spec_search(pattern: Pattern, text: Seq<char>) -> bool {
    if pattern is StartAnchor {
        exact_end(pattern, text) is Some
    } else {
        exists|i: int|
            0 <= i <= text.len() && exact_end(pattern, #[trigger] text.skip(i)) is Some
    }
}

impl Pattern {
    /// Attempt to recognize this pattern starting exactly at the
    /// first character of `chars`; never scans forward to find a
    /// later start.  On success the span starts at zero and ends at
    /// the offset of the first unconsumed character.
    pub fn matches_exact(&self, chars: &[char]) -> (m: Match)
        ensures
            m is Matched <==> exact_end(*self, chars@) is Some,
            m matches Match::Matched(indices) ==> indices.start == 0 && exact_end(*self, chars@)
                == Some(indices.end as nat),
        decreases chars@.len(), *self,
    {
        match self {
            Pattern::AlwaysMatch => Match::at(0, 0),
            Pattern::Literal(l) => {
                if chars.len() > 0 && chars[0] == *l {
                    Match::at(0, 1)
                } else {
                    Match::NoMatch
                }
            },
            Pattern::ClassMatch(class) => {
                if chars.len() > 0 && class.matches(chars[0]) {
                    Match::at(0, 1)
                } else {
                    Match::NoMatch
                }
            },
            Pattern::Wildcard => {
                if chars.len() > 0 {
                    Match::at(0, 1)
                } else {
                    Match::NoMatch
                }
            },
            Pattern::Alternation(first, second) => {
                let m1 = first.matches_exact(chars);
                if m1.is_match() {
                    m1
                } else {
                    second.matches_exact(chars)
                }
            },
            Pattern::OneOrMore(inner) => {
                let m1 = inner.matches_exact(chars);
                match m1 {
                    Match::NoMatch => Match::NoMatch,
                    Match::Matched(first_match) => {
                        if first_match.end == 0 {
                            Match::at(0, 0)
                        } else {
                            proof {
                                lemma_exact_end_bounded(**inner, chars@);
                            }
                            let rest = vstd::slice::slice_subrange(
                                chars,
                                first_match.end,
                                chars.len(),
                            );
                            let m2 = self.matches_exact(rest);
                            match m2 {
                                Match::NoMatch => Match::at(0, first_match.end),
                                Match::Matched(second_match) => {
                                    proof {
                                        lemma_exact_end_bounded(*self, rest@);
                                    }
                                    Match::at(0, first_match.end + second_match.end)
                                },
                            }
                        }
                    },
                }
            },
            Pattern::ZeroOrOne(inner) => {
                let m1 = inner.matches_exact(chars);
                match m1 {
                    Match::NoMatch => Match::at(0, 0),
                    Match::Matched(_) => m1,
                }
            },
            Pattern::StartAnchor(inner) => inner.matches_exact(chars),
            Pattern::EndAnchor(inner) => {
                let m1 = inner.matches_exact(chars);
                match m1 {
                    Match::NoMatch => Match::NoMatch,
                    Match::Matched(indices) => {
                        if indices.end == chars.len() {
                            m1
                        } else {
                            Match::NoMatch
                        }
                    },
                }
            },
            Pattern::Sequence(first, second) => match &**first {
                Pattern::OneOrMore(inner) => {
                    let m1 = inner.matches_exact(chars);
                    match m1 {
                        Match::NoMatch => Match::NoMatch,
                        Match::Matched(first_match) => {
                            proof {
                                lemma_exact_end_bounded(**inner, chars@);
                            }
                            let rest = vstd::slice::slice_subrange(
                                chars,
                                first_match.end,
                                chars.len(),
                            );
                            let continued = if first_match.end == 0 {
                                Match::NoMatch
                            } else {
                                self.matches_exact(rest)
                            };
                            match continued {
                                Match::Matched(second_match) => {
                                    proof {
                                        lemma_exact_end_bounded(*self, rest@);
                                    }
                                    Match::at(0, first_match.end + second_match.end)
                                },
                                Match::NoMatch => {
                                    let m2 = second.matches_exact(rest);
                                    match m2 {
                                        Match::NoMatch => Match::NoMatch,
                                        Match::Matched(second_match) => {
                                            proof {
                                                lemma_exact_end_bounded(**second, rest@);
                                            }
                                            Match::at(0, first_match.end + second_match.end)
                                        },
                                    }
                                },
                            }
                        },
                    }
                },
                Pattern::ZeroOrOne(inner) => {
                    let m1 = inner.matches_exact(chars);
                    match m1 {
                        Match::NoMatch => second.matches_exact(chars),
                        Match::Matched(first_match) => {
                            proof {
                                lemma_exact_end_bounded(**inner, chars@);
                            }
                            let rest = vstd::slice::slice_subrange(
                                chars,
                                first_match.end,
                                chars.len(),
                            );
                            let m2 = second.matches_exact(rest);
                            match m2 {
                                Match::Matched(second_match) => {
                                    proof {
                                        lemma_exact_end_bounded(**second, rest@);
                                    }
                                    Match::at(0, first_match.end + second_match.end)
                                },
                                Match::NoMatch => second.matches_exact(chars),
                            }
                        },
                    }
                },
                Pattern::Alternation(opt1, opt2) => {
                    let m1 = opt1.matches_exact(chars);
                    let first_try = match m1 {
                        Match::NoMatch => Match::NoMatch,
                        Match::Matched(first_match) => {
                            proof {
                                lemma_exact_end_bounded(**opt1, chars@);
                            }
                            let rest = vstd::slice::slice_subrange(
                                chars,
                                first_match.end,
                                chars.len(),
                            );
                            let m2 = second.matches_exact(rest);
                            match m2 {
                                Match::NoMatch => Match::NoMatch,
                                Match::Matched(second_match) => {
                                    proof {
                                        lemma_exact_end_bounded(**second, rest@);
                                    }
                                    Match::at(0, first_match.end + second_match.end)
                                },
                            }
                        },
                    };
                    match first_try {
                        Match::Matched(_) => first_try,
                        Match::NoMatch => {
                            let m1 = opt2.matches_exact(chars);
                            match m1 {
                                Match::NoMatch => Match::NoMatch,
                                Match::Matched(first_match) => {
                                    proof {
                                        lemma_exact_end_bounded(**opt2, chars@);
                                    }
                                    let rest = vstd::slice::slice_subrange(
                                        chars,
                                        first_match.end,
                                        chars.len(),
                                    );
                                    let m2 = second.matches_exact(rest);
                                    match m2 {
                                        Match::NoMatch => Match::NoMatch,
                                        Match::Matched(second_match) => {
                                            proof {
                                                lemma_exact_end_bounded(**second, rest@);
                                            }
                                            Match::at(0, first_match.end + second_match.end)
                                        },
                                    }
                                },
                            }
                        },
                    }
                },
                _ => {
                    let m1 = first.matches_exact(chars);
                    match m1 {
                        Match::NoMatch => Match::NoMatch,
                        Match::Matched(first_match) => {
                            proof {
                                lemma_exact_end_bounded(**first, chars@);
                            }
                            let rest = vstd::slice::slice_subrange(
                                chars,
                                first_match.end,
                                chars.len(),
                            );
                            let m2 = second.matches_exact(rest);
                            match m2 {
                                Match::NoMatch => Match::NoMatch,
                                Match::Matched(second_match) => {
                                    proof {
                                        lemma_exact_end_bounded(**second, rest@);
                                    }
                                    Match::at(0, first_match.end + second_match.end)
                                },
                            }
                        },
                    }
                },
            },
        }
    }
}

impl Pattern {
    /// Attempt to recognize this pattern starting exactly at the
    /// first character of `string`.
    pub fn matches_exact_str(&self, string: &str) -> (m: Match)
        ensures
            m is Matched <==> exact_end(*self, string@) is Some,
            m matches Match::Matched(indices) ==> indices.start == 0 && exact_end(*self, string@)
                == Some(indices.end as nat),
    {
        let chars = crate::parse::chars_of(string);
        self.matches_exact(chars.as_slice())
    }

    /// Whether this pattern matches anywhere in `string`: a
    /// start-anchored pattern is tried at offset zero only, any
    /// other pattern at every offset from zero through the string's
    /// length inclusive.
    pub fn matches(&self, string: &str) -> (b: bool)
        ensures
            b == spec_search(*self, string@),
    {
        let chars = crate::parse::chars_of(string);
        match self {
            Pattern::StartAnchor(_) => self.matches_exact(chars.as_slice()).is_match(),
            _ => {
                let mut i: usize = 0;
                loop
                    invariant
                        0 <= i <= chars@.len(),
                        chars@ == string@,
                        !(*self is StartAnchor),
                        forall|j: int|
                            0 <= j < i ==> exact_end(*self, #[trigger] string@.skip(j)) is None,
                    decreases chars@.len() - i,
                {
                    let rest = vstd::slice::slice_subrange(chars.as_slice(), i, chars.len());
                    if self.matches_exact(rest).is_match() {
                        proof {
                            assert(exact_end(*self, string@.skip(i as int)) is Some);
                        }
                        return true;
                    }
                    if i == chars.len() {
                        return false;
                    }
                    i = i + 1;
                }
            },
        }
    }

    /// Concatenate: a pattern matching this pattern and then
    /// `pattern` on the remainder.  Disallowed on anchors, which may
    /// only stand outermost.
    pub fn followed_by(self, pattern: Pattern) -> (r: Pattern)
        requires
            self.is_chainable(),
            pattern.is_chainable(),
        ensures
            r == Pattern::Sequence(Box::new(self), Box::new(pattern)),
            r.is_chainable(),
    {
        union(self, pattern)
    }
}

/// A pattern matching `first` and then `second` on the remainder:
/// the concatenation node.  Both operands must be chainable.
pub fn union(first: Pattern, second: Pattern) -> (r: Pattern)
    requires
        first.is_chainable(),
        second.is_chainable(),
    ensures
        r == Pattern::Sequence(Box::new(first), Box::new(second)),
        r.is_chainable(),
{
    Pattern::Sequence(Box::new(first), Box::new(second))
}

/// The zero-width pattern that matches at any offset; the identity
/// element for concatenation.
pub fn always_match() -> (r: Pattern)
    ensures
        r == Pattern::AlwaysMatch,
{
    Pattern::AlwaysMatch
}

/// A pattern matching any one character; it fails only at the end
/// of input.
pub fn wildcard() -> (r: Pattern)
    ensures
        r == Pattern::Wildcard,
{
    Pattern::Wildcard
}

/// One or more consecutive matches of `pattern`, greedy, giving
/// repetitions back one at a time when a chained pattern cannot
/// match after the greedy run.
pub fn one_or_more(pattern: Pattern) -> (r: Pattern)
    requires
        pattern.is_chainable(),
    ensures
        r == Pattern::OneOrMore(Box::new(pattern)),
        r.is_chainable(),
{
    Pattern::OneOrMore(Box::new(pattern))
}

/// Zero or one match of `pattern`, greedy, falling back to the
/// empty match when a chained pattern cannot match after it.
pub fn zero_or_one(pattern: Pattern) -> (r: Pattern)
    requires
        pattern.is_chainable(),
    ensures
        r == Pattern::ZeroOrOne(Box::new(pattern)),
        r.is_chainable(),
{
    Pattern::ZeroOrOne(Box::new(pattern))
}

/// A pattern matching `first_option`, or, if it or its continuation
/// fails, `second_option`.
pub fn alternating(first_option: Pattern, second_option: Pattern) -> (r: Pattern)
    requires
        first_option.is_chainable(),
        second_option.is_chainable(),
    ensures
        r == Pattern::Alternation(Box::new(first_option), Box::new(second_option)),
        r.is_chainable(),
{
    Pattern::Alternation(Box::new(first_option), Box::new(second_option))
}

/// Constrain `pattern` to match only from the very start of the
/// text: searching never scans later offsets.
pub fn start_line_anchor(pattern: Pattern) -> (r: Pattern)
    ensures
        r == Pattern::StartAnchor(Box::new(pattern)),
{
    Pattern::StartAnchor(Box::new(pattern))
}

/// Constrain `pattern` to consume everything up to the very end of
/// the text.
pub fn end_line_anchor(pattern: Pattern) -> (r: Pattern)
    ensures
        r == Pattern::EndAnchor(Box::new(pattern)),
{
    Pattern::EndAnchor(Box::new(pattern))
}

/// For any pattern not anchored to the start, searching succeeds
/// exactly when recognition succeeds at some offset from zero
/// through the text's length inclusive.
pub proof fn lemma_search_scans_all_offsets(pattern: Pattern, text: Seq<char>)
    requires
        !(pattern is StartAnchor),
    ensures
        spec_search(pattern, text) <==> exists|i: int|
            0 <= i <= text.len() && exact_end(pattern, #[trigger] text.skip(i)) is Some,
{
}

/// The zero-width pattern is the identity element for
/// concatenation: chaining it before or after any pattern changes
/// no outcome.
pub proof fn lemma_always_match_is_identity(pattern: Pattern, text: Seq<char>)
    ensures
        exact_end(Pattern::Sequence(Box::new(Pattern::AlwaysMatch), Box::new(pattern)), text)
            == exact_end(pattern, text),
        exact_end(Pattern::Sequence(Box::new(pattern), Box::new(Pattern::AlwaysMatch)), text)
            == exact_end(pattern, text),
    decreases text.len(),
{
    assert(text.skip(0) =~= text);
    assert(exact_end(Pattern::AlwaysMatch, text) == Some(0nat));
    match pattern {
        Pattern::OneOrMore(inner) => {
            lemma_exact_end_bounded(*inner, text);
            match exact_end(*inner, text) {
                Some(e1) => {
                    assert(exact_end(Pattern::AlwaysMatch, text.skip(e1 as int)) == Some(0nat));
                    if 0 < e1 <= text.len() {
                        lemma_always_match_is_identity(pattern, text.skip(e1 as int));
                    }
                },
                None => {},
            }
        },
        Pattern::ZeroOrOne(inner) => {
            lemma_exact_end_bounded(*inner, text);
            match exact_end(*inner, text) {
                Some(e1) => {
                    assert(exact_end(Pattern::AlwaysMatch, text.skip(e1 as int)) == Some(0nat));
                },
                None => {},
            }
        },
        Pattern::Alternation(opt1, opt2) => {
            lemma_exact_end_bounded(*opt1, text);
            lemma_exact_end_bounded(*opt2, text);
            match exact_end(*opt1, text) {
                Some(e1) => {
                    assert(exact_end(Pattern::AlwaysMatch, text.skip(e1 as int)) == Some(0nat));
                },
                None => {},
            }
            match exact_end(*opt2, text) {
                Some(e1) => {
                    assert(exact_end(Pattern::AlwaysMatch, text.skip(e1 as int)) == Some(0nat));
                },
                None => {},
            }
        },
        _ => {
            lemma_exact_end_bounded(pattern, text);
            match exact_end(pattern, text) {
                Some(e1) => {
                    assert(exact_end(Pattern::AlwaysMatch, text.skip(e1 as int)) == Some(0nat));
                },
                None => {},
            }
        },
    }
}

/// The pattern recognizing the characters of `word` one after
/// another, chained to the right as the parser builds it: each
/// literal is followed by the chain of the remaining ones, and the
/// zero-width pattern closes the chain.
pub open spec fn literal_sequence(word: Seq<char>) -> Pattern
    decreases word.len(),
{
    if word.len() == 0 {
        Pattern::AlwaysMatch
    } else {
        Pattern::Sequence(
            Box::new(Pattern::Literal(word[0])),
            Box::new(literal_sequence(word.drop_first())),
        )
    }
}

/// A chain of literals is recognized exactly on the texts that
/// start with the spelled word, and it consumes exactly that word.
pub proof fn lemma_literal_sequence_exact(word: Seq<char>, text: Seq<char>)
    ensures
        (word.len() <= text.len() && text.take(word.len() as int) == word) ==> exact_end(
            literal_sequence(word),
            text,
        ) == Some(word.len()),
        !(word.len() <= text.len() && text.take(word.len() as int) == word) ==> exact_end(
            literal_sequence(word),
            text,
        ) is None,
    decreases word.len(),
{
    reveal_with_fuel(exact_end, 2);
    if word.len() == 0 {
        assert(text.take(0) =~= word);
    } else {
        assert(literal_sequence(word) == Pattern::Sequence(
            Box::new(Pattern::Literal(word[0])),
            Box::new(literal_sequence(word.drop_first())),
        ));
        if text.len() == 0 || text[0] != word[0] {
            assert(exact_end(Pattern::Literal(word[0]), text) is None);
            if word.len() <= text.len() && text.take(word.len() as int) == word {
                assert(text.take(word.len() as int)[0] == text[0]);
                assert(false);
            }
        } else {
            assert(exact_end(Pattern::Literal(word[0]), text) == Some(1nat));
            lemma_literal_sequence_exact(word.drop_first(), text.skip(1));
            let tail_hit = word.drop_first().len() <= text.skip(1).len() && text.skip(1).take(
                word.drop_first().len() as int,
            ) == word.drop_first();
            let whole_hit = word.len() <= text.len() && text.take(word.len() as int) == word;
            if whole_hit {
                assert(text.skip(1).take(word.drop_first().len() as int) =~= word.drop_first());
                assert(tail_hit);
            } else if tail_hit {
                assert forall|i: int| 0 <= i < word.len() implies text.take(word.len() as int)[i]
                    == word[i] by {
                    if i > 0 {
                        assert(word.drop_first()[i - 1] == text.skip(1).take(
                            word.drop_first().len() as int,
                        )[i - 1]);
                    }
                }
                assert(text.take(word.len() as int) =~= word);
                assert(false);
            }
        }
    }
}

/// Anchors compose: a pattern anchored at both ends around a chain
/// of literals matches exactly the spelled word and no other text.
pub proof fn lemma_anchors_compose(word: Seq<char>, text: Seq<char>)
    ensures
        spec_search(
            Pattern::StartAnchor(Box::new(Pattern::EndAnchor(Box::new(literal_sequence(word))))),
            text,
        ) <==> text == word,
{
    reveal_with_fuel(exact_end, 3);
    lemma_literal_sequence_exact(word, text);
    if text == word {
        assert(text.take(word.len() as int) =~= word);
    }
    if spec_search(
        Pattern::StartAnchor(Box::new(Pattern::EndAnchor(Box::new(literal_sequence(word))))),
        text,
    ) {
        assert(exact_end(literal_sequence(word), text) == Some(text.len() as nat));
        assert(text.take(word.len() as int) =~= text);
    }
}

/// A recognized pattern never consumes more characters than the text
/// holds.
pub proof fn lemma_exact_end_bounded(pattern: Pattern, text: Seq<char>)
    ensures
        exact_end(pattern, text) matches Some(end) ==> end <= text.len(),
    decreases text.len(), pattern,
{
    match pattern {
        Pattern::Alternation(first, second) => {
            lemma_exact_end_bounded(*first, text);
            lemma_exact_end_bounded(*second, text);
        },
        Pattern::OneOrMore(inner) => {
            lemma_exact_end_bounded(*inner, text);
            match exact_end(*inner, text) {
                Some(e1) => {
                    if e1 > 0 {
                        lemma_exact_end_bounded(pattern, text.skip(e1 as int));
                    }
                },
                None => {},
            }
        },
        Pattern::ZeroOrOne(inner) => {
            lemma_exact_end_bounded(*inner, text);
        },
        Pattern::StartAnchor(inner) => {
            lemma_exact_end_bounded(*inner, text);
        },
        Pattern::EndAnchor(inner) => {
            lemma_exact_end_bounded(*inner, text);
        },
        Pattern::Sequence(first, second) => {
            match *first {
                Pattern::OneOrMore(inner) => {
                    lemma_exact_end_bounded(*inner, text);
                    match exact_end(*inner, text) {
                        Some(e1) => {
                            if e1 > 0 {
                                lemma_exact_end_bounded(pattern, text.skip(e1 as int));
                            }
                            lemma_exact_end_bounded(*second, text.skip(e1 as int));
                        },
                        None => {},
                    }
                },
                Pattern::ZeroOrOne(inner) => {
                    lemma_exact_end_bounded(*inner, text);
                    lemma_exact_end_bounded(*second, text);
                    match exact_end(*inner, text) {
                        Some(e1) => {
                            lemma_exact_end_bounded(*second, text.skip(e1 as int));
                        },
                        None => {},
                    }
                },
                Pattern::Alternation(opt1, opt2) => {
                    lemma_exact_end_bounded(*opt1, text);
                    lemma_exact_end_bounded(*opt2, text);
                    match exact_end(*opt1, text) {
                        Some(e1) => {
                            lemma_exact_end_bounded(*second, text.skip(e1 as int));
                        },
                        None => {},
                    }
                    match exact_end(*opt2, text) {
                        Some(e1) => {
                            lemma_exact_end_bounded(*second, text.skip(e1 as int));
                        },
                        None => {},
                    }
                },
                _ => {
                    lemma_exact_end_bounded(*first, text);
                    match exact_end(*first, text) {
                        Some(e1) => {
                            lemma_exact_end_bounded(*second, text.skip(e1 as int));
                        },
                        None => {},
                    }
                },
            }
        },
        _ => {},
    }
}

} // verus!
