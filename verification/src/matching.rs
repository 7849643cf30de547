//! The pattern parser: a recursive-descent translation of a pattern
//! string into a pattern tree, with precise error positions.
//!
//! Anchors are handled by an outer layer: a leading `^` (only at
//! the very start) wraps the rest in a start anchor, a trailing `$`
//! (only at the very end) wraps everything before it in an end
//! anchor.  The inner grammar consumes one leaf at a time — an
//! escape, a bracket expression or a literal character — and chains
//! it with the parse of the remainder; the empty remainder closes
//! the chain with the zero-width pattern.
//!
//! The spec functions return `None` exactly on the inputs the
//! parser does not accept at all (a bracket expression with no
//! content to name a class); on every other input they return the
//! compiled tree or the error, and the executable parser returns
//! precisely that.

use vstd::prelude::*;

use crate::character_class::CharacterClass;
use crate::character_pattern::bracket_class;
use crate::parse::find_index;
use crate::pattern::Pattern;

verus! {

/// Why a pattern string failed to compile; each variant carries the
/// zero-based character column of the offending construct.
#[derive(Debug, Eq, PartialEq, Clone, Copy, Structural)]
pub enum ParsePatternError {
    /// A `^` anywhere but at the very start of the pattern.
    InvalidStartLineAnchor(usize),
    /// A `$` anywhere but at the very end of the pattern.
    InvalidEndLineAnchor(usize),
    /// A `[` with no later `]` to close it.
    UnmatchedBracket(usize),
}

/// The leaf a two-character escape compiles to: the digit class for
/// `\d`, the alphanumeric class for `\w`, and for any other target
/// the two literal characters of the escape itself.
pub open spec fn escape_leaf(escaped: char) -> Pattern {
    if escaped == 'd' {
        Pattern::ClassMatch(CharacterClass::Digits)
    } else if escaped == 'w' {
        Pattern::ClassMatch(crate::character_class::alphanumeric_class())
    } else {
        Pattern::Sequence(
            Box::new(Pattern::Literal('\\')),
            Box::new(Pattern::Literal(escaped)),
        )
    }
}

/// Chain one parsed leaf with the outcome of parsing the remainder.
pub open spec fn chain_leaf(leaf: Pattern, rest: Option<Result<Pattern, ParsePatternError>>)
    -> Option<Result<Pattern, ParsePatternError>> {
    match rest {
        None => None,
        Some(Err(error)) => Some(Err(error)),
        Some(Ok(pattern)) => Some(Ok(Pattern::Sequence(Box::new(leaf), Box::new(pattern)))),
    }
}

/// The inner, anchor-free grammar: what parsing the characters `s`
/// at column `idx` yields.  Anchor characters are rejected here with
/// the column they stand at; a bracket expression reaches to the
/// first unmatched `]`; an empty bracket content names no class, so
/// parsing yields `None` there and nowhere else.
pub open spec fn parse_chain(s: Seq<char>, idx: int) -> Option<
    Result<Pattern, ParsePatternError>,
>
    decreases s.len(),
{
    if s.len() == 0 {
        Some(Ok(Pattern::AlwaysMatch))
    } else if s[0] == '^' {
        Some(Err(ParsePatternError::InvalidStartLineAnchor(idx as usize)))
    } else if s[0] == '$' {
        Some(Err(ParsePatternError::InvalidEndLineAnchor(idx as usize)))
    } else if s[0] == '\\' && s.len() >= 2 {
        chain_leaf(escape_leaf(s[1]), parse_chain(s.skip(2), idx + 2))
    } else if s[0] == '[' {
        match find_index(s.skip(1), ']') {
            None => Some(Err(ParsePatternError::UnmatchedBracket(idx as usize))),
            Some(j) => if 0 <= j < s.len() - 1 {
                match bracket_class(s.skip(1).take(j)) {
                    None => None,
                    Some(class) => chain_leaf(
                        Pattern::ClassMatch(class),
                        parse_chain(s.skip(j + 2), idx + j + 2),
                    ),
                }
            } else {
                // unreachable: an index found in the searched text lies within it
                None
            },
        }
    } else {
        chain_leaf(Pattern::Literal(s[0]), parse_chain(s.skip(1), idx + 1))
    }
}

/// The outer grammar: anchors are valid only at the outermost
/// positions of the whole pattern.  A `^` wraps the parse of the
/// rest in a start anchor only at column zero of the whole pattern
/// and is misplaced at any other column; a trailing `$` wraps the
/// parse of everything before it in an end anchor; any other `$` at
/// the front is misplaced; everything else belongs to the inner
/// grammar.
pub open spec fn parse_anchored(s: Seq<char>, idx: int) -> Option<
    Result<Pattern, ParsePatternError>,
>
    decreases s.len(),
{
    if s.len() > 0 && s[0] == '^' {
        if idx != 0 {
            Some(Err(ParsePatternError::InvalidStartLineAnchor(idx as usize)))
        } else {
            match parse_anchored(s.skip(1), idx + 1) {
                None => None,
                Some(Err(error)) => Some(Err(error)),
                Some(Ok(pattern)) => Some(Ok(Pattern::StartAnchor(Box::new(pattern)))),
            }
        }
    } else if s.len() > 0 && s.last() == '$' {
        match parse_chain(s.drop_last(), idx) {
            None => None,
            Some(Err(error)) => Some(Err(error)),
            Some(Ok(pattern)) => Some(Ok(Pattern::EndAnchor(Box::new(pattern)))),
        }
    } else if s.len() > 0 && s[0] == '$' {
        Some(Err(ParsePatternError::InvalidEndLineAnchor(idx as usize)))
    } else {
        parse_chain(s, idx)
    }
}

/// Whatever the inner grammar accepts is chainable: it never places
/// an anchor below a concatenation.
pub proof fn lemma_parse_chain_chainable(s: Seq<char>, idx: int)
    ensures
        parse_chain(s, idx) matches Some(Ok(pattern)) ==> pattern.is_chainable(),
    decreases s.len(),
{
    reveal_with_fuel(Pattern::is_chainable, 3);
    if s.len() == 0 {
    } else if s[0] == '^' || s[0] == '$' {
    } else if s[0] == '\\' && s.len() >= 2 {
        lemma_parse_chain_chainable(s.skip(2), idx + 2);
        assert(escape_leaf(s[1]).is_chainable());
        match parse_chain(s.skip(2), idx + 2) {
            Some(Ok(rest)) => {
                assert(Pattern::Sequence(
                    Box::new(escape_leaf(s[1])),
                    Box::new(rest),
                ).is_chainable());
            },
            _ => {},
        }
    } else if s[0] == '[' {
        match find_index(s.skip(1), ']') {
            None => {},
            Some(j) => {
                if 0 <= j < s.len() - 1 {
                    lemma_parse_chain_chainable(s.skip(j + 2), idx + j + 2);
                    match parse_chain(s.skip(j + 2), idx + j + 2) {
                        Some(Ok(rest)) => {
                            match bracket_class(s.skip(1).take(j)) {
                                Some(class) => {
                                    assert(Pattern::ClassMatch(class).is_chainable());
                                    assert(Pattern::Sequence(
                                        Box::new(Pattern::ClassMatch(class)),
                                        Box::new(rest),
                                    ).is_chainable());
                                },
                                None => {},
                            }
                        },
                        _ => {},
                    }
                }
            },
        }
    } else {
        lemma_parse_chain_chainable(s.skip(1), idx + 1);
        match parse_chain(s.skip(1), idx + 1) {
            Some(Ok(rest)) => {
                assert(Pattern::Sequence(
                    Box::new(Pattern::Literal(s[0])),
                    Box::new(rest),
                ).is_chainable());
            },
            _ => {},
        }
    }
}

/// Whatever the parser accepts is well formed: anchors stand only
/// at the outermost positions of the compiled pattern, and a start
/// anchor comes only from column zero, so it is never nested.
pub proof fn lemma_parse_anchored_well_formed(s: Seq<char>, idx: int)
    ensures
        parse_anchored(s, idx) matches Some(Ok(pattern)) ==> pattern.is_well_formed() && (idx != 0
            ==> !(pattern is StartAnchor)),
    decreases s.len(),
{
    if s.len() > 0 && s[0] == '^' {
        if idx == 0 {
            lemma_parse_anchored_well_formed(s.skip(1), idx + 1);
        }
    } else if s.len() > 0 && s.last() == '$' {
        lemma_parse_chain_chainable(s.drop_last(), idx);
    } else if s.len() > 0 && s[0] == '$' {
    } else {
        lemma_parse_chain_chainable(s, idx);
    }
}

/// The empty pattern compiles to the zero-width pattern, and that
/// pattern matches every text, the empty text included.
pub proof fn lemma_empty_pattern_matches_everything(text: Seq<char>)
    ensures
        parse_anchored(Seq::empty(), 0) == Some(
            Ok::<Pattern, ParsePatternError>(Pattern::AlwaysMatch),
        ),
        crate::pattern::spec_search(Pattern::AlwaysMatch, text),
{
    assert(crate::pattern::exact_end(Pattern::AlwaysMatch, text.skip(0)) is Some);
}

/// Whether every character of `word` is an ordinary one: no anchor,
/// escape or bracket character among them.
pub open spec fn all_ordinary(word: Seq<char>) -> bool {
    forall|i: int|
        0 <= i < word.len() ==> (#[trigger] word[i]) != '^' && word[i] != '$' && word[i] != '\\'
            && word[i] != '['
}

/// A word of ordinary characters parses to the chain of its
/// literals, whatever column it starts at.
pub proof fn lemma_parse_plain_word(word: Seq<char>, idx: int)
    requires
        all_ordinary(word),
    ensures
        parse_chain(word, idx) == Some(
            Ok::<Pattern, ParsePatternError>(crate::pattern::literal_sequence(word)),
        ),
    decreases word.len(),
{
    if word.len() > 0 {
        assert(word.skip(1) =~= word.drop_first());
        lemma_parse_plain_word(word.drop_first(), idx + 1);
    }
}

/// Anchors compose: a pattern spelling `^`, a word of ordinary
/// characters, then `$` compiles, and the compiled pattern matches
/// exactly that word and no other text.
pub proof fn lemma_anchored_word_matches_exactly(word: Seq<char>, text: Seq<char>)
    requires
        all_ordinary(word),
    ensures
        parse_anchored(seq!['^'] + word + seq!['$'], 0) matches Some(Ok(compiled))
            && (crate::pattern::spec_search(compiled, text) <==> text == word),
{
    let s = seq!['^'] + word + seq!['$'];
    assert(s[0] == '^');
    assert(s.skip(1) =~= word + seq!['$']);
    let s2 = word + seq!['$'];
    assert(s2.last() == '$');
    assert(s2.drop_last() =~= word);
    if word.len() > 0 {
        assert(s2[0] == word[0]);
        assert(s2[0] != '^');
    }
    lemma_parse_plain_word(word, 1);
    assert(parse_anchored(s2, 1) == Some(
        Ok::<Pattern, ParsePatternError>(
            Pattern::EndAnchor(Box::new(crate::pattern::literal_sequence(word))),
        ),
    ));
    assert(parse_anchored(s, 0) == Some(
        Ok::<Pattern, ParsePatternError>(
            Pattern::StartAnchor(
                Box::new(Pattern::EndAnchor(Box::new(crate::pattern::literal_sequence(word)))),
            ),
        ),
    ));
    crate::pattern::lemma_anchors_compose(word, text);
}

/// One character class, wrapped as a pattern leaf.
fn from_character_class(class: CharacterClass) -> (r: Pattern)
    ensures
        r == Pattern::ClassMatch(class),
{
    crate::character_pattern::character(class)
}

/// Parse the anchor-free grammar, building the tree the spec
/// describes; `char_idx` is the column of `pattern_chars[0]` in the
/// whole pattern string, so error columns stay accurate.
pub fn construct_pattern(pattern_chars: &[char], char_idx: usize) -> (r: Result<
    Pattern,
    ParsePatternError,
>)
    requires
        parse_chain(pattern_chars@, char_idx as int) is Some,
        char_idx + pattern_chars@.len() <= usize::MAX,
    ensures
        Some(r) == parse_chain(pattern_chars@, char_idx as int),
    decreases pattern_chars@.len(),
{
    if pattern_chars.len() == 0 {
        return Ok(crate::pattern::always_match());
    }
    let c0 = pattern_chars[0];
    if c0 == '^' {
        return Err(ParsePatternError::InvalidStartLineAnchor(char_idx));
    }
    if c0 == '$' {
        return Err(ParsePatternError::InvalidEndLineAnchor(char_idx));
    }
    if c0 == '\\' && pattern_chars.len() >= 2 {
        let escaped = pattern_chars[1];
        let leaf = if escaped == 'd' {
            from_character_class(crate::character_class::digits())
        } else if escaped == 'w' {
            from_character_class(crate::character_class::alphanumeric())
        } else {
            crate::character_pattern::literal('\\').followed_by(
                crate::character_pattern::literal(escaped),
            )
        };
        let rest = vstd::slice::slice_subrange(pattern_chars, 2, pattern_chars.len());
        return match construct_pattern(rest, char_idx + 2) {
            Err(error) => Err(error),
            Ok(rest_pattern) => {
                proof {
                    lemma_parse_chain_chainable(rest@, char_idx + 2);
                }
                Ok(leaf.followed_by(rest_pattern))
            },
        };
    }
    if c0 == '[' {
        let remaining = vstd::slice::slice_subrange(pattern_chars, 1, pattern_chars.len());
        return match crate::parse::split_at(remaining, ']') {
            None => Err(ParsePatternError::UnmatchedBracket(char_idx)),
            Some((content, rest)) => {
                proof {
                    crate::parse::lemma_find_index_first(remaining@, ']');
                    let j = find_index(remaining@, ']').unwrap();
                    assert(rest@ =~= pattern_chars@.skip(j + 2));
                }
                let leaf = crate::character_pattern::union(content);
                match construct_pattern(rest, char_idx + content.len() + 2) {
                    Err(error) => Err(error),
                    Ok(rest_pattern) => {
                        proof {
                            let j = find_index(remaining@, ']').unwrap();
                            lemma_parse_chain_chainable(rest@, char_idx + j + 2);
                        }
                        Ok(leaf.followed_by(rest_pattern))
                    },
                }
            },
        };
    }
    let leaf = crate::character_pattern::literal(c0);
    let rest = vstd::slice::slice_subrange(pattern_chars, 1, pattern_chars.len());
    match construct_pattern(rest, char_idx + 1) {
        Err(error) => Err(error),
        Ok(rest_pattern) => {
            proof {
                lemma_parse_chain_chainable(rest@, char_idx + 1);
            }
            Ok(leaf.followed_by(rest_pattern))
        },
    }
}

/// Parse a whole pattern, handling the start and end line anchors
/// that the inner grammar may not contain.
pub fn construct_pattern_with_anchors(pattern_chars: &[char], char_idx: usize) -> (r: Result<
    Pattern,
    ParsePatternError,
>)
    requires
        parse_anchored(pattern_chars@, char_idx as int) is Some,
        char_idx + pattern_chars@.len() <= usize::MAX,
    ensures
        Some(r) == parse_anchored(pattern_chars@, char_idx as int),
    decreases pattern_chars@.len(),
{
    if pattern_chars.len() > 0 && pattern_chars[0] == '^' {
        if char_idx != 0 {
            return Err(ParsePatternError::InvalidStartLineAnchor(char_idx));
        }
        let rest = vstd::slice::slice_subrange(pattern_chars, 1, pattern_chars.len());
        match construct_pattern_with_anchors(rest, char_idx + 1) {
            Err(error) => Err(error),
            Ok(pattern) => Ok(crate::pattern::start_line_anchor(pattern)),
        }
    } else if pattern_chars.len() > 0 && pattern_chars[pattern_chars.len() - 1] == '$' {
        let rest = vstd::slice::slice_subrange(pattern_chars, 0, pattern_chars.len() - 1);
        proof {
            assert(rest@ =~= pattern_chars@.drop_last());
        }
        match construct_pattern(rest, char_idx) {
            Err(error) => Err(error),
            Ok(pattern) => Ok(crate::pattern::end_line_anchor(pattern)),
        }
    } else if pattern_chars.len() > 0 && pattern_chars[0] == '$' {
        Err(ParsePatternError::InvalidEndLineAnchor(char_idx))
    } else {
        construct_pattern(pattern_chars, char_idx)
    }
}

/// Whether the inner grammar yields any outcome at all — a tree or
/// an error — for these characters: everything does, except a
/// bracket expression whose content names no class.
fn chain_parse_defined(pattern_chars: &[char], char_idx: usize) -> (b: bool)
    requires
        char_idx + pattern_chars@.len() <= usize::MAX,
    ensures
        b == (parse_chain(pattern_chars@, char_idx as int) is Some),
    decreases pattern_chars@.len(),
{
    if pattern_chars.len() == 0 {
        return true;
    }
    let c0 = pattern_chars[0];
    if c0 == '^' || c0 == '$' {
        return true;
    }
    if c0 == '\\' && pattern_chars.len() >= 2 {
        let rest = vstd::slice::slice_subrange(pattern_chars, 2, pattern_chars.len());
        return chain_parse_defined(rest, char_idx + 2);
    }
    if c0 == '[' {
        let remaining = vstd::slice::slice_subrange(pattern_chars, 1, pattern_chars.len());
        return match crate::parse::split_at(remaining, ']') {
            None => true,
            Some((content, rest)) => {
                proof {
                    crate::parse::lemma_find_index_first(remaining@, ']');
                    let j = find_index(remaining@, ']').unwrap();
                    assert(rest@ =~= pattern_chars@.skip(j + 2));
                }
                let named = if content.len() == 0 {
                    false
                } else if content[0] == '^' && content.len() == 1 {
                    false
                } else {
                    true
                };
                named && chain_parse_defined(rest, char_idx + content.len() + 2)
            },
        };
    }
    let rest = vstd::slice::slice_subrange(pattern_chars, 1, pattern_chars.len());
    chain_parse_defined(rest, char_idx + 1)
}

/// Whether the parser yields any outcome at all — a compiled tree
/// or an error — for this pattern string.  It does for every
/// pattern except one holding a bracket expression whose content
/// names no class, reached before any earlier error: the one kind
/// of input `construct_pattern_from_str` asks its caller to keep
/// away.
pub fn pattern_parse_defined(pattern: &str) -> (b: bool)
    ensures
        b == (parse_anchored(pattern@, 0) is Some),
{
    let pattern_chars = crate::parse::chars_of(pattern);
    anchored_parse_defined(pattern_chars.as_slice(), 0)
}

/// Whether the outer, anchor-aware grammar yields any outcome for
/// these characters.
fn anchored_parse_defined(pattern_chars: &[char], char_idx: usize) -> (b: bool)
    requires
        char_idx + pattern_chars@.len() <= usize::MAX,
    ensures
        b == (parse_anchored(pattern_chars@, char_idx as int) is Some),
    decreases pattern_chars@.len(),
{
    if pattern_chars.len() > 0 && pattern_chars[0] == '^' {
        if char_idx != 0 {
            return true;
        }
        let rest = vstd::slice::slice_subrange(pattern_chars, 1, pattern_chars.len());
        anchored_parse_defined(rest, char_idx + 1)
    } else if pattern_chars.len() > 0 && pattern_chars[pattern_chars.len() - 1] == '$' {
        let rest = vstd::slice::slice_subrange(pattern_chars, 0, pattern_chars.len() - 1);
        proof {
            assert(rest@ =~= pattern_chars@.drop_last());
        }
        chain_parse_defined(rest, char_idx)
    } else if pattern_chars.len() > 0 && pattern_chars[0] == '$' {
        true
    } else {
        chain_parse_defined(pattern_chars, char_idx)
    }
}

/// Compile a pattern string into a pattern tree, or report why it
/// is malformed; the compiled tree is well formed, with anchors
/// only at its outermost positions.
pub fn construct_pattern_from_str(pattern: &str) -> (r: Result<Pattern, ParsePatternError>)
    requires
        parse_anchored(pattern@, 0) is Some,
    ensures
        Some(r) == parse_anchored(pattern@, 0),
        r matches Ok(compiled) ==> compiled.is_well_formed(),
{
    let pattern_chars = crate::parse::chars_of(pattern);
    proof {
        lemma_parse_anchored_well_formed(pattern@, 0);
    }
    construct_pattern_with_anchors(pattern_chars.as_slice(), 0)
}

} // verus!
