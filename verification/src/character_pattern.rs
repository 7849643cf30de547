//! Single-character pattern leaves, and the translation of a
//! bracket expression's content into one character class.
//!
//! The content between brackets is a union built one element at a
//! time: a `\d` or `\w` escape contributes its built-in class, an
//! unrecognized escape contributes the pair of literals it names,
//! and any other character contributes itself.  A leading `^`
//! negates the union of everything after it.

use vstd::prelude::*;

use crate::character_class;
use crate::character_class::CharacterClass;
use crate::character_class::alphanumeric_class;
use crate::pattern::Pattern;

verus! {

/// The class a `\`-escape inside a bracket expression stands for:
/// the digit class for `d`, the alphanumeric class for `w`, and for
/// anything else the two literals of the escape pair itself.
pub open spec fn escape_class(escaped: char) -> CharacterClass {
    if escaped == 'd' {
        CharacterClass::Digits
    } else if escaped == 'w' {
        alphanumeric_class()
    } else {
        CharacterClass::Union(
            Box::new(CharacterClass::Literal('\\')),
            Box::new(CharacterClass::Literal(escaped)),
        )
    }
}

/// The union class named by a non-empty bracket content: each
/// element in turn, escapes consuming two characters.
pub open spec fn union_class(content: Seq<char>) -> CharacterClass
    recommends
        content.len() > 0,
    decreases content.len(),
{
    if content.len() <= 1 {
        CharacterClass::Literal(content[0])
    } else if content[0] == '\\' {
        let head = escape_class(content[1]);
        if content.len() == 2 {
            head
        } else {
            CharacterClass::Union(Box::new(head), Box::new(union_class(content.skip(2))))
        }
    } else {
        CharacterClass::Union(
            Box::new(CharacterClass::Literal(content[0])),
            Box::new(union_class(content.skip(1))),
        )
    }
}

/// The class a whole bracket expression stands for: the union of
/// its content, negated when the content starts with `^`.  Empty
/// content (and a lone `^`) name no class at all.
pub open spec fn bracket_class(content: Seq<char>) -> Option<CharacterClass> {
    if content.len() == 0 {
        None
    } else if content[0] == '^' {
        if content.len() == 1 {
            None
        } else {
            Some(CharacterClass::Negation(Box::new(union_class(content.skip(1)))))
        }
    } else {
        Some(union_class(content))
    }
}

/// Bracket negation is the complement of bracket inclusion: over
/// the same content, the negated bracket expression accepts a
/// character exactly when the plain one does not.
pub proof fn lemma_bracket_negation_complements(content: Seq<char>, character: char)
    requires
        content.len() > 0,
        content[0] != '^',
    ensures
        bracket_class(content) matches Some(included) && bracket_class(seq!['^'].add(content))
            matches Some(negated) && crate::character_class::char_in_class(negated, character)
            == !crate::character_class::char_in_class(included, character),
{
    assert(seq!['^'].add(content)[0] == '^');
    assert(seq!['^'].add(content).skip(1) =~= content);
}

/// The class one escape target stands for.
fn class_for_escape(escaped: char) -> (r: CharacterClass)
    ensures
        r == escape_class(escaped),
{
    if escaped == 'd' {
        character_class::digits()
    } else if escaped == 'w' {
        character_class::alphanumeric()
    } else {
        character_class::literal('\\').union(character_class::literal(escaped))
    }
}

/// Build the union class of a bracket content, one element at a
/// time; `None` exactly when the content is empty.
pub fn parse_character_group_pattern(chars: &[char]) -> (r: Option<CharacterClass>)
    ensures
        r is Some <==> chars@.len() > 0,
        chars@.len() > 0 ==> r == Some(union_class(chars@)),
    decreases chars@.len(),
{
    if chars.len() == 0 {
        return None;
    }
    let escaped = chars.len() >= 2 && chars[0] == '\\';
    let head = if escaped {
        class_for_escape(chars[1])
    } else {
        character_class::literal(chars[0])
    };
    let rest = if escaped {
        vstd::slice::slice_subrange(chars, 2, chars.len())
    } else {
        vstd::slice::slice_subrange(chars, 1, chars.len())
    };
    match parse_character_group_pattern(rest) {
        None => Some(head),
        Some(other_class) => Some(head.union(other_class)),
    }
}

/// A pattern matching one character satisfying `character_class`.
pub fn character(character_class: CharacterClass) -> (r: Pattern)
    ensures
        r == Pattern::ClassMatch(character_class),
{
    Pattern::ClassMatch(character_class)
}

/// A pattern matching exactly the given character.
pub fn literal(character: char) -> (r: Pattern)
    ensures
        r == Pattern::Literal(character),
{
    Pattern::Literal(character)
}

/// A pattern matching one ASCII digit.
pub fn digits() -> (r: Pattern)
    ensures
        r == Pattern::ClassMatch(CharacterClass::Digits),
{
    character(character_class::digits())
}

/// A pattern matching one alphanumeric character or underscore.
pub fn alphanumeric() -> (r: Pattern)
    ensures
        r == Pattern::ClassMatch(alphanumeric_class()),
{
    character(character_class::alphanumeric())
}

/// The pattern a whole bracket expression compiles to: one
/// character of the union class, negated when the content starts
/// with `^`.  The content must name a class: it may not be empty,
/// nor a lone `^`.
pub fn union(chars: &[char]) -> (r: Pattern)
    requires
        bracket_class(chars@) is Some,
    ensures
        bracket_class(chars@) matches Some(class) && r == Pattern::ClassMatch(class),
{
    if chars[0] == '^' {
        let rest = vstd::slice::slice_subrange(chars, 1, chars.len());
        match parse_character_group_pattern(rest) {
            Some(class) => character(class.negate()),
            None => vstd::pervasive::unreached(),
        }
    } else {
        match parse_character_group_pattern(chars) {
            Some(class) => character(class),
            None => vstd::pervasive::unreached(),
        }
    }
}

/// The concatenation of one literal pattern per character of `s`,
/// starting from the zero-width pattern.
pub open spec fn literal_chain(s: Seq<char>) -> Pattern
    decreases s.len(),
{
    if s.len() == 0 {
        Pattern::AlwaysMatch
    } else {
        Pattern::Sequence(
            Box::new(literal_chain(s.drop_last())),
            Box::new(Pattern::Literal(s.last())),
        )
    }
}

/// A pattern matching the characters of `string` one after another.
pub fn literal_str(string: &str) -> (r: Pattern)
    ensures
        r == literal_chain(string@),
        r.is_chainable(),
{
    let chars = crate::parse::chars_of(string);
    let mut pattern = crate::pattern::always_match();
    let mut i: usize = 0;
    while i < chars.len()
        invariant
            0 <= i <= chars@.len(),
            chars@ == string@,
            pattern == literal_chain(string@.take(i as int)),
            pattern.is_chainable(),
        decreases chars@.len() - i,
    {
        pattern = pattern.followed_by(literal(chars[i]));
        proof {
            assert(string@.take(i + 1).drop_last() =~= string@.take(i as int));
        }
        i = i + 1;
    }
    proof {
        assert(string@.take(chars@.len() as int) =~= string@);
    }
    pattern
}

} // verus!
