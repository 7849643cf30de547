//! Character classes: predicates over a single Unicode scalar value.
//!
//! A class is a closed tree of variants — single literals, the fixed
//! built-in groups (digits, lowercase and uppercase ASCII letters),
//! the platform's Unicode whitespace predicate, and the two
//! combinators union and negation.  Classes are immutable;
//! composition builds a new tree that owns its operands.

use vstd::prelude::*;

verus! {

/// A predicate over one Unicode scalar value, composable via
/// union and negation.
#[derive(Debug)]
pub enum CharacterClass {
    /// Matches exactly one character.
    Literal(char),
    /// Matches the ASCII digits `0` through `9`.
    Digits,
    /// Matches the ASCII lowercase letters `a` through `z`.
    Lowercase,
    /// Matches the ASCII uppercase letters `A` through `Z`.
    Uppercase,
    /// Matches any Unicode whitespace scalar value.
    Whitespace,
    /// Matches when either operand matches.
    Union(Box<CharacterClass>, Box<CharacterClass>),
    /// Matches when the operand does not match.
    Negation(Box<CharacterClass>),
}

/// Whether `character` is recognized by an unspecified call to the
/// platform's Unicode whitespace predicate; the result depends on the
/// character alone.
pub uninterp spec fn is_unicode_whitespace(character: char) -> bool;

/// What it means for a class to accept a character.
pub open spec fn char_in_class(class: CharacterClass, character: char) -> bool
    decreases class,
{
    match class {
        CharacterClass::Literal(l) => character == l,
        CharacterClass::Digits => '0' as u32 <= character as u32 <= '9' as u32,
        CharacterClass::Lowercase => 'a' as u32 <= character as u32 <= 'z' as u32,
        CharacterClass::Uppercase => 'A' as u32 <= character as u32 <= 'Z' as u32,
        CharacterClass::Whitespace => is_unicode_whitespace(character),
        CharacterClass::Union(first, second) => char_in_class(*first, character)
            || char_in_class(*second, character),
        CharacterClass::Negation(inner) => !char_in_class(*inner, character),
    }
}

/// Relies on char::is_whitespace: whether the character has the
/// Unicode White_Space property, a function of the character alone.
#[verifier::external_body]
fn platform_is_whitespace(character: char) -> (b: bool)
    ensures
        b == is_unicode_whitespace(character),
{
    character.is_whitespace()
}

impl CharacterClass {
    /// Decide whether this class accepts `character`.
    pub fn matches(&self, character: char) -> (b: bool)
        ensures
            b == char_in_class(*self, character),
        decreases *self,
    {
        match self {
            CharacterClass::Literal(l) => character == *l,
            CharacterClass::Digits => '0' as u32 <= character as u32 && character as u32
                <= '9' as u32,
            CharacterClass::Lowercase => 'a' as u32 <= character as u32 && character as u32
                <= 'z' as u32,
            CharacterClass::Uppercase => 'A' as u32 <= character as u32 && character as u32
                <= 'Z' as u32,
            CharacterClass::Whitespace => platform_is_whitespace(character),
            CharacterClass::Union(first, second) => first.matches(character) || second.matches(
                character,
            ),
            CharacterClass::Negation(inner) => !inner.matches(character),
        }
    }

    /// A class accepting the union of what `self` and `other` accept.
    pub fn union(self, other: CharacterClass) -> (r: CharacterClass)
        ensures
            r == CharacterClass::Union(Box::new(self), Box::new(other)),
    {
        CharacterClass::Union(Box::new(self), Box::new(other))
    }

    /// A class accepting exactly the complement of what `self` accepts.
    pub fn negate(self) -> (r: CharacterClass)
        ensures
            r == CharacterClass::Negation(Box::new(self)),
    {
        CharacterClass::Negation(Box::new(self))
    }
}

/// A class accepting exactly `character`.
pub fn literal(character: char) -> (r: CharacterClass)
    ensures
        r == CharacterClass::Literal(character),
{
    CharacterClass::Literal(character)
}

/// The built-in digit class `0`-`9`.
pub fn digits() -> (r: CharacterClass)
    ensures
        r == CharacterClass::Digits,
{
    CharacterClass::Digits
}

/// The built-in lowercase letter class `a`-`z`.
pub fn lowercase() -> (r: CharacterClass)
    ensures
        r == CharacterClass::Lowercase,
{
    CharacterClass::Lowercase
}

/// The built-in uppercase letter class `A`-`Z`.
pub fn uppercase() -> (r: CharacterClass)
    ensures
        r == CharacterClass::Uppercase,
{
    CharacterClass::Uppercase
}

/// The class of Unicode whitespace scalar values, as the platform
/// defines them.
pub fn whitespace() -> (r: CharacterClass)
    ensures
        r == CharacterClass::Whitespace,
{
    CharacterClass::Whitespace
}

/// The tree of classes standing for an ASCII letter.
pub open spec fn alphabetical_class() -> CharacterClass {
    CharacterClass::Union(
        Box::new(CharacterClass::Lowercase),
        Box::new(CharacterClass::Uppercase),
    )
}

/// The tree of classes standing for a letter, an underscore or a digit.
pub open spec fn alphanumeric_class() -> CharacterClass {
    CharacterClass::Union(
        Box::new(
            CharacterClass::Union(
                Box::new(alphabetical_class()),
                Box::new(CharacterClass::Literal('_')),
            ),
        ),
        Box::new(CharacterClass::Digits),
    )
}

/// The class of ASCII letters, lowercase or uppercase.
pub fn alphabetical() -> (r: CharacterClass)
    ensures
        r == alphabetical_class(),
{
    lowercase().union(uppercase())
}

/// The class behind the alphanumeric escape: a letter, an underscore
/// or a digit.
pub fn alphanumeric() -> (r: CharacterClass)
    ensures
        r == alphanumeric_class(),
{
    alphabetical().union(literal('_')).union(digits())
}

/// Negation is complement: a negated class accepts a character
/// exactly when the class it negates does not.
pub proof fn lemma_negation_complements(class: CharacterClass, character: char)
    ensures
        char_in_class(CharacterClass::Negation(Box::new(class)), character) == !char_in_class(
            class,
            character,
        ),
{
}

} // verus!
