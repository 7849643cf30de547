//! A minimal regular-expression engine.
//!
//! A pattern string is compiled into a tree of matching primitives
//! (literals, character classes, concatenation, alternation, greedy
//! quantifiers with backtracking, and line anchors), and the tree is
//! evaluated against a line of text to decide whether the pattern
//! occurs anywhere in it.
//!
//! Matching operates on sequences of Unicode scalar values, never on
//! raw bytes, and every operation is specified and verified against a
//! mathematical description of the grammar and of the matching
//! algorithm.

pub mod character_class;
pub mod character_pattern;
pub mod match_struct;
pub mod matching;
pub mod parse;
pub mod pattern;
