use regex_engine::character_pattern::literal;
use regex_engine::character_pattern::literal_str;
use regex_engine::match_struct::Match;
use regex_engine::pattern::alternating;
use regex_engine::pattern::always_match;
use regex_engine::pattern::end_line_anchor;
use regex_engine::pattern::one_or_more;
use regex_engine::pattern::start_line_anchor;
use regex_engine::pattern::union;
use regex_engine::pattern::wildcard;
use regex_engine::pattern::zero_or_one;

#[test]
fn always_matches() {
    let pattern = always_match();
    assert!(pattern.matches_exact_str("hello").is_match());
    assert!(pattern.matches_exact_str("h").is_match());
    assert!(pattern.matches_exact_str("").is_match());
}

#[test]
fn test_match() {
    let pattern = literal('a');
    assert_eq!(pattern.matches_exact_str("abcd"), Match::at(0, 1));
    assert_eq!(pattern.matches_exact_str("babcd"), Match::NoMatch);
    assert_eq!(pattern.matches_exact_str("b"), Match::NoMatch);
    assert_eq!(pattern.matches_exact_str(""), Match::NoMatch);
}

#[test]
fn test_matches() {
    let pattern = literal('a');
    assert!(!pattern.matches_exact_str("bacd").is_match());
    assert!(pattern.matches("bacd"));
    assert!(pattern.matches("a"));
    assert!(pattern.matches("super long sentence with a"));
}

#[test]
fn test_matches_handles_unicode() {
    assert!(literal('×').matches("#-×_=%-"));
    assert!(literal('-').matches("#-×_=%-"));
    assert!(!literal('a').matches("#-×_=%-"));
}

#[test]
fn start_line_anchor_test_start_line_anchor() {
    let pattern = start_line_anchor(literal('a'));
    assert!(pattern.matches("abcd"));
    assert!(!pattern.matches(" abcd"));
    assert!(!pattern.matches("baaaaa"));
}

#[test]
fn end_line_anchor_test_start_line_anchor() {
    let pattern = end_line_anchor(literal('a').followed_by(literal('b')));
    assert!(pattern.matches("cab"));
    assert!(pattern.matches("ab"));
    assert!(!pattern.matches("abc"));
}

#[test]
fn test_simple_repeat() {
    let pattern = one_or_more(literal('a'));
    assert_eq!(pattern.matches_exact_str(""), Match::NoMatch);
    assert_eq!(pattern.matches_exact_str("a"), Match::at(0, 1));
    assert_eq!(pattern.matches_exact_str("aaa"), Match::at(0, 3));
    assert_eq!(pattern.matches_exact_str("aaab"), Match::at(0, 3));
}

#[test]
fn test_complex_repeat() {
    let pattern = one_or_more(literal_str("ab"));
    assert_eq!(pattern.matches_exact_str(""), Match::NoMatch);
    assert_eq!(pattern.matches_exact_str("ab"), Match::at(0, 2));
    assert_eq!(pattern.matches_exact_str("abab"), Match::at(0, 4));
    assert_eq!(pattern.matches_exact_str("ababa"), Match::at(0, 4));
    assert_eq!(pattern.matches_exact_str("abaab"), Match::at(0, 2));
}

#[test]
fn test_repeat_followed_by_pattern() {
    let pattern = one_or_more(literal('a')).followed_by(literal_str("ab"));
    assert_eq!(pattern.matches_exact_str(""), Match::NoMatch);
    assert_eq!(pattern.matches_exact_str("a"), Match::NoMatch);
    assert_eq!(pattern.matches_exact_str("aa"), Match::NoMatch);
    assert_eq!(pattern.matches_exact_str("ab"), Match::NoMatch);
    assert_eq!(pattern.matches_exact_str("aab"), Match::at(0, 3));
    assert_eq!(pattern.matches_exact_str("aaab"), Match::at(0, 4));
}

#[test]
fn test_complex_repeat_followed_by_pattern() {
    let pattern = one_or_more(literal_str("ab")).followed_by(literal_str("ab"));
    assert_eq!(pattern.matches_exact_str(""), Match::NoMatch);
    assert_eq!(pattern.matches_exact_str("ab"), Match::NoMatch);
    assert_eq!(pattern.matches_exact_str("aba"), Match::NoMatch);
    assert_eq!(pattern.matches_exact_str("abab"), Match::at(0, 4));
    assert_eq!(pattern.matches_exact_str("ababab"), Match::at(0, 6));
}

#[test]
fn test_literal_combination() {
    let combined = literal('a').followed_by(literal('b'));
    assert_eq!(combined.matches_exact_str("abcd"), Match::at(0, 2));
    assert_eq!(combined.matches_exact_str("aabcd"), Match::NoMatch);
    assert_eq!(combined.matches_exact_str("a"), Match::NoMatch);
    assert_eq!(combined.matches_exact_str(""), Match::NoMatch);
}

#[test]
fn test_literal_combination_of_three_characters() {
    let combined3 = literal('a')
        .followed_by(literal('b'))
        .followed_by(literal('c'));
    assert_eq!(combined3.matches_exact_str("abcd"), Match::at(0, 3));
    assert_eq!(combined3.matches_exact_str("aabcd"), Match::NoMatch);
    assert_eq!(combined3.matches_exact_str("ab"), Match::NoMatch);
    assert_eq!(combined3.matches_exact_str("a"), Match::NoMatch);
    assert_eq!(combined3.matches_exact_str(""), Match::NoMatch);
}

#[test]
fn test_union_handles_unicode() {
    let combined = literal('#')
        .followed_by(literal('-'))
        .followed_by(literal('×'))
        .followed_by(literal('_'));
    assert_eq!(combined.matches_exact_str("#-×_=%-"), Match::at(0, 4))
}

#[test]
fn test_isolated_pattern() {
    let pattern = zero_or_one(literal('a'));
    assert_eq!(pattern.matches_exact_str("a"), Match::at(0, 1));
    assert_eq!(pattern.matches_exact_str(""), Match::at(0, 0));
    assert_eq!(pattern.matches_exact_str("aa"), Match::at(0, 1));
    assert_eq!(pattern.matches_exact_str("b"), Match::at(0, 0));
}

#[test]
fn test_complex_isolated_pattern() {
    let pattern = zero_or_one(literal_str("ab"));
    assert_eq!(pattern.matches_exact_str("a"), Match::at(0, 0));
    assert_eq!(pattern.matches_exact_str(""), Match::at(0, 0));
    assert_eq!(pattern.matches_exact_str("aa"), Match::at(0, 0));
    assert_eq!(pattern.matches_exact_str("b"), Match::at(0, 0));
    assert_eq!(pattern.matches_exact_str("ab"), Match::at(0, 2));
    assert_eq!(pattern.matches_exact_str("abab"), Match::at(0, 2));
}

#[test]
fn test_chaining_patterns() {
    let pattern = literal('a')
        .followed_by(zero_or_one(literal('b')).followed_by(literal_str("bc")));
    assert_eq!(pattern.matches_exact_str("ac"), Match::NoMatch);
    assert_eq!(pattern.matches_exact_str("abc"), Match::at(0, 3));
    assert_eq!(pattern.matches_exact_str("abbc"), Match::at(0, 4));
}

#[test]
fn test_chaining_multiple() {
    let pattern = literal('a').followed_by(
        zero_or_one(literal('b'))
            .followed_by(zero_or_one(literal('b')).followed_by(literal_str("bc"))),
    );
    assert_eq!(pattern.matches_exact_str("ac"), Match::NoMatch);
    assert_eq!(pattern.matches_exact_str("abc"), Match::at(0, 3));
    assert_eq!(pattern.matches_exact_str("abbc"), Match::at(0, 4));
    assert_eq!(pattern.matches_exact_str("abbbc"), Match::at(0, 5));
}

#[test]
fn test_wildcard() {
    let pattern = wildcard();
    assert_eq!(pattern.matches_exact_str("a"), Match::at(0, 1));
    assert_eq!(pattern.matches_exact_str("×"), Match::at(0, 1));
    assert_eq!(pattern.matches_exact_str(""), Match::NoMatch);
}

#[test]
fn test_alternation_with_continuation() {
    // both branches must be tried together with the following pattern
    let pattern = alternating(literal_str("ab"), literal('a')).followed_by(literal('c'));
    assert_eq!(pattern.matches_exact_str("abc"), Match::at(0, 3));
    assert_eq!(pattern.matches_exact_str("ac"), Match::at(0, 2));
    assert_eq!(pattern.matches_exact_str("bc"), Match::NoMatch);
}

#[test]
fn test_always_match_is_concatenation_identity() {
    for text in ["", "a", "ba", "hello"] {
        let plain = literal('a');
        let padded_left = union(always_match(), literal('a'));
        let padded_right = union(literal('a'), always_match());
        assert_eq!(padded_left.matches_exact_str(text), plain.matches_exact_str(text));
        assert_eq!(padded_right.matches_exact_str(text), plain.matches_exact_str(text));
    }
}

#[test]
fn test_greedy_backtracks_one_repetition_at_a_time() {
    // greedy run of four gives back just enough for the tail
    let pattern = one_or_more(literal('a')).followed_by(literal_str("aa"));
    assert_eq!(pattern.matches_exact_str("aaaa"), Match::at(0, 4));
    assert_eq!(pattern.matches_exact_str("aaa"), Match::at(0, 3));
    assert_eq!(pattern.matches_exact_str("aa"), Match::NoMatch);
}
