use regex_engine::character_pattern::literal;
use regex_engine::character_pattern::literal_str;
use regex_engine::matching::construct_pattern_from_str;
use regex_engine::pattern::one_or_more;
use regex_engine::matching::ParsePatternError::InvalidEndLineAnchor;
use regex_engine::matching::ParsePatternError::InvalidStartLineAnchor;
use regex_engine::matching::ParsePatternError::UnmatchedBracket;

fn match_pattern(input_line: &str, pattern: &str) -> bool {
    match construct_pattern_from_str(pattern) {
        Err(error) => panic!("Invalid pattern: {error:?}"),
        Ok(pattern) => pattern.matches(input_line),
    }
}

#[test]
fn match_single_char() {
    assert!(match_pattern("a", "a"));
    assert!(match_pattern("hello", "e"));
    assert!(!match_pattern("hello", "a"));
}

#[test]
fn match_digit() {
    assert!(match_pattern("1", "\\d"));
    assert!(match_pattern("hell1o", "\\d"));
    assert!(match_pattern("1235a", "\\d"));
    assert!(!match_pattern("hello", "\\d"));
}

#[test]
fn match_alpha() {
    assert!(match_pattern("a", "\\w"));
    assert!(match_pattern("hell1o", "\\w"));
    assert!(match_pattern("1235a", "\\w"));
    assert!(match_pattern("hello", "\\w"));
    assert!(match_pattern("1", "\\w"));
    assert!(match_pattern("_", "\\w"));
    assert!(!match_pattern("[]/.,", "\\w"));
}

#[test]
fn match_character_groups() {
    assert!(match_pattern("a", "[abc]"));
    assert!(match_pattern("123cd5", "[abc]"));
    assert!(match_pattern("12b2", "[abc]"));
    assert!(!match_pattern("hello", "[abc]"));
}

#[test]
fn match_negative_character_groups() {
    assert!(!match_pattern("a", "[^abc]"));
    assert!(!match_pattern("cab", "[^abc]"));
    assert!(match_pattern("scab", "[^abc]"));
    assert!(match_pattern("123cd5", "[^abc]"));
    assert!(match_pattern("12b2", "[^abc]"));
    assert!(match_pattern("hello", "[^abc]"));
}

#[test]
fn match_consecutive_characters() {
    assert!(match_pattern("hello world", "world"));
    assert!(!match_pattern("hello worl d", "world"));
    assert!(match_pattern("1 apple", "\\d apple"));
    assert!(!match_pattern("1a apple", "\\d apple"));
    assert!(match_pattern("100 apples", "\\d\\d\\d apple"));
    assert!(!match_pattern("10 apples", "\\d\\d\\d apple"));
    assert!(!match_pattern("two apples", "\\d\\d\\d apple"));
    assert!(match_pattern("2 dogs", "\\d \\w\\w\\ws"));
    assert!(match_pattern("3 cats", "\\d \\w\\w\\ws"));
    assert!(!match_pattern("1 dog", "\\d \\w\\w\\ws"));
}

#[test]
fn match_consecutive_character_groups() {
    assert!(match_pattern("ad", "[abc][def]"));
    assert!(match_pattern("bf", "[abc][def]"));
    assert!(!match_pattern("da", "[abc][def]"));
    assert!(match_pattern("a 1z d", "[abc] \\d\\w [def]"));
    assert!(!match_pattern("a 1z g", "[abc] \\d\\w [def]"));
}

#[test]
fn handle_unicode() {
    assert!(match_pattern("#-×_=%-", "\\w"));
    assert!(!match_pattern("%=#÷+×", "\\w"));
}

#[test]
fn handle_start_line_anchor() {
    assert!(match_pattern("abcd", "^a"));
    assert!(!match_pattern(" abcd", "^a"));
    assert!(!match_pattern("baaaa", "^a"));
}

#[test]
fn handle_end_line_anchor() {
    assert!(match_pattern("dog", "dog$"));
    assert!(match_pattern("one dog", "dog$"));
    assert!(!match_pattern("dogs", "dog$"));
    assert!(!match_pattern("two dogs", "dog$"));
}

#[test]
fn handle_start_and_end_anchors() {
    assert!(match_pattern("dog", "^dog$"));
    assert!(!match_pattern("dog dog", "^dog$"));
}

#[test]
fn report_unmatching_brackets() {
    let error = construct_pattern_from_str("[abcde").err();
    assert_eq!(error, Some(UnmatchedBracket(0)));
    let error = construct_pattern_from_str("ab[cde").err();
    assert_eq!(error, Some(UnmatchedBracket(2)));
    let error = construct_pattern_from_str("[ab][cde").err();
    assert_eq!(error, Some(UnmatchedBracket(4)));
}

#[test]
fn report_invalid_start_line_anchor() {
    let error = construct_pattern_from_str("a^bcde").err();
    assert_eq!(error, Some(InvalidStartLineAnchor(1)));
    let error = construct_pattern_from_str(" ^ab[cde").err();
    assert_eq!(error, Some(InvalidStartLineAnchor(1)));
    let error = construct_pattern_from_str("[ab]^cde").err();
    assert_eq!(error, Some(InvalidStartLineAnchor(4)));
}

#[test]
fn report_invalid_end_line_anchor() {
    let error = construct_pattern_from_str("abcd$e").err();
    assert_eq!(error, Some(InvalidEndLineAnchor(4)));
    let error = construct_pattern_from_str(" a$b[cde").err();
    assert_eq!(error, Some(InvalidEndLineAnchor(2)));
    let error = construct_pattern_from_str("[ab]c$de").err();
    assert_eq!(error, Some(InvalidEndLineAnchor(5)));
}

#[test]
fn empty_pattern_matches_every_text() {
    assert!(match_pattern("", ""));
    assert!(match_pattern("a", ""));
    assert!(match_pattern("hello world", ""));
    assert!(match_pattern("#-×_=%-", ""));
}

#[test]
fn anchored_word_matches_only_itself() {
    assert!(match_pattern("abc", "^abc$"));
    assert!(!match_pattern("abcabc", "^abc$"));
    assert!(!match_pattern("ab", "^abc$"));
    assert!(!match_pattern("xabc", "^abc$"));
    assert!(!match_pattern("abcx", "^abc$"));
    assert!(!match_pattern("", "^abc$"));
}

#[test]
fn unrecognized_escape_is_a_literal_pair() {
    assert!(match_pattern("\\*", "\\*"));
    assert!(match_pattern("a\\*b", "\\*"));
    assert!(!match_pattern("*", "\\*"));
    assert!(!match_pattern("\\", "\\*"));
}

#[test]
fn bracket_negation_complements_inclusion() {
    for c in "abcdefghijklmnopqrstuvwxyz0123456789 _#".chars() {
        let text = c.to_string();
        assert_ne!(
            match_pattern(&text, "[abc]"),
            match_pattern(&text, "[^abc]")
        );
    }
}

#[test]
fn malformed_patterns_report_their_column() {
    assert_eq!(
        construct_pattern_from_str("[abc").err(),
        Some(UnmatchedBracket(0))
    );
    assert_eq!(
        construct_pattern_from_str("a^b").err(),
        Some(InvalidStartLineAnchor(1))
    );
    assert_eq!(
        construct_pattern_from_str("a$b").err(),
        Some(InvalidEndLineAnchor(1))
    );
}

#[test]
fn nested_start_anchor_is_rejected() {
    assert_eq!(
        construct_pattern_from_str("^^a").err(),
        Some(InvalidStartLineAnchor(1))
    );
    assert_eq!(
        construct_pattern_from_str("^^").err(),
        Some(InvalidStartLineAnchor(1))
    );
    assert_eq!(
        construct_pattern_from_str("^^abc$").err(),
        Some(InvalidStartLineAnchor(1))
    );
    assert!(construct_pattern_from_str("^a").is_ok());
    assert!(construct_pattern_from_str("^abc$").is_ok());
}

#[test]
fn escapes_inside_brackets() {
    assert!(match_pattern("5", "[\\d]"));
    assert!(!match_pattern("x", "[\\d]"));
    assert!(match_pattern("x", "[\\dx]"));
    assert!(!match_pattern("5", "[^\\d]"));
    assert!(match_pattern("x", "[^\\d]"));
}

#[test]
fn search_with_backtracking_quantifier() {
    let pattern = one_or_more(literal('a')).followed_by(literal_str("ab"));
    assert!(!pattern.matches("a"));
    assert!(!pattern.matches("ab"));
    assert!(pattern.matches("aab"));
    assert!(pattern.matches("aaab"));
}
