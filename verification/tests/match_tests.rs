use regex_engine::match_struct::combine_match;
use regex_engine::match_struct::Match;
use regex_engine::match_struct::MatchIndices;

#[test]
fn test_match_at_and_is_match() {
    let m = Match::at(2, 5);
    assert!(m.is_match());
    assert_eq!(m, Match::Matched(MatchIndices { start: 2, end: 5 }));
    assert!(!Match::NoMatch.is_match());
}

#[test]
fn test_match_or() {
    let fallback = Match::at(0, 0);
    assert_eq!(Match::NoMatch.match_or(fallback), Match::at(0, 0));
    assert_eq!(Match::at(1, 3).match_or(fallback), Match::at(1, 3));
}

#[test]
fn test_and_then() {
    let hit = Match::at(0, 2);
    let extended = hit.and_then(|indices| Match::at(indices.start, indices.end + 1));
    assert_eq!(extended, Match::at(0, 3));
    let missed = Match::NoMatch.and_then(|indices| Match::at(indices.start, indices.end + 1));
    assert_eq!(missed, Match::NoMatch);
}

#[test]
fn test_combine_match() {
    // the second span is relative to where the first one stopped
    let first = MatchIndices { start: 0, end: 4 };
    let second = MatchIndices { start: 0, end: 3 };
    assert_eq!(combine_match(&first, &second), Match::at(0, 7));
}

#[test]
fn test_default_match() {
    assert_eq!(Match::default(), Match::NoMatch);
}
