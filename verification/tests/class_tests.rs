use regex_engine::character_class::digits;
use regex_engine::character_class::literal;
use regex_engine::character_class::lowercase;
use regex_engine::character_class::uppercase;
use regex_engine::character_class::alphanumeric;
use regex_engine::character_class::whitespace;

#[test]
fn test_literal_matching() {
    let class = literal('a');
    assert!(class.matches('a'));
    assert!(!class.matches('b'));
}

#[test]
fn test_builtin_groups() {
    assert!(digits().matches('0'));
    assert!(digits().matches('9'));
    assert!(!digits().matches('a'));
    assert!(lowercase().matches('q'));
    assert!(!lowercase().matches('Q'));
    assert!(uppercase().matches('Q'));
    assert!(!uppercase().matches('q'));
}

#[test]
fn test_alphanumeric_group() {
    assert!(alphanumeric().matches('a'));
    assert!(alphanumeric().matches('Z'));
    assert!(alphanumeric().matches('5'));
    assert!(alphanumeric().matches('_'));
    assert!(!alphanumeric().matches('-'));
    assert!(!alphanumeric().matches('#'));
}

#[test]
fn test_whitespace_class() {
    let class = whitespace();
    assert!(class.matches(' '));
    assert!(class.matches('\t'));
    assert!(class.matches('\n'));
    assert!(!class.matches('x'));
    assert!(!class.matches('0'));
}

#[test]
fn test_union_and_negation() {
    let vowelish = literal('a').union(literal('e'));
    assert!(vowelish.matches('a'));
    assert!(vowelish.matches('e'));
    assert!(!vowelish.matches('b'));
    let consonantish = literal('a').union(literal('e')).negate();
    assert!(!consonantish.matches('a'));
    assert!(!consonantish.matches('e'));
    assert!(consonantish.matches('b'));
}

#[test]
fn test_double_negation_is_identity() {
    let class = digits().negate().negate();
    for c in ['0', '5', '9', 'a', '-', ' '] {
        assert_eq!(class.matches(c), digits().matches(c));
    }
}
