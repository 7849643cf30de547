use regex_engine::parse::split_at;

#[test]
fn test_split_at() {
    let chars: Vec<char> = "[hello] world".chars().collect();
    let result = split_at(&chars, ']');
    assert!(matches!(
        result,
        Some((
            ['[', 'h', 'e', 'l', 'l', 'o'],
            [' ', 'w', 'o', 'r', 'l', 'd']
        ))
    ));
}

#[test]
fn test_split_at_end_separator() {
    let chars: Vec<char> = "[hello]".chars().collect();
    let result = split_at(&chars, ']');
    assert!(matches!(result, Some((['[', 'h', 'e', 'l', 'l', 'o'], []))));
}

#[test]
fn test_split_at_empty() {
    let chars: Vec<char> = vec![']'];
    let result = split_at(&chars, ']');
    assert!(matches!(result, Some(([], []))));

    assert!(matches!(split_at(&[], ']'), None));
}
