use syncth::ident::{generate_id, join_segments};

#[test]
fn generated_identifiers_have_two_segments() {
    for _ in 0..200 {
        let id = generate_id();
        let chars: Vec<char> = id.chars().collect();
        assert_eq!(chars.len(), 11);
        assert_eq!(chars[5], '-');
        for (i, c) in chars.iter().enumerate() {
            if i != 5 {
                assert!(c.is_ascii_alphanumeric(), "{}", id);
            }
        }
    }
}

#[test]
fn generated_identifiers_differ() {
    let first = generate_id();
    let others: Vec<String> = (0..20).map(|_| generate_id()).collect();
    assert!(others.iter().any(|id| *id != first));
}

#[test]
fn segments_are_joined_by_a_hyphen() {
    assert_eq!(join_segments(&vec!['a', 'b'], &vec!['c']), "ab-c");
    assert_eq!(join_segments(&vec![], &vec![]), "-");
    assert_eq!(join_segments(&"abc12".chars().collect(), &"xyz34".chars().collect()), "abc12-xyz34");
}
