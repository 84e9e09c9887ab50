use find_program_by_name::text::{contains_char, ends_with_char, join_with, split_at_char};

#[test]
fn contains_char_finds_a_character_anywhere() {
    assert!(contains_char("a/b", '/'));
    assert!(contains_char("/", '/'));
    assert!(contains_char("ab/", '/'));
    assert!(!contains_char("ab", '/'));
    assert!(!contains_char("", '/'));
    assert!(contains_char("né/e", '/'));
    assert!(contains_char("née", 'é'));
}

#[test]
fn ends_with_char_looks_at_the_last_character() {
    assert!(ends_with_char("dir/", '/'));
    assert!(ends_with_char("/", '/'));
    assert!(!ends_with_char("/dir", '/'));
    assert!(!ends_with_char("", '/'));
    assert!(ends_with_char("caf/é", 'é'));
}

#[test]
fn split_keeps_empty_pieces() {
    assert_eq!(split_at_char("/bin:/usr/bin", ':'), vec!["/bin", "/usr/bin"]);
    assert_eq!(split_at_char("a::b", ':'), vec!["a", "", "b"]);
    assert_eq!(split_at_char(":a:", ':'), vec!["", "a", ""]);
    assert_eq!(split_at_char("", ':'), vec![""]);
    assert_eq!(split_at_char(":", ':'), vec!["", ""]);
    assert_eq!(split_at_char("no separator", ':'), vec!["no separator"]);
    assert_eq!(split_at_char(".é;.ü", ';'), vec![".é", ".ü"]);
}

#[test]
fn join_puts_the_separator_between_neighbours() {
    assert_eq!(join_with(&["a", "b", "c"], ";"), "a;b;c");
    assert_eq!(join_with(&["a"], ";"), "a");
    assert_eq!(join_with(&[], ";"), "");
    assert_eq!(join_with(&["", ""], ";"), ";");
    assert_eq!(join_with(&["a", "b"], ", "), "a, b");
}

#[test]
fn join_undoes_split() {
    for list in ["/bin:/usr/bin", "", ":", "a::b:", "::"] {
        let pieces = split_at_char(list, ':');
        let parts: Vec<&str> = pieces.iter().map(|piece| piece.as_str()).collect();
        assert_eq!(join_with(&parts, ":"), list);
        assert_eq!(pieces.len(), list.matches(':').count() + 1);
        assert!(pieces.iter().all(|piece| !piece.contains(':')));
    }
}
