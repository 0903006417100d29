use tide_static_files::text::chars_of;

#[test]
fn chars_of_lists_every_character() {
    assert_eq!(chars_of(""), Vec::<char>::new());
    assert_eq!(chars_of("a/b"), vec!['a', '/', 'b']);
    assert_eq!(chars_of("..\\*"), vec!['.', '.', '\\', '*']);
}

#[test]
fn chars_of_counts_characters_not_bytes() {
    assert_eq!(chars_of("é日x"), vec!['é', '日', 'x']);
    assert_eq!(chars_of("é日x").len(), 3);
}
