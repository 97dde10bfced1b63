use enigma::commands::args::split_args;

#[test]
fn split_simple_words() {
    assert_eq!(vec!["foo".to_string(), "bar".to_string()], split_args("foo bar"));
}

#[test]
fn split_skip_spaces() {
    assert_eq!(
        vec!["foo".to_string(), "bar".to_string(), "zmosh".to_string()],
        split_args("foo    bar    zmosh")
    );
}

#[test]
fn split_skip_leading_and_trailing_spaces() {
    assert_eq!(vec!["foo".to_string(), "bar".to_string()], split_args("    foo    bar"));
    assert_eq!(vec!["foo".to_string(), "bar".to_string()], split_args("foo    bar     "));
    assert_eq!(vec!["foo".to_string(), "bar".to_string()], split_args("    foo    bar     "));
}

#[test]
fn split_skip_whitespace_characters() {
    assert_eq!(vec!["foo".to_string(), "bar".to_string()], split_args("foo\t \tbar"));
}

#[test]
fn split_preserve_quotes() {
    assert_eq!(
        vec!["foo".to_string(), "bar is quoted".to_string()],
        split_args("foo   \"bar is quoted\"  ")
    );
    assert_eq!(
        vec!["foo is quoted".to_string(), "bar is quoted".to_string()],
        split_args("\"foo is quoted\"   \"bar is quoted\"  ")
    );
}

#[test]
fn split_single_characters() {
    assert_eq!(vec!["a".to_string(), "b".to_string()], split_args("a b"));
}

#[test]
fn split_empty_input_has_no_tokens() {
    assert_eq!(Vec::<String>::new(), split_args(""));
    assert_eq!(Vec::<String>::new(), split_args("   "));
}
