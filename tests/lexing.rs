use tinyshell::lexer::{tokenize, LexError, LineTokenIter};

fn words(v: &[&str]) -> Vec<String> {
    v.iter().map(|s| s.to_string()).collect()
}

#[test]
fn collapses_runs_of_spaces() {
    let (tokens, tail) = tokenize("echo  hello   world").unwrap();
    assert_eq!(tokens, words(&["echo", "hello", "world"]));
    assert_eq!(tail, None);
}

#[test]
fn double_quotes_keep_spaces() {
    let (tokens, tail) = tokenize("echo \"a b\" c").unwrap();
    assert_eq!(tokens, words(&["echo", "a b", "c"]));
    assert_eq!(tail, None);
}

#[test]
fn single_quotes_keep_backslashes() {
    let (tokens, _) = tokenize("echo 'a\\b  c'").unwrap();
    assert_eq!(tokens, words(&["echo", "a\\b  c"]));
}

#[test]
fn redirection_tail_is_cut_off() {
    let (tokens, tail) = tokenize("cat file > out.txt").unwrap();
    assert_eq!(tokens, words(&["cat", "file"]));
    assert_eq!(tail, Some("> out.txt".to_string()));
}

#[test]
fn stream_prefix_joins_the_tail() {
    let (tokens, tail) = tokenize("ls missing 2>> err.log").unwrap();
    assert_eq!(tokens, words(&["ls", "missing"]));
    assert_eq!(tail, Some("2>> err.log".to_string()));
    let (tokens, tail) = tokenize("ls &> all.log").unwrap();
    assert_eq!(tokens, words(&["ls"]));
    assert_eq!(tail, Some("&> all.log".to_string()));
}

#[test]
fn word_glued_to_angle_stays_a_word() {
    let (tokens, tail) = tokenize("echo hi>out").unwrap();
    assert_eq!(tokens, words(&["echo", "hi"]));
    assert_eq!(tail, Some(">out".to_string()));
}

#[test]
fn unquoted_backslash_escapes_next_char() {
    let (tokens, _) = tokenize("echo a\\ b \\\"q\\\"").unwrap();
    assert_eq!(tokens, words(&["echo", "a b", "\"q\""]));
}

#[test]
fn backslash_in_double_quotes() {
    let (tokens, _) = tokenize("echo \"x\\$y\\\\z\\n\"").unwrap();
    assert_eq!(tokens, words(&["echo", "x$y\\z\\n"]));
}

#[test]
fn quoted_angle_is_literal() {
    let (tokens, tail) = tokenize("echo \"a>b\"").unwrap();
    assert_eq!(tokens, words(&["echo", "a>b"]));
    assert_eq!(tail, None);
}

#[test]
fn trailing_backslash_is_an_error() {
    assert_eq!(tokenize("echo a\\"), Err(LexError::UnterminatedEscape));
    assert_eq!(tokenize("echo \"a\\"), Err(LexError::UnterminatedEscape));
}

#[test]
fn escaped_trailing_backslash_is_fine() {
    let (tokens, _) = tokenize("echo a\\\\").unwrap();
    assert_eq!(tokens, words(&["echo", "a\\"]));
}

#[test]
fn empty_and_blank_lines_give_no_words() {
    assert_eq!(tokenize("").unwrap(), (vec![], None));
    assert_eq!(tokenize("   \n").unwrap(), (vec![], None));
    let (tokens, _) = tokenize("echo \"\" ''").unwrap();
    assert_eq!(tokens, words(&["echo"]));
}

#[test]
fn newline_ends_a_word() {
    let (tokens, _) = tokenize("echo hello\n").unwrap();
    assert_eq!(tokens, words(&["echo", "hello"]));
}

#[test]
fn lexing_is_reproducible() {
    let line = "printf '%s' \"a  b\" c\\ d 2> e";
    assert_eq!(tokenize(line), tokenize(line));
}

#[test]
fn iterator_hands_out_words_in_order() {
    let mut it = LineTokenIter::new("cat a b > out.txt").unwrap();
    assert_eq!(it.raw_redirection(), Some("> out.txt".to_string()));
    assert_eq!(it.next(), Some("cat".to_string()));
    assert_eq!(it.next(), Some("a".to_string()));
    let r = it.redirection().unwrap();
    assert_eq!(r.target, "out.txt");
    assert_eq!(it.rest(), words(&["b"]));
}

#[test]
fn iterator_reports_lex_errors() {
    assert!(matches!(LineTokenIter::new("x\\"), Err(LexError::UnterminatedEscape)));
}
