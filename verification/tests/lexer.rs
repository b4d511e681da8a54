use rsh::lex;

#[test]
fn collapses_whitespace_runs() {
    let toks = lex("echo script     shell").unwrap();
    assert_eq!(toks, vec!["echo", "script", "shell"]);
}

#[test]
fn single_quotes_concatenate() {
    let toks = lex("echo 'world     hello' 'shell''example'").unwrap();
    assert_eq!(toks, vec!["echo", "world     hello", "shellexample"]);
}

#[test]
fn double_quotes_concatenate() {
    let toks = lex("echo \"world     hello\" \"shell\"\"example\"").unwrap();
    assert_eq!(toks, vec!["echo", "world     hello", "shellexample"]);
}

#[test]
fn plain_path_tokens() {
    let toks = lex("cd /tmp/blueberry/pineapple/apple").unwrap();
    assert_eq!(toks, vec!["cd", "/tmp/blueberry/pineapple/apple"]);
}

#[test]
fn single_token() {
    let toks = lex("pwd").unwrap();
    assert_eq!(toks, vec!["pwd"]);
}

#[test]
fn tilde_token() {
    let toks = lex("cd ~").unwrap();
    assert_eq!(toks, vec!["cd", "~"]);
}

#[test]
fn relative_path_tokens() {
    let toks = lex("cd ./raspberry/raspberry").unwrap();
    assert_eq!(toks, vec!["cd", "./raspberry/raspberry"]);
}

#[test]
fn dashed_path_tokens() {
    let toks = lex("cd /non-existing-directory").unwrap();
    assert_eq!(toks, vec!["cd", "/non-existing-directory"]);
}

#[test]
fn external_name_and_arg() {
    let toks = lex("custom_exe_6510 Alice").unwrap();
    assert_eq!(toks, vec!["custom_exe_6510", "Alice"]);
}

#[test]
fn escaped_spaces_preserved() {
    let toks = lex(r"echo world\ \ \ \ \ \ test").unwrap();
    assert_eq!(toks, vec!["echo", "world      test"]);
}

#[test]
fn backslash_kept_before_plain_char_in_double_quotes() {
    let toks = lex(r#"echo "before\   after""#).unwrap();
    assert_eq!(toks, vec!["echo", r"before\   after"]);
}

#[test]
fn double_quote_escapes_special_chars() {
    let toks = lex(r#"echo "a\"b\\c\$d\`e""#).unwrap();
    assert_eq!(toks, vec!["echo", r#"a"b\c$d`e"#]);
}

#[test]
fn single_quotes_take_everything_literally() {
    let toks = lex(r"echo 'a\b'").unwrap();
    assert_eq!(toks, vec!["echo", r"a\b"]);
}

#[test]
fn unterminated_single_quote_fails() {
    let err = lex("echo 'oops").unwrap_err();
    assert_eq!(err, "Unterminated quote detected");
}

#[test]
fn unterminated_double_quote_fails() {
    let err = lex("echo \"oops").unwrap_err();
    assert_eq!(err, "Unterminated quote detected");
}

#[test]
fn dangling_backslash_in_double_quotes_fails() {
    let err = lex("echo \"abc\\").unwrap_err();
    assert_eq!(err, "Unterminated quote detected");
}

#[test]
fn trailing_backslash_dropped() {
    let toks = lex("abc\\").unwrap();
    assert_eq!(toks, vec!["abc"]);
}

#[test]
fn empty_input_yields_no_tokens() {
    let toks = lex("").unwrap();
    assert_eq!(toks, Vec::<String>::new());
}

#[test]
fn whitespace_only_yields_no_tokens() {
    let toks = lex("   \t  ").unwrap();
    assert_eq!(toks, Vec::<String>::new());
}

#[test]
fn tokenizing_twice_is_deterministic() {
    let line = "echo 'world     hello' shell\\ example";
    let first = lex(line).unwrap();
    let second = lex(line).unwrap();
    assert_eq!(first, second);
}
