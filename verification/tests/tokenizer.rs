use vshell::Shell;
use vshell::Stream;
use vshell::tokenize::tokenize;

fn args_of(line: &str) -> Vec<String> {
    tokenize(line).0
}

#[test]
fn single_quotes_preserve_internal_spaces() {
    let toks = args_of("echo 'a  b'");
    assert_eq!(toks, vec!["echo".to_string(), "a  b".to_string()]);
}

#[test]
fn double_quote_escape_keeps_quote() {
    let toks = args_of("echo \"a\\\"b\"");
    assert_eq!(toks, vec!["echo".to_string(), "a\"b".to_string()]);
}

#[test]
fn plain_words_split_on_spaces() {
    let toks = args_of("ls   -l  -a");
    assert_eq!(toks, vec!["ls".to_string(), "-l".to_string(), "-a".to_string()]);
}

#[test]
fn stdout_redirect_truncate() {
    let (toks, reds) = tokenize("echo hi > out.txt");
    assert_eq!(toks, vec!["echo".to_string(), "hi".to_string()]);
    assert_eq!(reds.len(), 1);
    assert_eq!(reds[0].stream, Stream::Stdout);
    assert_eq!(reds[0].target, "out.txt");
    assert!(!reds[0].append);
}

#[test]
fn stdout_redirect_append() {
    let (toks, reds) = tokenize("echo hi >> out.txt");
    assert_eq!(toks, vec!["echo".to_string(), "hi".to_string()]);
    assert_eq!(reds.len(), 1);
    assert_eq!(reds[0].stream, Stream::Stdout);
    assert_eq!(reds[0].target, "out.txt");
    assert!(reds[0].append);
}

#[test]
fn stderr_redirect() {
    let (toks, reds) = tokenize("ls 2> err.txt");
    assert_eq!(toks, vec!["ls".to_string()]);
    assert_eq!(reds.len(), 1);
    assert_eq!(reds[0].stream, Stream::Stderr);
    assert_eq!(reds[0].target, "err.txt");
    assert!(!reds[0].append);
}

#[test]
fn explicit_stdout_digit_redirect() {
    let (toks, reds) = tokenize("cmd 1> f");
    assert_eq!(toks, vec!["cmd".to_string()]);
    assert_eq!(reds.len(), 1);
    assert_eq!(reds[0].stream, Stream::Stdout);
    assert_eq!(reds[0].target, "f");
}

#[test]
fn stderr_append_redirect() {
    let (_, reds) = tokenize("cmd 2>> log");
    assert_eq!(reds.len(), 1);
    assert_eq!(reds[0].stream, Stream::Stderr);
    assert!(reds[0].append);
    assert_eq!(reds[0].target, "log");
}

#[test]
fn redirect_without_space_before_target() {
    let (toks, reds) = tokenize("echo hi >out.txt");
    assert_eq!(toks, vec!["echo".to_string(), "hi".to_string()]);
    assert_eq!(reds.len(), 1);
    assert_eq!(reds[0].target, "out.txt");
}

#[test]
fn redirect_with_quoted_target() {
    let (_, reds) = tokenize("echo hi > 'my file.txt'");
    assert_eq!(reds.len(), 1);
    assert_eq!(reds[0].target, "my file.txt");
}

#[test]
fn redirect_without_target_is_dropped() {
    let (toks, reds) = tokenize("echo hi >");
    assert_eq!(toks, vec!["echo".to_string(), "hi".to_string()]);
    assert_eq!(reds.len(), 0);
}

#[test]
fn two_redirects_keep_order() {
    let (toks, reds) = tokenize("cmd > a 2> b");
    assert_eq!(toks, vec!["cmd".to_string()]);
    assert_eq!(reds.len(), 2);
    assert_eq!(reds[0].stream, Stream::Stdout);
    assert_eq!(reds[0].target, "a");
    assert_eq!(reds[1].stream, Stream::Stderr);
    assert_eq!(reds[1].target, "b");
}

#[test]
fn argument_before_redirect_is_flushed() {
    let (toks, reds) = tokenize("echo abc> f");
    assert_eq!(toks, vec!["echo".to_string(), "abc".to_string()]);
    assert_eq!(reds.len(), 1);
    assert_eq!(reds[0].stream, Stream::Stdout);
}

#[test]
fn backslash_outside_quotes_escapes_anything() {
    let toks = args_of("echo a\\ b");
    assert_eq!(toks, vec!["echo".to_string(), "a b".to_string()]);
}

#[test]
fn backslash_in_double_quotes_is_selective() {
    // \$ and \\ are escapes; \x keeps the backslash
    let toks = args_of("echo \"\\$HOME \\\\ \\x\"");
    assert_eq!(toks, vec!["echo".to_string(), "$HOME \\ \\x".to_string()]);
}

#[test]
fn single_quotes_are_fully_literal() {
    let toks = args_of("echo '\\n \"q\" $v'");
    assert_eq!(toks, vec!["echo".to_string(), "\\n \"q\" $v".to_string()]);
}

#[test]
fn adjacent_quoted_pieces_join() {
    let toks = args_of("echo 'a'b\"c\"");
    assert_eq!(toks, vec!["echo".to_string(), "abc".to_string()]);
}

#[test]
fn empty_line_gives_nothing() {
    let (toks, reds) = tokenize("");
    assert!(toks.is_empty());
    assert!(reds.is_empty());
}

#[test]
fn quoted_redirect_char_is_literal() {
    let toks = args_of("echo '>' x");
    assert_eq!(toks, vec!["echo".to_string(), ">".to_string(), "x".to_string()]);
}

#[test]
fn parse_arguments_drops_redirects() {
    let toks = Shell::parse_arguments("a b > f c");
    assert_eq!(toks, vec!["a".to_string(), "b".to_string(), "c".to_string()]);
}

#[test]
fn unterminated_quote_keeps_accumulated_text() {
    let toks = args_of("echo 'abc");
    assert_eq!(toks, vec!["echo".to_string(), "abc".to_string()]);
}
