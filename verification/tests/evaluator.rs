use vshell::Action;
use vshell::CdDecision;
use vshell::DirListing;
use vshell::FileEntry;
use vshell::FsView;
use vshell::Redirect;
use vshell::Shell;
use vshell::Stream;
use vshell::cd_outcome;
use vshell::cd_target;
use vshell::echo_text;
use vshell::effective_redirect;
use vshell::exit_code;
use vshell::not_found_message;
use vshell::parse_i32;

fn entry(name: &str) -> FileEntry {
    FileEntry { name: name.to_string(), is_file: true, mode: 0o755 }
}

fn shell_with_line(line: &str, paths: &str) -> Shell {
    let mut sh = Shell::new(paths);
    sh.set_line(line.to_string());
    sh
}

fn fs_for(sh: &Shell, per_dir: Vec<Vec<FileEntry>>) -> FsView {
    assert_eq!(sh.paths.len(), per_dir.len());
    FsView { dirs: per_dir.into_iter().map(|entries| DirListing { entries }).collect() }
}

#[test]
fn new_splits_search_paths() {
    let sh = Shell::new("/usr/bin:/bin");
    assert_eq!(sh.paths, vec!["/usr/bin".to_string(), "/bin".to_string()]);
    assert_eq!(sh.builtins, vec!["echo", "exit", "type", "pwd", "cd"]);
}

#[test]
fn parse_path_keeps_empty_pieces() {
    assert_eq!(Shell::parse_path(""), vec!["".to_string()]);
    assert_eq!(Shell::parse_path("a::b"), vec!["a".to_string(), "".to_string(), "b".to_string()]);
}

#[test]
fn is_executable_needs_file_and_exec_bit() {
    assert!(Shell::is_executable(true, 0o755));
    assert!(Shell::is_executable(true, 0o100));
    assert!(!Shell::is_executable(true, 0o644));
    assert!(!Shell::is_executable(false, 0o755));
}

#[test]
fn find_executable_takes_first_path_in_order() {
    let sh = Shell::new("/a:/b");
    let fs = fs_for(&sh, vec![vec![entry("tool")], vec![entry("tool")]]);
    assert_eq!(sh.find_executable("tool", &fs), Some("/a/tool".to_string()));
}

#[test]
fn find_executable_skips_nonmatching_dirs() {
    let sh = Shell::new("/a:/b");
    let fs = fs_for(&sh, vec![vec![entry("other")], vec![entry("tool")]]);
    assert_eq!(sh.find_executable("tool", &fs), Some("/b/tool".to_string()));
    assert_eq!(sh.find_executable("missing", &fs), None);
}

#[test]
fn parse_splits_name_args_and_redirects() {
    let sh = shell_with_line("echo hi there > out\n", "/bin");
    let parsed = sh.parse();
    assert_eq!(parsed.name, "echo");
    assert_eq!(parsed.cmd.args, vec!["hi".to_string(), "there".to_string()]);
    assert_eq!(parsed.cmd.redirects.len(), 1);
    assert_eq!(parsed.cmd.redirects[0].target, "out");
}

#[test]
fn eval_empty_line_does_nothing() {
    let sh = shell_with_line("   \n", "/bin");
    let fs = fs_for(&sh, vec![Vec::new()]);
    let ev = sh.eval("/home/u", &fs);
    assert!(matches!(ev.action, Action::Nothing));
}

#[test]
fn eval_echo_joins_with_single_spaces() {
    let sh = shell_with_line("echo one 'two  three'", "/bin");
    let fs = fs_for(&sh, vec![Vec::new()]);
    let ev = sh.eval("/home/u", &fs);
    match ev.action {
        Action::Output { lines } => {
            assert_eq!(lines.len(), 1);
            assert_eq!(lines[0].stream, Stream::Stdout);
            assert_eq!(lines[0].text, "one two  three");
        },
        _ => panic!("expected output"),
    }
}

#[test]
fn eval_exit_with_code() {
    let sh = shell_with_line("exit 7", "/bin");
    let fs = fs_for(&sh, vec![Vec::new()]);
    match sh.eval("/home/u", &fs).action {
        Action::Exit { code } => assert_eq!(code, 7),
        _ => panic!("expected exit"),
    }
}

#[test]
fn eval_exit_without_code_is_zero() {
    let sh = shell_with_line("exit", "/bin");
    let fs = fs_for(&sh, vec![Vec::new()]);
    match sh.eval("/home/u", &fs).action {
        Action::Exit { code } => assert_eq!(code, 0),
        _ => panic!("expected exit"),
    }
}

#[test]
fn eval_exit_with_garbage_is_zero() {
    let sh = shell_with_line("exit many", "/bin");
    let fs = fs_for(&sh, vec![Vec::new()]);
    match sh.eval("/home/u", &fs).action {
        Action::Exit { code } => assert_eq!(code, 0),
        _ => panic!("expected exit"),
    }
}

#[test]
fn type_reports_builtin_even_when_path_has_same_name() {
    let sh = shell_with_line("type echo", "/bin");
    // a directory on the search path holds an executable literally named echo
    let fs = fs_for(&sh, vec![vec![entry("echo")]]);
    match sh.eval("/home/u", &fs).action {
        Action::Output { lines } => {
            assert_eq!(lines.len(), 1);
            assert_eq!(lines[0].stream, Stream::Stdout);
            assert_eq!(lines[0].text, "echo is a shell builtin");
        },
        _ => panic!("expected output"),
    }
}

#[test]
fn type_reports_path_and_not_found() {
    let sh = shell_with_line("type tool ghost", "/bin");
    let fs = fs_for(&sh, vec![vec![entry("tool")]]);
    match sh.eval("/home/u", &fs).action {
        Action::Output { lines } => {
            assert_eq!(lines.len(), 2);
            assert_eq!(lines[0].stream, Stream::Stdout);
            assert_eq!(lines[0].text, "tool is /bin/tool");
            assert_eq!(lines[1].stream, Stream::Stderr);
            assert_eq!(lines[1].text, "ghost: not found");
        },
        _ => panic!("expected output"),
    }
}

#[test]
fn eval_pwd_is_a_query() {
    let sh = shell_with_line("pwd", "/bin");
    let fs = fs_for(&sh, vec![Vec::new()]);
    assert!(matches!(sh.eval("/home/u", &fs).action, Action::Pwd));
}

#[test]
fn eval_cd_expands_tilde() {
    let sh = shell_with_line("cd ~/src", "/bin");
    let fs = fs_for(&sh, vec![Vec::new()]);
    match sh.eval("/home/u", &fs).action {
        Action::Cd { target } => assert_eq!(target, "/home/u/src"),
        _ => panic!("expected cd"),
    }
}

#[test]
fn eval_cd_bare_goes_home() {
    let sh = shell_with_line("cd", "/bin");
    let fs = fs_for(&sh, vec![Vec::new()]);
    match sh.eval("/home/u", &fs).action {
        Action::Cd { target } => assert_eq!(target, "/home/u"),
        _ => panic!("expected cd"),
    }
}

#[test]
fn eval_external_resolves_through_paths() {
    let sh = shell_with_line("tool --flag", "/bin");
    let fs = fs_for(&sh, vec![vec![entry("tool")]]);
    match sh.eval("/home/u", &fs).action {
        Action::Spawn { path, args } => {
            assert_eq!(path, "/bin/tool");
            assert_eq!(args, vec!["--flag".to_string()]);
        },
        _ => panic!("expected spawn"),
    }
}

#[test]
fn eval_unknown_command_is_not_found() {
    let sh = shell_with_line("ghost", "/bin");
    let fs = fs_for(&sh, vec![Vec::new()]);
    match sh.eval("/home/u", &fs).action {
        Action::NotFound { name } => assert_eq!(name, "ghost"),
        _ => panic!("expected not found"),
    }
}

#[test]
fn eval_returns_redirects_for_caller() {
    let sh = shell_with_line("ghost > a 2>> b", "/bin");
    let fs = fs_for(&sh, vec![Vec::new()]);
    let ev = sh.eval("/home/u", &fs);
    assert_eq!(ev.redirects.len(), 2);
    assert_eq!(ev.redirects[0].stream, Stream::Stdout);
    assert_eq!(ev.redirects[1].stream, Stream::Stderr);
    assert!(ev.redirects[1].append);
}

#[test]
fn first_redirect_per_stream_wins() {
    let reds = vec![
        Redirect { stream: Stream::Stderr, target: "e1".to_string(), append: false },
        Redirect { stream: Stream::Stdout, target: "o1".to_string(), append: false },
        Redirect { stream: Stream::Stdout, target: "o2".to_string(), append: true },
    ];
    assert_eq!(effective_redirect(&reds, Stream::Stdout), Some(1));
    assert_eq!(effective_redirect(&reds, Stream::Stderr), Some(0));
    let none: Vec<Redirect> = Vec::new();
    assert_eq!(effective_redirect(&none, Stream::Stdout), None);
}

#[test]
fn cd_outcome_on_missing_path_mentions_it() {
    match cd_outcome("/no/such/dir", false) {
        CdDecision::Fail { message } => {
            assert_eq!(message, "cd: /no/such/dir: No such file or directory");
            assert!(message.contains("/no/such/dir"));
        },
        CdDecision::Change => panic!("must not change directory"),
    }
    assert!(matches!(cd_outcome("/tmp", true), CdDecision::Change));
}

#[test]
fn cd_target_cases() {
    assert_eq!(cd_target("", "/home/u"), "/home/u");
    assert_eq!(cd_target("~", "/home/u"), "/home/u");
    assert_eq!(cd_target("~/a/b", "/home/u"), "/home/u/a/b");
    assert_eq!(cd_target("/abs", "/home/u"), "/abs");
    assert_eq!(cd_target("rel", "/home/u"), "rel");
    assert_eq!(cd_target("~x", "/home/u"), "~x");
}

#[test]
fn parse_i32_accepts_exactly_i32() {
    assert_eq!(parse_i32("0"), Some(0));
    assert_eq!(parse_i32("7"), Some(7));
    assert_eq!(parse_i32("+42"), Some(42));
    assert_eq!(parse_i32("-13"), Some(-13));
    assert_eq!(parse_i32("0012"), Some(12));
    assert_eq!(parse_i32("2147483647"), Some(i32::MAX));
    assert_eq!(parse_i32("-2147483648"), Some(i32::MIN));
    assert_eq!(parse_i32("2147483648"), None);
    assert_eq!(parse_i32("-2147483649"), None);
    assert_eq!(parse_i32(""), None);
    assert_eq!(parse_i32("+"), None);
    assert_eq!(parse_i32("-"), None);
    assert_eq!(parse_i32("12a"), None);
    assert_eq!(parse_i32(" 5"), None);
}

#[test]
fn exit_code_defaults_to_zero() {
    assert_eq!(exit_code(&vec!["5".to_string()]), 5);
    assert_eq!(exit_code(&Vec::new()), 0);
    assert_eq!(exit_code(&vec!["x".to_string()]), 0);
}

#[test]
fn not_found_message_names_command() {
    assert_eq!(not_found_message("ghost"), "ghost: command not found");
}

#[test]
fn echo_text_joins() {
    assert_eq!(echo_text(&vec!["a".to_string(), "b c".to_string()]), "a b c");
    assert_eq!(echo_text(&Vec::new()), "");
}
