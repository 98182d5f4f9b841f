use vshell::DirListing;
use vshell::FileEntry;
use vshell::FsView;
use vshell::TabOutcome;
use vshell::complete;
use vshell::longest_common_prefix;
use vshell::tab_action;

fn entry(name: &str, is_file: bool, mode: u32) -> FileEntry {
    FileEntry { name: name.to_string(), is_file, mode }
}

fn strings(v: &[&str]) -> Vec<String> {
    v.iter().map(|s| s.to_string()).collect()
}

fn empty_fs() -> FsView {
    FsView { dirs: Vec::new() }
}

#[test]
fn lcp_of_diverging_candidates_is_typed_prefix() {
    let cands = strings(&["git", "grep", "go"]);
    assert_eq!(longest_common_prefix(&cands), "g");
    // equal to the typed prefix: no partial completion, the menu shows
    assert!(matches!(tab_action("g", &cands), TabOutcome::Menu));
}

#[test]
fn lcp_stops_where_candidates_diverge() {
    let cands = strings(&["grep", "grow"]);
    assert_eq!(longest_common_prefix(&cands), "gr");
    // no extension beyond what was typed: menu, not auto-completion
    assert!(matches!(tab_action("gr", &cands), TabOutcome::Menu));
}

#[test]
fn lcp_extension_replaces_word() {
    let cands = strings(&["status", "stash"]);
    match tab_action("st", &cands) {
        TabOutcome::Replace { text } => assert_eq!(text, "sta"),
        _ => panic!("expected a partial completion"),
    }
}

#[test]
fn no_candidates_ring_the_bell() {
    let cands: Vec<String> = Vec::new();
    assert!(matches!(tab_action("zz", &cands), TabOutcome::Bell));
}

#[test]
fn single_candidate_replaces_word() {
    let cands = strings(&["pwd"]);
    match tab_action("pw", &cands) {
        TabOutcome::Replace { text } => assert_eq!(text, "pwd"),
        _ => panic!("expected a full completion"),
    }
}

#[test]
fn empty_partial_yields_no_candidates() {
    let builtins = strings(&["echo", "exit"]);
    let fs = FsView {
        dirs: vec![DirListing { entries: vec![entry("extra", true, 0o755)] }],
    };
    assert!(complete("", &builtins, &fs).is_empty());
}

#[test]
fn complete_merges_builtins_and_executables_sorted_deduped() {
    let builtins = strings(&["echo", "exit", "type", "pwd", "cd"]);
    let fs = FsView {
        dirs: vec![
            DirListing {
                entries: vec![
                    entry("emacs", true, 0o755),
                    entry("echo", true, 0o755),  // duplicate of the builtin
                    entry("notes.txt", true, 0o644),  // not executable
                ],
            },
            DirListing { entries: vec![entry("env", true, 0o111), entry("emacs", true, 0o755)] },
        ],
    };
    let got = complete("e", &builtins, &fs);
    assert_eq!(got, strings(&["echo", "emacs", "env", "exit"]));
}

#[test]
fn complete_skips_directories_and_nonexecutables() {
    let builtins: Vec<String> = Vec::new();
    let fs = FsView {
        dirs: vec![
            DirListing {
                entries: vec![
                    entry("prog", true, 0o755),
                    entry("prog-dir", false, 0o755),
                    entry("prose", true, 0o600),
                ],
            },
        ],
    };
    let got = complete("pro", &builtins, &fs);
    assert_eq!(got, strings(&["prog"]));
}

#[test]
fn complete_requires_prefix_match() {
    let builtins = strings(&["echo", "exit"]);
    let got = complete("ec", &builtins, &empty_fs());
    assert_eq!(got, strings(&["echo"]));
}
