//! The evaluator: turns the shell's stored line into the action to perform.
//! Builtins always win over search-path executables of the same name; any
//! other command resolves through the search paths or is reported not found.
//! Everything that must touch the outside world (changing directory,
//! querying it, spawning) is returned as a described action for the caller
//! to carry out.

use vstd::prelude::*;

use crate::command::Stream;
use crate::command::views_of_redirects;
use crate::fsview::FsSpec;
use crate::fsview::FsView;
use crate::numeric::i32_parse_spec;
use crate::numeric::parse_i32;
use crate::shell::Shell;
use crate::shell::builtin_names;
use crate::shell::resolve_spec;
use crate::text::str_eq;
use crate::text::trim_spec;
use crate::text::views_of_strings;
use crate::tokenize::redirects_of;
use crate::tokenize::tokens_of;

verus! {

/// One line of builtin output, bound for a stream.
pub struct OutLine {
    pub stream: Stream,
    pub text: String,
}

/// The mathematical shape of an output line.
#[verifier::ext_equal]
pub ghost struct OutLineSpec {
    pub stream: Stream,
    pub text: Seq<char>,
}

impl View for OutLine {
    type V = OutLineSpec;

    open spec fn view(&self) -> OutLineSpec {
        OutLineSpec { stream: self.stream, text: self.text@ }
    }
}

/// The views of a sequence of output lines, element by element.
pub open spec fn views_of_outlines(v: Seq<OutLine>) -> Seq<OutLineSpec> {
    v.map_values(|l: OutLine| l@)
}

/// What evaluating a line asks the caller to do.
pub enum Action {
    /// An empty command: do nothing.
    Nothing,
    /// Terminate the process with this exit code.
    Exit { code: i32 },
    /// Write these lines to their streams (honoring any redirects).
    Output { lines: Vec<OutLine> },
    /// Report the current working directory.
    Pwd,
    /// Change the working directory to this target.
    Cd { target: String },
    /// Run this resolved executable with these arguments and wait for it.
    Spawn { path: String, args: Vec<String> },
    /// No builtin and no executable of this name: report it.
    NotFound { name: String },
}

/// The mathematical shape of an action.
#[verifier::ext_equal]
pub ghost enum ActionSpec {
    Nothing,
    Exit { code: int },
    Output { lines: Seq<OutLineSpec> },
    Pwd,
    Cd { target: Seq<char> },
    Spawn { path: Seq<char>, args: Seq<Seq<char>> },
    NotFound { name: Seq<char> },
}

impl View for Action {
    type V = ActionSpec;

    open spec fn view(&self) -> ActionSpec {
        match self {
            Action::Nothing => ActionSpec::Nothing,
            Action::Exit { code } => ActionSpec::Exit { code: *code as int },
            Action::Output { lines } => ActionSpec::Output { lines: views_of_outlines(lines@) },
            Action::Pwd => ActionSpec::Pwd,
            Action::Cd { target } => ActionSpec::Cd { target: target@ },
            Action::Spawn { path, args } => ActionSpec::Spawn {
                path: path@,
                args: views_of_strings(args@),
            },
            Action::NotFound { name } => ActionSpec::NotFound { name: name@ },
        }
    }
}

/// What one evaluated line yields: the action, and the parsed redirects for
/// the caller to open and route output through.
pub struct Evaluation {
    pub action: Action,
    pub redirects: Vec<crate::command::Redirect>,
}

/// The arguments joined by single spaces, as `echo` prints them.
pub open spec fn join_spaces(args: Seq<Seq<char>>) -> Seq<char>
    decreases args.len(),
{
    if args.len() == 0 {
        Seq::empty()
    } else if args.len() == 1 {
        args[0]
    } else {
        join_spaces(args.take(args.len() - 1)) + seq![' '] + args[args.len() - 1]
    }
}

/// Joins the arguments with single spaces.
pub fn echo_text(args: &Vec<String>) -> (r: String)
    ensures
        r@ == join_spaces(views_of_strings(args@)),
{
    let ghost av = views_of_strings(args@);
    let mut out = String::new();
    proof {
        assert(out@ =~= join_spaces(av.take(0)));
    }
    let mut i: usize = 0;
    while i < args.len()
        invariant
            i <= args@.len(),
            av == views_of_strings(args@),
            out@ == join_spaces(av.take(i as int)),
        decreases args@.len() - i,
    {
        if i > 0 {
            out.append(" ");
        }
        out.append(args[i].as_str());
        proof {
            reveal_strlit(" ");
            let t = av.take(i + 1);
            assert(t.take(t.len() - 1) =~= av.take(i as int));
            assert(t[t.len() - 1] == av[i as int]);
            if i == 0 {
                assert(join_spaces(t) == t[0]);
                assert(out@ =~= join_spaces(av.take(i + 1)));
            } else {
                assert(join_spaces(t) == join_spaces(av.take(i as int)) + seq![' '] + av[
                    i as int]);
                assert(" "@ =~= seq![' ']);
                assert(out@ =~= join_spaces(av.take(i + 1)));
            }
        }
        i = i + 1;
    }
    proof {
        assert(av.take(av.len() as int) =~= av);
    }
    out
}

/// Where `cd` goes for a given argument: empty or `~` is the home directory,
/// a leading `~/` is replaced by it, anything else is taken verbatim.
pub open spec fn cd_target_spec(arg: Seq<char>, home: Seq<char>) -> Seq<char> {
    if arg.len() == 0 || arg == "~"@ {
        home
    } else if arg.len() >= 2 && arg[0] == '~' && arg[1] == '/' {
        home + arg.skip(1)
    } else {
        arg
    }
}

/// Expands the `cd` argument against the home directory.
pub fn cd_target(arg: &str, home: &str) -> (r: String)
    ensures
        r@ == cd_target_spec(arg@, home@),
{
    let alen = arg.unicode_len();
    if alen == 0 || str_eq(arg, "~") {
        String::from_str(home)
    } else if alen >= 2 && arg.get_char(0) == '~' && arg.get_char(1) == '/' {
        let mut t = String::new();
        t.append(home);
        t.append(arg.substring_char(1, alen));
        proof {
            assert(arg@.subrange(1, alen as int) =~= arg@.skip(1));
            assert(t@ =~= home@ + arg@.skip(1));
        }
        t
    } else {
        String::from_str(arg)
    }
}

/// What `cd` does once the caller has tested whether the target exists.
pub enum CdDecision {
    /// Change the working directory to the target.
    Change,
    /// Leave the working directory alone and report this message.
    Fail { message: String },
}

/// Decides `cd`: an existing target is entered; a missing one leaves the
/// working directory unchanged and yields the error naming the target.
pub fn cd_outcome(target: &str, exists: bool) -> (r: CdDecision)
    ensures
        exists ==> r is Change,
        !exists ==> r is Fail && r->Fail_message@ == "cd: "@ + target@
            + ": No such file or directory"@,
{
    if exists {
        CdDecision::Change
    } else {
        let mut m = String::new();
        m.append("cd: ");
        m.append(target);
        m.append(": No such file or directory");
        proof {
            assert(m@ =~= "cd: "@ + target@ + ": No such file or directory"@);
        }
        CdDecision::Fail { message: m }
    }
}

/// The `cd` failure message names the missing target: it stands verbatim
/// right after the `cd: ` prefix.
pub proof fn lemma_cd_error_mentions_path(target: Seq<char>)
    ensures
        ("cd: "@ + target + ": No such file or directory"@).subrange(4, 4 + target.len() as int)
            == target,
{
    reveal_strlit("cd: ");
    assert(("cd: "@ + target + ": No such file or directory"@).subrange(
        4,
        4 + target.len() as int,
    ) =~= target);
}

/// The message for a command that is neither a builtin nor on the search
/// path.
pub fn not_found_message(name: &str) -> (r: String)
    ensures
        r@ == name@ + ": command not found"@,
{
    let mut m = String::new();
    m.append(name);
    m.append(": command not found");
    proof {
        assert(m@ =~= name@ + ": command not found"@);
    }
    m
}

/// The exit code `exit` terminates with: its first argument parsed as a
/// 32-bit integer, or 0 when absent or unparseable.
pub open spec fn exit_code_spec(args: Seq<Seq<char>>) -> int {
    if args.len() == 0 {
        0
    } else {
        match i32_parse_spec(args[0]) {
            Some(v) => v,
            None => 0,
        }
    }
}

/// Computes the exit code for `exit`.
pub fn exit_code(args: &Vec<String>) -> (r: i32)
    ensures
        r as int == exit_code_spec(views_of_strings(args@)),
{
    if args.len() == 0 {
        0
    } else {
        proof {
            assert(views_of_strings(args@)[0] == args@[0]@);
        }
        match parse_i32(args[0].as_str()) {
            Some(v) => v,
            None => 0,
        }
    }
}

/// The line `type` reports for one name: builtins win over anything on the
/// search path; otherwise the resolved path, or a not-found report on the
/// error stream.
pub open spec fn type_line_spec(
    builtins: Seq<Seq<char>>,
    paths: Seq<Seq<char>>,
    fs: FsSpec,
    arg: Seq<char>,
) -> OutLineSpec {
    if builtins.contains(arg) {
        OutLineSpec { stream: Stream::Stdout, text: arg + " is a shell builtin"@ }
    } else {
        match resolve_spec(paths, fs, arg) {
            Some(p) => OutLineSpec { stream: Stream::Stdout, text: arg + " is "@ + p },
            None => OutLineSpec { stream: Stream::Stderr, text: arg + ": not found"@ },
        }
    }
}

/// The lines `type` reports for its arguments, in order, skipping empty
/// names.
pub open spec fn type_lines_spec(
    builtins: Seq<Seq<char>>,
    paths: Seq<Seq<char>>,
    fs: FsSpec,
    args: Seq<Seq<char>>,
) -> Seq<OutLineSpec>
    decreases args.len(),
{
    if args.len() == 0 {
        Seq::empty()
    } else {
        let rest = type_lines_spec(builtins, paths, fs, args.take(args.len() - 1));
        let last = args[args.len() - 1];
        if last.len() == 0 {
            rest
        } else {
            rest.push(type_line_spec(builtins, paths, fs, last))
        }
    }
}

/// A name in the builtin set is reported as a shell builtin whatever the
/// search paths hold: search-path executables never shadow a builtin.
pub proof fn lemma_builtin_precedence(
    builtins: Seq<Seq<char>>,
    paths: Seq<Seq<char>>,
    fs1: FsSpec,
    fs2: FsSpec,
    name: Seq<char>,
)
    requires
        builtins.contains(name),
    ensures
        type_line_spec(builtins, paths, fs1, name) == type_line_spec(builtins, paths, fs2, name),
        type_line_spec(builtins, paths, fs1, name).stream == Stream::Stdout,
        type_line_spec(builtins, paths, fs1, name).text == name + " is a shell builtin"@,
{
}

/// Membership test against the strings of a vector.
pub fn contains_str(v: &Vec<String>, s: &str) -> (r: bool)
    ensures
        r == views_of_strings(v@).contains(s@),
{
    let mut i: usize = 0;
    while i < v.len()
        invariant
            i <= v@.len(),
            forall|k: int| 0 <= k < i ==> views_of_strings(v@)[k] != s@,
        decreases v@.len() - i,
    {
        if str_eq(v[i].as_str(), s) {
            proof {
                assert(views_of_strings(v@)[i as int] == s@);
            }
            return true;
        }
        i = i + 1;
    }
    proof {
        if views_of_strings(v@).contains(s@) {
            let k = choose|k: int|
                0 <= k < views_of_strings(v@).len() && views_of_strings(v@)[k] == s@;
            assert(false);
        }
    }
    false
}

/// What evaluating `line` yields, as a function of the session state, the
/// home directory, and the pictured filesystem.
pub open spec fn eval_spec(
    builtins: Seq<Seq<char>>,
    paths: Seq<Seq<char>>,
    fs: FsSpec,
    home: Seq<char>,
    line: Seq<char>,
) -> ActionSpec {
    let toks = tokens_of(trim_spec(line));
    if toks.len() == 0 || toks[0].len() == 0 {
        ActionSpec::Nothing
    } else {
        let name = toks[0];
        let args = toks.skip(1);
        if name == "echo"@ {
            ActionSpec::Output {
                lines: seq![OutLineSpec { stream: Stream::Stdout, text: join_spaces(args) }],
            }
        } else if name == "type"@ {
            ActionSpec::Output { lines: type_lines_spec(builtins, paths, fs, args) }
        } else if name == "pwd"@ {
            ActionSpec::Pwd
        } else if name == "cd"@ {
            ActionSpec::Cd {
                target: cd_target_spec(
                    if args.len() > 0 {
                        args[0]
                    } else {
                        Seq::empty()
                    },
                    home,
                ),
            }
        } else if name == "exit"@ {
            ActionSpec::Exit { code: exit_code_spec(args) }
        } else {
            match resolve_spec(paths, fs, name) {
                Some(p) => ActionSpec::Spawn { path: p, args },
                None => ActionSpec::NotFound { name },
            }
        }
    }
}

/// A command whose name is a builtin never resolves through the search
/// paths: its evaluation is never a spawn and never a not-found report.
pub proof fn lemma_builtins_never_spawn(
    builtins: Seq<Seq<char>>,
    paths: Seq<Seq<char>>,
    fs: FsSpec,
    home: Seq<char>,
    line: Seq<char>,
)
    requires
        tokens_of(trim_spec(line)).len() > 0,
        builtin_names().contains(tokens_of(trim_spec(line))[0]),
    ensures
        !(eval_spec(builtins, paths, fs, home, line) is Spawn),
        !(eval_spec(builtins, paths, fs, home, line) is NotFound),
{
    let name = tokens_of(trim_spec(line))[0];
    let k = choose|k: int| 0 <= k < builtin_names().len() && builtin_names()[k] == name;
    if k == 0 {
        assert(name == "echo"@);
    } else if k == 1 {
        assert(name == "exit"@);
    } else if k == 2 {
        assert(name == "type"@);
    } else if k == 3 {
        assert(name == "pwd"@);
    } else {
        assert(name == "cd"@);
    }
}

impl Shell {
    /// The lines `type` reports for the given names.
    pub fn type_lines(&self, args: &Vec<String>, fs: &FsView) -> (r: Vec<OutLine>)
        requires
            fs.dirs@.len() == self.paths@.len(),
        ensures
            views_of_outlines(r@) == type_lines_spec(
                views_of_strings(self.builtins@),
                views_of_strings(self.paths@),
                fs@,
                views_of_strings(args@),
            ),
    {
        let ghost bv = views_of_strings(self.builtins@);
        let ghost pv = views_of_strings(self.paths@);
        let ghost av = views_of_strings(args@);
        let mut out: Vec<OutLine> = Vec::new();
        proof {
            assert(av.take(0) =~= Seq::<Seq<char>>::empty());
            assert(views_of_outlines(out@) =~= type_lines_spec(bv, pv, fs@, av.take(0)));
        }
        let mut i: usize = 0;
        while i < args.len()
            invariant
                i <= args@.len(),
                bv == views_of_strings(self.builtins@),
                pv == views_of_strings(self.paths@),
                av == views_of_strings(args@),
                fs.dirs@.len() == self.paths@.len(),
                views_of_outlines(out@) == type_lines_spec(bv, pv, fs@, av.take(i as int)),
            decreases args@.len() - i,
        {
            let ghost pre = views_of_outlines(out@);
            let arg = &args[i];
            proof {
                assert(av[i as int] == arg@);
            }
            if !arg.as_str().is_empty() {
                if contains_str(&self.builtins, arg.as_str()) {
                    let mut t = arg.clone();
                    t.append(" is a shell builtin");
                    out.push(OutLine { stream: Stream::Stdout, text: t });
                } else {
                    match self.find_executable(arg.as_str(), fs) {
                        Some(p) => {
                            let mut t = arg.clone();
                            t.append(" is ");
                            t.append(p.as_str());
                            proof {
                                assert(t@ =~= arg@ + " is "@ + p@);
                            }
                            out.push(OutLine { stream: Stream::Stdout, text: t });
                        },
                        None => {
                            let mut t = arg.clone();
                            t.append(": not found");
                            out.push(OutLine { stream: Stream::Stderr, text: t });
                        },
                    }
                }
                proof {
                    assert(views_of_outlines(out@) =~= pre.push(
                        type_line_spec(bv, pv, fs@, arg@),
                    ));
                }
            }
            proof {
                let t = av.take(i + 1);
                assert(t.take(t.len() - 1) =~= av.take(i as int));
                assert(t[t.len() - 1] == av[i as int]);
                assert(views_of_outlines(out@) =~= type_lines_spec(bv, pv, fs@, av.take(i + 1)));
            }
            i = i + 1;
        }
        proof {
            assert(av.take(av.len() as int) =~= av);
        }
        out
    }

    /// Evaluates the stored line: an empty command does nothing; `echo`,
    /// `type`, `pwd`, `cd` and `exit` dispatch as builtins whatever the
    /// search paths hold; anything else resolves to the first matching
    /// search-path executable or is reported not found. The parsed redirects
    /// are returned alongside for the caller to open and route output
    /// through.
    pub fn eval(&self, home: &str, fs: &FsView) -> (r: Evaluation)
        requires
            fs.dirs@.len() == self.paths@.len(),
        ensures
            r.action@ == eval_spec(
                views_of_strings(self.builtins@),
                views_of_strings(self.paths@),
                fs@,
                home@,
                self.prompt@,
            ),
            views_of_redirects(r.redirects@) == redirects_of(trim_spec(self.prompt@)),
    {
        let ghost bv = views_of_strings(self.builtins@);
        let ghost pv = views_of_strings(self.paths@);
        let ghost toks = tokens_of(trim_spec(self.prompt@));
        let parsed = self.parse();
        let name = parsed.name;
        let cmd = parsed.cmd;
        let action: Action = if name.as_str().is_empty() {
            Action::Nothing
        } else if str_eq(name.as_str(), "echo") {
            let line = OutLine { stream: Stream::Stdout, text: echo_text(&cmd.args) };
            let lines = vec![line];
            proof {
                assert(views_of_outlines(lines@) =~= seq![
                    OutLineSpec { stream: Stream::Stdout, text: join_spaces(toks.skip(1)) },
                ]);
            }
            Action::Output { lines }
        } else if str_eq(name.as_str(), "type") {
            Action::Output { lines: self.type_lines(&cmd.args, fs) }
        } else if str_eq(name.as_str(), "pwd") {
            Action::Pwd
        } else if str_eq(name.as_str(), "cd") {
            let target = if cmd.args.len() > 0 {
                proof {
                    assert(views_of_strings(cmd.args@)[0] == cmd.args@[0]@);
                }
                cd_target(cmd.args[0].as_str(), home)
            } else {
                proof {
                    reveal_strlit("");
                    assert(""@ =~= Seq::<char>::empty());
                }
                cd_target("", home)
            };
            Action::Cd { target }
        } else if str_eq(name.as_str(), "exit") {
            Action::Exit { code: exit_code(&cmd.args) }
        } else {
            match self.find_executable(name.as_str(), fs) {
                Some(p) => Action::Spawn { path: p, args: cmd.args },
                None => Action::NotFound { name },
            }
        };
        proof {
            assert(action@ =~= eval_spec(bv, pv, fs@, home@, self.prompt@));
        }
        Evaluation { action, redirects: cmd.redirects }
    }
}

} // verus!
