//! The shell session: the fixed builtin set, the search paths split from the
//! path variable, the in-progress input line, and the resolver that finds an
//! external executable by walking the search paths in order.

use vstd::prelude::*;

use crate::command::ParsedCommand;
use crate::command::views_of_redirects;
use crate::fsview::FsSpec;
use crate::fsview::FsView;
use crate::fsview::dir_has_executable;
use crate::text::str_eq;
use crate::text::trim;
use crate::text::trim_spec;
use crate::text::views_of_strings;
use crate::tokenize::redirects_of;
use crate::tokenize::tokenize;
use crate::tokenize::tokens_of;

verus! {

/// Splits `s` on `sep`, reading from position `i` with the piece built so
/// far in `cur`: every separator ends a piece, and the final piece is always
/// emitted, so an empty input yields one empty piece.
pub open spec fn split_scan(
    s: Seq<char>,
    i: int,
    cur: Seq<char>,
    out: Seq<Seq<char>>,
    sep: char,
) -> Seq<Seq<char>>
    decreases s.len() - i,
{
    if i < 0 || i >= s.len() {
        out.push(cur)
    } else if s[i] == sep {
        split_scan(s, i + 1, Seq::empty(), out.push(cur), sep)
    } else {
        split_scan(s, i + 1, cur.push(s[i]), out, sep)
    }
}

/// The pieces of `s` between occurrences of `sep`.
pub open spec fn split_on(s: Seq<char>, sep: char) -> Seq<Seq<char>> {
    split_scan(s, 0, Seq::empty(), Seq::empty(), sep)
}

/// The names the shell implements itself; they always win over search-path
/// executables of the same name.
pub open spec fn builtin_names() -> Seq<Seq<char>> {
    seq!["echo"@, "exit"@, "type"@, "pwd"@, "cd"@]
}

/// Where `cmd` resolves among the search paths from index `i` on: the first
/// directory holding an executable entry of that name wins, and the result
/// joins that directory's path with the name.
pub open spec fn resolve_from(
    paths: Seq<Seq<char>>,
    fs: FsSpec,
    cmd: Seq<char>,
    i: int,
) -> Option<Seq<char>>
    decreases paths.len() - i,
{
    if i < 0 || i >= paths.len() {
        None
    } else if dir_has_executable(fs.dirs[i], cmd) {
        Some(paths[i] + seq!['/'] + cmd)
    } else {
        resolve_from(paths, fs, cmd, i + 1)
    }
}

/// Where `cmd` resolves among all the search paths, in order.
pub open spec fn resolve_spec(paths: Seq<Seq<char>>, fs: FsSpec, cmd: Seq<char>) -> Option<
    Seq<char>,
> {
    resolve_from(paths, fs, cmd, 0)
}

/// A command line parsed into the command name and what follows it.
pub struct ParsedLine {
    pub name: String,
    pub cmd: ParsedCommand,
}

/// The shell session state: the line being evaluated, the search paths, and
/// the builtin names.
pub struct Shell {
    pub prompt: String,
    pub paths: Vec<String>,
    pub builtins: Vec<String>,
}

impl Shell {
    /// The builtin set is exactly the fixed one.
    pub open spec fn wf(self) -> bool {
        views_of_strings(self.builtins@) == builtin_names()
    }

    /// A fresh session: the builtins, and the search paths split out of the
    /// path variable's value.
    pub fn new(path_var: &str) -> (r: Shell)
        ensures
            r.wf(),
            r.prompt@ == Seq::<char>::empty(),
            views_of_strings(r.paths@) == split_on(path_var@, ':'),
    {
        let mut builtins: Vec<String> = Vec::new();
        builtins.push(String::from_str("echo"));
        builtins.push(String::from_str("exit"));
        builtins.push(String::from_str("type"));
        builtins.push(String::from_str("pwd"));
        builtins.push(String::from_str("cd"));
        proof {
            assert(views_of_strings(builtins@) =~= builtin_names());
        }
        Shell { prompt: String::new(), paths: Self::parse_path(path_var), builtins }
    }

    /// Splits the path variable's value into the ordered search directories.
    pub fn parse_path(path_var: &str) -> (r: Vec<String>)
        ensures
            views_of_strings(r@) == split_on(path_var@, ':'),
    {
        let len = path_var.unicode_len();
        let mut out: Vec<String> = Vec::new();
        let mut cur: Vec<char> = Vec::new();
        let mut i: usize = 0;
        proof {
            assert(views_of_strings(out@) =~= Seq::<Seq<char>>::empty());
        }
        while i < len
            invariant
                i <= len,
                len == path_var@.len(),
                split_scan(path_var@, i as int, cur@, views_of_strings(out@), ':') == split_on(
                    path_var@,
                    ':',
                ),
            decreases len - i,
        {
            let c = path_var.get_char(i);
            let ghost pre_out = views_of_strings(out@);
            let ghost pre_cur = cur@;
            if c == ':' {
                out.push(crate::text::chars_to_string(&cur));
                cur.clear();
                proof {
                    assert(views_of_strings(out@) =~= pre_out.push(pre_cur));
                    assert(cur@ =~= Seq::<char>::empty());
                }
            } else {
                cur.push(c);
            }
            i = i + 1;
        }
        let ghost pre = views_of_strings(out@);
        out.push(crate::text::chars_to_string(&cur));
        proof {
            assert(views_of_strings(out@) =~= pre.push(cur@));
        }
        out
    }

    /// What makes a path an executable program: a regular file with at least
    /// one execute permission bit set in its mode.
    pub fn is_executable(is_file: bool, mode: u32) -> (r: bool)
        ensures
            r == (is_file && mode & 0o111u32 != 0u32),
    {
        is_file && (mode & 0o111u32) != 0u32
    }

    /// Walks the search paths in order and returns the first directory whose
    /// listing holds an executable entry named `cmd`, joined with the name;
    /// `None` when no directory has one.
    pub fn find_executable(&self, cmd: &str, fs: &FsView) -> (r: Option<String>)
        requires
            fs.dirs@.len() == self.paths@.len(),
        ensures
            match r {
                Some(p) => resolve_spec(views_of_strings(self.paths@), fs@, cmd@) == Some(p@),
                None => resolve_spec(views_of_strings(self.paths@), fs@, cmd@) is None,
            },
    {
        let ghost pv = views_of_strings(self.paths@);
        let n = self.paths.len();
        let mut i: usize = 0;
        while i < n
            invariant
                i <= n,
                n == self.paths@.len(),
                fs.dirs@.len() == self.paths@.len(),
                pv == views_of_strings(self.paths@),
                resolve_from(pv, fs@, cmd@, 0) == resolve_from(pv, fs@, cmd@, i as int),
            decreases n - i,
        {
            let listing = &fs.dirs[i];
            proof {
                assert(fs@.dirs[i as int] == listing@);
            }
            let m = listing.entries.len();
            let mut j: usize = 0;
            let mut found: bool = false;
            while j < m && !found
                invariant
                    j <= m,
                    m == listing.entries@.len(),
                    fs@.dirs[i as int] == listing@,
                    i < n == self.paths@.len(),
                    fs.dirs@.len() == self.paths@.len(),
                    found ==> dir_has_executable(fs@.dirs[i as int], cmd@),
                    !found ==> forall|k: int|
                        0 <= k < j ==> !(listing@.entries[k].name == cmd@
                            && crate::fsview::entry_is_executable(listing@.entries[k])),
                decreases m - j,
            {
                let entry = &listing.entries[j];
                proof {
                    assert(listing@.entries[j as int] == entry@);
                }
                if entry.is_file && (entry.mode & 0o111u32) != 0u32 && str_eq(
                    entry.name.as_str(),
                    cmd,
                ) {
                    found = true;
                    proof {
                        assert(crate::fsview::entry_is_executable(listing@.entries[j as int]));
                        assert(dir_has_executable(fs@.dirs[i as int], cmd@));
                    }
                }
                j = j + 1;
            }
            if found {
                let mut p = self.paths[i].clone();
                p.append("/");
                p.append(cmd);
                proof {
                    reveal_strlit("/");
                    assert("/"@ =~= seq!['/']);
                    assert(pv[i as int] == self.paths@[i as int]@);
                    assert(p@ =~= pv[i as int] + seq!['/'] + cmd@);
                }
                return Some(p);
            }
            proof {
                assert(!dir_has_executable(fs@.dirs[i as int], cmd@)) by {
                    if dir_has_executable(fs@.dirs[i as int], cmd@) {
                        let k = choose|k: int|
                            0 <= k < fs@.dirs[i as int].entries.len() && fs@.dirs[
                            i as int].entries[k].name == cmd@ && crate::fsview::entry_is_executable(
                                fs@.dirs[i as int].entries[k],
                            );
                        assert(!(listing@.entries[k].name == cmd@
                            && crate::fsview::entry_is_executable(listing@.entries[k])));
                    }
                }
            }
            i = i + 1;
        }
        None
    }

    /// Replaces the line under evaluation.
    pub fn set_line(&mut self, line: String)
        ensures
            final(self).prompt@ == line@,
            final(self).paths@ == old(self).paths@,
            final(self).builtins@ == old(self).builtins@,
            old(self).wf() ==> final(self).wf(),
    {
        self.prompt = line;
    }

    /// Tokenizes the stored line (trimmed) into the command name, its
    /// arguments, and its redirects; an empty line yields an empty name.
    pub fn parse(&self) -> (r: ParsedLine)
        ensures
            ({
                let toks = tokens_of(trim_spec(self.prompt@));
                &&& views_of_redirects(r.cmd.redirects@) == redirects_of(trim_spec(self.prompt@))
                &&& toks.len() == 0 ==> (r.name@ == Seq::<char>::empty() && r.cmd.args@.len() == 0)
                &&& toks.len() > 0 ==> (r.name@ == toks[0] && views_of_strings(r.cmd.args@)
                    == toks.skip(1))
            }),
    {
        let trimmed = trim(self.prompt.as_str());
        let (mut toks, redirects) = tokenize(trimmed);
        if toks.len() == 0 {
            ParsedLine {
                name: String::new(),
                cmd: ParsedCommand { args: toks, redirects },
            }
        } else {
            let ghost tseq = toks@;
            let ghost tv = views_of_strings(toks@);
            let name = toks.remove(0);
            proof {
                assert(toks@ == tseq.remove(0));
                assert(views_of_strings(toks@) =~= tv.skip(1)) by {
                    assert forall|k: int| 0 <= k < toks@.len() implies toks@[k]@ == tv.skip(1)[k] by {
                        assert(toks@[k] == tseq[k + 1]);
                    }
                }
            }
            ParsedLine { name, cmd: ParsedCommand { args: toks, redirects } }
        }
    }

    /// Tokenizes a string of arguments under the quoting rules, dropping any
    /// redirects it contains.
    pub fn parse_arguments(args: &str) -> (r: Vec<String>)
        ensures
            views_of_strings(r@) == tokens_of(args@),
    {
        let (toks, _) = tokenize(args);
        toks
    }
}

} // verus!
