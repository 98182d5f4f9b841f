//! The tokenizer: one left-to-right scan over the input line that splits it
//! into arguments and redirect directives under POSIX-like quoting rules.
//!
//! The scan is specified as a character state machine (`scan`) over the
//! line's characters, and the executable tokenizer is proved to compute
//! exactly what the state machine yields.

use vstd::prelude::*;

use crate::command::Redirect;
use crate::command::RedirSpec;
use crate::command::Stream;
use crate::command::views_of_redirects;
use crate::text::chars_to_string;
use crate::text::views_of_strings;

verus! {

/// The scanner's state between characters: the arguments and redirects
/// emitted so far, the text being accumulated, the quoting flags, and the
/// stream/append mode of a redirect whose target is still being read.
#[verifier::ext_equal]
pub ghost struct ScanState {
    pub args: Seq<Seq<char>>,
    pub redirects: Seq<RedirSpec>,
    pub acc: Seq<char>,
    pub in_single: bool,
    pub in_double: bool,
    pub pending: Option<(Stream, bool)>,
}

/// The state the scan starts from: nothing emitted, nothing accumulated,
/// no quote open, no redirect pending.
pub open spec fn init_state() -> ScanState {
    ScanState {
        args: Seq::empty(),
        redirects: Seq::empty(),
        acc: Seq::empty(),
        in_single: false,
        in_double: false,
        pending: None,
    }
}

/// Appends one literal character to the accumulator.
pub open spec fn push_acc(st: ScanState, c: char) -> ScanState {
    ScanState { acc: st.acc.push(c), ..st }
}

/// Toggles single-quote mode.
pub open spec fn toggle_single(st: ScanState) -> ScanState {
    ScanState { in_single: !st.in_single, ..st }
}

/// Toggles double-quote mode.
pub open spec fn toggle_double(st: ScanState) -> ScanState {
    ScanState { in_double: !st.in_double, ..st }
}

/// Flushes the accumulated text as a completed argument, if it is non-empty.
pub open spec fn flush_arg(st: ScanState) -> ScanState {
    if st.acc.len() > 0 {
        ScanState { args: st.args.push(st.acc), acc: Seq::empty(), ..st }
    } else {
        st
    }
}

/// Opens a redirect: any accumulated argument text is flushed first.
pub open spec fn open_redirect(st: ScanState, stream: Stream, append: bool) -> ScanState {
    ScanState { pending: Some((stream, append)), ..flush_arg(st) }
}

/// Emits the pending redirect with the accumulated target.
pub open spec fn close_redirect(st: ScanState) -> ScanState {
    if st.pending is Some && st.acc.len() > 0 {
        ScanState {
            redirects: st.redirects.push(
                RedirSpec {
                    stream: st.pending->Some_0.0,
                    target: st.acc,
                    append: st.pending->Some_0.1,
                },
            ),
            acc: Seq::empty(),
            pending: None,
            ..st
        }
    } else {
        st
    }
}

/// Inside double quotes a backslash escapes only these characters; before
/// any other character the backslash itself is kept.
pub open spec fn dq_escapable(c: char) -> bool {
    c == '"' || c == '\\' || c == '$' || c == '`'
}

/// The scanner: reads the characters of `line` from position `i` on, in the
/// rule order the tokenizer follows. While a redirect target is being read
/// outside quotes, a space closes the redirect (only once the target is
/// non-empty) and quotes open quote mode; no new redirect is recognized
/// there. Backslash escapes selectively inside double quotes and
/// unconditionally outside single quotes. Outside quotes, `2>`, `1>` and `>`
/// (doubled for append mode) open redirects, and spaces separate arguments.
pub open spec fn scan(line: Seq<char>, i: int, st: ScanState) -> ScanState
    decreases line.len() - i,
{
    if i < 0 || i >= line.len() {
        st
    } else {
        let c = line[i];
        if st.pending is Some && !st.in_single && !st.in_double {
            if c == ' ' {
                if st.acc.len() > 0 {
                    scan(line, i + 1, close_redirect(st))
                } else {
                    scan(line, i + 1, st)
                }
            } else if c == '\'' {
                scan(line, i + 1, toggle_single(st))
            } else if c == '"' {
                scan(line, i + 1, toggle_double(st))
            } else {
                scan(line, i + 1, push_acc(st, c))
            }
        } else if c == '\\' && st.in_double {
            if i + 1 < line.len() && dq_escapable(line[i + 1]) {
                scan(line, i + 2, push_acc(st, line[i + 1]))
            } else {
                scan(line, i + 1, push_acc(st, '\\'))
            }
        } else if c == '\\' && !st.in_single {
            if i + 1 < line.len() {
                scan(line, i + 2, push_acc(st, line[i + 1]))
            } else {
                scan(line, i + 1, st)
            }
        } else if c == '\'' && !st.in_double {
            scan(line, i + 1, toggle_single(st))
        } else if c == '"' && !st.in_single {
            scan(line, i + 1, toggle_double(st))
        } else if !st.in_single && !st.in_double && c == '2' && i + 1 < line.len() && line[i + 1]
            == '>' {
            if i + 2 < line.len() && line[i + 2] == '>' {
                scan(line, i + 3, open_redirect(st, Stream::Stderr, true))
            } else {
                scan(line, i + 2, open_redirect(st, Stream::Stderr, false))
            }
        } else if !st.in_single && !st.in_double && c == '1' && i + 1 < line.len() && line[i + 1]
            == '>' {
            if i + 2 < line.len() && line[i + 2] == '>' {
                scan(line, i + 3, open_redirect(st, Stream::Stdout, true))
            } else {
                scan(line, i + 2, open_redirect(st, Stream::Stdout, false))
            }
        } else if !st.in_single && !st.in_double && c == '>' {
            if i + 1 < line.len() && line[i + 1] == '>' {
                scan(line, i + 2, open_redirect(st, Stream::Stdout, true))
            } else {
                scan(line, i + 1, open_redirect(st, Stream::Stdout, false))
            }
        } else if !st.in_single && !st.in_double && c == ' ' {
            scan(line, i + 1, flush_arg(st))
        } else {
            scan(line, i + 1, push_acc(st, c))
        }
    }
}

/// At end of input, pending accumulated text becomes the final redirect's
/// target when a redirect is still open, else a trailing argument; an open
/// redirect with an empty target is dropped.
pub open spec fn finish_args(st: ScanState) -> Seq<Seq<char>> {
    if st.pending is None && st.acc.len() > 0 {
        st.args.push(st.acc)
    } else {
        st.args
    }
}

/// The redirects a finished scan yields. See `finish_args`.
pub open spec fn finish_redirects(st: ScanState) -> Seq<RedirSpec> {
    close_redirect(st).redirects
}

/// The arguments a line tokenizes to.
pub open spec fn tokens_of(line: Seq<char>) -> Seq<Seq<char>> {
    finish_args(scan(line, 0, init_state()))
}

/// The redirects a line tokenizes to.
pub open spec fn redirects_of(line: Seq<char>) -> Seq<RedirSpec> {
    finish_redirects(scan(line, 0, init_state()))
}

/// Tokenizes a line into its arguments and its redirects, exactly as the
/// `scan` state machine describes.
pub fn tokenize(line: &str) -> (r: (Vec<String>, Vec<Redirect>))
    ensures
        views_of_strings(r.0@) == tokens_of(line@),
        views_of_redirects(r.1@) == redirects_of(line@),
{
    let len = line.unicode_len();
    let mut args: Vec<String> = Vec::new();
    let mut redirects: Vec<Redirect> = Vec::new();
    let mut acc: Vec<char> = Vec::new();
    let mut in_single: bool = false;
    let mut in_double: bool = false;
    let mut pending: Option<(Stream, bool)> = None;
    let mut i: usize = 0;
    proof {
        assert(views_of_strings(args@) =~= Seq::<Seq<char>>::empty());
        assert(views_of_redirects(redirects@) =~= Seq::<RedirSpec>::empty());
        assert(ScanState {
            args: views_of_strings(args@),
            redirects: views_of_redirects(redirects@),
            acc: acc@,
            in_single,
            in_double,
            pending,
        } =~= init_state());
    }
    while i < len
        invariant
            i <= len,
            len == line@.len(),
            scan(
                line@,
                i as int,
                ScanState {
                    args: views_of_strings(args@),
                    redirects: views_of_redirects(redirects@),
                    acc: acc@,
                    in_single,
                    in_double,
                    pending,
                },
            ) == scan(line@, 0, init_state()),
        decreases len - i,
    {
        let ghost pre = ScanState {
            args: views_of_strings(args@),
            redirects: views_of_redirects(redirects@),
            acc: acc@,
            in_single,
            in_double,
            pending,
        };
        let c = line.get_char(i);
        if pending.is_some() && !in_single && !in_double {
            let (stm, ap) = pending.unwrap();
            if c == ' ' {
                if acc.len() > 0 {
                    redirects.push(
                        Redirect { stream: stm, target: chars_to_string(&acc), append: ap },
                    );
                    acc.clear();
                    pending = None;
                    proof {
                        assert(views_of_redirects(redirects@) =~= pre.redirects.push(
                            RedirSpec { stream: stm, target: pre.acc, append: ap },
                        ));
                        assert(ScanState {
                            args: views_of_strings(args@),
                            redirects: views_of_redirects(redirects@),
                            acc: acc@,
                            in_single,
                            in_double,
                            pending,
                        } =~= close_redirect(pre));
                    }
                }
                i = i + 1;
            } else if c == '\'' {
                in_single = !in_single;
                i = i + 1;
                proof {
                    assert(ScanState {
                        args: views_of_strings(args@),
                        redirects: views_of_redirects(redirects@),
                        acc: acc@,
                        in_single,
                        in_double,
                        pending,
                    } =~= toggle_single(pre));
                }
            } else if c == '"' {
                in_double = !in_double;
                i = i + 1;
                proof {
                    assert(ScanState {
                        args: views_of_strings(args@),
                        redirects: views_of_redirects(redirects@),
                        acc: acc@,
                        in_single,
                        in_double,
                        pending,
                    } =~= toggle_double(pre));
                }
            } else {
                acc.push(c);
                i = i + 1;
                proof {
                    assert(ScanState {
                        args: views_of_strings(args@),
                        redirects: views_of_redirects(redirects@),
                        acc: acc@,
                        in_single,
                        in_double,
                        pending,
                    } =~= push_acc(pre, c));
                }
            }
        } else if c == '\\' && in_double {
            if i + 1 < len && is_dq_escapable(line.get_char(i + 1)) {
                acc.push(line.get_char(i + 1));
                i = i + 2;
            } else {
                acc.push('\\');
                i = i + 1;
            }
            proof {
                assert(ScanState {
                    args: views_of_strings(args@),
                    redirects: views_of_redirects(redirects@),
                    acc: acc@,
                    in_single,
                    in_double,
                    pending,
                } =~= push_acc(pre, acc@[acc@.len() - 1]));
            }
        } else if c == '\\' && !in_single {
            if i + 1 < len {
                acc.push(line.get_char(i + 1));
                i = i + 2;
                proof {
                    assert(ScanState {
                        args: views_of_strings(args@),
                        redirects: views_of_redirects(redirects@),
                        acc: acc@,
                        in_single,
                        in_double,
                        pending,
                    } =~= push_acc(pre, line@[i - 1]));
                }
            } else {
                i = i + 1;
            }
        } else if c == '\'' && !in_double {
            in_single = !in_single;
            i = i + 1;
            proof {
                assert(ScanState {
                    args: views_of_strings(args@),
                    redirects: views_of_redirects(redirects@),
                    acc: acc@,
                    in_single,
                    in_double,
                    pending,
                } =~= toggle_single(pre));
            }
        } else if c == '"' && !in_single {
            in_double = !in_double;
            i = i + 1;
            proof {
                assert(ScanState {
                    args: views_of_strings(args@),
                    redirects: views_of_redirects(redirects@),
                    acc: acc@,
                    in_single,
                    in_double,
                    pending,
                } =~= toggle_double(pre));
            }
        } else if !in_single && !in_double && c == '2' && i + 1 < len && line.get_char(i + 1)
            == '>' {
            let append = i + 2 < len && line.get_char(i + 2) == '>';
            if acc.len() > 0 {
                args.push(chars_to_string(&acc));
                acc.clear();
            }
            pending = Some((Stream::Stderr, append));
            proof {
                assert(views_of_strings(args@) =~= flush_arg(pre).args);
                assert(ScanState {
                    args: views_of_strings(args@),
                    redirects: views_of_redirects(redirects@),
                    acc: acc@,
                    in_single,
                    in_double,
                    pending,
                } =~= open_redirect(pre, Stream::Stderr, append));
            }
            if append {
                i = i + 3;
            } else {
                i = i + 2;
            }
        } else if !in_single && !in_double && c == '1' && i + 1 < len && line.get_char(i + 1)
            == '>' {
            let append = i + 2 < len && line.get_char(i + 2) == '>';
            if acc.len() > 0 {
                args.push(chars_to_string(&acc));
                acc.clear();
            }
            pending = Some((Stream::Stdout, append));
            proof {
                assert(views_of_strings(args@) =~= flush_arg(pre).args);
                assert(ScanState {
                    args: views_of_strings(args@),
                    redirects: views_of_redirects(redirects@),
                    acc: acc@,
                    in_single,
                    in_double,
                    pending,
                } =~= open_redirect(pre, Stream::Stdout, append));
            }
            if append {
                i = i + 3;
            } else {
                i = i + 2;
            }
        } else if !in_single && !in_double && c == '>' {
            let append = i + 1 < len && line.get_char(i + 1) == '>';
            if acc.len() > 0 {
                args.push(chars_to_string(&acc));
                acc.clear();
            }
            pending = Some((Stream::Stdout, append));
            proof {
                assert(views_of_strings(args@) =~= flush_arg(pre).args);
                assert(ScanState {
                    args: views_of_strings(args@),
                    redirects: views_of_redirects(redirects@),
                    acc: acc@,
                    in_single,
                    in_double,
                    pending,
                } =~= open_redirect(pre, Stream::Stdout, append));
            }
            if append {
                i = i + 2;
            } else {
                i = i + 1;
            }
        } else if !in_single && !in_double && c == ' ' {
            if acc.len() > 0 {
                args.push(chars_to_string(&acc));
                acc.clear();
            }
            i = i + 1;
            proof {
                assert(ScanState {
                    args: views_of_strings(args@),
                    redirects: views_of_redirects(redirects@),
                    acc: acc@,
                    in_single,
                    in_double,
                    pending,
                } =~= flush_arg(pre));
            }
        } else {
            acc.push(c);
            i = i + 1;
            proof {
                assert(ScanState {
                    args: views_of_strings(args@),
                    redirects: views_of_redirects(redirects@),
                    acc: acc@,
                    in_single,
                    in_double,
                    pending,
                } =~= push_acc(pre, c));
            }
        }
    }
    // End of input: flush what is still accumulated.
    let ghost fin = ScanState {
        args: views_of_strings(args@),
        redirects: views_of_redirects(redirects@),
        acc: acc@,
        in_single,
        in_double,
        pending,
    };
    proof {
        assert(scan(line@, i as int, fin) == fin);
    }
    if acc.len() > 0 {
        match pending {
            Some((stm, ap)) => {
                redirects.push(
                    Redirect { stream: stm, target: chars_to_string(&acc), append: ap },
                );
                proof {
                    assert(views_of_redirects(redirects@) =~= finish_redirects(fin));
                    assert(views_of_strings(args@) == finish_args(fin));
                }
            },
            None => {
                args.push(chars_to_string(&acc));
                proof {
                    assert(views_of_strings(args@) =~= finish_args(fin));
                    assert(views_of_redirects(redirects@) == finish_redirects(fin));
                }
            },
        }
    } else {
        proof {
            assert(views_of_strings(args@) == finish_args(fin));
            assert(views_of_redirects(redirects@) == finish_redirects(fin));
        }
    }
    (args, redirects)
}

/// Executable test for the characters a backslash escapes inside double
/// quotes.
fn is_dq_escapable(c: char) -> (r: bool)
    ensures
        r == dq_escapable(c),
{
    c == '"' || c == '\\' || c == '$' || c == '`'
}

} // verus!
