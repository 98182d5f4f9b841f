//! The completion engine: collects the builtin names and search-path
//! executables with a given prefix into a sorted, duplicate-free list,
//! computes the longest common prefix of the candidates, and decides what a
//! completion keypress does.

use vstd::prelude::*;

use crate::fsview::FsView;
use crate::fsview::FsSpec;
use crate::fsview::dir_has_executable;
use crate::fsview::entry_is_executable;
use crate::text::has_prefix;
use crate::text::lemma_lex_connected;
use crate::text::lemma_lex_trans;
use crate::text::lex_lt;
use crate::text::str_eq;
use crate::text::str_lt;
use crate::text::views_of_strings;

verus! {

/// Strictly ascending in lexicographic order: sorted, with no duplicates.
pub open spec fn strictly_sorted(v: Seq<Seq<char>>) -> bool {
    forall|i: int, j: int| 0 <= i < j < v.len() ==> lex_lt(v[i], v[j])
}

/// Inserts `x` into a strictly sorted vector, keeping it strictly sorted;
/// a duplicate is dropped.
fn insert_sorted_unique(v: &mut Vec<String>, x: String)
    requires
        strictly_sorted(views_of_strings(old(v)@)),
    ensures
        strictly_sorted(views_of_strings(final(v)@)),
        forall|s: Seq<char>|
            views_of_strings(final(v)@).contains(s) <==> (views_of_strings(old(v)@).contains(s)
                || s == x@),
{
    let ghost vs = views_of_strings(v@);
    let mut i: usize = 0;
    while i < v.len() && str_lt(v[i].as_str(), x.as_str())
        invariant
            i <= v@.len(),
            v@ == old(v)@,
            vs == views_of_strings(v@),
            forall|j: int| 0 <= j < i ==> lex_lt(vs[j], x@),
        decreases v@.len() - i,
    {
        i = i + 1;
    }
    if i < v.len() && str_eq(v[i].as_str(), x.as_str()) {
        // Already present: the set of views is unchanged.
        proof {
            assert(vs.contains(x@)) by {
                assert(vs[i as int] == x@);
            }
        }
        return ;
    }
    proof {
        // x belongs strictly between positions i-1 and i.
        if i < v@.len() {
            lemma_lex_connected(vs[i as int], x@);
        }
    }
    v.insert(i, x);
    proof {
        let nvs = views_of_strings(v@);
        assert(nvs.len() == vs.len() + 1);
        assert forall|j: int| 0 <= j < nvs.len() implies nvs[j] == (if j < i {
            vs[j]
        } else if j == i {
            x@
        } else {
            vs[j - 1]
        }) by {
            assert(v@[j] == (if j < i {
                old(v)@[j]
            } else if j == i {
                x
            } else {
                old(v)@[j - 1]
            }));
        }
        assert forall|p: int, q: int| 0 <= p < q < nvs.len() implies lex_lt(nvs[p], nvs[q]) by {
            if q < i {
                // both before the insertion point: old order
            } else if p < i && q == i {
                // the walk passed nvs[p], so nvs[p] < x
            } else if p < i && q > i {
                if p < q - 1 {
                    assert(lex_lt(vs[p], vs[q - 1]));
                }
            } else if p == i {
                // x stops strictly before vs[i], which precedes every later element
                assert(q - 1 >= i && i < vs.len());
                assert(!lex_lt(vs[i as int], x@));
                assert(vs[i as int] != x@);
                assert(lex_lt(x@, vs[i as int]));
                if q - 1 > i {
                    lemma_lex_trans(x@, vs[i as int], vs[q - 1]);
                }
            } else {
                // both after the insertion point: old order
                assert(lex_lt(vs[p - 1], vs[q - 1]));
            }
        }
        assert forall|s: Seq<char>| nvs.contains(s) <==> (vs.contains(s) || s == x@) by {
            if nvs.contains(s) {
                let j = choose|j: int| 0 <= j < nvs.len() && nvs[j] == s;
                if j < i {
                    assert(vs[j] == s);
                } else if j == i {
                } else {
                    assert(vs[j - 1] == s);
                }
            }
            if vs.contains(s) {
                let j = choose|j: int| 0 <= j < vs.len() && vs[j] == s;
                if j < i {
                    assert(nvs[j] == s);
                } else {
                    assert(nvs[j + 1] == s);
                }
            }
            if s == x@ {
                assert(nvs[i as int] == s);
            }
        }
    }
}

/// What makes `name` a completion candidate for `partial`: a non-empty
/// typed prefix, and the name is a builtin or an executable in some listed
/// directory.
pub open spec fn is_candidate(
    name: Seq<char>,
    partial: Seq<char>,
    builtins: Seq<Seq<char>>,
    fs: FsSpec,
) -> bool {
    &&& partial.len() > 0
    &&& partial.is_prefix_of(name)
    &&& (builtins.contains(name) || exists|d: int|
        0 <= d < fs.dirs.len() && dir_has_executable(fs.dirs[d], name))
}

/// Entries at positions before `(d, e)` in the directory walk, restricted to
/// executables named `name` with the typed prefix.
spec fn fs_candidate_upto(
    name: Seq<char>,
    partial: Seq<char>,
    fs: FsSpec,
    d: int,
    e: int,
) -> bool {
    exists|di: int, ei: int|
        0 <= di < fs.dirs.len() && 0 <= ei < fs.dirs[di].entries.len() && (di < d || (di == d && ei
            < e)) && fs.dirs[di].entries[ei].name == name && entry_is_executable(
            fs.dirs[di].entries[ei],
        ) && partial.is_prefix_of(name)
}

/// The sorted, duplicate-free list of builtin names and search-path
/// executables that begin with `partial`. An empty `partial` yields no
/// candidates.
pub fn complete(partial: &str, builtins: &Vec<String>, fs: &FsView) -> (r: Vec<String>)
    ensures
        strictly_sorted(views_of_strings(r@)),
        forall|s: Seq<char>|
            views_of_strings(r@).contains(s) <==> is_candidate(
                s,
                partial@,
                views_of_strings(builtins@),
                fs@,
            ),
{
    let mut out: Vec<String> = Vec::new();
    proof {
        assert(views_of_strings(out@) =~= Seq::<Seq<char>>::empty());
    }
    if partial.unicode_len() == 0 {
        return out;
    }
    let mut bi: usize = 0;
    while bi < builtins.len()
        invariant
            bi <= builtins@.len(),
            partial@.len() > 0,
            strictly_sorted(views_of_strings(out@)),
            forall|s: Seq<char>|
                views_of_strings(out@).contains(s) <==> (exists|j: int|
                    0 <= j < bi && views_of_strings(builtins@)[j] == s && partial@.is_prefix_of(s)),
        decreases builtins@.len() - bi,
    {
        let ghost pre = views_of_strings(out@);
        let b = &builtins[bi];
        if has_prefix(b.as_str(), partial) {
            insert_sorted_unique(&mut out, b.clone());
            proof {
                assert(views_of_strings(builtins@)[bi as int] == b@);
            }
        }
        proof {
            let bv = views_of_strings(builtins@);
            assert forall|s: Seq<char>|
                views_of_strings(out@).contains(s) <==> (exists|j: int|
                    0 <= j < bi + 1 && bv[j] == s && partial@.is_prefix_of(s)) by {
                if views_of_strings(out@).contains(s) {
                    if pre.contains(s) {
                        let j = choose|j: int| 0 <= j < bi && bv[j] == s && partial@.is_prefix_of(s);
                        assert(0 <= j < bi + 1 && bv[j] == s && partial@.is_prefix_of(s));
                    } else {
                        assert(s == b@ && partial@.is_prefix_of(b@));
                        assert(bv[bi as int] == s);
                    }
                }
                if exists|j: int| 0 <= j < bi + 1 && bv[j] == s && partial@.is_prefix_of(s) {
                    let j = choose|j: int|
                        0 <= j < bi + 1 && bv[j] == s && partial@.is_prefix_of(s);
                    if j < bi {
                        assert(pre.contains(s));
                    } else {
                        assert(s == b@);
                        assert(partial@.is_prefix_of(b@));
                    }
                    assert(views_of_strings(out@).contains(s));
                }
            }
        }
        bi = bi + 1;
    }
    let ghost bv = views_of_strings(builtins@);
    proof {
        assert forall|s: Seq<char>|
            views_of_strings(out@).contains(s) <==> (bv.contains(s) && partial@.is_prefix_of(s)) by {
            if bv.contains(s) && partial@.is_prefix_of(s) {
                let j = choose|j: int| 0 <= j < bv.len() && bv[j] == s;
                assert(exists|k: int|
                    0 <= k < bv.len() && bv[k] == s && partial@.is_prefix_of(s));
            }
        }
    }
    let mut d: usize = 0;
    while d < fs.dirs.len()
        invariant
            d <= fs.dirs@.len(),
            partial@.len() > 0,
            bv == views_of_strings(builtins@),
            strictly_sorted(views_of_strings(out@)),
            forall|s: Seq<char>| #![trigger views_of_strings(out@).contains(s)]
                views_of_strings(out@).contains(s) <==> ((bv.contains(s) && partial@.is_prefix_of(
                    s,
                )) || fs_candidate_upto(s, partial@, fs@, d as int, 0)),
        decreases fs.dirs@.len() - d,
    {
        let listing = &fs.dirs[d];
        proof {
            assert(fs@.dirs[d as int] == listing@);
        }
        let mut e: usize = 0;
        while e < listing.entries.len()
            invariant
                e <= listing.entries@.len(),
                d < fs.dirs@.len(),
                fs@.dirs[d as int] == listing@,
                listing@.entries.len() == listing.entries@.len(),
                partial@.len() > 0,
                bv == views_of_strings(builtins@),
                strictly_sorted(views_of_strings(out@)),
                forall|s: Seq<char>| #![trigger views_of_strings(out@).contains(s)]
                    views_of_strings(out@).contains(s) <==> ((bv.contains(s)
                        && partial@.is_prefix_of(s)) || fs_candidate_upto(
                        s,
                        partial@,
                        fs@,
                        d as int,
                        e as int,
                    )),
            decreases listing.entries@.len() - e,
        {
            let ghost pre = views_of_strings(out@);
            let entry = &listing.entries[e];
            proof {
                assert(listing@.entries[e as int] == entry@);
            }
            let executable = entry.is_file && (entry.mode & 0o111u32) != 0u32;
            if executable && has_prefix(entry.name.as_str(), partial) {
                insert_sorted_unique(&mut out, entry.name.clone());
            }
            proof {
                let nv = views_of_strings(out@);
                let dd = d as int;
                let ee = e as int;
                assert forall|s: Seq<char>| nv.contains(s) implies ((bv.contains(s)
                    && partial@.is_prefix_of(s)) || fs_candidate_upto(
                    s,
                    partial@,
                    fs@,
                    dd,
                    ee + 1,
                )) by {
                    if pre.contains(s) {
                        if !(bv.contains(s) && partial@.is_prefix_of(s)) {
                            assert(fs_candidate_upto(s, partial@, fs@, dd, ee));
                            let (di, ei) = choose|di: int, ei: int|
                                0 <= di < fs@.dirs.len() && 0 <= ei < fs@.dirs[di].entries.len()
                                    && (di < dd || (di == dd && ei < ee)) && fs@.dirs[
                                di].entries[ei].name == s && entry_is_executable(
                                    fs@.dirs[di].entries[ei],
                                ) && partial@.is_prefix_of(s);
                            assert(0 <= di < fs@.dirs.len() && 0 <= ei
                                < fs@.dirs[di].entries.len() && (di < dd || (di == dd && ei < ee
                                + 1)) && fs@.dirs[di].entries[ei].name == s && entry_is_executable(
                                fs@.dirs[di].entries[ei],
                            ) && partial@.is_prefix_of(s));
                            assert(fs_candidate_upto(s, partial@, fs@, dd, ee + 1));
                        }
                    } else {
                        // only the freshly inserted entry is new
                        assert(s == entry@.name);
                        assert(partial@.is_prefix_of(s) && entry_is_executable(entry@));
                        assert(fs@.dirs[dd].entries[ee] == entry@);
                        assert(0 <= dd < fs@.dirs.len() && 0 <= ee < fs@.dirs[dd].entries.len()
                            && (dd < dd || (dd == dd && ee < ee + 1)) && fs@.dirs[
                        dd].entries[ee].name == s && entry_is_executable(fs@.dirs[dd].entries[ee])
                            && partial@.is_prefix_of(s));
                        assert(fs_candidate_upto(s, partial@, fs@, dd, ee + 1));
                    }
                }
                assert forall|s: Seq<char>| ((bv.contains(s) && partial@.is_prefix_of(s))
                    || fs_candidate_upto(s, partial@, fs@, dd, ee + 1)) implies nv.contains(
                    s,
                ) by {
                    if bv.contains(s) && partial@.is_prefix_of(s) {
                        assert(pre.contains(s));
                    } else {
                        let (di, ei) = choose|di: int, ei: int|
                            0 <= di < fs@.dirs.len() && 0 <= ei < fs@.dirs[di].entries.len() && (di
                                < dd || (di == dd && ei < ee + 1)) && fs@.dirs[di].entries[ei].name
                                == s && entry_is_executable(fs@.dirs[di].entries[ei])
                                && partial@.is_prefix_of(s);
                        if di < dd || (di == dd && ei < ee) {
                            assert(fs_candidate_upto(s, partial@, fs@, dd, ee));
                            assert(pre.contains(s));
                        } else {
                            assert(di == dd && ei == ee);
                            assert(fs@.dirs[dd].entries[ee] == entry@);
                            assert(s == entry@.name && entry_is_executable(entry@));
                        }
                    }
                }
            }
            e = e + 1;
        }
        proof {
            let dd = d as int;
            let el = listing.entries@.len() as int;
            assert(fs@.dirs[dd].entries.len() == el);
            assert forall|s: Seq<char>| #![trigger views_of_strings(out@).contains(s)]
                views_of_strings(out@).contains(s) <==> ((bv.contains(s) && partial@.is_prefix_of(
                    s,
                )) || fs_candidate_upto(s, partial@, fs@, dd + 1, 0)) by {
                if views_of_strings(out@).contains(s) {
                    assert((bv.contains(s) && partial@.is_prefix_of(s)) || fs_candidate_upto(
                        s,
                        partial@,
                        fs@,
                        dd,
                        el,
                    ));
                    if !(bv.contains(s) && partial@.is_prefix_of(s)) {
                        let (di, ei) = choose|di: int, ei: int|
                            0 <= di < fs@.dirs.len() && 0 <= ei < fs@.dirs[di].entries.len() && (di
                                < dd || (di == dd && ei < el)) && fs@.dirs[di].entries[ei].name
                                == s && entry_is_executable(fs@.dirs[di].entries[ei])
                                && partial@.is_prefix_of(s);
                        assert(0 <= di < fs@.dirs.len() && 0 <= ei < fs@.dirs[di].entries.len()
                            && (di < dd + 1 || (di == dd + 1 && ei < 0)) && fs@.dirs[
                        di].entries[ei].name == s && entry_is_executable(fs@.dirs[di].entries[ei])
                            && partial@.is_prefix_of(s));
                        assert(fs_candidate_upto(s, partial@, fs@, dd + 1, 0));
                    }
                } else {
                    if bv.contains(s) && partial@.is_prefix_of(s) {
                        assert(views_of_strings(out@).contains(s));
                    }
                    if fs_candidate_upto(s, partial@, fs@, dd + 1, 0) {
                        let (di, ei) = choose|di: int, ei: int|
                            0 <= di < fs@.dirs.len() && 0 <= ei < fs@.dirs[di].entries.len() && (di
                                < dd + 1 || (di == dd + 1 && ei < 0)) && fs@.dirs[
                            di].entries[ei].name == s && entry_is_executable(
                                fs@.dirs[di].entries[ei],
                            ) && partial@.is_prefix_of(s);
                        assert(di < dd || (di == dd && ei < el));
                        assert(fs_candidate_upto(s, partial@, fs@, dd, el));
                        assert(views_of_strings(out@).contains(s));
                    }
                }
            }
        }
        d = d + 1;
    }
    proof {
        let dd = d as int;
        assert(dd == fs@.dirs.len());
        assert forall|s: Seq<char>| views_of_strings(out@).contains(s) implies is_candidate(
            s,
            partial@,
            bv,
            fs@,
        ) by {
            if !(bv.contains(s) && partial@.is_prefix_of(s)) {
                assert(fs_candidate_upto(s, partial@, fs@, dd, 0));
                let (di, ei) = choose|di: int, ei: int|
                    0 <= di < fs@.dirs.len() && 0 <= ei < fs@.dirs[di].entries.len() && (di < dd
                        || (di == dd && ei < 0)) && fs@.dirs[di].entries[ei].name == s
                        && entry_is_executable(fs@.dirs[di].entries[ei]) && partial@.is_prefix_of(
                        s,
                    );
                assert(dir_has_executable(fs@.dirs[di], s));
            }
        }
        assert forall|s: Seq<char>| is_candidate(s, partial@, bv, fs@) implies views_of_strings(
            out@,
        ).contains(s) by {
            if !(bv.contains(s) && partial@.is_prefix_of(s)) {
                let di = choose|di: int|
                    0 <= di < fs@.dirs.len() && dir_has_executable(fs@.dirs[di], s);
                let ei = choose|ei: int|
                    0 <= ei < fs@.dirs[di].entries.len() && fs@.dirs[di].entries[ei].name == s
                        && entry_is_executable(fs@.dirs[di].entries[ei]);
                assert(0 <= di < fs@.dirs.len() && 0 <= ei < fs@.dirs[di].entries.len() && (di < dd
                    || (di == dd && ei < 0)) && fs@.dirs[di].entries[ei].name == s
                    && entry_is_executable(fs@.dirs[di].entries[ei]) && partial@.is_prefix_of(s));
                assert(fs_candidate_upto(s, partial@, fs@, dd, 0));
            }
        }
    }
    out
}

/// The longest common prefix of two character sequences.
pub open spec fn lcp_pair(a: Seq<char>, b: Seq<char>) -> Seq<char>
    decreases a.len(),
{
    if a.len() == 0 || b.len() == 0 || a[0] != b[0] {
        Seq::empty()
    } else {
        seq![a[0]] + lcp_pair(a.skip(1), b.skip(1))
    }
}

/// The longest common prefix of all the sequences.
pub open spec fn lcp_all(c: Seq<Seq<char>>) -> Seq<char>
    decreases c.len(),
{
    if c.len() == 0 {
        Seq::empty()
    } else if c.len() == 1 {
        c[0]
    } else {
        lcp_pair(c[0], lcp_all(c.skip(1)))
    }
}

/// `lcp_pair` is a common prefix of both its arguments.
pub proof fn lemma_lcp_pair_common(a: Seq<char>, b: Seq<char>)
    ensures
        lcp_pair(a, b).is_prefix_of(a),
        lcp_pair(a, b).is_prefix_of(b),
    decreases a.len(),
{
    if a.len() == 0 || b.len() == 0 || a[0] != b[0] {
        assert(lcp_pair(a, b) =~= a.take(0));
        assert(lcp_pair(a, b) =~= b.take(0));
    } else {
        lemma_lcp_pair_common(a.skip(1), b.skip(1));
        let r = lcp_pair(a, b);
        let rr = lcp_pair(a.skip(1), b.skip(1));
        assert(rr == a.skip(1).take(rr.len() as int));
        assert(rr == b.skip(1).take(rr.len() as int));
        assert(r =~= a.take(r.len() as int)) by {
            assert forall|k: int| 0 <= k < r.len() implies r[k] == a[k] by {
                if k > 0 {
                    assert(r[k] == rr[k - 1]);
                    assert(rr[k - 1] == a.skip(1)[k - 1]);
                }
            }
        }
        assert(r =~= b.take(r.len() as int)) by {
            assert forall|k: int| 0 <= k < r.len() implies r[k] == b[k] by {
                if k > 0 {
                    assert(r[k] == rr[k - 1]);
                    assert(rr[k - 1] == b.skip(1)[k - 1]);
                }
            }
        }
    }
}

/// Any common prefix of `a` and `b` is a prefix of their longest common
/// prefix: nothing longer is common.
pub proof fn lemma_lcp_pair_longest(a: Seq<char>, b: Seq<char>, p: Seq<char>)
    requires
        p.is_prefix_of(a),
        p.is_prefix_of(b),
    ensures
        p.is_prefix_of(lcp_pair(a, b)),
    decreases a.len(),
{
    if p.len() == 0 {
        assert(p =~= lcp_pair(a, b).take(0));
    } else {
        assert(a[0] == p[0] && b[0] == p[0]) by {
            assert(p == a.take(p.len() as int));
            assert(p == b.take(p.len() as int));
        }
        lemma_lcp_pair_longest(a.skip(1), b.skip(1), p.skip(1));
        let r = lcp_pair(a, b);
        let rr = lcp_pair(a.skip(1), b.skip(1));
        assert(p.skip(1) == a.skip(1).take(p.len() - 1)) by {
            assert(p.skip(1) =~= a.skip(1).take(p.len() - 1));
        }
        assert(p.skip(1) == b.skip(1).take(p.len() - 1)) by {
            assert(p.skip(1) =~= b.skip(1).take(p.len() - 1));
        }
        assert(p.skip(1).is_prefix_of(rr));
        assert(p =~= r.take(p.len() as int)) by {
            assert forall|k: int| 0 <= k < p.len() implies p[k] == r[k] by {
                if k > 0 {
                    assert(p[k] == p.skip(1)[k - 1]);
                    assert(p.skip(1)[k - 1] == rr.take(p.len() - 1)[k - 1]);
                    assert(r[k] == rr[k - 1]);
                }
            }
        }
    }
}

/// The longest common prefix of a non-empty family is a prefix of every
/// member, and every common prefix of the family is a prefix of it.
pub proof fn lemma_lcp_all_characterizes(c: Seq<Seq<char>>)
    requires
        c.len() > 0,
    ensures
        forall|k: int| 0 <= k < c.len() ==> lcp_all(c).is_prefix_of(#[trigger] c[k]),
        forall|p: Seq<char>|
            (forall|k: int| 0 <= k < c.len() ==> p.is_prefix_of(#[trigger] c[k]))
                ==> p.is_prefix_of(lcp_all(c)),
    decreases c.len(),
{
    if c.len() == 1 {
        assert forall|p: Seq<char>|
            (forall|k: int| 0 <= k < c.len() ==> p.is_prefix_of(#[trigger] c[k]))
                implies p.is_prefix_of(lcp_all(c)) by {
            assert(p.is_prefix_of(c[0]));
        }
    } else {
        let rest = c.skip(1);
        lemma_lcp_all_characterizes(rest);
        lemma_lcp_pair_common(c[0], lcp_all(rest));
        let r = lcp_all(c);
        assert forall|k: int| 0 <= k < c.len() implies r.is_prefix_of(#[trigger] c[k]) by {
            if k == 0 {
            } else {
                assert(lcp_all(rest).is_prefix_of(rest[k - 1]));
                assert(rest[k - 1] == c[k]);
                lemma_prefix_trans(r, lcp_all(rest), c[k]);
            }
        }
        assert forall|p: Seq<char>|
            (forall|k: int| 0 <= k < c.len() ==> p.is_prefix_of(#[trigger] c[k]))
                implies p.is_prefix_of(r) by {
            assert forall|k: int| 0 <= k < rest.len() implies p.is_prefix_of(
                #[trigger] rest[k],
            ) by {
                assert(rest[k] == c[k + 1]);
                assert(p.is_prefix_of(c[k + 1]));
            }
            assert(p.is_prefix_of(lcp_all(rest)));
            assert(p.is_prefix_of(c[0]));
            lemma_lcp_pair_longest(c[0], lcp_all(rest), p);
        }
    }
}

/// Prefixes chain: a prefix of a prefix is a prefix of the whole.
pub proof fn lemma_prefix_trans(a: Seq<char>, b: Seq<char>, c: Seq<char>)
    requires
        a.is_prefix_of(b),
        b.is_prefix_of(c),
    ensures
        a.is_prefix_of(c),
{
    assert(a =~= c.take(a.len() as int)) by {
        assert forall|k: int| 0 <= k < a.len() implies a[k] == c[k] by {
            assert(a[k] == b.take(a.len() as int)[k]);
            assert(b[k] == c.take(b.len() as int)[k]);
        }
    }
}

/// The longest common prefix of two strings.
fn lcp_pair_exec(a: &str, b: &str) -> (r: String)
    ensures
        r@ == lcp_pair(a@, b@),
{
    let alen = a.unicode_len();
    let blen = b.unicode_len();
    proof {
        assert(a@.skip(0) =~= a@);
        assert(b@.skip(0) =~= b@);
        assert(a@.take(0) + lcp_pair(a@.skip(0), b@.skip(0)) =~= lcp_pair(a@, b@));
    }
    let mut i: usize = 0;
    while i < alen && i < blen && a.get_char(i) == b.get_char(i)
        invariant
            i <= alen,
            i <= blen,
            alen == a@.len(),
            blen == b@.len(),
            lcp_pair(a@, b@) == a@.take(i as int) + lcp_pair(a@.skip(i as int), b@.skip(i as int)),
        decreases alen - i,
    {
        proof {
            let sa = a@.skip(i as int);
            let sb = b@.skip(i as int);
            assert(sa[0] == a@[i as int]);
            assert(sb[0] == b@[i as int]);
            assert(lcp_pair(sa, sb) == seq![sa[0]] + lcp_pair(sa.skip(1), sb.skip(1)));
            assert(sa.skip(1) =~= a@.skip(i + 1));
            assert(sb.skip(1) =~= b@.skip(i + 1));
            assert(a@.take(i as int) + (seq![sa[0]] + lcp_pair(a@.skip(i + 1), b@.skip(i + 1)))
                =~= a@.take(i + 1) + lcp_pair(a@.skip(i + 1), b@.skip(i + 1)));
        }
        i = i + 1;
    }
    proof {
        let sa = a@.skip(i as int);
        let sb = b@.skip(i as int);
        assert(sa.len() == 0 || sb.len() == 0 || sa[0] != sb[0]) by {
            if i < alen && i < blen {
                assert(sa[0] == a@[i as int]);
                assert(sb[0] == b@[i as int]);
            }
        }
        assert(lcp_pair(sa, sb) == Seq::<char>::empty());
        assert(a@.take(i as int) + Seq::<char>::empty() =~= a@.take(i as int));
    }
    let r = a.substring_char(0, i);
    proof {
        assert(r@ =~= a@.take(i as int));
    }
    String::from_str(r)
}

/// The longest common prefix across all candidates, computed pairwise.
pub fn longest_common_prefix(cands: &Vec<String>) -> (r: String)
    requires
        cands@.len() > 0,
    ensures
        r@ == lcp_all(views_of_strings(cands@)),
{
    let ghost cv = views_of_strings(cands@);
    let mut i: usize = cands.len() - 1;
    let mut acc: String = cands[i].clone();
    proof {
        assert(cv.skip(i as int).len() == 1);
        assert(cv.skip(i as int)[0] == cv[i as int]);
        assert(lcp_all(cv.skip(i as int)) == cv[i as int]);
    }
    while i > 0
        invariant
            i < cands@.len(),
            cv == views_of_strings(cands@),
            acc@ == lcp_all(cv.skip(i as int)),
        decreases i,
    {
        i = i - 1;
        let next = lcp_pair_exec(cands[i].as_str(), acc.as_str());
        proof {
            let s = cv.skip(i as int);
            assert(s.len() >= 2);
            assert(s[0] == cv[i as int]);
            assert(s.skip(1) =~= cv.skip(i + 1));
            assert(lcp_all(s) == lcp_pair(cv[i as int], lcp_all(cv.skip(i + 1))));
        }
        acc = next;
    }
    proof {
        assert(cv.skip(0) =~= cv);
    }
    acc
}

/// What a completion keypress does, given the typed partial word and the
/// candidate list.
pub enum TabOutcome {
    /// No candidate: ring the bell, leave the line alone.
    Bell,
    /// Replace the word under the cursor with this text.
    Replace { text: String },
    /// Several candidates and no longer common prefix: show the menu.
    Menu,
}

/// The completion policy: no candidate rings the bell; a single candidate
/// replaces the word; several candidates extend the word to their longest
/// common prefix when that is longer than what was typed, and otherwise call
/// for the candidate menu.
pub fn tab_action(partial: &str, cands: &Vec<String>) -> (r: TabOutcome)
    ensures
        cands@.len() == 0 ==> r is Bell,
        cands@.len() == 1 ==> r is Replace && r->Replace_text@ == cands@[0]@,
        cands@.len() >= 2 ==> ({
            let p = lcp_all(views_of_strings(cands@));
            if p.len() > partial@.len() {
                r is Replace && r->Replace_text@ == p
            } else {
                r is Menu
            }
        }),
{
    if cands.len() == 0 {
        TabOutcome::Bell
    } else if cands.len() == 1 {
        TabOutcome::Replace { text: cands[0].clone() }
    } else {
        let p = longest_common_prefix(cands);
        if p.unicode_len() > partial.unicode_len() {
            TabOutcome::Replace { text: p }
        } else {
            TabOutcome::Menu
        }
    }
}

} // verus!
