//! The pattern compiler: turns a route template string into a compiled
//! matcher, and defines what it means for a concrete path to match.
//!
//! A template is a mixture of literal characters and placeholders.  A
//! placeholder is written `:name`; it matches one non-empty run of characters
//! from a bounded class (letters, digits, underscore, hyphen).  The class
//! excludes `/`, so a placeholder never spans more than one path level.  The
//! compiled matcher is anchored at both ends: a path matches only in full,
//! never as a substring.

use vstd::prelude::*;
use vstd::string::StrSliceExecFns;

verus! {

/// The characters a placeholder may stand for: letters, digits, underscore
/// and hyphen.  `/` is deliberately excluded, so a variable segment cannot
/// cross a path separator; `:` is excluded as well.
pub open spec fn is_class_char(c: char) -> bool {
    let u = c as u32;
    (97 <= u && u <= 122)  // 'a' ..= 'z'
    || (65 <= u && u <= 90)  // 'A' ..= 'Z'
    || (48 <= u && u <= 57)  // '0' ..= '9'
    || u == 95  // '_'
    || u == 45  // '-'
}

/// Executable twin of [`is_class_char`].
pub fn class_char(c: char) -> (r: bool)
    ensures
        r == is_class_char(c),
{
    let u: u32 = c as u32;
    (97 <= u && u <= 122) || (65 <= u && u <= 90) || (48 <= u && u <= 57) || u == 95 || u == 45
}

/// The length of the run of class characters in `t` that starts at `i`: a
/// placeholder's name reaches from the `:` to the first character outside
/// the class.
pub open spec fn class_run(t: Seq<char>, i: int) -> int
    decreases t.len() - i,
{
    if i < 0 || i >= t.len() || !is_class_char(t[i]) {
        0
    } else {
        1 + class_run(t, i + 1)
    }
}

/// A class run never reaches past the template's end.
pub proof fn lemma_class_run_bounds(t: Seq<char>, i: int)
    requires
        0 <= i <= t.len(),
    ensures
        0 <= class_run(t, i) <= t.len() - i,
    decreases t.len() - i,
{
    if i < t.len() && is_class_char(t[i]) {
        lemma_class_run_bounds(t, i + 1);
    }
}

/// The run's length, spelled out: it ends exactly at the first position
/// outside the class (or at the template's end).
pub proof fn lemma_class_run_value(t: Seq<char>, i: int, j: int)
    requires
        0 <= i <= j <= t.len(),
        forall|x: int| i <= x < j ==> is_class_char(t[x]),
        j == t.len() || !is_class_char(t[j]),
    ensures
        class_run(t, i) == j - i,
    decreases j - i,
{
    if i < j {
        lemma_class_run_value(t, i + 1, j);
    }
}

/// Whether the characters of `p` from `pi` up to (excluding) `k` form a
/// non-empty run of class characters: a value a placeholder can stand for.
pub open spec fn class_seg(p: Seq<char>, pi: int, k: int) -> bool {
    pi + 1 <= k <= p.len() && (forall|x: int| pi <= x < k ==> is_class_char(p[x]))
}

/// Whether the template `t`, read from position `ti` on, accepts the path
/// `p` from position `pi` on.  A `:` opens a placeholder: its name (the
/// following class run) is skipped, and the placeholder itself consumes some
/// non-empty run of class characters of the path.  Any other template
/// character must be reproduced by the path exactly.  An exhausted template
/// accepts only an exhausted path: matching is anchored.
pub open spec fn tpl_match_from(t: Seq<char>, ti: int, p: Seq<char>, pi: int) -> bool
    decreases t.len() - ti,
    via tpl_match_from_decreases
{
    if ti < 0 || ti >= t.len() {
        pi == p.len()
    } else if t[ti] == ':' {
        exists|k: int|
            #[trigger] class_seg(p, pi, k) && tpl_match_from(t, ti + 1 + class_run(t, ti + 1), p, k)
    } else {
        0 <= pi < p.len() && p[pi] == t[ti] && tpl_match_from(t, ti + 1, p, pi + 1)
    }
}

#[via_fn]
proof fn tpl_match_from_decreases(t: Seq<char>, ti: int, p: Seq<char>, pi: int) {
    if 0 <= ti && ti < t.len() && t[ti] == ':' {
        lemma_class_run_bounds(t, ti + 1);
    }
}

/// Whether the whole template accepts the whole path.
pub open spec fn tpl_match(t: Seq<char>, p: Seq<char>) -> bool {
    tpl_match_from(t, 0, p, 0)
}

/// A compiled route template, ready to be tested against concrete paths.
/// Compilation normalizes the template into its character sequence; the
/// placeholder grammar is interpreted against it, one path per call.
#[derive(Clone)]
pub struct Matcher {
    pub tpl: Vec<char>,
}

impl Matcher {
    /// Compiles a route template.  Deterministic and total: every template
    /// compiles, and the matcher answers for exactly that template.
    pub fn compile(template: &str) -> (m: Matcher)
        ensures
            m.tpl@ == template@,
    {
        let n: usize = template.unicode_len();
        let mut tpl: Vec<char> = Vec::new();
        let mut i: usize = 0;
        while i < n
            invariant
                i <= n,
                n == template@.len(),
                tpl@ == template@.take(i as int),
            decreases n - i,
        {
            let c = template.get_char(i);
            tpl.push(c);
            proof {
                assert(tpl@ =~= template@.take(i + 1));
            }
            i = i + 1;
        }
        proof {
            assert(template@.take(n as int) =~= template@);
        }
        Matcher { tpl }
    }

    /// Tests a concrete path against the compiled template.  The result is
    /// exactly [`tpl_match`] of the template on the whole path.
    pub fn is_match(&self, path: &str) -> (r: bool)
        ensures
            r == tpl_match(self.tpl@, path@),
    {
        let n: usize = path.unicode_len();
        match_from(&self.tpl, 0, path, n, 0)
    }

    /// Matches the path and, on success, hands out the placeholders' values
    /// as character ranges of the path (start inclusive, end exclusive), one
    /// per placeholder, in template order.  Succeeds exactly when
    /// [`Matcher::is_match`] does; each returned range is a non-empty run of
    /// class characters.
    pub fn captures(&self, path: &str) -> (r: Option<Vec<(usize, usize)>>)
        ensures
            r is Some <==> tpl_match(self.tpl@, path@),
            r matches Some(vs) ==> vs@.len() == ph_count(self.tpl@, 0) && (forall|q: int|
                0 <= q < vs@.len() ==> class_seg(path@, vs@[q].0 as int, vs@[q].1 as int)),
    {
        let n: usize = path.unicode_len();
        capture_from(&self.tpl, 0, path, n, 0)
    }
}

/// How many placeholders the template holds from position `ti` on.
pub open spec fn ph_count(t: Seq<char>, ti: int) -> int
    decreases t.len() - ti,
    via ph_count_decreases
{
    if ti < 0 || ti >= t.len() {
        0
    } else if t[ti] == ':' {
        1 + ph_count(t, ti + 1 + class_run(t, ti + 1))
    } else {
        ph_count(t, ti + 1)
    }
}

#[via_fn]
proof fn ph_count_decreases(t: Seq<char>, ti: int) {
    if 0 <= ti && ti < t.len() && t[ti] == ':' {
        lemma_class_run_bounds(t, ti + 1);
    }
}

/// Whether the template from `ti` on accepts the path from `pi` on.  A
/// placeholder is tried against every non-empty class run the path offers at
/// `pi`, so an ambiguous boundary (a literal hyphen right after a
/// placeholder, say) is still resolved correctly.
fn match_from(tpl: &Vec<char>, ti: usize, path: &str, n: usize, pi: usize) -> (r: bool)
    requires
        ti <= tpl@.len(),
        pi <= path@.len(),
        n == path@.len(),
    ensures
        r == tpl_match_from(tpl@, ti as int, path@, pi as int),
    decreases tpl@.len() - ti,
{
    let ghost t = tpl@;
    let ghost p = path@;
    let tn: usize = tpl.len();
    if ti == tn {
        return pi == n;
    }
    let c = tpl[ti];
    if c == ':' {
        // Skip the placeholder's name: the class run after the `:`.
        let mut nj: usize = ti + 1;
        while nj < tn && class_char(tpl[nj])
            invariant
                ti + 1 <= nj <= tn,
                tn == t.len(),
                t == tpl@,
                forall|x: int| ti + 1 <= x < nj ==> is_class_char(t[x]),
            decreases tn - nj,
        {
            nj = nj + 1;
        }
        proof {
            lemma_class_run_value(t, ti + 1, nj as int);
            assert(ti + 1 + class_run(t, ti + 1) == nj);
        }
        // Try every non-empty class run of the path as the placeholder's
        // value.
        let mut j: usize = pi;
        loop
            invariant
                pi <= j <= n,
                n == p.len(),
                p == path@,
                t == tpl@,
                ti < t.len(),
                t[ti as int] == ':',
                ti + 1 + class_run(t, ti + 1) == nj,
                ti + 1 <= nj <= t.len(),
                forall|x: int| pi <= x < j ==> is_class_char(p[x]),
                forall|k: int|
                    pi + 1 <= k <= j ==> !(#[trigger] tpl_match_from(t, nj as int, p, k)),
            decreases n - j,
        {
            if j == n || !class_char(path.get_char(j)) {
                proof {
                    assert forall|k: int| #[trigger] class_seg(p, pi as int, k) implies !tpl_match_from(
                        t,
                        ti as int + 1 + class_run(t, ti as int + 1),
                        p,
                        k,
                    ) by {
                        if k > j {
                            assert(j < n);
                            assert(is_class_char(p[j as int]));
                            assert(false);
                        } else {
                            assert(!tpl_match_from(t, nj as int, p, k));
                        }
                    }
                    assert(!tpl_match_from(t, ti as int, p, pi as int));
                }
                return false;
            }
            j = j + 1;
            if match_from(tpl, nj, path, n, j) {
                proof {
                    let k = j as int;
                    assert(class_seg(p, pi as int, k));
                    assert(tpl_match_from(t, ti as int + 1 + class_run(t, ti as int + 1), p, k));
                    assert(tpl_match_from(t, ti as int, p, pi as int));
                }
                return true;
            }
        }
    } else {
        if pi < n {
            let d = path.get_char(pi);
            if d == c {
                match_from(tpl, ti + 1, path, n, pi + 1)
            } else {
                false
            }
        } else {
            false
        }
    }
}

/// Like [`match_from`], but also collects, for each placeholder, the range
/// of path characters it stood for.  `None` exactly where [`match_from`]
/// answers false.
fn capture_from(tpl: &Vec<char>, ti: usize, path: &str, n: usize, pi: usize) -> (r: Option<
    Vec<(usize, usize)>,
>)
    requires
        ti <= tpl@.len(),
        pi <= path@.len(),
        n == path@.len(),
    ensures
        r is Some <==> tpl_match_from(tpl@, ti as int, path@, pi as int),
        r matches Some(vs) ==> vs@.len() == ph_count(tpl@, ti as int) && (forall|q: int|
            0 <= q < vs@.len() ==> class_seg(path@, vs@[q].0 as int, vs@[q].1 as int)),
    decreases tpl@.len() - ti,
{
    let ghost t = tpl@;
    let ghost p = path@;
    let tn: usize = tpl.len();
    if ti == tn {
        if pi == n {
            return Some(Vec::new());
        } else {
            return None;
        }
    }
    let c = tpl[ti];
    if c == ':' {
        // Skip the placeholder's name: the class run after the `:`.
        let mut nj: usize = ti + 1;
        while nj < tn && class_char(tpl[nj])
            invariant
                ti + 1 <= nj <= tn,
                tn == t.len(),
                t == tpl@,
                forall|x: int| ti + 1 <= x < nj ==> is_class_char(t[x]),
            decreases tn - nj,
        {
            nj = nj + 1;
        }
        proof {
            lemma_class_run_value(t, ti + 1, nj as int);
            assert(ti + 1 + class_run(t, ti + 1) == nj);
        }
        // Try every non-empty class run of the path as the placeholder's
        // value; record the one that lets the rest match.
        let mut j: usize = pi;
        loop
            invariant
                pi <= j <= n,
                n == p.len(),
                p == path@,
                t == tpl@,
                ti < t.len(),
                t[ti as int] == ':',
                ti + 1 + class_run(t, ti + 1) == nj,
                ti + 1 <= nj <= t.len(),
                forall|x: int| pi <= x < j ==> is_class_char(p[x]),
                forall|k: int|
                    pi + 1 <= k <= j ==> !(#[trigger] tpl_match_from(t, nj as int, p, k)),
            decreases n - j,
        {
            if j == n || !class_char(path.get_char(j)) {
                proof {
                    assert forall|k: int| #[trigger] class_seg(p, pi as int, k) implies !tpl_match_from(
                        t,
                        ti as int + 1 + class_run(t, ti as int + 1),
                        p,
                        k,
                    ) by {
                        if k > j {
                            assert(j < n);
                            assert(is_class_char(p[j as int]));
                            assert(false);
                        } else {
                            assert(!tpl_match_from(t, nj as int, p, k));
                        }
                    }
                    assert(!tpl_match_from(t, ti as int, p, pi as int));
                }
                return None;
            }
            j = j + 1;
            match capture_from(tpl, nj, path, n, j) {
                Some(vs) => {
                    proof {
                        let k = j as int;
                        assert(class_seg(p, pi as int, k));
                        assert(tpl_match_from(t, ti as int + 1 + class_run(t, ti as int + 1), p, k));
                        assert(tpl_match_from(t, ti as int, p, pi as int));
                        assert(ph_count(t, ti as int) == 1 + ph_count(
                            t,
                            ti as int + 1 + class_run(t, ti as int + 1),
                        ));
                        assert(ph_count(t, ti as int) == 1 + ph_count(t, nj as int));
                    }
                    let mut out: Vec<(usize, usize)> = Vec::new();
                    out.push((pi, j));
                    let m: usize = vs.len();
                    let mut q: usize = 0;
                    while q < m
                        invariant
                            q <= m,
                            m == vs@.len(),
                            out@ == seq![(pi, j)] + vs@.take(q as int),
                            pi < j <= n,
                            n == p.len(),
                            p == path@,
                            forall|x: int| pi <= x < j ==> is_class_char(p[x]),
                            forall|x: int|
                                0 <= x < vs@.len() ==> class_seg(
                                    p,
                                    #[trigger] vs@[x].0 as int,
                                    vs@[x].1 as int,
                                ),
                        decreases m - q,
                    {
                        let pair = vs[q];
                        out.push(pair);
                        proof {
                            assert(out@ =~= seq![(pi, j)] + vs@.take(q + 1));
                        }
                        q = q + 1;
                    }
                    proof {
                        assert(vs@.take(m as int) =~= vs@);
                        assert(out@.len() == 1 + vs@.len());
                        assert(class_seg(p, pi as int, j as int));
                        assert forall|x: int| 0 <= x < out@.len() implies class_seg(
                            p,
                            #[trigger] out@[x].0 as int,
                            out@[x].1 as int,
                        ) by {
                            if x > 0 {
                                assert(out@[x] == vs@[x - 1]);
                            } else {
                                assert(out@[0] == (pi, j));
                            }
                        }
                    }
                    return Some(out);
                },
                None => {},
            }
        }
    } else {
        if pi < n {
            let d = path.get_char(pi);
            if d == c {
                capture_from(tpl, ti + 1, path, n, pi + 1)
            } else {
                None
            }
        } else {
            None
        }
    }
}

/// Over a stretch of template without a `:`, matching means reproducing that
/// stretch character for character and matching on afterwards.
pub proof fn lemma_tpl_literal_region(t: Seq<char>, ti: int, tj: int, p: Seq<char>, pi: int)
    requires
        0 <= ti <= tj <= t.len(),
        0 <= pi <= p.len(),
        forall|x: int| ti <= x < tj ==> t[x] != ':',
    ensures
        tpl_match_from(t, ti, p, pi) <==> (pi + (tj - ti) <= p.len() && (forall|x: int|
            0 <= x < tj - ti ==> #[trigger] p[pi + x] == t[ti + x]) && tpl_match_from(
            t,
            tj,
            p,
            pi + (tj - ti),
        )),
    decreases tj - ti,
{
    if ti < tj {
        if pi == p.len() {
            assert(!tpl_match_from(t, ti, p, pi));
            assert(pi + (tj - ti) > p.len());
        } else {
            lemma_tpl_literal_region(t, ti + 1, tj, p, pi + 1);
            if pi + (tj - ti) <= p.len() && (forall|x: int|
                0 <= x < tj - ti ==> #[trigger] p[pi + x] == t[ti + x]) && tpl_match_from(
                t,
                tj,
                p,
                pi + (tj - ti),
            ) {
                assert(p[pi + 0] == t[ti + 0]);
                assert forall|x: int| 0 <= x < tj - ti - 1 implies #[trigger] p[pi + 1 + x] == t[ti
                    + 1 + x] by {
                    assert(p[pi + (x + 1)] == t[ti + (x + 1)]);
                }
                assert(tpl_match_from(t, ti + 1, p, pi + 1));
                assert(tpl_match_from(t, ti, p, pi));
            }
            if tpl_match_from(t, ti, p, pi) {
                assert(p[pi] == t[ti] && tpl_match_from(t, ti + 1, p, pi + 1));
                assert forall|x: int| 0 <= x < tj - ti implies #[trigger] p[pi + x] == t[ti
                    + x] by {
                    if x > 0 {
                        assert(p[pi + 1 + (x - 1)] == t[ti + 1 + (x - 1)]);
                    } else {
                        assert(pi + 0 == pi);
                    }
                }
            }
        }
    }
}

/// At a `:` that opens the template's final placeholder (its name runs to
/// the template's end), matching means the rest of the path is one non-empty
/// class run.
pub proof fn lemma_tpl_trailing_placeholder(t: Seq<char>, ti: int, p: Seq<char>, pi: int)
    requires
        0 <= ti < t.len(),
        t[ti] == ':',
        forall|x: int| ti + 1 <= x < t.len() ==> is_class_char(t[x]),
        0 <= pi <= p.len(),
    ensures
        tpl_match_from(t, ti, p, pi) <==> (pi < p.len() && forall|x: int|
            pi <= x < p.len() ==> is_class_char(p[x])),
{
    lemma_class_run_value(t, ti + 1, t.len() as int);
    assert(ti + 1 + class_run(t, ti + 1) == t.len());
    if pi < p.len() && (forall|x: int| pi <= x < p.len() ==> is_class_char(p[x])) {
        assert(class_seg(p, pi, p.len() as int));
        assert(tpl_match_from(t, ti + 1 + class_run(t, ti + 1), p, p.len() as int));
        assert(tpl_match_from(t, ti, p, pi));
    }
    if tpl_match_from(t, ti, p, pi) {
        let k = choose|k: int|
            #[trigger] class_seg(p, pi, k) && tpl_match_from(t, ti + 1 + class_run(t, ti + 1), p, k);
        assert(k == p.len());
    }
}

/// At a `:`, matching means some non-empty class run of the path stands for
/// the placeholder and matching resumes after the placeholder's name, at
/// `nti`.
pub proof fn lemma_tpl_placeholder_step(t: Seq<char>, ti: int, p: Seq<char>, pi: int, nti: int)
    requires
        0 <= ti < t.len(),
        t[ti] == ':',
        nti == ti + 1 + class_run(t, ti + 1),
    ensures
        tpl_match_from(t, ti, p, pi) <==> (exists|k: int|
            #[trigger] class_seg(p, pi, k) && tpl_match_from(t, nti, p, k)),
{
    if tpl_match_from(t, ti, p, pi) {
        let k = choose|k: int|
            #[trigger] class_seg(p, pi, k) && tpl_match_from(t, ti + 1 + class_run(t, ti + 1), p, k);
        assert(class_seg(p, pi, k) && tpl_match_from(t, nti, p, k));
    }
    if exists|k: int| #[trigger] class_seg(p, pi, k) && tpl_match_from(t, nti, p, k) {
        let k = choose|k: int| #[trigger] class_seg(p, pi, k) && tpl_match_from(t, nti, p, k);
        assert(tpl_match_from(t, ti + 1 + class_run(t, ti + 1), p, k));
        assert(tpl_match_from(t, ti, p, pi));
    }
}

/// A template with no placeholders accepts exactly the literal path: any
/// proper prefix, extension, or deviation is rejected.
pub proof fn lemma_literal_template(t: Seq<char>, p: Seq<char>)
    requires
        forall|i: int| 0 <= i < t.len() ==> t[i] != ':',
    ensures
        tpl_match(t, p) <==> p == t,
{
    lemma_tpl_literal_region(t, 0, t.len() as int, p, 0);
    if tpl_match(t, p) {
        assert(tpl_match_from(t, t.len() as int, p, t.len() as int));
        assert(p.len() == t.len());
        assert forall|x: int| 0 <= x < p.len() implies #[trigger] p[x] == t[x] by {
            assert(p[0 + x] == t[0 + x]);
        }
        assert(p =~= t);
    }
    if p == t {
        assert forall|x: int| 0 <= x < t.len() - 0 implies #[trigger] p[0 + x] == t[0 + x] by {}
        assert(tpl_match_from(t, t.len() as int, p, 0 + (t.len() - 0)));
    }
}

/// A template of a literal prefix followed by one trailing placeholder
/// accepts exactly the paths that reproduce the prefix and then offer one
/// non-empty class run: the placeholder's value cannot be empty, cannot
/// cross `/`, and nothing may follow it.
pub proof fn lemma_one_placeholder(lit: Seq<char>, name: Seq<char>, p: Seq<char>)
    requires
        forall|i: int| 0 <= i < lit.len() ==> lit[i] != ':',
        forall|i: int| 0 <= i < name.len() ==> is_class_char(name[i]),
    ensures
        tpl_match(lit + seq![':'] + name, p) <==> (lit.len() < p.len() && (forall|x: int|
            0 <= x < lit.len() ==> p[x] == lit[x]) && (forall|x: int|
            lit.len() <= x < p.len() ==> is_class_char(p[x]))),
{
    let t = lit + seq![':'] + name;
    let l = lit.len() as int;
    assert(t.len() == l + 1 + name.len());
    assert forall|x: int| 0 <= x < l implies t[x] == lit[x] && t[x] != ':' by {}
    assert(t[l] == ':');
    assert forall|x: int| l + 1 <= x < t.len() implies is_class_char(t[x]) by {
        assert(t[x] == name[x - (l + 1)]);
    }
    lemma_tpl_literal_region(t, 0, l, p, 0);
    if l < p.len() {
        lemma_tpl_trailing_placeholder(t, l, p, l);
    }
    if tpl_match(t, p) {
        assert(tpl_match_from(t, l, p, 0 + (l - 0)));
        assert(l < p.len());
        assert forall|x: int| 0 <= x < l implies #[trigger] p[x] == lit[x] by {
            assert(p[0 + x] == t[0 + x]);
        }
    }
    if l < p.len() && (forall|x: int| 0 <= x < lit.len() ==> #[trigger] p[x] == lit[x]) && (
    forall|x: int| lit.len() <= x < p.len() ==> is_class_char(p[x])) {
        assert(tpl_match_from(t, l, p, l));
        assert forall|x: int| 0 <= x < l - 0 implies #[trigger] p[0 + x] == t[0 + x] by {
            assert(p[x] == lit[x]);
        }
        assert(tpl_match(t, p));
    }
}

/// A template with two placeholders separated by a literal stretch accepts
/// exactly the paths made of the first literal, a non-empty class run, the
/// middle literal, and a final non-empty class run.  The middle literal must
/// open with a character outside the class (a `/`, typically), so the first
/// placeholder cannot swallow it.
pub proof fn lemma_two_placeholders(
    lit1: Seq<char>,
    name1: Seq<char>,
    lit2: Seq<char>,
    name2: Seq<char>,
    p: Seq<char>,
)
    requires
        forall|i: int| 0 <= i < lit1.len() ==> lit1[i] != ':',
        forall|i: int| 0 <= i < lit2.len() ==> lit2[i] != ':',
        forall|i: int| 0 <= i < name1.len() ==> is_class_char(name1[i]),
        forall|i: int| 0 <= i < name2.len() ==> is_class_char(name2[i]),
        lit2.len() > 0,
        !is_class_char(lit2[0]),
    ensures
        tpl_match(lit1 + seq![':'] + name1 + lit2 + seq![':'] + name2, p) <==> (exists|k: int|
            #[trigger] class_seg(p, lit1.len() as int, k) && (forall|x: int|
                0 <= x < lit1.len() ==> p[x] == lit1[x]) && k + lit2.len() < p.len() && (forall|
            x: int|
                0 <= x < lit2.len() ==> p[k + x] == lit2[x]) && (forall|x: int|
                k + lit2.len() <= x < p.len() ==> is_class_char(p[x]))),
{
    let t = lit1 + seq![':'] + name1 + lit2 + seq![':'] + name2;
    let l1 = lit1.len() as int;
    let a = l1 + 1 + name1.len() as int;
    let b = a + lit2.len() as int;
    assert(t.len() == b + 1 + name2.len());
    assert forall|x: int| 0 <= x < l1 implies t[x] == lit1[x] && t[x] != ':' by {}
    assert(t[l1] == ':');
    assert forall|x: int| l1 + 1 <= x < a implies is_class_char(t[x]) by {
        assert(t[x] == name1[x - (l1 + 1)]);
    }
    assert forall|x: int| a <= x < b implies t[x] == lit2[x - a] && t[x] != ':' by {}
    assert(t[a] == lit2[0]);
    assert(t[b] == ':');
    assert forall|x: int| b + 1 <= x < t.len() implies is_class_char(t[x]) by {
        assert(t[x] == name2[x - (b + 1)]);
    }
    lemma_class_run_value(t, l1 + 1, a);
    lemma_tpl_literal_region(t, 0, l1, p, 0);
    lemma_tpl_placeholder_step(t, l1, p, l1, a);
    assert forall|k: int| 0 <= k <= p.len() implies (tpl_match_from(t, a, p, k) <==> (k
        + lit2.len() < p.len() && (forall|x: int|
        0 <= x < lit2.len() ==> #[trigger] p[k + x] == lit2[x]) && (forall|x: int|
        k + lit2.len() <= x < p.len() ==> is_class_char(p[x])))) by {
        lemma_tpl_literal_region(t, a, b, p, k);
        if k + (b - a) <= p.len() {
            lemma_tpl_trailing_placeholder(t, b, p, k + (b - a));
        }
        if tpl_match_from(t, a, p, k) {
            assert forall|x: int| 0 <= x < lit2.len() implies #[trigger] p[k + x] == lit2[x] by {
                assert(p[k + x] == t[a + x]);
            }
        }
        if k + lit2.len() < p.len() && (forall|x: int|
            0 <= x < lit2.len() ==> #[trigger] p[k + x] == lit2[x]) && (forall|x: int|
            k + lit2.len() <= x < p.len() ==> is_class_char(p[x])) {
            assert forall|x: int| 0 <= x < b - a implies #[trigger] p[k + x] == t[a + x] by {
                assert(p[k + x] == lit2[x]);
            }
            assert(tpl_match_from(t, b, p, k + (b - a)));
            assert(tpl_match_from(t, a, p, k));
        }
    }
    if tpl_match(t, p) {
        assert(tpl_match_from(t, l1, p, 0 + (l1 - 0)));
        let k = choose|k: int| #[trigger] class_seg(p, l1, k) && tpl_match_from(t, a, p, k);
        assert(0 <= k <= p.len());
        assert forall|x: int| 0 <= x < l1 implies #[trigger] p[x] == lit1[x] by {
            assert(p[0 + x] == t[0 + x]);
        }
        assert(class_seg(p, lit1.len() as int, k) && (forall|x: int|
            0 <= x < lit1.len() ==> p[x] == lit1[x]) && k + lit2.len() < p.len() && (forall|x: int|
            0 <= x < lit2.len() ==> p[k + x] == lit2[x]) && (forall|x: int|
            k + lit2.len() <= x < p.len() ==> is_class_char(p[x])));
    }
    if exists|k: int|
        #[trigger] class_seg(p, lit1.len() as int, k) && (forall|x: int|
            0 <= x < lit1.len() ==> p[x] == lit1[x]) && k + lit2.len() < p.len() && (forall|x: int|
            0 <= x < lit2.len() ==> p[k + x] == lit2[x]) && (forall|x: int|
            k + lit2.len() <= x < p.len() ==> is_class_char(p[x])) {
        let k = choose|k: int|
            #[trigger] class_seg(p, lit1.len() as int, k) && (forall|x: int|
                0 <= x < lit1.len() ==> p[x] == lit1[x]) && k + lit2.len() < p.len() && (forall|
            x: int|
                0 <= x < lit2.len() ==> p[k + x] == lit2[x]) && (forall|x: int|
                k + lit2.len() <= x < p.len() ==> is_class_char(p[x]));
        assert(0 <= k <= p.len());
        assert(tpl_match_from(t, a, p, k));
        assert(class_seg(p, l1, k) && tpl_match_from(t, a, p, k));
        assert(tpl_match_from(t, l1, p, l1));
        assert forall|x: int| 0 <= x < l1 - 0 implies #[trigger] p[0 + x] == t[0 + x] by {
            assert(p[x] == lit1[x]);
        }
        assert(l1 < p.len());
        assert(tpl_match(t, p));
    }
}

} // verus!
