//! The text normalizer: a single left-to-right rewriting pass over raw
//! expression text, recognizing three mutually exclusive patterns — a run
//! of one or more newlines, a padded empty bracket pair (optional leading
//! whitespace, `[`, interior whitespace, `]`), and a padded empty brace
//! pair (`{`, interior whitespace, `}`) — and replacing each occurrence by
//! a per-pattern replacement string.
//!
//! Two modes are derived from the same pattern set: the canonical mode
//! (newline runs collapse to one newline, padded pairs become the empty
//! literals `[]` and `{}`) and the debug mode (newline runs become one
//! space, padded pairs keep one interior space). The two can never diverge
//! in which spans get rewritten, only in the replacement text.

use vstd::prelude::*;
use crate::text::push_char;

verus! {

/// The whitespace characters the patterns recognize.
pub open spec fn is_ws(c: char) -> bool {
    c == ' ' || c == '\n' || c == '\t' || c == '\r'
}

/// The length of the maximal whitespace run at the front of `s`.
pub open spec fn ws_run(s: Seq<char>) -> nat
    decreases s.len(),
{
    if s.len() > 0 && is_ws(s[0]) {
        (1 + ws_run(s.drop_first())) as nat
    } else {
        0
    }
}

/// The length of the maximal newline run at the front of `s`.
pub open spec fn nl_run(s: Seq<char>) -> nat
    decreases s.len(),
{
    if s.len() > 0 && s[0] == '\n' {
        (1 + nl_run(s.drop_first())) as nat
    } else {
        0
    }
}

/// Where the padded-empty-bracket pattern, anchored at the front of `s`,
/// ends: optional leading whitespace, `[`, at least one whitespace
/// character, `]`. `None` when the pattern does not match at the front.
pub open spec fn brack_match_end(s: Seq<char>) -> Option<int> {
    let w = ws_run(s) as int;
    if w < s.len() && s[w] == '[' {
        let w2 = ws_run(s.skip(w + 1)) as int;
        if w2 >= 1 && w + 1 + w2 < s.len() && s[w + 1 + w2] == ']' {
            Some(w + 2 + w2)
        } else {
            None
        }
    } else {
        None
    }
}

/// Where the padded-empty-brace pattern, anchored at the front of `s`,
/// ends: `{`, at least one whitespace character, `}`. `None` when the
/// pattern does not match at the front.
pub open spec fn brace_match_end(s: Seq<char>) -> Option<int> {
    if s.len() > 0 && s[0] == '{' {
        let w = ws_run(s.skip(1)) as int;
        if w >= 1 && 1 + w < s.len() && s[1 + w] == '}' {
            Some(2 + w)
        } else {
            None
        }
    } else {
        None
    }
}

/// Every character of the maximal whitespace run is whitespace, the run is
/// no longer than the text, and the character after the run (if any) is
/// not whitespace.
pub proof fn lemma_ws_run_props(s: Seq<char>)
    ensures
        ws_run(s) <= s.len(),
        forall|i: int| 0 <= i < ws_run(s) ==> is_ws(s[i]),
        ws_run(s) < s.len() ==> !is_ws(s[ws_run(s) as int]),
    decreases s.len(),
{
    if s.len() > 0 && is_ws(s[0]) {
        lemma_ws_run_props(s.drop_first());
        assert forall|i: int| 0 <= i < ws_run(s) implies is_ws(s[i]) by {
            if i >= 1 {
                assert(is_ws(s.drop_first()[i - 1]));
                assert(s.drop_first()[i - 1] == s[i]);
            }
        };
        if ws_run(s) < s.len() {
            assert(s.drop_first()[ws_run(s) - 1] == s[ws_run(s) as int]);
        }
    }
}

/// As `lemma_ws_run_props`, for the newline run.
pub proof fn lemma_nl_run_props(s: Seq<char>)
    ensures
        nl_run(s) <= s.len(),
        forall|i: int| 0 <= i < nl_run(s) ==> s[i] == '\n',
        nl_run(s) < s.len() ==> s[nl_run(s) as int] != '\n',
    decreases s.len(),
{
    if s.len() > 0 && s[0] == '\n' {
        lemma_nl_run_props(s.drop_first());
        assert forall|i: int| 0 <= i < nl_run(s) implies s[i] == '\n' by {
            if i >= 1 {
                assert(s.drop_first()[i - 1] == '\n');
                assert(s.drop_first()[i - 1] == s[i]);
            }
        };
        if nl_run(s) < s.len() {
            assert(s.drop_first()[nl_run(s) - 1] == s[nl_run(s) as int]);
        }
    }
}

/// A count of leading whitespace characters stopped by a non-whitespace
/// character (or the end) is the maximal whitespace run.
pub proof fn lemma_ws_run_is(s: Seq<char>, n: int)
    requires
        0 <= n <= s.len(),
        forall|i: int| 0 <= i < n ==> is_ws(s[i]),
        n < s.len() ==> !is_ws(s[n]),
    ensures
        ws_run(s) == n,
    decreases n,
{
    if n == 0 {
    } else {
        assert(is_ws(s[0]));
        assert(forall|i: int| 0 <= i < s.drop_first().len() ==> s.drop_first()[i] == s[i + 1]);
        lemma_ws_run_is(s.drop_first(), n - 1);
    }
}

/// As `lemma_ws_run_is`, for the newline run.
pub proof fn lemma_nl_run_is(s: Seq<char>, n: int)
    requires
        0 <= n <= s.len(),
        forall|i: int| 0 <= i < n ==> s[i] == '\n',
        n < s.len() ==> s[n] != '\n',
    ensures
        nl_run(s) == n,
    decreases n,
{
    if n == 0 {
    } else {
        assert(s[0] == '\n');
        assert(forall|i: int| 0 <= i < s.drop_first().len() ==> s.drop_first()[i] == s[i + 1]);
        lemma_nl_run_is(s.drop_first(), n - 1);
    }
}

/// One rewriting pass over `s`: at each position, the first of the three
/// patterns that matches is replaced (`rnl` for a newline run, `rbr` for a
/// padded bracket pair, `rbc` for a padded brace pair) and scanning resumes
/// after the match; a character at which no pattern matches is copied.
pub open spec fn norm(s: Seq<char>, rnl: Seq<char>, rbr: Seq<char>, rbc: Seq<char>) -> Seq<char>
    decreases s.len(),
    via norm_dec
{
    if s.len() == 0 {
        Seq::<char>::empty()
    } else if s[0] == '\n' {
        rnl + norm(s.skip(nl_run(s) as int), rnl, rbr, rbc)
    } else {
        match brack_match_end(s) {
            Some(m) => rbr + norm(s.skip(m), rnl, rbr, rbc),
            None => match brace_match_end(s) {
                Some(m) => rbc + norm(s.skip(m), rnl, rbr, rbc),
                None => seq![s[0]] + norm(s.drop_first(), rnl, rbr, rbc),
            },
        }
    }
}

#[via_fn]
proof fn norm_dec(s: Seq<char>, rnl: Seq<char>, rbr: Seq<char>, rbc: Seq<char>) {
    lemma_nl_run_props(s);
    lemma_ws_run_props(s);
}

/// The canonical normal form: newline runs collapse to a single newline,
/// padded empty pairs become the empty literals.
pub open spec fn patch_spec(s: Seq<char>) -> Seq<char> {
    norm(s, seq!['\n'], seq!['[', ']'], seq!['{', '}'])
}

/// The debug normal form: newline runs become a single space, padded empty
/// pairs keep one interior space (the bracket pair also keeps its leading
/// space).
pub open spec fn debug_patch_spec(s: Seq<char>) -> Seq<char> {
    norm(s, seq![' '], seq![' ', '[', ' ', ']'], seq!['{', ' ', '}'])
}

/// No pattern matches at the front of `t`: no two leading newlines, no
/// padded bracket pair, no padded brace pair.
spec fn step_ok(t: Seq<char>) -> bool {
    &&& !(t.len() >= 2 && t[0] == '\n' && t[1] == '\n')
    &&& brack_match_end(t) is None
    &&& brace_match_end(t) is None
}

/// Canonical text: no pattern matches at any position, except single
/// newlines (which rewrite to themselves).
spec fn normal(t: Seq<char>) -> bool
    decreases t.len(),
{
    t.len() == 0 || (step_ok(t) && normal(t.drop_first()))
}

/// After the maximal leading whitespace run (possibly empty) stands `c`.
spec fn ws0_then(t: Seq<char>, c: char) -> bool {
    ws_run(t) < t.len() && t[ws_run(t) as int] == c
}

/// Prepending one whitespace character extends the whitespace run by one.
proof fn lemma_ws_run_prepend(c: char, t: Seq<char>)
    requires
        is_ws(c),
    ensures
        ws_run(seq![c] + t) == 1 + ws_run(t),
{
    let u = seq![c] + t;
    assert(u[0] == c);
    assert(u.drop_first() =~= t);
}

/// Prepending an all-whitespace prefix extends the whitespace run by the
/// prefix's length.
proof fn lemma_ws_run_allws_prefix(p: Seq<char>, t: Seq<char>)
    requires
        forall|i: int| 0 <= i < p.len() ==> is_ws(p[i]),
    ensures
        ws_run(p + t) == p.len() + ws_run(t),
    decreases p.len(),
{
    if p.len() == 0 {
        assert(p + t =~= t);
    } else {
        let u = p + t;
        assert(u[0] == p[0]);
        assert(u.drop_first() =~= p.drop_first() + t);
        lemma_ws_run_allws_prefix(p.drop_first(), t);
    }
}

/// A whitespace character prepended to text where the bracket pattern does
/// not match does not create a match: the pattern's leading whitespace only
/// grows by one.
proof fn lemma_brack_none_prepend_ws(c: char, b: Seq<char>)
    requires
        is_ws(c),
        brack_match_end(b) is None,
    ensures
        brack_match_end(seq![c] + b) is None,
{
    let u = seq![c] + b;
    lemma_ws_run_prepend(c, b);
    lemma_ws_run_props(b);
    let w = ws_run(b) as int;
    if w < b.len() {
        assert(u[1 + w] == b[w]);
        if b[w] == '[' {
            assert(u.skip(1 + w + 1) =~= b.skip(w + 1));
        }
    }
}

/// The head of a normalized text: normalization of nonempty text is
/// nonempty, and its first character is whitespace (or a newline) only if
/// the raw text began with whitespace (or a newline).
proof fn lemma_patch_head(r: Seq<char>)
    ensures
        r.len() > 0 ==> patch_spec(r).len() > 0,
        r.len() == 0 ==> patch_spec(r).len() == 0,
        r.len() > 0 && patch_spec(r)[0] == '\n' ==> r[0] == '\n',
        r.len() > 0 && is_ws(patch_spec(r)[0]) ==> is_ws(r[0]),
{
    if r.len() > 0 {
        if r[0] == '\n' {
            assert(patch_spec(r)[0] == '\n');
        } else {
            match brack_match_end(r) {
                Some(_) => {
                    assert(patch_spec(r)[0] == '[');
                },
                None => match brace_match_end(r) {
                    Some(_) => {
                        assert(patch_spec(r)[0] == '{');
                    },
                    None => {
                        assert(patch_spec(r)[0] == r[0]);
                    },
                },
            }
        }
    }
}

/// If the canonical form of `r` begins with whitespace followed by the
/// non-whitespace character `c`, then `r` itself does: the pass never
/// manufactures such a shape.
proof fn lemma_ws0_then_reflects(r: Seq<char>, c: char)
    requires
        !is_ws(c),
        ws0_then(patch_spec(r), c),
    ensures
        ws0_then(r, c),
    decreases r.len(),
{
    let o = patch_spec(r);
    if r.len() == 0 {
        assert(o.len() == 0);
    } else if r[0] == '\n' {
        let k = nl_run(r) as int;
        lemma_nl_run_props(r);
        let r2 = r.skip(k);
        let b2 = patch_spec(r2);
        assert(o =~= seq!['\n'] + b2);
        lemma_ws_run_prepend('\n', b2);
        assert(o[1 + ws_run(b2) as int] == b2[ws_run(b2) as int]);
        assert(ws0_then(b2, c));
        lemma_ws0_then_reflects(r2, c);
        // the newline run is whitespace, so the run of `r` continues into
        // the run of the remainder
        let p = r.take(k);
        assert(forall|i: int| 0 <= i < p.len() ==> is_ws(p[i]));
        assert(r =~= p + r2);
        lemma_ws_run_allws_prefix(p, r2);
        assert(r[k + ws_run(r2) as int] == r2[ws_run(r2) as int]);
    } else {
        match brack_match_end(r) {
            Some(m) => {
                // the output begins with `[`: the run is empty and c == '['
                let b2 = patch_spec(r.skip(m));
                assert(o =~= seq!['[', ']'] + b2);
                assert(!is_ws(o[0]));
                assert(ws_run(o) == 0);
                assert(c == '[');
                lemma_ws_run_props(r);
                assert(r[ws_run(r) as int] == '[');
            },
            None => match brace_match_end(r) {
                Some(m) => {
                    let b2 = patch_spec(r.skip(m));
                    assert(o =~= seq!['{', '}'] + b2);
                    assert(!is_ws(o[0]));
                    assert(ws_run(o) == 0);
                    assert(c == '{');
                    assert(ws_run(r) == 0);
                },
                None => {
                    let b2 = patch_spec(r.drop_first());
                    assert(o =~= seq![r[0]] + b2);
                    if is_ws(r[0]) {
                        lemma_ws_run_prepend(r[0], b2);
                        assert(o[1 + ws_run(b2) as int] == b2[ws_run(b2) as int]);
                        assert(ws0_then(b2, c));
                        lemma_ws0_then_reflects(r.drop_first(), c);
                        lemma_ws_run_prepend(r[0], r.drop_first());
                        assert(r =~= seq![r[0]] + r.drop_first());
                        assert(r[1 + ws_run(r.drop_first()) as int] == r.drop_first()[ws_run(
                            r.drop_first(),
                        ) as int]);
                    } else {
                        assert(ws_run(o) == 0);
                        assert(r[0] == c);
                        assert(ws_run(r) == 0);
                    }
                },
            },
        }
    }
}

/// Normalized text is a fixed point of the canonical pass.
proof fn lemma_normal_fixpoint(t: Seq<char>)
    requires
        normal(t),
    ensures
        patch_spec(t) == t,
    decreases t.len(),
{
    if t.len() == 0 {
        assert(patch_spec(t) =~= t);
    } else if t[0] == '\n' {
        assert(nl_run(t.drop_first()) == 0);
        assert(t.drop_first() =~= t.skip(1));
        assert(nl_run(t) == 1);
        lemma_normal_fixpoint(t.drop_first());
        assert(patch_spec(t) =~= seq!['\n'] + t.drop_first());
        assert(patch_spec(t) =~= t);
    } else {
        assert(brack_match_end(t) is None);
        assert(brace_match_end(t) is None);
        lemma_normal_fixpoint(t.drop_first());
        assert(patch_spec(t) =~= seq![t[0]] + t.drop_first());
        assert(patch_spec(t) =~= t);
    }
}

/// The canonical pass produces normalized text.
proof fn lemma_patch_normal(s: Seq<char>)
    ensures
        normal(patch_spec(s)),
    decreases s.len(),
{
    if s.len() == 0 {
    } else if s[0] == '\n' {
        let k = nl_run(s) as int;
        lemma_nl_run_props(s);
        let r2 = s.skip(k);
        let b = patch_spec(r2);
        lemma_patch_normal(r2);
        lemma_patch_head(r2);
        let u = seq!['\n'] + b;
        assert(patch_spec(s) =~= u);
        assert(u.drop_first() =~= b);
        // no second newline: the run was maximal, and the head of `b`
        // reflects the head of the remainder
        if u.len() >= 2 {
            assert(u[1] == b[0]);
            assert(r2[0] != '\n');
            assert(b[0] != '\n');
        }
        if b.len() > 0 {
            assert(brack_match_end(b) is None);
        }
        lemma_brack_none_prepend_ws('\n', b);
        assert(step_ok(u));
    } else {
        match brack_match_end(s) {
            Some(m) => {
                lemma_ws_run_props(s);
                let b = patch_spec(s.skip(m));
                lemma_patch_normal(s.skip(m));
                let u = seq!['[', ']'] + b;
                assert(patch_spec(s) =~= u);
                let u2 = seq![']'] + b;
                assert(u.drop_first() =~= u2);
                assert(u2.drop_first() =~= b);
                assert(ws_run(u) == 0);
                assert(u.skip(1) =~= u2);
                assert(ws_run(u2) == 0);
                assert(brack_match_end(u) is None);
                assert(brace_match_end(u) is None);
                assert(step_ok(u));
                assert(brack_match_end(u2) is None);
                assert(brace_match_end(u2) is None);
                assert(step_ok(u2));
                assert(normal(u2));
            },
            None => match brace_match_end(s) {
                Some(m) => {
                    let b = patch_spec(s.skip(m));
                    lemma_patch_normal(s.skip(m));
                    let u = seq!['{', '}'] + b;
                    assert(patch_spec(s) =~= u);
                    let u2 = seq!['}'] + b;
                    assert(u.drop_first() =~= u2);
                    assert(u2.drop_first() =~= b);
                    assert(ws_run(u) == 0);
                    assert(u.skip(1) =~= u2);
                    assert(ws_run(u2) == 0);
                    assert(brack_match_end(u) is None);
                    assert(brace_match_end(u) is None);
                    assert(step_ok(u));
                    assert(brack_match_end(u2) is None);
                    assert(brace_match_end(u2) is None);
                    assert(step_ok(u2));
                    assert(normal(u2));
                },
                None => {
                    let c0 = s[0];
                    let rest = s.drop_first();
                    let b = patch_spec(rest);
                    lemma_patch_normal(rest);
                    lemma_patch_head(rest);
                    let u = seq![c0] + b;
                    assert(patch_spec(s) =~= u);
                    assert(u.drop_first() =~= b);
                    if is_ws(c0) {
                        if b.len() > 0 {
                            assert(brack_match_end(b) is None);
                        }
                        lemma_brack_none_prepend_ws(c0, b);
                        assert(brace_match_end(u) is None);
                    } else if c0 == '[' {
                        assert(ws_run(u) == 0);
                        if brack_match_end(u) is Some {
                            // a padded pair here would reflect into the raw
                            // text, where none matched
                            assert(u.skip(1) =~= b);
                            assert(ws_run(b) >= 1);
                            assert(is_ws(b[0]));
                            assert(is_ws(rest[0]));
                            assert(u[1 + ws_run(b) as int] == b[ws_run(b) as int]);
                            assert(ws0_then(b, ']'));
                            lemma_ws0_then_reflects(rest, ']');
                            assert(ws_run(rest) >= 1);
                            assert(s.skip(1) =~= rest);
                            assert(ws_run(s) == 0);
                            assert(s[1 + ws_run(rest) as int] == rest[ws_run(rest) as int]);
                            assert(brack_match_end(s) is Some);
                            assert(false);
                        }
                        assert(brace_match_end(u) is None);
                    } else if c0 == '{' {
                        assert(ws_run(u) == 0);
                        assert(brack_match_end(u) is None);
                        if brace_match_end(u) is Some {
                            assert(u.skip(1) =~= b);
                            assert(ws_run(b) >= 1);
                            assert(is_ws(b[0]));
                            assert(is_ws(rest[0]));
                            assert(u[1 + ws_run(b) as int] == b[ws_run(b) as int]);
                            assert(ws0_then(b, '}'));
                            lemma_ws0_then_reflects(rest, '}');
                            assert(ws_run(rest) >= 1);
                            assert(s.skip(1) =~= rest);
                            assert(s[1 + ws_run(rest) as int] == rest[ws_run(rest) as int]);
                            assert(brace_match_end(s) is Some);
                            assert(false);
                        }
                    } else {
                        assert(ws_run(u) == 0);
                        assert(brack_match_end(u) is None);
                        assert(brace_match_end(u) is None);
                    }
                    assert(step_ok(u));
                },
            },
        }
    }
}

/// Canonical normalization is idempotent: applying the pass to its own
/// output changes nothing.
pub proof fn lemma_patch_idempotent(s: Seq<char>)
    ensures
        patch_spec(patch_spec(s)) == patch_spec(s),
{
    lemma_patch_normal(s);
    lemma_normal_fixpoint(patch_spec(s));
}

/// Whether the character is whitespace, executably.
fn char_is_ws(c: char) -> (r: bool)
    ensures
        r == is_ws(c),
{
    c == ' ' || c == '\n' || c == '\t' || c == '\r'
}

/// The characters of a string, in order.
fn to_chars(s: &str) -> (v: Vec<char>)
    ensures
        v@ == s@,
{
    let n = s.unicode_len();
    let mut v: Vec<char> = Vec::new();
    let mut i: usize = 0;
    while i < n
        invariant
            i <= n,
            n == s@.len(),
            v@ == s@.take(i as int),
        decreases n - i,
    {
        let c = s.get_char(i);
        v.push(c);
        proof {
            assert(s@.take(i + 1 as int) =~= s@.take(i as int).push(s@[i as int]));
        }
        i = i + 1;
    }
    proof {
        assert(s@.take(n as int) =~= s@);
    }
    v
}

/// The length of the whitespace run of `v` starting at `i`.
fn run_ws(v: &Vec<char>, i: usize) -> (n: usize)
    requires
        i <= v@.len(),
    ensures
        i + n <= v@.len(),
        n == ws_run(v@.skip(i as int)),
{
    let mut j: usize = i;
    while j < v.len() && char_is_ws(v[j])
        invariant
            i <= j <= v@.len(),
            forall|m: int| i <= m < j ==> is_ws(v@[m]),
        decreases v@.len() - j,
    {
        j = j + 1;
    }
    proof {
        let t = v@.skip(i as int);
        assert(forall|m: int| 0 <= m < t.len() ==> t[m] == v@[i + m]);
        lemma_ws_run_is(t, j - i);
    }
    j - i
}

/// The length of the newline run of `v` starting at `i`.
fn run_nl(v: &Vec<char>, i: usize) -> (n: usize)
    requires
        i <= v@.len(),
    ensures
        i + n <= v@.len(),
        n == nl_run(v@.skip(i as int)),
{
    let mut j: usize = i;
    while j < v.len() && v[j] == '\n'
        invariant
            i <= j <= v@.len(),
            forall|m: int| i <= m < j ==> v@[m] == '\n',
        decreases v@.len() - j,
    {
        j = j + 1;
    }
    proof {
        let t = v@.skip(i as int);
        assert(forall|m: int| 0 <= m < t.len() ==> t[m] == v@[i + m]);
        lemma_nl_run_is(t, j - i);
    }
    j - i
}

/// Where the padded-empty-bracket pattern anchored at `i` ends, as an
/// offset from `i`.
fn try_brack(v: &Vec<char>, i: usize) -> (r: Option<usize>)
    requires
        i <= v@.len(),
    ensures
        match r {
            Some(m) => brack_match_end(v@.skip(i as int)) == Some(m as int) && 1 <= m && i + m
                <= v@.len(),
            None => brack_match_end(v@.skip(i as int)) is None,
        },
{
    let ghost t = v@.skip(i as int);
    proof {
        assert(forall|m: int| 0 <= m < t.len() ==> t[m] == v@[i + m]);
    }
    let len = v.len();
    let w = run_ws(v, i);
    if i + w < len && v[i + w] == '[' {
        let w2 = run_ws(v, i + w + 1);
        proof {
            assert(t.skip(w + 1 as int) =~= v@.skip((i + w + 1) as int));
        }
        if w2 >= 1 && i + w + 1 + w2 < len && v[i + w + 1 + w2] == ']' {
            Some(w + 2 + w2)
        } else {
            None
        }
    } else {
        None
    }
}

/// Where the padded-empty-brace pattern anchored at `i` ends, as an offset
/// from `i`.
fn try_brace(v: &Vec<char>, i: usize) -> (r: Option<usize>)
    requires
        i <= v@.len(),
    ensures
        match r {
            Some(m) => brace_match_end(v@.skip(i as int)) == Some(m as int) && 1 <= m && i + m
                <= v@.len(),
            None => brace_match_end(v@.skip(i as int)) is None,
        },
{
    let ghost t = v@.skip(i as int);
    proof {
        assert(forall|m: int| 0 <= m < t.len() ==> t[m] == v@[i + m]);
    }
    let len = v.len();
    if i < len && v[i] == '{' {
        let w = run_ws(v, i + 1);
        proof {
            assert(t.skip(1) =~= v@.skip((i + 1) as int));
        }
        if w >= 1 && i + 1 + w < len && v[i + 1 + w] == '}' {
            Some(2 + w)
        } else {
            None
        }
    } else {
        None
    }
}

/// One rewriting pass over the characters of `v` with the given
/// replacement strings.
fn normalize_with(v: &Vec<char>, rnl: &str, rbr: &str, rbc: &str) -> (r: String)
    ensures
        r@ == norm(v@, rnl@, rbr@, rbc@),
{
    let mut out = String::new();
    let mut i: usize = 0;
    proof {
        assert(v@.skip(0) =~= v@);
        assert(Seq::<char>::empty() + norm(v@, rnl@, rbr@, rbc@) =~= norm(v@, rnl@, rbr@, rbc@));
    }
    while i < v.len()
        invariant
            i <= v@.len(),
            norm(v@, rnl@, rbr@, rbc@) == out@ + norm(v@.skip(i as int), rnl@, rbr@, rbc@),
        decreases v@.len() - i,
    {
        let ghost t = v@.skip(i as int);
        proof {
            assert(t.len() == v@.len() - i);
            assert(forall|m: int| 0 <= m < t.len() ==> t[m] == v@[i + m]);
        }
        if v[i] == '\n' {
            let n = run_nl(v, i);
            out.append(rnl);
            proof {
                assert(t.skip(n as int) =~= v@.skip((i + n) as int));
            }
            i = i + n;
        } else {
            match try_brack(v, i) {
                Some(m) => {
                    out.append(rbr);
                    proof {
                        assert(t.skip(m as int) =~= v@.skip((i + m) as int));
                    }
                    i = i + m;
                },
                None => match try_brace(v, i) {
                    Some(m) => {
                        out.append(rbc);
                        proof {
                            assert(t.skip(m as int) =~= v@.skip((i + m) as int));
                        }
                        i = i + m;
                    },
                    None => {
                        let ghost out0 = out@;
                        push_char(&mut out, v[i]);
                        proof {
                            assert(out@ =~= out0 + seq![t[0]]);
                            assert(t.drop_first() =~= v@.skip((i + 1) as int));
                        }
                        i = i + 1;
                    },
                },
            }
        }
    }
    proof {
        assert(v@.skip(v@.len() as int) =~= Seq::<char>::empty());
    }
    out
}

/// The canonical normal form of raw expression text.
pub fn normalize_canonical(s: &str) -> (r: String)
    ensures
        r@ == patch_spec(s@),
{
    let v = to_chars(s);
    proof {
        reveal_strlit("\n");
        reveal_strlit("[]");
        reveal_strlit("{}");
        assert("\n"@ =~= seq!['\n']);
        assert("[]"@ =~= seq!['[', ']']);
        assert("{}"@ =~= seq!['{', '}']);
    }
    normalize_with(&v, "\n", "[]", "{}")
}

/// The debug normal form of raw expression text.
pub fn normalize_debug(s: &str) -> (r: String)
    ensures
        r@ == debug_patch_spec(s@),
{
    let v = to_chars(s);
    proof {
        reveal_strlit(" ");
        reveal_strlit(" [ ]");
        reveal_strlit("{ }");
        assert(" "@ =~= seq![' ']);
        assert(" [ ]"@ =~= seq![' ', '[', ' ', ']']);
        assert("{ }"@ =~= seq!['{', ' ', '}']);
    }
    normalize_with(&v, " ", " [ ]", "{ }")
}

} // verus!
