//! What selection patterns mean.
use vstd::prelude::*;
use vstd::string::*;

use crate::selection::{
    all_inside_at, any_dirs_at, any_includes, at_component_start, class_end, class_start,
    escaped_pattern, glob_at, glob_below, glob_matches, in_class, last_match, last_slash,
    line_includes, line_rule, next_bracket, selection_decision, selection_selects, trim_spaces,
    RuleView,
};

verus! {

/// Whether text stands for itself in a pattern.
pub open spec fn is_plain(text: Seq<char>) -> bool {
    forall|i: int|
        0 <= i < text.len() ==> (#[trigger] text[i]) != '*' && text[i] != '?' && text[i] != '['
            && text[i] != '\\'
}

proof fn lemma_below(p: Seq<char>, i: int, s: Seq<char>, j: int)
    requires
        0 <= i,
        0 <= j <= s.len(),
    ensures
        glob_below(p, i, s, j) <==> exists|k: int|
            j <= k < s.len() && s[k] == '/' && #[trigger] glob_at(p, i, s, k + 1),
    decreases s.len() - j,
{
    if j < s.len() {
        lemma_below(p, i, s, j + 1);
        if glob_below(p, i, s, j) {
            if s[j] == '/' && glob_at(p, i, s, j + 1) {
                assert(glob_at(p, i, s, j + 1));
            } else {
                let k = choose|k: int|
                    j + 1 <= k < s.len() && s[k] == '/' && #[trigger] glob_at(p, i, s, k + 1);
                assert(glob_at(p, i, s, k + 1));
            }
        }
        if exists|k: int|
            j <= k < s.len() && s[k] == '/' && #[trigger] glob_at(p, i, s, k + 1) {
            let k = choose|k: int|
                j <= k < s.len() && s[k] == '/' && #[trigger] glob_at(p, i, s, k + 1);
            if k > j {
                assert(glob_at(p, i, s, k + 1));
            }
        }
    }
}

/// `**/` at the start of any component stands for any number of directories: what
/// follows it matches here or right after some later slash.
pub proof fn law_any_directories(p: Seq<char>, i: int, s: Seq<char>, j: int)
    requires
        0 <= i,
        i + 3 <= p.len(),
        i == 0 || p[i - 1] == '/',
        p[i] == '*' && p[i + 1] == '*' && p[i + 2] == '/',
        0 <= j <= s.len(),
    ensures
        glob_at(p, i, s, j) <==> glob_at(p, i + 3, s, j) || exists|k: int|
            j <= k < s.len() && s[k] == '/' && #[trigger] glob_at(p, i + 3, s, k + 1),
{
    lemma_below(p, i + 3, s, j);
}

/// `/**` at the end of a pattern stands for everything below a directory.
pub proof fn law_everything_below(p: Seq<char>, i: int, s: Seq<char>, j: int)
    requires
        0 <= i,
        i + 3 == p.len(),
        p[i] == '/' && p[i + 1] == '*' && p[i + 2] == '*',
        0 <= j <= s.len(),
    ensures
        glob_at(p, i, s, j) <==> j + 1 < s.len() && s[j] == '/',
{
}

/// Any other `*` stands for a run of characters without slashes.
pub proof fn law_star(p: Seq<char>, i: int, s: Seq<char>, j: int)
    requires
        0 <= i < p.len(),
        p[i] == '*',
        !((i == 0 || p[i - 1] == '/') && i + 3 <= p.len() && p[i + 1] == '*' && p[i + 2] == '/'),
        0 <= j <= s.len(),
    ensures
        glob_at(p, i, s, j) <==> exists|k: int|
            j <= k <= s.len() && !s.subrange(j, k).contains('/') && #[trigger] glob_at(
                p,
                i + 1,
                s,
                k,
            ),
    decreases s.len() - j,
{
    let direct = glob_at(p, i, s, j);
    assert(s.subrange(j, j) =~= Seq::<char>::empty());
    if j < s.len() {
        law_star(p, i, s, j + 1);
        if direct && !glob_at(p, i + 1, s, j) {
            let k = choose|k: int|
                j + 1 <= k <= s.len() && !s.subrange(j + 1, k).contains('/') && #[trigger] glob_at(
                    p,
                    i + 1,
                    s,
                    k,
                );
            if s.subrange(j, k).contains('/') {
                let run = s.subrange(j, k);
                let w = choose|w: int| 0 <= w < run.len() && run[w] == '/';
                if w > 0 {
                    assert(s.subrange(j + 1, k)[w - 1] == '/');
                }
            }
            assert(glob_at(p, i + 1, s, k));
        }
        if exists|k: int|
            j <= k <= s.len() && !s.subrange(j, k).contains('/') && #[trigger] glob_at(
                p,
                i + 1,
                s,
                k,
            ) {
            let k = choose|k: int|
                j <= k <= s.len() && !s.subrange(j, k).contains('/') && #[trigger] glob_at(
                    p,
                    i + 1,
                    s,
                    k,
                );
            if k > j {
                assert(s.subrange(j, k)[0] == s[j]);
                assert(s[j] != '/');
                if s.subrange(j + 1, k).contains('/') {
                    let rest = s.subrange(j + 1, k);
                    let w = choose|w: int| 0 <= w < rest.len() && rest[w] == '/';
                    assert(s.subrange(j, k)[w + 1] == '/');
                }
                assert(glob_at(p, i + 1, s, k));
            }
        }
    }
    if direct && glob_at(p, i + 1, s, j) {
        assert(!s.subrange(j, j).contains('/'));
    }
}

/// `?` stands for one character that is no slash, a backslash takes the next
/// character as it is, other characters stand for themselves, and a pattern that
/// is used up matches the end of the path alone.
pub proof fn law_single_characters(p: Seq<char>, i: int, s: Seq<char>, j: int)
    requires
        0 <= i <= p.len(),
        0 <= j <= s.len(),
    ensures
        i == p.len() ==> (glob_at(p, i, s, j) <==> j == s.len()),
        i < p.len() && p[i] == '?' ==> (glob_at(p, i, s, j) <==> j < s.len() && s[j] != '/'
            && glob_at(p, i + 1, s, j + 1)),
        i + 1 < p.len() && p[i] == '\\' ==> (glob_at(p, i, s, j) <==> j < s.len() && s[j] == p[i
            + 1] && glob_at(p, i + 2, s, j + 1)),
        i < p.len() && p[i] != '*' && p[i] != '?' && p[i] != '[' && p[i] != '\\' && !(p[i] == '/'
            && i + 3 == p.len() && p[i + 1] == '*' && p[i + 2] == '*') ==> (glob_at(p, i, s, j)
            <==> j < s.len() && s[j] == p[i] && glob_at(p, i + 1, s, j + 1)),
{
}

proof fn lemma_bracket_is(p: Seq<char>, k: int, e: int)
    requires
        k <= e < p.len(),
        p[e] == ']',
        forall|w: int| k <= w < e ==> p[w] != ']',
    ensures
        next_bracket(p, k) == e,
    decreases e - k,
{
    if k < e {
        assert(p[k] != ']');
        lemma_bracket_is(p, k + 1, e);
    }
}

proof fn lemma_listed_members(p: Seq<char>, from: int, to: int, c: char)
    requires
        0 <= from <= to <= p.len(),
        forall|w: int| from <= w < to ==> p[w] != '-',
    ensures
        in_class(p, from, to, c) <==> p.subrange(from, to).contains(c),
    decreases to - from,
{
    let members = p.subrange(from, to);
    if from < to {
        lemma_listed_members(p, from + 1, to, c);
        let rest = p.subrange(from + 1, to);
        assert(members[0] == p[from]);
        if rest.contains(c) {
            let w = choose|w: int| 0 <= w < rest.len() && rest[w] == c;
            assert(members[w + 1] == c);
        }
        if members.contains(c) && p[from] != c {
            let w = choose|w: int| 0 <= w < members.len() && members[w] == c;
            assert(rest[w - 1] == c);
        }
    }
}

/// A bracket expression stands for one character that is no slash: one of those
/// listed, one between two given ones, or with a leading `!` or `^` any other.
pub proof fn law_bracket_expressions(p: Seq<char>, i: int, e: int, s: Seq<char>, j: int)
    requires
        0 <= i,
        i + 2 < e < p.len(),
        p[i] == '[' && p[e] == ']',
        forall|w: int| i < w < e ==> p[w] != ']',
        0 <= j <= s.len(),
    ensures
        p[i + 1] != '!' && p[i + 1] != '^' && (forall|w: int| i < w < e ==> p[w] != '-') ==> (
        glob_at(p, i, s, j) <==> j < s.len() && s[j] != '/' && p.subrange(i + 1, e).contains(s[j])
            && glob_at(p, e + 1, s, j + 1)),
        (p[i + 1] == '!' || p[i + 1] == '^') && (forall|w: int| i < w < e ==> p[w] != '-') ==> (
        glob_at(p, i, s, j) <==> j < s.len() && s[j] != '/' && !p.subrange(i + 2, e).contains(s[j])
            && glob_at(p, e + 1, s, j + 1)),
        p[i + 1] != '!' && p[i + 1] != '^' && e == i + 4 && p[i + 2] == '-' ==> (glob_at(p, i, s, j)
            <==> j < s.len() && s[j] != '/' && p[i + 1] <= s[j] <= p[i + 3] && glob_at(
            p,
            e + 1,
            s,
            j + 1,
        )),
{
    let start = class_start(p, i);
    lemma_bracket_is(p, start + 1, e);
    if j < s.len() && (forall|w: int| i < w < e ==> p[w] != '-') {
        lemma_listed_members(p, start, e, s[j]);
    }
    if j < s.len() && start == i + 1 && e == i + 4 && p[i + 2] == '-' {
        assert(in_class(p, start + 3, e, s[j]) == false);
    }
}

proof fn lemma_bracket_shift(lead: Seq<char>, q: Seq<char>, k: int)
    requires
        0 <= k,
    ensures
        next_bracket(lead + q, lead.len() + k) == lead.len() + next_bracket(q, k),
    decreases q.len() - k,
{
    if k < q.len() {
        assert((lead + q)[lead.len() + k] == q[k]);
        lemma_bracket_shift(lead, q, k + 1);
    }
}

proof fn lemma_class_shift(lead: Seq<char>, q: Seq<char>, from: int, to: int, c: char)
    requires
        0 <= from,
        to <= q.len(),
    ensures
        in_class(lead + q, lead.len() + from, lead.len() + to, c) == in_class(q, from, to, c),
    decreases to - from,
{
    if from < to {
        assert((lead + q)[lead.len() + from] == q[from]);
        if from + 2 < to {
            assert((lead + q)[lead.len() + from + 1] == q[from + 1]);
            assert((lead + q)[lead.len() + from + 2] == q[from + 2]);
            lemma_class_shift(lead, q, from + 3, to, c);
        }
        lemma_class_shift(lead, q, from + 1, to, c);
    }
}

proof fn lemma_bracket_bounds(p: Seq<char>, k: int)
    ensures
        next_bracket(p, k) <= p.len(),
        k <= p.len() ==> next_bracket(p, k) >= k,
    decreases p.len() - k,
{
    if k < p.len() && p[k] != ']' {
        lemma_bracket_bounds(p, k + 1);
    }
}

/// Behind a slash a pattern matches as it does alone.
#[verifier::rlimit(60)]
#[verifier::spinoff_prover]
proof fn lemma_shift(
    lead: Seq<char>,
    q: Seq<char>,
    i: int,
    head: Seq<char>,
    x: Seq<char>,
    j: int,
)
    requires
        lead.len() == 0 || lead.last() == '/',
        0 <= i <= q.len(),
        0 <= j <= x.len(),
    ensures
        glob_at(lead + q, lead.len() + i, head + x, head.len() + j) == glob_at(q, i, x, j),
    decreases q.len() - i, x.len() - j, 1int,
{
    let p = lead + q;
    let s = head + x;
    let a = lead.len() + i;
    let b = head.len() + j;
    if i < q.len() {
        assert forall|k: int| 0 <= k < q.len() implies p[lead.len() + k] == q[k] by {}
        assert(p[a] == q[i]);
        if i == 0 && lead.len() > 0 {
            assert(p[a - 1] == lead.last());
        }
        if i > 0 {
            assert(p[a - 1] == q[i - 1]);
        }
        assert(at_component_start(p, a) == at_component_start(q, i));
        assert(i + 1 < q.len() ==> p[a + 1] == q[i + 1]);
        assert(i + 2 < q.len() ==> p[a + 2] == q[i + 2]);
        assert(any_dirs_at(p, a) == any_dirs_at(q, i));
        assert(all_inside_at(p, a) == all_inside_at(q, i));
        assert(j < x.len() ==> s[b] == x[j]);
        if any_dirs_at(q, i) {
            lemma_shift(lead, q, i + 3, head, x, j);
            lemma_shift_below(lead, q, i + 3, head, x, j);
        } else if all_inside_at(q, i) {
        } else if q[i] == '*' {
            lemma_shift(lead, q, i + 1, head, x, j);
            if j < x.len() {
                lemma_shift(lead, q, i, head, x, j + 1);
            }
        } else if j < x.len() {
            let start = class_start(q, i);
            assert(class_start(p, a) == lead.len() + start);
            lemma_bracket_shift(lead, q, start + 1);
            lemma_bracket_bounds(q, start + 1);
            let end = class_end(q, i);
            assert(class_end(p, a) == lead.len() + end);
            lemma_class_shift(lead, q, start, end, x[j]);
            if q[i] == '[' && end < q.len() && end > i {
                lemma_shift(lead, q, end + 1, head, x, j + 1);
            } else if q[i] == '\\' && i + 1 < q.len() {
                lemma_shift(lead, q, i + 2, head, x, j + 1);
            } else {
                lemma_shift(lead, q, i + 1, head, x, j + 1);
            }
        }
    }
}

proof fn lemma_shift_below(
    lead: Seq<char>,
    q: Seq<char>,
    i: int,
    head: Seq<char>,
    x: Seq<char>,
    j: int,
)
    requires
        lead.len() == 0 || lead.last() == '/',
        0 <= i <= q.len(),
        0 <= j <= x.len(),
    ensures
        glob_below(lead + q, lead.len() + i, head + x, head.len() + j) == glob_below(q, i, x, j),
    decreases q.len() - i, x.len() - j, 2int,
{
    if j < x.len() {
        assert((head + x)[head.len() + j] == x[j]);
        lemma_shift(lead, q, i, head, x, j + 1);
        lemma_shift_below(lead, q, i, head, x, j + 1);
    }
}

/// Plain text at the front of a pattern is matched as it is.
proof fn lemma_plain_front(d: Seq<char>, rest: Seq<char>, k: int, s: Seq<char>, j: int)
    requires
        is_plain(d),
        rest.len() < 2 || rest[0] != '*' || rest[1] != '*',
        0 <= k <= d.len(),
        0 <= j <= s.len(),
    ensures
        glob_at(d + rest, k, s, j) <==> {
            let end = j + d.len() - k;
            &&& end <= s.len()
            &&& s.subrange(j, end) == d.skip(k)
            &&& glob_at(d + rest, d.len() as int, s, end)
        },
    decreases d.len() - k,
{
    let p = d + rest;
    let end = j + d.len() - k;
    if k == d.len() {
        assert(s.subrange(j, end) =~= d.skip(k));
    } else {
        assert(p[k] == d[k]);
        if k + 3 == p.len() && p[k + 1] == '*' && p[k + 2] == '*' {
            if k + 1 < d.len() {
                assert(p[k + 1] == d[k + 1]);
            } else {
                assert(p[k + 1] == rest[0] && p[k + 2] == rest[1]);
            }
        }
        if j < s.len() {
            lemma_plain_front(d, rest, k + 1, s, j + 1);
            if s[j] == d[k] && end <= s.len() {
                assert(s.subrange(j, end) =~= seq![s[j]] + s.subrange(j + 1, end));
                assert(d.skip(k) =~= seq![d[k]] + d.skip(k + 1));
                if s.subrange(j, end) == d.skip(k) {
                    assert(s.subrange(j + 1, end) =~= s.subrange(j, end).skip(1));
                    assert(d.skip(k + 1) =~= d.skip(k).skip(1));
                }
            }
            if end <= s.len() && s.subrange(j, end) == d.skip(k) {
                assert(s.subrange(j, end)[0] == d.skip(k)[0]);
            }
        }
    }
}

/// A pattern of plain text matches that text alone.
pub proof fn law_plain_pattern_matches_itself(p: Seq<char>, s: Seq<char>)
    requires
        is_plain(p),
    ensures
        glob_matches(p, s) <==> s == p,
{
    let none = Seq::<char>::empty();
    assert(p + none =~= p);
    lemma_plain_front(p, none, 0, s, 0);
    assert(p.skip(0) =~= p);
    if p.len() <= s.len() {
        assert(p.len() == s.len() ==> s.subrange(0, p.len() as int) =~= s);
    }
    if s == p {
        assert(s.subrange(0, p.len() as int) =~= p);
    }
}

/// A pattern behind `**/` matches at every depth: the whole path, or what follows
/// one of its slashes.
pub proof fn law_pattern_matches_at_every_depth(q: Seq<char>, x: Seq<char>)
    ensures
        glob_matches("**/"@ + q, x) <==> glob_matches(q, x) || exists|k: int|
            0 <= k < x.len() && x[k] == '/' && #[trigger] glob_matches(q, x.skip(k + 1)),
{
    reveal_strlit("**/");
    let lead = "**/"@;
    let p = lead + q;
    law_any_directories(p, 0, x, 0);
    lemma_behind(lead, q, x);
}

/// Behind a slash a pattern matches what is left of a path as it does alone.
proof fn lemma_behind(lead: Seq<char>, q: Seq<char>, x: Seq<char>)
    requires
        lead.len() > 0,
        lead.last() == '/',
    ensures
        forall|k: int|
            0 <= k <= x.len() ==> #[trigger] glob_at(lead + q, lead.len() as int, x, k)
                == glob_matches(q, x.skip(k)),
        glob_matches(q, x.skip(0)) == glob_matches(q, x),
        (exists|k: int|
            0 <= k < x.len() && x[k] == '/' && #[trigger] glob_at(
                lead + q,
                lead.len() as int,
                x,
                k + 1,
            )) <==> (exists|k: int|
            0 <= k < x.len() && x[k] == '/' && #[trigger] glob_matches(q, x.skip(k + 1))),
{
    assert(x.skip(0) =~= x);
    assert forall|k: int| 0 <= k <= x.len() implies #[trigger] glob_at(
        lead + q,
        lead.len() as int,
        x,
        k,
    ) == glob_matches(q, x.skip(k)) by {
        lemma_shift(lead, q, 0, x.take(k), x.skip(k), 0);
        assert(x.take(k) + x.skip(k) =~= x);
    }
    if exists|k: int|
        0 <= k < x.len() && x[k] == '/' && #[trigger] glob_at(
            lead + q,
            lead.len() as int,
            x,
            k + 1,
        ) {
        let k = choose|k: int|
            0 <= k < x.len() && x[k] == '/' && #[trigger] glob_at(
                lead + q,
                lead.len() as int,
                x,
                k + 1,
            );
        assert(glob_matches(q, x.skip(k + 1)));
    }
    if exists|k: int| 0 <= k < x.len() && x[k] == '/' && #[trigger] glob_matches(q, x.skip(k + 1)) {
        let k = choose|k: int|
            0 <= k < x.len() && x[k] == '/' && #[trigger] glob_matches(q, x.skip(k + 1));
        assert(glob_at(lead + q, lead.len() as int, x, k + 1));
    }
}

/// `d/**/q` matches below the directory `d` at any depth: `d/x` where `q` matches
/// `x` or what follows one of the slashes of `x`, and nothing else.
pub proof fn law_pattern_below_a_directory(d: Seq<char>, q: Seq<char>, s: Seq<char>)
    requires
        is_plain(d),
    ensures
        glob_matches(d + "/**/"@ + q, s) <==> {
            let x = s.skip(d.len() as int + 1);
            &&& s.len() > d.len()
            &&& s.take(d.len() as int) == d
            &&& s[d.len() as int] == '/'
            &&& glob_matches(q, x) || exists|k: int|
                0 <= k < x.len() && x[k] == '/' && #[trigger] glob_matches(q, x.skip(k + 1))
        },
{
    reveal_strlit("/**/");
    let n = d.len() as int;
    let rest = "/**/"@ + q;
    let p = d + "/**/"@ + q;
    assert(p =~= d + rest);
    lemma_plain_front(d, rest, 0, s, 0);
    assert(d.skip(0) =~= d);
    if s.len() >= n {
        assert(s.subrange(0, n) =~= s.take(n));
        assert(p[n] == '/' && p[n + 1] == '*' && p[n + 2] == '*' && p[n + 3] == '/');
        law_single_characters(p, n, s, n);
        if s.len() > n {
            let x = s.skip(n + 1);
            law_any_directories(p, n + 1, s, n + 1);
            let lead = d + "/**/"@;
            assert(lead + q =~= p);
            lemma_behind(lead, q, s);
            assert(glob_at(p, n + 4, s, n + 1) == glob_matches(q, x));
            if exists|k: int|
                n + 1 <= k < s.len() && s[k] == '/' && #[trigger] glob_at(p, n + 4, s, k + 1) {
                let k = choose|k: int|
                    n + 1 <= k < s.len() && s[k] == '/' && #[trigger] glob_at(p, n + 4, s, k + 1);
                assert(x.skip(k - n - 1 + 1) =~= s.skip(k + 1));
                assert(x[k - n - 1] == '/');
                assert(glob_matches(q, x.skip(k - n - 1 + 1)));
            }
            if exists|k: int|
                0 <= k < x.len() && x[k] == '/' && #[trigger] glob_matches(q, x.skip(k + 1)) {
                let k = choose|k: int|
                    0 <= k < x.len() && x[k] == '/' && #[trigger] glob_matches(q, x.skip(k + 1));
                assert(x.skip(k + 1) =~= s.skip(k + n + 1 + 1));
                assert(s[k + n + 1] == '/');
                assert(glob_at(p, n + 4, s, k + n + 1 + 1));
            }
        }
    }
}

/// `d/**` matches everything below the directory `d`, and nothing else.
pub proof fn law_everything_below_a_directory(d: Seq<char>, s: Seq<char>)
    requires
        is_plain(d),
    ensures
        glob_matches(d + "/**"@, s) <==> s.len() > d.len() + 1 && s.take(d.len() as int) == d
            && s[d.len() as int] == '/',
{
    reveal_strlit("/**");
    let n = d.len() as int;
    let p = d + "/**"@;
    lemma_plain_front(d, "/**"@, 0, s, 0);
    assert(d.skip(0) =~= d);
    if s.len() >= n {
        assert(s.subrange(0, n) =~= s.take(n));
        law_everything_below(p, n, s, n);
    }
}

/// `a*b` matches what starts with `a`, ends with `b`, and has no slash in between.
pub proof fn law_star_between_plain_text(a: Seq<char>, b: Seq<char>, s: Seq<char>)
    requires
        is_plain(a),
        is_plain(b),
    ensures
        glob_matches(a + "*"@ + b, s) <==> {
            &&& s.len() >= a.len() + b.len()
            &&& s.take(a.len() as int) == a
            &&& s.skip(s.len() - b.len()) == b
            &&& !s.subrange(a.len() as int, s.len() - b.len()).contains('/')
        },
{
    reveal_strlit("*");
    let n = a.len() as int;
    let m = b.len() as int;
    let rest = "*"@ + b;
    let p = a + "*"@ + b;
    assert(p =~= a + rest);
    lemma_plain_front(a, rest, 0, s, 0);
    assert(a.skip(0) =~= a);
    if s.len() >= n {
        assert(s.subrange(0, n) =~= s.take(n));
        assert(p[n] == '*');
        if n + 3 <= p.len() {
            assert(p[n + 1] == b[0]);
        }
        law_star(p, n, s, n);
        assert forall|k: int| n <= k <= s.len() implies #[trigger] glob_at(p, n + 1, s, k) == (k
            + m == s.len() && s.skip(k) == b) by {
            lemma_plain_tail(a + "*"@, b, 0, s, k);
            assert(a + "*"@ + b =~= p);
            assert(b.skip(0) =~= b);
        }
        if glob_at(p, n, s, n) {
            let k = choose|k: int|
                n <= k <= s.len() && !s.subrange(n, k).contains('/') && #[trigger] glob_at(
                    p,
                    n + 1,
                    s,
                    k,
                );
            assert(k == s.len() - m);
        }
        if s.len() >= n + m {
            assert(glob_at(p, n + 1, s, s.len() - m) == (s.skip(s.len() - m) == b));
        }
    }
}

/// Plain text at the end of a pattern is matched as it is.
proof fn lemma_plain_tail(lead: Seq<char>, b: Seq<char>, i: int, s: Seq<char>, j: int)
    requires
        is_plain(b),
        0 <= i <= b.len(),
        0 <= j <= s.len(),
    ensures
        glob_at(lead + b, lead.len() + i, s, j) <==> j + b.len() - i == s.len() && s.skip(j)
            == b.skip(i),
    decreases b.len() - i,
{
    let p = lead + b;
    if i == b.len() {
        if j == s.len() {
            assert(s.skip(j) =~= b.skip(i));
        }
    } else {
        assert(p[lead.len() + i] == b[i]);
        if i + 1 < b.len() {
            assert(p[lead.len() + i + 1] == b[i + 1]);
        }
        if j < s.len() {
            lemma_plain_tail(lead, b, i + 1, s, j + 1);
            if s[j] == b[i] && s.skip(j + 1) == b.skip(i + 1) {
                assert(s.skip(j) =~= seq![s[j]] + s.skip(j + 1));
                assert(b.skip(i) =~= seq![b[i]] + b.skip(i + 1));
            }
            if s.skip(j) == b.skip(i) {
                assert(s.skip(j)[0] == b.skip(i)[0]);
                assert(s.skip(j + 1) =~= s.skip(j).skip(1));
                assert(b.skip(i + 1) =~= b.skip(i).skip(1));
            }
        }
    }
}

/// Whether a line holds a pattern that matches a path.
pub open spec fn line_matches(line: Seq<char>, path: Seq<char>, is_dir: bool) -> bool {
    match line_rule(line) {
        Some(rule) => (is_dir || !rule.dir_only) && glob_matches(rule.glob, path),
        None => false,
    }
}

/// Of the lines that match a path the last one decides, by whether it excludes.
pub proof fn law_last_matching_line_decides(
    lines: Seq<Seq<char>>,
    n: int,
    path: Seq<char>,
    is_dir: bool,
)
    requires
        0 <= n <= lines.len(),
    ensures
        match last_match(lines, n, path, is_dir) {
            Some(exclude) => exists|i: int|
                0 <= i < n && #[trigger] line_matches(lines[i], path, is_dir) && line_rule(
                    lines[i],
                )->Some_0.exclude == exclude && (forall|k: int|
                    i < k < n ==> !#[trigger] line_matches(lines[k], path, is_dir)),
            None => forall|i: int| 0 <= i < n ==> !#[trigger] line_matches(lines[i], path, is_dir),
        },
    decreases n,
{
    if n > 0 {
        law_last_matching_line_decides(lines, n - 1, path, is_dir);
        if line_matches(lines[n - 1], path, is_dir) {
            assert(last_match(lines, n, path, is_dir) == Some(
                line_rule(lines[n - 1])->Some_0.exclude,
            ));
        } else if let Some(exclude) = last_match(lines, n, path, is_dir) {
            let i = choose|i: int|
                0 <= i < n - 1 && #[trigger] line_matches(lines[i], path, is_dir) && line_rule(
                    lines[i],
                )->Some_0.exclude == exclude && (forall|k: int|
                    i < k < n - 1 ==> !#[trigger] line_matches(lines[k], path, is_dir));
            assert(line_matches(lines[i], path, is_dir));
        }
    }
}

proof fn lemma_last_slash_is(path: Seq<char>, n: int, at: int)
    requires
        -1 <= at < n <= path.len(),
        at >= 0 ==> path[at] == '/',
        forall|i: int| at < i < n ==> path[i] != '/',
    ensures
        last_slash(path, n) == at,
    decreases n,
{
    if n - 1 > at {
        assert(path[n - 1] != '/');
        lemma_last_slash_is(path, n - 1, at);
    }
}

/// What no line says of a path is what the lines say of the directory that holds
/// it. At the top nothing is said.
pub proof fn law_directory_decides_for_its_content(
    lines: Seq<Seq<char>>,
    directory: Seq<char>,
    name: Seq<char>,
    is_dir: bool,
)
    requires
        name.len() > 0,
        !name.contains('/'),
    ensures
        selection_decision(lines, name, is_dir) == last_match(
            lines,
            lines.len() as int,
            name,
            is_dir,
        ),
        ({
            let path = directory + seq!['/'] + name;
            selection_decision(lines, path, is_dir) == match last_match(
                lines,
                lines.len() as int,
                path,
                is_dir,
            ) {
                Some(exclude) => Some(exclude),
                None => selection_decision(lines, directory, true),
            }
        }),
{
    assert forall|i: int| 0 <= i < name.len() implies name[i] != '/' by {
        assert(name.contains(name[i]));
    }
    lemma_last_slash_is(name, name.len() as int, -1);
    let path = directory + seq!['/'] + name;
    let n = directory.len() as int;
    assert(path[n] == '/');
    assert forall|i: int| n < i < path.len() implies path[i] != '/' by {
        assert(path[i] == name[i - n - 1]);
    }
    lemma_last_slash_is(path, path.len() as int, n);
    assert(path.take(n) =~= directory);
}

proof fn lemma_last_slash_bounds(path: Seq<char>, n: int)
    requires
        0 <= n <= path.len(),
    ensures
        ({
            let at = last_slash(path, n);
            &&& -1 <= at < n || (n == 0 && at == -1)
            &&& at >= 0 ==> path[at] == '/'
            &&& forall|i: int| at < i < n ==> path[i] != '/'
        }),
    decreases n,
{
    if n > 0 && path[n - 1] != '/' {
        lemma_last_slash_bounds(path, n - 1);
    }
}

/// A single line decides on a path exactly where it matches the path or one of
/// the directories that hold it.
pub proof fn law_single_line_reaches_below_directories(
    line: Seq<char>,
    path: Seq<char>,
    is_dir: bool,
)
    ensures
        selection_decision(seq![line], path, is_dir) == if line_matches(line, path, is_dir) || (
        exists|k: int|
            0 <= k < path.len() && path[k] == '/' && #[trigger] line_matches(
                line,
                path.take(k),
                true,
            )) {
            Some(line_rule(line)->Some_0.exclude)
        } else {
            None
        },
    decreases path.len(),
{
    let lines = seq![line];
    assert(lines[0] == line);
    assert(last_match(lines, 0, path, is_dir) is None);
    assert(last_match(lines, 1, path, is_dir) == if line_matches(line, path, is_dir) {
        Some(line_rule(line)->Some_0.exclude)
    } else {
        None
    });
    let slash = last_slash(path, path.len() as int);
    lemma_last_slash_bounds(path, path.len() as int);
    if !line_matches(line, path, is_dir) {
        if 0 <= slash < path.len() {
            let above = path.take(slash);
            law_single_line_reaches_below_directories(line, above, true);
            if exists|k: int|
                0 <= k < path.len() && path[k] == '/' && #[trigger] line_matches(
                    line,
                    path.take(k),
                    true,
                ) {
                let k = choose|k: int|
                    0 <= k < path.len() && path[k] == '/' && #[trigger] line_matches(
                        line,
                        path.take(k),
                        true,
                    );
                if k < slash {
                    assert(above.take(k) =~= path.take(k));
                    assert(above[k] == '/');
                    assert(line_matches(line, above.take(k), true));
                }
            }
            if exists|k: int|
                0 <= k < above.len() && above[k] == '/' && #[trigger] line_matches(
                    line,
                    above.take(k),
                    true,
                ) {
                let k = choose|k: int|
                    0 <= k < above.len() && above[k] == '/' && #[trigger] line_matches(
                        line,
                        above.take(k),
                        true,
                    );
                assert(above.take(k) =~= path.take(k));
                assert(line_matches(line, path.take(k), true));
            }
            if line_matches(line, above, true) {
                assert(line_matches(line, path.take(slash), true));
            }
        }
    }
}

/// Whether text is a pattern that needs no marker or escape of its own: it starts
/// with none of the characters that mean something in front, and ends in neither a
/// slash nor a space.
pub open spec fn is_bare_pattern(p: Seq<char>) -> bool {
    &&& p.len() > 0
    &&& p[0] != '!' && p[0] != '#' && p[0] != '/'
    &&& p.last() != '/' && p.last() != ' '
}

/// The forms of a selection line. A pattern with a slash inside or in front is
/// matched from the top, any other at every depth. `!` in front excludes, a slash
/// at the end means directories only, `#` makes a comment, and spaces at the end
/// do not matter.
pub proof fn law_line_forms(p: Seq<char>, rest: Seq<char>)
    requires
        is_bare_pattern(p),
    ensures
        ({
            let glob = if p.contains('/') {
                p
            } else {
                "**/"@ + p
            };
            &&& line_rule(p) == Some(RuleView { exclude: false, dir_only: false, glob })
            &&& line_rule(seq!['!'] + p) == Some(
                RuleView { exclude: true, dir_only: false, glob },
            )
            &&& line_rule(p.push('/')) == Some(RuleView { exclude: false, dir_only: true, glob })
            &&& line_rule(seq!['!'] + p.push('/')) == Some(
                RuleView { exclude: true, dir_only: true, glob },
            )
            &&& line_rule(seq!['/'] + p) == Some(
                RuleView { exclude: false, dir_only: false, glob: p },
            )
            &&& line_rule(seq!['!', '/'] + p) == Some(
                RuleView { exclude: true, dir_only: false, glob: p },
            )
            &&& p.last() != '\\' ==> line_rule(p.push(' ')) == line_rule(p)
        }),
        line_rule(seq!['#'] + rest) is None,
        line_rule(Seq::<char>::empty()) is None,
{
    assert(p.push('/').drop_last() =~= p);
    let excluded = seq!['!'] + p;
    assert(excluded.skip(1) =~= p);
    assert(excluded.last() == p.last());
    let marked = seq!['!'] + p.push('/');
    assert(marked.skip(1) =~= p.push('/'));
    assert(marked.last() == '/');
    let rooted = seq!['/'] + p;
    assert(rooted.skip(1) =~= p);
    assert(rooted.last() == p.last());
    assert(rooted[0] == '/');
    assert(rooted.contains('/'));
    let both = seq!['!', '/'] + p;
    assert(both.skip(1) =~= rooted);
    assert(both.last() == p.last());
    let spaced = p.push(' ');
    assert(spaced.drop_last() =~= p);
    if p.last() != '\\' {
        assert(spaced[spaced.len() - 2] == p.last());
        assert(trim_spaces(spaced) == trim_spaces(p));
    }
    lemma_comment(seq!['#'] + rest);
    assert(trim_spaces(Seq::<char>::empty()).len() == 0);
}

proof fn lemma_comment(line: Seq<char>)
    requires
        line.len() > 0,
        line[0] == '#',
    ensures
        trim_spaces(line).len() > 0,
        trim_spaces(line)[0] == '#',
    decreases line.len(),
{
    if line.len() > 1 && line.last() == ' ' && line[line.len() - 2] != '\\' {
        lemma_comment(line.drop_last());
    }
}

/// What is taken literally: a pattern added by itself starts no comment and no
/// exclusion, whatever its first character is.
pub proof fn law_added_patterns_are_literal(p: Seq<char>, path: Seq<char>)
    requires
        p.len() > 0,
        is_plain(p),
        p[0] != '/',
        p.last() != '/' && p.last() != ' ',
    ensures
        line_rule(escaped_pattern(p)) is Some,
        line_rule(escaped_pattern(p))->Some_0.exclude == false,
        line_rule(escaped_pattern(p))->Some_0.dir_only == false,
        p.contains('/') ==> (glob_matches(line_rule(escaped_pattern(p))->Some_0.glob, path)
            <==> path == p),
        !p.contains('/') ==> (glob_matches(line_rule(escaped_pattern(p))->Some_0.glob, path)
            <==> path == p || (path.len() > p.len() && path.skip(path.len() - p.len()) == p
            && path[path.len() - p.len() - 1] == '/')),
{
    reveal_strlit("\\");
    reveal_strlit("**/");
    let line = escaped_pattern(p);
    let escaped = p[0] == '!' || p[0] == '#';
    if escaped {
        assert(line =~= seq!['\\'] + p);
        assert(line.skip(1) =~= p);
        if line.contains('/') {
            let k = choose|k: int| 0 <= k < line.len() && line[k] == '/';
            assert(p[k - 1] == '/');
        }
        if p.contains('/') {
            let k = choose|k: int| 0 <= k < p.len() && p[k] == '/';
            assert(line[k + 1] == '/');
        }
    }
    assert(line.last() == p.last());
    assert(trim_spaces(line) == line);
    assert forall|y: Seq<char>| #[trigger] glob_matches(line, y) <==> y == p by {
        if escaped {
            lemma_escaped_plain(p, y);
        } else {
            law_plain_pattern_matches_itself(p, y);
        }
    }
    if !p.contains('/') {
        law_pattern_matches_at_every_depth(line, path);
        let at = path.len() - p.len();
        if glob_matches("**/"@ + line, path) && path != p {
            let k = choose|k: int|
                0 <= k < path.len() && path[k] == '/' && #[trigger] glob_matches(
                    line,
                    path.skip(k + 1),
                );
            assert(k + 1 == at);
        }
        if path.len() > p.len() && path.skip(at) == p && path[at - 1] == '/' {
            assert(glob_matches(line, path.skip(at - 1 + 1)));
        }
    }
}

proof fn lemma_escaped_plain(p: Seq<char>, y: Seq<char>)
    requires
        p.len() > 0,
        is_plain(p),
    ensures
        glob_matches(seq!['\\'] + p, y) <==> y == p,
{
    let line = seq!['\\'] + p;
    law_single_characters(line, 0, y, 0);
    assert(line[1] == p[0]);
    let tail = p.skip(1);
    let lead = seq!['\\', p[0]];
    assert(line =~= lead + tail);
    assert(is_plain(tail)) by {
        assert forall|i: int| 0 <= i < tail.len() implies (#[trigger] tail[i]) != '*' && tail[i]
            != '?' && tail[i] != '[' && tail[i] != '\\' by {
            assert(tail[i] == p[i + 1]);
        }
    }
    if y.len() > 0 {
        lemma_plain_tail(lead, tail, 0, y, 1);
        assert(tail.skip(0) =~= tail);
        if y[0] == p[0] && y.skip(1) == tail {
            assert(y =~= seq![y[0]] + y.skip(1));
            assert(p =~= seq![p[0]] + tail);
        }
    }
}

/// Including a path that has a slash selects that path and what lies below it, and
/// nothing else.
pub proof fn law_included_path_selects_its_tree(p: Seq<char>, file: Seq<char>)
    requires
        is_plain(p),
        is_bare_pattern(p),
        p.contains('/'),
        file.len() > 0,
        file.last() != '/',
    ensures
        selection_selects(seq![p], file) <==> file == p || (file.len() > p.len() && file.take(
            p.len() as int,
        ) == p && file[p.len() as int] == '/'),
        selection_selects(seq![seq!['!'] + p], file) <==> !(file == p || (file.len() > p.len()
            && file.take(p.len() as int) == p && file[p.len() as int] == '/')),
{
    let n = p.len() as int;
    law_line_forms(p, p);
    let below = file.len() > n && file.take(n) == p && file[n] == '/';
    let excluded = seq!['!'] + p;
    assert forall|y: Seq<char>, is_dir: bool|
        (#[trigger] line_matches(p, y, is_dir) <==> y == p) && (line_matches(excluded, y, is_dir)
            <==> y == p) by {
        law_plain_pattern_matches_itself(p, y);
    }
    law_single_line_reaches_below_directories(p, file, false);
    law_single_line_reaches_below_directories(excluded, file, false);
    if below {
        assert(line_matches(p, file.take(n), true));
        assert(line_matches(excluded, file.take(n), true));
    }
    assert forall|k: int| 0 <= k < file.len() && file[k] == '/' && file.take(k) == p implies below by {
        assert(k == n);
    }
    lemma_one_line(p, file);
    lemma_one_line(excluded, file);
    assert forall|y: Seq<char>, is_dir: bool| #[trigger] line_matches(excluded, y, is_dir) <==> y
        == p by {
        assert(line_matches(p, y, is_dir) <==> y == p);
    }
}

proof fn lemma_one_line(line: Seq<char>, file: Seq<char>)
    requires
        file.len() > 0,
        file.last() != '/',
    ensures
        selection_selects(seq![line], file) == match selection_decision(
            seq![line],
            file,
            false,
        ) {
            Some(exclude) => !exclude,
            None => !(line_rule(line) is Some && !line_rule(line)->Some_0.exclude),
        },
{
    let lines = seq![line];
    assert(lines[0] == line);
    assert(any_includes(lines) <==> line_includes(line)) by {
        if line_includes(line) {
            assert(line_includes(lines[0]));
        }
    }
}

/// Including a name selects what has it as one of its components, at any depth, and
/// nothing else.
pub proof fn law_included_name_selects_its_component(p: Seq<char>, file: Seq<char>)
    requires
        is_plain(p),
        is_bare_pattern(p),
        !p.contains('/'),
        file.len() > 0,
        file.last() != '/',
    ensures
        selection_selects(seq![p], file) <==> has_component(file, p),
        selection_selects(seq![seq!['!'] + p], file) <==> !has_component(file, p),
{
    reveal_strlit("**/");
    law_line_forms(p, p);
    let excluded = seq!['!'] + p;
    assert forall|y: Seq<char>, is_dir: bool|
        (#[trigger] line_matches(p, y, is_dir) <==> ends_in(y, p)) by {
        lemma_named(p, y);
    }
    assert forall|y: Seq<char>, is_dir: bool|
        (#[trigger] line_matches(excluded, y, is_dir) <==> ends_in(y, p)) by {
        lemma_named(p, y);
    }
    law_single_line_reaches_below_directories(p, file, false);
    law_single_line_reaches_below_directories(excluded, file, false);
    lemma_one_line(p, file);
    lemma_one_line(excluded, file);
    if has_component(file, p) {
        let (a, b) = choose|a: int, b: int| #[trigger] is_component(file, p, a, b);
        if b < file.len() {
            let above = file.take(b);
            assert(above.skip(above.len() - p.len()) =~= file.subrange(a, b));
            assert(ends_in(above, p)) by {
                if a == 0 {
                    assert(above =~= file.subrange(a, b));
                } else {
                    assert(above[above.len() - p.len() - 1] == file[a - 1]);
                }
            }
            assert(line_matches(p, file.take(b), true));
            assert(line_matches(excluded, file.take(b), true));
        } else {
            assert(file.skip(file.len() - p.len()) =~= file.subrange(a, b));
            assert(ends_in(file, p)) by {
                if a == 0 {
                    assert(file =~= file.subrange(a, b));
                }
            }
        }
    }
    if ends_in(file, p) {
        let a = file.len() - p.len();
        assert(file.subrange(a, file.len() as int) =~= file.skip(a));
        assert(a == 0 ==> file.skip(a) =~= file);
        assert(is_component(file, p, a, file.len() as int));
    }
    assert forall|k: int| 0 <= k < file.len() && file[k] == '/' && ends_in(file.take(k), p) implies has_component(
        file,
        p,
    ) by {
        let above = file.take(k);
        let a = k - p.len();
        assert(file.subrange(a, k) =~= above.skip(a));
        assert(a == 0 ==> above.skip(a) =~= above);
        assert(is_component(file, p, a, k));
    }
}

/// Whether `p` stands in a path from `a` to `b` as a whole component.
pub open spec fn is_component(path: Seq<char>, p: Seq<char>, a: int, b: int) -> bool {
    &&& 0 <= a <= b <= path.len()
    &&& a == 0 || path[a - 1] == '/'
    &&& b == path.len() || path[b] == '/'
    &&& path.subrange(a, b) == p
}

/// Whether a path has a component.
pub open spec fn has_component(path: Seq<char>, p: Seq<char>) -> bool {
    exists|a: int, b: int| #[trigger] is_component(path, p, a, b)
}

spec fn ends_in(path: Seq<char>, p: Seq<char>) -> bool {
    path == p || (path.len() > p.len() && path.skip(path.len() - p.len()) == p && path[path.len()
        - p.len() - 1] == '/')
}

proof fn lemma_named(p: Seq<char>, y: Seq<char>)
    requires
        is_plain(p),
        p.len() > 0,
    ensures
        glob_matches("**/"@ + p, y) <==> ends_in(y, p),
{
    law_pattern_matches_at_every_depth(p, y);
    law_plain_pattern_matches_itself(p, y);
    assert forall|z: Seq<char>| #[trigger] glob_matches(p, z) <==> z == p by {
        law_plain_pattern_matches_itself(p, z);
    }
    let at = y.len() - p.len();
    if glob_matches("**/"@ + p, y) && y != p {
        let k = choose|k: int|
            0 <= k < y.len() && y[k] == '/' && #[trigger] glob_matches(p, y.skip(k + 1));
        assert(k + 1 == at);
    }
    if y.len() > p.len() && y.skip(at) == p && y[at - 1] == '/' {
        assert(glob_matches(p, y.skip(at - 1 + 1)));
    }
}

/// A path that no line decides is selected exactly where no line includes anything.
pub proof fn law_undecided_paths_follow_the_lines(lines: Seq<Seq<char>>, zip_path: Seq<char>)
    requires
        zip_path.len() > 0,
    ensures
        ({
            let directory = zip_path.last() == '/';
            let body = if directory {
                zip_path.drop_last()
            } else {
                zip_path
            };
            selection_selects(lines, zip_path) == match selection_decision(
                lines,
                body,
                directory,
            ) {
                Some(exclude) => !exclude,
                None => forall|i: int|
                    0 <= i < lines.len() ==> match #[trigger] line_rule(lines[i]) {
                        Some(rule) => rule.exclude,
                        None => true,
                    },
            }
        }),
{
    if any_includes(lines) {
        let i = choose|i: int| 0 <= i < lines.len() && #[trigger] line_includes(lines[i]);
        assert(line_rule(lines[i]) is Some);
    } else {
        assert forall|i: int| 0 <= i < lines.len() implies match #[trigger] line_rule(lines[i]) {
            Some(rule) => rule.exclude,
            None => true,
        } by {
            assert(!line_includes(lines[i]));
        }
    }
}

/// An exclusion that is added excludes what the same pattern, added as an inclusion,
/// would include.
pub proof fn law_exclusions_mirror_inclusions(p: Seq<char>)
    requires
        p.len() > 0,
        p[0] != '/',
        p.last() != '/' && p.last() != ' ',
    ensures
        ({
            let included = line_rule(escaped_pattern(p));
            let excluded = line_rule("!"@ + escaped_pattern(p));
            &&& included is Some
            &&& excluded is Some
            &&& !included->Some_0.exclude
            &&& excluded->Some_0.exclude
            &&& included->Some_0.glob == excluded->Some_0.glob
            &&& included->Some_0.dir_only == excluded->Some_0.dir_only
        }),
{
    reveal_strlit("!");
    reveal_strlit("\\");
    let line = escaped_pattern(p);
    let negated = "!"@ + line;
    assert(line.last() == p.last());
    assert(negated.last() == p.last());
    assert(negated.skip(1) =~= line);
    assert(negated[0] == '!');
}

/// The members of a bracket expression are looked at one after the other: a character,
/// or two with a dash between for all from one to the other.
pub proof fn law_bracket_members_are_characters_and_ranges(
    p: Seq<char>,
    from: int,
    to: int,
    c: char,
)
    requires
        0 <= from,
        to <= p.len(),
    ensures
        from >= to ==> !in_class(p, from, to, c),
        from + 2 < to && p[from + 1] == '-' ==> (in_class(p, from, to, c) <==> p[from] <= c <= p[
        from + 2] || in_class(p, from + 3, to, c)),
        from < to && !(from + 2 < to && p[from + 1] == '-') ==> (in_class(p, from, to, c) <==> p[
        from] == c || in_class(p, from + 1, to, c)),
{
}

/// A bracket expression ends at the first closing bracket after its first member, and
/// stands for one character that is no slash: one of its members, or with a leading
/// `!` or `^` none of them. One that does not end stands for itself.
pub proof fn law_bracket_expressions_in_general(p: Seq<char>, i: int, e: int, s: Seq<char>, j: int)
    requires
        0 <= i < p.len(),
        p[i] == '[',
        0 <= j <= s.len(),
    ensures
        ({
            let negated = i + 1 < p.len() && (p[i + 1] == '!' || p[i + 1] == '^');
            let first = if negated {
                i + 2
            } else {
                i + 1
            };
            &&& first < e < p.len() && p[e] == ']' && (forall|w: int|
                first < w < e ==> p[w] != ']') ==> (glob_at(p, i, s, j) <==> j < s.len() && s[j]
                != '/' && in_class(p, first, e, s[j]) != negated && glob_at(p, e + 1, s, j + 1))
            &&& (forall|w: int| first < w < p.len() ==> p[w] != ']') ==> (glob_at(p, i, s, j)
                <==> j < s.len() && s[j] == '[' && glob_at(p, i + 1, s, j + 1))
        }),
{
    let start = class_start(p, i);
    if start < e < p.len() && p[e] == ']' && (forall|w: int| start < w < e ==> p[w] != ']') {
        lemma_bracket_is(p, start + 1, e);
    }
    if forall|w: int| start < w < p.len() ==> p[w] != ']' {
        lemma_no_bracket(p, start + 1);
    }
}

proof fn lemma_no_bracket(p: Seq<char>, k: int)
    requires
        0 <= k,
        forall|w: int| k <= w < p.len() ==> p[w] != ']',
    ensures
        next_bracket(p, k) == p.len(),
    decreases p.len() - k,
{
    if k < p.len() {
        assert(p[k] != ']');
        lemma_no_bracket(p, k + 1);
    }
}

/// Spaces at the end of a line are taken off, up to one that a backslash keeps, and
/// nothing else is.
pub proof fn law_spaces_at_the_end_are_taken_off(line: Seq<char>)
    ensures
        ({
            let text = trim_spaces(line);
            &&& text.len() <= line.len()
            &&& line.take(text.len() as int) == text
            &&& forall|i: int| text.len() <= i < line.len() ==> line[i] == ' '
            &&& text.len() > 0 && text.last() == ' ' ==> text.len() > 1 && text[text.len() - 2]
                == '\\'
        }),
    decreases line.len(),
{
    if line.len() > 0 && line.last() == ' ' && !(line.len() > 1 && line[line.len() - 2]
        == '\\') {
        let less = line.drop_last();
        law_spaces_at_the_end_are_taken_off(less);
        let text = trim_spaces(line);
        assert(line.take(text.len() as int) =~= less.take(text.len() as int));
        assert forall|i: int| text.len() <= i < line.len() implies line[i] == ' ' by {
            if i < line.len() - 1 {
                assert(less[i] == line[i]);
            }
        }
    } else {
        assert(line.take(line.len() as int) =~= line);
    }
}

} // verus!
