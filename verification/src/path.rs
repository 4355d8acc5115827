//! Path text handled component-wise, with `/` as the separator.
//!
//! Paths are strings.  The predicates follow the component semantics of
//! `std::path::Path` for paths written without empty or `.` components.

use vstd::prelude::*;
use crate::text::{chars_eq, chars_of, ends_with_chars, ends_with_seq, push_all, slice_chars, starts_with_chars, starts_with_seq, string_of};

verus! {

/// A path separator: `/`, or `\\` as on Windows.
pub open spec fn is_sep(c: char) -> bool {
    c == '/' || c == '\\'
}

pub fn is_sep_exec(c: char) -> (r: bool)
    ensures
        r == is_sep(c),
{
    c == '/' || c == '\\'
}

/// Number of trailing separators.
pub open spec fn trailing_seps(s: Seq<char>) -> nat
    decreases s.len(),
{
    if s.len() > 0 && is_sep(s.last()) {
        1 + trailing_seps(s.drop_last())
    } else {
        0
    }
}

/// The path without trailing separators.
pub open spec fn strip_seps(s: Seq<char>) -> Seq<char> {
    s.subrange(0, s.len() - trailing_seps(s))
}

/// Index of the last separator, if any.
pub open spec fn last_sep(s: Seq<char>) -> Option<int>
    decreases s.len(),
{
    if s.len() == 0 {
        None
    } else if is_sep(s.last()) {
        Some(s.len() - 1)
    } else {
        last_sep(s.drop_last())
    }
}

/// `PathBuf::join` on separator-based path text.
pub open spec fn join_spec(a: Seq<char>, b: Seq<char>) -> Seq<char> {
    if b.len() > 0 && is_sep(b[0]) {
        b
    } else if a.len() == 0 {
        b
    } else if is_sep(a.last()) {
        a + b
    } else {
        a + seq!['/'] + b
    }
}

/// The text after any leading separators.
pub open spec fn skip_leading_seps(s: Seq<char>) -> Seq<char>
    decreases s.len(),
{
    if s.len() > 0 && is_sep(s[0]) {
        skip_leading_seps(s.drop_first())
    } else {
        s
    }
}

/// A path whose first component is `~`, with that component replaced by
/// the home directory when one is known; any other path as it is.
pub open spec fn expand_home_spec(p: Seq<char>, home: Option<Seq<char>>) -> Seq<char> {
    match home {
        Some(h) => if p.len() > 0 && p[0] == '~' && (p.len() == 1 || is_sep(p[1])) {
            join_spec(h, skip_leading_seps(p.drop_first()))
        } else {
            p
        },
        None => p,
    }
}

/// `Path::file_name`: the last component, unless it is `..` or the root.
pub open spec fn file_name_spec(p: Seq<char>) -> Option<Seq<char>> {
    let t = strip_seps(p);
    if t.len() == 0 {
        None
    } else {
        let name = match last_sep(t) {
            Some(k) => t.subrange(k + 1, t.len() as int),
            None => t,
        };
        if name == seq!['.', '.'] {
            None
        } else {
            Some(name)
        }
    }
}

/// `Path::parent`: the path without its last component.
pub open spec fn parent_spec(p: Seq<char>) -> Option<Seq<char>> {
    let t = strip_seps(p);
    if t.len() == 0 {
        None
    } else {
        match last_sep(t) {
            Some(k) => if k == 0 {
                Some(t.subrange(0, 1))
            } else {
                Some(t.subrange(0, k))
            },
            None => Some(Seq::<char>::empty()),
        }
    }
}

/// `Path::starts_with`: `base` is a leading run of whole components of `p`.
pub open spec fn path_starts_with(p: Seq<char>, base: Seq<char>) -> bool {
    let b = strip_seps(base);
    if b.len() == 0 {
        base.len() == 0 || (p.len() > 0 && is_sep(p[0]))
    } else {
        starts_with_seq(p, b) && (p.len() == b.len() || is_sep(p[b.len() as int]))
    }
}

/// `Path::ends_with`: `child` is a trailing run of whole components of `p`.
pub open spec fn path_ends_with(p: Seq<char>, child: Seq<char>) -> bool {
    let c = strip_seps(child);
    let t = strip_seps(p);
    if child.len() > 0 && is_sep(child[0]) {
        t == c && (c.len() > 0 || (p.len() > 0 && is_sep(p[0])))
    } else if c.len() == 0 {
        true
    } else {
        ends_with_seq(t, c) && (t.len() == c.len() || is_sep(t[t.len() - c.len() - 1]))
    }
}

/// Sort key of a character: `/` sorts before every other character, so
/// that text order agrees with component order.
pub open spec fn sort_key(c: char) -> int {
    if c == '/' {
        -1
    } else {
        c as int
    }
}

/// Strict order on path text, agreeing with component-wise order.
pub open spec fn path_lt(a: Seq<char>, b: Seq<char>) -> bool
    decreases a.len(),
{
    if a.len() == 0 {
        b.len() > 0
    } else if b.len() == 0 {
        false
    } else if sort_key(a[0]) < sort_key(b[0]) {
        true
    } else if sort_key(a[0]) > sort_key(b[0]) {
        false
    } else {
        path_lt(a.drop_first(), b.drop_first())
    }
}

/// Views of a sequence of strings.
pub open spec fn views(v: Seq<String>) -> Seq<Seq<char>> {
    v.map_values(|s: String| s@)
}

/// Replacing a list by a sorted set of its elements keeps the elements of
/// a concatenation.
pub proof fn lemma_sorted_set_transfer(w: Seq<Seq<char>>, input: Seq<Seq<char>>, out: Seq<Seq<char>>, extra: Seq<Seq<char>>)
    requires
        is_sorted_set_of(w, input),
        is_sorted_set_of(out, w + extra),
    ensures
        is_sorted_set_of(out, input + extra),
{
    assert forall|x: Seq<char>| out.contains(x) <==> (input + extra).contains(x) by {
        if (w + extra).contains(x) {
            let k = choose|k: int| 0 <= k < (w + extra).len() && (w + extra)[k] == x;
            if k < w.len() {
                assert(w.contains(x));
                assert(input.contains(x));
                let j = choose|j: int| 0 <= j < input.len() && input[j] == x;
                assert((input + extra)[j] == x);
            } else {
                assert((input + extra)[input.len() + (k - w.len())] == x);
            }
        }
        if (input + extra).contains(x) {
            let k = choose|k: int| 0 <= k < (input + extra).len() && (input + extra)[k] == x;
            if k < input.len() {
                assert(input.contains(x));
                assert(w.contains(x));
                let j = choose|j: int| 0 <= j < w.len() && w[j] == x;
                assert((w + extra)[j] == x);
            } else {
                assert((w + extra)[w.len() + (k - input.len())] == x);
            }
        }
    }
}

pub proof fn lemma_empty_iff(out: Seq<Seq<char>>, input: Seq<Seq<char>>)
    requires
        is_sorted_set_of(out, input),
    ensures
        out.len() == 0 <==> input.len() == 0,
{
    if out.len() > 0 {
        assert(out.contains(out[0]));
    }
    if input.len() > 0 {
        assert(input.contains(input[0]));
    }
}

pub broadcast proof fn lemma_views_push(v: Seq<String>, s: String)
    ensures
        #[trigger] views(v.push(s)) == views(v).push(s@),
{
    assert(views(v.push(s)) =~= views(v).push(s@));
}

/// Strictly increasing in path order (hence free of duplicates).
pub open spec fn strictly_sorted(v: Seq<Seq<char>>) -> bool {
    forall|i: int, j: int| 0 <= i < j < v.len() ==> path_lt(#[trigger] v[i], #[trigger] v[j])
}

/// The result of sorting `input` by path order and removing duplicates.
pub open spec fn is_sorted_set_of(out: Seq<Seq<char>>, input: Seq<Seq<char>>) -> bool {
    &&& strictly_sorted(out)
    &&& forall|x: Seq<char>| out.contains(x) <==> input.contains(x)
}

/// A sorted set is determined by its elements.
pub proof fn lemma_sorted_set_unique(a: Seq<Seq<char>>, b: Seq<Seq<char>>)
    requires
        strictly_sorted(a),
        strictly_sorted(b),
        forall|x: Seq<char>| a.contains(x) <==> b.contains(x),
    ensures
        a == b,
    decreases a.len(),
{
    if a.len() == 0 {
        if b.len() > 0 {
            assert(b.contains(b[0]));
        }
        assert(a =~= b);
    } else {
        if b.len() == 0 {
            assert(a.contains(a[0]));
        }
        assert(a.contains(a[0]));
        assert(b.contains(b[0]));
        let i = choose|i: int| 0 <= i < b.len() && b[i] == a[0];
        let j = choose|j: int| 0 <= j < a.len() && a[j] == b[0];
        if a[0] != b[0] {
            assert(i > 0 && j > 0);
            assert(path_lt(b[0], b[i]));
            assert(path_lt(a[0], a[j]));
            lemma_lt_asymmetric(a[0], b[0]);
            assert(false);
        }
        let a1 = a.drop_first();
        let b1 = b.drop_first();
        assert forall|x: Seq<char>| a1.contains(x) <==> b1.contains(x) by {
            if a1.contains(x) {
                let k = choose|k: int| 0 <= k < a1.len() && a1[k] == x;
                assert(a[k + 1] == x);
                assert(path_lt(a[0], a[k + 1]));
                lemma_lt_irreflexive(x);
                assert(b.contains(x));
                let m = choose|m: int| 0 <= m < b.len() && b[m] == x;
                assert(m != 0);
                assert(b1[m - 1] == x);
            }
            if b1.contains(x) {
                let k = choose|k: int| 0 <= k < b1.len() && b1[k] == x;
                assert(b[k + 1] == x);
                assert(path_lt(b[0], b[k + 1]));
                lemma_lt_irreflexive(x);
                assert(a.contains(x));
                let m = choose|m: int| 0 <= m < a.len() && a[m] == x;
                assert(m != 0);
                assert(a1[m - 1] == x);
            }
        }
        assert(strictly_sorted(a1)) by {
            assert forall|p: int, q: int| 0 <= p < q < a1.len() implies path_lt(#[trigger] a1[p], #[trigger] a1[q]) by {
                assert(a1[p] == a[p + 1] && a1[q] == a[q + 1]);
            }
        }
        assert(strictly_sorted(b1)) by {
            assert forall|p: int, q: int| 0 <= p < q < b1.len() implies path_lt(#[trigger] b1[p], #[trigger] b1[q]) by {
                assert(b1[p] == b[p + 1] && b1[q] == b[q + 1]);
            }
        }
        lemma_sorted_set_unique(a1, b1);
        assert(a =~= seq![a[0]] + a1);
        assert(b =~= seq![b[0]] + b1);
    }
}

pub proof fn lemma_key_injective(a: char, b: char)
    ensures
        sort_key(a) == sort_key(b) <==> a == b,
{
    if sort_key(a) == sort_key(b) && a != b {
        if a == '/' {
            assert((b as int) >= 0);
        } else if b == '/' {
            assert((a as int) >= 0);
        } else {
            assert(a as int == b as int);
        }
    }
}

pub proof fn lemma_lt_irreflexive(a: Seq<char>)
    ensures
        !path_lt(a, a),
    decreases a.len(),
{
    if a.len() > 0 {
        lemma_lt_irreflexive(a.drop_first());
    }
}

pub proof fn lemma_lt_asymmetric(a: Seq<char>, b: Seq<char>)
    ensures
        path_lt(a, b) ==> !path_lt(b, a),
    decreases a.len(),
{
    if a.len() > 0 && b.len() > 0 && sort_key(a[0]) == sort_key(b[0]) {
        lemma_lt_asymmetric(a.drop_first(), b.drop_first());
    }
}

pub proof fn lemma_lt_transitive(a: Seq<char>, b: Seq<char>, c: Seq<char>)
    ensures
        path_lt(a, b) && path_lt(b, c) ==> path_lt(a, c),
    decreases a.len(),
{
    if a.len() > 0 && b.len() > 0 && c.len() > 0 {
        lemma_lt_transitive(a.drop_first(), b.drop_first(), c.drop_first());
    }
}

pub proof fn lemma_lt_total(a: Seq<char>, b: Seq<char>)
    ensures
        a != b ==> path_lt(a, b) || path_lt(b, a),
    decreases a.len(),
{
    if a.len() > 0 && b.len() > 0 {
        lemma_key_injective(a[0], b[0]);
        if sort_key(a[0]) == sort_key(b[0]) {
            lemma_lt_total(a.drop_first(), b.drop_first());
            if a.drop_first() == b.drop_first() {
                assert(a == seq![a[0]] + a.drop_first());
                assert(b == seq![b[0]] + b.drop_first());
            }
        }
    } else if a.len() == 0 && b.len() == 0 {
        assert(a == b);
    }
}

pub proof fn lemma_lt_skip(a: Seq<char>, b: Seq<char>, i: int)
    requires
        0 <= i <= a.len(),
        i <= b.len(),
        a.subrange(0, i) == b.subrange(0, i),
    ensures
        path_lt(a, b) == path_lt(a.subrange(i, a.len() as int), b.subrange(i, b.len() as int)),
    decreases i,
{
    if i > 0 {
        assert(a[0] == a.subrange(0, i)[0]);
        assert(b[0] == b.subrange(0, i)[0]);
        assert(a.drop_first().subrange(0, i - 1) == a.subrange(0, i).drop_first());
        assert(b.drop_first().subrange(0, i - 1) == b.subrange(0, i).drop_first());
        lemma_lt_skip(a.drop_first(), b.drop_first(), i - 1);
        assert(a.drop_first().subrange(i - 1, a.len() - 1) == a.subrange(i, a.len() as int));
        assert(b.drop_first().subrange(i - 1, b.len() - 1) == b.subrange(i, b.len() as int));
    } else {
        assert(a.subrange(0, a.len() as int) == a);
        assert(b.subrange(0, b.len() as int) == b);
    }
}

pub fn sort_key_exec(c: char) -> (r: i64)
    ensures
        r == sort_key(c),
{
    if c == '/' {
        -1
    } else {
        (c as u32) as i64
    }
}

/// Path order on character sequences.
pub fn path_lt_exec(a: &[char], b: &[char]) -> (r: bool)
    ensures
        r == path_lt(a@, b@),
{
    let mut i: usize = 0;
    while i < a.len() && i < b.len()
        invariant
            i <= a.len(),
            i <= b.len(),
            a@.subrange(0, i as int) == b@.subrange(0, i as int),
        decreases a.len() - i,
    {
        let ka = sort_key_exec(a[i]);
        let kb = sort_key_exec(b[i]);
        if ka != kb {
            proof {
                lemma_lt_skip(a@, b@, i as int);
                let sa = a@.subrange(i as int, a@.len() as int);
                let sb = b@.subrange(i as int, b@.len() as int);
                assert(sa[0] == a@[i as int]);
                assert(sb[0] == b@[i as int]);
            }
            return ka < kb;
        }
        proof {
            lemma_key_injective(a@[i as int], b@[i as int]);
            assert(a@.subrange(0, i + 1) == a@.subrange(0, i as int).push(a@[i as int]));
            assert(b@.subrange(0, i + 1) == b@.subrange(0, i as int).push(b@[i as int]));
        }
        i = i + 1;
    }
    proof {
        lemma_lt_skip(a@, b@, i as int);
    }
    i == a.len() && i < b.len()
}

/// Inserts `x` into a strictly sorted sequence unless it is already present.
fn insert_sorted(out: &mut Vec<String>, keys: &mut Vec<Vec<char>>, x: String)
    requires
        old(keys)@.len() == old(out)@.len(),
        forall|i: int| 0 <= i < old(out)@.len() ==> old(keys)@[i]@ == #[trigger] old(out)@[i]@,
        strictly_sorted(views(old(out)@)),
    ensures
        final(keys)@.len() == final(out)@.len(),
        forall|i: int| 0 <= i < final(out)@.len() ==> final(keys)@[i]@ == #[trigger] final(out)@[i]@,
        strictly_sorted(views(final(out)@)),
        forall|y: Seq<char>| views(final(out)@).contains(y) <==> (views(old(out)@).contains(y) || y
            == x@),
{
    let xk = chars_of(x.as_str());
    let ghost old_out = out@;
    let mut i: usize = 0;
    while i < out.len()
        invariant
            out@ == old_out,
            keys@.len() == out@.len(),
            forall|k: int| 0 <= k < out@.len() ==> keys@[k]@ == #[trigger] out@[k]@,
            i <= out.len(),
            xk@ == x@,
            forall|k: int| 0 <= k < i ==> path_lt(#[trigger] out@[k]@, x@),
        ensures
            i <= out.len(),
            i < out.len() ==> !path_lt(out@[i as int]@, x@),
        decreases out.len() - i,
    {
        if !path_lt_exec(keys[i].as_slice(), xk.as_slice()) {
            break;
        }
        i = i + 1;
    }
    assert(views(out@).len() == out@.len());
    if i < out.len() && chars_eq(keys[i].as_slice(), xk.as_slice()) {
        assert(views(out@)[i as int] == x@);
        return;
    }
    proof {
        if i < out@.len() {
            lemma_lt_total(out@[i as int]@, x@);
        }
    }
    out.insert(i, x);
    keys.insert(i, xk);
    proof {
        let v = views(out@);
        let ov = views(old_out);
        assert(v.len() == ov.len() + 1);
        assert forall|k: int| 0 <= k < v.len() implies #[trigger] v[k] == (if k < i {
            ov[k]
        } else if k == i {
            x@
        } else {
            ov[k - 1]
        }) by {}
        assert forall|a: int, b: int| 0 <= a < b < v.len() implies path_lt(
            #[trigger] v[a],
            #[trigger] v[b],
        ) by {
            if b < i {
                assert(path_lt(ov[a], ov[b]));
            } else if b == i {
                assert(path_lt(old_out[a]@, x@));
            } else if a == i {
                assert(path_lt(x@, ov[i as int]));
                if b - 1 > i {
                    assert(path_lt(ov[i as int], ov[b - 1]));
                    lemma_lt_transitive(x@, ov[i as int], ov[b - 1]);
                }
            } else if a < i {
                assert(path_lt(ov[a], ov[b - 1]));
            } else {
                assert(path_lt(ov[a - 1], ov[b - 1]));
            }
        }
        assert forall|y: Seq<char>| v.contains(y) <==> (ov.contains(y) || y == x@) by {
            if v.contains(y) {
                let k = choose|k: int| 0 <= k < v.len() && v[k] == y;
                if k < i {
                    assert(ov[k] == y);
                } else if k > i {
                    assert(ov[k - 1] == y);
                }
            }
            if ov.contains(y) {
                let k = choose|k: int| 0 <= k < ov.len() && ov[k] == y;
                if k < i {
                    assert(v[k] == y);
                } else {
                    assert(v[k + 1] == y);
                }
            }
            if y == x@ {
                assert(v[i as int] == y);
            }
        }
    }
}

/// Sorts paths in component order and removes duplicates.
pub fn sort_dedup_paths(paths: Vec<String>) -> (r: Vec<String>)
    ensures
        is_sorted_set_of(views(r@), views(paths@)),
{
    let mut out: Vec<String> = Vec::new();
    let mut keys: Vec<Vec<char>> = Vec::new();
    let mut i: usize = 0;
    while i < paths.len()
        invariant
            i <= paths.len(),
            keys@.len() == out@.len(),
            forall|k: int| 0 <= k < out@.len() ==> keys@[k]@ == #[trigger] out@[k]@,
            strictly_sorted(views(out@)),
            forall|y: Seq<char>| views(out@).contains(y) <==> views(paths@).subrange(0, i as int).contains(y),
        decreases paths.len() - i,
    {
        let p = paths[i].clone();
        insert_sorted(&mut out, &mut keys, p);
        proof {
            let pre = views(paths@).subrange(0, i as int);
            let post = views(paths@).subrange(0, i + 1);
            assert(post == pre.push(paths@[i as int]@));
            assert forall|y: Seq<char>| post.contains(y) <==> (pre.contains(y) || y == paths@[i as int]@) by {
                if post.contains(y) {
                    let k = choose|k: int| 0 <= k < post.len() && post[k] == y;
                    if k < i {
                        assert(pre[k] == y);
                    }
                }
                if pre.contains(y) {
                    let k = choose|k: int| 0 <= k < pre.len() && pre[k] == y;
                    assert(post[k] == y);
                }
                if y == paths@[i as int]@ {
                    assert(post[i as int] == y);
                }
            }
        }
        i = i + 1;
    }
    assert(views(paths@).subrange(0, paths.len() as int) == views(paths@));
    out
}

/// `PathBuf::join`.
/// Expands a leading `~` component with the home directory.
pub fn expand_home(p: &str, home: &Option<String>) -> (r: String)
    ensures
        r@ == expand_home_spec(p@, match home {
            Some(h) => Some(h@),
            None => None,
        }),
{
    let h = match home {
        Some(h) => h,
        None => return p.to_string(),
    };
    let v = chars_of(p);
    if !(v.len() > 0 && v[0] == '~' && (v.len() == 1 || is_sep_exec(v[1]))) {
        return p.to_string();
    }
    let mut k: usize = 1;
    while k < v.len() && is_sep_exec(v[k])
        invariant
            1 <= k <= v.len(),
            skip_leading_seps(v@.drop_first()) == skip_leading_seps(v@.subrange(k as int, v@.len() as int)),
        decreases v.len() - k,
    {
        assert(v@.subrange(k as int, v@.len() as int).drop_first() == v@.subrange(k + 1, v@.len() as int));
        k = k + 1;
    }
    assert(v@.drop_first() == v@.subrange(1, v@.len() as int));
    let rest = slice_chars(v.as_slice(), k, v.len());
    join(h.as_str(), string_of(rest.as_slice()).as_str())
}

pub fn join(a: &str, b: &str) -> (r: String)
    ensures
        r@ == join_spec(a@, b@),
{
    let av = chars_of(a);
    let bv = chars_of(b);
    if bv.len() > 0 && is_sep_exec(bv[0]) {
        return string_of(bv.as_slice());
    }
    if av.len() == 0 {
        return string_of(bv.as_slice());
    }
    let mut r = av.clone();
    if !is_sep_exec(av[av.len() - 1]) {
        r.push('/');
    }
    push_all(&mut r, bv.as_slice());
    string_of(r.as_slice())
}

/// Joins the components in order, as repeated `PathBuf::join` does.
pub open spec fn join_all(a: Seq<char>, parts: Seq<Seq<char>>) -> Seq<char>
    decreases parts.len(),
{
    if parts.len() == 0 {
        a
    } else {
        join_all(join_spec(a, parts[0]), parts.drop_first())
    }
}

pub fn strip_seps_exec(s: &[char]) -> (r: usize)
    ensures
        r == s@.len() - trailing_seps(s@),
        r <= s@.len(),
{
    let mut end: usize = s.len();
    proof {
        lemma_trailing_seps_bound(s@);
    }
    while end > 0 && is_sep_exec(s[end - 1])
        invariant
            end <= s.len(),
            s.len() - end <= trailing_seps(s@),
            trailing_seps(s@) <= s@.len(),
            forall|i: int| s@.len() - trailing_seps(s@) <= i < s@.len() ==> is_sep(#[trigger] s@[i]),
            trailing_seps(s@) < s@.len() ==> !is_sep(s@[s@.len() - trailing_seps(s@) - 1]),
        decreases end,
    {
        end = end - 1;
    }
    end
}

pub proof fn lemma_trailing_seps_bound(s: Seq<char>)
    ensures
        trailing_seps(s) <= s.len(),
        forall|i: int| s.len() - trailing_seps(s) <= i < s.len() ==> is_sep(#[trigger] s[i]),
        trailing_seps(s) < s.len() ==> !is_sep(s[s.len() - trailing_seps(s) - 1]),
    decreases s.len(),
{
    if s.len() > 0 && is_sep(s.last()) {
        lemma_trailing_seps_bound(s.drop_last());
        assert forall|i: int| s.len() - trailing_seps(s) <= i < s.len() implies is_sep(
            #[trigger] s[i],
        ) by {
            if i < s.len() - 1 {
                assert(s[i] == s.drop_last()[i]);
            }
        }
    }
}

pub proof fn lemma_last_sep(s: Seq<char>)
    ensures
        last_sep(s) matches Some(k) ==> 0 <= k < s.len() && is_sep(s[k]) && forall|j: int|
            k < j < s.len() ==> !is_sep(#[trigger] s[j]),
        last_sep(s) is None ==> forall|j: int| 0 <= j < s.len() ==> !is_sep(#[trigger] s[j]),
    decreases s.len(),
{
    if s.len() > 0 && !is_sep(s.last()) {
        lemma_last_sep(s.drop_last());
        assert forall|j: int| 0 <= j < s.len() - 1 implies s[j] == s.drop_last()[j] by {}
    }
}

/// Index of the last separator among the first `n` characters.
pub fn last_sep_exec(s: &[char], n: usize) -> (r: Option<usize>)
    requires
        n <= s.len(),
    ensures
        r matches Some(k) ==> last_sep(s@.subrange(0, n as int)) == Some(k as int) && k < n,
        r is None ==> last_sep(s@.subrange(0, n as int)) is None,
{
    let mut k: usize = n;
    while k > 0 && !is_sep_exec(s[k - 1])
        invariant
            k <= n <= s.len(),
            last_sep(s@.subrange(0, n as int)) == last_sep(s@.subrange(0, k as int)),
        decreases k,
    {
        assert(s@.subrange(0, k - 1) == s@.subrange(0, k as int).drop_last());
        k = k - 1;
    }
    if k == 0 {
        None
    } else {
        Some(k - 1)
    }
}

/// `Path::file_name`.
pub fn file_name(p: &str) -> (r: Option<String>)
    ensures
        r matches Some(s) ==> file_name_spec(p@) == Some(s@),
        r is None ==> file_name_spec(p@) is None,
{
    let v = chars_of(p);
    let end = strip_seps_exec(v.as_slice());
    if end == 0 {
        return None;
    }
    let ghost t = v@.subrange(0, end as int);
    let start = match last_sep_exec(v.as_slice(), end) {
        Some(k) => k + 1,
        None => 0,
    };
    let name = slice_chars(v.as_slice(), start, end);
    assert(name@ == (match last_sep(t) {
        Some(k) => t.subrange(k + 1, t.len() as int),
        None => t,
    }));
    if name.len() == 2 && name[0] == '.' && name[1] == '.' {
        assert(name@ == seq!['.', '.']);
        return None;
    }
    Some(string_of(name.as_slice()))
}

/// `Path::parent`.
pub fn parent(p: &str) -> (r: Option<String>)
    ensures
        r matches Some(s) ==> parent_spec(p@) == Some(s@),
        r is None ==> parent_spec(p@) is None,
{
    let v = chars_of(p);
    let end = strip_seps_exec(v.as_slice());
    if end == 0 {
        return None;
    }
    match last_sep_exec(v.as_slice(), end) {
        Some(k) => {
            if k == 0 {
                let r = slice_chars(v.as_slice(), 0, 1);
                Some(string_of(r.as_slice()))
            } else {
                let s = slice_chars(v.as_slice(), 0, k);
                assert(s@ == v@.subrange(0, end as int).subrange(0, k as int));
                Some(string_of(s.as_slice()))
            }
        },
        None => {
            let r = String::new();
            Some(r)
        },
    }
}

/// `Path::starts_with`.
pub fn starts_with(p: &str, base: &str) -> (r: bool)
    ensures
        r == path_starts_with(p@, base@),
{
    let pv = chars_of(p);
    let bv = chars_of(base);
    let end = strip_seps_exec(bv.as_slice());
    if end == 0 {
        return bv.len() == 0 || (pv.len() > 0 && is_sep_exec(pv[0]));
    }
    let b = slice_chars(bv.as_slice(), 0, end);
    starts_with_chars(pv.as_slice(), b.as_slice()) && (pv.len() == b.len() || is_sep_exec(
        pv[b.len()],
    ))
}

/// `Path::ends_with`.
pub fn ends_with(p: &str, child: &str) -> (r: bool)
    ensures
        r == path_ends_with(p@, child@),
{
    let pv = chars_of(p);
    let cv = chars_of(child);
    let cend = strip_seps_exec(cv.as_slice());
    let pend = strip_seps_exec(pv.as_slice());
    let c = slice_chars(cv.as_slice(), 0, cend);
    let t = slice_chars(pv.as_slice(), 0, pend);
    if cv.len() > 0 && is_sep_exec(cv[0]) {
        return chars_eq(t.as_slice(), c.as_slice()) && (c.len() > 0 || (pv.len() > 0 && is_sep_exec(
            pv[0],
        )));
    }
    if c.len() == 0 {
        return true;
    }
    ends_with_chars(t.as_slice(), c.as_slice()) && (t.len() == c.len() || is_sep_exec(
        t[t.len() - c.len() - 1],
    ))
}

/// Path equality on text.
pub fn path_eq(a: &str, b: &str) -> (r: bool)
    ensures
        r == (a@ == b@),
{
    let av = chars_of(a);
    let bv = chars_of(b);
    chars_eq(av.as_slice(), bv.as_slice())
}

/// Whether `v` contains a path equal to `p`.
pub fn contains_path(v: &Vec<String>, p: &str) -> (r: bool)
    ensures
        r == views(v@).contains(p@),
{
    let mut i: usize = 0;
    while i < v.len()
        invariant
            i <= v.len(),
            forall|k: int| 0 <= k < i ==> v@[k]@ != p@,
        decreases v.len() - i,
    {
        if path_eq(v[i].as_str(), p) {
            assert(views(v@)[i as int] == p@);
            return true;
        }
        i = i + 1;
    }
    assert(!views(v@).contains(p@)) by {
        if views(v@).contains(p@) {
            let k = choose|k: int| 0 <= k < views(v@).len() && views(v@)[k] == p@;
            assert(v@[k]@ == p@);
        }
    }
    false
}

} // verus!

verus! {

pub proof fn lemma_parent_shorter(p: Seq<char>)
    ensures
        parent_spec(p) matches Some(q) ==> q.len() < p.len(),
{
    lemma_trailing_seps_bound(p);
    lemma_last_sep(strip_seps(p));
}

/// The path and each of its parents in turn, as `Path::ancestors` gives them.
pub open spec fn ancestors_spec(p: Seq<char>) -> Seq<Seq<char>>
    decreases p.len(),
{
    match parent_spec(p) {
        None => seq![p],
        Some(q) => {
            proof {
                lemma_parent_shorter(p);
            }
            seq![p] + ancestors_spec(q)
        },
    }
}

/// The parents of a path, nearest first (`ancestors().skip(1)`).
pub fn parents_of(p: &str) -> (r: Vec<String>)
    ensures
        views(r@) == ancestors_spec(p@).drop_first(),
    decreases p@.len(),
{
    match parent(p) {
        None => Vec::new(),
        Some(q) => {
            proof {
                lemma_parent_shorter(p@);
            }
            let rest = parents_of(q.as_str());
            let mut r: Vec<String> = Vec::new();
            r.push(q.clone());
            assert(views(r@) =~= seq![q@]);
            let mut i: usize = 0;
            while i < rest.len()
                invariant
                    i <= rest.len(),
                    views(r@) == seq![q@] + views(rest@).subrange(0, i as int),
                decreases rest.len() - i,
            {
                let ghost before = r@;
                r.push(rest[i].clone());
                proof {
                    lemma_views_push(before, rest@[i as int]);
                }
                i = i + 1;
                assert(views(r@) == seq![q@] + views(rest@).subrange(0, i as int));
            }
            assert(views(rest@).subrange(0, rest.len() as int) == views(rest@));
            assert(ancestors_spec(p@).drop_first() == ancestors_spec(q@));
            assert(ancestors_spec(q@) == seq![q@] + ancestors_spec(q@).drop_first());
            r
        },
    }
}

} // verus!
