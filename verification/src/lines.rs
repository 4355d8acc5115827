//! Splitting text into lines and whitespace-separated tokens.

use vstd::prelude::*;
use crate::text::{chars_of, is_whitespace, is_whitespace_exec, string_of};

verus! {

/// The pieces of `s` between occurrences of `sep`, empty pieces kept.
pub open spec fn split_on(s: Seq<char>, sep: char) -> Seq<Seq<char>>
    decreases s.len(),
{
    if s.len() == 0 {
        seq![Seq::empty()]
    } else {
        let rest = split_on(s.drop_last(), sep);
        if s.last() == sep {
            rest.push(Seq::empty())
        } else {
            rest.update(rest.len() - 1, rest.last().push(s.last()))
        }
    }
}

pub proof fn lemma_split_on_nonempty(s: Seq<char>, sep: char)
    ensures
        split_on(s, sep).len() >= 1,
    decreases s.len(),
{
    if s.len() > 0 {
        lemma_split_on_nonempty(s.drop_last(), sep);
    }
}

/// A line without its trailing carriage return.
pub open spec fn strip_cr(l: Seq<char>) -> Seq<char> {
    if l.len() > 0 && l.last() == '\r' {
        l.drop_last()
    } else {
        l
    }
}

/// The lines of `s` as `str::lines` gives them: split at each `\n`, a
/// final empty piece dropped, a trailing `\r` removed from each line.
pub open spec fn lines_spec(s: Seq<char>) -> Seq<Seq<char>> {
    let parts = split_on(s, '\n');
    let kept = if parts.last().len() == 0 {
        parts.drop_last()
    } else {
        parts
    };
    kept.map_values(|l: Seq<char>| strip_cr(l))
}

/// Splits `v` at each `sep`.
pub fn split_chars(v: &[char], sep: char) -> (r: Vec<Vec<char>>)
    ensures
        r@.map_values(|p: Vec<char>| p@) == split_on(v@, sep),
{
    let mut out: Vec<Vec<char>> = Vec::new();
    let mut cur: Vec<char> = Vec::new();
    let mut i: usize = 0;
    while i < v.len()
        invariant
            i <= v.len(),
            out@.map_values(|p: Vec<char>| p@).push(cur@) == split_on(v@.subrange(0, i as int), sep),
        decreases v.len() - i,
    {
        proof {
            lemma_split_on_nonempty(v@.subrange(0, i as int), sep);
        }
        let ghost before = v@.subrange(0, i as int);
        assert(v@.subrange(0, i + 1).drop_last() == before);
        if v[i] == sep {
            let ghost old_out = out@;
            out.push(cur);
            cur = Vec::new();
            assert(out@.map_values(|p: Vec<char>| p@) == old_out.map_values(|p: Vec<char>| p@).push(
                split_on(before, sep).last(),
            ));
            assert(out@.map_values(|p: Vec<char>| p@) == split_on(before, sep));
        } else {
            let ghost old_cur = cur@;
            cur.push(v[i]);
            assert(out@.map_values(|p: Vec<char>| p@).push(cur@) == split_on(before, sep).update(
                split_on(before, sep).len() - 1,
                old_cur.push(v[i as int]),
            ));
        }
        i = i + 1;
    }
    let ghost old_out = out@;
    out.push(cur);
    assert(out@.map_values(|p: Vec<char>| p@) == old_out.map_values(|p: Vec<char>| p@).push(
        split_on(v@.subrange(0, i as int), sep).last(),
    ));
    assert(v@.subrange(0, v.len() as int) == v@);
    out
}

/// The lines of a string, as `str::lines` gives them.
pub fn lines(s: &str) -> (r: Vec<String>)
    ensures
        r@.map_values(|l: String| l@) == lines_spec(s@),
{
    let v = chars_of(s);
    let parts = split_chars(v.as_slice(), '\n');
    let ghost pv = parts@.map_values(|p: Vec<char>| p@);
    proof {
        lemma_split_on_nonempty(s@, '\n');
    }
    let n = if parts[parts.len() - 1].len() == 0 {
        parts.len() - 1
    } else {
        parts.len()
    };
    let ghost kept = if pv.last().len() == 0 {
        pv.drop_last()
    } else {
        pv
    };
    assert(kept.len() == n);
    let mut out: Vec<String> = Vec::new();
    let mut i: usize = 0;
    while i < n
        invariant
            i <= n,
            n <= parts.len(),
            pv == parts@.map_values(|p: Vec<char>| p@),
            kept.len() == n,
            forall|k: int| 0 <= k < n ==> kept[k] == pv[k],
            out@.map_values(|l: String| l@) == kept.subrange(0, i as int).map_values(
                |l: Seq<char>| strip_cr(l),
            ),
        decreases n - i,
    {
        let p = &parts[i];
        let line = if p.len() > 0 && p[p.len() - 1] == '\r' {
            let mut w: Vec<char> = Vec::new();
            let mut j: usize = 0;
            while j < p.len() - 1
                invariant
                    p.len() > 0,
                    j <= p.len() - 1,
                    w@ == p@.subrange(0, j as int),
                decreases p.len() - 1 - j,
            {
                w.push(p[j]);
                j = j + 1;
            }
            string_of(w.as_slice())
        } else {
            string_of(p.as_slice())
        };
        assert(line@ == strip_cr(kept[i as int]));
        let ghost old_out = out@;
        out.push(line);
        assert(out@.map_values(|l: String| l@) == old_out.map_values(|l: String| l@).push(line@));
        assert(kept.subrange(0, i + 1).map_values(|l: Seq<char>| strip_cr(l)) == kept.subrange(
            0,
            i as int,
        ).map_values(|l: Seq<char>| strip_cr(l)).push(strip_cr(kept[i as int])));
        i = i + 1;
    }
    assert(kept.subrange(0, n as int) == kept);
    out
}

/// The last maximal run of non-whitespace characters, if any.
pub open spec fn last_token_spec(s: Seq<char>) -> Option<Seq<char>>
    decreases s.len(),
{
    if s.len() == 0 {
        None
    } else if is_whitespace(s.last()) {
        last_token_spec(s.drop_last())
    } else {
        Some(token_end_run(s))
    }
}

/// The run of non-whitespace characters that ends `s`.
pub open spec fn token_end_run(s: Seq<char>) -> Seq<char>
    decreases s.len(),
{
    if s.len() == 0 || is_whitespace(s.last()) {
        Seq::empty()
    } else {
        token_end_run(s.drop_last()).push(s.last())
    }
}

/// The last whitespace-separated token, as `split_whitespace().last()`.
pub fn last_token(s: &[char]) -> (r: Option<Vec<char>>)
    ensures
        match r {
            Some(t) => last_token_spec(s@) == Some(t@),
            None => last_token_spec(s@) is None,
        },
{
    let mut end: usize = s.len();
    assert(s@.subrange(0, end as int) == s@);
    while end > 0 && is_whitespace_exec(s[end - 1])
        invariant
            end <= s.len(),
            last_token_spec(s@) == last_token_spec(s@.subrange(0, end as int)),
        decreases end,
    {
        assert(s@.subrange(0, end as int).drop_last() == s@.subrange(0, end - 1));
        end = end - 1;
    }
    if end == 0 {
        return None;
    }
    let mut start: usize = end;
    while start > 0 && !is_whitespace_exec(s[start - 1])
        invariant
            start <= end <= s.len(),
            token_end_run(s@.subrange(0, end as int)) == token_end_run(
                s@.subrange(0, start as int),
            ) + s@.subrange(start as int, end as int),
            forall|k: int| start <= k < end ==> !is_whitespace(#[trigger] s@[k]),
        decreases start,
    {
        let ghost pre = s@.subrange(0, start - 1);
        assert(s@.subrange(0, start as int).drop_last() == pre);
        assert(token_end_run(s@.subrange(0, start as int)) == token_end_run(pre).push(
            s@[start - 1],
        ));
        assert(token_end_run(pre).push(s@[start - 1]) + s@.subrange(start as int, end as int)
            == token_end_run(pre) + s@.subrange(start - 1, end as int));
        start = start - 1;
    }
    assert(token_end_run(s@.subrange(0, start as int)) == Seq::<char>::empty());
    let mut t: Vec<char> = Vec::new();
    let mut i: usize = start;
    while i < end
        invariant
            start <= i <= end,
            end <= s.len(),
            t@ == s@.subrange(start as int, i as int),
        decreases end - i,
    {
        t.push(s[i]);
        i = i + 1;
    }
    assert(s@.subrange(0, end as int).last() == s@[end - 1]);
    Some(t)
}

} // verus!

verus! {

/// The run of non-whitespace characters that starts `s`.
pub open spec fn token_start_run(s: Seq<char>) -> Seq<char>
    decreases s.len(),
{
    if s.len() == 0 || is_whitespace(s[0]) {
        Seq::empty()
    } else {
        seq![s[0]] + token_start_run(s.drop_first())
    }
}

/// The first whitespace-separated token, as `split_whitespace().next()`.
pub open spec fn first_token_spec(s: Seq<char>) -> Option<Seq<char>>
    decreases s.len(),
{
    if s.len() == 0 {
        None
    } else if is_whitespace(s[0]) {
        first_token_spec(s.drop_first())
    } else {
        Some(token_start_run(s))
    }
}

pub fn first_token(s: &[char]) -> (r: Option<Vec<char>>)
    ensures
        match r {
            Some(t) => first_token_spec(s@) == Some(t@),
            None => first_token_spec(s@) is None,
        },
{
    let mut start: usize = 0;
    assert(s@.subrange(0, s.len() as int) == s@);
    while start < s.len() && is_whitespace_exec(s[start])
        invariant
            start <= s.len(),
            first_token_spec(s@) == first_token_spec(s@.subrange(start as int, s.len() as int)),
        decreases s.len() - start,
    {
        assert(s@.subrange(start as int, s.len() as int).drop_first() == s@.subrange(
            start + 1,
            s.len() as int,
        ));
        start = start + 1;
    }
    if start == s.len() {
        return None;
    }
    let mut end: usize = start;
    while end < s.len() && !is_whitespace_exec(s[end])
        invariant
            start <= end <= s.len(),
            token_start_run(s@.subrange(start as int, s.len() as int)) == s@.subrange(
                start as int,
                end as int,
            ) + token_start_run(s@.subrange(end as int, s.len() as int)),
        decreases s.len() - end,
    {
        assert(s@.subrange(end as int, s.len() as int).drop_first() == s@.subrange(
            end + 1,
            s.len() as int,
        ));
        assert(s@.subrange(start as int, end as int) + seq![s@[end as int]] == s@.subrange(
            start as int,
            end + 1,
        ));
        end = end + 1;
    }
    assert(token_start_run(s@.subrange(end as int, s.len() as int)) == Seq::<char>::empty());
    let mut t: Vec<char> = Vec::new();
    let mut i: usize = start;
    while i < end
        invariant
            start <= i <= end,
            end <= s.len(),
            t@ == s@.subrange(start as int, i as int),
        decreases end - i,
    {
        t.push(s[i]);
        i = i + 1;
    }
    assert(s@.subrange(start as int, s.len() as int)[0] == s@[start as int]);
    Some(t)
}

/// `s` with every trailing occurrence of `p` removed, as
/// `str::trim_end_matches` does for a non-empty pattern.
pub open spec fn strip_suffix_all(s: Seq<char>, p: Seq<char>) -> Seq<char>
    decreases s.len(),
{
    if p.len() > 0 && p.len() <= s.len() && s.subrange(s.len() - p.len(), s.len() as int) == p {
        strip_suffix_all(s.subrange(0, s.len() - p.len()), p)
    } else {
        s
    }
}

pub fn strip_suffix_all_exec(s: &[char], p: &[char]) -> (r: Vec<char>)
    ensures
        r@ == strip_suffix_all(s@, p@),
{
    let mut end: usize = s.len();
    assert(s@.subrange(0, end as int) == s@);
    while p.len() > 0 && p.len() <= end && crate::text::ends_with_chars(
        &crate::text::slice_chars(s, 0, end),
        p,
    )
        invariant
            end <= s.len(),
            strip_suffix_all(s@, p@) == strip_suffix_all(s@.subrange(0, end as int), p@),
        decreases end,
    {
        assert(s@.subrange(0, end as int).subrange(0, end - p.len()) == s@.subrange(
            0,
            end - p.len(),
        ));
        end = end - p.len();
    }
    crate::text::slice_chars(s, 0, end)
}

} // verus!
