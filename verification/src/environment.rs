//! The process environment a locator is configured from, as plain values.

use vstd::prelude::*;
use crate::merge::env_map;
use crate::r_installation::{clone_strings, opt_view, EnvVars};
use crate::manager::clone_opt_string;
use crate::text::{chars_eq, chars_of, string_of};

verus! {

/// The value of `key` in the variables, a later entry winning.
pub open spec fn env_get(v: Seq<(String, String)>, key: Seq<char>) -> Option<Seq<char>> {
    if env_map(v).dom().contains(key) {
        Some(env_map(v)[key])
    } else {
        None
    }
}

/// The value of a variable, a later entry winning.
pub fn lookup_var(v: &EnvVars, key: &str) -> (r: Option<String>)
    ensures
        opt_view(r) == env_get(v@, key@),
{
    let k = chars_of(key);
    let mut i: usize = v.len();
    assert(v@.subrange(0, v.len() as int) == v@);
    while i > 0
        invariant
            i <= v.len(),
            k@ == key@,
            env_get(v@, key@) == env_get(v@.subrange(0, i as int), key@),
        decreases i,
    {
        let ghost pre = v@.subrange(0, i - 1);
        assert(v@.subrange(0, i as int).drop_last() == pre);
        let name = chars_of(v[i - 1].0.as_str());
        if chars_eq(name.as_slice(), k.as_slice()) {
            assert(env_map(v@.subrange(0, i as int)) == env_map(pre).insert(v@[i - 1].0@, v@[i - 1].1@));
            let val = v[i - 1].1.clone();
            assert(val@ == v@[i - 1].1@);
            assert(env_get(v@.subrange(0, i as int), key@) == Some(v@[i - 1].1@));
            return Some(val);
        }
        i = i - 1;
    }
    assert(env_map(v@.subrange(0, 0)) == Map::<Seq<char>, Seq<char>>::empty());
    None
}

/// What a locator reads of its environment: the user's home, the file
/// system root, the variables, and the well-known global search locations.
#[derive(Debug)]
pub struct Environment {
    pub user_home: Option<String>,
    pub root: Option<String>,
    pub variables: EnvVars,
    pub global_search_locations: Vec<String>,
}

impl Environment {
    pub fn get_user_home(&self) -> (r: Option<String>)
        ensures
            r == self.user_home,
    {
        clone_opt_string(&self.user_home)
    }

    pub fn get_root(&self) -> (r: Option<String>)
        ensures
            r == self.root,
    {
        clone_opt_string(&self.root)
    }

    /// The value of a variable.
    pub fn get_env_var(&self, key: &str) -> (r: Option<String>)
        ensures
            opt_view(r) == env_get(self.variables@, key@),
    {
        lookup_var(&self.variables, key)
    }

    pub fn get_know_global_search_locations(&self) -> (r: Vec<String>)
        ensures
            r@ == self.global_search_locations@,
    {
        clone_strings(&self.global_search_locations)
    }
}

/// The pieces of a `PATH`-style list separated by `:`, empty pieces kept.
pub open spec fn split_list(s: Seq<char>) -> Seq<Seq<char>>
    decreases s.len(),
{
    if s.len() == 0 {
        seq![Seq::empty()]
    } else {
        let rest = split_list(s.drop_last());
        if s.last() == ':' {
            rest.push(Seq::empty())
        } else {
            rest.update(rest.len() - 1, rest.last().push(s.last()))
        }
    }
}

pub proof fn lemma_split_list_nonempty(s: Seq<char>)
    ensures
        split_list(s).len() >= 1,
    decreases s.len(),
{
    if s.len() > 0 {
        lemma_split_list_nonempty(s.drop_last());
    }
}

/// Splits a `PATH`-style list at each `:` (`std::env::split_paths` on Unix).
pub fn split_paths(value: &str) -> (r: Vec<String>)
    ensures
        r@.map_values(|p: String| p@) == split_list(value@),
{
    let v = chars_of(value);
    let mut out: Vec<String> = Vec::new();
    let mut cur: Vec<char> = Vec::new();
    let mut i: usize = 0;
    while i < v.len()
        invariant
            i <= v.len(),
            v@ == value@,
            out@.map_values(|p: String| p@).push(cur@) == split_list(v@.subrange(0, i as int)),
        decreases v.len() - i,
    {
        proof {
            lemma_split_list_nonempty(v@.subrange(0, i as int));
        }
        let ghost before = v@.subrange(0, i as int);
        assert(v@.subrange(0, i + 1).drop_last() == before);
        if v[i] == ':' {
            let piece = string_of(cur.as_slice());
            out.push(piece);
            cur = Vec::new();
            assert(out@.map_values(|p: String| p@) == split_list(before));
        } else {
            let ghost old_cur = cur@;
            cur.push(v[i]);
            assert(out@.map_values(|p: String| p@).push(cur@) == split_list(before).update(
                split_list(before).len() - 1,
                old_cur.push(v[i as int]),
            ));
        }
        i = i + 1;
    }
    let piece = string_of(cur.as_slice());
    out.push(piece);
    assert(v@.subrange(0, v.len() as int) == v@);
    out
}

} // verus!
