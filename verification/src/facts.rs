//! What was found on disk about a set of paths, as plain values.

use vstd::prelude::*;
use crate::path::{contains_path, lemma_views_push, path_eq, views};
use crate::r_installation::clone_strings;

verus! {

broadcast use lemma_views_push;

/// The paths of `s` that are among `present`, in order.
pub open spec fn present_in(s: Seq<Seq<char>>, present: Seq<Seq<char>>) -> Seq<Seq<char>>
    decreases s.len(),
{
    if s.len() == 0 {
        Seq::empty()
    } else if present.contains(s.last()) {
        present_in(s.drop_last(), present).push(s.last())
    } else {
        present_in(s.drop_last(), present)
    }
}

/// Keeps the paths that are among `present`, in order.
pub fn keep_present(paths: &Vec<String>, present: &Vec<String>) -> (r: Vec<String>)
    ensures
        views(r@) == present_in(views(paths@), views(present@)),
{
    let mut out: Vec<String> = Vec::new();
    let mut i: usize = 0;
    while i < paths.len()
        invariant
            i <= paths.len(),
            views(out@) == present_in(views(paths@).subrange(0, i as int), views(present@)),
        decreases paths.len() - i,
    {
        assert(views(paths@).subrange(0, i + 1).drop_last() == views(paths@).subrange(0, i as int));
        if contains_path(present, paths[i].as_str()) {
            out.push(paths[i].clone());
        }
        i = i + 1;
    }
    assert(views(paths@).subrange(0, paths.len() as int) == views(paths@));
    out
}

/// Paths known to exist, to be directories, and to be files.
#[derive(Debug)]
pub struct FileFacts {
    pub existing: Vec<String>,
    pub dirs: Vec<String>,
    pub files: Vec<String>,
}

pub open spec fn exists_in(f: FileFacts, p: Seq<char>) -> bool {
    views(f.existing@).contains(p)
}

pub open spec fn dir_in(f: FileFacts, p: Seq<char>) -> bool {
    views(f.dirs@).contains(p)
}

pub open spec fn file_in(f: FileFacts, p: Seq<char>) -> bool {
    views(f.files@).contains(p)
}

impl FileFacts {
    pub fn path_exists(&self, p: &str) -> (r: bool)
        ensures
            r == exists_in(*self, p@),
    {
        contains_path(&self.existing, p)
    }

    pub fn is_dir(&self, p: &str) -> (r: bool)
        ensures
            r == dir_in(*self, p@),
    {
        contains_path(&self.dirs, p)
    }

    pub fn is_file(&self, p: &str) -> (r: bool)
        ensures
            r == file_in(*self, p@),
    {
        contains_path(&self.files, p)
    }
}

/// The entries of directories as listed: a directory and the paths in it.
pub type Listings = Vec<(String, Vec<String>)>;

/// The paths in a directory, as first listed; none when it was not listed.
pub open spec fn listing_of(l: Seq<(String, Vec<String>)>, dir: Seq<char>) -> Seq<Seq<char>>
    decreases l.len(),
{
    if l.len() == 0 {
        Seq::empty()
    } else if l[0].0@ == dir {
        views(l[0].1@)
    } else {
        listing_of(l.drop_first(), dir)
    }
}

/// The paths listed for `dir`.
pub fn listing(l: &Listings, dir: &str) -> (r: Vec<String>)
    ensures
        views(r@) == listing_of(l@, dir@),
{
    let mut i: usize = 0;
    assert(l@.subrange(0, l@.len() as int) == l@);
    while i < l.len()
        invariant
            i <= l.len(),
            listing_of(l@, dir@) == listing_of(l@.subrange(i as int, l@.len() as int), dir@),
        decreases l.len() - i,
    {
        let ghost rest = l@.subrange(i as int, l@.len() as int);
        assert(rest.drop_first() == l@.subrange(i + 1, l@.len() as int));
        if path_eq(l[i].0.as_str(), dir) {
            return clone_strings(&l[i].1);
        }
        i = i + 1;
    }
    Vec::new()
}

} // verus!
