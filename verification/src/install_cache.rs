//! The cache of probed runtimes: one entry per executable, kept while the
//! files it was probed from are unchanged, optionally mirrored in a cache
//! directory.

use vstd::prelude::*;
use sha2::Digest;
use crate::path::{contains_path, join, join_spec, lemma_views_push, sort_dedup_paths, is_sorted_set_of, views};
use crate::r_installation::{opt_seq, opt_view, opt_views};
use crate::resolved::{same_runtime, ResolvedRInstallation};
use crate::text::{chars_of, push_str, slice_chars, string_of};

verus! {

broadcast use lemma_views_push;

/// A file as it was when a runtime was probed: its path, when it was last
/// modified and, where the file system tells, when it was created
/// (nanoseconds since the epoch).
pub type FileStamp = (String, u128, Option<u128>);

/// What the file system reports of a path now.
#[derive(Debug)]
pub struct FileMeta {
    pub path: String,
    pub is_file: bool,
    pub modified: Option<u128>,
    pub created: Option<u128>,
}

impl FileMeta {
    pub fn copy(&self) -> (r: FileMeta)
        ensures
            r == *self,
    {
        FileMeta { path: self.path.clone(), is_file: self.is_file, modified: self.modified, created: self.created }
    }
}

/// The first report about a path; none when its metadata could not be read.
pub open spec fn meta_of(metas: Seq<FileMeta>, p: Seq<char>) -> Option<FileMeta>
    decreases metas.len(),
{
    if metas.len() == 0 {
        None
    } else if metas[0].path@ == p {
        Some(metas[0])
    } else {
        meta_of(metas.drop_first(), p)
    }
}

fn find_meta(metas: &Vec<FileMeta>, p: &str) -> (r: Option<FileMeta>)
    ensures
        match r {
            Some(m) => meta_of(metas@, p@) == Some(m),
            None => meta_of(metas@, p@) is None,
        },
{
    let mut i: usize = 0;
    assert(metas@.subrange(0, metas@.len() as int) == metas@);
    while i < metas.len()
        invariant
            i <= metas.len(),
            meta_of(metas@, p@) == meta_of(metas@.subrange(i as int, metas@.len() as int), p@),
        decreases metas.len() - i,
    {
        let ghost rest = metas@.subrange(i as int, metas@.len() as int);
        assert(rest.drop_first() == metas@.subrange(i + 1, metas@.len() as int));
        if crate::path::path_eq(metas[i].path.as_str(), p) {
            return Some(metas[i].copy());
        }
        i = i + 1;
    }
    None
}

/// The file is still what it was: its modification time, and its creation
/// time when one was recorded, are unchanged.
pub open spec fn stamp_unchanged(s: FileStamp, metas: Seq<FileMeta>) -> bool {
    match meta_of(metas, s.0@) {
        None => false,
        Some(m) => m.modified == Some(s.1) && (s.2 is None || m.created == s.2),
    }
}

/// The file is still a file and unchanged.
pub open spec fn stamp_valid(s: FileStamp, metas: Seq<FileMeta>) -> bool {
    stamp_unchanged(s, metas) && meta_of(metas, s.0@).unwrap().is_file
}

fn stamp_check(s: &FileStamp, metas: &Vec<FileMeta>, require_file: bool) -> (r: bool)
    ensures
        r == (if require_file {
            stamp_valid(*s, metas@)
        } else {
            stamp_unchanged(*s, metas@)
        }),
{
    match find_meta(metas, s.0.as_str()) {
        None => false,
        Some(m) => {
            let unchanged = m.modified == Some(s.1) && (s.2.is_none() || m.created == s.2);
            unchanged && (!require_file || m.is_file)
        },
    }
}

/// The stamps of the files that can be stamped, in order.
pub open spec fn stamps_of(paths: Seq<Seq<char>>, metas: Seq<FileMeta>) -> Seq<(Seq<char>, u128, Option<u128>)>
    decreases paths.len(),
{
    if paths.len() == 0 {
        Seq::empty()
    } else {
        let prev = stamps_of(paths.drop_last(), metas);
        match meta_of(metas, paths.last()) {
            Some(m) => match m.modified {
                Some(t) => prev.push((paths.last(), t, m.created)),
                None => prev,
            },
            None => prev,
        }
    }
}

pub open spec fn stamp_views(s: Seq<FileStamp>) -> Seq<(Seq<char>, u128, Option<u128>)> {
    s.map_values(|x: FileStamp| (x.0@, x.1, x.2))
}

fn stamp_paths(paths: &Vec<String>, metas: &Vec<FileMeta>) -> (r: Vec<FileStamp>)
    ensures
        stamp_views(r@) == stamps_of(views(paths@), metas@),
{
    let mut out: Vec<FileStamp> = Vec::new();
    let mut i: usize = 0;
    while i < paths.len()
        invariant
            i <= paths.len(),
            stamp_views(out@) == stamps_of(views(paths@).subrange(0, i as int), metas@),
        decreases paths.len() - i,
    {
        assert(views(paths@).subrange(0, i + 1).drop_last() == views(paths@).subrange(0, i as int));
        match find_meta(metas, paths[i].as_str()) {
            Some(m) => match m.modified {
                Some(t) => {
                    let ghost prev = out@;
                    out.push((paths[i].clone(), t, m.created));
                    assert(stamp_views(out@) =~= stamp_views(prev).push((paths@[i as int]@, t, m.created)));
                },
                None => {},
            },
            None => {},
        }
        i = i + 1;
    }
    assert(views(paths@).subrange(0, paths.len() as int) == views(paths@));
    out
}

/// The cache entry of one executable.
#[derive(Debug)]
pub struct CacheEntryImpl {
    pub cache_directory: Option<String>,
    pub executable: String,
    pub installation: Option<ResolvedRInstallation>,
    pub executables: Vec<FileStamp>,
}

/// Whether what an entry holds is still good: every stamped file is still
/// an unchanged file and the executable is a file.
pub open spec fn entry_still_valid(e: CacheEntryImpl, metas: Seq<FileMeta>) -> bool {
    &&& forall|i: int| 0 <= i < e.executables@.len() ==> stamp_valid(#[trigger] e.executables@[i], metas)
    &&& meta_of(metas, e.executable@) matches Some(m) && m.is_file
}

/// The same runtime, or none, on both sides.
pub open spec fn same_opt_runtime(a: Option<ResolvedRInstallation>, b: Option<ResolvedRInstallation>) -> bool {
    match b {
        Some(y) => a matches Some(x) && same_runtime(x, y),
        None => a is None,
    }
}

impl CacheEntryImpl {
    pub fn create(cache_directory: Option<String>, executable: String) -> (r: CacheEntryImpl)
        ensures
            r.cache_directory == cache_directory,
            r.executable == executable,
            r.installation is None,
            r.executables@.len() == 0,
    {
        CacheEntryImpl { cache_directory, executable, installation: None, executables: Vec::new() }
    }

    /// Drops the cached runtime when a stamped file changed or the
    /// executable is gone; returns whether it did (the cache file is then
    /// to be deleted too).
    pub fn verify_in_memory_cache(&mut self, metas: &Vec<FileMeta>) -> (r: bool)
        ensures
            r == !entry_still_valid(*old(self), metas@),
            r ==> final(self).installation is None,
            !r ==> final(self).installation == old(self).installation,
            final(self).executables@ == old(self).executables@,
            final(self).executable == old(self).executable,
            final(self).cache_directory == old(self).cache_directory,
    {
        let mut invalid = false;
        let mut i: usize = 0;
        while i < self.executables.len()
            invariant
                i <= self.executables.len(),
                invalid == exists|j: int| 0 <= j < i && !stamp_valid(#[trigger] self.executables@[j], metas@),
            decreases self.executables.len() - i,
        {
            if !stamp_check(&self.executables[i], metas, true) {
                invalid = true;
            }
            i = i + 1;
        }
        let exe_ok = match find_meta(metas, self.executable.as_str()) {
            Some(m) => m.is_file,
            None => false,
        };
        if invalid || !exe_ok {
            self.installation = None;
            true
        } else {
            false
        }
    }

    /// The cached runtime, after checking it: the one in memory, else
    /// `from_disk` (the cache file's runtime and stamps, already checked)
    /// when there is a cache directory, which is then kept in memory.
    pub fn get(&mut self, metas: &Vec<FileMeta>, from_disk: Option<(ResolvedRInstallation, Vec<FileStamp>)>) -> (r:
        Option<ResolvedRInstallation>)
        ensures
            same_opt_runtime(
                r,
                if entry_still_valid(*old(self), metas@) && old(self).installation is Some {
                    old(self).installation
                } else if old(self).cache_directory is Some {
                    match from_disk {
                        Some(d) => Some(d.0),
                        None => None,
                    }
                } else {
                    None
                },
            ),
            !(entry_still_valid(*old(self), metas@) && old(self).installation is Some)
                && old(self).cache_directory is Some ==> (match from_disk {
                Some(d) => final(self).installation == Some(d.0) && final(self).executables@ == d.1@,
                None => true,
            }),
    {
        self.verify_in_memory_cache(metas);
        match &self.installation {
            Some(x) => return Some(x.copy()),
            None => {},
        }
        if self.cache_directory.is_none() {
            return None;
        }
        match from_disk {
            Some(d) => {
                let (installation, stamps) = d;
                let copy = installation.copy();
                self.installation = Some(installation);
                self.executables = stamps;
                Some(copy)
            },
            None => None,
        }
    }

    /// Keeps a runtime with the stamps of its known executables (sorted by
    /// path, each once); returns the stamps, to be written with it when
    /// there is a cache directory.
    pub fn store(&mut self, installation: ResolvedRInstallation, metas: &Vec<FileMeta>) -> (r: Vec<FileStamp>)
        ensures
            final(self).installation == Some(installation),
            final(self).executables@ == r@,
            exists|paths: Seq<Seq<char>>|
                is_sorted_set_of(paths, opt_views(installation.known_executables)) && stamp_views(r@)
                    == #[trigger] stamps_of(paths, metas@),
            final(self).executable == old(self).executable,
            final(self).cache_directory == old(self).cache_directory,
    {
        let known: Vec<String> = match &installation.known_executables {
            Some(v) => crate::r_installation::clone_strings(v),
            None => Vec::new(),
        };
        let paths = sort_dedup_paths(known);
        let stamps = stamp_paths(&paths, metas);
        let mut kept: Vec<FileStamp> = Vec::new();
        let mut i: usize = 0;
        while i < stamps.len()
            invariant
                i <= stamps.len(),
                kept@ == stamps@.subrange(0, i as int),
            decreases stamps.len() - i,
        {
            kept.push((stamps[i].0.clone(), stamps[i].1, stamps[i].2));
            i = i + 1;
        }
        assert(kept@ == stamps@);
        self.executables = kept;
        self.installation = Some(installation);
        proof {
            assert(is_sorted_set_of(views(paths@), opt_views(installation.known_executables)));
        }
        stamps
    }

    /// Starts tracking executables not known_paths yet (after checking the
    /// entry), each that can be stamped.
    pub fn track_executables(&mut self, executables: &Vec<String>, metas: &Vec<FileMeta>)
        ensures
            stamp_views(final(self).executables@) == stamp_views(old(self).executables@) + stamps_of(
                views(executables@).filter(untracked(stamped_paths(old(self).executables@))),
                metas@,
            ),
            final(self).executable == old(self).executable,
            final(self).cache_directory == old(self).cache_directory,
            entry_still_valid(*old(self), metas@) ==> final(self).installation == old(self).installation,
            !entry_still_valid(*old(self), metas@) ==> final(self).installation is None,
    {
        self.verify_in_memory_cache(metas);
        let mut known_paths: Vec<String> = Vec::new();
        let mut i: usize = 0;
        while i < self.executables.len()
            invariant
                i <= self.executables.len(),
                views(known_paths@) == stamped_paths(self.executables@.subrange(0, i as int)),
            decreases self.executables.len() - i,
        {
            known_paths.push(self.executables[i].0.clone());
            assert(self.executables@.subrange(0, i + 1) =~= self.executables@.subrange(0, i as int).push(
                self.executables@[i as int],
            ));
            assert(stamped_paths(self.executables@.subrange(0, i + 1)) =~= stamped_paths(
                self.executables@.subrange(0, i as int),
            ).push(self.executables@[i as int].0@));
            i = i + 1;
        }
        assert(self.executables@.subrange(0, self.executables@.len() as int) == self.executables@);
        let ghost known = views(known_paths@);
        let mut fresh: Vec<String> = Vec::new();
        let mut j: usize = 0;
        while j < executables.len()
            invariant
                j <= executables.len(),
                views(fresh@) == views(executables@).subrange(0, j as int).filter(untracked(known)),
                known == views(known_paths@),
            decreases executables.len() - j,
        {
            reveal(Seq::filter);
            let ghost pre = views(executables@).subrange(0, j as int);
            let ghost cur = views(executables@).subrange(0, j + 1);
            assert(cur.drop_last() == pre);
            assert(cur.last() == executables@[j as int]@);
            assert(cur.filter(untracked(known)) == (if untracked(known)(cur.last()) {
                pre.filter(untracked(known)).push(cur.last())
            } else {
                pre.filter(untracked(known))
            }));
            if !contains_path(&known_paths, executables[j].as_str()) {
                fresh.push(executables[j].clone());
            }
            j = j + 1;
        }
        assert(views(executables@).subrange(0, executables.len() as int) == views(executables@));
        let mut added = stamp_paths(&fresh, metas);
        let ghost before = self.executables@;
        let ghost extra = added@;
        self.executables.append(&mut added);
        assert(stamp_views(self.executables@) =~= stamp_views(before) + stamp_views(extra));
    }
}

proof fn lemma_stamps_of_describe(paths: Seq<Seq<char>>, metas: Seq<FileMeta>, i: int)
    requires
        0 <= i < stamps_of(paths, metas).len(),
    ensures
        paths.contains(stamps_of(paths, metas)[i].0),
        meta_of(metas, stamps_of(paths, metas)[i].0) matches Some(m) && m.modified == Some(
            stamps_of(paths, metas)[i].1,
        ) && m.created == stamps_of(paths, metas)[i].2,
    decreases paths.len(),
{
    let prev = stamps_of(paths.drop_last(), metas);
    if i < prev.len() {
        lemma_stamps_of_describe(paths.drop_last(), metas, i);
        let p = prev[i].0;
        let k = choose|k: int| 0 <= k < paths.drop_last().len() && paths.drop_last()[k] == p;
        assert(paths[k] == p);
    } else {
        assert(paths[paths.len() - 1] == paths.last());
    }
}

/// A runtime just stored is read back: while the files it was probed from
/// report what they reported when it was stored (and are files), its entry
/// is still good, so `get` hands the stored runtime out again.
pub proof fn lemma_stored_runtime_is_read_back(e: CacheEntryImpl, paths: Seq<Seq<char>>, metas: Seq<FileMeta>)
    requires
        stamp_views(e.executables@) == stamps_of(paths, metas),
        meta_of(metas, e.executable@) matches Some(m) && m.is_file,
        forall|k: int| 0 <= k < paths.len() ==> (meta_of(metas, #[trigger] paths[k]) matches Some(m) ==> m.is_file),
    ensures
        entry_still_valid(e, metas),
{
    assert forall|i: int| 0 <= i < e.executables@.len() implies stamp_valid(#[trigger] e.executables@[i], metas) by {
        assert(stamp_views(e.executables@)[i] == (e.executables@[i].0@, e.executables@[i].1, e.executables@[i].2));
        lemma_stamps_of_describe(paths, metas, i);
        let p = stamps_of(paths, metas)[i].0;
        let k = choose|k: int| 0 <= k < paths.len() && paths[k] == p;
        assert(meta_of(metas, paths[k]) matches Some(m) ==> m.is_file);
    }
}

/// The paths of stamps.
pub open spec fn stamped_paths(s: Seq<FileStamp>) -> Seq<Seq<char>> {
    s.map_values(|x: FileStamp| x.0@)
}

/// Whether a path is not among `known`.
pub open spec fn untracked(known: Seq<Seq<char>>) -> spec_fn(Seq<char>) -> bool {
    |p: Seq<char>| !known.contains(p)
}

/// A cache entry as its users see it: the cached runtime after a check of
/// the files it was probed from, storing a probed runtime, and tracking
/// more executables of it.
pub trait CacheEntry {
    fn get(
        &mut self,
        metas: &Vec<FileMeta>,
        from_disk: Option<(ResolvedRInstallation, Vec<FileStamp>)>,
    ) -> Option<ResolvedRInstallation>;

    fn store(&mut self, installation: ResolvedRInstallation, metas: &Vec<FileMeta>) -> Vec<FileStamp>;

    fn track_executables(&mut self, executables: &Vec<String>, metas: &Vec<FileMeta>);
}

impl CacheEntry for CacheEntryImpl {
    fn get(
        &mut self,
        metas: &Vec<FileMeta>,
        from_disk: Option<(ResolvedRInstallation, Vec<FileStamp>)>,
    ) -> Option<ResolvedRInstallation> {
        CacheEntryImpl::get(self, metas, from_disk)
    }

    fn store(&mut self, installation: ResolvedRInstallation, metas: &Vec<FileMeta>) -> Vec<FileStamp> {
        CacheEntryImpl::store(self, installation, metas)
    }

    fn track_executables(&mut self, executables: &Vec<String>, metas: &Vec<FileMeta>) {
        CacheEntryImpl::track_executables(self, executables, metas)
    }
}

/// A stamped file that can no longer be read spoils both copies of an
/// entry: what memory holds is dropped by `verify_in_memory_cache`, and a
/// cache file stamped with it may not be used.
pub proof fn law_missing_stamped_file_invalidates(
    e: CacheEntryImpl,
    installation: ResolvedRInstallation,
    stamps: Seq<FileStamp>,
    metas: Seq<FileMeta>,
    k: int,
    j: int,
)
    requires
        0 <= k < e.executables@.len(),
        meta_of(metas, e.executables@[k].0@) is None,
        0 <= j < stamps.len(),
        meta_of(metas, stamps[j].0@) is None,
    ensures
        !entry_still_valid(e, metas),
        !cache_file_usable(installation, stamps, e.executable@, metas),
{
    assert(!stamp_valid(e.executables@[k], metas));
    assert(!stamp_unchanged(stamps[j], metas));
}

/// When every stamped file is an unchanged file and the executable is a
/// file, the entry stays valid (and `verify_in_memory_cache` keeps it).
pub proof fn law_unchanged_files_keep_entry(e: CacheEntryImpl, metas: Seq<FileMeta>)
    requires
        forall|i: int| 0 <= i < e.executables@.len() ==> {
            let s = #[trigger] e.executables@[i];
            meta_of(metas, s.0@) matches Some(m) && m.is_file && m.modified == Some(s.1)
                && (s.2 is None || m.created == s.2)
        },
        meta_of(metas, e.executable@) matches Some(m) && m.is_file,
    ensures
        entry_still_valid(e, metas),
{
}

/// Whether a cache file's contents may be used for an executable: its
/// runtime lists the executable, and each stamped file is unchanged.
pub open spec fn cache_file_usable(
    installation: ResolvedRInstallation,
    stamps: Seq<FileStamp>,
    executable: Seq<char>,
    metas: Seq<FileMeta>,
) -> bool {
    &&& opt_views(installation.known_executables).contains(executable)
    &&& forall|i: int| 0 <= i < stamps.len() ==> stamp_unchanged(#[trigger] stamps[i], metas)
}

pub fn cache_file_is_usable(
    installation: &ResolvedRInstallation,
    stamps: &Vec<FileStamp>,
    executable: &str,
    metas: &Vec<FileMeta>,
) -> (r: bool)
    ensures
        r == cache_file_usable(*installation, stamps@, executable@, metas@),
{
    let listed = match &installation.known_executables {
        Some(v) => contains_path(v, executable),
        None => false,
    };
    if !listed {
        return false;
    }
    let mut i: usize = 0;
    while i < stamps.len()
        invariant
            i <= stamps.len(),
            forall|j: int| 0 <= j < i ==> stamp_unchanged(#[trigger] stamps@[j], metas@),
        decreases stamps.len() - i,
    {
        if !stamp_check(&stamps[i], metas, false) {
            return false;
        }
        i = i + 1;
    }
    true
}

/// The entries of the runtime cache and the directory it is mirrored in.
#[derive(Debug)]
pub struct CacheImpl {
    pub cache_dir: Option<String>,
    pub entries: Vec<CacheEntryImpl>,
}

impl CacheImpl {
    pub fn new(cache_dir: Option<String>) -> (r: CacheImpl)
        ensures
            r.cache_dir == cache_dir,
            r.entries@.len() == 0,
    {
        CacheImpl { cache_dir, entries: Vec::new() }
    }
}

pub fn get_cache_directory(cache: &CacheImpl) -> (r: Option<String>)
    ensures
        r == cache.cache_dir,
{
    crate::manager::clone_opt_string(&cache.cache_dir)
}

/// Sets the cache directory; a different directory drops every entry.
pub fn set_cache_directory(cache: &mut CacheImpl, cache_dir: String)
    ensures
        final(cache).cache_dir == Some(cache_dir),
        opt_view(old(cache).cache_dir) == Some(cache_dir@) ==> final(cache).entries@ == old(cache).entries@,
        opt_view(old(cache).cache_dir) != Some(cache_dir@) ==> final(cache).entries@.len() == 0,
{
    let same = match &cache.cache_dir {
        Some(d) => crate::path::path_eq(d.as_str(), cache_dir.as_str()),
        None => false,
    };
    if !same {
        cache.entries = Vec::new();
    }
    cache.cache_dir = Some(cache_dir);
}

/// Drops every entry; returns the directory whose contents are to be removed.
pub fn clear_cache(cache: &mut CacheImpl) -> (r: Option<String>)
    ensures
        final(cache).entries@.len() == 0,
        final(cache).cache_dir == old(cache).cache_dir,
        r == old(cache).cache_dir,
{
    cache.entries = Vec::new();
    crate::manager::clone_opt_string(&cache.cache_dir)
}

/// Whether some entry is for the executable.
pub open spec fn has_entry(entries: Seq<CacheEntryImpl>, executable: Seq<char>) -> bool {
    exists|i: int| 0 <= i < entries.len() && #[trigger] entries[i].executable@ == executable
}

/// A new entry for an executable.
pub open spec fn fresh_entry(e: CacheEntryImpl, cache_directory: Option<String>, executable: String) -> bool {
    &&& e.cache_directory == cache_directory
    &&& e.executable == executable
    &&& e.installation is None
    &&& e.executables@.len() == 0
}

/// The entry of an executable, made (with the current directory) when
/// there is none; returns its index.
pub fn create_cache(cache: &mut CacheImpl, executable: String) -> (r: usize)
    ensures
        r < final(cache).entries@.len(),
        final(cache).entries@[r as int].executable@ == executable@,
        final(cache).cache_dir == old(cache).cache_dir,
        has_entry(old(cache).entries@, executable@) ==> final(cache).entries@ == old(cache).entries@,
        !has_entry(old(cache).entries@, executable@) ==> final(cache).entries@.drop_last() == old(
            cache,
        ).entries@,
        !has_entry(old(cache).entries@, executable@) ==> fresh_entry(
            final(cache).entries@.last(),
            old(cache).cache_dir,
            executable,
        ),
{
    let mut i: usize = 0;
    while i < cache.entries.len()
        invariant
            i <= cache.entries.len(),
            forall|j: int| 0 <= j < i ==> cache.entries@[j].executable@ != executable@,
        decreases cache.entries.len() - i,
    {
        if crate::path::path_eq(cache.entries[i].executable.as_str(), executable.as_str()) {
            return i;
        }
        i = i + 1;
    }
    let dir = crate::manager::clone_opt_string(&cache.cache_dir);
    let ghost before = cache.entries@;
    cache.entries.push(CacheEntryImpl::create(dir, executable));
    assert(cache.entries@.drop_last() == before);
    cache.entries.len() - 1
}

/// The entries after `executables` were tracked for `executable`: its
/// entry (the one it had, else a new one at the end) gained the stamps of
/// the executables it did not track yet, and every other entry is as it was.
pub open spec fn tracked_in_cache(
    before: Seq<CacheEntryImpl>,
    after: Seq<CacheEntryImpl>,
    i: int,
    executable: Seq<char>,
    executables: Seq<Seq<char>>,
    metas: Seq<FileMeta>,
) -> bool {
    let prior = if i < before.len() {
        before[i].executables@
    } else {
        Seq::empty()
    };
    &&& 0 <= i < after.len()
    &&& after.len() == (if has_entry(before, executable) {
        before.len()
    } else {
        before.len() + 1
    })
    &&& has_entry(before, executable) ==> i < before.len()
    &&& after[i].executable@ == executable
    &&& stamp_views(after[i].executables@) == stamp_views(prior) + stamps_of(
        executables.filter(untracked(stamped_paths(prior))),
        metas,
    )
    &&& forall|j: int| 0 <= j < before.len() && j != i ==> #[trigger] after[j] == before[j]
}

/// The SHA-256 digest of a text's UTF-8 bytes, in lowercase hexadecimal.
pub uninterp spec fn sha256_hex(text: Seq<char>) -> Seq<char>;

/// Hashes the text's bytes with `sha2::Sha256` and formats the digest with
/// `{:x}`: 64 lowercase hexadecimal digits.
#[verifier::external_body]
fn sha256_hex_of(text: &str) -> (r: String)
    ensures
        r@ == sha256_hex(text@),
        r@.len() == 64,
{
    let mut hasher = sha2::Sha256::new();
    hasher.update(text.as_bytes());
    format!("{:x}", hasher.finalize())
}

/// The cache file of an executable: the first 16 hexadecimal digits of the
/// SHA-256 digest of its path, then `.5.json`, in the cache directory.
pub open spec fn cache_file_spec(cache_directory: Seq<char>, executable: Seq<char>) -> Seq<char> {
    join_spec(cache_directory, sha256_hex(executable).subrange(0, 16) + ".5.json"@)
}

pub fn generate_cache_file(cache_directory: &str, executable: &str) -> (r: String)
    ensures
        r@ == cache_file_spec(cache_directory@, executable@),
{
    let hex = sha256_hex_of(executable);
    let digits = chars_of(hex.as_str());
    let mut name = slice_chars(digits.as_slice(), 0, 16);
    push_str(&mut name, ".5.json");
    let file = string_of(name.as_slice());
    join(cache_directory, file.as_str())
}

} // verus!
