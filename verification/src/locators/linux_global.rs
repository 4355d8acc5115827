//! R installed system-wide on Linux: standard bin directories and server
//! library trees such as `/opt/R/<version>`.

use vstd::prelude::*;
use crate::cache::LocatorCache;
use crate::locator::{
    arch_or_infer, arch_or_inferred, classified, classify, Host, Locator, LocatorKind,
    RefreshStatePersistence,
};
use crate::path::{
    is_sorted_set_of, join, join_spec, lemma_views_push, parent, parent_spec, sort_dedup_paths, strip_seps,
    strip_seps_exec, views,
};
use crate::r_installation::{clone_opt_strings, opt_views, same_installation, RInstallation, RInstallationKind};
use crate::renv::{homebrew_path_spec, looks_like_homebrew_path, REnv};
use crate::text::{chars_eq, chars_of, starts_with_chars, starts_with_seq, slice_chars};

verus! {

/// Standard system bin directories.
pub open spec fn system_bins() -> Seq<Seq<char>> {
    seq!["/bin"@, "/usr/bin"@, "/usr/local/bin"@, "/opt/bin"@]
}

/// Server library directories; each may hold per-version subdirectories.
pub open spec fn server_prefixes() -> Seq<Seq<char>> {
    seq![
        "/usr/lib/R"@,
        "/usr/lib64/R"@,
        "/usr/local/lib/R"@,
        "/usr/local/lib64/R"@,
        "/opt/local/lib/R"@,
        "/opt/local/lib64/R"@,
        "/opt/local/R"@,
        "/opt/R"@,
    ]
}

/// A standard bin directory (compared as a path, trailing separators
/// ignored), or a path whose text starts with a server library directory.
pub open spec fn is_global_bin_spec(p: Seq<char>) -> bool {
    (exists|k: int| 0 <= k < 4 && strip_seps(p) == #[trigger] system_bins()[k]) || (exists|k: int|
        0 <= k < 8 && starts_with_seq(p, #[trigger] server_prefixes()[k]))
}

/// Whether a directory holds a system-wide R.
pub fn is_global_bin(path: &str) -> (r: bool)
    ensures
        r == is_global_bin_spec(path@),
{
    let v = chars_of(path);
    let end = strip_seps_exec(v.as_slice());
    let t = slice_chars(v.as_slice(), 0, end);
    let bins: [&str; 4] = ["/bin", "/usr/bin", "/usr/local/bin", "/opt/bin"];
    let ghost sb = system_bins();
    assert(forall|k: int| 0 <= k < 4 ==> #[trigger] bins@[k]@ == sb[k]);
    let mut i: usize = 0;
    while i < 4
        invariant
            i <= 4,
            t@ == strip_seps(path@),
            sb == system_bins(),
            forall|k: int| 0 <= k < 4 ==> #[trigger] bins@[k]@ == sb[k],
            forall|k: int| 0 <= k < i ==> strip_seps(path@) != #[trigger] sb[k],
        decreases 4 - i,
    {
        let b = chars_of(bins[i]);
        if chars_eq(t.as_slice(), b.as_slice()) {
            return true;
        }
        i = i + 1;
    }
    let prefixes: [&str; 8] = [
        "/usr/lib/R",
        "/usr/lib64/R",
        "/usr/local/lib/R",
        "/usr/local/lib64/R",
        "/opt/local/lib/R",
        "/opt/local/lib64/R",
        "/opt/local/R",
        "/opt/R",
    ];
    let ghost sp = server_prefixes();
    assert(forall|k: int| 0 <= k < 8 ==> #[trigger] prefixes@[k]@ == sp[k]);
    let mut j: usize = 0;
    while j < 8
        invariant
            j <= 8,
            v@ == path@,
            sp == server_prefixes(),
            forall|k: int| 0 <= k < 8 ==> #[trigger] prefixes@[k]@ == sp[k],
            forall|k: int| 0 <= k < j ==> !starts_with_seq(path@, #[trigger] sp[k]),
        decreases 8 - j,
    {
        let p = chars_of(prefixes[j]);
        if starts_with_chars(v.as_slice(), p.as_slice()) {
            return true;
        }
        j = j + 1;
    }
    false
}

/// The server library directories, in order.
pub fn server_library_dirs() -> (r: Vec<String>)
    ensures
        views(r@) == server_prefixes(),
{
    let mut v: Vec<String> = Vec::new();
    v.push("/usr/lib/R".to_string());
    v.push("/usr/lib64/R".to_string());
    v.push("/usr/local/lib/R".to_string());
    v.push("/usr/local/lib64/R".to_string());
    v.push("/opt/local/lib/R".to_string());
    v.push("/opt/local/lib64/R".to_string());
    v.push("/opt/local/R".to_string());
    v.push("/opt/R".to_string());
    assert(views(v@) =~= server_prefixes());
    v
}

/// `bin` in each directory, in order.
pub open spec fn bins_of(dirs: Seq<Seq<char>>) -> Seq<Seq<char>>
    decreases dirs.len(),
{
    if dirs.len() == 0 {
        Seq::empty()
    } else {
        bins_of(dirs.drop_last()).push(join_spec(dirs.last(), "bin"@))
    }
}

/// `bin` and `lib/R/bin` in each version directory, in order.
pub open spec fn version_bins(dirs: Seq<Seq<char>>) -> Seq<Seq<char>>
    decreases dirs.len(),
{
    if dirs.len() == 0 {
        Seq::empty()
    } else {
        version_bins(dirs.drop_last()).push(join_spec(dirs.last(), "bin"@)).push(
            join_spec(join_spec(join_spec(dirs.last(), "lib"@), "R"@), "bin"@),
        )
    }
}

/// The bin directories a system-wide search scans: the standard ones, the
/// `bin` of each server library directory that exists, and `bin` and
/// `lib/R/bin` of each version directory under those.
pub open spec fn scan_dirs_spec(server_dirs: Seq<Seq<char>>, version_dirs: Seq<Seq<char>>) -> Seq<Seq<char>> {
    system_bins() + bins_of(server_dirs) + version_bins(version_dirs)
}

/// The directories to scan, sorted and deduplicated (`server_dirs`: the
/// server library directories that are directories; `version_dirs`: the
/// directories inside them).
pub fn global_scan_dirs(server_dirs: &Vec<String>, version_dirs: &Vec<String>) -> (r: Vec<String>)
    ensures
        is_sorted_set_of(views(r@), scan_dirs_spec(views(server_dirs@), views(version_dirs@))),
{
    broadcast use lemma_views_push;

    let mut all: Vec<String> = Vec::new();
    all.push("/bin".to_string());
    all.push("/usr/bin".to_string());
    all.push("/usr/local/bin".to_string());
    all.push("/opt/bin".to_string());
    assert(views(all@) =~= system_bins());
    let mut i: usize = 0;
    while i < server_dirs.len()
        invariant
            i <= server_dirs.len(),
            views(all@) == system_bins() + bins_of(views(server_dirs@).subrange(0, i as int)),
        decreases server_dirs.len() - i,
    {
        let ghost pre = views(server_dirs@).subrange(0, i as int);
        let ghost cur = views(server_dirs@).subrange(0, i + 1);
        assert(cur.drop_last() == pre);
        assert(cur.last() == server_dirs@[i as int]@);
        let ghost before = views(all@);
        all.push(join(server_dirs[i].as_str(), "bin"));
        assert(views(all@) == before.push(join_spec(server_dirs@[i as int]@, "bin"@)));
        assert(system_bins() + bins_of(cur) =~= (system_bins() + bins_of(pre)).push(
            join_spec(server_dirs@[i as int]@, "bin"@),
        ));
        i = i + 1;
    }
    assert(views(server_dirs@).subrange(0, server_dirs.len() as int) == views(server_dirs@));
    let ghost base = views(all@);
    let mut j: usize = 0;
    while j < version_dirs.len()
        invariant
            j <= version_dirs.len(),
            base == system_bins() + bins_of(views(server_dirs@)),
            views(all@) == base + version_bins(views(version_dirs@).subrange(0, j as int)),
        decreases version_dirs.len() - j,
    {
        let ghost pre = views(version_dirs@).subrange(0, j as int);
        let ghost cur = views(version_dirs@).subrange(0, j + 1);
        assert(cur.drop_last() == pre);
        assert(cur.last() == version_dirs@[j as int]@);
        let d = version_dirs[j].as_str();
        let ghost before = views(all@);
        let b = join(d, "bin");
        let lib = join(d, "lib");
        let lib_r = join(lib.as_str(), "R");
        let lb = join(lib_r.as_str(), "bin");
        all.push(b);
        all.push(lb);
        assert(views(all@) == before.push(b@).push(lb@));
        assert(base + version_bins(cur) =~= (base + version_bins(pre)).push(b@).push(lb@));
        j = j + 1;
    }
    assert(views(version_dirs@).subrange(0, version_dirs.len() as int) == views(version_dirs@));
    sort_dedup_paths(all)
}

/// The system-wide R locator, with the installations it has reported.
#[derive(Debug)]
pub struct LinuxGlobalR {
    pub reported_executables: LocatorCache,
}

impl LinuxGlobalR {
    pub fn new() -> (r: LinuxGlobalR)
        ensures
            r.reported_executables.view() == Map::<Seq<char>, RInstallation>::empty(),
    {
        LinuxGlobalR { reported_executables: LocatorCache::new() }
    }

    /// Classifies a runtime whose executable sits in a global bin directory
    /// and is not Homebrew's; an installation already reported for the
    /// executable is returned as reported.
    pub fn try_from(&self, env: &REnv, host: Host) -> (r: Option<RInstallation>)
        ensures
            r is Some <==> (!host.macos && !host.windows && env.version is Some && parent_spec(
                env.executable@,
            ) is Some && is_global_bin_spec(parent_spec(env.executable@).unwrap())
                && !homebrew_path_spec(env.executable@)),
            r matches Some(i) ==> if self.reported_executables.view().dom().contains(
                env.executable@,
            ) {
                same_installation(i, self.reported_executables.view()[env.executable@])
            } else {
                classified(
                    i,
                    RInstallationKind::LinuxGlobal,
                    Some("System R"@),
                    None,
                    env.executable,
                    env.home,
                    env.version,
                    Some(arch_or_inferred(env.arch, env.executable@, host.arch)),
                    None,
                    match env.known_executables {
                        Some(k) => Some(views(k@)),
                        None => None,
                    },
                    match env.symlinks {
                        Some(s) => Some(views(s@)),
                        None => None,
                    },
                    None,
                    None,
                    host.windows,
                )
            },
    {
        if host.macos || host.windows {
            return None;
        }
        if env.version.is_none() {
            return None;
        }
        let p = match parent(env.executable.as_str()) {
            Some(p) => p,
            None => return None,
        };
        if !is_global_bin(p.as_str()) || looks_like_homebrew_path(env.executable.as_str()) {
            return None;
        }
        match self.reported_executables.get(env.executable.as_str()) {
            Some(i) => Some(i),
            None => {
                let arch = arch_or_infer(env.arch, env.executable.as_str(), host.arch);
                Some(
                    classify(
                        RInstallationKind::LinuxGlobal,
                        Some("System R".to_string()),
                        None,
                        env.executable.clone(),
                        crate::manager::clone_opt_string(&env.home),
                        crate::manager::clone_opt_string(&env.version),
                        Some(arch),
                        None,
                        clone_opt_strings(&env.known_executables),
                        clone_opt_strings(&env.symlinks),
                        None,
                        None,
                        host.windows,
                    ),
                )
            },
        }
    }
}

impl Locator for LinuxGlobalR {
    fn get_kind(&self) -> (r: LocatorKind)
        ensures
            r == LocatorKind::LinuxGlobal,
    {
        LocatorKind::LinuxGlobal
    }

    /// The locator keeps a cache that later requests rebuild on demand.
    fn refresh_state(&self) -> (r: RefreshStatePersistence)
        ensures
            r == RefreshStatePersistence::SelfHydratingCache,
    {
        RefreshStatePersistence::SelfHydratingCache
    }

    fn supported_categories(&self) -> (r: Vec<RInstallationKind>)
        ensures
            r@ == seq![RInstallationKind::LinuxGlobal],
    {
        let mut v: Vec<RInstallationKind> = Vec::new();
        v.push(RInstallationKind::LinuxGlobal);
        v
    }
}

} // verus!
