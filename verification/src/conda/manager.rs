//! The conda and mamba managers of a conda installation.

use vstd::prelude::*;
use crate::conda::utils::{
    conda_env_spec, creating_install_spec, get_conda_installation_used_to_create_conda_env,
    is_conda_env,
};
use crate::facts::{exists_in, FileFacts};
use crate::locator::{first_present, pick_first_present};
use crate::manager::{clone_opt_string, EnvManager, EnvManagerType};
use crate::path::{file_name, file_name_spec, join, join_spec, lemma_views_push, views};
use crate::r_installation::opt_view;
use crate::text::{ascii_lower, ascii_lower_chars, chars_of, starts_with_chars, starts_with_seq};

verus! {

broadcast use lemma_views_push;

/// A conda or mamba executable together with the installation it manages.
#[derive(Debug)]
pub struct CondaManager {
    pub executable: String,
    pub version: Option<String>,
    pub conda_dir: Option<String>,
    pub manager_type: EnvManagerType,
}

/// What `conda info --json` reports.
#[derive(Debug)]
pub struct CondaInfo {
    pub executable: String,
    pub envs: Vec<String>,
    pub conda_prefix: Option<String>,
    pub conda_version: String,
    pub root_prefix: Option<String>,
}

/// `rel/name` under `path` for each pair, in order.
pub open spec fn under(path: Seq<char>, rels: Seq<(Seq<char>, Seq<char>)>) -> Seq<Seq<char>>
    decreases rels.len(),
{
    if rels.len() == 0 {
        Seq::empty()
    } else {
        under(path, rels.drop_last()).push(join_spec(join_spec(path, rels.last().0), rels.last().1))
    }
}

/// Where the conda executable of an installation may be, in order.
pub open spec fn conda_rels(windows: bool) -> Seq<(Seq<char>, Seq<char>)> {
    if windows {
        seq![
            ("Scripts"@, "conda.exe"@),
            ("Scripts"@, "conda.bat"@),
            ("bin"@, "conda.exe"@),
            ("bin"@, "conda.bat"@),
            ("condabin"@, "conda.bat"@),
            ("condabin"@, "conda.exe"@),
        ]
    } else {
        seq![("bin"@, "conda"@), ("condabin"@, "conda"@)]
    }
}

/// Where the mamba executable of an installation may be, in order.
pub open spec fn mamba_rels(windows: bool) -> Seq<(Seq<char>, Seq<char>)> {
    if windows {
        seq![
            ("Scripts"@, "mamba.exe"@),
            ("Scripts"@, "mamba.bat"@),
            ("Scripts"@, "micromamba.exe"@),
            ("Scripts"@, "micromamba.bat"@),
            ("bin"@, "mamba.exe"@),
            ("bin"@, "mamba.bat"@),
            ("bin"@, "micromamba.exe"@),
            ("bin"@, "micromamba.bat"@),
            ("condabin"@, "mamba.bat"@),
            ("condabin"@, "mamba.exe"@),
            ("condabin"@, "micromamba.bat"@),
            ("condabin"@, "micromamba.exe"@),
        ]
    } else {
        seq![
            ("bin"@, "mamba"@),
            ("bin"@, "micromamba"@),
            ("condabin"@, "mamba"@),
            ("condabin"@, "micromamba"@),
        ]
    }
}

fn under_exec(path: &str, rels: &[(&str, &str)]) -> (r: Vec<String>)
    ensures
        views(r@) == under(path@, rels@.map_values(|p: (&str, &str)| (p.0@, p.1@))),
{
    let ghost rv = rels@.map_values(|p: (&str, &str)| (p.0@, p.1@));
    let mut out: Vec<String> = Vec::new();
    let mut i: usize = 0;
    while i < rels.len()
        invariant
            i <= rels.len(),
            rv == rels@.map_values(|p: (&str, &str)| (p.0@, p.1@)),
            views(out@) == under(path@, rv.subrange(0, i as int)),
        decreases rels.len() - i,
    {
        assert(rv.subrange(0, i + 1).drop_last() == rv.subrange(0, i as int));
        let d = join(path, rels[i].0);
        out.push(join(d.as_str(), rels[i].1));
        i = i + 1;
    }
    assert(rv.subrange(0, rels.len() as int) == rv);
    out
}

/// The candidate conda executables of an installation, for the caller to probe.
pub fn conda_executable_candidates(path: &str, windows: bool) -> (r: Vec<String>)
    ensures
        views(r@) == under(path@, conda_rels(windows)),
{
    if windows {
        let rels = [
            ("Scripts", "conda.exe"),
            ("Scripts", "conda.bat"),
            ("bin", "conda.exe"),
            ("bin", "conda.bat"),
            ("condabin", "conda.bat"),
            ("condabin", "conda.exe"),
        ];
        let r = under_exec(path, &rels);
        assert(rels@.map_values(|p: (&str, &str)| (p.0@, p.1@)) == conda_rels(windows));
        r
    } else {
        let rels = [("bin", "conda"), ("condabin", "conda")];
        let r = under_exec(path, &rels);
        assert(rels@.map_values(|p: (&str, &str)| (p.0@, p.1@)) == conda_rels(windows));
        r
    }
}

/// The candidate mamba executables of an installation, for the caller to probe.
pub fn mamba_executable_candidates(path: &str, windows: bool) -> (r: Vec<String>)
    ensures
        views(r@) == under(path@, mamba_rels(windows)),
{
    if windows {
        let rels = [
            ("Scripts", "mamba.exe"),
            ("Scripts", "mamba.bat"),
            ("Scripts", "micromamba.exe"),
            ("Scripts", "micromamba.bat"),
            ("bin", "mamba.exe"),
            ("bin", "mamba.bat"),
            ("bin", "micromamba.exe"),
            ("bin", "micromamba.bat"),
            ("condabin", "mamba.bat"),
            ("condabin", "mamba.exe"),
            ("condabin", "micromamba.bat"),
            ("condabin", "micromamba.exe"),
        ];
        let r = under_exec(path, &rels);
        assert(rels@.map_values(|p: (&str, &str)| (p.0@, p.1@)) == mamba_rels(windows));
        r
    } else {
        let rels = [
            ("bin", "mamba"),
            ("bin", "micromamba"),
            ("condabin", "mamba"),
            ("condabin", "micromamba"),
        ];
        let r = under_exec(path, &rels);
        assert(rels@.map_values(|p: (&str, &str)| (p.0@, p.1@)) == mamba_rels(windows));
        r
    }
}

/// The manager of an installation: the first existing candidate, of the given tool.
pub open spec fn manager_at(path: Seq<char>, candidates: Seq<Seq<char>>, f: FileFacts, tool: EnvManagerType, m: Option<CondaManager>) -> bool {
    match first_present(candidates, views(f.existing@)) {
        Some(exe) => m matches Some(x) && x.executable@ == exe && x.version is None && opt_view(
            x.conda_dir,
        ) == Some(path) && x.manager_type == tool,
        None => m is None,
    }
}

/// The conda manager of an installation, when a conda executable exists in it.
pub fn get_conda_manager(path: &str, windows: bool, facts: &FileFacts) -> (r: Option<CondaManager>)
    ensures
        manager_at(path@, under(path@, conda_rels(windows)), *facts, EnvManagerType::Conda, r),
{
    let c = conda_executable_candidates(path, windows);
    match pick_first_present(&c, &facts.existing) {
        Some(executable) => Some(
            CondaManager {
                executable,
                version: None,
                conda_dir: Some(path.to_string()),
                manager_type: EnvManagerType::Conda,
            },
        ),
        None => None,
    }
}

/// The mamba manager of an installation, when a mamba executable exists in it.
pub fn get_mamba_manager(path: &str, windows: bool, facts: &FileFacts) -> (r: Option<CondaManager>)
    ensures
        manager_at(path@, under(path@, mamba_rels(windows)), *facts, EnvManagerType::Mamba, r),
{
    let c = mamba_executable_candidates(path, windows);
    match pick_first_present(&c, &facts.existing) {
        Some(executable) => Some(
            CondaManager {
                executable,
                version: None,
                conda_dir: Some(path.to_string()),
                manager_type: EnvManagerType::Mamba,
            },
        ),
        None => None,
    }
}

/// Whether an executable's lowercased name starts with `mamba` or `micromamba`.
pub open spec fn mamba_name_spec(p: Seq<char>) -> bool {
    match file_name_spec(p) {
        Some(n) => starts_with_seq(ascii_lower(n), "mamba"@) || starts_with_seq(
            ascii_lower(n),
            "micromamba"@,
        ),
        None => false,
    }
}

pub fn is_mamba_executable(executable: &str) -> (r: bool)
    ensures
        r == mamba_name_spec(executable@),
{
    match file_name(executable) {
        Some(n) => {
            let v = chars_of(n.as_str());
            let l = ascii_lower_chars(v.as_slice());
            let a = chars_of("mamba");
            let b = chars_of("micromamba");
            starts_with_chars(l.as_slice(), a.as_slice()) || starts_with_chars(
                l.as_slice(),
                b.as_slice(),
            )
        },
        None => false,
    }
}

impl CondaManager {
    /// The manager as reported.
    pub fn to_manager(&self) -> (r: EnvManager)
        ensures
            r == (EnvManager {
                executable: self.executable,
                version: self.version,
                tool: self.manager_type,
            }),
    {
        EnvManager {
            tool: self.manager_type,
            executable: self.executable.clone(),
            version: clone_opt_string(&self.version),
        }
    }

    /// The manager that `conda info` describes: its version unless empty,
    /// and the root prefix, else the active prefix, as its installation.
    pub fn from_info(executable: &str, info: &CondaInfo, manager_type: EnvManagerType) -> (r: Option<
        CondaManager,
    >)
        ensures
            r matches Some(m) && m.executable@ == executable@ && m.manager_type == manager_type
                && m.version == (if info.conda_version@.len() == 0 {
                None
            } else {
                Some(info.conda_version)
            }) && m.conda_dir == (if info.root_prefix is Some {
                info.root_prefix
            } else {
                info.conda_prefix
            }),
    {
        Some(
            CondaManager {
                executable: executable.to_string(),
                version: if info.conda_version.unicode_len() == 0 {
                    None
                } else {
                    Some(info.conda_version.clone())
                },
                conda_dir: match &info.root_prefix {
                    Some(r) => Some(r.clone()),
                    None => clone_opt_string(&info.conda_prefix),
                },
                manager_type,
            },
        )
    }

    /// The manager of the conda environment at `path`: conda, else mamba,
    /// of the installation that created it (or of the path itself when it
    /// is an installation).
    pub fn from(
        path: &str,
        windows: bool,
        facts: &FileFacts,
        history: &Option<String>,
        resolved: &Option<String>,
    ) -> (r: Option<CondaManager>)
        ensures
            !conda_env_spec(path@, *facts) ==> r is None,
            conda_env_spec(path@, *facts) ==> match creating_install_spec(
                path@,
                *facts,
                opt_view(*history),
                opt_view(*resolved),
            ) {
                None => r is None,
                Some(dir) => if first_present(under(dir, conda_rels(windows)), views(facts.existing@))
                    is Some {
                    manager_at(dir, under(dir, conda_rels(windows)), *facts, EnvManagerType::Conda, r)
                } else {
                    manager_at(dir, under(dir, mamba_rels(windows)), *facts, EnvManagerType::Mamba, r)
                },
            },
    {
        if !is_conda_env(path, facts) {
            return None;
        }
        let dir = match get_conda_installation_used_to_create_conda_env(path, facts, history, resolved) {
            Some(d) => d,
            None => return None,
        };
        match get_conda_manager(dir.as_str(), windows, facts) {
            Some(m) => Some(m),
            None => get_mamba_manager(dir.as_str(), windows, facts),
        }
    }
}

impl CondaInfo {
    /// The information as parsed from `conda info --json`; missing lists and
    /// versions are empty.
    pub fn from(
        executable: String,
        envs: Option<Vec<String>>,
        conda_prefix: Option<String>,
        conda_version: Option<String>,
        root_prefix: Option<String>,
    ) -> (r: CondaInfo)
        ensures
            r.executable == executable,
            r.envs@ == (match envs {
                Some(e) => e@,
                None => Seq::empty(),
            }),
            r.conda_prefix == conda_prefix,
            r.conda_version@ == (match conda_version {
                Some(v) => v@,
                None => Seq::empty(),
            }),
            r.root_prefix == root_prefix,
    {
        CondaInfo {
            executable,
            envs: match envs {
                Some(e) => e,
                None => Vec::new(),
            },
            conda_prefix,
            conda_version: match conda_version {
                Some(v) => v,
                None => String::new(),
            },
            root_prefix,
        }
    }

    /// Every environment conda knows: the listed ones, the root prefix and
    /// the active prefix; sorted and deduplicated.
    pub fn all_envs(&self) -> (r: Vec<String>)
        ensures
            crate::path::is_sorted_set_of(
                views(r@),
                views(self.envs@) + (match self.root_prefix {
                    Some(p) => seq![p@],
                    None => Seq::empty(),
                }) + (match self.conda_prefix {
                    Some(p) => seq![p@],
                    None => Seq::empty(),
                }),
            ),
    {
        let mut envs = crate::r_installation::clone_strings(&self.envs);
        match &self.root_prefix {
            Some(p) => envs.push(p.clone()),
            None => {},
        }
        match &self.conda_prefix {
            Some(p) => envs.push(p.clone()),
            None => {},
        }
        assert(views(envs@) == views(self.envs@) + (match self.root_prefix {
            Some(p) => seq![p@],
            None => Seq::<Seq<char>>::empty(),
        }) + (match self.conda_prefix {
            Some(p) => seq![p@],
            None => Seq::<Seq<char>>::empty(),
        }));
        crate::path::sort_dedup_paths(envs)
    }
}

/// The names a conda executable goes by on the platform.
pub open spec fn conda_bin_names(windows: bool) -> Seq<Seq<char>> {
    if windows {
        seq!["conda.exe"@, "conda.bat"@]
    } else {
        seq!["conda"@]
    }
}

/// The names a mamba executable goes by on the platform.
pub open spec fn mamba_bin_names(windows: bool) -> Seq<Seq<char>> {
    if windows {
        seq!["mamba.exe"@, "mamba.bat"@, "micromamba.exe"@, "micromamba.bat"@]
    } else {
        seq!["mamba"@, "micromamba"@]
    }
}

/// Each name in each directory, directories outermost.
pub open spec fn names_in(dirs: Seq<Seq<char>>, names: Seq<Seq<char>>) -> Seq<Seq<char>>
    decreases dirs.len(),
{
    if dirs.len() == 0 {
        Seq::empty()
    } else {
        names_in(dirs.drop_last(), names) + names.map_values(|n: Seq<char>| join_spec(dirs.last(), n))
    }
}

pub(crate) fn names_in_exec(dirs: &Vec<String>, names: &[&str]) -> (r: Vec<String>)
    ensures
        views(r@) == names_in(views(dirs@), names@.map_values(|n: &str| n@)),
{
    let ghost nv = names@.map_values(|n: &str| n@);
    let mut out: Vec<String> = Vec::new();
    let mut i: usize = 0;
    while i < dirs.len()
        invariant
            i <= dirs.len(),
            nv == names@.map_values(|n: &str| n@),
            views(out@) == names_in(views(dirs@).subrange(0, i as int), nv),
        decreases dirs.len() - i,
    {
        let ghost base = views(out@);
        assert(views(dirs@).subrange(0, i + 1).drop_last() == views(dirs@).subrange(0, i as int));
        let mut k: usize = 0;
        while k < names.len()
            invariant
                k <= names.len(),
                i < dirs.len(),
                nv == names@.map_values(|n: &str| n@),
                views(out@) == base + nv.subrange(0, k as int).map_values(
                    |n: Seq<char>| join_spec(dirs@[i as int]@, n),
                ),
            decreases names.len() - k,
        {
            out.push(join(dirs[i].as_str(), names[k]));
            assert(nv.subrange(0, k + 1).map_values(|n: Seq<char>| join_spec(dirs@[i as int]@, n))
                == nv.subrange(0, k as int).map_values(|n: Seq<char>| join_spec(dirs@[i as int]@, n)).push(
                join_spec(dirs@[i as int]@, nv[k as int]),
            ));
            k = k + 1;
        }
        assert(nv.subrange(0, names.len() as int) == nv);
        assert(views(dirs@).subrange(0, i + 1).last() == dirs@[i as int]@);
        i = i + 1;
    }
    assert(views(dirs@).subrange(0, dirs.len() as int) == views(dirs@));
    out
}

/// The candidate conda (or mamba) binaries on the `PATH`, in order, for the
/// caller to probe.
pub fn manager_binary_candidates(path_dirs: &Vec<String>, windows: bool, mamba: bool) -> (r: Vec<String>)
    ensures
        views(r@) == names_in(
            views(path_dirs@),
            if mamba {
                mamba_bin_names(windows)
            } else {
                conda_bin_names(windows)
            },
        ),
{
    if mamba {
        if windows {
            let n = ["mamba.exe", "mamba.bat", "micromamba.exe", "micromamba.bat"];
            assert(n@.map_values(|x: &str| x@) == mamba_bin_names(windows));
            names_in_exec(path_dirs, &n)
        } else {
            let n = ["mamba", "micromamba"];
            assert(n@.map_values(|x: &str| x@) == mamba_bin_names(windows));
            names_in_exec(path_dirs, &n)
        }
    } else {
        if windows {
            let n = ["conda.exe", "conda.bat"];
            assert(n@.map_values(|x: &str| x@) == conda_bin_names(windows));
            names_in_exec(path_dirs, &n)
        } else {
            let n = ["conda"];
            assert(n@.map_values(|x: &str| x@) == conda_bin_names(windows));
            names_in_exec(path_dirs, &n)
        }
    }
}

} // verus!
