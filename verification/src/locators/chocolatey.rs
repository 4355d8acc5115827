//! R installed with Chocolatey on Windows.

use vstd::prelude::*;
use crate::environment::{env_get, Environment};
use crate::locator::{
    arch_or_infer, arch_or_inferred, classified, classify, Host, Locator, LocatorKind,
    RefreshStatePersistence,
};
use crate::manager::{clone_opt_string, is_manager, EnvManager, EnvManagerType};
use crate::path::{
    file_name, file_name_spec, is_sorted_set_of, join, join_spec, lemma_views_push, path_starts_with,
    sort_dedup_paths, starts_with, views,
};
use crate::r_installation::{clone_opt_strings, opt_view, opt_views, RInstallation, RInstallationKind};
use crate::renv::REnv;
use crate::text::{ascii_lower, ascii_lower_chars, chars_of, contains_chars, contains_seq, string_of};

verus! {

broadcast use lemma_views_push;

/// Chocolatey's default installation directory.
pub open spec fn default_root() -> Seq<char> {
    "C:\\ProgramData\\chocolatey"@
}

/// Chocolatey's root: `ChocolateyInstall` when it is a directory, else the
/// default directory when it exists.
pub fn chocolatey_install_root(environment: &Environment, install_var_is_dir: bool, default_is_dir: bool) -> (r:
    Option<String>)
    ensures
        opt_view(r) == (match env_get(environment.variables@, "ChocolateyInstall"@) {
            Some(v) if install_var_is_dir => Some(v),
            _ => if default_is_dir {
                Some(default_root())
            } else {
                None
            },
        }),
{
    match environment.get_env_var("ChocolateyInstall") {
        Some(v) => if install_var_is_dir {
            return Some(v);
        },
        None => {},
    }
    if default_is_dir {
        Some("C:\\ProgramData\\chocolatey".to_string())
    } else {
        None
    }
}

/// `choco.exe` in the root's `bin` directory, when it exists.
pub fn find_choco_manager(install_root: &Option<String>, choco_exe_exists: bool) -> (r: Option<EnvManager>)
    ensures
        match install_root {
            Some(root) if choco_exe_exists => is_manager(
                r,
                join_spec(join_spec(root@, "bin"@), "choco.exe"@),
                EnvManagerType::Chocolatey,
            ),
            _ => r is None,
        },
{
    let root = match install_root {
        Some(r) => r,
        None => return None,
    };
    if !choco_exe_exists {
        return None;
    }
    let bin = join(root.as_str(), "bin");
    Some(EnvManager::new(join(bin.as_str(), "choco.exe"), EnvManagerType::Chocolatey, None))
}

/// Whether a path (ASCII-lowercased) lies in a Chocolatey tree.
pub open spec fn chocolatey_path_spec(p: Seq<char>) -> bool {
    let l = ascii_lower(p);
    contains_seq(l, "\\chocolatey\\"@) || contains_seq(l, "\\chocolatey\\shims\\"@) || contains_seq(
        l,
        "\\chocolatey\\lib\\"@,
    )
}

pub fn looks_like_chocolatey_path(path: &str) -> (r: bool)
    ensures
        r == chocolatey_path_spec(path@),
{
    let v = chars_of(path);
    let l = ascii_lower_chars(v.as_slice());
    let a = chars_of("\\chocolatey\\");
    let b = chars_of("\\chocolatey\\shims\\");
    let c = chars_of("\\chocolatey\\lib\\");
    contains_chars(l.as_slice(), a.as_slice()) || contains_chars(l.as_slice(), b.as_slice())
        || contains_chars(l.as_slice(), c.as_slice())
}

/// Package directory names that hold R.
pub open spec fn is_r_package_name(name: Seq<char>) -> bool {
    name == "r"@ || name == "r.project"@ || name == "r.portable"@ || name == "r-project"@
}

/// `tools` in each package directory whose lowercased name is an R package.
pub open spec fn r_tools_dirs(packages: Seq<Seq<char>>) -> Seq<Seq<char>>
    decreases packages.len(),
{
    if packages.len() == 0 {
        Seq::empty()
    } else {
        let rest = r_tools_dirs(packages.drop_last());
        let p = packages.last();
        if file_name_spec(p) matches Some(n) && is_r_package_name(ascii_lower(n)) {
            rest.push(join_spec(p, "tools"@))
        } else {
            rest
        }
    }
}

fn eq_lit(a: &[char], lit: &str) -> (r: bool)
    ensures
        r == (a@ == lit@),
{
    let l = chars_of(lit);
    crate::text::chars_eq(a, l.as_slice())
}

/// The `tools` directories of the R packages among the entries of `<root>/lib`.
pub fn chocolatey_r_tools_dirs(packages: &Vec<String>) -> (r: Vec<String>)
    ensures
        views(r@) == r_tools_dirs(views(packages@)),
{
    let mut out: Vec<String> = Vec::new();
    let mut i: usize = 0;
    while i < packages.len()
        invariant
            i <= packages.len(),
            views(out@) == r_tools_dirs(views(packages@).subrange(0, i as int)),
        decreases packages.len() - i,
    {
        assert(views(packages@).subrange(0, i + 1).drop_last() == views(packages@).subrange(
            0,
            i as int,
        ));
        match file_name(packages[i].as_str()) {
            Some(n) => {
                let nv = chars_of(n.as_str());
                let l = ascii_lower_chars(nv.as_slice());
                if eq_lit(l.as_slice(), "r") || eq_lit(l.as_slice(), "r.project") || eq_lit(
                    l.as_slice(),
                    "r.portable",
                ) || eq_lit(l.as_slice(), "r-project") {
                    out.push(join(packages[i].as_str(), "tools"));
                }
            },
            None => {},
        }
        i = i + 1;
    }
    assert(views(packages@).subrange(0, packages.len() as int) == views(packages@));
    out
}

/// The directories to search: `bin` and `shims` under the root, the R
/// packages' `tools` directories and the version directories in them;
/// sorted and deduplicated.
pub fn chocolatey_r_search_roots(root: &str, tools_dirs: &Vec<String>, version_dirs: &Vec<String>) -> (r:
    Vec<String>)
    ensures
        is_sorted_set_of(
            views(r@),
            seq![join_spec(root@, "bin"@), join_spec(root@, "shims"@)] + views(tools_dirs@) + views(
                version_dirs@,
            ),
        ),
{
    let mut roots: Vec<String> = Vec::new();
    roots.push(join(root, "bin"));
    roots.push(join(root, "shims"));
    let ghost a = views(roots@);
    let mut i: usize = 0;
    while i < tools_dirs.len()
        invariant
            i <= tools_dirs.len(),
            views(roots@) == a + views(tools_dirs@).subrange(0, i as int),
        decreases tools_dirs.len() - i,
    {
        roots.push(tools_dirs[i].clone());
        i = i + 1;
    }
    assert(views(tools_dirs@).subrange(0, tools_dirs.len() as int) == views(tools_dirs@));
    let ghost b = views(roots@);
    let mut j: usize = 0;
    while j < version_dirs.len()
        invariant
            j <= version_dirs.len(),
            views(roots@) == b + views(version_dirs@).subrange(0, j as int),
        decreases version_dirs.len() - j,
    {
        roots.push(version_dirs[j].clone());
        j = j + 1;
    }
    assert(views(version_dirs@).subrange(0, version_dirs.len() as int) == views(version_dirs@));
    assert(views(roots@) == seq![join_spec(root@, "bin"@), join_spec(root@, "shims"@)] + views(
        tools_dirs@,
    ) + views(version_dirs@));
    sort_dedup_paths(roots)
}

/// The Chocolatey locator.
#[derive(Debug)]
pub struct Chocolatey {
    pub install_root: Option<String>,
    pub shims_dir: Option<String>,
    pub manager: Option<EnvManager>,
}

impl Chocolatey {
    /// The locator for an environment, given whether `ChocolateyInstall`
    /// and the default root are directories and whether `choco.exe` exists.
    pub fn from(
        environment: &Environment,
        install_var_is_dir: bool,
        default_is_dir: bool,
        choco_exe_exists: bool,
    ) -> (r: Chocolatey)
        ensures
            opt_view(r.install_root) == (match env_get(environment.variables@, "ChocolateyInstall"@) {
                Some(v) if install_var_is_dir => Some(v),
                _ => if default_is_dir {
                    Some(default_root())
                } else {
                    None
                },
            }),
            opt_view(r.shims_dir) == (match r.install_root {
                Some(root) => Some(join_spec(root@, "bin"@)),
                None => None,
            }),
            match r.install_root {
                Some(root) if choco_exe_exists => is_manager(
                    r.manager,
                    join_spec(join_spec(root@, "bin"@), "choco.exe"@),
                    EnvManagerType::Chocolatey,
                ),
                _ => r.manager is None,
            },
    {
        let install_root = chocolatey_install_root(environment, install_var_is_dir, default_is_dir);
        let shims_dir = match &install_root {
            Some(root) => Some(join(root.as_str(), "bin")),
            None => None,
        };
        let manager = find_choco_manager(&install_root, choco_exe_exists);
        Chocolatey { install_root, shims_dir, manager }
    }

    /// Classifies a versioned runtime on Windows whose executable, home or a
    /// known executable lies under Chocolatey's root.
    pub fn try_from(&self, env: &REnv, host: Host) -> (r: Option<RInstallation>)
        ensures
            r is Some <==> (host.windows && env.version is Some && env.home is Some
                && self.install_root is Some && ({
                let root = self.install_root.unwrap()@;
                path_starts_with(env.executable@, root) || path_starts_with(env.home.unwrap()@, root)
                    || exists|k: int|
                    0 <= k < opt_views(env.known_executables).len() && path_starts_with(
                        #[trigger] opt_views(env.known_executables)[k],
                        root,
                    )
            })),
            r matches Some(i) ==> classified(
                i,
                RInstallationKind::Chocolatey,
                Some("Chocolatey R"@),
                None,
                env.executable,
                env.home,
                env.version,
                Some(arch_or_inferred(env.arch, env.executable@, host.arch)),
                self.manager,
                match env.known_executables {
                    Some(k) => Some(views(k@)),
                    None => None,
                },
                match env.symlinks {
                    Some(s) => Some(views(s@)),
                    None => None,
                },
                None,
                None,
                host.windows,
            ),
    {
        if !host.windows || env.version.is_none() {
            return None;
        }
        let home = match &env.home {
            Some(h) => h.clone(),
            None => return None,
        };
        let root = match &self.install_root {
            Some(r) => r,
            None => return None,
        };
        let known_within = match &env.known_executables {
            Some(k) => {
                let w = crate::locator::any_within(k, root.as_str());
                assert(w == exists|j: int|
                    0 <= j < opt_views(env.known_executables).len() && path_starts_with(
                        #[trigger] opt_views(env.known_executables)[j],
                        root@,
                    )) by {
                    if w {
                        let j = choose|j: int| 0 <= j < k@.len() && path_starts_with(#[trigger] k@[j]@, root@);
                        assert(opt_views(env.known_executables)[j] == k@[j]@);
                    }
                    if exists|j: int|
                        0 <= j < opt_views(env.known_executables).len() && path_starts_with(
                            #[trigger] opt_views(env.known_executables)[j],
                            root@,
                        ) {
                        let j = choose|j: int|
                            0 <= j < opt_views(env.known_executables).len() && path_starts_with(
                                #[trigger] opt_views(env.known_executables)[j],
                                root@,
                            );
                        assert(path_starts_with(k@[j]@, root@));
                    }
                }
                w
            },
            None => false,
        };
        let owned = starts_with(env.executable.as_str(), root.as_str()) || starts_with(
            home.as_str(),
            root.as_str(),
        ) || known_within;
        if !owned {
            return None;
        }
        let arch = arch_or_infer(env.arch, env.executable.as_str(), host.arch);
        Some(
            classify(
                RInstallationKind::Chocolatey,
                Some("Chocolatey R".to_string()),
                None,
                env.executable.clone(),
                Some(home),
                clone_opt_string(&env.version),
                Some(arch),
                crate::manager::clone_opt_manager(&self.manager),
                clone_opt_strings(&env.known_executables),
                clone_opt_strings(&env.symlinks),
                None,
                None,
                host.windows,
            ),
        )
    }
}

impl Locator for Chocolatey {
    fn get_kind(&self) -> (r: LocatorKind)
        ensures
            r == LocatorKind::Chocolatey,
    {
        LocatorKind::Chocolatey
    }

    /// The locator keeps no state between requests.
    fn refresh_state(&self) -> (r: RefreshStatePersistence)
        ensures
            r == RefreshStatePersistence::Stateless,
    {
        RefreshStatePersistence::Stateless
    }

    fn supported_categories(&self) -> (r: Vec<RInstallationKind>)
        ensures
            r@ == seq![RInstallationKind::Chocolatey],
    {
        let mut v: Vec<RInstallationKind> = Vec::new();
        v.push(RInstallationKind::Chocolatey);
        v
    }
}

} // verus!
