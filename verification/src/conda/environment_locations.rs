//! Where conda environments are found without running conda: well-known
//! install locations, `environments.txt`, `.condarc` directories, and the
//! environments inside each conda directory.

use vstd::prelude::*;
use crate::conda::manager::{names_in, names_in_exec};
use crate::conda::utils::{conda_env_spec, conda_install_spec, is_conda_env, is_conda_install};
use crate::environment::{env_get, Environment};
use crate::facts::{exists_in, keep_present, listing, listing_of, present_in, FileFacts, Listings};
use crate::lines::{lines, lines_spec};
use crate::locator::Host;
use crate::path::{
    expand_home, expand_home_spec, file_name, file_name_spec, is_sorted_set_of, join, join_spec, lemma_views_push, parent, parent_spec,
    path_eq, sort_dedup_paths, views,
};
use crate::r_installation::opt_view;
use crate::text::{chars_of, ends_with_chars, push_str, string_of, trim, trim_chars};

verus! {

broadcast use lemma_views_push;

/// The names a conda installation usually has.
pub open spec fn conda_names() -> Seq<Seq<char>> {
    seq!["anaconda"@, "anaconda3"@, "miniconda"@, "miniconda3"@, "miniforge3"@, "micromamba"@]
}

/// The system-wide conda locations outside Windows.
pub open spec fn unix_root_locations() -> Seq<Seq<char>> {
    seq![
        "/opt/conda"@,
        "/anaconda"@,
        "/anaconda3"@,
        "/miniconda"@,
        "/miniconda3"@,
        "/miniforge3"@,
        "/micromamba"@,
    ]
}

/// The locations a user's home adds outside Windows.
pub open spec fn unix_home_locations(h: Seq<char>, macos: bool) -> Seq<Seq<char>> {
    (if macos {
        seq!["/opt/homebrew/anaconda3"@, "/opt/homebrew/miniconda3"@, "/opt/homebrew/miniforge3"@]
    } else {
        seq!["/home/linuxbrew/.linuxbrew/miniconda3"@, "/home/linuxbrew/.linuxbrew/miniforge3"@]
    }) + names_in(
        seq![
            h,
            join_spec(h, "opt"@),
            join_spec(h, ".conda"@),
            join_spec(h, ".local"@),
            "/opt"@,
            "/usr/local"@,
            "/usr/share"@,
        ],
        conda_names(),
    ) + seq![join_spec(h, ".conda"@)]
}

/// The values of the variables that are set, in order.
pub open spec fn var_values(env: Environment, vars: Seq<Seq<char>>) -> Seq<Seq<char>>
    decreases vars.len(),
{
    if vars.len() == 0 {
        Seq::empty()
    } else {
        var_values(env, vars.drop_last()) + match env_get(env.variables@, vars.last()) {
            Some(v) => seq![v],
            None => Seq::empty(),
        }
    }
}

/// The values of the variables that are set, in order, each with a
/// leading `~` expanded to the user's home.
pub open spec fn expanded_var_values(env: Environment, vars: Seq<Seq<char>>) -> Seq<Seq<char>> {
    var_values(env, vars).map_values(|v: Seq<char>| expand_home_spec(v, opt_view(env.user_home)))
}

/// Where Windows installs conda for a base directory.
pub open spec fn windows_base_names() -> Seq<Seq<char>> {
    seq![
        "anaconda3"@,
        "miniconda3"@,
        "miniforge3"@,
        "micromamba"@,
        "Anaconda3"@,
        "Miniconda3"@,
        "Miniforge3"@,
    ]
}

pub open spec fn drive_names() -> Seq<Seq<char>> {
    seq!["anaconda3"@, "miniconda"@, "miniconda3"@, "miniforge3"@, "micromamba"@]
}

/// The home drive as a directory: `C:` becomes `C:\`.
pub open spec fn drive_dir(d: Seq<char>) -> Seq<char> {
    if d.len() > 0 && d.last() == ':' {
        d + seq!['\\']
    } else {
        d
    }
}

pub open spec fn windows_locations(env: Environment) -> Seq<Seq<char>> {
    names_in(var_values(env, seq!["USERPROFILE"@, "ProgramData"@, "ALLUSERSPROFILE"@]), windows_base_names())
        + (match env_get(env.variables@, "HOMEDRIVE"@) {
        Some(d) => names_in(seq![drive_dir(d)], drive_names()),
        None => Seq::empty(),
    }) + (match opt_view(env.user_home) {
        Some(h) => names_in(seq![h], conda_names()) + seq![
            join_spec(h, ".conda"@),
            join_spec(join_spec(join_spec(join_spec(h, "AppData"@), "Local"@), "conda"@), "conda"@),
        ],
        None => Seq::empty(),
    }) + expanded_var_values(env, seq!["CONDA_ROOT"@, "CONDA_PREFIX"@])
}

/// The conda locations worth checking (`conda_exe_dir`: the installation
/// that `CONDA_EXE` leads to, if any).
pub open spec fn known_locations_spec(env: Environment, host: Host, conda_exe_dir: Option<Seq<char>>) -> Seq<Seq<char>> {
    (if host.windows {
        windows_locations(env)
    } else {
        unix_root_locations() + (match opt_view(env.user_home) {
            Some(h) => unix_home_locations(h, host.macos),
            None => Seq::empty(),
        }) + expanded_var_values(env, seq!["CONDA_ROOT"@, "CONDA_PREFIX"@, "MAMBA_ROOT_PREFIX"@, "CONDA_DIR"@])
    }) + match conda_exe_dir {
        Some(d) => seq![d],
        None => Seq::empty(),
    }
}

fn append_all(dst: &mut Vec<String>, src: Vec<String>)
    ensures
        views(final(dst)@) == views(old(dst)@) + views(src@),
{
    let mut src = src;
    let ghost a = dst@;
    let ghost b = src@;
    dst.append(&mut src);
    assert(views(dst@) =~= views(a) + views(b));
}

fn var_values_exec(env: &Environment, vars: &[&str]) -> (r: Vec<String>)
    ensures
        views(r@) == var_values(*env, vars@.map_values(|v: &str| v@)),
{
    let ghost vv = vars@.map_values(|v: &str| v@);
    let mut out: Vec<String> = Vec::new();
    let mut i: usize = 0;
    while i < vars.len()
        invariant
            i <= vars.len(),
            vv == vars@.map_values(|v: &str| v@),
            views(out@) == var_values(*env, vv.subrange(0, i as int)),
        decreases vars.len() - i,
    {
        assert(vv.subrange(0, i + 1).drop_last() == vv.subrange(0, i as int));
        assert(vv.subrange(0, i + 1).last() == vars@[i as int]@);
        let ghost before = views(out@);
        match env.get_env_var(vars[i]) {
            Some(v) => out.push(v),
            None => {},
        }
        i = i + 1;
    }
    assert(vv.subrange(0, vars.len() as int) == vv);
    out
}

fn expanded_var_values_exec(env: &Environment, vars: &[&str]) -> (r: Vec<String>)
    ensures
        views(r@) == expanded_var_values(*env, vars@.map_values(|v: &str| v@)),
{
    let values = var_values_exec(env, vars);
    let ghost vv = views(values@);
    let mut out: Vec<String> = Vec::new();
    let mut i: usize = 0;
    while i < values.len()
        invariant
            i <= values.len(),
            vv == views(values@),
            views(out@) == vv.subrange(0, i as int).map_values(|v: Seq<char>| expand_home_spec(v, opt_view(env.user_home))),
        decreases values.len() - i,
    {
        out.push(expand_home(values[i].as_str(), &env.user_home));
        proof {
            assert(vv.subrange(0, i + 1).map_values(|v: Seq<char>| expand_home_spec(v, opt_view(env.user_home)))
                =~= vv.subrange(0, i as int).map_values(|v: Seq<char>| expand_home_spec(v, opt_view(env.user_home)))
                .push(expand_home_spec(values@[i as int]@, opt_view(env.user_home))));
        }
        i = i + 1;
    }
    assert(vv.subrange(0, values.len() as int) == vv);
    out
}

fn unix_home_exec(h: &str, macos: bool) -> (r: Vec<String>)
    ensures
        views(r@) == unix_home_locations(h@, macos),
{
    let mut out: Vec<String> = Vec::new();
    if macos {
        out.push("/opt/homebrew/anaconda3".to_string());
        out.push("/opt/homebrew/miniconda3".to_string());
        out.push("/opt/homebrew/miniforge3".to_string());
    } else {
        out.push("/home/linuxbrew/.linuxbrew/miniconda3".to_string());
        out.push("/home/linuxbrew/.linuxbrew/miniforge3".to_string());
    }
    let ghost head = views(out@);
    let mut prefixes: Vec<String> = Vec::new();
    prefixes.push(h.to_string());
    prefixes.push(join(h, "opt"));
    prefixes.push(join(h, ".conda"));
    prefixes.push(join(h, ".local"));
    prefixes.push("/opt".to_string());
    prefixes.push("/usr/local".to_string());
    prefixes.push("/usr/share".to_string());
    let names = ["anaconda", "anaconda3", "miniconda", "miniconda3", "miniforge3", "micromamba"];
    assert(names@.map_values(|n: &str| n@) == conda_names());
    let under = names_in_exec(&prefixes, &names);
    append_all(&mut out, under);
    out.push(join(h, ".conda"));
    proof {
        assert(views(prefixes@) =~= seq![
            h@,
            join_spec(h@, "opt"@),
            join_spec(h@, ".conda"@),
            join_spec(h@, ".local"@),
            "/opt"@,
            "/usr/local"@,
            "/usr/share"@,
        ]);
        assert(views(out@) =~= unix_home_locations(h@, macos));
    }
    out
}

fn windows_exec(env: &Environment) -> (r: Vec<String>)
    ensures
        views(r@) == windows_locations(*env),
{
    let bases = var_values_exec(env, &["USERPROFILE", "ProgramData", "ALLUSERSPROFILE"]);
    let base_names = ["anaconda3", "miniconda3", "miniforge3", "micromamba", "Anaconda3", "Miniconda3", "Miniforge3"];
    assert(base_names@.map_values(|n: &str| n@) == windows_base_names());
    let ghost vars = seq!["USERPROFILE"@, "ProgramData"@, "ALLUSERSPROFILE"@];
    assert(["USERPROFILE", "ProgramData", "ALLUSERSPROFILE"]@.map_values(|v: &str| v@) =~= vars);
    let mut out = names_in_exec(&bases, &base_names);
    let ghost a = views(out@);
    match env.get_env_var("HOMEDRIVE") {
        Some(d) => {
            let dv = chars_of(d.as_str());
            let mut drive: Vec<char> = dv.clone();
            if dv.len() > 0 && dv[dv.len() - 1] == ':' {
                drive.push('\\');
            }
            assert(drive@ =~= drive_dir(d@));
            let mut dirs: Vec<String> = Vec::new();
            dirs.push(string_of(drive.as_slice()));
            let names = ["anaconda3", "miniconda", "miniconda3", "miniforge3", "micromamba"];
            assert(names@.map_values(|n: &str| n@) == drive_names());
            assert(views(dirs@) =~= seq![drive_dir(d@)]);
            append_all(&mut out, names_in_exec(&dirs, &names));
        },
        None => {},
    }
    let ghost b = views(out@);
    match &env.user_home {
        Some(h) => {
            let mut dirs: Vec<String> = Vec::new();
            dirs.push(h.clone());
            let names = ["anaconda", "anaconda3", "miniconda", "miniconda3", "miniforge3", "micromamba"];
            assert(names@.map_values(|n: &str| n@) == conda_names());
            assert(views(dirs@) =~= seq![h@]);
            append_all(&mut out, names_in_exec(&dirs, &names));
            out.push(join(h.as_str(), ".conda"));
            let app = join(h.as_str(), "AppData");
            let local = join(app.as_str(), "Local");
            let conda = join(local.as_str(), "conda");
            out.push(join(conda.as_str(), "conda"));
        },
        None => {},
    }
    let ghost c = views(out@);
    let vars = expanded_var_values_exec(env, &["CONDA_ROOT", "CONDA_PREFIX"]);
    assert(["CONDA_ROOT", "CONDA_PREFIX"]@.map_values(|v: &str| v@) =~= seq!["CONDA_ROOT"@, "CONDA_PREFIX"@]);
    append_all(&mut out, vars);
    assert(views(out@) =~= windows_locations(*env));
    out
}

/// The conda locations worth checking, in path order and each once.
pub fn known_conda_install_candidates(environment: &Environment, host: Host, conda_exe_dir: &Option<String>) -> (r:
    Vec<String>)
    ensures
        is_sorted_set_of(views(r@), known_locations_spec(*environment, host, opt_view(*conda_exe_dir))),
{
    let mut out: Vec<String> = if host.windows {
        windows_exec(environment)
    } else {
        let mut v: Vec<String> = Vec::new();
        v.push("/opt/conda".to_string());
        v.push("/anaconda".to_string());
        v.push("/anaconda3".to_string());
        v.push("/miniconda".to_string());
        v.push("/miniconda3".to_string());
        v.push("/miniforge3".to_string());
        v.push("/micromamba".to_string());
        assert(views(v@) =~= unix_root_locations());
        match &environment.user_home {
            Some(h) => append_all(&mut v, unix_home_exec(h.as_str(), host.macos)),
            None => {},
        }
        let vars = expanded_var_values_exec(environment, &["CONDA_ROOT", "CONDA_PREFIX", "MAMBA_ROOT_PREFIX", "CONDA_DIR"]);
        assert(["CONDA_ROOT", "CONDA_PREFIX", "MAMBA_ROOT_PREFIX", "CONDA_DIR"]@.map_values(|v: &str| v@)
            =~= seq!["CONDA_ROOT"@, "CONDA_PREFIX"@, "MAMBA_ROOT_PREFIX"@, "CONDA_DIR"@]);
        append_all(&mut v, vars);
        v
    };
    let ghost before = views(out@);
    match conda_exe_dir {
        Some(d) => out.push(d.clone()),
        None => {},
    }
    assert(views(out@) =~= known_locations_spec(*environment, host, opt_view(*conda_exe_dir)));
    sort_dedup_paths(out)
}

/// The known conda locations that exist (`existing`: the probed candidates
/// that exist), in path order and each once.
pub fn get_known_conda_install_locations(
    environment: &Environment,
    host: Host,
    conda_exe_dir: &Option<String>,
    existing: &Vec<String>,
) -> (r: Vec<String>)
    ensures
        exists|c: Seq<Seq<char>>|
            is_sorted_set_of(c, known_locations_spec(*environment, host, opt_view(*conda_exe_dir)))
                && views(r@) == #[trigger] present_in(c, views(existing@)),
{
    let candidates = known_conda_install_candidates(environment, host, conda_exe_dir);
    keep_present(&candidates, existing)
}

/// The conda directory an executable (its links followed) belongs to: for
/// a file, its directory or that directory's parent when it is a conda
/// environment; for another path, the path or its parent when it is one.
pub open spec fn conda_dir_from_exe_spec(exe: Seq<char>, f: FileFacts) -> Option<Seq<char>> {
    if crate::facts::file_in(f, exe) {
        match parent_spec(exe) {
            None => None,
            Some(p) => if conda_env_spec(p, f) {
                Some(p)
            } else {
                match parent_spec(p) {
                    Some(g) => if conda_env_spec(g, f) {
                        Some(g)
                    } else {
                        None
                    },
                    None => None,
                }
            },
        }
    } else if conda_env_spec(exe, f) {
        Some(exe)
    } else {
        match parent_spec(exe) {
            Some(p) => if conda_env_spec(p, f) {
                Some(p)
            } else {
                None
            },
            None => None,
        }
    }
}

pub fn get_conda_dir_from_exe_path(exe: &str, facts: &FileFacts) -> (r: Option<String>)
    ensures
        opt_view(r) == conda_dir_from_exe_spec(exe@, *facts),
{
    if facts.is_file(exe) {
        let p = match parent(exe) {
            Some(p) => p,
            None => return None,
        };
        if is_conda_env(p.as_str(), facts) {
            return Some(p);
        }
        match parent(p.as_str()) {
            Some(g) => if is_conda_env(g.as_str(), facts) {
                Some(g)
            } else {
                None
            },
            None => None,
        }
    } else if is_conda_env(exe, facts) {
        Some(exe.to_string())
    } else {
        match parent(exe) {
            Some(p) => if is_conda_env(p.as_str(), facts) {
                Some(p)
            } else {
                None
            },
            None => None,
        }
    }
}

/// The conda environments among paths, in order.
pub open spec fn envs_among(s: Seq<Seq<char>>, f: FileFacts) -> Seq<Seq<char>>
    decreases s.len(),
{
    if s.len() == 0 {
        Seq::empty()
    } else if conda_env_spec(s.last(), f) {
        envs_among(s.drop_last(), f).push(s.last())
    } else {
        envs_among(s.drop_last(), f)
    }
}

fn child_envs(dir: &str, facts: &FileFacts, l: &Listings) -> (r: Vec<String>)
    ensures
        views(r@) == envs_among(listing_of(l@, dir@), *facts),
{
    let entries = listing(l, dir);
    let mut out: Vec<String> = Vec::new();
    let mut i: usize = 0;
    while i < entries.len()
        invariant
            i <= entries.len(),
            views(out@) == envs_among(views(entries@).subrange(0, i as int), *facts),
        decreases entries.len() - i,
    {
        assert(views(entries@).subrange(0, i + 1).drop_last() == views(entries@).subrange(0, i as int));
        if is_conda_env(entries[i].as_str(), facts) {
            out.push(entries[i].clone());
        }
        i = i + 1;
    }
    assert(views(entries@).subrange(0, entries.len() as int) == views(entries@));
    out
}

/// An installation's environments: itself, then the environments in its `envs`.
pub open spec fn install_envs(dir: Seq<char>, f: FileFacts, l: Seq<(String, Vec<String>)>) -> Seq<Seq<char>> {
    seq![dir] + envs_among(listing_of(l, join_spec(dir, "envs"@)), f)
}

/// The environments a conda directory stands for, before sorting: an
/// installation's own; an environment, and the installation it sits in
/// under `envs`; else the environments in its `envs`, or in itself.
pub open spec fn environments_spec(dir: Seq<char>, f: FileFacts, l: Seq<(String, Vec<String>)>) -> Seq<Seq<char>> {
    if conda_install_spec(dir, f) {
        install_envs(dir, f, l)
    } else if conda_env_spec(dir, f) {
        seq![dir] + match parent_spec(dir) {
            Some(p) => if file_name_spec(p) == Some("envs"@) {
                match parent_spec(p) {
                    Some(g) => if conda_install_spec(g, f) && g != dir {
                        install_envs(g, f, l)
                    } else {
                        Seq::empty()
                    },
                    None => Seq::empty(),
                }
            } else {
                Seq::empty()
            },
            None => Seq::empty(),
        }
    } else if exists_in(f, join_spec(dir, "envs"@)) {
        envs_among(listing_of(l, join_spec(dir, "envs"@)), f)
    } else {
        envs_among(listing_of(l, dir), f)
    }
}

fn install_envs_exec(dir: &str, facts: &FileFacts, l: &Listings) -> (r: Vec<String>)
    ensures
        views(r@) == install_envs(dir@, *facts, l@),
{
    let mut out: Vec<String> = Vec::new();
    out.push(dir.to_string());
    let envs = join(dir, "envs");
    append_all(&mut out, child_envs(envs.as_str(), facts, l));
    out
}

fn is_named_envs(p: &str) -> (r: bool)
    ensures
        r == (file_name_spec(p@) == Some("envs"@)),
{
    match file_name(p) {
        Some(n) => {
            let a = chars_of(n.as_str());
            let b = chars_of("envs");
            crate::text::chars_eq(a.as_slice(), b.as_slice())
        },
        None => false,
    }
}

/// The environments a conda directory stands for, in path order and each
/// once (`facts`: what exists; `listings`: the directories' entries).
pub fn get_environments(conda_dir: &str, facts: &FileFacts, listings: &Listings) -> (r: Vec<String>)
    ensures
        is_sorted_set_of(views(r@), environments_spec(conda_dir@, *facts, listings@)),
{
    let mut envs: Vec<String> = Vec::new();
    if is_conda_install(conda_dir, facts) {
        envs = install_envs_exec(conda_dir, facts, listings);
    } else if is_conda_env(conda_dir, facts) {
        envs.push(conda_dir.to_string());
        match parent(conda_dir) {
            Some(p) => {
                if is_named_envs(p.as_str()) {
                    match parent(p.as_str()) {
                        Some(g) => {
                            if is_conda_install(g.as_str(), facts) && !path_eq(g.as_str(), conda_dir) {
                                append_all(&mut envs, install_envs_exec(g.as_str(), facts, listings));
                            }
                        },
                        None => {},
                    }
                }
            },
            None => {},
        }
    } else {
        let sub = join(conda_dir, "envs");
        if facts.path_exists(sub.as_str()) {
            envs = child_envs(sub.as_str(), facts, listings);
        } else {
            envs = child_envs(conda_dir, facts, listings);
        }
    }
    assert(views(envs@) =~= environments_spec(conda_dir@, *facts, listings@));
    sort_dedup_paths(envs)
}

/// The environments `environments.txt` lists: its lines, trimmed, when not empty.
pub open spec fn listed_envs(ls: Seq<Seq<char>>) -> Seq<Seq<char>>
    decreases ls.len(),
{
    if ls.len() == 0 {
        Seq::empty()
    } else if trim(ls.last()).len() > 0 {
        listed_envs(ls.drop_last()).push(trim(ls.last()))
    } else {
        listed_envs(ls.drop_last())
    }
}

/// The environments an `environments.txt` text lists that exist.
pub fn get_conda_envs_from_environment_txt(contents: &str, facts: &FileFacts) -> (r: Vec<String>)
    ensures
        views(r@) == present_in(listed_envs(lines_spec(contents@)), views(facts.existing@)),
{
    let ls = lines(contents);
    let ghost lv = ls@.map_values(|l: String| l@);
    let mut listed: Vec<String> = Vec::new();
    let mut i: usize = 0;
    while i < ls.len()
        invariant
            i <= ls.len(),
            lv == ls@.map_values(|l: String| l@),
            views(listed@) == listed_envs(lv.subrange(0, i as int)),
        decreases ls.len() - i,
    {
        assert(lv.subrange(0, i + 1).drop_last() == lv.subrange(0, i as int));
        assert(lv.subrange(0, i + 1).last() == ls@[i as int]@);
        let v = chars_of(ls[i].as_str());
        let t = trim_chars(v.as_slice());
        if t.len() > 0 {
            listed.push(string_of(t.as_slice()));
        }
        i = i + 1;
    }
    assert(lv.subrange(0, ls.len() as int) == lv);
    keep_present(&listed, &facts.existing)
}

/// The environments of every discovered conda directory: the directories
/// (`sources`: from `environments.txt`, `.condarc`, the known locations,
/// the conda binaries on the `PATH` and the configured executable) sorted
/// and deduplicated, those that exist expanded into their environments,
/// the result sorted and deduplicated.
pub open spec fn all_environments(dirs: Seq<Seq<char>>, f: FileFacts, l: Seq<(String, Vec<String>)>) -> Seq<Seq<char>>
    decreases dirs.len(),
{
    if dirs.len() == 0 {
        Seq::empty()
    } else {
        all_environments(dirs.drop_last(), f, l) + environments_spec(dirs.last(), f, l)
    }
}

pub fn get_conda_environment_paths(sources: Vec<String>, facts: &FileFacts, listings: &Listings) -> (r: Vec<
    String,
>)
    ensures
        exists|dirs: Seq<Seq<char>>|
            is_sorted_set_of(dirs, present_in(views(sources@), views(facts.existing@)))
                && is_sorted_set_of(views(r@), #[trigger] all_environments(dirs, *facts, listings@)),
{
    let ghost src = views(sources@);
    let present = keep_present(&sources, &facts.existing);
    let dirs = sort_dedup_paths(present);
    let mut all: Vec<String> = Vec::new();
    let mut i: usize = 0;
    while i < dirs.len()
        invariant
            i <= dirs.len(),
            is_sorted_set_of(views(all@), all_environments(views(dirs@).subrange(0, i as int), *facts, listings@)),
        decreases dirs.len() - i,
    {
        let ghost prev = all_environments(views(dirs@).subrange(0, i as int), *facts, listings@);
        assert(views(dirs@).subrange(0, i + 1).drop_last() == views(dirs@).subrange(0, i as int));
        assert(views(dirs@).subrange(0, i + 1).last() == dirs@[i as int]@);
        let envs = get_environments(dirs[i].as_str(), facts, listings);
        let ghost before = all@;
        let ghost extra = envs@;
        append_all(&mut all, envs);
        let ghost cur = all_environments(views(dirs@).subrange(0, i + 1), *facts, listings@);
        let ghost here = environments_spec(dirs@[i as int]@, *facts, listings@);
        let sorted = sort_dedup_paths(all);
        proof {
            assert forall|x: Seq<char>| views(sorted@).contains(x) <==> cur.contains(x) by {
                if views(before).contains(x) {
                    let k = choose|k: int| 0 <= k < views(before).len() && views(before)[k] == x;
                    assert((views(before) + views(extra))[k] == x);
                }
                if views(extra).contains(x) {
                    let k = choose|k: int| 0 <= k < views(extra).len() && views(extra)[k] == x;
                    assert((views(before) + views(extra))[views(before).len() + k] == x);
                }
                if prev.contains(x) {
                    let k = choose|k: int| 0 <= k < prev.len() && prev[k] == x;
                    assert((prev + here)[k] == x);
                }
                if here.contains(x) {
                    let k = choose|k: int| 0 <= k < here.len() && here[k] == x;
                    assert((prev + here)[prev.len() + k] == x);
                }
                if (views(before) + views(extra)).contains(x) {
                    let k = choose|k: int| 0 <= k < (views(before) + views(extra)).len() && (views(before) + views(extra))[k] == x;
                    if k < views(before).len() {
                        assert(views(before)[k] == x);
                    } else {
                        assert(views(extra)[k - views(before).len()] == x);
                    }
                }
                if (prev + here).contains(x) {
                    let k = choose|k: int| 0 <= k < (prev + here).len() && (prev + here)[k] == x;
                    if k < prev.len() {
                        assert(prev[k] == x);
                    } else {
                        assert(here[k - prev.len()] == x);
                    }
                }
            }
        }
        all = sorted;
        i = i + 1;
    }
    assert(views(dirs@).subrange(0, dirs.len() as int) == views(dirs@));
    all
}

proof fn lemma_names_in_contains(dirs: Seq<Seq<char>>, names: Seq<Seq<char>>, i: int, j: int)
    requires
        0 <= i < dirs.len(),
        0 <= j < names.len(),
    ensures
        names_in(dirs, names).contains(join_spec(dirs[i], names[j])),
    decreases dirs.len(),
{
    let m = names.map_values(|n: Seq<char>| join_spec(dirs.last(), n));
    if i == dirs.len() - 1 {
        assert(m[j] == join_spec(dirs[i], names[j]));
        assert((names_in(dirs.drop_last(), names) + m)[names_in(dirs.drop_last(), names).len() + j] == m[j]);
    } else {
        lemma_names_in_contains(dirs.drop_last(), names, i, j);
        assert(dirs.drop_last()[i] == dirs[i]);
        let x = join_spec(dirs[i], names[j]);
        let k = choose|k: int| 0 <= k < names_in(dirs.drop_last(), names).len() && names_in(dirs.drop_last(), names)[k] == x;
        assert((names_in(dirs.drop_last(), names) + m)[k] == x);
    }
}

/// Outside Windows, with a user home `h`, the conda locations checked
/// include each of the usual installation names (`anaconda`, `anaconda3`,
/// `miniconda`, `miniconda3`, `miniforge3`, `micromamba`) under each of
/// `h`, `h/opt`, `h/.conda`, `h/.local`, `/opt`, `/usr/local` and
/// `/usr/share` (so the installers' default `~/anaconda3` is among them).
pub proof fn law_home_install_names_are_checked(
    environment: Environment,
    host: Host,
    conda_exe_dir: Option<Seq<char>>,
    locations: Seq<Seq<char>>,
    h: Seq<char>,
    p: Seq<char>,
    n: Seq<char>,
)
    requires
        !host.windows,
        opt_view(environment.user_home) == Some(h),
        is_sorted_set_of(locations, known_locations_spec(environment, host, conda_exe_dir)),
        seq![h, join_spec(h, "opt"@), join_spec(h, ".conda"@), join_spec(h, ".local"@), "/opt"@, "/usr/local"@, "/usr/share"@].contains(p),
        seq!["anaconda"@, "anaconda3"@, "miniconda"@, "miniconda3"@, "miniforge3"@, "micromamba"@].contains(n),
    ensures
        locations.contains(join_spec(p, n)),
{
    let prefixes = seq![h, join_spec(h, "opt"@), join_spec(h, ".conda"@), join_spec(h, ".local"@), "/opt"@, "/usr/local"@, "/usr/share"@];
    let names = seq!["anaconda"@, "anaconda3"@, "miniconda"@, "miniconda3"@, "miniforge3"@, "micromamba"@];
    let i = choose|i: int| 0 <= i < prefixes.len() && prefixes[i] == p;
    let j = choose|j: int| 0 <= j < names.len() && names[j] == n;
    assert(names =~= conda_names());
    lemma_names_in_contains(prefixes, conda_names(), i, j);
    let x = join_spec(p, n);
    let lead: Seq<Seq<char>> = if host.macos {
        seq!["/opt/homebrew/anaconda3"@, "/opt/homebrew/miniconda3"@, "/opt/homebrew/miniforge3"@]
    } else {
        seq!["/home/linuxbrew/.linuxbrew/miniconda3"@, "/home/linuxbrew/.linuxbrew/miniforge3"@]
    };
    let mid = names_in(prefixes, conda_names());
    let home_locs = unix_home_locations(h, host.macos);
    assert(home_locs == lead + mid + seq![join_spec(h, ".conda"@)]);
    let k = choose|k: int| 0 <= k < mid.len() && mid[k] == x;
    assert(home_locs[lead.len() + k] == x);
    let rest = expanded_var_values(environment, seq!["CONDA_ROOT"@, "CONDA_PREFIX"@, "MAMBA_ROOT_PREFIX"@, "CONDA_DIR"@]);
    let all = unix_root_locations() + home_locs + rest;
    assert(all[unix_root_locations().len() + lead.len() + k] == x);
    let tail: Seq<Seq<char>> = match conda_exe_dir {
        Some(d) => seq![d],
        None => Seq::empty(),
    };
    assert(known_locations_spec(environment, host, conda_exe_dir) == all + tail);
    assert((all + tail)[unix_root_locations().len() + lead.len() + k] == x);
    assert(known_locations_spec(environment, host, conda_exe_dir).contains(x));
}

} // verus!
