//! Conda installations and environments on disk, and the history that
//! records how an environment was created.

use vstd::prelude::*;
use crate::facts::{dir_in, exists_in, file_in, FileFacts};
use crate::lines::{lines, lines_spec};
use crate::path::{
    ancestors_spec, file_name, file_name_spec, join, join_all, join_spec, parent, parent_spec,
    path_eq, path_starts_with, starts_with,
};
use crate::r_installation::opt_view;
use crate::text::{
    ascii_lower, ascii_lower_chars, chars_of, contains_chars, contains_seq, first_index_of, push_str,
    slice_chars, starts_with_chars, starts_with_seq, str_contains, string_of, trim, trim_chars,
};

verus! {

/// A conda installation: `condabin` or `envs` and `conda-meta` exist, and
/// its grandparent is not itself one (it is then an environment inside one).
#[verifier::opaque]
pub open spec fn conda_install_spec(path: Seq<char>, f: FileFacts) -> bool {
    let here = (exists_in(f, join_spec(path, "condabin"@)) || exists_in(f, join_spec(path, "envs"@)))
        && exists_in(f, join_spec(path, "conda-meta"@));
    here && !(parent_spec(path) matches Some(p) && parent_spec(p) matches Some(g) && (exists_in(
        f,
        join_spec(g, "condabin"@),
    ) || exists_in(f, join_spec(g, "envs"@))) && exists_in(f, join_spec(g, "conda-meta"@)))
}

fn looks_installed(path: &str, facts: &FileFacts) -> (r: bool)
    ensures
        r == ((exists_in(*facts, join_spec(path@, "condabin"@)) || exists_in(
            *facts,
            join_spec(path@, "envs"@),
        )) && exists_in(*facts, join_spec(path@, "conda-meta"@))),
{
    (facts.path_exists(join(path, "condabin").as_str()) || facts.path_exists(join(path, "envs").as_str()))
        && facts.path_exists(join(path, "conda-meta").as_str())
}

/// Whether `path` is a conda installation.
pub fn is_conda_install(path: &str, facts: &FileFacts) -> (r: bool)
    ensures
        r == conda_install_spec(path@, *facts),
{
    proof {
        reveal(conda_install_spec);
    }
    if !looks_installed(path, facts) {
        return false;
    }
    match parent(path) {
        Some(p) => match parent(p.as_str()) {
            Some(g) => !looks_installed(g.as_str(), facts),
            None => true,
        },
        None => true,
    }
}

/// A conda environment: `conda-meta` is a directory without Pixi's marker.
pub open spec fn conda_env_spec(path: Seq<char>, f: FileFacts) -> bool {
    dir_in(f, join_spec(path, "conda-meta"@)) && !file_in(
        f,
        join_spec(join_spec(path, "conda-meta"@), "pixi"@),
    )
}

pub fn is_conda_env(path: &str, facts: &FileFacts) -> (r: bool)
    ensures
        r == conda_env_spec(path@, *facts),
{
    let meta = join(path, "conda-meta");
    facts.is_dir(meta.as_str()) && !facts.is_file(join(meta.as_str(), "pixi").as_str())
}

/// The first history line, trimmed, that records `conda create`.
pub open spec fn creation_line_of(ls: Seq<Seq<char>>) -> Option<Seq<char>>
    decreases ls.len(),
{
    if ls.len() == 0 {
        None
    } else {
        let l = trim(ls[0]);
        if starts_with_seq(ascii_lower(l), "# cmd:"@) && contains_seq(ascii_lower(l), " create -"@) {
            Some(l)
        } else {
            creation_line_of(ls.drop_first())
        }
    }
}

/// The `conda create` line of an environment's history text.
pub fn get_conda_creation_line_from_history(history: &str) -> (r: Option<String>)
    ensures
        opt_view(r) == creation_line_of(lines_spec(history@)),
{
    let ls = lines(history);
    let ghost lv = ls@.map_values(|l: String| l@);
    assert(lv == lines_spec(history@));
    let mut i: usize = 0;
    assert(lv.subrange(0, ls.len() as int) == lv);
    while i < ls.len()
        invariant
            i <= ls.len(),
            lv == ls@.map_values(|l: String| l@),
            lv == lines_spec(history@),
            creation_line_of(lv) == creation_line_of(lv.subrange(i as int, ls.len() as int)),
        decreases ls.len() - i,
    {
        let ghost rest = lv.subrange(i as int, ls.len() as int);
        assert(rest.drop_first() == lv.subrange(i + 1, ls.len() as int));
        assert(rest[0] == ls@[i as int]@);
        let raw = chars_of(ls[i].as_str());
        let l = trim_chars(raw.as_slice());
        let lower = ascii_lower_chars(l.as_slice());
        let a = chars_of("# cmd:");
        let b = chars_of(" create -");
        if starts_with_chars(lower.as_slice(), a.as_slice()) && contains_chars(
            lower.as_slice(),
            b.as_slice(),
        ) {
            let out = string_of(l.as_slice());
            assert(raw@ == rest[0]);
            assert(creation_line_of(rest) == Some(trim(rest[0])));
            return Some(out);
        }
        i = i + 1;
    }
    None
}

/// Whether the creation command names the environment `name`.
pub open spec fn env_name_in_cmd_spec(cmd: Seq<char>, name: Seq<char>) -> bool {
    contains_seq(cmd, "-n "@ + name) || contains_seq(cmd, "--name "@ + name)
}

pub fn is_conda_env_name_in_cmd(cmd_line: &str, name: &str) -> (r: bool)
    ensures
        r == env_name_in_cmd_spec(cmd_line@, name@),
{
    let mut a: Vec<char> = Vec::new();
    push_str(&mut a, "-n ");
    push_str(&mut a, name);
    let mut b: Vec<char> = Vec::new();
    push_str(&mut b, "--name ");
    push_str(&mut b, name);
    let c = chars_of(cmd_line);
    contains_chars(c.as_slice(), a.as_slice()) || contains_chars(c.as_slice(), b.as_slice())
}

/// The first index at which `p` occurs in `s`.
#[verifier::opaque]
pub open spec fn find_spec(s: Seq<char>, p: Seq<char>) -> Option<int> {
    if contains_seq(s, p) {
        Some(
            choose|i: int|
                crate::text::occurs_at(s, p, i) && forall|j: int|
                    0 <= j < i ==> !crate::text::occurs_at(s, p, j),
        )
    } else {
        None
    }
}

/// The first index at which `p` occurs in `s`.
pub fn find_first(s: &[char], p: &[char]) -> (r: Option<usize>)
    ensures
        match r {
            Some(i) => find_spec(s@, p@) == Some(i as int) && crate::text::occurs_at(
                s@,
                p@,
                i as int,
            ),
            None => find_spec(s@, p@) is None,
        },
{
    proof {
        reveal(find_spec);
    }
    match find_exec(s, p) {
        Some(i) => {
            proof {
                let f = find_spec(s@, p@).unwrap();
                assert(f == i as int) by {
                    if f < i as int {
                    } else if f > i as int {
                    }
                }
            }
            Some(i)
        },
        None => None,
    }
}

fn find_exec(s: &[char], p: &[char]) -> (r: Option<usize>)
    ensures
        match r {
            Some(i) => crate::text::occurs_at(s@, p@, i as int) && forall|j: int|
                0 <= j < i ==> !crate::text::occurs_at(s@, p@, j),
            None => !contains_seq(s@, p@),
        },
{
    if p.len() > s.len() {
        assert forall|i: int| !crate::text::occurs_at(s@, p@, i) by {}
        return None;
    }
    let mut i: usize = 0;
    while i <= s.len() - p.len()
        invariant
            p.len() <= s.len(),
            i <= s.len() - p.len() + 1,
            forall|j: int| 0 <= j < i ==> !crate::text::occurs_at(s@, p@, j),
        decreases s.len() - p.len() + 1 - i,
    {
        if crate::text::occurs_at_exec(s, p, i) {
            return Some(i);
        }
        if i == s.len() - p.len() {
            assert forall|j: int| !crate::text::occurs_at(s@, p@, j) by {}
            return None;
        }
        i = i + 1;
    }
    assert forall|j: int| !crate::text::occurs_at(s@, p@, j) by {}
    None
}

/// The conda executable named in a creation command: the trimmed text
/// between `# cmd:` and ` create -` (found case-insensitively).
pub open spec fn cmd_executable_spec(cmd: Seq<char>) -> Option<Seq<char>> {
    let l = ascii_lower(cmd);
    match (find_spec(l, "# cmd:"@), find_spec(l, " create -"@)) {
        (Some(a), Some(b)) => if a + 6 <= b {
            Some(trim(cmd.subrange(a + 6, b)))
        } else {
            None
        },
        _ => None,
    }
}

pub fn conda_executable_from_cmd(cmd_line: &str) -> (r: Option<String>)
    ensures
        opt_view(r) == cmd_executable_spec(cmd_line@),
{
    let c = chars_of(cmd_line);
    let l = ascii_lower_chars(c.as_slice());
    let a = chars_of("# cmd:");
    let b = chars_of(" create -");
    assert(a@.len() == 6) by {
        reveal_strlit("# cmd:");
    }
    let start = match find_first(l.as_slice(), a.as_slice()) {
        Some(i) => i,
        None => return None,
    };
    let end = match find_first(l.as_slice(), b.as_slice()) {
        Some(i) => i,
        None => return None,
    };
    assert(crate::text::occurs_at(l@, a@, start as int));
    assert(start + a@.len() <= l@.len());
    proof {
        reveal_strlit("# cmd:");
    }
    if end < start || end - start < 6 {
        return None;
    }
    let mid = slice_chars(c.as_slice(), start + 6, end);
    let t = trim_chars(mid.as_slice());
    Some(string_of(t.as_slice()))
}

/// The conda installation an executable belongs to: above `bin`,
/// `scripts` or `condabin` (in any case), else its directory.
pub open spec fn conda_dir_of_executable(exe: Seq<char>) -> Option<Seq<char>> {
    match parent_spec(exe) {
        None => None,
        Some(p) => match file_name_spec(p) {
            None => None,
            Some(n) => {
                let folder = ascii_lower(n);
                if folder == "bin"@ || folder == "scripts"@ || folder == "condabin"@ {
                    parent_spec(p)
                } else {
                    Some(p)
                }
            },
        },
    }
}

fn eq_lit(a: &[char], lit: &str) -> (r: bool)
    ensures
        r == (a@ == lit@),
{
    let l = chars_of(lit);
    crate::text::chars_eq(a, l.as_slice())
}

pub fn conda_dir_from_executable(exe: &str) -> (r: Option<String>)
    ensures
        opt_view(r) == conda_dir_of_executable(exe@),
{
    let p = match parent(exe) {
        Some(p) => p,
        None => return None,
    };
    let n = match file_name(p.as_str()) {
        Some(n) => n,
        None => return None,
    };
    let nv = chars_of(n.as_str());
    let folder = ascii_lower_chars(nv.as_slice());
    if eq_lit(folder.as_slice(), "bin") || eq_lit(folder.as_slice(), "scripts") || eq_lit(
        folder.as_slice(),
        "condabin",
    ) {
        parent(p.as_str())
    } else {
        Some(p)
    }
}

/// The conda installation named by a creation command; `resolved` is where
/// the named executable's symlink leads, when it is one.
pub fn get_conda_dir_from_cmd(cmd_line: &str, resolved: &Option<String>) -> (r: Option<String>)
    ensures
        opt_view(r) == (match cmd_executable_spec(cmd_line@) {
            Some(exe) => conda_dir_of_executable(
                match resolved {
                    Some(t) => t@,
                    None => exe,
                },
            ),
            None => None,
        }),
{
    let exe = match conda_executable_from_cmd(cmd_line) {
        Some(e) => e,
        None => return None,
    };
    let target = match resolved {
        Some(t) => t.clone(),
        None => exe,
    };
    conda_dir_from_executable(target.as_str())
}

} // verus!

verus! {

/// The conda installation named by a history's creation command.
pub open spec fn history_conda_dir_spec(history: Option<Seq<char>>, resolved: Option<Seq<char>>) -> Option<Seq<char>> {
    match history {
        Some(h) => match creation_line_of(lines_spec(h)) {
            Some(line) => match cmd_executable_spec(line) {
                Some(exe) => conda_dir_of_executable(
                    match resolved {
                        Some(t) => t,
                        None => exe,
                    },
                ),
                None => None,
            },
            None => None,
        },
        None => None,
    }
}

fn history_conda_dir(history: &Option<String>, resolved: &Option<String>) -> (r: Option<String>)
    ensures
        opt_view(r) == history_conda_dir_spec(opt_view(*history), opt_view(*resolved)),
{
    match history {
        Some(h) => match get_conda_creation_line_from_history(h.as_str()) {
            Some(line) => get_conda_dir_from_cmd(line.as_str(), resolved),
            None => None,
        },
        None => None,
    }
}

/// The conda installation that created the environment at `env_path`: its
/// grandparent when that is an installation, else the installation named
/// by the history's creation command (or that installation's parent), else
/// the path itself when it is an installation.
pub open spec fn creating_install_spec(
    env_path: Seq<char>,
    f: FileFacts,
    history: Option<Seq<char>>,
    resolved: Option<Seq<char>>,
) -> Option<Seq<char>> {
    let grand = match parent_spec(env_path) {
        Some(p) => parent_spec(p),
        None => None,
    };
    if grand is Some && conda_install_spec(grand.unwrap(), f) {
        grand
    } else {
        let from_history = history_conda_dir_spec(history, resolved);
        let via_history = match from_history {
            Some(d) => if conda_install_spec(d, f) {
                Some(d)
            } else if parent_spec(d) is Some && conda_install_spec(parent_spec(d).unwrap(), f) {
                parent_spec(d)
            } else {
                None
            },
            None => None,
        };
        if via_history is Some {
            via_history
        } else if conda_install_spec(env_path, f) {
            Some(env_path)
        } else {
            None
        }
    }
}

/// Finds the conda installation that created an environment, given the
/// text of its history and where the recorded conda executable's symlink
/// leads (`resolved`), when it is one.
pub fn get_conda_installation_used_to_create_conda_env(
    env_path: &str,
    facts: &FileFacts,
    history: &Option<String>,
    resolved: &Option<String>,
) -> (r: Option<String>)
    ensures
        opt_view(r) == creating_install_spec(env_path@, *facts, opt_view(*history), opt_view(*resolved)),
{
    match parent(env_path) {
        Some(p) => match parent(p.as_str()) {
            Some(g) => if is_conda_install(g.as_str(), facts) {
                return Some(g);
            },
            None => {},
        },
        None => {},
    }
    let from_history = history_conda_dir(history, resolved);
    match from_history {
        Some(d) => {
            if is_conda_install(d.as_str(), facts) {
                return Some(d);
            }
            match parent(d.as_str()) {
                Some(pd) => if is_conda_install(pd.as_str(), facts) {
                    return Some(pd);
                },
                None => {},
            }
        },
        None => {},
    }
    if is_conda_install(env_path, facts) {
        Some(env_path.to_string())
    } else {
        None
    }
}

/// The environment's own name, when its history's creation command names it.
pub open spec fn name_from_history_spec(env_path: Seq<char>, history: Option<Seq<char>>) -> Option<Seq<char>> {
    match file_name_spec(env_path) {
        None => None,
        Some(name) => match history {
            Some(h) => match creation_line_of(lines_spec(h)) {
                Some(line) => if env_name_in_cmd_spec(line, name) {
                    Some(name)
                } else {
                    None
                },
                None => None,
            },
            None => None,
        },
    }
}

pub fn get_conda_env_name_from_history_file(env_path: &str, history: &Option<String>) -> (r: Option<String>)
    ensures
        opt_view(r) == name_from_history_spec(env_path@, opt_view(*history)),
{
    let name = match file_name(env_path) {
        Some(n) => n,
        None => return None,
    };
    match history {
        Some(h) => match get_conda_creation_line_from_history(h.as_str()) {
            Some(line) => if is_conda_env_name_in_cmd(line.as_str(), name.as_str()) {
                Some(name)
            } else {
                None
            },
            None => None,
        },
        None => None,
    }
}

/// The name of a conda environment: `base` for an installation, else its
/// directory name; outside the installation that manages it, only the name
/// its creation command gave it.
pub open spec fn env_name_spec(
    prefix: Seq<char>,
    conda_dir: Option<Seq<char>>,
    f: FileFacts,
    history: Option<Seq<char>>,
) -> Option<Seq<char>> {
    if conda_dir is Some && !path_starts_with(prefix, conda_dir.unwrap()) {
        name_from_history_spec(prefix, history)
    } else if conda_install_spec(prefix, f) {
        Some("base"@)
    } else {
        file_name_spec(prefix)
    }
}

pub fn get_conda_env_name(
    prefix: &str,
    conda_dir: &Option<String>,
    facts: &FileFacts,
    history: &Option<String>,
) -> (r: Option<String>)
    ensures
        opt_view(r) == env_name_spec(prefix@, opt_view(*conda_dir), *facts, opt_view(*history)),
{
    match conda_dir {
        Some(d) => if !starts_with(prefix, d.as_str()) {
            return get_conda_env_name_from_history_file(prefix, history);
        },
        None => {},
    }
    if is_conda_install(prefix, facts) {
        Some("base".to_string())
    } else {
        file_name(prefix)
    }
}

} // verus!
