//! Environment directories configured in `.condarc` files.

use vstd::prelude::*;
use crate::environment::{env_get, Environment};
use crate::facts::{dir_in, file_in, listing, listing_of, FileFacts, Listings};
use crate::locator::Host;
use crate::path::{
    expand_home, expand_home_spec, file_name, file_name_spec, is_sorted_set_of, join, join_all, join_spec, lemma_views_push,
    sort_dedup_paths, views,
};
use crate::r_installation::opt_view;
use crate::text::{chars_of, contains_chars, contains_seq, ends_with_chars, ends_with_seq, string_of, trim, trim_chars};
use yaml_rust2::YamlLoader;

verus! {

broadcast use lemma_views_push;

/// The environment directories a `.condarc` lists.
#[derive(Debug)]
pub struct CondarcEnvDirs {
    pub env_dirs: Vec<String>,
}

/// What `yaml_rust2::YamlLoader::load_from_str` makes of a text, read at
/// `key` of its first document: `None` when the text is not YAML; inside,
/// `None` when there is no document or the member is not a list, else each
/// item's string (`None` for an item that is not a string).
pub uninterp spec fn yaml_list_items(contents: Seq<char>, key: Seq<char>) -> Option<
    Option<Seq<Option<Seq<char>>>>,
>;

/// Loads the text with `YamlLoader::load_from_str` and reads the first
/// document's member with `Index<&str>`, `Yaml::as_vec` and `Yaml::as_str`.
#[verifier::external_body]
fn yaml_items(contents: &str, key: &str) -> (r: Option<Option<Vec<Option<String>>>>)
    ensures
        match r {
            Some(Some(v)) => yaml_list_items(contents@, key@) == Some(
                Some(v@.map_values(|i: Option<String>| opt_view(i))),
            ),
            Some(None) => yaml_list_items(contents@, key@) == Some(None::<Seq<Option<Seq<char>>>>),
            None => yaml_list_items(contents@, key@) is None,
        },
{
    let docs = YamlLoader::load_from_str(contents).ok()?;
    let list = docs.first().and_then(|doc| doc[key].as_vec());
    Some(list.map(|v| v.iter().map(|i| i.as_str().map(|s| s.to_string())).collect()))
}

/// The items of a member: none when it is missing or not a list.
pub open spec fn member_items(m: Option<Seq<Option<Seq<char>>>>) -> Seq<Option<Seq<char>>> {
    match m {
        Some(v) => v,
        None => Seq::empty(),
    }
}

/// The directories among list items: string items, trimmed, when not
/// empty, with a leading `~` expanded to the home directory.
pub open spec fn dirs_of(items: Seq<Option<Seq<char>>>, home: Option<Seq<char>>) -> Seq<Seq<char>>
    decreases items.len(),
{
    if items.len() == 0 {
        Seq::empty()
    } else {
        let prev = dirs_of(items.drop_last(), home);
        match items.last() {
            Some(s) => if trim(s).len() > 0 {
                prev.push(expand_home_spec(trim(s), home))
            } else {
                prev
            },
            None => prev,
        }
    }
}

fn collect_dirs(items: &Vec<Option<String>>, home: &Option<String>, out: &mut Vec<String>)
    ensures
        views(final(out)@) == views(old(out)@) + dirs_of(items@.map_values(|i: Option<String>| opt_view(i)), opt_view(*home)),
{
    let ghost start = views(out@);
    let ghost iv = items@.map_values(|i: Option<String>| opt_view(i));
    let mut i: usize = 0;
    while i < items.len()
        invariant
            i <= items.len(),
            iv == items@.map_values(|i: Option<String>| opt_view(i)),
            views(out@) == start + dirs_of(iv.subrange(0, i as int), opt_view(*home)),
        decreases items.len() - i,
    {
        assert(iv.subrange(0, i + 1).drop_last() == iv.subrange(0, i as int));
        assert(iv.subrange(0, i + 1).last() == opt_view(items@[i as int]));
        match &items[i] {
            Some(s) => {
                let v = chars_of(s.as_str());
                let t = trim_chars(v.as_slice());
                if t.len() > 0 {
                    out.push(expand_home(string_of(t.as_slice()).as_str(), home));
                }
            },
            None => {},
        }
        i = i + 1;
    }
    assert(iv.subrange(0, items.len() as int) == iv);
}

/// The directories a `.condarc` text lists under `envs_dirs`, then under
/// `envs_path` (a missing member, or one that is not a list, lists none),
/// each with a leading `~` expanded to `home`; `None` when the text is not
/// YAML.
pub open spec fn condarc_dirs_spec(contents: Seq<char>, home: Option<Seq<char>>) -> Option<Seq<Seq<char>>> {
    match yaml_list_items(contents, "envs_dirs"@) {
        None => None,
        Some(a) => match yaml_list_items(contents, "envs_path"@) {
            None => None,
            Some(b) => Some(dirs_of(member_items(a), home) + dirs_of(member_items(b), home)),
        },
    }
}

pub fn parse_conda_rc_contents(contents: &str, home: &Option<String>) -> (r: Option<CondarcEnvDirs>)
    ensures
        match r {
            Some(c) => condarc_dirs_spec(contents@, opt_view(*home)) == Some(views(c.env_dirs@)),
            None => condarc_dirs_spec(contents@, opt_view(*home)) is None,
        },
{
    let first = match yaml_items(contents, "envs_dirs") {
        Some(Some(v)) => v,
        Some(None) => Vec::new(),
        None => return None,
    };
    let second = match yaml_items(contents, "envs_path") {
        Some(Some(v)) => v,
        Some(None) => Vec::new(),
        None => return None,
    };
    proof {
        assert(Seq::<Option<String>>::empty().map_values(|i: Option<String>| opt_view(i)) =~= Seq::<
            Option<Seq<char>>,
        >::empty());
    }
    let mut env_dirs: Vec<String> = Vec::new();
    collect_dirs(&first, home, &mut env_dirs);
    collect_dirs(&second, home, &mut env_dirs);
    Some(CondarcEnvDirs { env_dirs })
}

pub open spec fn rc_pair(d: Seq<char>) -> Seq<Seq<char>> {
    seq![join_spec(d, ".condarc"@), join_spec(d, "condarc"@)]
}

/// The system-wide `.condarc` files.
pub open spec fn system_rc_paths(env: Environment, windows: bool) -> Seq<Seq<char>> {
    if windows {
        match env_get(env.variables@, "ProgramData"@) {
            Some(pd) => rc_pair(join_spec(pd, "conda"@)) + rc_pair(join_spec(pd, "miniconda"@)) + rc_pair(
                join_spec(pd, "miniconda3"@),
            ),
            None => Seq::empty(),
        }
    } else {
        rc_pair("/etc/conda"@) + rc_pair("/var/lib/conda"@)
    }
}

/// The `.condarc` files of the directory a variable names (a leading `~`
/// expanded to the user's home).
pub open spec fn var_rc_paths(env: Environment, var: Seq<char>) -> Seq<Seq<char>> {
    match env_get(env.variables@, var) {
        Some(d) => rc_pair(expand_home_spec(d, opt_view(env.user_home))),
        None => Seq::empty(),
    }
}

/// The user's `.condarc` files and directory.
pub open spec fn home_rc_paths(home: Option<Seq<char>>) -> Seq<Seq<char>> {
    match home {
        Some(h) => seq![
            join_spec(h, ".condarc"@),
            join_spec(join_spec(h, ".conda"@), ".condarc"@),
            join_spec(join_spec(h, ".conda"@), "condarc"@),
            join_spec(join_spec(join_spec(h, ".config"@), "conda"@), ".condarc"@),
            join_spec(join_spec(join_spec(h, ".config"@), "conda"@), "condarc"@),
            join_spec(join_spec(join_spec(h, ".config"@), "conda"@), "condarc.d"@),
            join_spec(h, ".mambarc"@),
        ],
        None => Seq::empty(),
    }
}

/// The `.condarc` files and directories read: system-wide ones, those under
/// `CONDA_ROOT` and `CONDA_PREFIX`, the user's, and `CONDARC` (a leading
/// `~` expanded to the user's home).
pub open spec fn condarc_paths_spec(env: Environment, windows: bool) -> Seq<Seq<char>> {
    system_rc_paths(env, windows) + var_rc_paths(env, "CONDA_ROOT"@) + var_rc_paths(env, "CONDA_PREFIX"@)
        + home_rc_paths(opt_view(env.user_home)) + match env_get(env.variables@, "CONDARC"@) {
        Some(c) => seq![expand_home_spec(c, opt_view(env.user_home))],
        None => Seq::empty(),
    }
}

fn rc_pair_exec(dir: &str) -> (r: Vec<String>)
    ensures
        views(r@) == rc_pair(dir@),
{
    let mut v: Vec<String> = Vec::new();
    v.push(join(dir, ".condarc"));
    v.push(join(dir, "condarc"));
    assert(views(v@) =~= rc_pair(dir@));
    v
}

fn append_paths(dst: &mut Vec<String>, src: Vec<String>)
    ensures
        views(final(dst)@) == views(old(dst)@) + views(src@),
{
    let mut src = src;
    let ghost a = dst@;
    let ghost b = src@;
    dst.append(&mut src);
    assert(views(dst@) =~= views(a) + views(b));
}

fn system_rc_exec(environment: &Environment, windows: bool) -> (r: Vec<String>)
    ensures
        views(r@) == system_rc_paths(*environment, windows),
{
    let mut paths: Vec<String> = Vec::new();
    if windows {
        match environment.get_env_var("ProgramData") {
            Some(pd) => {
                append_paths(&mut paths, rc_pair_exec(join(pd.as_str(), "conda").as_str()));
                append_paths(&mut paths, rc_pair_exec(join(pd.as_str(), "miniconda").as_str()));
                append_paths(&mut paths, rc_pair_exec(join(pd.as_str(), "miniconda3").as_str()));
            },
            None => {},
        }
    } else {
        append_paths(&mut paths, rc_pair_exec("/etc/conda"));
        append_paths(&mut paths, rc_pair_exec("/var/lib/conda"));
    }
    paths
}

fn var_rc_exec(environment: &Environment, var: &str) -> (r: Vec<String>)
    ensures
        views(r@) == var_rc_paths(*environment, var@),
{
    match environment.get_env_var(var) {
        Some(d) => rc_pair_exec(expand_home(d.as_str(), &environment.user_home).as_str()),
        None => Vec::new(),
    }
}

fn home_rc_exec(home: &Option<String>) -> (r: Vec<String>)
    ensures
        views(r@) == home_rc_paths(opt_view(*home)),
{
    let mut paths: Vec<String> = Vec::new();
    match home {
        Some(h) => {
            let hs = h.as_str();
            paths.push(join(hs, ".condarc"));
            let conda = join(hs, ".conda");
            paths.push(join(conda.as_str(), ".condarc"));
            paths.push(join(conda.as_str(), "condarc"));
            let config = join(hs, ".config");
            let cc = join(config.as_str(), "conda");
            paths.push(join(cc.as_str(), ".condarc"));
            paths.push(join(cc.as_str(), "condarc"));
            paths.push(join(cc.as_str(), "condarc.d"));
            paths.push(join(hs, ".mambarc"));
            assert(views(paths@) =~= home_rc_paths(opt_view(*home)));
        },
        None => {},
    }
    paths
}

/// The `.condarc` files and directories read, in path order and each once.
pub fn get_conda_rc_search_paths(environment: &Environment, host: Host) -> (r: Vec<String>)
    ensures
        is_sorted_set_of(views(r@), condarc_paths_spec(*environment, host.windows)),
{
    let mut paths = system_rc_exec(environment, host.windows);
    append_paths(&mut paths, var_rc_exec(environment, "CONDA_ROOT"));
    append_paths(&mut paths, var_rc_exec(environment, "CONDA_PREFIX"));
    append_paths(&mut paths, home_rc_exec(&environment.user_home));
    let ghost before = views(paths@);
    match environment.get_env_var("CONDARC") {
        Some(c) => paths.push(expand_home(c.as_str(), &environment.user_home)),
        None => {},
    }
    assert(views(paths@) =~= before + match env_get(environment.variables@, "CONDARC"@) {
        Some(c) => seq![expand_home_spec(c, opt_view(environment.user_home))],
        None => Seq::<Seq<char>>::empty(),
    });
    assert(views(paths@) == condarc_paths_spec(*environment, host.windows));
    sort_dedup_paths(paths)
}

/// Whether a file in a `.condarc.d` directory is read: a `yaml` or `yml`
/// extension, or `condarc` in its name (compared lowercased).
pub open spec fn condarc_file_name_spec(lower_name: Seq<char>) -> bool {
    ends_with_seq(lower_name, ".yaml"@) || ends_with_seq(lower_name, ".yml"@) || contains_seq(
        lower_name,
        "condarc"@,
    )
}

/// Whether a path names a file that a `.condarc.d` directory contributes.
pub open spec fn is_condarc_path(path: Seq<char>) -> bool {
    match file_name_spec(path) {
        Some(n) => condarc_file_name_spec(crate::text::unicode_lowercase(n)),
        None => false,
    }
}

pub fn is_condarc_file(path: &str) -> (r: bool)
    ensures
        r == is_condarc_path(path@),
{
    match file_name(path) {
        Some(n) => {
            let lower = crate::text::to_lowercase(n.as_str());
            let v = chars_of(lower.as_str());
            let yaml = chars_of(".yaml");
            let yml = chars_of(".yml");
            let rc = chars_of("condarc");
            ends_with_chars(v.as_slice(), yaml.as_slice()) || ends_with_chars(v.as_slice(), yml.as_slice())
                || contains_chars(v.as_slice(), rc.as_slice())
        },
        None => false,
    }
}

/// The environment directories of `.condarc` texts (those that are YAML),
/// a leading `~` expanded to `home`, in path order and each once.
pub fn get_conda_rc_env_dirs(contents: &Vec<String>, home: &Option<String>) -> (r: Vec<String>)
    ensures
        is_sorted_set_of(views(r@), condarc_all_dirs(contents@.map_values(|c: String| c@), opt_view(*home))),
{
    let ghost cv = contents@.map_values(|c: String| c@);
    let mut all: Vec<String> = Vec::new();
    let mut i: usize = 0;
    while i < contents.len()
        invariant
            i <= contents.len(),
            cv == contents@.map_values(|c: String| c@),
            views(all@) == condarc_all_dirs(cv.subrange(0, i as int), opt_view(*home)),
        decreases contents.len() - i,
    {
        assert(cv.subrange(0, i + 1).drop_last() == cv.subrange(0, i as int));
        assert(cv.subrange(0, i + 1).last() == contents@[i as int]@);
        match parse_conda_rc_contents(contents[i].as_str(), home) {
            Some(parsed) => {
                let mut dirs = parsed.env_dirs;
                let ghost before = all@;
                let ghost extra = dirs@;
                all.append(&mut dirs);
                assert(views(all@) =~= views(before) + views(extra));
            },
            None => {},
        }
        i = i + 1;
    }
    assert(cv.subrange(0, contents.len() as int) == cv);
    sort_dedup_paths(all)
}

/// The directories of several `.condarc` texts, one after the other.
pub open spec fn condarc_all_dirs(contents: Seq<Seq<char>>, home: Option<Seq<char>>) -> Seq<Seq<char>>
    decreases contents.len(),
{
    if contents.len() == 0 {
        Seq::empty()
    } else {
        condarc_all_dirs(contents.drop_last(), home) + match condarc_dirs_spec(contents.last(), home) {
            Some(d) => d,
            None => Seq::empty(),
        }
    }
}

/// The files among a directory's entries that it contributes, in order.
pub open spec fn condarc_entries(entries: Seq<Seq<char>>, f: FileFacts) -> Seq<Seq<char>>
    decreases entries.len(),
{
    if entries.len() == 0 {
        Seq::empty()
    } else {
        condarc_entries(entries.drop_last(), f) + if file_in(f, entries.last()) && is_condarc_path(entries.last()) {
            seq![entries.last()]
        } else {
            Seq::empty()
        }
    }
}

/// The `.condarc` files to read, in order: each search path that is a
/// file, and for each that is a directory, the files in it named like
/// configuration files.
pub open spec fn condarc_files_spec(paths: Seq<Seq<char>>, f: FileFacts, l: Seq<(String, Vec<String>)>) -> Seq<Seq<char>>
    decreases paths.len(),
{
    if paths.len() == 0 {
        Seq::empty()
    } else {
        condarc_files_spec(paths.drop_last(), f, l) + if file_in(f, paths.last()) {
            seq![paths.last()]
        } else if dir_in(f, paths.last()) {
            condarc_entries(listing_of(l, paths.last()), f)
        } else {
            Seq::empty()
        }
    }
}

fn condarc_entries_exec(entries: &Vec<String>, facts: &FileFacts, out: &mut Vec<String>)
    ensures
        views(final(out)@) == views(old(out)@) + condarc_entries(views(entries@), *facts),
{
    let ghost start = views(out@);
    let mut i: usize = 0;
    while i < entries.len()
        invariant
            i <= entries.len(),
            views(out@) == start + condarc_entries(views(entries@).subrange(0, i as int), *facts),
        decreases entries.len() - i,
    {
        let ghost cur = views(entries@).subrange(0, i + 1);
        assert(cur.drop_last() == views(entries@).subrange(0, i as int));
        assert(cur.last() == entries@[i as int]@);
        if facts.is_file(entries[i].as_str()) && is_condarc_file(entries[i].as_str()) {
            out.push(entries[i].clone());
            assert(views(out@) =~= start + condarc_entries(cur, *facts));
        } else {
            assert(views(out@) =~= start + condarc_entries(cur, *facts));
        }
        i = i + 1;
    }
    assert(views(entries@).subrange(0, entries.len() as int) == views(entries@));
}

/// The `.condarc` files to read among the search paths: see
/// `condarc_files_spec`.
pub fn get_conda_rc_files(paths: &Vec<String>, facts: &FileFacts, listings: &Listings) -> (r: Vec<String>)
    ensures
        views(r@) == condarc_files_spec(views(paths@), *facts, listings@),
{
    let mut out: Vec<String> = Vec::new();
    let mut i: usize = 0;
    while i < paths.len()
        invariant
            i <= paths.len(),
            views(out@) == condarc_files_spec(views(paths@).subrange(0, i as int), *facts, listings@),
        decreases paths.len() - i,
    {
        let ghost cur = views(paths@).subrange(0, i + 1);
        let ghost before = views(out@);
        assert(cur.drop_last() == views(paths@).subrange(0, i as int));
        assert(cur.last() == paths@[i as int]@);
        if facts.is_file(paths[i].as_str()) {
            out.push(paths[i].clone());
            assert(views(out@) =~= before + seq![paths@[i as int]@]);
        } else if facts.is_dir(paths[i].as_str()) {
            let entries = listing(listings, paths[i].as_str());
            condarc_entries_exec(&entries, facts, &mut out);
        } else {
            assert(views(out@) =~= before + Seq::<Seq<char>>::empty());
        }
        i = i + 1;
    }
    assert(views(paths@).subrange(0, paths.len() as int) == views(paths@));
    out
}

} // verus!
