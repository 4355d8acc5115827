//! Where R executables live inside an installation, and which names count.

use vstd::prelude::*;
use crate::facts::{file_in, listing, listing_of, FileFacts, Listings};
use crate::path::{
    contains_path, ends_with, file_name, file_name_spec, is_sorted_set_of, join, join_spec, lemma_sorted_set_unique,
    lemma_views_push, parent, parent_spec, path_ends_with, path_eq, sort_dedup_paths, views,
};
use crate::pattern::{is_match, regex_is_match};
use crate::text::{to_lowercase, unicode_lowercase};

verus! {

broadcast use lemma_views_push;

/// Outcome of looking for an executable in an installation directory.
#[derive(Debug)]
pub enum ExecutableResult {
    Found(String),
    Broken(String),
    NotFound,
}

/// Architecture directories in order of preference for a host architecture.
pub open spec fn arch_order(architecture: Seq<char>) -> Seq<Seq<char>> {
    if architecture == "aarch64"@ || architecture == "arm64"@ {
        seq!["aarch64"@, "arm64"@, "x64"@, "i386"@]
    } else if architecture == "x86"@ || architecture == "i386"@ || architecture == "i686"@ {
        seq!["i386"@, "x64"@, "aarch64"@, "arm64"@]
    } else {
        seq!["x64"@, "aarch64"@, "arm64"@, "i386"@]
    }
}

/// `root/bin/a` and `root/a` for each architecture directory `a`, in order.
pub open spec fn arch_dirs(root: Seq<char>, arches: Seq<Seq<char>>) -> Seq<Seq<char>>
    decreases arches.len(),
{
    if arches.len() == 0 {
        Seq::empty()
    } else {
        arch_dirs(root, arches.drop_last()) + seq![
            join_spec(join_spec(root, "bin"@), arches.last()),
            join_spec(root, arches.last()),
        ]
    }
}

/// Directories that may hold the executables, most preferred first.
pub open spec fn candidate_dirs(root: Seq<char>, windows: bool, architecture: Seq<char>) -> Seq<
    Seq<char>,
> {
    (if windows {
        seq![
            join_spec(root, "Scripts"@),
            join_spec(join_spec(root, "Library"@), "bin"@),
            join_spec(root, "Library/lib/R/bin"@),
            join_spec(root, "Library/lib64/R/bin"@),
        ]
    } else {
        Seq::empty()
    }) + seq![join_spec(root, "bin"@)] + (if windows {
        arch_dirs(root, arch_order(architecture))
    } else {
        Seq::empty()
    }) + seq![
        join_spec(join_spec(join_spec(root, "lib"@), "R"@), "bin"@),
        join_spec(join_spec(join_spec(root, "lib64"@), "R"@), "bin"@),
        join_spec(join_spec(root, "Resources"@), "bin"@),
        root,
    ]
}

/// Each directory joined with the two executable names, in order.
pub open spec fn with_names(dirs: Seq<Seq<char>>, r: Seq<char>, rscript: Seq<char>) -> Seq<
    Seq<char>,
>
    decreases dirs.len(),
{
    if dirs.len() == 0 {
        Seq::empty()
    } else {
        with_names(dirs.drop_last(), r, rscript) + seq![
            join_spec(dirs.last(), r),
            join_spec(dirs.last(), rscript),
        ]
    }
}

/// The candidate executable paths of an installation root.
pub open spec fn candidates_spec(root: Seq<char>, windows: bool, architecture: Seq<char>) -> Seq<
    Seq<char>,
> {
    if windows {
        with_names(candidate_dirs(root, windows, architecture), "R.exe"@, "Rscript.exe"@)
    } else {
        with_names(candidate_dirs(root, windows, architecture), "R"@, "Rscript"@)
    }
}

fn push_arch_dirs(dirs: &mut Vec<String>, root: &str, architecture: &str)
    ensures
        views(final(dirs)@) == views(old(dirs)@) + arch_dirs(root@, arch_order(architecture@)),
{
    let ghost order = arch_order(architecture@);
    let arches: [&str; 4] = if path_eq(architecture, "aarch64") || path_eq(architecture, "arm64") {
        let a = ["aarch64", "arm64", "x64", "i386"];
        assert(a@[0]@ == order[0] && a@[1]@ == order[1] && a@[2]@ == order[2] && a@[3]@ == order[3]);
        a
    } else if path_eq(architecture, "x86") || path_eq(architecture, "i386") || path_eq(
        architecture,
        "i686",
    ) {
        let a = ["i386", "x64", "aarch64", "arm64"];
        assert(a@[0]@ == order[0] && a@[1]@ == order[1] && a@[2]@ == order[2] && a@[3]@ == order[3]);
        a
    } else {
        let a = ["x64", "aarch64", "arm64", "i386"];
        assert(a@[0]@ == order[0] && a@[1]@ == order[1] && a@[2]@ == order[2] && a@[3]@ == order[3]);
        a
    };
    assert(order.len() == 4);
    assert(forall|k: int| 0 <= k < 4 ==> #[trigger] arches@[k]@ == order[k]);
    let ghost start = views(dirs@);
    let bin = join(root, "bin");
    let mut k: usize = 0;
    while k < 4
        invariant
            k <= 4,
            bin@ == join_spec(root@, "bin"@),
            order == arch_order(architecture@),
            order.len() == 4,
            forall|j: int| 0 <= j < 4 ==> #[trigger] arches@[j]@ == order[j],
            views(dirs@) == start + arch_dirs(
                root@,
                order.subrange(0, k as int),
            ),
        decreases 4 - k,
    {
        assert(order.subrange(0, k + 1).drop_last() == order.subrange(0, k as int));
        dirs.push(join(bin.as_str(), arches[k]));
        dirs.push(join(root, arches[k]));
        k = k + 1;
    }
    assert(order.subrange(0, 4) == order);
}

/// Ordered candidate executables of an installation root, shared by
/// discovery, directory resolution and broken-link reporting.  The platform
/// and architecture are arguments so that every layout can be tested on any
/// host.
pub fn executable_candidates_for_platform(root: &str, windows: bool, architecture: &str) -> (r: Vec<
    String,
>)
    ensures
        views(r@) == candidates_spec(root@, windows, architecture@),
{
    let mut dirs: Vec<String> = Vec::new();
    if windows {
        dirs.push(join(root, "Scripts"));
        let library = join(root, "Library");
        dirs.push(join(library.as_str(), "bin"));
        dirs.push(join(root, "Library/lib/R/bin"));
        dirs.push(join(root, "Library/lib64/R/bin"));
    }
    dirs.push(join(root, "bin"));
    if windows {
        push_arch_dirs(&mut dirs, root, architecture);
    }
    let lib = join(root, "lib");
    let lib_r = join(lib.as_str(), "R");
    dirs.push(join(lib_r.as_str(), "bin"));
    let lib64 = join(root, "lib64");
    let lib64_r = join(lib64.as_str(), "R");
    dirs.push(join(lib64_r.as_str(), "bin"));
    let resources = join(root, "Resources");
    dirs.push(join(resources.as_str(), "bin"));
    dirs.push(root.to_string());
    let ghost dv = views(dirs@);
    assert(dv == candidate_dirs(root@, windows, architecture@));
    let (r_name, rscript_name) = if windows {
        ("R.exe", "Rscript.exe")
    } else {
        ("R", "Rscript")
    };
    let mut out: Vec<String> = Vec::new();
    let mut i: usize = 0;
    while i < dirs.len()
        invariant
            i <= dirs.len(),
            dv == views(dirs@),
            views(out@) == with_names(
                dv.subrange(0, i as int),
                r_name@,
                rscript_name@,
            ),
        decreases dirs.len() - i,
    {
        assert(dv.subrange(0, i + 1).drop_last() == dv.subrange(0, i as int));
        out.push(join(dirs[i].as_str(), r_name));
        out.push(join(dirs[i].as_str(), rscript_name));
        i = i + 1;
    }
    assert(dv.subrange(0, dirs.len() as int) == dv);
    out
}

/// The file-name pattern of an R executable on the platform.
pub open spec fn executable_pattern(windows: bool) -> Seq<char> {
    if windows {
        "^(r|rscript)(\\.exe)?$"@
    } else {
        "^(r|rscript)$"@
    }
}

/// Whether the lowercased file name of `exe` names an R executable.
pub open spec fn is_r_executable_name_spec(exe: Seq<char>, windows: bool) -> bool {
    let name = match file_name_spec(exe) {
        Some(n) => n,
        None => Seq::empty(),
    };
    regex_is_match(executable_pattern(windows), unicode_lowercase(name))
}

/// Whether the file name of `exe` is `R` or `Rscript` in any case, with an
/// optional `.exe` on Windows.
pub fn is_r_executable_name(exe: &str, windows: bool) -> (r: bool)
    ensures
        r == is_r_executable_name_spec(exe@, windows),
{
    let name = match file_name(exe) {
        Some(n) => n,
        None => String::new(),
    };
    let lower = to_lowercase(name.as_str());
    if windows {
        is_match("^(r|rscript)(\\.exe)?$", lower.as_str())
    } else {
        is_match("^(r|rscript)$", lower.as_str())
    }
}

/// Directory names that never hold an installation worth searching.
pub open spec fn ignored_folders() -> Seq<Seq<char>> {
    seq![
        "node_modules"@,
        ".cargo"@,
        ".devcontainer"@,
        ".github"@,
        ".git"@,
        ".cache"@,
        ".vscode"@,
        ".Rproj.user"@,
        "renv"@,
        "library"@,
    ]
}

/// Whether a directory is worth searching: it does not end with one of the
/// ignored folder names.
pub fn should_search_for_installations_in_path(path: &str) -> (r: bool)
    ensures
        r == !(exists|k: int|
            0 <= k < ignored_folders().len() && path_ends_with(
                path@,
                #[trigger] ignored_folders()[k],
            )),
{
    let folders: [&str; 10] = [
        "node_modules",
        ".cargo",
        ".devcontainer",
        ".github",
        ".git",
        ".cache",
        ".vscode",
        ".Rproj.user",
        "renv",
        "library",
    ];
    let ghost ig = ignored_folders();
    assert(forall|k: int| 0 <= k < 10 ==> #[trigger] folders@[k]@ == ig[k]);
    let mut i: usize = 0;
    while i < 10
        invariant
            i <= 10,
            ig == ignored_folders(),
            ig.len() == 10,
            forall|k: int| 0 <= k < 10 ==> #[trigger] folders@[k]@ == ig[k],
            forall|k: int| 0 <= k < i ==> !path_ends_with(path@, #[trigger] ig[k]),
        decreases 10 - i,
    {
        if ends_with(path, folders[i]) {
            assert(path_ends_with(path@, ig[i as int]));
            return false;
        }
        i = i + 1;
    }
    true
}

/// The preferred executable among those found, the first.
pub fn find_executable(executables: &Vec<String>) -> (r: Option<String>)
    ensures
        r == (if executables@.len() > 0 {
            Some(executables@[0])
        } else {
            None
        }),
{
    if executables.len() > 0 {
        Some(executables[0].clone())
    } else {
        None
    }
}

/// The outcome for an installation directory: the directory itself when it
/// is a broken link, else the first executable found, else the first
/// candidate that is a broken link.
pub fn find_executable_or_broken(
    install_path: &str,
    install_path_is_broken: bool,
    executables: &Vec<String>,
    broken_candidates: &Vec<String>,
) -> (r: ExecutableResult)
    ensures
        r == (if install_path_is_broken {
            ExecutableResult::Broken(r->Broken_0)
        } else if executables@.len() > 0 {
            ExecutableResult::Found(executables@[0])
        } else if broken_candidates@.len() > 0 {
            ExecutableResult::Broken(broken_candidates@[0])
        } else {
            ExecutableResult::NotFound
        }),
        install_path_is_broken ==> (r matches ExecutableResult::Broken(p) && p@ == install_path@),
{
    if install_path_is_broken {
        return ExecutableResult::Broken(install_path.to_string());
    }
    if executables.len() > 0 {
        return ExecutableResult::Found(executables[0].clone());
    }
    if broken_candidates.len() > 0 {
        return ExecutableResult::Broken(broken_candidates[0].clone());
    }
    ExecutableResult::NotFound
}

/// The paths among `c` that are files, in order.
pub open spec fn files_among(c: Seq<Seq<char>>, f: FileFacts) -> Seq<Seq<char>>
    decreases c.len(),
{
    if c.len() == 0 {
        Seq::empty()
    } else if file_in(f, c.last()) {
        files_among(c.drop_last(), f).push(c.last())
    } else {
        files_among(c.drop_last(), f)
    }
}

/// The files among `c` named like an R executable, in order.
pub open spec fn r_files(c: Seq<Seq<char>>, f: FileFacts, windows: bool) -> Seq<Seq<char>>
    decreases c.len(),
{
    if c.len() == 0 {
        Seq::empty()
    } else if file_in(f, c.last()) && is_r_executable_name_spec(c.last(), windows) {
        r_files(c.drop_last(), f, windows).push(c.last())
    } else {
        r_files(c.drop_last(), f, windows)
    }
}

/// The parents of the paths of `c`, in order.
pub open spec fn parents_of(c: Seq<Seq<char>>) -> Seq<Seq<char>>
    decreases c.len(),
{
    if c.len() == 0 {
        Seq::empty()
    } else {
        parents_of(c.drop_last()) + match parent_spec(c.last()) {
            Some(p) => seq![p],
            None => Seq::empty(),
        }
    }
}

/// The paths of `s` in path order, each once.
pub open spec fn sorted_set(s: Seq<Seq<char>>) -> Seq<Seq<char>> {
    choose|o: Seq<Seq<char>>| is_sorted_set_of(o, s)
}

proof fn lemma_sorted_set(o: Seq<Seq<char>>, s: Seq<Seq<char>>)
    requires
        is_sorted_set_of(o, s),
    ensures
        sorted_set(s) == o,
{
    let c = sorted_set(s);
    assert(is_sorted_set_of(c, s));
    lemma_sorted_set_unique(c, o);
}

/// `acc` followed by the paths of `extra` it does not hold yet, in order.
pub open spec fn append_new(acc: Seq<Seq<char>>, extra: Seq<Seq<char>>) -> Seq<Seq<char>>
    decreases extra.len(),
{
    if extra.len() == 0 {
        acc
    } else {
        let a = append_new(acc, extra.drop_last());
        if a.contains(extra.last()) {
            a
        } else {
            a.push(extra.last())
        }
    }
}

/// `acc` extended, directory by directory, with the R executables each
/// directory lists, sorted.
pub open spec fn with_listed(
    acc: Seq<Seq<char>>,
    dirs: Seq<Seq<char>>,
    f: FileFacts,
    l: Seq<(String, Vec<String>)>,
    windows: bool,
) -> Seq<Seq<char>>
    decreases dirs.len(),
{
    if dirs.len() == 0 {
        acc
    } else {
        append_new(with_listed(acc, dirs.drop_last(), f, l, windows), sorted_set(r_files(listing_of(l, dirs.last()), f, windows)))
    }
}

/// The R executables of an installation: the root itself when it is a file
/// named like one; else the candidates that are files, in candidate order,
/// followed by the other R executables, in any case of their names, that the
/// candidates' directories hold (directories in path order, each one's
/// executables sorted).
pub open spec fn find_executables_spec(
    root: Seq<char>,
    windows: bool,
    architecture: Seq<char>,
    f: FileFacts,
    l: Seq<(String, Vec<String>)>,
) -> Seq<Seq<char>> {
    if file_in(f, root) {
        if is_r_executable_name_spec(root, windows) {
            seq![root]
        } else {
            Seq::empty()
        }
    } else {
        let c = candidates_spec(root, windows, architecture);
        with_listed(files_among(c, f), sorted_set(parents_of(c)), f, l, windows)
    }
}

fn append_new_exec(out: &mut Vec<String>, extra: &Vec<String>)
    ensures
        views(final(out)@) == append_new(views(old(out)@), views(extra@)),
{
    let ghost acc = views(out@);
    let mut i: usize = 0;
    while i < extra.len()
        invariant
            i <= extra.len(),
            views(out@) == append_new(acc, views(extra@).subrange(0, i as int)),
        decreases extra.len() - i,
    {
        assert(views(extra@).subrange(0, i + 1).drop_last() == views(extra@).subrange(0, i as int));
        assert(views(extra@).subrange(0, i + 1).last() == extra@[i as int]@);
        if !contains_path(out, extra[i].as_str()) {
            out.push(extra[i].clone());
        }
        i = i + 1;
    }
    assert(views(extra@).subrange(0, extra.len() as int) == views(extra@));
}

fn r_files_exec(c: &Vec<String>, facts: &FileFacts, windows: bool) -> (r: Vec<String>)
    ensures
        views(r@) == r_files(views(c@), *facts, windows),
{
    let mut out: Vec<String> = Vec::new();
    let mut i: usize = 0;
    while i < c.len()
        invariant
            i <= c.len(),
            views(out@) == r_files(views(c@).subrange(0, i as int), *facts, windows),
        decreases c.len() - i,
    {
        assert(views(c@).subrange(0, i + 1).drop_last() == views(c@).subrange(0, i as int));
        assert(views(c@).subrange(0, i + 1).last() == c@[i as int]@);
        if facts.is_file(c[i].as_str()) && is_r_executable_name(c[i].as_str(), windows) {
            out.push(c[i].clone());
        }
        i = i + 1;
    }
    assert(views(c@).subrange(0, c.len() as int) == views(c@));
    out
}

/// The R executables of an installation root: see `find_executables_spec`.
pub fn find_executables(
    root: &str,
    windows: bool,
    architecture: &str,
    facts: &FileFacts,
    listings: &Listings,
) -> (r: Vec<String>)
    ensures
        views(r@) == find_executables_spec(root@, windows, architecture@, *facts, listings@),
{
    if facts.is_file(root) {
        let mut r: Vec<String> = Vec::new();
        if is_r_executable_name(root, windows) {
            r.push(root.to_string());
            assert(views(r@) =~= seq![root@]);
        }
        return r;
    }
    let candidates = executable_candidates_for_platform(root, windows, architecture);
    let ghost c = views(candidates@);
    let mut out: Vec<String> = Vec::new();
    let mut parents: Vec<String> = Vec::new();
    let mut i: usize = 0;
    while i < candidates.len()
        invariant
            i <= candidates.len(),
            c == views(candidates@),
            views(out@) == files_among(c.subrange(0, i as int), *facts),
            views(parents@) == parents_of(c.subrange(0, i as int)),
        decreases candidates.len() - i,
    {
        assert(c.subrange(0, i + 1).drop_last() == c.subrange(0, i as int));
        assert(c.subrange(0, i + 1).last() == candidates@[i as int]@);
        if facts.is_file(candidates[i].as_str()) {
            out.push(candidates[i].clone());
        }
        let ghost before = views(parents@);
        match parent(candidates[i].as_str()) {
            Some(p) => {
                parents.push(p);
                assert(views(parents@) =~= before + seq![p@]);
            },
            None => {
                assert(views(parents@) =~= before + Seq::<Seq<char>>::empty());
            },
        }
        i = i + 1;
    }
    assert(c.subrange(0, candidates.len() as int) == c);
    let dirs = sort_dedup_paths(parents);
    proof {
        lemma_sorted_set(views(dirs@), parents_of(c));
    }
    let ghost start = files_among(c, *facts);
    let mut k: usize = 0;
    while k < dirs.len()
        invariant
            k <= dirs.len(),
            views(out@) == with_listed(start, views(dirs@).subrange(0, k as int), *facts, listings@, windows),
        decreases dirs.len() - k,
    {
        assert(views(dirs@).subrange(0, k + 1).drop_last() == views(dirs@).subrange(0, k as int));
        assert(views(dirs@).subrange(0, k + 1).last() == dirs@[k as int]@);
        let entries = listing(listings, dirs[k].as_str());
        let found = r_files_exec(&entries, facts, windows);
        let sorted = sort_dedup_paths(found);
        proof {
            lemma_sorted_set(views(sorted@), views(found@));
        }
        append_new_exec(&mut out, &sorted);
        k = k + 1;
    }
    assert(views(dirs@).subrange(0, dirs.len() as int) == views(dirs@));
    out
}

} // verus!
