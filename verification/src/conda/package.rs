//! The version and architecture of the `r-base` package in a conda
//! environment, read from `conda-meta`.

use vstd::prelude::*;
use crate::arch::Architecture;
use crate::lines::{lines, lines_spec};
use crate::path::{file_name, file_name_spec, join, join_all, path_eq, path_lt, path_lt_exec};
use crate::pattern::{captures, regex_captures};
use crate::r_installation::opt_view;
use crate::text::{
    chars_of, contains_seq, ends_with_seq, push_str, starts_with_seq, str_contains, string_of,
    to_lowercase, unicode_lowercase,
};

verus! {

/// The fields of a `conda-meta/<package>.json` record that are read.
#[derive(Debug)]
pub struct CondaMetaPackage {
    pub version: Option<String>,
    pub channel: Option<String>,
    pub subdir: Option<String>,
    pub arch: Option<String>,
}

/// The R version and architecture of a conda environment.
#[derive(Debug)]
pub struct RCondaPackageInfo {
    pub version: String,
    pub arch: Option<Architecture>,
}

/// A package record as plain values: `version`, `channel`, `subdir`, `arch`.
pub type PackageFields = (Option<Seq<char>>, Option<Seq<char>>, Option<Seq<char>>, Option<Seq<char>>);

pub open spec fn package_fields(p: CondaMetaPackage) -> PackageFields {
    (opt_view(p.version), opt_view(p.channel), opt_view(p.subdir), opt_view(p.arch))
}

/// The architecture named by a package's `arch` field, lowercased.
pub open spec fn arch_field(a: Seq<char>) -> Option<Architecture> {
    if contains_seq(a, "aarch64"@) || contains_seq(a, "arm64"@) {
        Some(Architecture::Arm64)
    } else if contains_seq(a, "x86_64"@) {
        Some(Architecture::X64)
    } else if contains_seq(a, "x86"@) || contains_seq(a, "i686"@) || contains_seq(a, "i386"@) {
        Some(Architecture::X86)
    } else {
        None
    }
}

/// The architecture named by a package's `subdir` field, lowercased.
pub open spec fn subdir_field(s: Seq<char>) -> Option<Architecture> {
    if contains_seq(s, "aarch64"@) || contains_seq(s, "arm64"@) {
        Some(Architecture::Arm64)
    } else if contains_seq(s, "64"@) {
        Some(Architecture::X64)
    } else if contains_seq(s, "32"@) {
        Some(Architecture::X86)
    } else {
        None
    }
}

/// The architecture of a package: from `arch`, else from `subdir`.
pub open spec fn parse_arch_spec(arch: Option<Seq<char>>, subdir: Option<Seq<char>>) -> Option<Architecture> {
    let from_arch = match arch {
        Some(a) => arch_field(unicode_lowercase(a)),
        None => None,
    };
    if from_arch is Some {
        from_arch
    } else {
        match subdir {
            Some(s) => subdir_field(unicode_lowercase(s)),
            None => None,
        }
    }
}

pub fn parse_arch(pkg: &CondaMetaPackage) -> (r: Option<Architecture>)
    ensures
        r == parse_arch_spec(opt_view(pkg.arch), opt_view(pkg.subdir)),
{
    match &pkg.arch {
        Some(a) => {
            let l = to_lowercase(a.as_str());
            let s = l.as_str();
            if str_contains(s, "aarch64") || str_contains(s, "arm64") {
                return Some(Architecture::Arm64);
            }
            if str_contains(s, "x86_64") {
                return Some(Architecture::X64);
            }
            if str_contains(s, "x86") || str_contains(s, "i686") || str_contains(s, "i386") {
                return Some(Architecture::X86);
            }
        },
        None => {},
    }
    match &pkg.subdir {
        Some(d) => {
            let l = to_lowercase(d.as_str());
            let s = l.as_str();
            if str_contains(s, "aarch64") || str_contains(s, "arm64") {
                return Some(Architecture::Arm64);
            }
            if str_contains(s, "64") {
                return Some(Architecture::X64);
            }
            if str_contains(s, "32") {
                return Some(Architecture::X86);
            }
            None
        },
        None => None,
    }
}

/// The pattern of the `r-base` line of a conda history.
pub open spec fn history_pattern() -> Seq<char> {
    ".*r-base-([\\d+\\.]*)-([^\\s]+)"@
}

/// The pattern of an `r-base` package record's file name.
pub open spec fn filename_pattern() -> Seq<char> {
    "^r-base-([\\d+\\.*]*)-.*\\.json$"@
}

/// The version and build of the `r-base` line of a history line.
pub fn history_line_captures(line: &str) -> (r: Option<(String, String)>)
    ensures
        match r {
            Some((v, h)) => regex_captures(history_pattern(), line@) matches Some(g) && g.len() > 2
                && g[1] == Some(v@) && g[2] == Some(h@),
            None => !(regex_captures(history_pattern(), line@) matches Some(g) && g.len() > 2
                && g[1] is Some && g[2] is Some),
        },
{
    let groups = match captures(".*r-base-([\\d+\\.]*)-([^\\s]+)", line) {
        Some(g) => g,
        None => return None,
    };
    if groups.len() <= 2 {
        return None;
    }
    let v = match &groups[1] {
        Some(v) => v.clone(),
        None => return None,
    };
    let h = match &groups[2] {
        Some(h) => h.clone(),
        None => return None,
    };
    Some((v, h))
}

/// The version in an `r-base` package record's file name.
pub fn filename_version(filename: &str) -> (r: Option<String>)
    ensures
        match r {
            Some(v) => regex_captures(filename_pattern(), filename@) matches Some(g) && g.len() > 1
                && g[1] == Some(v@),
            None => !(regex_captures(filename_pattern(), filename@) matches Some(g) && g.len() > 1
                && g[1] is Some),
        },
{
    let groups = match captures("^r-base-([\\d+\\.*]*)-.*\\.json$", filename) {
        Some(g) => g,
        None => return None,
    };
    if groups.len() <= 1 {
        return None;
    }
    match &groups[1] {
        Some(v) => Some(v.clone()),
        None => None,
    }
}

/// History lines that install `r-base`.
pub open spec fn r_base_lines(ls: Seq<Seq<char>>) -> Seq<Seq<char>>
    decreases ls.len(),
{
    if ls.len() == 0 {
        Seq::empty()
    } else {
        let rest = r_base_lines(ls.drop_last());
        let l = ls.last();
        if starts_with_seq(l, "+"@) && contains_seq(l, ":r-base-"@) {
            rest.push(l)
        } else {
            rest
        }
    }
}

/// The version and build of the last `r-base` line of a history.
pub open spec fn history_lookup_spec(history: Seq<char>) -> Option<(Seq<char>, Seq<char>)> {
    let ls = r_base_lines(lines_spec(history));
    if ls.len() == 0 {
        None
    } else {
        match regex_captures(history_pattern(), ls.last()) {
            Some(g) => if g.len() > 2 && g[1] is Some && g[2] is Some {
                Some((g[1].unwrap(), g[2].unwrap()))
            } else {
                None
            },
            None => None,
        }
    }
}

/// The version and build of `r-base` from a conda history.
pub fn history_lookup(history: &str) -> (r: Option<(String, String)>)
    ensures
        match r {
            Some((v, h)) => history_lookup_spec(history@) == Some((v@, h@)),
            None => history_lookup_spec(history@) is None,
        },
{
    let ls = lines(history);
    let ghost lv = ls@.map_values(|l: String| l@);
    let mut last: Option<usize> = None;
    let mut i: usize = 0;
    while i < ls.len()
        invariant
            i <= ls.len(),
            lv == ls@.map_values(|l: String| l@),
            match last {
                Some(k) => k < i && r_base_lines(lv.subrange(0, i as int)).len() > 0 && r_base_lines(
                    lv.subrange(0, i as int),
                ).last() == lv[k as int],
                None => r_base_lines(lv.subrange(0, i as int)).len() == 0,
            },
        decreases ls.len() - i,
    {
        assert(lv.subrange(0, i + 1).drop_last() == lv.subrange(0, i as int));
        let v = chars_of(ls[i].as_str());
        let plus = chars_of("+");
        assert(lv[i as int] == v@);
        if crate::text::starts_with_chars(v.as_slice(), plus.as_slice()) && str_contains(
            ls[i].as_str(),
            ":r-base-",
        ) {
            last = Some(i);
        }
        i = i + 1;
    }
    assert(lv.subrange(0, ls.len() as int) == lv);
    match last {
        Some(k) => history_line_captures(ls[k].as_str()),
        None => None,
    }
}

/// The file name of the package record for a version and build.
pub open spec fn package_filename_spec(version: Seq<char>, build: Seq<char>) -> Seq<char> {
    "r-base-"@ + version + "-"@ + build + ".json"@
}

pub fn package_filename(version: &str, build: &str) -> (r: String)
    ensures
        r@ == package_filename_spec(version@, build@),
{
    let mut v: Vec<char> = Vec::new();
    push_str(&mut v, "r-base-");
    push_str(&mut v, version);
    push_str(&mut v, "-");
    push_str(&mut v, build);
    push_str(&mut v, ".json");
    string_of(v.as_slice())
}

/// The package information in a record; the version defaults to
/// `fallback` when the record has none.
pub open spec fn read_package_spec(fields: PackageFields, fallback: Seq<char>) -> (Seq<char>, Option<Architecture>) {
    (
        match fields.0 {
            Some(x) => x,
            None => fallback,
        },
        parse_arch_spec(fields.3, fields.2),
    )
}

/// The version and architecture a package record gives.
pub fn read_package_json(pkg: &CondaMetaPackage, fallback_version: &str) -> (r: RCondaPackageInfo)
    ensures
        (r.version@, r.arch) == read_package_spec(package_fields(*pkg), fallback_version@),
{
    let arch = parse_arch(pkg);
    let version = match &pkg.version {
        Some(v) => v.clone(),
        None => fallback_version.to_string(),
    };
    RCondaPackageInfo { version, arch }
}

} // verus!

verus! {

/// An entry of `conda-meta`: its path and, when it could be read as a
/// package record, that record.
#[derive(Debug)]
pub struct MetaFile {
    pub path: String,
    pub record: Option<CondaMetaPackage>,
}

/// The entry as plain values.
pub open spec fn meta_view(f: MetaFile) -> (Seq<char>, Option<PackageFields>) {
    (f.path@, match f.record {
        Some(p) => Some(package_fields(p)),
        None => None,
    })
}

pub open spec fn meta_views(v: Seq<MetaFile>) -> Seq<(Seq<char>, Option<PackageFields>)> {
    v.map_values(|f: MetaFile| meta_view(f))
}

/// The `r-base` version an entry's file name carries, if any.
pub open spec fn entry_version(path: Seq<char>) -> Option<Seq<char>> {
    let name = match file_name_spec(path) {
        Some(n) => n,
        None => Seq::empty(),
    };
    if starts_with_seq(name, "r-base-"@) && ends_with_seq(name, ".json"@) {
        match regex_captures(filename_pattern(), name) {
            Some(g) => if g.len() > 1 {
                g[1]
            } else {
                None
            },
            None => None,
        }
    } else {
        None
    }
}

/// Order of `(version, path)` pairs, as a sort of the pairs gives it.
pub open spec fn pair_lt(av: Seq<char>, ap: Seq<char>, bv: Seq<char>, bp: Seq<char>) -> bool {
    path_lt(av, bv) || (av == bv && path_lt(ap, bp))
}

/// Whether an entry is a candidate: it carries a version, the preferred
/// one when one is given.
pub open spec fn eligible(path: Seq<char>, preferred: Option<Seq<char>>) -> bool {
    entry_version(path) matches Some(v) && (preferred is None || preferred == Some(v))
}

/// Index of the first least candidate among the first `n` entries.
pub open spec fn best_entry(files: Seq<(Seq<char>, Option<PackageFields>)>, preferred: Option<Seq<char>>, n: int) -> Option<int>
    decreases n,
{
    if n <= 0 {
        None
    } else {
        let b = best_entry(files, preferred, n - 1);
        let p = files[n - 1].0;
        if !eligible(p, preferred) {
            b
        } else {
            match b {
                None => Some(n - 1),
                Some(k) => if pair_lt(
                    entry_version(p).unwrap(),
                    p,
                    entry_version(files[k].0).unwrap(),
                    files[k].0,
                ) {
                    Some(n - 1)
                } else {
                    Some(k)
                },
            }
        }
    }
}

/// The package information of a chosen entry.
pub open spec fn entry_info(files: Seq<(Seq<char>, Option<PackageFields>)>, k: int) -> (Seq<char>, Option<Architecture>) {
    let v = entry_version(files[k].0).unwrap();
    match files[k].1 {
        Some(t) => read_package_spec(t, v),
        None => (v, None),
    }
}

/// The information from the package records: the least entry of the
/// preferred version, else the least entry.
pub open spec fn from_files_spec(files: Seq<(Seq<char>, Option<PackageFields>)>, preferred: Option<Seq<char>>) -> Option<(Seq<char>, Option<Architecture>)> {
    let pick = match best_entry(files, preferred, files.len() as int) {
        Some(k) => Some(k),
        None => best_entry(files, None, files.len() as int),
    };
    match pick {
        Some(k) => Some(entry_info(files, k)),
        None => None,
    }
}

fn entry_version_exec(path: &str) -> (r: Option<String>)
    ensures
        opt_view(r) == entry_version(path@),
{
    let name = match file_name(path) {
        Some(n) => n,
        None => String::new(),
    };
    let v = chars_of(name.as_str());
    let a = chars_of("r-base-");
    let b = chars_of(".json");
    if crate::text::starts_with_chars(v.as_slice(), a.as_slice()) && crate::text::ends_with_chars(
        v.as_slice(),
        b.as_slice(),
    ) {
        filename_version(name.as_str())
    } else {
        None
    }
}

fn best_entry_exec(files: &Vec<MetaFile>, preferred: &Option<String>) -> (r: Option<usize>)
    ensures
        match r {
            Some(k) => best_entry(meta_views(files@), opt_view(*preferred), files@.len() as int)
                == Some(k as int),
            None => best_entry(meta_views(files@), opt_view(*preferred), files@.len() as int) is None,
        },
{
    let ghost fv = meta_views(files@);
    let ghost pref = opt_view(*preferred);
    let mut best: Option<usize> = None;
    let mut best_version: Vec<char> = Vec::new();
    let mut best_path: Vec<char> = Vec::new();
    let mut i: usize = 0;
    while i < files.len()
        invariant
            i <= files.len(),
            fv == meta_views(files@),
            pref == opt_view(*preferred),
            match best {
                Some(k) => best_entry(fv, pref, i as int) == Some(k as int) && k < i
                    && entry_version(fv[k as int].0) == Some(best_version@) && best_path@ == fv[k as int].0,
                None => best_entry(fv, pref, i as int) is None,
            },
        decreases files.len() - i,
    {
        assert(fv[i as int] == meta_view(files@[i as int]));
        match entry_version_exec(files[i].path.as_str()) {
            Some(v) => {
                let wanted = match preferred {
                    Some(p) => path_eq(p.as_str(), v.as_str()),
                    None => true,
                };
                if wanted {
                    let vv = chars_of(v.as_str());
                    let pv = chars_of(files[i].path.as_str());
                    let better = match best {
                        None => true,
                        Some(_) => path_lt_exec(vv.as_slice(), best_version.as_slice()) || (
                        crate::text::chars_eq(vv.as_slice(), best_version.as_slice())
                            && path_lt_exec(pv.as_slice(), best_path.as_slice())),
                    };
                    if better {
                        best = Some(i);
                        best_version = vv;
                        best_path = pv;
                    }
                }
            },
            None => {},
        }
        i = i + 1;
    }
    best
}

fn record_at(files: &Vec<MetaFile>, path: &str) -> (r: Option<usize>)
    ensures
        match r {
            Some(k) => k < files@.len() && files@[k as int].record is Some
                && first_record(meta_views(files@), path@, files@.len() as int) == meta_views(files@)[k as int].1,
            None => first_record(meta_views(files@), path@, files@.len() as int) is None,
        },
{
    let ghost fv = meta_views(files@);
    let mut k: usize = 0;
    while k < files.len()
        invariant
            k <= files.len(),
            fv == meta_views(files@),
            forall|j: int| 0 <= j < k ==> !(fv[j].0 == path@ && fv[j].1 is Some),
        decreases files.len() - k,
    {
        assert(fv[k as int] == meta_view(files@[k as int]));
        if path_eq(files[k].path.as_str(), path) && files[k].record.is_some() {
            proof {
                lemma_first_record(fv, path@, k as int, files@.len() as int);
            }
            return Some(k);
        }
        k = k + 1;
    }
    proof {
        lemma_first_record_none(fv, path@, files@.len() as int);
    }
    None
}

/// The record of the first entry at `path` that has one, among the first `n`.
pub open spec fn first_record(files: Seq<(Seq<char>, Option<PackageFields>)>, path: Seq<char>, n: int) -> Option<PackageFields>
    decreases n,
{
    if n <= 0 {
        None
    } else {
        let earlier = first_record(files, path, n - 1);
        if earlier is Some {
            earlier
        } else if files[n - 1].0 == path && files[n - 1].1 is Some {
            files[n - 1].1
        } else {
            None
        }
    }
}

proof fn lemma_first_record(files: Seq<(Seq<char>, Option<PackageFields>)>, path: Seq<char>, k: int, n: int)
    requires
        0 <= k < n <= files.len(),
        files[k].0 == path && files[k].1 is Some,
        forall|j: int| 0 <= j < k ==> !(files[j].0 == path && files[j].1 is Some),
    ensures
        first_record(files, path, n) == files[k].1,
    decreases n,
{
    if n > k + 1 {
        lemma_first_record(files, path, k, n - 1);
    } else {
        lemma_first_record_none(files, path, k);
    }
}

proof fn lemma_first_record_none(files: Seq<(Seq<char>, Option<PackageFields>)>, path: Seq<char>, n: int)
    requires
        0 <= n <= files.len(),
        forall|j: int| 0 <= j < n ==> !(files[j].0 == path && files[j].1 is Some),
    ensures
        first_record(files, path, n) is None,
    decreases n,
{
    if n > 0 {
        lemma_first_record_none(files, path, n - 1);
    }
}

fn entry_info_exec(files: &Vec<MetaFile>, k: usize) -> (r: RCondaPackageInfo)
    requires
        k < files@.len(),
        entry_version(files@[k as int].path@) is Some,
    ensures
        (r.version@, r.arch) == entry_info(meta_views(files@), k as int),
{
    assert(meta_views(files@)[k as int] == meta_view(files@[k as int]));
    let v = match entry_version_exec(files[k].path.as_str()) {
        Some(v) => v,
        None => String::new(),
    };
    match &files[k].record {
        Some(t) => read_package_json(t, v.as_str()),
        None => RCondaPackageInfo { version: v, arch: None },
    }
}

/// The information from the package records, preferring `preferred`.
pub fn get_r_info_from_package_files(files: &Vec<MetaFile>, preferred: &Option<String>) -> (r: Option<
    RCondaPackageInfo,
>)
    ensures
        match r {
            Some(i) => from_files_spec(meta_views(files@), opt_view(*preferred)) == Some(
                (i.version@, i.arch),
            ),
            None => from_files_spec(meta_views(files@), opt_view(*preferred)) is None,
        },
{
    let pick = match best_entry_exec(files, preferred) {
        Some(k) => Some(k),
        None => best_entry_exec(files, &None),
    };
    match pick {
        Some(k) => {
            proof {
                lemma_best_eligible(meta_views(files@), opt_view(*preferred), files@.len() as int);
                lemma_best_eligible(meta_views(files@), None, files@.len() as int);
                assert(meta_views(files@)[k as int] == meta_view(files@[k as int]));
            }
            Some(entry_info_exec(files, k))
        },
        None => None,
    }
}

pub proof fn lemma_best_eligible(files: Seq<(Seq<char>, Option<PackageFields>)>, preferred: Option<Seq<char>>, n: int)
    requires
        n <= files.len(),
    ensures
        best_entry(files, preferred, n) matches Some(k) ==> 0 <= k < n && eligible(files[k].0, preferred),
    decreases n,
{
    if n > 0 {
        lemma_best_eligible(files, preferred, n - 1);
    }
}

/// The information about `r-base` in a conda environment: from the last
/// `r-base` line of its history and the package record it names; when the
/// record cannot be read, from the records of that version, else with no
/// architecture; without such a history line, from the records alone.
pub open spec fn package_info_spec(env_path: Seq<char>, history: Option<Seq<char>>, files: Seq<(Seq<char>, Option<PackageFields>)>) -> Option<(Seq<char>, Option<Architecture>)> {
    let lookup = match history {
        Some(h) => history_lookup_spec(h),
        None => None,
    };
    match lookup {
        Some((v, b)) => {
            let path = join_all(env_path, seq!["conda-meta"@, package_filename_spec(v, b)]);
            let exact = match first_record(files, path, files.len() as int) {
                Some(t) => Some(read_package_spec(t, v)),
                None => None,
            };
            if exact is Some {
                exact
            } else {
                match from_files_spec(files, Some(v)) {
                    Some(x) => Some(x),
                    None => Some((v, None)),
                }
            }
        },
        None => from_files_spec(files, None),
    }
}

impl RCondaPackageInfo {
    /// The R package information of the environment at `env_path`, given
    /// the text of its `conda-meta/history` and the entries of `conda-meta`.
    pub fn from(env_path: &str, history: &Option<String>, files: &Vec<MetaFile>) -> (r: Option<Self>)
        ensures
            match r {
                Some(i) => package_info_spec(env_path@, opt_view(*history), meta_views(files@))
                    == Some((i.version@, i.arch)),
                None => package_info_spec(env_path@, opt_view(*history), meta_views(files@)) is None,
            },
    {
        let lookup = match history {
            Some(h) => history_lookup(h.as_str()),
            None => None,
        };
        match lookup {
            Some((v, b)) => {
                let name = package_filename(v.as_str(), b.as_str());
                let meta = join(env_path, "conda-meta");
                let path = join(meta.as_str(), name.as_str());
                proof {
                    reveal_with_fuel(join_all, 3);
                }
                let exact = match record_at(files, path.as_str()) {
                    Some(k) => {
                        proof {
                            assert(meta_views(files@)[k as int] == meta_view(files@[k as int]));
                        }
                        match &files[k].record {
                            Some(t) => Some(read_package_json(t, v.as_str())),
                            None => None,
                        }
                    },
                    None => None,
                };
                match exact {
                    Some(info) => Some(info),
                    None => {
                        let preferred = Some(v.clone());
                        match get_r_info_from_package_files(files, &preferred) {
                            Some(info) => Some(info),
                            None => Some(RCondaPackageInfo { version: v, arch: None }),
                        }
                    },
                }
            },
            None => get_r_info_from_package_files(files, &None),
        }
    }
}

} // verus!
