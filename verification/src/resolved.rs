//! What probing an R runtime tells about it.

use vstd::prelude::*;
use crate::arch::Architecture;
use crate::lines::{lines, lines_spec};
use crate::manager::clone_opt_string;
use crate::path::{file_name, file_name_spec, is_sorted_set_of, sort_dedup_paths, views};
use crate::r_installation::{clone_opt_strings, opt_seq, opt_view, RInstallation};
use crate::renv::{infer_home_spec, REnv};
use crate::shell::{quote_shell_argument, quote_spec};
use crate::text::{
    ascii_lower, ascii_lower_chars, chars_of, contains_seq, push_str, starts_with_chars,
    starts_with_seq, str_contains, string_of, to_lowercase, trim, trim_chars, unicode_lowercase,
};

verus! {

/// The line that precedes the probe's answer in R's output.
pub open spec fn info_separator() -> Seq<char> {
    "ret-r-installation-info"@
}

/// The R expression that prints the separator, the version, the home and
/// the architecture, one per line.
pub open spec fn info_command() -> Seq<char> {
    "cat('ret-r-installation-info\\n');cat(paste(R.version$major, R.version$minor, sep='.'), '\\n', sep='');cat(normalizePath(R.home(), winslash='/', mustWork=FALSE), '\\n', sep='');cat(R.version$arch, '\\n', sep='')"@
}

pub fn r_info_command() -> (r: &'static str)
    ensures
        r@ == info_command(),
{
    "cat('ret-r-installation-info\\n');cat(paste(R.version$major, R.version$minor, sep='.'), '\\n', sep='');cat(normalizePath(R.home(), winslash='/', mustWork=FALSE), '\\n', sep='');cat(R.version$arch, '\\n', sep='')"
}

/// An R runtime as probed.
#[derive(Debug)]
pub struct ResolvedRInstallation {
    pub executable: String,
    pub home: String,
    pub version: String,
    pub arch: Architecture,
    pub known_executables: Option<Vec<String>>,
    pub symlinks: Option<Vec<String>>,
}

/// Whether an executable is `Rscript` (by its lowercased file name).
pub open spec fn is_rscript_spec(exe: Seq<char>) -> bool {
    starts_with_seq(
        ascii_lower(
            match file_name_spec(exe) {
                Some(n) => n,
                None => Seq::empty(),
            },
        ),
        "rscript"@,
    )
}

pub fn is_rscript(executable: &str) -> (r: bool)
    ensures
        r == is_rscript_spec(executable@),
{
    let n = match file_name(executable) {
        Some(n) => n,
        None => String::new(),
    };
    let v = chars_of(n.as_str());
    let l = ascii_lower_chars(v.as_slice());
    let p = chars_of("rscript");
    starts_with_chars(l.as_slice(), p.as_slice())
}

/// The arguments that run the probe: `Rscript` takes the expression with
/// `-e`; `R` also needs `-s`.
pub fn probe_arguments(executable: &str) -> (r: Vec<&'static str>)
    ensures
        is_rscript_spec(executable@) ==> r@.len() == 3 && r@[0]@ == "--vanilla"@ && r@[1]@ == "-e"@
            && r@[2]@ == info_command(),
        !is_rscript_spec(executable@) ==> r@.len() == 4 && r@[0]@ == "--vanilla"@ && r@[1]@ == "-s"@
            && r@[2]@ == "-e"@ && r@[3]@ == info_command(),
{
    let mut v: Vec<&'static str> = Vec::new();
    v.push("--vanilla");
    if !is_rscript(executable) {
        v.push("-s");
    }
    v.push("-e");
    v.push(r_info_command());
    v
}

/// The text after the first occurrence of `sep` in `s`.
pub open spec fn after_first(s: Seq<char>, sep: Seq<char>) -> Option<Seq<char>> {
    match crate::conda::utils::find_spec(s, sep) {
        Some(i) => Some(s.subrange(i + sep.len(), s.len() as int)),
        None => None,
    }
}

pub fn split_after(s: &str, sep: &str) -> (r: Option<String>)
    ensures
        opt_view(r) == after_first(s@, sep@),
{
    let v = chars_of(s);
    let p = chars_of(sep);
    match crate::conda::utils::find_first(v.as_slice(), p.as_slice()) {
        Some(i) => {
            let n = v.len();
            assert(i + p@.len() <= v@.len());
            let rest = crate::text::slice_chars(v.as_slice(), i + p.len(), n);
            Some(string_of(rest.as_slice()))
        },
        None => None,
    }
}

/// The non-empty trimmed lines, in order.
pub open spec fn nonempty_trimmed(ls: Seq<Seq<char>>) -> Seq<Seq<char>>
    decreases ls.len(),
{
    if ls.len() == 0 {
        Seq::empty()
    } else {
        let rest = nonempty_trimmed(ls.drop_last());
        if trim(ls.last()).len() > 0 {
            rest.push(trim(ls.last()))
        } else {
            rest
        }
    }
}

fn nonempty_trimmed_lines(s: &str) -> (r: Vec<String>)
    ensures
        views(r@) == nonempty_trimmed(lines_spec(s@)),
{
    let ls = lines(s);
    let ghost lv = ls@.map_values(|l: String| l@);
    let mut out: Vec<String> = Vec::new();
    let mut i: usize = 0;
    while i < ls.len()
        invariant
            i <= ls.len(),
            lv == ls@.map_values(|l: String| l@),
            views(out@) == nonempty_trimmed(lv.subrange(0, i as int)),
        decreases ls.len() - i,
    {
        assert(lv.subrange(0, i + 1).drop_last() == lv.subrange(0, i as int));
        let raw = chars_of(ls[i].as_str());
        let t = trim_chars(raw.as_slice());
        if t.len() > 0 {
            let ghost before = out@;
            out.push(string_of(t.as_slice()));
            proof {
                crate::path::lemma_views_push(before, out@.last());
            }
        }
        i = i + 1;
    }
    assert(lv.subrange(0, ls.len() as int) == lv);
    out
}

/// The architecture R reports, lowercased.
pub open spec fn reported_arch(a: Seq<char>) -> Option<Architecture> {
    if contains_seq(a, "aarch64"@) || contains_seq(a, "arm64"@) {
        Some(Architecture::Arm64)
    } else if contains_seq(a, "x86_64"@) || contains_seq(a, "amd64"@) {
        Some(Architecture::X64)
    } else if contains_seq(a, "i386"@) || contains_seq(a, "i686"@) || a == "x86"@ {
        Some(Architecture::X86)
    } else {
        None
    }
}

/// What the probe's output says: the version, the home and the
/// architecture on the first three non-empty lines after the separator.
pub open spec fn details_spec(stdout: Seq<char>) -> Option<(Seq<char>, Seq<char>, Architecture)> {
    match after_first(stdout, info_separator()) {
        None => None,
        Some(payload) => {
            let ls = nonempty_trimmed(lines_spec(payload));
            if ls.len() < 3 {
                None
            } else {
                match reported_arch(unicode_lowercase(ls[2])) {
                    Some(a) => Some((ls[0], ls[1], a)),
                    None => None,
                }
            }
        },
    }
}

/// The executables that stand for the runtime: the executable and, when it
/// differs, where its path leads; sorted and deduplicated.
pub open spec fn resolved_known(exe: Seq<char>, canonical: Option<Seq<char>>) -> Seq<Seq<char>> {
    seq![exe] + match canonical {
        Some(c) => seq![c],
        None => Seq::empty(),
    }
}

/// A probed runtime with the given fields and executables.
pub open spec fn resolved_from(
    i: ResolvedRInstallation,
    executable: Seq<char>,
    version: Seq<char>,
    home: Seq<char>,
    arch: Architecture,
    canonical: Option<Seq<char>>,
    symlinked: Seq<Seq<char>>,
) -> bool {
    &&& i.executable@ == executable
    &&& i.version@ == version
    &&& i.home@ == home
    &&& i.arch == arch
    &&& i.known_executables matches Some(k) && is_sorted_set_of(
        views(k@),
        resolved_known(executable, canonical),
    )
    &&& if symlinked.len() == 0 {
        i.symlinks is None
    } else {
        i.symlinks matches Some(s) && is_sorted_set_of(views(s@), symlinked)
    }
}

/// Reads the probe's output for `executable`; `canonical` is where the
/// executable's path leads and `symlinked` which known executables are
/// symlinks.  A launch wrapper is kept as the executable: it is never
/// replaced by the home's `bin/R`, and no other architecture's binary
/// joins the known executables.
pub fn parse_installation_details(
    executable: &str,
    stdout: &str,
    canonical: &Option<String>,
    symlinked: Vec<String>,
) -> (r: Option<ResolvedRInstallation>)
    ensures
        match details_spec(stdout@) {
            None => r is None,
            Some((version, home, arch)) => r is Some && resolved_from(
                r.unwrap(),
                executable@,
                version,
                home,
                arch,
                opt_view(*canonical),
                views(symlinked@),
            ),
        },
{
    let payload = match split_after(stdout, "ret-r-installation-info") {
        Some(p) => p,
        None => return None,
    };
    let ls = nonempty_trimmed_lines(payload.as_str());
    if ls.len() < 3 {
        return None;
    }
    assert(views(ls@)[2] == ls@[2]@);
    let arch_lower = to_lowercase(ls[2].as_str());
    let a = arch_lower.as_str();
    let arch = if str_contains(a, "aarch64") || str_contains(a, "arm64") {
        Architecture::Arm64
    } else if str_contains(a, "x86_64") || str_contains(a, "amd64") {
        Architecture::X64
    } else if str_contains(a, "i386") || str_contains(a, "i686") || crate::path::path_eq(a, "x86") {
        Architecture::X86
    } else {
        return None;
    };
    let mut known: Vec<String> = Vec::new();
    known.push(executable.to_string());
    match canonical {
        Some(c) => known.push(c.clone()),
        None => {},
    }
    assert(views(known@) == resolved_known(executable@, opt_view(*canonical)));
    let known = sort_dedup_paths(known);
    let symlinks = if symlinked.len() == 0 {
        None
    } else {
        let s = sort_dedup_paths(symlinked);
        Some(s)
    };
    assert(views(ls@)[0] == ls@[0]@);
    assert(views(ls@)[1] == ls@[1]@);
    Some(
        ResolvedRInstallation {
            executable: executable.to_string(),
            home: ls[1].clone(),
            version: ls[0].clone(),
            arch,
            known_executables: Some(known),
            symlinks,
        },
    )
}

/// Two runtimes with the same field values (lists by contents).
pub open spec fn same_runtime(a: ResolvedRInstallation, b: ResolvedRInstallation) -> bool {
    &&& a.executable == b.executable
    &&& a.home == b.home
    &&& a.version == b.version
    &&& a.arch == b.arch
    &&& opt_seq(a.known_executables) == opt_seq(b.known_executables)
    &&& opt_seq(a.symlinks) == opt_seq(b.symlinks)
}

impl ResolvedRInstallation {
    pub fn copy(&self) -> (r: ResolvedRInstallation)
        ensures
            same_runtime(r, *self),
    {
        ResolvedRInstallation {
            executable: self.executable.clone(),
            home: self.home.clone(),
            version: self.version.clone(),
            arch: self.arch,
            known_executables: clone_opt_strings(&self.known_executables),
            symlinks: clone_opt_strings(&self.symlinks),
        }
    }

    /// The runtime as a raw runtime to classify.
    pub fn to_r_env(&self) -> (r: REnv)
        ensures
            r.executable == self.executable,
            opt_view(r.home) == Some(self.home@),
            r.version == Some(self.version),
            opt_seq(r.known_executables) == opt_seq(self.known_executables),
            opt_seq(r.symlinks) == opt_seq(self.symlinks),
            r.arch == Some(self.arch),
    {
        let mut env = REnv::new(
            self.executable.clone(),
            Some(self.home.clone()),
            Some(self.version.clone()),
        );
        env.known_executables = clone_opt_strings(&self.known_executables);
        env.symlinks = clone_opt_strings(&self.symlinks);
        env.arch = Some(self.arch);
        env
    }

    /// Whether an installation built from this runtime may be cached for
    /// it: it lists the executable and agrees on version, home and
    /// architecture.
    pub fn is_cacheable(&self, installation: &RInstallation) -> (r: bool)
        ensures
            r == (views(
                match installation.known_executables {
                    Some(k) => k@,
                    None => Seq::empty(),
                },
            ).contains(self.executable@) && (match installation.version {
                Some(v) => v@,
                None => Seq::empty(),
            }) == self.version@ && (match installation.home {
                Some(h) => h@,
                None => Seq::empty(),
            }) == self.home@ && installation.arch == Some(self.arch)),
    {
        let listed = match &installation.known_executables {
            Some(k) => crate::path::contains_path(k, self.executable.as_str()),
            None => {
                assert(views(Seq::<String>::empty()) == Seq::<Seq<char>>::empty());
                false
            },
        };
        let version_ok = match &installation.version {
            Some(v) => crate::path::path_eq(v.as_str(), self.version.as_str()),
            None => {
                assert(self.version@.len() == 0 ==> self.version@ =~= Seq::<char>::empty());
                self.version.unicode_len() == 0
            },
        };
        let home_ok = match &installation.home {
            Some(h) => crate::path::path_eq(h.as_str(), self.home.as_str()),
            None => {
                assert(self.home@.len() == 0 ==> self.home@ =~= Seq::<char>::empty());
                self.home.unicode_len() == 0
            },
        };
        let arch_ok = match installation.arch {
            Some(a) => a == self.arch,
            None => false,
        };
        listed && version_ok && home_ok && arch_ok
    }

    /// Records an installation built from this runtime in the cache: when
    /// it may be cached, the runtime's entry starts tracking the
    /// installation's known executables; returns whether it did.
    pub fn add_to_cache(
        &self,
        installation: &RInstallation,
        cache: &mut crate::install_cache::CacheImpl,
        metas: &Vec<crate::install_cache::FileMeta>,
    ) -> (r: bool)
        ensures
            r == self.is_cacheable_spec(*installation),
            !r ==> final(cache).entries@ == old(cache).entries@,
            r ==> exists|i: int|
                crate::install_cache::tracked_in_cache(
                    old(cache).entries@,
                    final(cache).entries@,
                    i,
                    self.executable@,
                    views(
                        match installation.known_executables {
                            Some(k) => k@,
                            None => Seq::empty(),
                        },
                    ),
                    metas@,
                ) && #[trigger] final(cache).entries@[i].executable@ == self.executable@,
            final(cache).cache_dir == old(cache).cache_dir,
    {
        if !self.is_cacheable(installation) {
            return false;
        }
        let known = match &installation.known_executables {
            Some(k) => crate::r_installation::clone_strings(k),
            None => Vec::new(),
        };
        let ghost before = cache.entries@;
        let i = crate::install_cache::create_cache(cache, self.executable.clone());
        let ghost created = cache.entries@;
        proof {
            if !crate::install_cache::has_entry(before, self.executable@) {
                assert(created.drop_last() == before);
                assert(i as int == created.len() - 1) by {
                    if (i as int) < created.len() - 1 {
                        assert(created[i as int] == before[i as int]);
                        assert(crate::install_cache::has_entry(before, self.executable@));
                    }
                };
            }
        }
        let mut entry = cache.entries.remove(i);
        let ghost prior = entry.executables@;
        entry.track_executables(&known, metas);
        cache.entries.insert(i, entry);
        proof {
            let after = cache.entries@;
            assert(after.len() == created.len());
            assert forall|j: int| 0 <= j < created.len() && j != i implies #[trigger] after[j] == created[j] by {
                if j < i {
                } else {
                }
            };
            assert(prior == created[i as int].executables@);
            if crate::install_cache::has_entry(before, self.executable@) {
                assert(created == before);
                assert(prior == before[i as int].executables@);
            } else {
                assert(prior.len() == 0);
                assert(prior =~= Seq::<crate::install_cache::FileStamp>::empty());
                assert(!(i < before.len()));
                assert forall|j: int| 0 <= j < before.len() implies #[trigger] created[j] == before[j] by {
                    assert(created.drop_last()[j] == created[j]);
                };
            }
            assert(after[i as int].executable@ == self.executable@);
            assert(after[i as int] == entry);
            assert(crate::install_cache::tracked_in_cache(before, after, i as int, self.executable@, views(known@), metas@));
        }
        true
    }

    pub open spec fn is_cacheable_spec(&self, installation: RInstallation) -> bool {
        views(
            match installation.known_executables {
                Some(k) => k@,
                None => Seq::empty(),
            },
        ).contains(self.executable@) && (match installation.version {
            Some(v) => v@,
            None => Seq::empty(),
        }) == self.version@ && (match installation.home {
            Some(h) => h@,
            None => Seq::empty(),
        }) == self.home@ && installation.arch == Some(self.arch)
    }
}

/// The script that probes R inside an activation shell: run the startup
/// command, pick the executable (or `R` on the `PATH`), print it after a
/// marker line, then run the probe with it.
pub open spec fn startup_script_spec(executable: Option<Seq<char>>, startup: Seq<char>) -> Seq<char> {
    let launcher = match executable {
        Some(e) => quote_spec(e),
        None => "$(command -v R)"@,
    };
    startup + " && _ret_r_exe="@ + launcher
        + " && [ -n \"$_ret_r_exe\" ] && printf 'ret-r-launcher\\n%s\\n' \"$_ret_r_exe\" && case \"$_ret_r_exe\" in *Rscript|*Rscript.exe) \"$_ret_r_exe\" --vanilla -e "@
        + quote_spec(info_command()) + ";; *) \"$_ret_r_exe\" --vanilla -s -e "@ + quote_spec(
        info_command(),
    ) + ";; esac"@
}

pub fn startup_probe_script(executable: &Option<String>, startup: &str) -> (r: String)
    ensures
        r@ == startup_script_spec(opt_view(*executable), startup@),
{
    let launcher = match executable {
        Some(e) => quote_shell_argument(e.as_str()),
        None => "$(command -v R)".to_string(),
    };
    let info = quote_shell_argument(r_info_command());
    let mut v: Vec<char> = Vec::new();
    push_str(&mut v, startup);
    push_str(&mut v, " && _ret_r_exe=");
    push_str(&mut v, launcher.as_str());
    push_str(
        &mut v,
        " && [ -n \"$_ret_r_exe\" ] && printf 'ret-r-launcher\\n%s\\n' \"$_ret_r_exe\" && case \"$_ret_r_exe\" in *Rscript|*Rscript.exe) \"$_ret_r_exe\" --vanilla -e ",
    );
    push_str(&mut v, info.as_str());
    push_str(&mut v, ";; *) \"$_ret_r_exe\" --vanilla -s -e ");
    push_str(&mut v, info.as_str());
    push_str(&mut v, ";; esac");
    string_of(v.as_slice())
}

/// The first line of `p` (without a trailing carriage return) and the
/// text after it, when `p` holds a line feed.
pub open spec fn line_split(p: Seq<char>) -> Option<(Seq<char>, Seq<char>)> {
    match crate::text::index_of_char(p, '\n') {
        None => None,
        Some(i) => {
            let exe = p.subrange(0, i);
            let exe = if exe.len() > 0 && exe.last() == '\r' {
                exe.drop_last()
            } else {
                exe
            };
            Some((exe, p.subrange(i + 1, p.len() as int)))
        },
    }
}

fn split_first_line(p: &str) -> (r: Option<(String, String)>)
    ensures
        match r {
            Some((e, info)) => line_split(p@) == Some((e@, info@)),
            None => line_split(p@) is None,
        },
{
    let v = chars_of(p);
    let i = match crate::text::find_char(v.as_slice(), '\n') {
        Some(i) => i,
        None => {
            proof {
                crate::text::lemma_index_of_char(v@, '\n', v@.len() as int);
            }
            return None;
        },
    };
    proof {
        crate::text::lemma_index_of_char(v@, '\n', i as int);
    }
    assert(i < v.len());
    let mut end = i;
    if end > 0 && v[end - 1] == '\r' {
        end = end - 1;
    }
    let exe = crate::text::slice_chars(v.as_slice(), 0, end);
    let info = crate::text::slice_chars(v.as_slice(), i + 1, v.len());
    Some((string_of(exe.as_slice()), string_of(info.as_slice())))
}

/// The executable the activation shell picked, and the probe's output
/// after it.
pub open spec fn startup_output_spec(stdout: Seq<char>) -> Option<(Seq<char>, Seq<char>)> {
    match after_first(stdout, "ret-r-launcher\n"@) {
        None => None,
        Some(payload) => line_split(payload),
    }
}

pub fn parse_startup_output(stdout: &str) -> (r: Option<(String, String)>)
    ensures
        match r {
            Some((e, info)) => startup_output_spec(stdout@) == Some((e@, info@)),
            None => startup_output_spec(stdout@) is None,
        },
{
    match split_after(stdout, "ret-r-launcher\n") {
        Some(p) => split_first_line(p.as_str()),
        None => None,
    }
}

/// Reads the output of a probe run inside an activation shell: the
/// executable the shell picked, then the runtime's details for it.
/// `canonical` is where that executable's path leads and `symlinked` which
/// of its executables are symlinks.
pub fn resolve_with_startup(stdout: &str, canonical: &Option<String>, symlinked: Vec<String>) -> (r: Option<
    ResolvedRInstallation,
>)
    ensures
        match startup_output_spec(stdout@) {
            None => r is None,
            Some((exe, info)) => match details_spec(info) {
                None => r is None,
                Some((version, home, arch)) => r is Some && resolved_from(
                    r.unwrap(),
                    exe,
                    version,
                    home,
                    arch,
                    opt_view(*canonical),
                    views(symlinked@),
                ),
            },
        },
{
    match parse_startup_output(stdout) {
        Some((exe, info)) => parse_installation_details(exe.as_str(), info.as_str(), canonical, symlinked),
        None => None,
    }
}

} // verus!
