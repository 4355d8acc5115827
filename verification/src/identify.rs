//! Identifying an R executable: what the locators recognize, completed
//! with what its runtime reports, or an unclassified installation.

use vstd::prelude::*;
use crate::merge::{merge_installations, merged_from};
use crate::path::{
    contains_path, file_name, file_name_spec, lemma_views_push, parent, parent_spec, sort_dedup_paths,
    views,
};
use crate::text::{ascii_lower, ascii_lower_chars, chars_eq, chars_of};
use crate::r_installation::{
    built_paths, built_sources, clone_opt_strings, infer_orthogonal_spec, infer_script_path_spec,
    lemma_built_paths_transfer, lemma_normalized_paths_views, normalize_sources, opt_view, opt_views,
    DiscoverySource, RInstallation, RInstallationBuilder, RInstallationKind, EnvVars,
};
use crate::r_installation::{opt_seq, same_installation};
use crate::resolved::ResolvedRInstallation;

verus! {

broadcast use lemma_views_push;

/// A path list built from `a`, then rebuilt from itself and `e`, is built from `a` and `e`.
pub proof fn lemma_built_paths_chain(
    x: Option<Vec<String>>,
    a: Seq<Seq<char>>,
    y: Option<Vec<String>>,
    e: Seq<Seq<char>>,
)
    requires
        built_paths(x, a),
        built_paths(y, opt_views(x) + e),
    ensures
        built_paths(y, a + e),
{
    match x {
        Some(w) => {
            if a.len() == 0 {
            } else {
                lemma_built_paths_transfer(y, views(w@), a, e);
            }
        },
        None => {
            assert(opt_views(x) + e == e);
            assert(a + e == e);
        },
    }
}

/// Variables after `build`: an empty list is dropped.
pub open spec fn built_vars(v: Option<EnvVars>) -> Option<EnvVars> {
    match v {
        Some(x) => if x@.len() == 0 {
            None
        } else {
            Some(x)
        },
        None => None,
    }
}

/// The sources after a locator is added to them.
pub open spec fn with_locator(s: Seq<DiscoverySource>) -> Seq<DiscoverySource> {
    if s.contains(DiscoverySource::Locator) {
        s
    } else {
        normalize_sources(s.push(DiscoverySource::Locator))
    }
}

/// An installation with the runtime's executable, home, version and
/// architecture, the runtime's executables among its known executables
/// (`known`) and its symlinks (`symlinks`), the rest kept from `base` and
/// completed as `build` does.
pub open spec fn with_runtime(
    r: RInstallation,
    base: RInstallation,
    res: ResolvedRInstallation,
    known: Seq<Seq<char>>,
    symlinks: Seq<Seq<char>>,
    sources: Seq<DiscoverySource>,
) -> bool {
    &&& r.display_name == base.display_name
    &&& r.name == base.name
    &&& r.executable == Some(res.executable)
    &&& r.kind == base.kind
    &&& r.version == Some(res.version)
    &&& r.home == Some(res.home)
    &&& r.manager == base.manager
    &&& r.arch == Some(res.arch)
    &&& built_paths(r.known_executables, known)
    &&& built_paths(r.symlinks, symlinks)
    &&& r.discovered_by@ == sources
    &&& r.locator_metadata == base.locator_metadata
    &&& r.rversions_overlay == base.rversions_overlay
    &&& opt_view(r.script_path) == (match base.script_path {
        Some(s) => Some(s@),
        None => infer_script_path_spec(Some(res.executable@), Some(res.home@), Some(res.arch), false),
    })
    &&& r.startup_command == base.startup_command
    &&& opt_seq(r.environment_variables) == opt_seq(built_vars(base.environment_variables))
    &&& r.orthogonal == (match base.orthogonal {
        Some(o) => Some(o),
        None => infer_orthogonal_spec(Some(res.home@)),
    })
    &&& r.error == base.error
}

/// The executables known for an installation completed with its runtime.
pub open spec fn runtime_known(base: RInstallation, res: ResolvedRInstallation) -> Seq<Seq<char>> {
    opt_views(base.known_executables) + seq![res.executable@] + opt_views(res.known_executables)
}

fn merge_resolved_installation(installation: RInstallation, resolved: &ResolvedRInstallation) -> (r:
    RInstallation)
    ensures
        with_runtime(
            r,
            installation,
            *resolved,
            runtime_known(installation, *resolved) + seq![resolved.executable@],
            opt_views(installation.symlinks) + opt_views(resolved.symlinks),
            built_sources(installation.kind, installation.discovered_by@),
        ),
{
    let ghost base = installation;
    let mut symlinks: Vec<String> = match &installation.symlinks {
        Some(v) => crate::r_installation::clone_strings(v),
        None => Vec::new(),
    };
    let mut extra_links: Vec<String> = match &resolved.symlinks {
        Some(v) => crate::r_installation::clone_strings(v),
        None => Vec::new(),
    };
    let ghost links_a = symlinks@;
    let ghost links_b = extra_links@;
    symlinks.append(&mut extra_links);
    proof {
        assert(views(symlinks@) =~= views(links_a) + views(links_b));
        assert(views(symlinks@) == opt_views(base.symlinks) + opt_views(resolved.symlinks));
    }
    let symlinks = sort_dedup_paths(symlinks);
    let mut known: Vec<String> = match &installation.known_executables {
        Some(v) => crate::r_installation::clone_strings(v),
        None => Vec::new(),
    };
    known.push(resolved.executable.clone());
    let mut extra_known: Vec<String> = match &resolved.known_executables {
        Some(v) => crate::r_installation::clone_strings(v),
        None => Vec::new(),
    };
    let ghost known_a = known@;
    let ghost known_b = extra_known@;
    known.append(&mut extra_known);
    proof {
        assert(views(known@) =~= views(known_a) + views(known_b));
        assert(views(known@) == runtime_known(base, *resolved));
    }
    let known = sort_dedup_paths(known);
    let ghost kv = known;
    let ghost sv = symlinks;
    let b = RInstallationBuilder::from_installation(installation).executable(
        Some(resolved.executable.clone()),
    ).home(Some(resolved.home.clone())).version(Some(resolved.version.clone())).arch(
        Some(resolved.arch),
    ).known_executables(Some(known)).symlinks(Some(symlinks));
    let ghost d = b.draft();
    let r = b.build();
    proof {
        let exe = resolved.executable@;
        let kin = runtime_known(base, *resolved);
        assert(views(kv@).len() >= 0);
        lemma_normalized_paths_views(d.known_executables, Some(kv));
        lemma_normalized_paths_views(d.symlinks, Some(sv));
        lemma_built_paths_transfer(r.known_executables, opt_views(d.known_executables), views(kv@), seq![exe]);
        lemma_built_paths_transfer(r.known_executables, views(kv@), kin, seq![exe]);
        assert(opt_views(d.symlinks) + Seq::<Seq<char>>::empty() == opt_views(d.symlinks));
        let sin = opt_views(base.symlinks) + opt_views(resolved.symlinks);
        lemma_built_paths_transfer(r.symlinks, opt_views(d.symlinks), views(sv@), Seq::empty());
        assert(views(sv@) + Seq::<Seq<char>>::empty() == views(sv@));
        lemma_built_paths_transfer(r.symlinks, views(sv@), sin, Seq::empty());
        assert(sin + Seq::<Seq<char>>::empty() == sin);
    }
    r
}

/// What `mark_locator_discovery` makes of an installation.
pub open spec fn marked_from(r: RInstallation, m: RInstallation) -> bool {
    &&& r.display_name == m.display_name
    &&& r.name == m.name
    &&& r.executable == m.executable
    &&& r.kind == m.kind
    &&& r.version == m.version
    &&& r.home == m.home
    &&& r.manager == m.manager
    &&& r.arch == m.arch
    &&& built_paths(
        r.known_executables,
        opt_views(m.known_executables) + (match m.executable {
            Some(e) => seq![e@],
            None => Seq::empty(),
        }),
    )
    &&& built_paths(r.symlinks, opt_views(m.symlinks))
    &&& r.discovered_by@ == built_sources(m.kind, with_locator(m.discovered_by@))
    &&& r.locator_metadata == m.locator_metadata
    &&& r.rversions_overlay == m.rversions_overlay
    &&& opt_view(r.script_path) == (match m.script_path {
        Some(s) => Some(s@),
        None => infer_script_path_spec(opt_view(m.executable), opt_view(m.home), m.arch, false),
    })
    &&& r.startup_command == m.startup_command
    &&& r.environment_variables == built_vars(m.environment_variables)
    &&& r.orthogonal == (match m.orthogonal {
        Some(o) => Some(o),
        None => infer_orthogonal_spec(opt_view(m.home)),
    })
    &&& r.error == m.error
}

/// Marks an installation as found by a locator.
pub fn mark_locator_discovery(installation: RInstallation) -> (r: RInstallation)
    ensures
        marked_from(r, installation),
{
    RInstallationBuilder::from_installation(installation).add_discovery_source(DiscoverySource::Locator).build()
}

/// An installation a locator recognized, completed with its runtime and
/// marked as found by a locator.
pub open spec fn identified_with_runtime(r: RInstallation, base: RInstallation, res: ResolvedRInstallation) -> bool {
    with_runtime(
        r,
        base,
        res,
        runtime_known(base, res) + seq![res.executable@] + seq![res.executable@],
        opt_views(base.symlinks) + opt_views(res.symlinks),
        built_sources(base.kind, with_locator(built_sources(base.kind, base.discovered_by@))),
    )
}

fn complete_with_runtime(installation: RInstallation, resolved: &ResolvedRInstallation) -> (r: RInstallation)
    ensures
        identified_with_runtime(r, installation, *resolved),
{
    let ghost base = installation;
    let mid = merge_resolved_installation(installation, resolved);
    let ghost m = mid;
    let r = mark_locator_discovery(mid);
    proof {
        let exe = resolved.executable@;
        let k1 = runtime_known(base, *resolved) + seq![exe];
        lemma_built_paths_chain(m.known_executables, k1, r.known_executables, seq![exe]);
        let s1 = opt_views(base.symlinks) + opt_views(resolved.symlinks);
        assert(opt_views(m.symlinks) + Seq::<Seq<char>>::empty() == opt_views(m.symlinks));
        lemma_built_paths_chain(m.symlinks, s1, r.symlinks, Seq::empty());
        assert(s1 + Seq::<Seq<char>>::empty() == s1);
    }
    r
}

/// Whether a path's directory is one of `dirs`.
pub open spec fn parent_in(p: Seq<char>, dirs: Seq<Seq<char>>) -> bool {
    match parent_spec(p) {
        Some(d) => dirs.contains(d),
        None => false,
    }
}

/// The kind of an installation no locator recognized: global when one of
/// its executables sits directly in a global search location.
pub open spec fn fallback_kind_spec(candidates: Seq<Seq<char>>, global_search_paths: Seq<Seq<char>>) -> Option<
    RInstallationKind,
> {
    if exists|i: int| 0 <= i < candidates.len() && #[trigger] parent_in(candidates[i], global_search_paths) {
        Some(RInstallationKind::GlobalPaths)
    } else {
        None
    }
}

fn fallback_kind(candidates: &Vec<String>, global_search_paths: &Vec<String>) -> (r: Option<RInstallationKind>)
    ensures
        r == fallback_kind_spec(views(candidates@), views(global_search_paths@)),
{
    let mut i: usize = 0;
    while i < candidates.len()
        invariant
            i <= candidates.len(),
            forall|j: int| 0 <= j < i ==> !#[trigger] parent_in(views(candidates@)[j], views(global_search_paths@)),
        decreases candidates.len() - i,
    {
        match parent(candidates[i].as_str()) {
            Some(p) => {
                if contains_path(global_search_paths, p.as_str()) {
                    assert(views(candidates@)[i as int] == candidates@[i as int]@);
                    assert(parent_in(views(candidates@)[i as int], views(global_search_paths@)));
                    return Some(RInstallationKind::GlobalPaths);
                }
            },
            None => {},
        }
        assert(views(candidates@)[i as int] == candidates@[i as int]@);
        i = i + 1;
    }
    None
}

/// The runtime's executables, its known ones first.
pub open spec fn runtime_executables(res: ResolvedRInstallation) -> Seq<Seq<char>> {
    opt_views(res.known_executables) + seq![res.executable@]
}

/// The kind given to a runtime no locator recognized.
pub fn infer_fallback_kind(resolved: &ResolvedRInstallation, global_search_paths: &Vec<String>) -> (r:
    Option<RInstallationKind>)
    ensures
        r == fallback_kind_spec(runtime_executables(*resolved), views(global_search_paths@)),
{
    let mut candidates: Vec<String> = match &resolved.known_executables {
        Some(v) => crate::r_installation::clone_strings(v),
        None => Vec::new(),
    };
    candidates.push(resolved.executable.clone());
    assert(views(candidates@) == runtime_executables(*resolved));
    fallback_kind(&candidates, global_search_paths)
}

/// An installation made from a runtime alone.
pub open spec fn unknown_from_runtime(r: RInstallation, res: ResolvedRInstallation, kind: Option<RInstallationKind>) -> bool {
    &&& r.display_name is None
    &&& r.name is None
    &&& r.executable == Some(res.executable)
    &&& r.kind == kind
    &&& r.version == Some(res.version)
    &&& r.home == Some(res.home)
    &&& r.manager is None
    &&& r.arch == Some(res.arch)
    &&& built_paths(r.known_executables, opt_views(res.known_executables) + seq![res.executable@])
    &&& built_paths(r.symlinks, opt_views(res.symlinks))
    &&& r.discovered_by@ == built_sources(kind, Seq::empty())
    &&& r.locator_metadata is None
    &&& r.rversions_overlay is None
    &&& opt_view(r.script_path) == infer_script_path_spec(Some(res.executable@), Some(res.home@), Some(res.arch), false)
    &&& r.startup_command is None
    &&& r.environment_variables is None
    &&& r.orthogonal == infer_orthogonal_spec(Some(res.home@))
    &&& r.error is None
}

fn create_unknown_installation(resolved: &ResolvedRInstallation, fallback_kind: Option<RInstallationKind>) -> (r:
    RInstallation)
    ensures
        unknown_from_runtime(r, *resolved, fallback_kind),
{
    let known = clone_opt_strings(&resolved.known_executables);
    let links = clone_opt_strings(&resolved.symlinks);
    let ghost kv = known;
    let ghost sv = links;
    let b = RInstallationBuilder::new(fallback_kind).executable(Some(resolved.executable.clone())).home(
        Some(resolved.home.clone()),
    ).version(Some(resolved.version.clone())).arch(Some(resolved.arch)).known_executables(known).symlinks(
        links,
    );
    let ghost d = b.draft();
    let r = b.build();
    proof {
        lemma_normalized_paths_views(d.known_executables, kv);
        lemma_normalized_paths_views(d.symlinks, sv);
        assert(opt_views(kv) == opt_views(resolved.known_executables));
        assert(opt_views(sv) == opt_views(resolved.symlinks));
        lemma_built_paths_transfer(
            r.known_executables,
            opt_views(d.known_executables),
            opt_views(kv),
            seq![resolved.executable@],
        );
        assert(opt_views(d.symlinks) + Seq::<Seq<char>>::empty() == opt_views(d.symlinks));
        lemma_built_paths_transfer(r.symlinks, opt_views(d.symlinks), opt_views(sv), Seq::empty());
        assert(opt_views(sv) + Seq::<Seq<char>>::empty() == opt_views(sv));
    }
    r
}

/// Installations merged one after the other, each step merging the next
/// candidate into what came before.
pub open spec fn merge_chain(candidates: Seq<RInstallation>, steps: Seq<RInstallation>) -> bool {
    &&& steps.len() == candidates.len()
    &&& candidates.len() > 0 ==> steps[0] == candidates[0]
    &&& forall|i: int| 1 <= i < candidates.len() ==> merged_from(#[trigger] steps[i], steps[i - 1], candidates[i])
}

/// What the locators make of an executable: every locator's result merged
/// into the ones before (`candidates`: the results of the locators that
/// recognized it, in locator order); nothing when none did.
pub fn identify_installation_without_resolution(candidates: Vec<RInstallation>) -> (r: Option<RInstallation>)
    ensures
        r is None <==> candidates@.len() == 0,
        r matches Some(i) ==> exists|steps: Seq<RInstallation>|
            merge_chain(candidates@, steps) && #[trigger] steps.last() == i,
{
    let ghost orig = candidates@;
    let mut rest = candidates;
    if rest.len() == 0 {
        return None;
    }
    let first = rest.remove(0);
    let mut acc = first;
    let ghost mut steps: Seq<RInstallation> = seq![first];
    let mut i: usize = 0;
    while i < rest.len()
        invariant
            rest@ == orig.remove(0),
            orig.len() > 0,
            i <= rest.len(),
            steps.len() == i + 1,
            steps[0] == orig[0],
            forall|j: int| 1 <= j <= i ==> merged_from(#[trigger] steps[j], steps[j - 1], orig[j]),
            acc == steps.last(),
        decreases rest.len() - i,
    {
        let next = merge_installations(&acc, &rest[i]);
        proof {
            assert(rest@[i as int] == orig[i + 1]);
            steps = steps.push(next);
        }
        acc = next;
        i = i + 1;
    }
    proof {
        assert(merge_chain(orig, steps));
    }
    Some(acc)
}

/// Identifies an executable. Without a runtime the locators' guess stands
/// (`discovered`). With one (`resolved`), the locators' result for the
/// probed runtime (`identified`), else their guess, is completed with the
/// runtime and marked as found by a locator; when neither exists the
/// runtime alone makes an installation, global when one of its executables
/// sits in a global search location.
pub fn identify_r_installation_using_locators(
    discovered: Option<RInstallation>,
    resolved: Option<ResolvedRInstallation>,
    identified: Option<RInstallation>,
    global_search_paths: &Vec<String>,
) -> (r: Option<RInstallation>)
    ensures
        resolved is None ==> r == discovered,
        resolved matches Some(res) ==> r matches Some(i) && (match identified {
            Some(b) => identified_with_runtime(i, b, res),
            None => match discovered {
                Some(d) => identified_with_runtime(i, d, res),
                None => unknown_from_runtime(
                    i,
                    res,
                    fallback_kind_spec(runtime_executables(res), views(global_search_paths@)),
                ),
            },
        }),
{
    let res = match resolved {
        Some(res) => res,
        None => return discovered,
    };
    match identified {
        Some(b) => return Some(complete_with_runtime(b, &res)),
        None => {},
    }
    match discovered {
        Some(d) => Some(complete_with_runtime(d, &res)),
        None => {
            let kind = infer_fallback_kind(&res, global_search_paths);
            Some(create_unknown_installation(&res, kind))
        },
    }
}

/// The home of an executable in `<home>/bin` or `<home>/bin/x64`
/// (directory names compared without case).
pub open spec fn home_from_executable_spec(executable: Seq<char>) -> Option<Seq<char>> {
    match parent_spec(executable) {
        None => None,
        Some(p) => match file_name_spec(p) {
            None => None,
            Some(name) => if ascii_lower(name) == "bin"@ {
                parent_spec(p)
            } else if ascii_lower(name) == "x64"@ {
                match parent_spec(p) {
                    None => None,
                    Some(bin) => match file_name_spec(bin) {
                        Some(b) => if ascii_lower(b) == "bin"@ {
                            parent_spec(bin)
                        } else {
                            None
                        },
                        None => None,
                    },
                }
            } else {
                None
            },
        },
    }
}

fn name_is(name: &str, lower: &str) -> (r: bool)
    ensures
        r == (ascii_lower(name@) == lower@),
{
    let n = chars_of(name);
    let l = ascii_lower_chars(n.as_slice());
    let w = chars_of(lower);
    chars_eq(l.as_slice(), w.as_slice())
}

pub fn infer_home_from_executable(executable: &str) -> (r: Option<String>)
    ensures
        opt_view(r) == home_from_executable_spec(executable@),
{
    let p = match parent(executable) {
        Some(p) => p,
        None => return None,
    };
    let name = match file_name(p.as_str()) {
        Some(n) => n,
        None => return None,
    };
    if name_is(name.as_str(), "bin") {
        return parent(p.as_str());
    }
    if name_is(name.as_str(), "x64") {
        let bin = match parent(p.as_str()) {
            Some(b) => b,
            None => return None,
        };
        return match file_name(bin.as_str()) {
            Some(b) => if name_is(b.as_str(), "bin") {
                parent(bin.as_str())
            } else {
                None
            },
            None => None,
        };
    }
    None
}

/// An installation made from an executable alone.
pub open spec fn unknown_from_raw(r: RInstallation, executable: String, kind: Option<RInstallationKind>) -> bool {
    let home = home_from_executable_spec(executable@);
    &&& r.display_name is None
    &&& r.name is None
    &&& r.executable == Some(executable)
    &&& r.kind == kind
    &&& r.version is None
    &&& opt_view(r.home) == home
    &&& r.manager is None
    &&& r.arch is None
    &&& built_paths(r.known_executables, seq![executable@])
    &&& r.symlinks is None
    &&& r.discovered_by@ == built_sources(kind, Seq::empty())
    &&& r.locator_metadata is None
    &&& r.rversions_overlay is None
    &&& opt_view(r.script_path) == infer_script_path_spec(Some(executable@), home, None, false)
    &&& r.startup_command is None
    &&& r.environment_variables is None
    &&& r.orthogonal == infer_orthogonal_spec(home)
    &&& r.error is None
}

fn create_unknown_installation_from_raw(executable: &String, global_search_paths: &Vec<String>) -> (r:
    RInstallation)
    ensures
        unknown_from_raw(r, *executable, fallback_kind_spec(seq![executable@], views(global_search_paths@))),
{
    let mut single: Vec<String> = Vec::new();
    single.push(executable.clone());
    assert(views(single@) == seq![executable@]);
    let kind = fallback_kind(&single, global_search_paths);
    let home = infer_home_from_executable(executable.as_str());
    let b = RInstallationBuilder::new(kind).executable(Some(executable.clone())).home(home).symlinks(None);
    let r = b.build();
    proof {
        assert(Seq::<Seq<char>>::empty() + seq![executable@] == seq![executable@]);
    }
    r
}

/// An installation as first guessed and as its runtime described it.
#[derive(Debug)]
pub struct ResolvedInstallation {
    pub discovered: RInstallation,
    pub resolved: Option<RInstallation>,
}

/// An installation completed with its runtime, the runtime's executable
/// joining its symlinks.
pub open spec fn resolved_from_base(r: RInstallation, base: RInstallation, res: ResolvedRInstallation) -> bool {
    with_runtime(
        r,
        base,
        res,
        opt_views(base.known_executables) + seq![res.executable@],
        opt_views(base.symlinks) + seq![res.executable@] + opt_views(res.symlinks),
        built_sources(base.kind, base.discovered_by@),
    )
}

fn apply_runtime(base: RInstallation, info: &ResolvedRInstallation) -> (r: RInstallation)
    ensures
        resolved_from_base(r, base, *info),
{
    let ghost b0 = base;
    let mut symlinks: Vec<String> = match &base.symlinks {
        Some(v) => crate::r_installation::clone_strings(v),
        None => Vec::new(),
    };
    symlinks.push(info.executable.clone());
    let ghost links_a = symlinks@;
    let mut extra: Vec<String> = match &info.symlinks {
        Some(v) => crate::r_installation::clone_strings(v),
        None => Vec::new(),
    };
    let ghost links_b = extra@;
    symlinks.append(&mut extra);
    proof {
        assert(views(symlinks@) =~= views(links_a) + views(links_b));
        assert(views(symlinks@) == opt_views(b0.symlinks) + seq![info.executable@] + opt_views(info.symlinks));
    }
    let symlinks = sort_dedup_paths(symlinks);
    let ghost sv = symlinks;
    let b = RInstallationBuilder::from_installation(base).executable(Some(info.executable.clone())).home(
        Some(info.home.clone()),
    ).version(Some(info.version.clone())).arch(Some(info.arch)).symlinks(Some(symlinks));
    let ghost d = b.draft();
    let r = b.build();
    proof {
        let sin = opt_views(b0.symlinks) + seq![info.executable@] + opt_views(info.symlinks);
        lemma_normalized_paths_views(d.symlinks, Some(sv));
        assert(opt_views(d.symlinks) + Seq::<Seq<char>>::empty() == opt_views(d.symlinks));
        lemma_built_paths_transfer(r.symlinks, opt_views(d.symlinks), views(sv@), Seq::empty());
        assert(views(sv@) + Seq::<Seq<char>>::empty() == views(sv@));
        lemma_built_paths_transfer(r.symlinks, views(sv@), sin, Seq::empty());
        assert(sin + Seq::<Seq<char>>::empty() == sin);
    }
    r
}

/// `resolved_from_base` depends on the base's fields only by value.
proof fn lemma_resolved_from_copy(r: RInstallation, c: RInstallation, d: RInstallation, res: ResolvedRInstallation)
    requires
        resolved_from_base(r, c, res),
        same_installation(c, d),
    ensures
        resolved_from_base(r, d, res),
{
    assert(opt_views(c.known_executables) == opt_views(d.known_executables));
    assert(opt_views(c.symlinks) == opt_views(d.symlinks));
}

/// Resolves an executable (the caller has replaced a directory by the
/// executable in it). The guess is the first locator's result
/// (`discovered`), else, when the runtime answered, an installation made
/// from the executable alone. With a runtime (`info`) the result also holds
/// the locators' result for the probed runtime (`resolved_base`), else the
/// guess, completed with the runtime. Without a guess nothing is resolved.
pub fn resolve_installation(
    executable: &String,
    discovered: Option<RInstallation>,
    info: Option<ResolvedRInstallation>,
    resolved_base: Option<RInstallation>,
    global_search_paths: &Vec<String>,
) -> (r: Option<ResolvedInstallation>)
    ensures
        r is Some <==> (discovered is Some || info is Some),
        r matches Some(x) ==> (match discovered {
            Some(d) => x.discovered == d,
            None => unknown_from_raw(
                x.discovered,
                *executable,
                fallback_kind_spec(seq![executable@], views(global_search_paths@)),
            ),
        }),
        r matches Some(x) ==> (match info {
            None => x.resolved is None,
            Some(res) => x.resolved matches Some(y) && resolved_from_base(
                y,
                match resolved_base {
                    Some(b) => b,
                    None => x.discovered,
                },
                res,
            ),
        }),
{
    let discovered = match discovered {
        Some(d) => d,
        None => {
            if info.is_none() {
                return None;
            }
            create_unknown_installation_from_raw(executable, global_search_paths)
        },
    };
    match info {
        Some(res) => {
            let resolved = match resolved_base {
                Some(b) => apply_runtime(b, &res),
                None => {
                    let c = discovered.copy();
                    let ghost cc = c;
                    let y = apply_runtime(c, &res);
                    proof {
                        lemma_resolved_from_copy(y, cc, discovered, res);
                    }
                    y
                },
            };
            Some(ResolvedInstallation { discovered, resolved: Some(resolved) })
        },
        None => Some(ResolvedInstallation { discovered, resolved: None }),
    }
}

} // verus!
