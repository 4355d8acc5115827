//! Merging two reports of the same installation.

use vstd::prelude::*;
use crate::manager::{clone_opt_manager, clone_opt_string};
use crate::path::{is_sorted_set_of, lemma_empty_iff, lemma_sorted_set_transfer, views};
use crate::r_installation::{
    built_sources, clone_env_vars, clone_sources, clone_strings, infer_orthogonal_spec,
    infer_script_path_spec, lemma_normalize_idempotent, metadata_priority, normalize_sources, opt_view, opt_views,
    DiscoverySource, EnvVars, LocatorMetadata, RInstallation, RInstallationBuilder,
    RInstallationKind, RVersionsOverlay,
};
use crate::text::{chars_eq, chars_of};

verus! {

/// Deduplication key used when reporting: the home, else the executable.
pub fn get_installation_key(installation: &RInstallation) -> (r: Option<String>)
    ensures
        r == (if installation.home.is_some() {
            installation.home
        } else {
            installation.executable
        }),
{
    match &installation.home {
        Some(home) => Some(home.clone()),
        None => clone_opt_string(&installation.executable),
    }
}

/// Deduplication key of an environment: the executable, else the home.
pub fn get_environment_key(installation: &RInstallation) -> (r: Option<String>)
    ensures
        r == (if installation.executable.is_some() {
            installation.executable
        } else {
            installation.home
        }),
{
    installation.get_environment_key()
}

/// The variables as a map; a later entry for the same name wins.
pub open spec fn env_map(v: Seq<(String, String)>) -> Map<Seq<char>, Seq<char>>
    decreases v.len(),
{
    if v.len() == 0 {
        Map::empty()
    } else {
        env_map(v.drop_last()).insert(v.last().0@, v.last().1@)
    }
}

pub open spec fn opt_env_map(v: Option<EnvVars>) -> Option<Map<Seq<char>, Seq<char>>> {
    match v {
        Some(x) => Some(env_map(x@)),
        None => None,
    }
}

/// Entries whose name is not among `names`.
pub open spec fn without_names(v: Seq<(String, String)>, names: Set<Seq<char>>) -> Seq<(String, String)>
    decreases v.len(),
{
    if v.len() == 0 {
        Seq::empty()
    } else if names.contains(v.last().0@) {
        without_names(v.drop_last(), names)
    } else {
        without_names(v.drop_last(), names).push(v.last())
    }
}

pub proof fn lemma_env_map_concat(a: Seq<(String, String)>, b: Seq<(String, String)>)
    ensures
        env_map(a + b) == env_map(a).union_prefer_right(env_map(b)),
    decreases b.len(),
{
    if b.len() == 0 {
        assert(a + b =~= a);
        assert(env_map(a).union_prefer_right(Map::empty()) =~= env_map(a));
    } else {
        lemma_env_map_concat(a, b.drop_last());
        assert((a + b).drop_last() =~= a + b.drop_last());
        assert((a + b).last() == b.last());
        assert(env_map(a + b) =~= env_map(a).union_prefer_right(env_map(b)));
    }
}

pub proof fn lemma_env_map_without(v: Seq<(String, String)>, names: Set<Seq<char>>)
    ensures
        env_map(without_names(v, names)) == env_map(v).remove_keys(names),
    decreases v.len(),
{
    if v.len() == 0 {
        assert(Map::<Seq<char>, Seq<char>>::empty().remove_keys(names) =~= Map::empty());
    } else {
        lemma_env_map_without(v.drop_last(), names);
        if names.contains(v.last().0@) {
            assert(env_map(v).remove_keys(names) =~= env_map(v.drop_last()).remove_keys(names));
        } else {
            let w = without_names(v.drop_last(), names).push(v.last());
            assert(w.drop_last() =~= without_names(v.drop_last(), names));
            assert(env_map(w) =~= env_map(v).remove_keys(names));
        }
    }
}

fn has_name(v: &EnvVars, name: &String) -> (r: bool)
    ensures
        r == env_map(v@).dom().contains(name@),
{
    let n = chars_of(name.as_str());
    let mut i: usize = 0;
    while i < v.len()
        invariant
            i <= v.len(),
            n@ == name@,
            env_map(v@.subrange(0, i as int)).dom() == v@.subrange(0, i as int).map_values(
                |e: (String, String)| e.0@,
            ).to_set(),
            forall|k: int| 0 <= k < i ==> v@[k].0@ != name@,
        decreases v.len() - i,
    {
        let k = chars_of(v[i].0.as_str());
        proof {
            let pre = v@.subrange(0, i as int);
            let post = v@.subrange(0, i + 1);
            assert(post.drop_last() =~= pre);
            assert(post.map_values(|e: (String, String)| e.0@) =~= pre.map_values(
                |e: (String, String)| e.0@,
            ).push(v@[i as int].0@));
            pre.map_values(|e: (String, String)| e.0@).lemma_push_to_set_commute(v@[i as int].0@);
            assert(post.map_values(|e: (String, String)| e.0@).to_set() =~= pre.map_values(
                |e: (String, String)| e.0@,
            ).to_set().insert(v@[i as int].0@));
            assert(env_map(post).dom() =~= env_map(pre).dom().insert(v@[i as int].0@));
        }
        if chars_eq(k.as_slice(), n.as_slice()) {
            proof {
                let pre = v@.subrange(0, i as int);
                let post = v@.subrange(0, i + 1);
                assert(env_map(post).dom().contains(name@));
                lemma_env_map_prefix_dom(v@, i + 1);
            }
            return true;
        }
        i = i + 1;
    }
    proof {
        assert(v@.subrange(0, v.len() as int) =~= v@);
        let keys = v@.map_values(|e: (String, String)| e.0@);
        if keys.to_set().contains(name@) {
            assert(keys.contains(name@));
            let k = choose|k: int| 0 <= k < keys.len() && keys[k] == name@;
            assert(v@[k].0@ == name@);
        }
    }
    false
}

proof fn lemma_env_map_prefix_dom(v: Seq<(String, String)>, i: int)
    requires
        0 <= i <= v.len(),
    ensures
        env_map(v.subrange(0, i)).dom().subset_of(env_map(v).dom()),
    decreases v.len() - i,
{
    if i < v.len() {
        lemma_env_map_prefix_dom(v, i + 1);
        assert(v.subrange(0, i + 1).drop_last() =~= v.subrange(0, i));
    } else {
        assert(v.subrange(0, i) =~= v);
    }
}

/// The merged variables as a map: the primary value wins for a name in both.
pub open spec fn merge_env_spec(primary: Option<EnvVars>, secondary: Option<EnvVars>) -> Option<
    Map<Seq<char>, Seq<char>>,
> {
    match (primary, secondary) {
        (None, None) => None,
        (Some(p), None) => Some(env_map(p@)),
        (None, Some(s)) => Some(env_map(s@)),
        (Some(p), Some(s)) => Some(env_map(s@).union_prefer_right(env_map(p@))),
    }
}

/// An empty map counts as absent.
pub open spec fn nonempty_map(m: Option<Map<Seq<char>, Seq<char>>>) -> Option<
    Map<Seq<char>, Seq<char>>,
> {
    match m {
        Some(x) => if x == Map::<Seq<char>, Seq<char>>::empty() {
            None
        } else {
            Some(x)
        },
        None => None,
    }
}

pub proof fn lemma_env_map_empty(v: Seq<(String, String)>)
    ensures
        env_map(v) == Map::<Seq<char>, Seq<char>>::empty() <==> v.len() == 0,
{
    if v.len() > 0 {
        assert(env_map(v).dom().contains(v.last().0@));
    }
}

/// Variables of both lists; for a name in both, the primary value wins.
pub fn merge_environment_variables(primary: &Option<EnvVars>, secondary: &Option<EnvVars>) -> (r:
    Option<EnvVars>)
    ensures
        opt_env_map(r) == merge_env_spec(*primary, *secondary),
        (primary.is_none() && secondary.is_none()) == r.is_none(),
{
    match (primary, secondary) {
        (None, None) => None,
        (Some(p), None) => Some(clone_env_vars(p)),
        (None, Some(s)) => Some(clone_env_vars(s)),
        (Some(p), Some(s)) => {
            let ghost names = env_map(p@).dom();
            let mut merged: EnvVars = Vec::new();
            let mut i: usize = 0;
            while i < s.len()
                invariant
                    i <= s.len(),
                    names == env_map(p@).dom(),
                    merged@ == without_names(s@.subrange(0, i as int), names),
                decreases s.len() - i,
            {
                let keep = !has_name(p, &s[i].0);
                proof {
                    assert(s@.subrange(0, i + 1).drop_last() =~= s@.subrange(0, i as int));
                }
                if keep {
                    merged.push((s[i].0.clone(), s[i].1.clone()));
                }
                i = i + 1;
            }
            let mut j: usize = 0;
            let ghost base = merged@;
            while j < p.len()
                invariant
                    j <= p.len(),
                    merged@ == base + p@.subrange(0, j as int),
                decreases p.len() - j,
            {
                merged.push((p[j].0.clone(), p[j].1.clone()));
                j = j + 1;
            }
            proof {
                assert(s@.subrange(0, s.len() as int) =~= s@);
                assert(p@.subrange(0, p.len() as int) =~= p@);
                lemma_env_map_concat(base, p@);
                lemma_env_map_without(s@, names);
                assert(env_map(s@).remove_keys(names).union_prefer_right(env_map(p@)) =~= env_map(
                    s@,
                ).union_prefer_right(env_map(p@)));
            }
            Some(merged)
        },
    }
}

/// The first present value.
pub open spec fn or_else<T>(a: Option<T>, b: Option<T>) -> Option<T> {
    if a.is_some() {
        a
    } else {
        b
    }
}

pub open spec fn merge_overlay_spec(
    existing: Option<RVersionsOverlay>,
    new: Option<RVersionsOverlay>,
) -> Option<RVersionsOverlay> {
    match (existing, new) {
        (None, None) => None,
        (Some(e), None) => Some(e),
        (None, Some(n)) => Some(n),
        (Some(e), Some(n)) => Some(
            RVersionsOverlay {
                label: or_else(e.label, n.label),
                script: or_else(e.script, n.script),
                repo: or_else(e.repo, n.repo),
                library: or_else(e.library, n.library),
                module: or_else(e.module, n.module),
                module_startup_command: or_else(e.module_startup_command, n.module_startup_command),
            },
        ),
    }
}

fn or_string(a: &Option<String>, b: &Option<String>) -> (r: Option<String>)
    ensures
        r == or_else(*a, *b),
{
    if a.is_some() {
        clone_opt_string(a)
    } else {
        clone_opt_string(b)
    }
}

/// Overlay fields of the existing report, filled in from the new one.
pub fn merge_rversions_overlay(
    existing: &Option<RVersionsOverlay>,
    new: &Option<RVersionsOverlay>,
) -> (r: Option<RVersionsOverlay>)
    ensures
        r == merge_overlay_spec(*existing, *new),
{
    match (existing, new) {
        (None, None) => None,
        (Some(e), None) => Some(e.copy()),
        (None, Some(n)) => Some(n.copy()),
        (Some(e), Some(n)) => Some(
            RVersionsOverlay {
                label: or_string(&e.label, &n.label),
                script: or_string(&e.script, &n.script),
                repo: or_string(&e.repo, &n.repo),
                library: or_string(&e.library, &n.library),
                module: or_string(&e.module, &n.module),
                module_startup_command: or_string(
                    &e.module_startup_command,
                    &n.module_startup_command,
                ),
            },
        ),
    }
}

pub open spec fn select_metadata_spec(
    existing: Option<LocatorMetadata>,
    new: Option<LocatorMetadata>,
) -> Option<LocatorMetadata> {
    match (existing, new) {
        (Some(e), Some(n)) => if metadata_priority(n) > metadata_priority(e) {
            Some(n)
        } else {
            Some(e)
        },
        (Some(e), None) => Some(e),
        (None, Some(n)) => Some(n),
        (None, None) => None,
    }
}

/// The metadata of higher priority; the existing one on a tie.
pub fn select_locator_metadata(
    existing: Option<&LocatorMetadata>,
    new: Option<&LocatorMetadata>,
) -> (r: Option<LocatorMetadata>)
    ensures
        r == select_metadata_spec(
            match existing {
                Some(e) => Some(*e),
                None => None,
            },
            match new {
                Some(n) => Some(*n),
                None => None,
            },
        ),
{
    match (existing, new) {
        (Some(e), Some(n)) => {
            if n.priority() > e.priority() {
                Some(n.copy())
            } else {
                Some(e.copy())
            }
        },
        (Some(e), None) => Some(e.copy()),
        (None, Some(n)) => Some(n.copy()),
        (None, None) => None,
    }
}

pub open spec fn priority_spec(i: RInstallation) -> u8 {
    match i.locator_metadata {
        Some(m) => metadata_priority(m),
        None => 0,
    }
}

pub open spec fn specificity_spec(i: RInstallation) -> u8 {
    match i.kind {
        Some(RInstallationKind::GlobalPaths) => 1,
        Some(RInstallationKind::LinuxGlobal) => 2,
        Some(RInstallationKind::EnvironmentModule) => 3,
        Some(_) => 4,
        None => 0,
    }
}

#[verifier::opaque]
pub open spec fn b2n(b: bool) -> nat {
    if b {
        1
    } else {
        0
    }
}

/// How many of the fields display_name, name, executable, kind, version, home hold a value.
pub open spec fn completeness_head(i: RInstallation) -> nat {
    b2n(i.display_name.is_some())
        + b2n(i.name.is_some())
        + b2n(i.executable.is_some())
        + b2n(i.kind.is_some())
        + b2n(i.version.is_some())
        + b2n(i.home.is_some())
}

/// How many of the fields manager, arch, known_executables, symlinks, locator_metadata, rversions_overlay hold a value.
pub open spec fn completeness_mid(i: RInstallation) -> nat {
    b2n(i.manager.is_some())
        + b2n(i.arch.is_some())
        + b2n(i.known_executables.is_some())
        + b2n(i.symlinks.is_some())
        + b2n(i.locator_metadata.is_some())
        + b2n(i.rversions_overlay.is_some())
}

/// How many of the fields script_path, startup_command, environment_variables, orthogonal, error hold a value.
pub open spec fn completeness_tail(i: RInstallation) -> nat {
    b2n(i.script_path.is_some())
        + b2n(i.startup_command.is_some())
        + b2n(i.environment_variables.is_some())
        + b2n(i.orthogonal.is_some())
        + b2n(i.error.is_some())
}

/// Number of fields that hold a value.
pub open spec fn completeness_spec(i: RInstallation) -> nat {
    completeness_head(i) + completeness_mid(i) + completeness_tail(i)
}

/// Whether the new report takes precedence over the existing one.
pub open spec fn prefers_new(existing: RInstallation, new: RInstallation) -> bool {
    ||| priority_spec(new) > priority_spec(existing)
    ||| (priority_spec(new) == priority_spec(existing) && specificity_spec(new) > specificity_spec(
        existing,
    ))
    ||| (priority_spec(new) == priority_spec(existing) && specificity_spec(new) == specificity_spec(
        existing,
    ) && completeness_spec(new) > completeness_spec(existing))
}

pub fn installation_priority(i: &RInstallation) -> (r: u8)
    ensures
        r == priority_spec(*i),
{
    match &i.locator_metadata {
        Some(m) => m.priority(),
        None => 0,
    }
}

pub fn kind_specificity(i: &RInstallation) -> (r: u8)
    ensures
        r == specificity_spec(*i),
{
    match i.kind {
        Some(RInstallationKind::GlobalPaths) => 1,
        Some(RInstallationKind::LinuxGlobal) => 2,
        Some(RInstallationKind::EnvironmentModule) => 3,
        Some(_) => 4,
        None => 0,
    }
}

fn count(b: bool) -> (r: u8)
    ensures
        r == b2n(b),
        r <= 1,
{
    reveal(b2n);
    if b {
        1
    } else {
        0
    }
}

fn count_head(i: &RInstallation) -> (r: u8)
    ensures
        r == completeness_head(*i),
        r <= 6,
{
    let mut c: u8 = count(i.display_name.is_some());
    c = c + count(i.name.is_some());
    c = c + count(i.executable.is_some());
    c = c + count(i.kind.is_some());
    c = c + count(i.version.is_some());
    c = c + count(i.home.is_some());
    c
}

fn count_mid(i: &RInstallation) -> (r: u8)
    ensures
        r == completeness_mid(*i),
        r <= 6,
{
    let mut c: u8 = count(i.manager.is_some());
    c = c + count(i.arch.is_some());
    c = c + count(i.known_executables.is_some());
    c = c + count(i.symlinks.is_some());
    c = c + count(i.locator_metadata.is_some());
    c = c + count(i.rversions_overlay.is_some());
    c
}

fn count_tail(i: &RInstallation) -> (r: u8)
    ensures
        r == completeness_tail(*i),
        r <= 5,
{
    let mut c: u8 = count(i.script_path.is_some());
    c = c + count(i.startup_command.is_some());
    c = c + count(i.environment_variables.is_some());
    c = c + count(i.orthogonal.is_some());
    c = c + count(i.error.is_some());
    c
}

pub fn installation_completeness(i: &RInstallation) -> (r: u8)
    ensures
        r == completeness_spec(*i),
{
    count_head(i) + count_mid(i) + count_tail(i)
}

fn preferred_is_new(existing: &RInstallation, new: &RInstallation) -> (r: bool)
    ensures
        r == prefers_new(*existing, *new),
{
    let pn = installation_priority(new);
    let pe = installation_priority(existing);
    let sn = kind_specificity(new);
    let se = kind_specificity(existing);
    pn > pe || (pn == pe && sn > se) || (pn == pe && sn == se && installation_completeness(new)
        > installation_completeness(existing))
}

fn concat_opt_paths(a: &Option<Vec<String>>, b: &Option<Vec<String>>) -> (r: Vec<String>)
    ensures
        views(r@) == opt_views(*a) + opt_views(*b),
{
    let mut r: Vec<String> = match a {
        Some(v) => clone_strings(v),
        None => Vec::new(),
    };
    let ghost base = r@;
    if let Some(v) = b {
        let mut i: usize = 0;
        while i < v.len()
            invariant
                i <= v.len(),
                r@ == base + v@.subrange(0, i as int),
            decreases v.len() - i,
        {
            r.push(v[i].clone());
            i = i + 1;
        }
        assert(v@.subrange(0, v.len() as int) =~= v@);
    }
    assert(views(r@) =~= opt_views(*a) + opt_views(*b));
    r
}

fn concat_sources(a: &Vec<DiscoverySource>, b: &Vec<DiscoverySource>) -> (r: Vec<DiscoverySource>)
    ensures
        r@ == a@ + b@,
{
    let mut r = clone_sources(a);
    let mut i: usize = 0;
    while i < b.len()
        invariant
            i <= b.len(),
            r@ == a@ + b@.subrange(0, i as int),
        decreases b.len() - i,
    {
        r.push(b[i]);
        i = i + 1;
    }
    assert(b@.subrange(0, b.len() as int) =~= b@);
    r
}

/// Two path sequences with the same elements.
pub open spec fn same_elements(a: Seq<Seq<char>>, b: Seq<Seq<char>>) -> bool {
    forall|x: Seq<char>| a.contains(x) <==> b.contains(x)
}

/// The optional executable as a one-element or empty sequence.
pub open spec fn exe_seq(e: Option<String>) -> Seq<Seq<char>> {
    match e {
        Some(x) => seq![x@],
        None => Seq::empty(),
    }
}

/// A path list that holds exactly the elements of `input`, sorted, and is
/// absent when there are none.
pub open spec fn sorted_paths_of(out: Option<Vec<String>>, input: Seq<Seq<char>>) -> bool {
    if input.len() == 0 {
        out is None
    } else {
        out matches Some(w) && is_sorted_set_of(views(w@), input)
    }
}

/// What merging two reports of one installation gives.
pub open spec fn merged_from(r: RInstallation, existing: RInstallation, new: RInstallation) -> bool {
    let p = if prefers_new(existing, new) { new } else { existing };
    let s = if prefers_new(existing, new) { existing } else { new };
    let overlay = merge_overlay_spec(existing.rversions_overlay, new.rversions_overlay);
    let exe = or_else(p.executable, s.executable);
    let home = or_else(p.home, s.home);
    let arch = or_else(p.arch, s.arch);
    let kind = or_else(p.kind, s.kind);
    &&& r.display_name == (match overlay {
        Some(o) if o.label.is_some() => o.label,
        _ => or_else(p.display_name, s.display_name),
    })
    &&& r.name == or_else(p.name, s.name)
    &&& r.executable == exe
    &&& r.kind == kind
    &&& r.version == or_else(p.version, s.version)
    &&& r.home == home
    &&& r.manager == or_else(p.manager, s.manager)
    &&& r.arch == arch
    &&& sorted_paths_of(
        r.known_executables,
        opt_views(existing.known_executables) + opt_views(new.known_executables) + exe_seq(exe),
    )
    &&& sorted_paths_of(r.symlinks, opt_views(existing.symlinks) + opt_views(new.symlinks))
    &&& r.discovered_by@ == built_sources(
        kind,
        normalize_sources(existing.discovered_by@ + new.discovered_by@),
    )
    &&& r.locator_metadata == select_metadata_spec(existing.locator_metadata, new.locator_metadata)
    &&& r.rversions_overlay == overlay
    &&& opt_view(r.script_path) == (match or_else(p.script_path, s.script_path) {
        Some(x) => Some(x@),
        None => infer_script_path_spec(opt_view(exe), opt_view(home), arch, false),
    })
    &&& r.startup_command == or_else(p.startup_command, s.startup_command)
    &&& opt_env_map(r.environment_variables) == nonempty_map(
        merge_env_spec(p.environment_variables, s.environment_variables),
    )
    &&& r.orthogonal == (match or_else(p.orthogonal, s.orthogonal) {
        Some(o) => Some(o),
        None => infer_orthogonal_spec(opt_view(home)),
    })
    &&& r.error == or_else(p.error, s.error)
}

/// Merges two reports of one installation: the report of higher locator
/// priority, then kind specificity, then completeness supplies each field
/// first; path lists and discovery sources are united; the overlay label,
/// when present, names the installation.
pub fn merge_installations(existing: &RInstallation, new: &RInstallation) -> (r: RInstallation)
    ensures
        merged_from(r, *existing, *new),
{
    let use_new = preferred_is_new(existing, new);
    let (primary, secondary) = if use_new {
        (new, existing)
    } else {
        (existing, new)
    };

    let discovered_by = concat_sources(&existing.discovered_by, &new.discovered_by);
    let symlinks_in = concat_opt_paths(&existing.symlinks, &new.symlinks);
    let symlinks = crate::path::sort_dedup_paths(symlinks_in);
    let known_in = concat_opt_paths(&existing.known_executables, &new.known_executables);
    let known = crate::path::sort_dedup_paths(known_in);

    let locator_metadata = select_locator_metadata(
        existing.locator_metadata.as_ref(),
        new.locator_metadata.as_ref(),
    );
    let rversions_overlay = merge_rversions_overlay(
        &existing.rversions_overlay,
        &new.rversions_overlay,
    );
    let environment_variables = merge_environment_variables(
        &primary.environment_variables,
        &secondary.environment_variables,
    );
    let display_name = match &rversions_overlay {
        Some(o) if o.label.is_some() => clone_opt_string(&o.label),
        _ => or_string(&primary.display_name, &secondary.display_name),
    };
    proof {
        lemma_empty_iff(views(known@), views(known_in@));
        lemma_empty_iff(views(symlinks@), views(symlinks_in@));
    }
    let known_opt = if known.len() == 0 {
        None
    } else {
        Some(known)
    };
    let symlinks_opt = if symlinks.len() == 0 {
        None
    } else {
        Some(symlinks)
    };

    let ghost merged_env = environment_variables;
    let ghost known_set = known_opt;
    let ghost symlinks_set = symlinks_opt;
    let builder = RInstallationBuilder::from_installation(primary.copy())
        .display_name(display_name)
        .name(or_string(&primary.name, &secondary.name))
        .executable(or_string(&primary.executable, &secondary.executable))
        .kind(if primary.kind.is_some() {
        primary.kind
    } else {
        secondary.kind
    })
        .version(or_string(&primary.version, &secondary.version))
        .home(or_string(&primary.home, &secondary.home))
        .manager(if primary.manager.is_some() {
        clone_opt_manager(&primary.manager)
    } else {
        clone_opt_manager(&secondary.manager)
    })
        .arch(if primary.arch.is_some() {
        primary.arch
    } else {
        secondary.arch
    })
        .known_executables(known_opt)
        .symlinks(symlinks_opt)
        .discovered_by(discovered_by)
        .locator_metadata(locator_metadata)
        .rversions_overlay(rversions_overlay)
        .script_path(or_string(&primary.script_path, &secondary.script_path))
        .startup_command(or_string(&primary.startup_command, &secondary.startup_command))
        .environment_variables(environment_variables)
        .orthogonal(if primary.orthogonal.is_some() {
        primary.orthogonal
    } else {
        secondary.orthogonal
    })
        .error(or_string(&primary.error, &secondary.error));
    let ghost d = builder.draft();
    let r = builder.build();
    proof {
        let exe = d.executable;
        let input_known = opt_views(existing.known_executables) + opt_views(new.known_executables);
        match d.known_executables {
            Some(w) => {
                lemma_empty_iff(views(w@), opt_views(known_set));
                assert((views(w@) + exe_seq(exe)).len() > 0);
                lemma_sorted_set_transfer(views(w@), input_known, opt_views(r.known_executables), exe_seq(exe));
                assert(opt_views(d.known_executables) + exe_seq(exe) =~= opt_views(d.known_executables) + (match d.executable {
                    Some(e) => seq![e@],
                    None => Seq::empty(),
                }));
            },
            None => {
                assert(input_known.len() == 0);
                assert(input_known + exe_seq(exe) =~= opt_views(d.known_executables) + (match d.executable {
                    Some(e) => seq![e@],
                    None => Seq::empty(),
                }));
            },
        }
        match d.symlinks {
            Some(w) => {
                lemma_empty_iff(views(w@), opt_views(symlinks_set));
                lemma_sorted_set_transfer(views(w@), views(symlinks_in@), opt_views(r.symlinks), Seq::empty());
                assert(views(symlinks_in@) + Seq::<Seq<char>>::empty() =~= views(symlinks_in@));
                assert(views(w@) + Seq::<Seq<char>>::empty() =~= views(w@));
            },
            None => {},
        }
        lemma_normalize_idempotent(existing.discovered_by@ + new.discovered_by@);
        match merged_env {
            Some(m) => lemma_env_map_empty(m@),
            None => {},
        }
    }
    r
}

/// Kind `a` describes an installation more specifically than kind `b`:
/// the Linux locator's kind over the global search paths, environment
/// modules over both, and every other locator's kind over all three.
pub open spec fn more_specific_kind(a: RInstallationKind, b: RInstallationKind) -> bool {
    let generic = |k: RInstallationKind| k == RInstallationKind::GlobalPaths || k == RInstallationKind::LinuxGlobal
        || k == RInstallationKind::EnvironmentModule;
    ||| a == RInstallationKind::LinuxGlobal && b == RInstallationKind::GlobalPaths
    ||| a == RInstallationKind::EnvironmentModule && (b == RInstallationKind::GlobalPaths || b
        == RInstallationKind::LinuxGlobal)
    ||| !generic(a) && generic(b)
}

/// Of two reports of one installation whose locators rank the same, the
/// one of the more specific kind decides the merged kind, whichever of
/// the two came first.
pub proof fn law_more_specific_kind_wins(existing: RInstallation, new: RInstallation, r: RInstallation, a: RInstallationKind, b: RInstallationKind)
    requires
        merged_from(r, existing, new),
        priority_spec(existing) == priority_spec(new),
        more_specific_kind(a, b),
        (existing.kind == Some(a) && new.kind == Some(b)) || (existing.kind == Some(b) && new.kind == Some(a)),
    ensures
        r.kind == Some(a),
{
}

/// In particular the Linux locator's report beats the global search
/// paths' report of the same installation, in either order.
pub proof fn law_linux_global_beats_global_paths(existing: RInstallation, new: RInstallation, r: RInstallation)
    requires
        merged_from(r, existing, new),
        priority_spec(existing) == priority_spec(new),
        (existing.kind == Some(RInstallationKind::GlobalPaths) && new.kind == Some(RInstallationKind::LinuxGlobal))
            || (existing.kind == Some(RInstallationKind::LinuxGlobal) && new.kind == Some(
            RInstallationKind::GlobalPaths,
        )),
    ensures
        r.kind == Some(RInstallationKind::LinuxGlobal),
{
    law_more_specific_kind_wins(existing, new, r, RInstallationKind::LinuxGlobal, RInstallationKind::GlobalPaths);
}

} // verus!
