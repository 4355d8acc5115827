//! The text an installation is shown as, one field per line.

use vstd::prelude::*;
use crate::arch::{serialized_spec, Architecture};
use crate::manager::EnvManagerType;
use crate::merge::env_map;
use crate::path::{lemma_views_push, views};
use crate::r_installation::{opt_view, EnvVars, RInstallation, RInstallationKind, RVersionsOverlay};
use crate::text::{chars_of, push_all, push_str, string_of};

verus! {

broadcast use lemma_views_push;

/// Strings in the order `String` compares them: by character, a prefix first.
pub open spec fn lex_lt(a: Seq<char>, b: Seq<char>) -> bool
    decreases a.len(),
{
    if a.len() == 0 {
        b.len() > 0
    } else if b.len() == 0 {
        false
    } else if a[0] != b[0] {
        a[0] < b[0]
    } else {
        lex_lt(a.drop_first(), b.drop_first())
    }
}

pub proof fn lemma_lex_irreflexive(a: Seq<char>)
    ensures
        !lex_lt(a, a),
    decreases a.len(),
{
    if a.len() > 0 {
        lemma_lex_irreflexive(a.drop_first());
    }
}

pub proof fn lemma_lex_total(a: Seq<char>, b: Seq<char>)
    ensures
        a == b || lex_lt(a, b) || lex_lt(b, a),
    decreases a.len(),
{
    if a.len() > 0 && b.len() > 0 && a[0] == b[0] {
        lemma_lex_total(a.drop_first(), b.drop_first());
        if a.drop_first() == b.drop_first() {
            assert(a =~= seq![a[0]] + a.drop_first());
            assert(b =~= seq![b[0]] + b.drop_first());
        }
    } else if a.len() > 0 && b.len() > 0 {
    } else if a.len() == 0 && b.len() == 0 {
        assert(a =~= b);
    }
}

pub proof fn lemma_lex_transitive(a: Seq<char>, b: Seq<char>, c: Seq<char>)
    requires
        lex_lt(a, b),
        lex_lt(b, c),
    ensures
        lex_lt(a, c),
    decreases a.len(),
{
    if a.len() > 0 && b.len() > 0 && c.len() > 0 && a[0] == b[0] && b[0] == c[0] {
        lemma_lex_transitive(a.drop_first(), b.drop_first(), c.drop_first());
    }
}

pub proof fn lemma_lex_asymmetric(a: Seq<char>, b: Seq<char>)
    requires
        lex_lt(a, b),
    ensures
        !lex_lt(b, a),
{
    if lex_lt(b, a) {
        lemma_lex_transitive(a, b, a);
        lemma_lex_irreflexive(a);
    }
}

pub fn lex_lt_exec(a: &[char], b: &[char]) -> (r: bool)
    ensures
        r == lex_lt(a@, b@),
{
    let mut i: usize = 0;
    assert(a@.subrange(0, a@.len() as int) == a@);
    assert(b@.subrange(0, b@.len() as int) == b@);
    while i < a.len() && i < b.len()
        invariant
            i <= a.len(),
            i <= b.len(),
            lex_lt(a@, b@) == lex_lt(a@.subrange(i as int, a@.len() as int), b@.subrange(i as int, b@.len() as int)),
        decreases a.len() - i,
    {
        let ghost sa = a@.subrange(i as int, a@.len() as int);
        let ghost sb = b@.subrange(i as int, b@.len() as int);
        assert(sa[0] == a@[i as int]);
        assert(sb[0] == b@[i as int]);
        if a[i] != b[i] {
            return a[i] < b[i];
        }
        assert(sa.drop_first() == a@.subrange(i + 1, a@.len() as int));
        assert(sb.drop_first() == b@.subrange(i + 1, b@.len() as int));
        i = i + 1;
    }
    a.len() == i && b.len() > i
}

/// Strictly increasing in string order.
pub open spec fn lex_sorted(s: Seq<Seq<char>>) -> bool {
    forall|i: int, j: int| 0 <= i < j < s.len() ==> lex_lt(#[trigger] s[i], #[trigger] s[j])
}

/// The names the variables set.
pub open spec fn var_names(v: Seq<(String, String)>) -> Set<Seq<char>> {
    env_map(v).dom()
}

proof fn lemma_var_names_push(v: Seq<(String, String)>, p: (String, String))
    ensures
        var_names(v.push(p)) == var_names(v).insert(p.0@),
{
    assert(v.push(p).drop_last() == v);
}

fn insert_sorted(keys: &mut Vec<String>, key: String)
    requires
        lex_sorted(views(old(keys)@)),
    ensures
        lex_sorted(views(final(keys)@)),
        views(final(keys)@).to_set() == views(old(keys)@).to_set().insert(key@),
{
    let kv = chars_of(key.as_str());
    let mut j: usize = 0;
    loop
        invariant
            j <= keys.len(),
            kv@ == key@,
            keys@ == old(keys)@,
            lex_sorted(views(keys@)),
            forall|m: int| 0 <= m < j ==> lex_lt(#[trigger] views(keys@)[m], key@),
        ensures
            j <= keys.len(),
            keys@ == old(keys)@,
            forall|m: int| 0 <= m < j ==> lex_lt(#[trigger] views(keys@)[m], key@),
            j < keys.len() ==> !lex_lt(views(keys@)[j as int], key@),
        decreases keys.len() - j,
    {
        if j == keys.len() {
            break;
        }
        let cv = chars_of(keys[j].as_str());
        if !lex_lt_exec(cv.as_slice(), kv.as_slice()) {
            break;
        }
        j = j + 1;
    }
    let ghost old_v = views(keys@);
    if j < keys.len() && crate::path::path_eq(keys[j].as_str(), key.as_str()) {
        assert(old_v[j as int] == key@);
        assert(old_v.to_set().insert(key@) =~= old_v.to_set());
        return;
    }
    proof {
        if j < keys.len() {
            lemma_lex_total(old_v[j as int], key@);
        }
    }
    keys.insert(j, key);
    let ghost new_v = views(keys@);
    assert(new_v =~= old_v.insert(j as int, key@));
    assert forall|a: int, b: int| 0 <= a < b < new_v.len() implies lex_lt(#[trigger] new_v[a], #[trigger] new_v[b]) by {
        if b < j {
        } else if b == j {
        } else if a < j {
            assert(new_v[b] == old_v[b - 1]);
            if b - 1 > j {
                assert(lex_lt(old_v[j as int], old_v[b - 1]));
                lemma_lex_transitive(key@, old_v[j as int], old_v[b - 1]);
            }
            lemma_lex_transitive(new_v[a], key@, new_v[b]);
        } else if a == j {
            if b - 1 > j {
                assert(lex_lt(old_v[j as int], old_v[b - 1]));
                lemma_lex_transitive(key@, old_v[j as int], old_v[b - 1]);
            }
        } else {
            assert(new_v[a] == old_v[a - 1]);
            assert(new_v[b] == old_v[b - 1]);
        }
    }
    assert forall|x: Seq<char>| new_v.contains(x) <==> (old_v.contains(x) || x == key@) by {
        if new_v.contains(x) {
            let k = choose|k: int| 0 <= k < new_v.len() && new_v[k] == x;
            if k < j {
                assert(old_v[k] == x);
            } else if k > j {
                assert(old_v[k - 1] == x);
            }
        }
        if old_v.contains(x) {
            let k = choose|k: int| 0 <= k < old_v.len() && old_v[k] == x;
            if k < j {
                assert(new_v[k] == x);
            } else {
                assert(new_v[k + 1] == x);
            }
        }
        if x == key@ {
            assert(new_v[j as int] == x);
        }
    }
    assert(new_v.to_set() =~= old_v.to_set().insert(key@));
}

/// The names set by the variables, in string order and each once.
pub fn sorted_var_names(vars: &EnvVars) -> (r: Vec<String>)
    ensures
        lex_sorted(views(r@)),
        views(r@).to_set() == var_names(vars@),
{
    let mut keys: Vec<String> = Vec::new();
    let mut i: usize = 0;
    assert(views(keys@).to_set() =~= var_names(vars@.subrange(0, 0)));
    while i < vars.len()
        invariant
            i <= vars.len(),
            lex_sorted(views(keys@)),
            views(keys@).to_set() == var_names(vars@.subrange(0, i as int)),
        decreases vars.len() - i,
    {
        proof {
            assert(vars@.subrange(0, i + 1) == vars@.subrange(0, i as int).push(vars@[i as int]));
            lemma_var_names_push(vars@.subrange(0, i as int), vars@[i as int]);
        }
        insert_sorted(&mut keys, vars[i].0.clone());
        i = i + 1;
    }
    assert(vars@.subrange(0, vars.len() as int) == vars@);
    keys
}

/// The name a kind is shown by.
pub open spec fn kind_name(k: RInstallationKind) -> Seq<char> {
    match k {
        RInstallationKind::Chocolatey => "Chocolatey"@,
        RInstallationKind::Conda => "Conda"@,
        RInstallationKind::EnvironmentModule => "EnvironmentModule"@,
        RInstallationKind::Guix => "Guix"@,
        RInstallationKind::Homebrew => "Homebrew"@,
        RInstallationKind::LinuxGlobal => "LinuxGlobal"@,
        RInstallationKind::MacFramework => "MacFramework"@,
        RInstallationKind::MacPorts => "MacPorts"@,
        RInstallationKind::Nix => "Nix"@,
        RInstallationKind::Pixi => "Pixi"@,
        RInstallationKind::Rig => "Rig"@,
        RInstallationKind::Scoop => "Scoop"@,
        RInstallationKind::Spack => "Spack"@,
        RInstallationKind::WindowsHq => "WindowsHq"@,
        RInstallationKind::WindowsRegistry => "WindowsRegistry"@,
        RInstallationKind::GlobalPaths => "GlobalPaths"@,
    }
}

pub fn kind_name_exec(k: RInstallationKind) -> (r: &'static str)
    ensures
        r@ == kind_name(k),
{
    match k {
        RInstallationKind::Chocolatey => "Chocolatey",
        RInstallationKind::Conda => "Conda",
        RInstallationKind::EnvironmentModule => "EnvironmentModule",
        RInstallationKind::Guix => "Guix",
        RInstallationKind::Homebrew => "Homebrew",
        RInstallationKind::LinuxGlobal => "LinuxGlobal",
        RInstallationKind::MacFramework => "MacFramework",
        RInstallationKind::MacPorts => "MacPorts",
        RInstallationKind::Nix => "Nix",
        RInstallationKind::Pixi => "Pixi",
        RInstallationKind::Rig => "Rig",
        RInstallationKind::Scoop => "Scoop",
        RInstallationKind::Spack => "Spack",
        RInstallationKind::WindowsHq => "WindowsHq",
        RInstallationKind::WindowsRegistry => "WindowsRegistry",
        RInstallationKind::GlobalPaths => "GlobalPaths",
    }
}

/// The name a manager type is shown by.
pub open spec fn tool_name(t: EnvManagerType) -> Seq<char> {
    match t {
        EnvManagerType::Chocolatey => "Chocolatey"@,
        EnvManagerType::Conda => "Conda"@,
        EnvManagerType::EnvironmentModule => "EnvironmentModule"@,
        EnvManagerType::Guix => "Guix"@,
        EnvManagerType::Homebrew => "Homebrew"@,
        EnvManagerType::MacPorts => "MacPorts"@,
        EnvManagerType::Mamba => "Mamba"@,
        EnvManagerType::Rig => "Rig"@,
        EnvManagerType::Scoop => "Scoop"@,
        EnvManagerType::Spack => "Spack"@,
    }
}

pub fn tool_name_exec(t: EnvManagerType) -> (r: &'static str)
    ensures
        r@ == tool_name(t),
{
    match t {
        EnvManagerType::Chocolatey => "Chocolatey",
        EnvManagerType::Conda => "Conda",
        EnvManagerType::EnvironmentModule => "EnvironmentModule",
        EnvManagerType::Guix => "Guix",
        EnvManagerType::Homebrew => "Homebrew",
        EnvManagerType::MacPorts => "MacPorts",
        EnvManagerType::Mamba => "Mamba",
        EnvManagerType::Rig => "Rig",
        EnvManagerType::Scoop => "Scoop",
        EnvManagerType::Spack => "Spack",
    }
}

/// A labelled line.
pub open spec fn line(label: Seq<char>, value: Seq<char>) -> Seq<char> {
    label + value + "\n"@
}

pub open spec fn opt_line(label: Seq<char>, value: Option<Seq<char>>) -> Seq<char> {
    match value {
        Some(v) => line(label, v),
        None => Seq::empty(),
    }
}

/// Items one per line, the first with its label and the rest with the
/// continuation label.
pub open spec fn list_lines(first: Seq<char>, rest: Seq<char>, items: Seq<Seq<char>>) -> Seq<char>
    decreases items.len(),
{
    if items.len() == 0 {
        Seq::empty()
    } else {
        list_lines(first, rest, items.drop_last()) + line(
            if items.len() == 1 {
                first
            } else {
                rest
            },
            items.last(),
        )
    }
}

pub open spec fn continuation() -> Seq<char> {
    "               : "@
}

/// The lines an `r-versions` overlay adds.
pub open spec fn overlay_lines(o: Option<RVersionsOverlay>) -> Seq<char> {
    match o {
        Some(o) => opt_line("   RVersions   : label="@, opt_view(o.label)) + opt_line(
            continuation() + "script="@,
            opt_view(o.script),
        ) + opt_line(continuation() + "repo="@, opt_view(o.repo)) + opt_line(
            continuation() + "library="@,
            opt_view(o.library),
        ) + opt_line(continuation() + "module="@, opt_view(o.module)) + opt_line(
            continuation() + "moduleStartup="@,
            opt_view(o.module_startup_command),
        ),
        None => Seq::empty(),
    }
}

/// `name=value` for each name, in the given order.
pub open spec fn var_items(names: Seq<Seq<char>>, m: Map<Seq<char>, Seq<char>>) -> Seq<Seq<char>> {
    names.map_values(|k: Seq<char>| k + "="@ + m[k])
}

/// The first lines: the kind, the names, paths, version and commands.
pub open spec fn head_text(i: RInstallation) -> Seq<char> {
    "R Installation ("@ + (match i.kind {
        Some(k) => kind_name(k),
        None => "Unknown"@,
    }) + ")\n"@ + opt_line("   Display-Name: "@, opt_view(i.display_name)) + opt_line(
        "   Name        : "@,
        opt_view(i.name),
    ) + opt_line("   Executable  : "@, opt_view(i.executable)) + opt_line(
        "   Version     : "@,
        opt_view(i.version),
    ) + opt_line("   Home        : "@, opt_view(i.home)) + opt_line(
        "   Script Path : "@,
        opt_view(i.script_path),
    ) + opt_line("   Startup Cmd : "@, opt_view(i.startup_command))
}

pub open spec fn arch_line(i: RInstallation) -> Seq<char> {
    opt_line(
        "   Architecture: "@,
        match i.arch {
            Some(a) => Some(serialized_spec(a)),
            None => None,
        },
    )
}

pub open spec fn orthogonal_line(i: RInstallation) -> Seq<char> {
    opt_line(
        "   Orthogonal  : "@,
        match i.orthogonal {
            Some(o) => Some(
                if o {
                    "true"@
                } else {
                    "false"@
                },
            ),
            None => None,
        },
    )
}

pub open spec fn manager_line(i: RInstallation) -> Seq<char> {
    match i.manager {
        Some(m) => line("   Manager     : "@, tool_name(m.tool) + ", "@ + m.executable@),
        None => Seq::empty(),
    }
}

/// The middle lines: the overlay, architecture, orthogonality and manager.
pub open spec fn middle_text(i: RInstallation) -> Seq<char> {
    overlay_lines(i.rversions_overlay) + arch_line(i) + orthogonal_line(i) + manager_line(i)
}

/// The last lines: variables (by `names`, their names in string order),
/// known executables, symlinks and the error.
pub open spec fn tail_text(i: RInstallation, names: Seq<Seq<char>>) -> Seq<char> {
    (match i.environment_variables {
        Some(v) => list_lines("   Env Vars    : "@, continuation(), var_items(names, env_map(v@))),
        None => Seq::empty(),
    }) + (match i.known_executables {
        Some(k) => list_lines("   Known Executables: "@, "                    : "@, views(k@)),
        None => Seq::empty(),
    }) + (match i.symlinks {
        Some(s) => list_lines("   Symlinks    : "@, continuation(), views(s@)),
        None => Seq::empty(),
    }) + opt_line("   Error       : "@, opt_view(i.error))
}

/// The names of an installation's variables in string order, each once.
pub open spec fn ordered_names(i: RInstallation, names: Seq<Seq<char>>) -> bool {
    match i.environment_variables {
        Some(v) => lex_sorted(names) && names.to_set() == var_names(v@),
        None => names.len() == 0,
    }
}

fn push_line(out: &mut Vec<char>, label: &str, value: &str)
    ensures
        final(out)@ == old(out)@ + line(label@, value@),
{
    push_str(out, label);
    push_str(out, value);
    push_str(out, "\n");
}

fn push_opt_line(out: &mut Vec<char>, label: &str, value: &Option<String>)
    ensures
        final(out)@ == old(out)@ + opt_line(label@, opt_view(*value)),
{
    match value {
        Some(v) => push_line(out, label, v.as_str()),
        None => {},
    }
}

fn push_list(out: &mut Vec<char>, first: &str, rest: &str, items: &Vec<String>)
    ensures
        final(out)@ == old(out)@ + list_lines(first@, rest@, views(items@)),
{
    let ghost start = out@;
    let mut i: usize = 0;
    while i < items.len()
        invariant
            i <= items.len(),
            out@ == start + list_lines(first@, rest@, views(items@).subrange(0, i as int)),
        decreases items.len() - i,
    {
        assert(views(items@).subrange(0, i + 1).drop_last() == views(items@).subrange(0, i as int));
        assert(views(items@).subrange(0, i + 1).last() == items@[i as int]@);
        if i == 0 {
            push_line(out, first, items[i].as_str());
        } else {
            push_line(out, rest, items[i].as_str());
        }
        i = i + 1;
    }
    assert(views(items@).subrange(0, items.len() as int) == views(items@));
}

fn head_exec(out: &mut Vec<char>, i: &RInstallation)
    ensures
        final(out)@ == old(out)@ + head_text(*i),
{
    let ghost start = out@;
    push_str(out, "R Installation (");
    match i.kind {
        Some(k) => push_str(out, kind_name_exec(k)),
        None => push_str(out, "Unknown"),
    }
    push_str(out, ")\n");
    push_opt_line(out, "   Display-Name: ", &i.display_name);
    push_opt_line(out, "   Name        : ", &i.name);
    push_opt_line(out, "   Executable  : ", &i.executable);
    push_opt_line(out, "   Version     : ", &i.version);
    push_opt_line(out, "   Home        : ", &i.home);
    push_opt_line(out, "   Script Path : ", &i.script_path);
    push_opt_line(out, "   Startup Cmd : ", &i.startup_command);
    assert(out@ =~= start + head_text(*i));
}

fn overlay_exec(out: &mut Vec<char>, o: &Option<RVersionsOverlay>)
    ensures
        final(out)@ == old(out)@ + overlay_lines(*o),
{
    let ghost start = out@;
    match o {
        Some(o) => {
            proof {
                reveal_strlit("               : ");
                reveal_strlit("               : script=");
                reveal_strlit("               : repo=");
                reveal_strlit("               : library=");
                reveal_strlit("               : module=");
                reveal_strlit("               : moduleStartup=");
                reveal_strlit("script=");
                reveal_strlit("repo=");
                reveal_strlit("library=");
                reveal_strlit("module=");
                reveal_strlit("moduleStartup=");
            }
            push_opt_line(out, "   RVersions   : label=", &o.label);
            push_opt_line(out, "               : script=", &o.script);
            push_opt_line(out, "               : repo=", &o.repo);
            push_opt_line(out, "               : library=", &o.library);
            push_opt_line(out, "               : module=", &o.module);
            push_opt_line(out, "               : moduleStartup=", &o.module_startup_command);
            assert("               : script="@ =~= continuation() + "script="@);
            assert("               : repo="@ =~= continuation() + "repo="@);
            assert("               : library="@ =~= continuation() + "library="@);
            assert("               : module="@ =~= continuation() + "module="@);
            assert("               : moduleStartup="@ =~= continuation() + "moduleStartup="@);
            assert(out@ =~= start + overlay_lines(Some(*o)));
        },
        None => {
            assert(out@ =~= start + overlay_lines(None));
        },
    }
}

fn arch_exec(out: &mut Vec<char>, i: &RInstallation)
    ensures
        final(out)@ == old(out)@ + arch_line(*i),
{
    match i.arch {
        Some(x) => push_line(out, "   Architecture: ", x.as_serialized_str()),
        None => {
            assert(old(out)@ + arch_line(*i) =~= old(out)@);
        },
    }
}

fn orthogonal_exec(out: &mut Vec<char>, i: &RInstallation)
    ensures
        final(out)@ == old(out)@ + orthogonal_line(*i),
{
    match i.orthogonal {
        Some(o) => push_line(
            out,
            "   Orthogonal  : ",
            if o {
                "true"
            } else {
                "false"
            },
        ),
        None => {
            assert(old(out)@ + orthogonal_line(*i) =~= old(out)@);
        },
    }
}

fn manager_exec(out: &mut Vec<char>, i: &RInstallation)
    ensures
        final(out)@ == old(out)@ + manager_line(*i),
{
    let ghost start = out@;
    match &i.manager {
        Some(m) => {
            push_str(out, "   Manager     : ");
            push_str(out, tool_name_exec(m.tool));
            push_str(out, ", ");
            push_str(out, m.executable.as_str());
            push_str(out, "\n");
            assert(out@ =~= start + manager_line(*i));
        },
        None => {
            assert(start + manager_line(*i) =~= start);
        },
    }
}

fn middle_exec(out: &mut Vec<char>, i: &RInstallation)
    ensures
        final(out)@ == old(out)@ + middle_text(*i),
{
    let ghost start = out@;
    overlay_exec(out, &i.rversions_overlay);
    arch_exec(out, i);
    orthogonal_exec(out, i);
    manager_exec(out, i);
    assert(out@ =~= start + middle_text(*i));
}

fn var_items_exec(v: &EnvVars, names: &Vec<String>) -> (r: Vec<String>)
    requires
        forall|k: int| 0 <= k < names@.len() ==> var_names(v@).contains(#[trigger] names@[k]@),
    ensures
        views(r@) == var_items(views(names@), env_map(v@)),
{
    let mut out: Vec<String> = Vec::new();
    let mut i: usize = 0;
    while i < names.len()
        invariant
            i <= names.len(),
            forall|k: int| 0 <= k < names@.len() ==> var_names(v@).contains(#[trigger] names@[k]@),
            views(out@) == var_items(views(names@).subrange(0, i as int), env_map(v@)),
        decreases names.len() - i,
    {
        assert(var_names(v@).contains(names@[i as int]@));
        let value = match crate::environment::lookup_var(v, names[i].as_str()) {
            Some(x) => x,
            None => String::new(),
        };
        let mut text: Vec<char> = Vec::new();
        push_str(&mut text, names[i].as_str());
        push_str(&mut text, "=");
        push_str(&mut text, value.as_str());
        out.push(string_of(text.as_slice()));
        assert(views(names@).subrange(0, i + 1) == views(names@).subrange(0, i as int).push(names@[i as int]@));
        assert(views(out@) =~= var_items(views(names@).subrange(0, i + 1), env_map(v@)));
        i = i + 1;
    }
    assert(views(names@).subrange(0, names.len() as int) == views(names@));
    out
}

fn tail_exec(out: &mut Vec<char>, i: &RInstallation) -> (names: Ghost<Seq<Seq<char>>>)
    ensures
        ordered_names(*i, names@),
        final(out)@ == old(out)@ + tail_text(*i, names@),
{
    let ghost start = out@;
    let mut names: Ghost<Seq<Seq<char>>> = Ghost(Seq::empty());
    match &i.environment_variables {
        Some(v) => {
            let keys = sorted_var_names(v);
            proof {
                assert forall|k: int| 0 <= k < keys@.len() implies var_names(v@).contains(#[trigger] keys@[k]@) by {
                    assert(views(keys@)[k] == keys@[k]@);
                    assert(views(keys@).to_set().contains(keys@[k]@));
                }
            }
            let items = var_items_exec(v, &keys);
            push_list(out, "   Env Vars    : ", "               : ", &items);
            names = Ghost(views(keys@));
        },
        None => {},
    }
    let ghost a = out@;
    match &i.known_executables {
        Some(k) => push_list(out, "   Known Executables: ", "                    : ", k),
        None => {},
    }
    let ghost b = out@;
    match &i.symlinks {
        Some(s) => push_list(out, "   Symlinks    : ", "               : ", s),
        None => {},
    }
    push_opt_line(out, "   Error       : ", &i.error);
    assert(out@ =~= start + tail_text(*i, names@));
    names
}

impl RInstallation {
    /// The installation as text: a heading with its kind, then one line per
    /// field that is set, variables in name order, lists one item per line.
    pub fn display_text(&self) -> (r: String)
        ensures
            exists|names: Seq<Seq<char>>|
                ordered_names(*self, names) && r@ == head_text(*self) + middle_text(*self)
                    + #[trigger] tail_text(*self, names),
    {
        let mut out: Vec<char> = Vec::new();
        head_exec(&mut out, self);
        middle_exec(&mut out, self);
        let names = tail_exec(&mut out, self);
        assert(out@ =~= head_text(*self) + middle_text(*self) + tail_text(*self, names@));
        string_of(out.as_slice())
    }
}

/// The identifier of each kind's variant, as written in its declaration.
pub open spec fn variant_identifier(k: RInstallationKind) -> Seq<char> {
    if k == RInstallationKind::Chocolatey {
        "Chocolatey"@
    } else if k == RInstallationKind::Conda {
        "Conda"@
    } else if k == RInstallationKind::EnvironmentModule {
        "EnvironmentModule"@
    } else if k == RInstallationKind::Guix {
        "Guix"@
    } else if k == RInstallationKind::Homebrew {
        "Homebrew"@
    } else if k == RInstallationKind::LinuxGlobal {
        "LinuxGlobal"@
    } else if k == RInstallationKind::MacFramework {
        "MacFramework"@
    } else if k == RInstallationKind::MacPorts {
        "MacPorts"@
    } else if k == RInstallationKind::Nix {
        "Nix"@
    } else if k == RInstallationKind::Pixi {
        "Pixi"@
    } else if k == RInstallationKind::Rig {
        "Rig"@
    } else if k == RInstallationKind::Scoop {
        "Scoop"@
    } else if k == RInstallationKind::Spack {
        "Spack"@
    } else if k == RInstallationKind::WindowsHq {
        "WindowsHq"@
    } else if k == RInstallationKind::WindowsRegistry {
        "WindowsRegistry"@
    } else {
        "GlobalPaths"@
    }
}

/// The text of an installation begins with a heading that names its kind
/// by the kind's own variant identifier (`Unknown` without a kind).
pub proof fn law_heading_names_the_kind(i: RInstallation, names: Seq<Seq<char>>, text: Seq<char>)
    requires
        text == head_text(i) + middle_text(i) + tail_text(i, names),
    ensures
        i.kind matches Some(k) ==> text.subrange(0, (variant_identifier(k).len() + 18) as int)
            == "R Installation ("@ + variant_identifier(k) + ")\n"@,
        i.kind is None ==> text.subrange(0, 25) == "R Installation (Unknown)\n"@,
{
    reveal_strlit("R Installation (");
    reveal_strlit(")\n");
    reveal_strlit("Unknown");
    let label = match i.kind {
        Some(k) => variant_identifier(k),
        None => "Unknown"@,
    };
    assert(match i.kind {
        Some(k) => kind_name(k),
        None => "Unknown"@,
    } == label);
    let heading = "R Installation ("@ + label + ")\n"@;
    assert(head_text(i) == heading + (head_text(i).subrange(heading.len() as int, head_text(i).len() as int)));
    assert(text.subrange(0, heading.len() as int) =~= heading);
    if i.kind is None {
        reveal_strlit("R Installation (Unknown)\n");
        assert(heading =~= "R Installation (Unknown)\n"@);
    }
}

} // verus!
