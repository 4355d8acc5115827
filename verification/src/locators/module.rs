//! R provided through Environment Modules or Lmod on HPC systems.

use vstd::prelude::*;
use crate::environment::{env_get, split_paths, Environment};
use crate::lines::{first_token, first_token_spec, lines, lines_spec, strip_suffix_all, strip_suffix_all_exec};
use crate::locator::{
    arch_or_infer, arch_or_inferred, classified, classify, first_present, pick_first_present, Host,
    Locator, LocatorKind, RefreshStatePersistence,
};
use crate::locators::homebrew::path_dirs;
use crate::manager::{clone_opt_manager, clone_opt_string, EnvManager, EnvManagerType};
use crate::path::{join, join_all, join_spec, lemma_views_push, views};
use crate::r_installation::{
    clone_opt_strings, opt_view, LocatorMetadata, RInstallation, RInstallationBuilder, RInstallationKind,
};
use crate::renv::REnv;
use crate::text::{
    ascii_lower, ascii_lower_chars, chars_of, contains_seq, push_str, starts_with_chars, starts_with_seq,
    str_contains, string_of, trim, trim_chars,
};

verus! {

broadcast use lemma_views_push;

/// The shell command that loads a module: `eval $(<modulecmd> sh load <name>)`.
pub open spec fn startup_command_spec(modulecmd: Seq<char>, module_name: Seq<char>) -> Seq<char> {
    "eval $("@ + modulecmd + " sh load "@ + module_name + ")"@
}

pub fn build_module_startup_command(modulecmd: &str, module_name: &str) -> (r: String)
    ensures
        r@ == startup_command_spec(modulecmd@, module_name@),
{
    let mut v: Vec<char> = Vec::new();
    push_str(&mut v, "eval $(");
    push_str(&mut v, modulecmd);
    push_str(&mut v, " sh load ");
    push_str(&mut v, module_name);
    push_str(&mut v, ")");
    string_of(v.as_slice())
}

/// The script that loads a module and prints where `R` then is.
pub open spec fn load_script_spec(modulecmd: Seq<char>, module_name: Seq<char>) -> Seq<char> {
    "eval $("@ + modulecmd + " sh load "@ + module_name + ") 2>/dev/null && which R"@
}

pub fn module_load_script(modulecmd: &str, module_name: &str) -> (r: String)
    ensures
        r@ == load_script_spec(modulecmd@, module_name@),
{
    let mut v: Vec<char> = Vec::new();
    push_str(&mut v, "eval $(");
    push_str(&mut v, modulecmd);
    push_str(&mut v, " sh load ");
    push_str(&mut v, module_name);
    push_str(&mut v, ") 2>/dev/null && which R");
    string_of(v.as_slice())
}

/// Whether a path looks like part of a module tree.
pub open spec fn module_path_spec(p: Seq<char>) -> bool {
    contains_seq(p, "/modules/"@) || contains_seq(p, "/modulefiles/"@) || contains_seq(
        p,
        "/easybuild/"@,
    ) || contains_seq(p, "/lmod/"@) || contains_seq(p, "/spack/opt/"@) || contains_seq(
        p,
        "/apps/"@,
    ) || contains_seq(p, "/software/"@)
}

pub fn looks_like_module_path(path: &str) -> (r: bool)
    ensures
        r == module_path_spec(path@),
{
    str_contains(path, "/modules/") || str_contains(path, "/modulefiles/") || str_contains(
        path,
        "/easybuild/",
    ) || str_contains(path, "/lmod/") || str_contains(path, "/spack/opt/") || str_contains(
        path,
        "/apps/",
    ) || str_contains(path, "/software/")
}

/// `lmod` and `modulecmd` in each directory.
pub open spec fn path_module_cmds(dirs: Seq<Seq<char>>) -> Seq<Seq<char>>
    decreases dirs.len(),
{
    if dirs.len() == 0 {
        Seq::empty()
    } else {
        path_module_cmds(dirs.drop_last()) + seq![
            join_spec(dirs.last(), "lmod"@),
            join_spec(dirs.last(), "modulecmd"@),
        ]
    }
}

/// Where the module command may be, most preferred first.
pub open spec fn modulecmd_candidates_spec(env: Environment) -> Seq<Seq<char>> {
    (match env_get(env.variables@, "LMOD_CMD"@) {
        Some(c) => seq![c],
        None => Seq::empty(),
    }) + (match env_get(env.variables@, "MODULESHOME"@) {
        Some(h) => seq![
            join_all(h, seq!["bin"@, "modulecmd"@]),
            join_all(h, seq!["libexec"@, "lmod"@]),
        ],
        None => Seq::empty(),
    }) + seq![
        "/usr/share/lmod/lmod/libexec/lmod"@,
        "/usr/share/Modules/libexec/modulecmd.tcl"@,
        "/usr/local/Modules/libexec/modulecmd.tcl"@,
        "/opt/apps/lmod/lmod/libexec/lmod"@,
    ] + path_module_cmds(path_dirs(env))
}

/// The candidate module commands, in order, for the caller to probe.
pub fn modulecmd_candidates(environment: &Environment) -> (r: Vec<String>)
    ensures
        views(r@) == modulecmd_candidates_spec(*environment),
{
    let mut c: Vec<String> = Vec::new();
    match environment.get_env_var("LMOD_CMD") {
        Some(v) => c.push(v),
        None => {},
    }
    match environment.get_env_var("MODULESHOME") {
        Some(h) => {
            let b = join(h.as_str(), "bin");
            c.push(join(b.as_str(), "modulecmd"));
            let l = join(h.as_str(), "libexec");
            c.push(join(l.as_str(), "lmod"));
            proof {
                reveal_with_fuel(join_all, 3);
            }
        },
        None => {},
    }
    c.push("/usr/share/lmod/lmod/libexec/lmod".to_string());
    c.push("/usr/share/Modules/libexec/modulecmd.tcl".to_string());
    c.push("/usr/local/Modules/libexec/modulecmd.tcl".to_string());
    c.push("/opt/apps/lmod/lmod/libexec/lmod".to_string());
    let ghost base = views(c@);
    let dirs = match environment.get_env_var("PATH") {
        Some(v) => split_paths(v.as_str()),
        None => Vec::new(),
    };
    let mut i: usize = 0;
    while i < dirs.len()
        invariant
            i <= dirs.len(),
            views(c@) == base + path_module_cmds(views(dirs@).subrange(0, i as int)),
        decreases dirs.len() - i,
    {
        assert(views(dirs@).subrange(0, i + 1).drop_last() == views(dirs@).subrange(0, i as int));
        c.push(join(dirs[i].as_str(), "lmod"));
        c.push(join(dirs[i].as_str(), "modulecmd"));
        i = i + 1;
    }
    assert(views(dirs@).subrange(0, dirs.len() as int) == views(dirs@));
    assert(views(c@) == modulecmd_candidates_spec(*environment));
    c
}

/// The first module command that exists (`existing` are the probed candidates that exist).
pub fn find_modulecmd(environment: &Environment, existing: &Vec<String>) -> (r: Option<String>)
    ensures
        opt_view(r) == first_present(modulecmd_candidates_spec(*environment), views(existing@)),
{
    let c = modulecmd_candidates(environment);
    pick_first_present(&c, existing)
}

/// Whether an `avail` line names an R module.
pub open spec fn is_r_module_line(line: Seq<char>) -> bool {
    let l = ascii_lower(line);
    (starts_with_seq(l, "r/"@) || starts_with_seq(l, "r-"@)) && !starts_with_seq(l, "r-lib"@)
        && !starts_with_seq(l, "r-base"@) && !starts_with_seq(l, "rstudio"@)
}

/// The module name on an `avail` line, without `(default)` and `(D)` marks.
pub open spec fn module_name_of(line: Seq<char>) -> Seq<char> {
    let tok = match first_token_spec(line) {
        Some(t) => t,
        None => line,
    };
    strip_suffix_all(strip_suffix_all(tok, "(default)"@), "(D)"@)
}

/// The R module names among the trimmed lines, in order.
pub open spec fn r_modules_of(ls: Seq<Seq<char>>) -> Seq<Seq<char>>
    decreases ls.len(),
{
    if ls.len() == 0 {
        Seq::empty()
    } else {
        let rest = r_modules_of(ls.drop_last());
        let line = trim(ls.last());
        if is_r_module_line(line) && module_name_of(line).len() > 0 {
            rest.push(module_name_of(line))
        } else {
            rest
        }
    }
}

fn starts_with_lit(l: &[char], p: &str) -> (r: bool)
    ensures
        r == starts_with_seq(l@, p@),
{
    let pv = chars_of(p);
    starts_with_chars(l, pv.as_slice())
}

/// The R modules that `modulecmd sh -t avail R` listed: the output is read
/// from standard error when it is not empty, else from standard output.
pub fn parse_r_modules(stdout: &str, stderr: &str) -> (r: Vec<String>)
    ensures
        views(r@) == r_modules_of(lines_spec(if stderr@.len() == 0 {
            stdout@
        } else {
            stderr@
        })),
{
    let text = if stderr.unicode_len() == 0 {
        stdout
    } else {
        stderr
    };
    let ls = lines(text);
    let ghost lv = ls@.map_values(|l: String| l@);
    let mut out: Vec<String> = Vec::new();
    let mut i: usize = 0;
    while i < ls.len()
        invariant
            i <= ls.len(),
            lv == ls@.map_values(|l: String| l@),
            views(out@) == r_modules_of(lv.subrange(0, i as int)),
        decreases ls.len() - i,
    {
        assert(lv.subrange(0, i + 1).drop_last() == lv.subrange(0, i as int));
        let raw = chars_of(ls[i].as_str());
        let line = trim_chars(raw.as_slice());
        let lower = ascii_lower_chars(line.as_slice());
        let wanted = (starts_with_lit(lower.as_slice(), "r/") || starts_with_lit(
            lower.as_slice(),
            "r-",
        )) && !starts_with_lit(lower.as_slice(), "r-lib") && !starts_with_lit(
            lower.as_slice(),
            "r-base",
        ) && !starts_with_lit(lower.as_slice(), "rstudio");
        if wanted {
            let tok = match first_token(line.as_slice()) {
                Some(t) => t,
                None => line.clone(),
            };
            let d = chars_of("(default)");
            let m = chars_of("(D)");
            let a = strip_suffix_all_exec(tok.as_slice(), d.as_slice());
            let b = strip_suffix_all_exec(a.as_slice(), m.as_slice());
            if b.len() > 0 {
                out.push(string_of(b.as_slice()));
            }
        }
        i = i + 1;
    }
    assert(lv.subrange(0, ls.len() as int) == lv);
    out
}

/// The R executable a module provides: the trimmed output of `which R`,
/// when not empty.
pub fn parse_which_output(stdout: &str) -> (r: Option<String>)
    ensures
        match r {
            Some(p) => p@ == trim(stdout@) && p@.len() > 0,
            None => trim(stdout@).len() == 0,
        },
{
    let v = chars_of(stdout);
    let t = trim_chars(v.as_slice());
    if t.len() == 0 {
        None
    } else {
        Some(string_of(t.as_slice()))
    }
}

/// The Environment Modules locator.
#[derive(Debug)]
pub struct EnvironmentModule {
    pub modulecmd: Option<String>,
    pub manager: Option<EnvManager>,
}

impl EnvironmentModule {
    /// The locator for an environment; `existing` are the probed
    /// `modulecmd_candidates` that exist.
    pub fn from(environment: &Environment, existing: &Vec<String>) -> (r: EnvironmentModule)
        ensures
            opt_view(r.modulecmd) == first_present(
                modulecmd_candidates_spec(*environment),
                views(existing@),
            ),
            match r.modulecmd {
                Some(c) => r.manager == Some(
                    (EnvManager { executable: c, version: None, tool: EnvManagerType::EnvironmentModule }),
                ),
                None => r.manager is None,
            },
    {
        let modulecmd = find_modulecmd(environment, existing);
        let manager = match &modulecmd {
            Some(c) => Some(EnvManager::new(c.clone(), EnvManagerType::EnvironmentModule, None)),
            None => None,
        };
        EnvironmentModule { modulecmd, manager }
    }

    /// Classifies a versioned runtime outside Windows whose executable or
    /// home looks like part of a module tree.
    pub fn try_from(&self, env: &REnv, host: Host) -> (r: Option<RInstallation>)
        ensures
            r is Some <==> (!host.windows && env.version is Some && env.home is Some && (
            module_path_spec(env.executable@) || module_path_spec(env.home.unwrap()@))),
            r matches Some(i) ==> classified(
                i,
                RInstallationKind::EnvironmentModule,
                Some("Module R"@),
                None,
                env.executable,
                env.home,
                env.version,
                Some(arch_or_inferred(env.arch, env.executable@, host.arch)),
                self.manager,
                match env.known_executables {
                    Some(k) => Some(views(k@)),
                    None => None,
                },
                match env.symlinks {
                    Some(s) => Some(views(s@)),
                    None => None,
                },
                None,
                None,
                host.windows,
            ),
    {
        if host.windows || env.version.is_none() {
            return None;
        }
        let home = match &env.home {
            Some(h) => h.clone(),
            None => return None,
        };
        if !looks_like_module_path(env.executable.as_str()) && !looks_like_module_path(home.as_str()) {
            return None;
        }
        let arch = arch_or_infer(env.arch, env.executable.as_str(), host.arch);
        Some(
            classify(
                RInstallationKind::EnvironmentModule,
                Some("Module R".to_string()),
                None,
                env.executable.clone(),
                Some(home),
                clone_opt_string(&env.version),
                Some(arch),
                clone_opt_manager(&self.manager),
                clone_opt_strings(&env.known_executables),
                clone_opt_strings(&env.symlinks),
                None,
                None,
                host.windows,
            ),
        )
    }

    /// The installation found through a module: the classified one, started
    /// by loading the module and marked with the module's metadata.
    pub fn with_module(installation: RInstallation, modulecmd: &str, module_name: &str) -> (r:
        RInstallation)
        ensures
            r.startup_command matches Some(c) && c@ == startup_command_spec(modulecmd@, module_name@),
            r.locator_metadata matches Some(LocatorMetadata::Module { module_name: n, startup_command: c })
                && n@ == module_name@ && c@ == startup_command_spec(modulecmd@, module_name@),
            r.kind == installation.kind,
            r.executable == installation.executable,
            r.home == installation.home,
            r.version == installation.version,
    {
        let command = build_module_startup_command(modulecmd, module_name);
        let metadata = LocatorMetadata::Module {
            module_name: module_name.to_string(),
            startup_command: command.clone(),
        };
        RInstallationBuilder::from_installation(installation).startup_command(Some(command))
            .locator_metadata(Some(metadata)).build()
    }
}

impl Locator for EnvironmentModule {
    fn get_kind(&self) -> (r: LocatorKind)
        ensures
            r == LocatorKind::EnvironmentModule,
    {
        LocatorKind::EnvironmentModule
    }

    /// The locator keeps no state between requests.
    fn refresh_state(&self) -> (r: RefreshStatePersistence)
        ensures
            r == RefreshStatePersistence::Stateless,
    {
        RefreshStatePersistence::Stateless
    }

    fn supported_categories(&self) -> (r: Vec<RInstallationKind>)
        ensures
            r@ == seq![RInstallationKind::EnvironmentModule],
    {
        let mut v: Vec<RInstallationKind> = Vec::new();
        v.push(RInstallationKind::EnvironmentModule);
        v
    }
}

} // verus!
