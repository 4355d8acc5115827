//! The command line: what it asks for, and the configuration a search from
//! the command line uses.

use vstd::prelude::*;
use crate::facts::{keep_present, present_in, FileFacts};
use crate::locator::{Configuration, Host, LocatorKind};
use crate::manager::clone_opt_string;
use crate::path::{is_sorted_set_of, sort_dedup_paths, views};
use crate::output::OutputSchema;
use crate::r_installation::{opt_views, RInstallationKind};

verus! {

/// What `find` on the command line asks for.
#[derive(Debug)]
pub struct FindOptions {
    pub print_list: bool,
    pub print_summary: bool,
    pub verbose: bool,
    pub search_paths: Option<Vec<String>>,
    pub cache_directory: Option<String>,
    pub kind: Option<RInstallationKind>,
    pub json: bool,
    pub rig_executable: Option<String>,
    pub conda_executable: Option<String>,
}

/// The command the program runs.
#[derive(Debug)]
pub enum Commands {
    Find {
        search_paths: Option<Vec<String>>,
        list: bool,
        cache_directory: Option<String>,
        verbose: bool,
        kind: Option<RInstallationKind>,
        json: bool,
        rig_executable: Option<String>,
        conda_executable: Option<String>,
        output_schema: OutputSchema,
    },
    Resolve {
        executable: String,
        cache_directory: Option<String>,
        verbose: bool,
        json: bool,
        output_schema: OutputSchema,
    },
    Server,
}

/// The command line.
#[derive(Debug)]
pub struct Cli {
    pub command: Option<Commands>,
}

/// The command run when none is given: list everything found, JSON in
/// the default schema.
pub fn default_command() -> (r: Commands)
    ensures
        r matches Commands::Find {
            search_paths,
            list,
            cache_directory,
            verbose,
            kind,
            json,
            rig_executable,
            conda_executable,
            output_schema,
        } && search_paths is None && list && cache_directory is None && !verbose && kind is None && !json
            && rig_executable is None && conda_executable is None && output_schema == OutputSchema::Ret,
{
    Commands::Find {
        search_paths: None,
        list: true,
        cache_directory: None,
        verbose: false,
        kind: None,
        json: false,
        rig_executable: None,
        conda_executable: None,
        output_schema: OutputSchema::Ret,
    }
}

/// The options of a `find` command; the summary is always printed.
pub fn find_options(
    search_paths: Option<Vec<String>>,
    list: bool,
    cache_directory: Option<String>,
    verbose: bool,
    kind: Option<RInstallationKind>,
    json: bool,
    rig_executable: Option<String>,
    conda_executable: Option<String>,
) -> (r: FindOptions)
    ensures
        r.print_list == list,
        r.print_summary,
        r.verbose == verbose,
        r.search_paths == search_paths,
        r.cache_directory == cache_directory,
        r.kind == kind,
        r.json == json,
        r.rig_executable == rig_executable,
        r.conda_executable == conda_executable,
{
    FindOptions {
        print_list: list,
        print_summary: true,
        verbose,
        search_paths,
        cache_directory,
        kind,
        json,
        rig_executable,
        conda_executable,
    }
}

/// The configuration a command-line search uses: the search paths
/// (`expanded`: the options' paths expanded) sorted and deduplicated, the
/// directories among them searched and the files among them identified,
/// and the tools and cache directory given.
pub fn create_config(options: &FindOptions, expanded: &Vec<String>, facts: &FileFacts) -> (r: Configuration)
    ensures
        exists|paths: Seq<Seq<char>>|
            is_sorted_set_of(paths, views(expanded@)) && opt_views(r.search_directories) == present_in(
                paths,
                views(facts.dirs@),
            ) && #[trigger] opt_views(r.executables) == present_in(paths, views(facts.files@)),
        r.search_directories is Some,
        r.executables is Some,
        r.workspace_directories is None,
        r.environment_directories is None,
        r.conda_executable == options.conda_executable,
        r.rig_executable == options.rig_executable,
        r.cache_directory == options.cache_directory,
{
    let copy = crate::r_installation::clone_strings(expanded);
    let paths = sort_dedup_paths(copy);
    let mut config = Configuration::empty();
    config.search_directories = Some(keep_present(&paths, &facts.dirs));
    config.executables = Some(keep_present(&paths, &facts.files));
    config.conda_executable = clone_opt_string(&options.conda_executable);
    config.rig_executable = clone_opt_string(&options.rig_executable);
    config.cache_directory = clone_opt_string(&options.cache_directory);
    config
}

/// The locators a platform runs, in the order they are asked: the Windows
/// ones first on Windows, Pixi before Conda (so that its environments are
/// not taken for plain conda ones), Rig, the Unix ones on Unix, the macOS
/// ones on macOS, and the Linux one elsewhere.
pub open spec fn locator_order(host: Host) -> Seq<LocatorKind> {
    (if host.windows {
        seq![LocatorKind::WindowsRegistry, LocatorKind::WindowsHq, LocatorKind::Scoop, LocatorKind::Chocolatey]
    } else {
        Seq::empty()
    }) + seq![LocatorKind::Pixi, LocatorKind::Conda, LocatorKind::Rig] + (if host.unix {
        seq![
            LocatorKind::Homebrew,
            LocatorKind::Nix,
            LocatorKind::Guix,
            LocatorKind::Spack,
            LocatorKind::RVersions,
            LocatorKind::EnvironmentModule,
        ]
    } else {
        Seq::empty()
    }) + (if host.macos {
        seq![LocatorKind::MacPorts, LocatorKind::MacFramework]
    } else {
        Seq::empty()
    }) + (if !host.macos && !host.windows {
        seq![LocatorKind::LinuxGlobal]
    } else {
        Seq::empty()
    })
}

/// The locators to create on a platform, in order.
pub fn create_locators(host: Host) -> (r: Vec<LocatorKind>)
    ensures
        r@ == locator_order(host),
{
    let mut v: Vec<LocatorKind> = Vec::new();
    if host.windows {
        v.push(LocatorKind::WindowsRegistry);
        v.push(LocatorKind::WindowsHq);
        v.push(LocatorKind::Scoop);
        v.push(LocatorKind::Chocolatey);
    }
    v.push(LocatorKind::Pixi);
    v.push(LocatorKind::Conda);
    v.push(LocatorKind::Rig);
    if host.unix {
        v.push(LocatorKind::Homebrew);
        v.push(LocatorKind::Nix);
        v.push(LocatorKind::Guix);
        v.push(LocatorKind::Spack);
        v.push(LocatorKind::RVersions);
        v.push(LocatorKind::EnvironmentModule);
    }
    if host.macos {
        v.push(LocatorKind::MacPorts);
        v.push(LocatorKind::MacFramework);
    }
    if !host.macos && !host.windows {
        v.push(LocatorKind::LinuxGlobal);
    }
    assert(v@ =~= locator_order(host));
    v
}

/// Pixi comes before Conda wherever the locators run.
pub proof fn lemma_pixi_before_conda(host: Host)
    ensures
        exists|i: int, j: int|
            0 <= i < j < locator_order(host).len() && locator_order(host)[i] == LocatorKind::Pixi
                && locator_order(host)[j] == LocatorKind::Conda,
{
    let k: int = if host.windows {
        4
    } else {
        0
    };
    assert(locator_order(host)[k] == LocatorKind::Pixi);
    assert(locator_order(host)[k + 1] == LocatorKind::Conda);
}

/// The methods the JSON-RPC server answers.
pub open spec fn request_methods_spec() -> Seq<Seq<char>> {
    seq!["configure"@, "refresh"@, "find"@, "resolve"@, "condaInfo"@, "clear"@, "clearCache"@]
}

pub fn request_methods() -> (r: Vec<String>)
    ensures
        views(r@) == request_methods_spec(),
{
    let mut v: Vec<String> = Vec::new();
    v.push("configure".to_string());
    v.push("refresh".to_string());
    v.push("find".to_string());
    v.push("resolve".to_string());
    v.push("condaInfo".to_string());
    v.push("clear".to_string());
    v.push("clearCache".to_string());
    assert(views(v@) =~= request_methods_spec());
    v
}

} // verus!
