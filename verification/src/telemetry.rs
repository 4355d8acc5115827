//! Telemetry events: what a search took, and where a locator's first guess
//! about an installation differed from what the runtime reported.

use vstd::prelude::*;
use crate::locator::LocatorKind;
use crate::path::{path_eq, views, contains_path};
use crate::r_installation::{opt_view, RInstallation, RInstallationKind};

verus! {

/// Where a locator's first guess about an installation was wrong; a field
/// is absent where the guess said nothing about it.
#[derive(Debug, Clone, Copy, PartialEq, Eq, Structural)]
pub struct InaccurateEnvironmentInfo {
    pub kind: Option<RInstallationKind>,
    pub invalid_executable: Option<bool>,
    pub executable_not_in_symlinks: Option<bool>,
    pub invalid_prefix: Option<bool>,
    pub invalid_version: Option<bool>,
    pub invalid_arch: Option<bool>,
}

/// Durations of a refresh in milliseconds: the total, per locator and per phase.
#[derive(Debug)]
pub struct RefreshPerformance {
    pub total: u64,
    pub locators: Vec<(String, u64)>,
    pub breakdown: Vec<(String, u64)>,
}

/// A telemetry event; durations are in milliseconds.
#[derive(Debug)]
pub enum TelemetryEvent {
    GlobalEnvironmentsSearchCompleted(u64),
    GlobalPathVariableEnvironmentsSearchCompleted(u64),
    AllSearchPathsEnvironmentsSearchCompleted(u64, u32),
    SearchCompleted(u64),
    InaccurateEnvironmentInfo(InaccurateEnvironmentInfo),
    RefreshPerformance(RefreshPerformance),
}

pub open spec fn event_name(event: TelemetryEvent) -> Seq<char> {
    match event {
        TelemetryEvent::GlobalEnvironmentsSearchCompleted(_) => "GlobalEnvironmentsSearchCompleted"@,
        TelemetryEvent::GlobalPathVariableEnvironmentsSearchCompleted(_) => {
            "GlobalPathVariableEnvironmentsSearchCompleted"@
        },
        TelemetryEvent::AllSearchPathsEnvironmentsSearchCompleted(_, _) => {
            "AllSearchPathsEnvironmentsSearchCompleted"@
        },
        TelemetryEvent::SearchCompleted(_) => "SearchCompleted"@,
        TelemetryEvent::InaccurateEnvironmentInfo(_) => "InaccurateEnvironmentInfo"@,
        TelemetryEvent::RefreshPerformance(_) => "RefreshPerformance"@,
    }
}

/// The event's name, as clients receive it.
pub fn get_telemetry_event_name(event: &TelemetryEvent) -> (r: &'static str)
    ensures
        r@ == event_name(*event),
{
    match event {
        TelemetryEvent::GlobalEnvironmentsSearchCompleted(_) => "GlobalEnvironmentsSearchCompleted",
        TelemetryEvent::GlobalPathVariableEnvironmentsSearchCompleted(_) => {
            "GlobalPathVariableEnvironmentsSearchCompleted"
        },
        TelemetryEvent::AllSearchPathsEnvironmentsSearchCompleted(_, _) => {
            "AllSearchPathsEnvironmentsSearchCompleted"
        },
        TelemetryEvent::SearchCompleted(_) => "SearchCompleted",
        TelemetryEvent::InaccurateEnvironmentInfo(_) => "InaccurateEnvironmentInfo",
        TelemetryEvent::RefreshPerformance(_) => "RefreshPerformance",
    }
}

/// The name a locator kind is reported under.
pub open spec fn locator_kind_name(kind: LocatorKind) -> Seq<char> {
    match kind {
        LocatorKind::Chocolatey => "Chocolatey"@,
        LocatorKind::Conda => "Conda"@,
        LocatorKind::EnvironmentModule => "EnvironmentModule"@,
        LocatorKind::Guix => "Guix"@,
        LocatorKind::Homebrew => "Homebrew"@,
        LocatorKind::LinuxGlobal => "LinuxGlobal"@,
        LocatorKind::MacFramework => "MacFramework"@,
        LocatorKind::MacPorts => "MacPorts"@,
        LocatorKind::Nix => "Nix"@,
        LocatorKind::Pixi => "Pixi"@,
        LocatorKind::Rig => "Rig"@,
        LocatorKind::RVersions => "RVersions"@,
        LocatorKind::Scoop => "Scoop"@,
        LocatorKind::Spack => "Spack"@,
        LocatorKind::WindowsHq => "WindowsHq"@,
        LocatorKind::WindowsRegistry => "WindowsRegistry"@,
    }
}

pub fn locator_kind_name_exec(kind: LocatorKind) -> (r: &'static str)
    ensures
        r@ == locator_kind_name(kind),
{
    match kind {
        LocatorKind::Chocolatey => "Chocolatey",
        LocatorKind::Conda => "Conda",
        LocatorKind::EnvironmentModule => "EnvironmentModule",
        LocatorKind::Guix => "Guix",
        LocatorKind::Homebrew => "Homebrew",
        LocatorKind::LinuxGlobal => "LinuxGlobal",
        LocatorKind::MacFramework => "MacFramework",
        LocatorKind::MacPorts => "MacPorts",
        LocatorKind::Nix => "Nix",
        LocatorKind::Pixi => "Pixi",
        LocatorKind::Rig => "Rig",
        LocatorKind::RVersions => "RVersions",
        LocatorKind::Scoop => "Scoop",
        LocatorKind::Spack => "Spack",
        LocatorKind::WindowsHq => "WindowsHq",
        LocatorKind::WindowsRegistry => "WindowsRegistry",
    }
}

/// Whether a guessed path differs from the resolved one, when there was a guess.
pub open spec fn path_mismatch(guess: Option<String>, actual: Option<String>) -> Option<bool> {
    match guess {
        Some(_) => Some(opt_view(guess) != opt_view(actual)),
        None => None,
    }
}

/// What `detect_inaccurate_environment` reports about a guess and the
/// installation the runtime described.
pub open spec fn inaccuracy_spec(d: RInstallation, r: RInstallation) -> InaccurateEnvironmentInfo {
    InaccurateEnvironmentInfo {
        kind: match r.kind {
            Some(k) => Some(k),
            None => d.kind,
        },
        invalid_executable: path_mismatch(d.executable, r.executable),
        executable_not_in_symlinks: match d.executable {
            Some(e) => match r.known_executables {
                Some(k) => Some(!views(k@).contains(e@)),
                None => None,
            },
            None => None,
        },
        invalid_prefix: path_mismatch(d.home, r.home),
        invalid_version: path_mismatch(d.version, r.version),
        invalid_arch: match d.arch {
            Some(_) => Some(d.arch != r.arch),
            None => None,
        },
    }
}

/// Whether some field reports a mismatch.
pub open spec fn any_inaccuracy(i: InaccurateEnvironmentInfo) -> bool {
    i.invalid_executable == Some(true) || i.executable_not_in_symlinks == Some(true)
        || i.invalid_prefix == Some(true) || i.invalid_version == Some(true) || i.invalid_arch
        == Some(true)
}

/// A guess that the runtime confirms in every field is not reported: an
/// installation compared with itself is accurate whenever its executable is
/// among its known executables (or either is unknown).
pub proof fn lemma_confirmed_guess_is_accurate(i: RInstallation)
    requires
        i.executable matches Some(e) ==> (i.known_executables matches Some(k) ==> views(k@).contains(e@)),
    ensures
        !any_inaccuracy(inaccuracy_spec(i, i)),
{
}

fn opt_path_eq(a: &Option<String>, b: &Option<String>) -> (r: bool)
    ensures
        r == (opt_view(*a) == opt_view(*b)),
{
    match a {
        Some(x) => match b {
            Some(y) => path_eq(x.as_str(), y.as_str()),
            None => false,
        },
        None => b.is_none(),
    }
}

fn mismatch(guess: &Option<String>, actual: &Option<String>) -> (r: Option<bool>)
    ensures
        r == path_mismatch(*guess, *actual),
{
    match guess {
        Some(_) => Some(!opt_path_eq(guess, actual)),
        None => None,
    }
}

/// Compares a locator's guess with the installation its runtime described;
/// reports the comparison when something was wrong.
pub fn detect_inaccurate_environment(discovered: &RInstallation, resolved: &RInstallation) -> (r:
    Option<InaccurateEnvironmentInfo>)
    ensures
        r is Some <==> any_inaccuracy(inaccuracy_spec(*discovered, *resolved)),
        r matches Some(i) ==> i == inaccuracy_spec(*discovered, *resolved),
{
    let executable_not_in_symlinks = match &discovered.executable {
        Some(e) => match &resolved.known_executables {
            Some(k) => Some(!contains_path(k, e.as_str())),
            None => None,
        },
        None => None,
    };
    let invalid_arch = match discovered.arch {
        Some(_) => Some(discovered.arch != resolved.arch),
        None => None,
    };
    let info = InaccurateEnvironmentInfo {
        kind: match resolved.kind {
            Some(k) => Some(k),
            None => discovered.kind,
        },
        invalid_executable: mismatch(&discovered.executable, &resolved.executable),
        executable_not_in_symlinks,
        invalid_prefix: mismatch(&discovered.home, &resolved.home),
        invalid_version: mismatch(&discovered.version, &resolved.version),
        invalid_arch,
    };
    if info.invalid_executable == Some(true) || info.executable_not_in_symlinks == Some(true)
        || info.invalid_prefix == Some(true) || info.invalid_version == Some(true)
        || info.invalid_arch == Some(true) {
        Some(info)
    } else {
        None
    }
}

} // verus!
