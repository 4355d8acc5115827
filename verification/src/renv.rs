//! A raw R runtime as probed: executable, home and version.

use vstd::prelude::*;
use crate::arch::Architecture;
use crate::manager::clone_opt_string;
use crate::path::{ends_with, parent, parent_spec, path_ends_with};
use crate::r_installation::opt_view;
use crate::text::{contains_seq, str_contains};

verus! {

/// Home of an R installation from the location of its executable:
/// `<home>/bin/R`, or `<home>/bin/x64/R.exe` and `<home>/bin/i386/R.exe`.
pub open spec fn infer_home_spec(executable: Seq<char>) -> Option<Seq<char>> {
    match parent_spec(executable) {
        None => None,
        Some(p) => if path_ends_with(p, "x64"@) || path_ends_with(p, "i386"@) {
            match parent_spec(p) {
                None => None,
                Some(bin) => if path_ends_with(bin, "bin"@) {
                    parent_spec(bin)
                } else {
                    None
                },
            }
        } else if path_ends_with(p, "bin"@) {
            parent_spec(p)
        } else {
            None
        },
    }
}

/// Infers the home directory from the executable's location.
pub fn infer_home(executable: &str) -> (r: Option<String>)
    ensures
        opt_view(r) == infer_home_spec(executable@),
{
    let p = match parent(executable) {
        Some(p) => p,
        None => return None,
    };
    if ends_with(p.as_str(), "x64") || ends_with(p.as_str(), "i386") {
        let bin = match parent(p.as_str()) {
            Some(b) => b,
            None => return None,
        };
        if ends_with(bin.as_str(), "bin") {
            return parent(bin.as_str());
        }
        return None;
    }
    if ends_with(p.as_str(), "bin") {
        return parent(p.as_str());
    }
    None
}

/// An R runtime as found on disk or probed.
#[derive(Debug)]
pub struct REnv {
    /// Executable of the R installation.
    pub executable: String,
    /// Installation home, usually the directory returned by `R.home()`.
    pub home: Option<String>,
    /// Version of the R installation.
    pub version: Option<String>,
    /// Executables known to run this installation.
    pub known_executables: Option<Vec<String>>,
    /// Known symlinks or alternative executables (for example `Rscript`).
    pub symlinks: Option<Vec<String>>,
    /// Architecture of the R installation (e.g. from `R.version$arch`).
    pub arch: Option<Architecture>,
}

impl REnv {
    /// A runtime with the given executable; the home is inferred from the
    /// executable's location when none is given.
    pub fn new(executable: String, home: Option<String>, version: Option<String>) -> (r: REnv)
        ensures
            r.executable == executable,
            opt_view(r.home) == (match home {
                Some(h) => Some(h@),
                None => infer_home_spec(executable@),
            }),
            r.version == version,
            r.known_executables is None,
            r.symlinks is None,
            r.arch is None,
    {
        let home = match home {
            Some(h) => Some(h),
            None => infer_home(executable.as_str()),
        };
        REnv { executable, home, version, known_executables: None, symlinks: None, arch: None }
    }
}

/// Whether a path looks like part of a Homebrew installation.
pub open spec fn homebrew_path_spec(p: Seq<char>) -> bool {
    contains_seq(p, "/Cellar/r/"@) || contains_seq(p, "/Cellar/r@"@) || contains_seq(
        p,
        "/home/linuxbrew/.linuxbrew/"@,
    ) || contains_seq(p, "/opt/homebrew/"@)
}

/// Returns `true` if the given path looks like it belongs to a Homebrew installation.
pub fn looks_like_homebrew_path(path: &str) -> (r: bool)
    ensures
        r == homebrew_path_spec(path@),
{
    str_contains(path, "/Cellar/r/") || str_contains(path, "/Cellar/r@") || str_contains(
        path,
        "/home/linuxbrew/.linuxbrew/",
    ) || str_contains(path, "/opt/homebrew/")
}

} // verus!
