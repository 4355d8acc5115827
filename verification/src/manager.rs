//! Environment managers that own R installations.

use vstd::prelude::*;

verus! {

#[derive(Debug, Clone, Copy, PartialEq, Eq, Structural, Hash, PartialOrd, Ord)]
pub enum EnvManagerType {
    Chocolatey,
    Conda,
    EnvironmentModule,
    Guix,
    Homebrew,
    MacPorts,
    Mamba,
    Rig,
    Scoop,
    Spack,
}

#[derive(Debug, Clone, PartialEq, Eq)]
pub struct EnvManager {
    pub executable: String,
    pub version: Option<String>,
    pub tool: EnvManagerType,
}

pub fn clone_opt_string(s: &Option<String>) -> (r: Option<String>)
    ensures
        r == *s,
{
    match s {
        Some(v) => Some(v.clone()),
        None => None,
    }
}

impl EnvManager {
    pub fn new(executable: String, tool: EnvManagerType, version: Option<String>) -> (r: EnvManager)
        ensures
            r.executable == executable,
            r.tool == tool,
            r.version == version,
    {
        EnvManager { executable, version, tool }
    }

    pub fn copy(&self) -> (r: EnvManager)
        ensures
            r == *self,
    {
        EnvManager {
            executable: self.executable.clone(),
            version: clone_opt_string(&self.version),
            tool: self.tool,
        }
    }
}

/// `m` is a manager of the given tool at `path`, with no version.
pub open spec fn is_manager(m: Option<EnvManager>, path: Seq<char>, tool: EnvManagerType) -> bool {
    m matches Some(x) && x.executable@ == path && x.tool == tool && x.version is None
}

pub fn clone_opt_manager(m: &Option<EnvManager>) -> (r: Option<EnvManager>)
    ensures
        r == *m,
{
    match m {
        Some(v) => Some(v.copy()),
        None => None,
    }
}

} // verus!
