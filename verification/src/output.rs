//! The schema of JSON output.

use vstd::prelude::*;

verus! {

/// Which JSON schema results are written in.
#[derive(Debug, Clone, Copy, PartialEq, Eq, Structural)]
pub enum OutputSchema {
    Ret,
    Pet,
    Dual,
}

impl Default for OutputSchema {
    fn default() -> (r: OutputSchema)
        ensures
            r == OutputSchema::Ret,
    {
        OutputSchema::Ret
    }
}

} // verus!
