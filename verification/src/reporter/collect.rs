//! A reporter that keeps everything it is given.

use vstd::prelude::*;
use crate::manager::EnvManager;
use crate::r_installation::{same_installation, RInstallation};
use crate::reporter::Reporter;

verus! {

/// Keeps everything reported, in order.
#[derive(Debug)]
pub struct CollectReporter {
    pub managers: Vec<EnvManager>,
    pub installations: Vec<RInstallation>,
}

impl CollectReporter {
    pub fn new() -> (r: CollectReporter)
        ensures
            r.managers@.len() == 0,
            r.installations@.len() == 0,
    {
        CollectReporter { managers: Vec::new(), installations: Vec::new() }
    }

    pub fn collect_manager(&mut self, manager: &EnvManager)
        ensures
            final(self).managers@ == old(self).managers@.push(*manager),
            final(self).installations@ == old(self).installations@,
    {
        self.managers.push(manager.copy());
    }

    pub fn collect_installation(&mut self, installation: &RInstallation)
        ensures
            final(self).installations@.len() == old(self).installations@.len() + 1,
            final(self).installations@.drop_last() == old(self).installations@,
            same_installation(final(self).installations@.last(), *installation),
            final(self).managers@ == old(self).managers@,
    {
        let ghost before = self.installations@;
        self.installations.push(installation.copy());
        assert(self.installations@.drop_last() == before);
    }
}

impl Reporter for CollectReporter {
    fn report_manager(&mut self, manager: &EnvManager) {
        self.collect_manager(manager);
    }

    fn report_installation(&mut self, installation: &RInstallation) {
        self.collect_installation(installation);
    }
}

pub fn create_reporter() -> (r: CollectReporter)
    ensures
        r.managers@.len() == 0,
        r.installations@.len() == 0,
{
    CollectReporter::new()
}
} // verus!
