//! A reporter that sends what is found to a JSON-RPC client, and the log
//! messages sent with it.

use vstd::prelude::*;
use crate::r_installation::{RInstallation, RInstallationKind};

verus! {

/// Sends what is found to a JSON-RPC client, optionally only installations
/// of one kind.
#[derive(Debug, Clone, Copy)]
pub struct JsonRpcReporter {
    pub report_only: Option<RInstallationKind>,
}

impl JsonRpcReporter {
    /// Whether an installation is sent.
    pub fn should_report(&self, installation: &RInstallation) -> (r: bool)
        ensures
            r == (match self.report_only {
                Some(k) => installation.kind == Some(k),
                None => true,
            }),
    {
        match self.report_only {
            Some(k) => installation.kind == Some(k),
            None => true,
        }
    }
}

pub fn create_reporter(report_only: Option<RInstallationKind>) -> (r: JsonRpcReporter)
    ensures
        r.report_only == report_only,
{
    JsonRpcReporter { report_only }
}

/// The level of a log message sent to a client.
#[derive(Debug, Clone, Copy, PartialEq, Eq, Structural)]
pub enum LogLevel {
    Debug,
    Info,
    Warning,
    Error,
}

impl LogLevel {
    /// The level's name on the wire.
    pub fn as_str(&self) -> (r: &'static str)
        ensures
            r@ == (match *self {
                LogLevel::Debug => "debug"@,
                LogLevel::Info => "info"@,
                LogLevel::Warning => "warning"@,
                LogLevel::Error => "error"@,
            }),
    {
        match self {
            LogLevel::Debug => "debug",
            LogLevel::Info => "info",
            LogLevel::Warning => "warning",
            LogLevel::Error => "error",
        }
    }
}

/// A log message sent to a client.
#[derive(Debug)]
pub struct Log {
    pub message: String,
    pub level: LogLevel,
}

} // verus!
