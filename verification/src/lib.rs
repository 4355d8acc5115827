//! Discovery and classification of R installations.

pub mod text;
pub mod path;
pub mod arch;
pub mod manager;
pub mod r_installation;
pub mod merge;
pub mod shell;
pub mod environment;
pub mod renv;
pub mod pattern;
pub mod executable;
pub mod locator;
pub mod locators;
pub mod cache;
pub mod json;
pub mod lines;
pub mod conda;
pub mod facts;
pub mod resolved;
pub mod rversions;
pub mod telemetry;
pub mod refresh;
pub mod reporter;
pub mod identify;
pub mod find;
pub mod jsonrpc;
pub mod install_cache;
pub mod probes;
pub mod display;
pub mod cli;
pub mod output;
