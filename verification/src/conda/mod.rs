pub mod package;
pub mod utils;
pub mod manager;
pub mod locator;
pub mod conda_rc;
pub mod environment_locations;
pub mod telemetry;
