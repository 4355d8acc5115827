pub mod homebrew;
pub mod linux_global;
pub mod macports;
pub mod guix;
pub mod scoop;
pub mod spack;
pub mod windows_hq;
pub mod module;
pub mod pixi;
pub mod rig;
pub mod mac_framework;
pub mod chocolatey;
pub mod windows_registry;
pub mod rversions;
