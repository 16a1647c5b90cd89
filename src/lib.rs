//! A host core for self-contained content bundles ("cartridges"): the cartridge
//! descriptor and its validation, the static and run-time import and permission
//! policy, the boot pipeline, per-cartridge save namespaces, and the fixed-step
//! lifecycle protocol for a cartridge's entry script.
pub mod descriptor;
pub mod host;
pub mod manifest;
pub mod sandbox;
pub mod scheduler;
pub mod search_path;
pub mod storage;
pub mod text;
