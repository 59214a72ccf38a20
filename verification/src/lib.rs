//! Provisioning and process-supervision engine for a bundled runtime.
//!
//! The library holds the verified logic: archive-layout normalization over an
//! in-memory directory tree, archive-kind detection, digest verification
//! against a release manifest, download-progress throttling, the provisioning
//! decision rules, and the one-slot process supervisor. Network and disk
//! access stay outside; callers hand the library plain values and carry out
//! the actions it decides on.

pub mod bytes;
pub mod digest;
pub mod extract;
pub mod integrity;
pub mod locate;
pub mod manifest;
pub mod orchestrate;
pub mod progress;
pub mod supervisor;
pub mod tree;
