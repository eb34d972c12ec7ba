//! Version-matched vendor documentation, verified end to end: parsing the
//! lock manifest, resolving a package version to an immutable source
//! reference, deciding fetch outcomes, preparing the cache artifacts, and
//! reconciling the cache against the lock file.  Network and file-system
//! work happens outside this crate; every decision over their outcomes is
//! specified and proved here.
pub mod changelog;
pub mod config;
pub mod errors;
pub mod fetch;
pub mod hosting;
pub mod lockfile;
pub mod resolve;
pub mod status;
pub mod storage;
pub mod strutil;
