//! The configuration a run works from: global settings and, per package,
//! the sources documentation is fetched from.
use vstd::prelude::*;
use vstd::string::StringExecFns;

verus! {

/// Global settings of a run.
pub struct Settings {
    /// Root directory of the documentation cache.
    pub output_dir: String,
    /// Size cap for a single stored file, in kilobytes.
    pub max_file_size_kb: usize,
    pub include_changelog: bool,
    pub include_readme: bool,
    pub include_migration_guide: bool,
    /// Whether stale cache directories are removed before a sync.
    pub prune: bool,
}

/// Where one package's documentation comes from.
pub enum Source {
    /// A hosting repository, optionally restricted to explicit files, with
    /// an optional subpath prefixed to the default file candidates.
    GitHub { repo: String, files: Vec<String>, subpath: Option<String> },
    /// An alternate registry source; not implemented, always skipped with a notice.
    DocsRs,
}

/// Documentation sources configured for one Rust package.
pub struct CrateDoc {
    pub sources: Vec<Source>,
    pub ai_notes: String,
}

/// Documentation sources configured for one npm package.
pub struct NpmDoc {
    pub sources: Vec<Source>,
    pub ai_notes: String,
}

/// A configured Rust package, keyed by its name.
pub struct CrateEntry {
    pub name: String,
    pub doc: CrateDoc,
}

/// A configured npm package, keyed by its name.
pub struct NpmEntry {
    pub name: String,
    pub doc: NpmDoc,
}

/// The whole parsed configuration. Package names are unique keys.
pub struct Config {
    pub settings: Settings,
    pub crates: Vec<CrateEntry>,
    pub npm: Vec<NpmEntry>,
}

/// Where the cache lives when the configuration does not say.
pub fn default_output_dir() -> (r: String)
    ensures
        r@ == "docs/ai/vendor-docs"@,
{
    let mut s = String::new();
    s.append("docs/ai/vendor-docs");
    s
}

/// The file-size cap used when the configuration does not set one.
pub fn default_max_file_size_kb() -> (r: usize)
    ensures
        r == 200,
{
    200
}

/// The default for the settings flags that are on unless disabled.
pub fn default_true() -> (r: bool)
    ensures
        r,
{
    true
}

} // verus!
