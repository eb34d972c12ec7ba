//! The error kinds of the library and their operator-facing messages.
use vstd::prelude::*;
use vstd::string::StringExecFns;

verus! {

/// Everything that can go wrong while syncing or reconciling documentation.
#[derive(Debug, Clone, PartialEq, Eq)]
pub enum DocsError {
    /// The configuration file is absent.
    ConfigNotFound,
    /// The lock manifest is absent.
    LockNotFound,
    /// The lock manifest lacks a required structural field; the detail names it.
    LockParseError(String),
    /// The hosting provider answered with a rate-limit response.
    RateLimited,
    /// A network-level failure.
    TransportError,
    /// An explicitly configured file was absent at the resolved reference.
    ExplicitFileMissing { repo: String, path: String, git_ref: String },
    /// A response status that no policy covers.
    UnexpectedStatus(u16),
}

impl DocsError {
    /// The remediation message shown to the operator.
    pub fn message(&self) -> (r: String)
        ensures
            r@ == self.spec_message(),
    {
        match self {
            DocsError::ConfigNotFound => {
                let mut s = String::new();
                s.append("Config file not found. Create ai-docs.toml first.");
                s
            },
            DocsError::LockNotFound => {
                let mut s = String::new();
                s.append("Cargo.lock not found. Run cargo build first.");
                s
            },
            DocsError::LockParseError(detail) => {
                let mut s = String::new();
                s.append("Cargo.lock parsing error: ");
                s.append(detail.as_str());
                s
            },
            DocsError::RateLimited => {
                let mut s = String::new();
                s.append("GitHub API rate limit exceeded. Set GITHUB_TOKEN to increase limit.");
                s
            },
            DocsError::TransportError => {
                let mut s = String::new();
                s.append("Network request failed.");
                s
            },
            DocsError::ExplicitFileMissing { repo, path, git_ref } => {
                let mut s = String::new();
                s.append("Explicit file not found: '");
                s.append(path.as_str());
                s.append("' in ");
                s.append(repo.as_str());
                s.append(" at ref '");
                s.append(git_ref.as_str());
                s.append("'. Check your ai-fdocs.toml.");
                s
            },
            DocsError::UnexpectedStatus(code) => {
                let mut s = String::new();
                s.append("Unexpected response status: ");
                s.append(crate::strutil::u64_to_string(*code as u64).as_str());
                s
            },
        }
    }

    /// What `message` returns for each error kind.
    pub open spec fn spec_message(&self) -> Seq<char> {
        match self {
            DocsError::ConfigNotFound => "Config file not found. Create ai-docs.toml first."@,
            DocsError::LockNotFound => "Cargo.lock not found. Run cargo build first."@,
            DocsError::LockParseError(detail) => "Cargo.lock parsing error: "@ + detail@,
            DocsError::RateLimited =>
                "GitHub API rate limit exceeded. Set GITHUB_TOKEN to increase limit."@,
            DocsError::TransportError => "Network request failed."@,
            DocsError::ExplicitFileMissing { repo, path, git_ref } =>
                "Explicit file not found: '"@ + path@ + "' in "@ + repo@ + " at ref '"@ + git_ref@
                    + "'. Check your ai-fdocs.toml."@,
            DocsError::UnexpectedStatus(code) => "Unexpected response status: "@
                + crate::strutil::spec_dec(*code as nat),
        }
    }
}

} // verus!
