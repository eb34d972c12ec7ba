use ai_fdocs::errors::DocsError;

#[test]
fn every_error_kind_has_an_actionable_message() {
    assert_eq!(
        DocsError::ConfigNotFound.message(),
        "Config file not found. Create ai-docs.toml first."
    );
    assert_eq!(
        DocsError::LockNotFound.message(),
        "Cargo.lock not found. Run cargo build first."
    );
    assert_eq!(
        DocsError::LockParseError("bad".to_string()).message(),
        "Cargo.lock parsing error: bad"
    );
    assert_eq!(
        DocsError::RateLimited.message(),
        "GitHub API rate limit exceeded. Set GITHUB_TOKEN to increase limit."
    );
    assert_eq!(DocsError::TransportError.message(), "Network request failed.");
    assert_eq!(
        DocsError::UnexpectedStatus(503).message(),
        "Unexpected response status: 503"
    );
    assert_eq!(
        DocsError::ExplicitFileMissing {
            repo: "owner/repo".to_string(),
            path: "docs/x.md".to_string(),
            git_ref: "v1".to_string(),
        }
        .message(),
        "Explicit file not found: 'docs/x.md' in owner/repo at ref 'v1'. Check your ai-fdocs.toml."
    );
}
