use ai_fdocs::errors::DocsError;
use ai_fdocs::fetch::{
    changelog_candidates, collect_explicit_files, fetch_file_action, first_present, raw_file_url,
    readme_candidates, select_default_files, FetchAction, FetchedFile,
};

#[test]
fn fetch_action_on_the_first_attempt() {
    assert_eq!(fetch_file_action(200, false), FetchAction::Deliver);
    assert_eq!(fetch_file_action(404, false), FetchAction::Absent);
    assert_eq!(fetch_file_action(429, false), FetchAction::AbortRateLimited);
    assert_eq!(fetch_file_action(500, false), FetchAction::RetryAfterDelay);
    assert_eq!(fetch_file_action(503, false), FetchAction::RetryAfterDelay);
    assert_eq!(fetch_file_action(301, false), FetchAction::Absent);
}

#[test]
fn fetch_action_on_the_retry() {
    assert_eq!(fetch_file_action(200, true), FetchAction::Deliver);
    assert_eq!(fetch_file_action(204, true), FetchAction::Deliver);
    assert_eq!(fetch_file_action(500, true), FetchAction::Absent);
    assert_eq!(fetch_file_action(404, true), FetchAction::Absent);
    assert_eq!(fetch_file_action(429, true), FetchAction::AbortRateLimited);
}

#[test]
fn readme_and_changelog_candidates_in_order() {
    assert_eq!(
        readme_candidates(&None),
        vec!["README.md", "readme.md", "Readme.md"]
    );
    assert_eq!(
        changelog_candidates(&Some("docs".to_string())),
        vec![
            "docs/CHANGELOG.md",
            "docs/Changelog.md",
            "docs/changelog.md"
        ]
    );
}

#[test]
fn first_present_takes_the_first_hit_only() {
    let candidates = readme_candidates(&None);
    let outcomes = vec![
        None,
        Some("lower readme".to_string()),
        Some("title readme".to_string()),
    ];
    let f = first_present(&candidates, &outcomes).expect("a hit");
    assert_eq!(f.path, "readme.md");
    assert_eq!(f.content, "lower readme");

    let nothing = first_present(&candidates, &vec![None, None, None]);
    assert!(nothing.is_none());
}

#[test]
fn default_files_keep_readme_before_changelog() {
    let readme = FetchedFile {
        path: "README.md".to_string(),
        content: "r".to_string(),
    };
    let changelog = FetchedFile {
        path: "CHANGELOG.md".to_string(),
        content: "c".to_string(),
    };
    let files = select_default_files(Some(readme), Some(changelog));
    assert_eq!(files.len(), 2);
    assert_eq!(files[0].path, "README.md");
    assert_eq!(files[1].path, "CHANGELOG.md");

    assert_eq!(select_default_files(None, None).len(), 0);
}

#[test]
fn explicit_files_are_all_collected_when_present() {
    let paths = vec!["docs/guide.md".to_string(), "README.md".to_string()];
    let outcomes = vec![Some("guide text".to_string()), Some("readme".to_string())];
    let files =
        collect_explicit_files(&paths, &outcomes, "serde-rs/serde", "v1.0.217").expect("all present");
    assert_eq!(files.len(), 2);
    assert_eq!(files[0].path, "docs/guide.md");
    assert_eq!(files[0].content, "guide text");
    assert_eq!(files[1].path, "README.md");
}

#[test]
fn missing_explicit_file_fails_with_path_and_ref() {
    let paths = vec!["docs/guide.md".to_string()];
    let outcomes = vec![None];
    let err = collect_explicit_files(&paths, &outcomes, "serde-rs/serde", "v1.0.217")
        .expect_err("must fail");
    match &err {
        DocsError::ExplicitFileMissing { repo, path, git_ref } => {
            assert_eq!(repo, "serde-rs/serde");
            assert_eq!(path, "docs/guide.md");
            assert_eq!(git_ref, "v1.0.217");
        }
        other => panic!("unexpected error: {:?}", other),
    }
    let message = err.message();
    assert!(message.contains("'docs/guide.md'"));
    assert!(message.contains("serde-rs/serde"));
    assert!(message.contains("'v1.0.217'"));
}

#[test]
fn raw_urls_name_repo_ref_and_path() {
    assert_eq!(
        raw_file_url("serde-rs/serde", "v1.0.217", "README.md"),
        "https://raw.githubusercontent.com/serde-rs/serde/v1.0.217/README.md"
    );
}
