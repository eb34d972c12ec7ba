use ai_fdocs::lockfile::LockEntry;
use ai_fdocs::storage::{
    entry_dir_name, prune_candidates, render_crate_files, render_file_content, render_index,
    render_summary, resolved_file_from_fetch, truncate_content, Ecosystem, ResolvedCrate,
    ResolvedFile,
};

const MARKER: &str = "\n\n<!-- truncated by cargo-ai-fdocs -->\n";

#[test]
fn truncation_cuts_to_exactly_the_cap_plus_marker() {
    let content = "abcdefghij";
    let cut = truncate_content(content, 4);
    assert_eq!(cut, format!("abcd{}", MARKER));
    assert_eq!(cut.len(), 4 + MARKER.len());
}

#[test]
fn truncation_leaves_content_within_the_cap_alone() {
    assert_eq!(truncate_content("abcd", 4), "abcd");
    assert_eq!(truncate_content("", 4), "");
}

#[test]
fn truncation_respects_character_boundaries_under_the_byte_cap() {
    // 'a' is one byte; 'é' takes two. A 2-byte cap cannot hold "aé", so the
    // cut falls back to the last character boundary at or below the cap.
    let content = "a\u{e9}b";
    assert_eq!(content.len(), 4);
    let cut = truncate_content(content, 2);
    assert_eq!(cut, format!("a{}", MARKER));
    let wide = truncate_content(content, 3);
    assert_eq!(wide, format!("a\u{e9}{}", MARKER));
    assert_eq!(truncate_content(content, 4), content);
}

#[test]
fn truncation_is_deterministic_across_content_kinds() {
    let md = "# heading\nbody text";
    let json_like = "{\"k\": 1, \"l\": [2, 3]}";
    let cap = 7;
    assert_eq!(truncate_content(md, cap), format!("{}{}", &md[..cap], MARKER));
    assert_eq!(
        truncate_content(json_like, cap),
        format!("{}{}", &json_like[..cap], MARKER)
    );
    assert_eq!(truncate_content(md, cap), truncate_content(md, cap));
}

#[test]
fn stored_files_carry_a_provenance_header() {
    let file = ResolvedFile {
        filename: "README.md".to_string(),
        source_path: "README.md".to_string(),
        source_url: "https://example.invalid/readme".to_string(),
        content: "hello".to_string(),
    };
    let rendered = render_file_content(&file, 100);
    assert_eq!(
        rendered,
        "<!-- source_path: README.md -->\n<!-- source_url: https://example.invalid/readme -->\n\nhello"
    );
}

#[test]
fn fetched_paths_are_flattened_into_filenames() {
    let f = resolved_file_from_fetch("docs/guide.md", "u", "c".to_string());
    assert_eq!(f.filename, "docs__guide.md");
    assert_eq!(f.source_path, "docs/guide.md");
    let deep = resolved_file_from_fetch("a/b/c.md", "u", "c".to_string());
    assert_eq!(deep.filename, "a__b__c.md");
}

#[test]
fn entry_directories_are_named_by_package_and_version() {
    assert_eq!(entry_dir_name("serde", "1.0.217"), "serde@1.0.217");
}

#[test]
fn summary_lists_notes_and_files() {
    let item = ResolvedCrate {
        name: "serde".to_string(),
        version: "1.0.217".to_string(),
        ai_notes: "prefer derive".to_string(),
        files: vec![
            ResolvedFile {
                filename: "README.md".to_string(),
                source_path: "README.md".to_string(),
                source_url: "u1".to_string(),
                content: "r".to_string(),
            },
            ResolvedFile {
                filename: "CHANGELOG.md".to_string(),
                source_path: "CHANGELOG.md".to_string(),
                source_url: "u2".to_string(),
                content: "c".to_string(),
            },
        ],
        ecosystem: Ecosystem::Rust,
    };
    assert_eq!(
        render_summary(&item),
        "# serde@1.0.217\n\n## AI Notes\nprefer derive\n\n## Files\n- README.md\n- CHANGELOG.md\n"
    );
}

#[test]
fn summary_without_notes_skips_the_notes_section() {
    let item = ResolvedCrate {
        name: "serde".to_string(),
        version: "1.0.217".to_string(),
        ai_notes: String::new(),
        files: Vec::new(),
        ecosystem: Ecosystem::Rust,
    };
    assert_eq!(render_summary(&item), "# serde@1.0.217\n\n## Files\n");
}

#[test]
fn rendered_docs_end_with_the_summary() {
    let item = ResolvedCrate {
        name: "serde".to_string(),
        version: "1.0.217".to_string(),
        ai_notes: String::new(),
        files: vec![ResolvedFile {
            filename: "README.md".to_string(),
            source_path: "README.md".to_string(),
            source_url: "u".to_string(),
            content: "hello".to_string(),
        }],
        ecosystem: Ecosystem::Rust,
    };
    let docs = render_crate_files(&item, 1000);
    assert_eq!(docs.len(), 2);
    assert_eq!(docs[0].entry_dir, "serde@1.0.217");
    assert_eq!(docs[0].filename, "README.md");
    assert!(docs[0].content.contains("hello"));
    assert_eq!(docs[1].filename, "_SUMMARY.md");
    assert_eq!(docs[1].content, "# serde@1.0.217\n\n## Files\n- README.md\n");
}

#[test]
fn index_lists_every_package() {
    let mk = |name: &str, version: &str, eco: Ecosystem| ResolvedCrate {
        name: name.to_string(),
        version: version.to_string(),
        ai_notes: String::new(),
        files: Vec::new(),
        ecosystem: eco,
    };
    let crates = vec![
        mk("serde", "1.0.217", Ecosystem::Rust),
        mk("react", "19.0.0", Ecosystem::Npm),
    ];
    assert_eq!(
        render_index(&crates),
        "# AI Vendor Docs Index\n\n- rust/serde/serde@1.0.217\n- npm/react/react@19.0.0\n"
    );
}

#[test]
fn ecosystems_name_their_cache_directories() {
    assert_eq!(Ecosystem::Rust.as_dir(), "rust");
    assert_eq!(Ecosystem::Npm.as_dir(), "npm");
}

#[test]
fn prune_keeps_only_directories_the_lock_still_requires() {
    let dir_names = vec![
        "serde@1.0.200".to_string(),
        "serde@1.0.217".to_string(),
        "tokio@1.43.0".to_string(),
        "notes".to_string(),
    ];
    let locked = vec![LockEntry {
        name: "serde".to_string(),
        version: "1.0.217".to_string(),
    }];
    let stale = prune_candidates(&dir_names, &locked);
    assert_eq!(stale, vec!["serde@1.0.200", "tokio@1.43.0"]);
}
