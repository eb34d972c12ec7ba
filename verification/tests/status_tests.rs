use ai_fdocs::config::{Config, CrateDoc, CrateEntry, Settings};
use ai_fdocs::lockfile::LockEntry;
use ai_fdocs::status::{
    collect_status_rows, detect_status, find_any_synced_version, has_docs_content,
    print_status_table_to, CacheDir, StatusRow, StatusSummary, SyncStatus,
};
use ai_fdocs::storage::{render_crate_files, Ecosystem, ResolvedCrate, ResolvedFile};

fn config_for(names: &[&str]) -> Config {
    Config {
        settings: Settings {
            output_dir: "docs/ai/vendor-docs".to_string(),
            max_file_size_kb: 200,
            include_changelog: true,
            include_readme: true,
            include_migration_guide: false,
            prune: false,
        },
        crates: names
            .iter()
            .map(|n| CrateEntry {
                name: n.to_string(),
                doc: CrateDoc {
                    sources: Vec::new(),
                    ai_notes: String::new(),
                },
            })
            .collect(),
        npm: Vec::new(),
    }
}

fn lock(entries: &[(&str, &str)]) -> Vec<LockEntry> {
    entries
        .iter()
        .map(|(n, v)| LockEntry {
            name: n.to_string(),
            version: v.to_string(),
        })
        .collect()
}

#[test]
fn prints_stable_output_for_empty_rows() {
    let text = print_status_table_to(&Vec::new());
    assert!(text.contains("Crate"));
    assert!(text.contains("Summary: total=0, synced=0, missing=0, outdated=0, corrupted=0"));
    assert!(!text.contains("Run cargo ai-docs sync --force"));
}

#[test]
fn handles_row_without_lock_version() {
    let rows = vec![StatusRow {
        crate_name: "serde".to_string(),
        lock_version: None,
        synced_version: None,
        status: SyncStatus::Missing,
    }];

    let text = print_status_table_to(&rows);
    assert!(text.contains("serde"));
    assert!(text.contains("Missing"));
    assert!(text.contains("Summary: total=1, synced=0, missing=1, outdated=0, corrupted=0"));
    assert!(text.contains("Run cargo ai-docs sync --force"));
}

#[test]
fn locked_package_with_empty_cache_is_missing() {
    let config = config_for(&["serde"]);
    let locked = lock(&[("serde", "1.0.217")]);
    let rows = collect_status_rows(&config, &locked, &Vec::new());
    assert_eq!(rows.len(), 1);
    assert_eq!(rows[0].crate_name, "serde");
    assert_eq!(rows[0].lock_version, Some("1.0.217".to_string()));
    assert_eq!(rows[0].synced_version, None);
    assert_eq!(rows[0].status, SyncStatus::Missing);
}

#[test]
fn older_cached_version_is_outdated() {
    let config = config_for(&["serde"]);
    let locked = lock(&[("serde", "1.0.217")]);
    let dirs = vec![CacheDir {
        name: "serde@1.0.200".to_string(),
        files: vec!["README.md".to_string()],
    }];
    let rows = collect_status_rows(&config, &locked, &dirs);
    assert_eq!(rows.len(), 1);
    assert_eq!(rows[0].crate_name, "serde");
    assert_eq!(rows[0].lock_version, Some("1.0.217".to_string()));
    assert_eq!(rows[0].synced_version, Some("1.0.200".to_string()));
    assert_eq!(rows[0].status, SyncStatus::Outdated);
}

#[test]
fn exact_directory_without_content_is_corrupted() {
    let dirs = vec![CacheDir {
        name: "serde@1.0.217".to_string(),
        files: vec!["partial.tmp".to_string()],
    }];
    let (synced, status) = detect_status(&dirs, "serde", &Some("1.0.217".to_string()));
    assert_eq!(synced, Some("1.0.217".to_string()));
    assert_eq!(status, SyncStatus::Corrupted);
}

#[test]
fn exact_directory_with_content_is_synced() {
    let dirs = vec![CacheDir {
        name: "serde@1.0.217".to_string(),
        files: vec!["README.md".to_string(), "_SUMMARY.md".to_string()],
    }];
    let (synced, status) = detect_status(&dirs, "serde", &Some("1.0.217".to_string()));
    assert_eq!(synced, Some("1.0.217".to_string()));
    assert_eq!(status, SyncStatus::Synced);
}

#[test]
fn persisted_files_reconcile_as_synced() {
    let item = ResolvedCrate {
        name: "serde".to_string(),
        version: "1.0.217".to_string(),
        ai_notes: String::new(),
        files: vec![ResolvedFile {
            filename: "README.md".to_string(),
            source_path: "README.md".to_string(),
            source_url: "u".to_string(),
            content: "hello".to_string(),
        }],
        ecosystem: Ecosystem::Rust,
    };
    let docs = render_crate_files(&item, 1000);
    let dirs = vec![CacheDir {
        name: docs[0].entry_dir.clone(),
        files: docs.iter().map(|d| d.filename.clone()).collect(),
    }];
    let (synced, status) = detect_status(&dirs, "serde", &Some("1.0.217".to_string()));
    assert_eq!(synced, Some("1.0.217".to_string()));
    assert_eq!(status, SyncStatus::Synced);
}

#[test]
fn metadata_marker_counts_as_content() {
    assert!(has_docs_content(&vec![".aifd-meta.toml".to_string()]));
    assert!(has_docs_content(&vec!["guide.md".to_string()]));
    assert!(!has_docs_content(&vec!["notes.txt".to_string()]));
    assert!(!has_docs_content(&Vec::new()));
}

#[test]
fn any_cached_version_of_the_package_is_found() {
    let dirs = vec![
        CacheDir {
            name: "serde_json@1.0.100".to_string(),
            files: Vec::new(),
        },
        CacheDir {
            name: "serde@1.0.200".to_string(),
            files: Vec::new(),
        },
    ];
    assert_eq!(
        find_any_synced_version(&dirs, "serde"),
        Some("1.0.200".to_string())
    );
    assert_eq!(find_any_synced_version(&dirs, "tokio"), None);
}

#[test]
fn rows_are_ordered_by_package_name() {
    let config = config_for(&["tokio", "axum", "serde"]);
    let locked = lock(&[("serde", "1.0.217"), ("axum", "0.8.1"), ("tokio", "1.43.0")]);
    let rows = collect_status_rows(&config, &locked, &Vec::new());
    let names: Vec<&str> = rows.iter().map(|r| r.crate_name.as_str()).collect();
    assert_eq!(names, vec!["axum", "serde", "tokio"]);
}

#[test]
fn unlocked_package_reports_missing_without_versions() {
    let config = config_for(&["leftpad"]);
    let rows = collect_status_rows(&config, &Vec::new(), &Vec::new());
    assert_eq!(rows.len(), 1);
    assert_eq!(rows[0].lock_version, None);
    assert_eq!(rows[0].synced_version, None);
    assert_eq!(rows[0].status, SyncStatus::Missing);
}

#[test]
fn summary_tallies_every_classification() {
    let mk = |status| StatusRow {
        crate_name: "x".to_string(),
        lock_version: None,
        synced_version: None,
        status,
    };
    let rows = vec![
        mk(SyncStatus::Synced),
        mk(SyncStatus::Synced),
        mk(SyncStatus::Missing),
        mk(SyncStatus::Outdated),
        mk(SyncStatus::Corrupted),
    ];
    let summary = StatusSummary::from_rows(&rows);
    assert_eq!(summary.total, 5);
    assert_eq!(summary.synced, 2);
    assert_eq!(summary.missing, 1);
    assert_eq!(summary.outdated, 1);
    assert_eq!(summary.corrupted, 1);
    assert!(summary.has_sync_issues());

    let healthy = StatusSummary::from_rows(&vec![mk(SyncStatus::Synced)]);
    assert!(!healthy.has_sync_issues());
}

#[test]
fn table_columns_are_aligned_to_the_widest_cell() {
    let rows = vec![StatusRow {
        crate_name: "a-rather-long-crate-name".to_string(),
        lock_version: Some("1.0.0".to_string()),
        synced_version: Some("1.0.0".to_string()),
        status: SyncStatus::Synced,
    }];
    let text = print_status_table_to(&rows);
    let lines: Vec<&str> = text.lines().collect();
    assert!(lines[0].starts_with("Crate"));
    assert_eq!(lines[1].len(), lines[2].len());
    assert!(lines[2].starts_with("a-rather-long-crate-name  1.0.0"));
    assert!(text.contains("Summary: total=1, synced=1, missing=0, outdated=0, corrupted=0"));
}
