use ai_fdocs::changelog::{is_changelog_path, trim_changelog};

#[test]
fn trims_changelog_to_the_matching_section() {
    let trimmed = trim_changelog("## 1.2.0\nfix\n## 1.1.0\nold\n", "1.2.0");
    assert_eq!(trimmed, "## 1.2.0\nfix\n");
}

#[test]
fn keeps_content_when_no_heading_matches() {
    let content = "## 2.0.0\nnothing here\n";
    assert_eq!(trim_changelog(content, "1.2.0"), content);
}

#[test]
fn trims_to_end_of_file_when_no_further_heading_exists() {
    let trimmed = trim_changelog("preamble\n## 1.2.0\nfix\nmore\n", "1.2.0");
    assert_eq!(trimmed, "## 1.2.0\nfix\nmore\n");
}

#[test]
fn trimming_twice_equals_trimming_once() {
    let content = "intro\n## 3.1.4\n- a fix\n- a feature\n## 3.1.3\nold\n";
    let once = trim_changelog(content, "3.1.4");
    let twice = trim_changelog(&once, "3.1.4");
    assert_eq!(twice, once);
}

#[test]
fn changelog_paths_are_recognised_in_any_casing() {
    assert!(is_changelog_path("CHANGELOG.md"));
    assert!(is_changelog_path("Changelog.md"));
    assert!(is_changelog_path("docs/changelog.md"));
    assert!(!is_changelog_path("README.md"));
    assert!(!is_changelog_path("changelog.txt"));
}
