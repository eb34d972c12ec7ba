use ai_fdocs::errors::DocsError;
use ai_fdocs::hosting::default_branch_from_body;
use ai_fdocs::resolve::{
    classify_tag_probe, fallback_ref, resolve_from_outcomes, resolve_step, tag_candidates,
    ProbeOutcome, ResolveAction,
};

#[test]
fn tag_candidates_come_in_the_documented_order() {
    let c = tag_candidates("tokio", "1.43.0");
    assert_eq!(
        c,
        vec![
            "v1.43.0".to_string(),
            "1.43.0".to_string(),
            "tokio-v1.43.0".to_string(),
            "tokio-1.43.0".to_string(),
        ]
    );
}

#[test]
fn classify_tag_probe_maps_statuses() {
    assert_eq!(classify_tag_probe(200), ProbeOutcome::Found);
    assert_eq!(classify_tag_probe(404), ProbeOutcome::Absent);
    assert_eq!(classify_tag_probe(429), ProbeOutcome::RateLimited);
    assert_eq!(classify_tag_probe(500), ProbeOutcome::Unexpected(500));
    assert_eq!(classify_tag_probe(301), ProbeOutcome::Unexpected(301));
}

#[test]
fn first_existing_tag_wins() {
    let c = tag_candidates("serde", "1.0.217");
    let outcomes = vec![
        ProbeOutcome::Absent,
        ProbeOutcome::Found,
        ProbeOutcome::Found,
        ProbeOutcome::Absent,
    ];
    let r = resolve_from_outcomes(&c, &outcomes, &None).expect("resolves");
    assert_eq!(r.git_ref, "1.0.217");
    assert!(!r.is_fallback);
}

#[test]
fn unexpected_statuses_are_skipped_like_absent_tags() {
    let c = tag_candidates("serde", "1.0.217");
    let outcomes = vec![
        ProbeOutcome::Unexpected(500),
        ProbeOutcome::Absent,
        ProbeOutcome::Absent,
        ProbeOutcome::Found,
    ];
    let r = resolve_from_outcomes(&c, &outcomes, &None).expect("resolves");
    assert_eq!(r.git_ref, "serde-1.0.217");
    assert!(!r.is_fallback);
}

#[test]
fn falls_back_to_default_branch_when_no_tag_exists() {
    let c = tag_candidates("serde", "1.0.217");
    let outcomes = vec![ProbeOutcome::Absent; 4];
    let r = resolve_from_outcomes(&c, &outcomes, &Some("develop".to_string())).expect("resolves");
    assert_eq!(r.git_ref, "develop");
    assert!(r.is_fallback);
}

#[test]
fn falls_back_to_main_without_repository_metadata() {
    let c = tag_candidates("serde", "1.0.217");
    let outcomes = vec![ProbeOutcome::Absent; 4];
    let r = resolve_from_outcomes(&c, &outcomes, &None).expect("resolves");
    assert_eq!(r.git_ref, "main");
    assert!(r.is_fallback);
}

#[test]
fn rate_limit_aborts_resolution() {
    let c = tag_candidates("serde", "1.0.217");
    let outcomes = vec![
        ProbeOutcome::Absent,
        ProbeOutcome::RateLimited,
        ProbeOutcome::Found,
        ProbeOutcome::Absent,
    ];
    let err = resolve_from_outcomes(&c, &outcomes, &None).expect_err("aborts");
    assert_eq!(err, DocsError::RateLimited);
    assert!(err.message().contains("rate limit"));
}

#[test]
fn resolve_step_decides_per_probe() {
    let c = tag_candidates("serde", "1.0.217");
    match resolve_step(&c, 0, &ProbeOutcome::Found) {
        ResolveAction::UseTag(r) => {
            assert_eq!(r.git_ref, "v1.0.217");
            assert!(!r.is_fallback);
        }
        _ => panic!("expected a tag"),
    }
    assert!(matches!(
        resolve_step(&c, 1, &ProbeOutcome::RateLimited),
        ResolveAction::AbortRateLimited
    ));
    assert!(matches!(
        resolve_step(&c, 1, &ProbeOutcome::Absent),
        ResolveAction::Next
    ));
    assert!(matches!(
        resolve_step(&c, 3, &ProbeOutcome::Absent),
        ResolveAction::Fallback
    ));
}

#[test]
fn fallback_ref_is_marked() {
    let r = fallback_ref(&Some("trunk".to_string()));
    assert_eq!(r.git_ref, "trunk");
    assert!(r.is_fallback);
}

#[test]
fn default_branch_is_read_from_repository_metadata() {
    let body = "{\"name\": \"serde\", \"default_branch\": \"master\"}";
    assert_eq!(default_branch_from_body(body), "master");
}

#[test]
fn default_branch_falls_back_to_main() {
    assert_eq!(default_branch_from_body("not json at all"), "main");
    assert_eq!(default_branch_from_body("{}"), "main");
    assert_eq!(
        default_branch_from_body("{\"default_branch\": 7}"),
        "main"
    );
}
