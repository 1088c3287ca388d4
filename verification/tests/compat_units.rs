use lumos_core::compat::{
    parse_semver, validate_version_bump, CompatibilityIssue, CompatibilityReport, IssueLevel,
};
use lumos_core::ir::TypeInfo;
use lumos_core::migration::SchemaChange;

#[test]
fn test_parse_semver() {
    assert_eq!(parse_semver("1.2.3"), Ok((1, 2, 3)));
    assert_eq!(parse_semver("0.0.1"), Ok((0, 0, 1)));
    assert_eq!(parse_semver("10.20.30"), Ok((10, 20, 30)));
    assert!(parse_semver("1.2").is_err());
    assert!(parse_semver("a.b.c").is_err());
}

#[test]
fn test_version_bump_validation() {
    let mut report_with_breaking =
        CompatibilityReport::new(Some("1.0.0".to_string()), Some("2.0.0".to_string()));
    report_with_breaking.add_issue(CompatibilityIssue::breaking(
        "Test".to_string(),
        "Test breaking".to_string(),
        "Test".to_string(),
        None,
        SchemaChange::FieldRemoved {
            name: "test".to_string(),
            type_info: TypeInfo::Primitive("bool".to_string()),
        },
    ));

    assert!(validate_version_bump("1.0.0", "2.0.0", &report_with_breaking).is_ok());
    assert!(validate_version_bump("1.0.0", "1.1.0", &report_with_breaking).is_err());

    let report_no_breaking =
        CompatibilityReport::new(Some("1.0.0".to_string()), Some("1.1.0".to_string()));
    assert!(validate_version_bump("1.0.0", "1.1.0", &report_no_breaking).is_ok());
    assert!(validate_version_bump("1.0.0", "1.0.1", &report_no_breaking).is_ok());
}

#[test]
fn semver_rejects_overflow_and_extra_parts() {
    assert!(parse_semver("4294967296.0.0").is_err());
    assert!(parse_semver("1.2.3.4").is_err());
    assert!(parse_semver("").is_err());
    assert_eq!(parse_semver("4294967295.0.0"), Ok((4294967295, 0, 0)));
}

#[test]
fn report_counts_and_compatibility_follow_issues() {
    let mut r = CompatibilityReport::new(None, None);
    assert!(r.is_compatible);
    r.add_issue(CompatibilityIssue::info(
        "T".to_string(),
        "note".to_string(),
        "why".to_string(),
        SchemaChange::VariantAdded { name: "X".to_string() },
    ));
    assert!(r.is_compatible);
    assert_eq!(r.count_by_level(IssueLevel::Info), 1);
    r.add_issue(CompatibilityIssue::warning(
        "T".to_string(),
        "careful".to_string(),
        "why".to_string(),
        None,
        SchemaChange::VariantAdded { name: "Y".to_string() },
    ));
    assert_eq!(r.warnings().len(), 1);
    assert!(r.is_compatible);
    r.add_issue(CompatibilityIssue::breaking(
        "T".to_string(),
        "bad".to_string(),
        "why".to_string(),
        Some("fix".to_string()),
        SchemaChange::VariantRemoved { name: "Z".to_string() },
    ));
    assert!(!r.is_compatible);
    assert_eq!(r.breaking_issues().len(), 1);
    assert_eq!(r.issues.len(), 3);
}

#[test]
fn invalid_versions_are_reported() {
    let r = CompatibilityReport::new(None, None);
    assert!(validate_version_bump("x", "1.0.0", &r).is_err());
    assert!(validate_version_bump("1.0.0", "1.0", &r).is_err());
}

#[test]
fn breaking_changes_need_a_higher_major_version() {
    let mut report = CompatibilityReport::new(Some("2.0.0".to_string()), Some("1.0.0".to_string()));
    report.add_issue(CompatibilityIssue::breaking(
        "Test".to_string(),
        "Test breaking".to_string(),
        "Test".to_string(),
        None,
        SchemaChange::FieldRemoved {
            name: "test".to_string(),
            type_info: TypeInfo::Primitive("bool".to_string()),
        },
    ));
    assert_eq!(
        validate_version_bump("2.0.0", "1.0.0", &report),
        Err("Breaking changes detected but major version not bumped (2.0.0 → 1.0.0)".to_string())
    );
    assert!(validate_version_bump("2.3.1", "3.0.0", &report).is_ok());
}
