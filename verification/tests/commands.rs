use lumos_core::commands::{
    all_bumps_valid, check_schemas, common_definitions, compat_exit_code, count_issues,
    plan_migrations, MigrationStep,
};
use lumos_core::compat::IssueLevel;
use lumos_core::ir::{FieldDefinition, Metadata, StructDefinition, TypeDefinition, TypeInfo, Visibility};

fn field(name: &str, ty: &str) -> FieldDefinition {
    FieldDefinition {
        name: name.to_string(),
        type_info: TypeInfo::Primitive(ty.to_string()),
        optional: false,
        deprecated: None,
        anchor_attrs: vec![],
    }
}

fn strukt(name: &str, fields: Vec<FieldDefinition>) -> TypeDefinition {
    TypeDefinition::Struct(StructDefinition {
        name: name.to_string(),
        generic_params: vec![],
        fields,
        metadata: Metadata::default(),
        visibility: Visibility::Public,
        module_segments: vec![],
    })
}

#[test]
fn shared_definitions_are_paired_by_name() {
    let a = vec![strukt("A", vec![]), strukt("B", vec![]), strukt("C", vec![])];
    let b = vec![strukt("C", vec![]), strukt("A", vec![])];
    assert_eq!(common_definitions(&a, &b), vec![(0, 1), (2, 0)]);
}

#[test]
fn compatibility_reports_count_their_issues() {
    let from = vec![strukt("Player", vec![field("id", "u64"), field("score", "u32")])];
    let to = vec![strukt("Player", vec![field("id", "u64")])];
    let results = check_schemas(&from, &to);
    assert_eq!(results.len(), 1);
    assert_eq!(results[0].0, "Player");
    let breaking = count_issues(&results, IssueLevel::Breaking);
    let warnings = count_issues(&results, IssueLevel::Warning);
    assert_eq!(breaking, 1);
    assert!(all_bumps_valid(&results));
    assert_eq!(compat_exit_code(breaking, warnings, false), 1);
    assert_eq!(compat_exit_code(0, 2, true), 2);
    assert_eq!(compat_exit_code(0, 2, false), 0);
}

#[test]
fn an_unsafe_migration_stops_the_plan_unless_forced() {
    let from = vec![strukt("A", vec![field("x", "u8"), field("y", "u8")]), strukt("B", vec![field("z", "u8")])];
    let to = vec![strukt("A", vec![field("x", "u8")]), strukt("B", vec![field("z", "u8"), field("w", "u16")])];
    let plan = plan_migrations(&from, &to, "rust", false);
    assert!(plan.refused);
    assert_eq!(plan.steps.len(), 1);
    assert_eq!(plan.generated_count(false), 0);
    assert_eq!(plan.rust_code(), "");

    let forced = plan_migrations(&from, &to, "both", true);
    assert!(!forced.refused);
    assert_eq!(forced.steps.len(), 2);
    assert_eq!(forced.generated_count(true), 2);
    assert!(!forced.rust_code().is_empty());
    assert!(!forced.typescript_code().is_empty());
}

#[test]
fn unchanged_definitions_need_no_migration() {
    let from = vec![strukt("A", vec![field("x", "u8")])];
    let plan = plan_migrations(&from, &from, "typescript", false);
    assert!(!plan.refused);
    match &plan.steps[0] {
        MigrationStep::Compared { diff, rust, typescript } => {
            assert!(diff.changes.is_empty());
            assert!(rust.is_none() && typescript.is_none());
        }
        _ => panic!("expected a comparison"),
    }
    assert_eq!(plan.generated_count(false), 0);
}
