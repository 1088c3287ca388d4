use lumos_core::ir::{
    EnumDefinition, EnumVariantDefinition, FieldDefinition, Metadata, StructDefinition,
    TypeDefinition, TypeInfo, Visibility,
};
use lumos_core::migration::{
    generate_rust_migration, generate_typescript_migration, MigrationSafety, SchemaChange,
    SchemaDiff,
};

fn create_test_struct(name: &str, fields: Vec<(&str, TypeInfo, bool)>) -> StructDefinition {
    StructDefinition {
        name: name.to_string(),
        generic_params: vec![],
        fields: fields
            .into_iter()
            .map(|(field_name, type_info, optional)| FieldDefinition {
                name: field_name.to_string(),
                type_info,
                optional,
                deprecated: None,
                anchor_attrs: vec![],
            })
            .collect(),
        metadata: Default::default(),
        visibility: Visibility::Public,
        module_segments: Vec::new(),
    }
}

#[test]
fn test_no_changes() {
    let v1 = create_test_struct(
        "User",
        vec![
            ("id", TypeInfo::Primitive("u64".to_string()), false),
            ("name", TypeInfo::Primitive("String".to_string()), false),
        ],
    );
    let v2 = v1.clone();

    let diff =
        SchemaDiff::compute(&TypeDefinition::Struct(v1), &TypeDefinition::Struct(v2)).unwrap();

    assert_eq!(diff.changes.len(), 0);
    assert_eq!(diff.safety(), MigrationSafety::Safe);
}

#[test]
fn test_field_added_optional() {
    let v1 = create_test_struct(
        "User",
        vec![
            ("id", TypeInfo::Primitive("u64".to_string()), false),
            ("name", TypeInfo::Primitive("String".to_string()), false),
        ],
    );
    let v2 = create_test_struct(
        "User",
        vec![
            ("id", TypeInfo::Primitive("u64".to_string()), false),
            ("name", TypeInfo::Primitive("String".to_string()), false),
            ("email", TypeInfo::Primitive("String".to_string()), true),
        ],
    );

    let diff =
        SchemaDiff::compute(&TypeDefinition::Struct(v1), &TypeDefinition::Struct(v2)).unwrap();

    assert_eq!(diff.changes.len(), 1);
    assert!(matches!(
        diff.changes[0],
        SchemaChange::FieldAdded { optional: true, .. }
    ));
    assert_eq!(diff.safety(), MigrationSafety::Safe);
}

#[test]
fn test_field_added_required() {
    let v1 = create_test_struct(
        "User",
        vec![
            ("id", TypeInfo::Primitive("u64".to_string()), false),
            ("name", TypeInfo::Primitive("String".to_string()), false),
        ],
    );
    let v2 = create_test_struct(
        "User",
        vec![
            ("id", TypeInfo::Primitive("u64".to_string()), false),
            ("name", TypeInfo::Primitive("String".to_string()), false),
            ("age", TypeInfo::Primitive("u16".to_string()), false),
        ],
    );

    let diff =
        SchemaDiff::compute(&TypeDefinition::Struct(v1), &TypeDefinition::Struct(v2)).unwrap();

    assert_eq!(diff.changes.len(), 1);
    assert!(matches!(
        diff.changes[0],
        SchemaChange::FieldAdded {
            optional: false,
            ..
        }
    ));
    assert_eq!(diff.safety(), MigrationSafety::Unsafe);
}

#[test]
fn test_field_removed() {
    let v1 = create_test_struct(
        "User",
        vec![
            ("id", TypeInfo::Primitive("u64".to_string()), false),
            ("name", TypeInfo::Primitive("String".to_string()), false),
            ("old_field", TypeInfo::Primitive("bool".to_string()), false),
        ],
    );
    let v2 = create_test_struct(
        "User",
        vec![
            ("id", TypeInfo::Primitive("u64".to_string()), false),
            ("name", TypeInfo::Primitive("String".to_string()), false),
        ],
    );

    let diff =
        SchemaDiff::compute(&TypeDefinition::Struct(v1), &TypeDefinition::Struct(v2)).unwrap();

    assert_eq!(diff.changes.len(), 1);
    assert!(matches!(diff.changes[0], SchemaChange::FieldRemoved { .. }));
    assert_eq!(diff.safety(), MigrationSafety::Unsafe);
}

#[test]
fn test_field_type_changed() {
    let v1 = create_test_struct(
        "User",
        vec![
            ("id", TypeInfo::Primitive("u64".to_string()), false),
            ("age", TypeInfo::Primitive("u16".to_string()), false),
        ],
    );
    let v2 = create_test_struct(
        "User",
        vec![
            ("id", TypeInfo::Primitive("u64".to_string()), false),
            ("age", TypeInfo::Primitive("u32".to_string()), false),
        ],
    );

    let diff =
        SchemaDiff::compute(&TypeDefinition::Struct(v1), &TypeDefinition::Struct(v2)).unwrap();

    assert_eq!(diff.changes.len(), 1);
    assert!(matches!(
        diff.changes[0],
        SchemaChange::FieldTypeChanged { .. }
    ));
    assert_eq!(diff.safety(), MigrationSafety::Unsafe);
}

#[test]
fn test_field_reordered() {
    let v1 = create_test_struct(
        "User",
        vec![
            ("id", TypeInfo::Primitive("u64".to_string()), false),
            ("name", TypeInfo::Primitive("String".to_string()), false),
            ("age", TypeInfo::Primitive("u16".to_string()), false),
        ],
    );
    let v2 = create_test_struct(
        "User",
        vec![
            ("name", TypeInfo::Primitive("String".to_string()), false),
            ("id", TypeInfo::Primitive("u64".to_string()), false),
            ("age", TypeInfo::Primitive("u16".to_string()), false),
        ],
    );

    let diff =
        SchemaDiff::compute(&TypeDefinition::Struct(v1), &TypeDefinition::Struct(v2)).unwrap();

    // Should detect reordering
    assert!(diff
        .changes
        .iter()
        .any(|c| matches!(c, SchemaChange::FieldReordered { .. })));
    // Reordering is safe with Borsh
    assert_eq!(diff.safety(), MigrationSafety::Safe);
}

#[test]
fn test_multiple_changes() {
    let v1 = create_test_struct(
        "User",
        vec![
            ("id", TypeInfo::Primitive("u64".to_string()), false),
            ("old_field", TypeInfo::Primitive("bool".to_string()), false),
        ],
    );
    let v2 = create_test_struct(
        "User",
        vec![
            ("id", TypeInfo::Primitive("u64".to_string()), false),
            ("new_field", TypeInfo::Primitive("String".to_string()), true),
        ],
    );

    let diff =
        SchemaDiff::compute(&TypeDefinition::Struct(v1), &TypeDefinition::Struct(v2)).unwrap();

    assert_eq!(diff.changes.len(), 2);
    assert!(diff
        .changes
        .iter()
        .any(|c| matches!(c, SchemaChange::FieldAdded { .. })));
    assert!(diff
        .changes
        .iter()
        .any(|c| matches!(c, SchemaChange::FieldRemoved { .. })));
    assert_eq!(diff.safety(), MigrationSafety::Unsafe);
}

#[test]
fn test_enum_variant_added() {
    let v1 = EnumDefinition {
        name: "GameState".to_string(),
        generic_params: vec![],
        variants: vec![
            EnumVariantDefinition::Unit {
                name: "Active".to_string(),
            },
            EnumVariantDefinition::Unit {
                name: "Paused".to_string(),
            },
        ],
        metadata: Metadata {
            solana: true,
            version: Some("1.0.0".to_string()),
            ..Default::default()
        },
        visibility: Visibility::Public,
        module_segments: vec![],
    };

    let v2 = EnumDefinition {
        name: "GameState".to_string(),
        generic_params: vec![],
        variants: vec![
            EnumVariantDefinition::Unit {
                name: "Active".to_string(),
            },
            EnumVariantDefinition::Unit {
                name: "Paused".to_string(),
            },
            EnumVariantDefinition::Unit {
                name: "Finished".to_string(),
            },
        ],
        metadata: Metadata {
            solana: true,
            version: Some("1.1.0".to_string()),
            ..Default::default()
        },
        visibility: Visibility::Public,
        module_segments: vec![],
    };

    let diff =
        SchemaDiff::compute(&TypeDefinition::Enum(v1), &TypeDefinition::Enum(v2)).unwrap();

    assert_eq!(diff.changes.len(), 1);
    assert!(matches!(
        diff.changes[0],
        SchemaChange::VariantAdded { ref name } if name == "Finished"
    ));
    assert_eq!(diff.safety(), MigrationSafety::Safe);
}

#[test]
fn test_enum_variant_removed() {
    let v1 = EnumDefinition {
        name: "GameState".to_string(),
        generic_params: vec![],
        variants: vec![
            EnumVariantDefinition::Unit {
                name: "Active".to_string(),
            },
            EnumVariantDefinition::Unit {
                name: "Paused".to_string(),
            },
            EnumVariantDefinition::Unit {
                name: "Deprecated".to_string(),
            },
        ],
        metadata: Metadata {
            solana: true,
            version: Some("1.0.0".to_string()),
            ..Default::default()
        },
        visibility: Visibility::Public,
        module_segments: vec![],
    };

    let v2 = EnumDefinition {
        name: "GameState".to_string(),
        generic_params: vec![],
        variants: vec![
            EnumVariantDefinition::Unit {
                name: "Active".to_string(),
            },
            EnumVariantDefinition::Unit {
                name: "Paused".to_string(),
            },
        ],
        metadata: Metadata {
            solana: true,
            version: Some("1.1.0".to_string()),
            ..Default::default()
        },
        visibility: Visibility::Public,
        module_segments: vec![],
    };

    let diff =
        SchemaDiff::compute(&TypeDefinition::Enum(v1), &TypeDefinition::Enum(v2)).unwrap();

    assert_eq!(diff.changes.len(), 1);
    assert!(matches!(
        diff.changes[0],
        SchemaChange::VariantRemoved { ref name } if name == "Deprecated"
    ));
    assert_eq!(diff.safety(), MigrationSafety::Unsafe);
}

#[test]
fn test_enum_migration_rust_generation() {
    let old_enum = EnumDefinition {
        name: "GameState".to_string(),
        generic_params: vec![],
        variants: vec![
            EnumVariantDefinition::Unit {
                name: "Active".to_string(),
            },
            EnumVariantDefinition::Unit {
                name: "Paused".to_string(),
            },
            EnumVariantDefinition::Unit {
                name: "Deprecated".to_string(),
            },
        ],
        metadata: Metadata {
            solana: true,
            version: Some("1.0.0".to_string()),
            ..Default::default()
        },
        visibility: Visibility::Public,
        module_segments: vec![],
    };

    let new_enum = EnumDefinition {
        name: "GameState".to_string(),
        generic_params: vec![],
        variants: vec![
            EnumVariantDefinition::Unit {
                name: "Active".to_string(),
            },
            EnumVariantDefinition::Unit {
                name: "Paused".to_string(),
            },
            EnumVariantDefinition::Unit {
                name: "Finished".to_string(),
            },
        ],
        metadata: Metadata {
            solana: true,
            version: Some("1.1.0".to_string()),
            ..Default::default()
        },
        visibility: Visibility::Public,
        module_segments: vec![],
    };

    let diff = SchemaDiff::compute(
        &TypeDefinition::Enum(old_enum.clone()),
        &TypeDefinition::Enum(new_enum),
    )
    .unwrap();

    let migration = generate_rust_migration(&diff, &TypeDefinition::Enum(old_enum));

    // Verify generated code contains key elements
    assert!(migration.contains("impl From<GameStateV1_0_0> for GameState"));
    assert!(migration.contains("GameStateV1_0_0::Active => Self::Active"));
    assert!(migration.contains("GameStateV1_0_0::Paused => Self::Paused"));
    assert!(migration.contains("GameStateV1_0_0::Deprecated")); // Removed variant
    assert!(migration.contains("// Removed: mapped to default"));
}

#[test]
fn test_enum_migration_typescript_generation() {
    let old_enum = EnumDefinition {
        name: "GameState".to_string(),
        generic_params: vec![],
        variants: vec![
            EnumVariantDefinition::Unit {
                name: "Active".to_string(),
            },
            EnumVariantDefinition::Unit {
                name: "Paused".to_string(),
            },
            EnumVariantDefinition::Unit {
                name: "Deprecated".to_string(),
            },
        ],
        metadata: Metadata {
            solana: true,
            version: Some("1.0.0".to_string()),
            ..Default::default()
        },
        visibility: Visibility::Public,
        module_segments: vec![],
    };

    let new_enum = EnumDefinition {
        name: "GameState".to_string(),
        generic_params: vec![],
        variants: vec![
            EnumVariantDefinition::Unit {
                name: "Active".to_string(),
            },
            EnumVariantDefinition::Unit {
                name: "Paused".to_string(),
            },
            EnumVariantDefinition::Unit {
                name: "Finished".to_string(),
            },
        ],
        metadata: Metadata {
            solana: true,
            version: Some("1.1.0".to_string()),
            ..Default::default()
        },
        visibility: Visibility::Public,
        module_segments: vec![],
    };

    let diff = SchemaDiff::compute(
        &TypeDefinition::Enum(old_enum.clone()),
        &TypeDefinition::Enum(new_enum),
    )
    .unwrap();

    let migration = generate_typescript_migration(&diff, &TypeDefinition::Enum(old_enum));

    // Verify generated code contains key elements
    assert!(migration.contains("export function migrateGameStateFromV1_0_0"));
    assert!(migration.contains("export type GameStateV1_0_0"));
    assert!(migration.contains("switch (old.kind)"));
    assert!(migration.contains("case 'Active'"));
    assert!(migration.contains("case 'Paused'"));
    assert!(migration.contains("case 'Deprecated'")); // Removed variant
    assert!(migration.contains("// Removed: mapped to default"));
}

#[test]
fn struct_migration_code_names_defaults_for_added_fields() {
    let mut v1 = create_test_struct(
        "User",
        vec![("id", TypeInfo::Primitive("u64".to_string()), false)],
    );
    v1.metadata.version = Some("1.0.0".to_string());
    let mut v2 = create_test_struct(
        "User",
        vec![
            ("id", TypeInfo::Primitive("u64".to_string()), false),
            ("score", TypeInfo::Primitive("u32".to_string()), false),
        ],
    );
    v2.metadata.version = Some("1.1.0".to_string());
    let diff = SchemaDiff::compute(
        &TypeDefinition::Struct(v1.clone()),
        &TypeDefinition::Struct(v2),
    )
    .unwrap();
    assert_eq!(diff.from_version, Some("1.0.0".to_string()));
    assert_eq!(diff.to_version, Some("1.1.0".to_string()));
    let rust = generate_rust_migration(&diff, &TypeDefinition::Struct(v1.clone()));
    assert!(rust.contains("UserV1_0_0"));
    assert!(rust.contains("id: old.id,"));
    assert!(rust.contains("score: 0,"));
    let ts = generate_typescript_migration(&diff, &TypeDefinition::Struct(v1));
    assert!(ts.contains("migrateUserFromV1_0_0"));
    assert!(ts.contains("score: 0,"));
}

#[test]
fn diff_of_different_kinds_is_an_error() {
    let s = create_test_struct("User", vec![]);
    let e = EnumDefinition {
        name: "User".to_string(),
        generic_params: vec![],
        variants: vec![],
        metadata: Metadata::default(),
        visibility: Visibility::Public,
        module_segments: vec![],
    };
    assert!(SchemaDiff::compute(&TypeDefinition::Struct(s), &TypeDefinition::Enum(e)).is_err());
}

#[test]
fn describe_lists_each_change() {
    let v1 = create_test_struct(
        "User",
        vec![("id", TypeInfo::Primitive("u64".to_string()), false)],
    );
    let v2 = create_test_struct(
        "User",
        vec![("id", TypeInfo::Primitive("u32".to_string()), false)],
    );
    let diff =
        SchemaDiff::compute(&TypeDefinition::Struct(v1), &TypeDefinition::Struct(v2)).unwrap();
    let text = diff.describe();
    assert!(text.contains("id"));
    assert!(matches!(diff.changes[0], SchemaChange::FieldTypeChanged { .. }));
}
