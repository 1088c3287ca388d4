use lumos_core::ir::{
    EnumDefinition, EnumVariantDefinition, FieldDefinition, Metadata, StructDefinition,
    TypeAliasDefinition, TypeDefinition, TypeInfo, Visibility,
};
use lumos_core::transform::{
    deprecation_warnings, is_valid_primitive_type, map_type_alias, transform_type,
    validate_user_defined_types, TypeAliasResolver,
};
use lumos_core::ast::TypeSpec;
use lumos_core::error::LumosError;

fn field(name: &str, ty: TypeInfo) -> FieldDefinition {
    FieldDefinition {
        name: name.to_string(),
        type_info: ty,
        optional: false,
        deprecated: None,
        anchor_attrs: vec![],
    }
}

fn strukt(name: &str, fields: Vec<FieldDefinition>) -> TypeDefinition {
    TypeDefinition::Struct(StructDefinition {
        name: name.to_string(),
        generic_params: vec![],
        fields,
        metadata: Metadata::default(),
        visibility: Visibility::Public,
        module_segments: vec![],
    })
}

fn user(n: &str) -> TypeInfo {
    TypeInfo::UserDefined(n.to_string())
}

fn message(r: Result<(), LumosError>) -> String {
    match r {
        Err(LumosError::TypeValidation(m)) => m,
        other => panic!("expected a type validation error, got {:?}", other),
    }
}

#[test]
fn undefined_type_in_struct_field() {
    let defs = vec![strukt("Player", vec![field("inventory", user("UndefinedType"))])];
    let m = message(validate_user_defined_types(&defs));
    assert_eq!(m, "Undefined type 'UndefinedType' referenced in 'Player.inventory'");
}

#[test]
fn undefined_types_inside_arrays_options_and_variants() {
    let defs = vec![strukt(
        "Inventory",
        vec![field("items", TypeInfo::Array(Box::new(user("MissingItem"))))],
    )];
    assert!(message(validate_user_defined_types(&defs)).contains("Undefined type 'MissingItem'"));

    let defs = vec![strukt(
        "User",
        vec![field("profile", TypeInfo::Option(Box::new(user("NonexistentProfile"))))],
    )];
    assert!(message(validate_user_defined_types(&defs))
        .contains("Undefined type 'NonexistentProfile'"));

    let e = TypeDefinition::Enum(EnumDefinition {
        name: "GameEvent".to_string(),
        generic_params: vec![],
        variants: vec![
            EnumVariantDefinition::Unit { name: "Start".to_string() },
            EnumVariantDefinition::Tuple {
                name: "PlayerJoined".to_string(),
                types: vec![TypeInfo::Primitive("u8".to_string()), user("UndefinedPlayer")],
            },
        ],
        metadata: Metadata::default(),
        visibility: Visibility::Public,
        module_segments: vec![],
    });
    assert_eq!(
        message(validate_user_defined_types(&vec![e])),
        "Undefined type 'UndefinedPlayer' referenced in 'GameEvent.PlayerJoined[1]'"
    );

    let e = TypeDefinition::Enum(EnumDefinition {
        name: "Instruction".to_string(),
        generic_params: vec![],
        variants: vec![EnumVariantDefinition::Struct {
            name: "Initialize".to_string(),
            fields: vec![field("config", user("MissingConfig"))],
        }],
        metadata: Metadata::default(),
        visibility: Visibility::Public,
        module_segments: vec![],
    });
    assert_eq!(
        message(validate_user_defined_types(&vec![e])),
        "Undefined type 'MissingConfig' referenced in 'Instruction.Initialize.config'"
    );
    let alias = TypeDefinition::TypeAlias(TypeAliasDefinition {
        name: "Handle".to_string(),
        target: user("Nowhere"),
        visibility: Visibility::Public,
        module_segments: vec![],
    });
    assert_eq!(
        message(validate_user_defined_types(&vec![alias])),
        "Undefined type 'Nowhere' referenced in 'Handle'"
    );
}

#[test]
fn defined_and_primitive_types_pass() {
    let defs = vec![
        strukt("Item", vec![field("id", TypeInfo::Primitive("u64".to_string()))]),
        strukt(
            "Inventory",
            vec![
                field("items", TypeInfo::Array(Box::new(user("Item")))),
                field("selected", TypeInfo::Option(Box::new(user("Item")))),
                field(
                    "slots",
                    TypeInfo::FixedArray { element: Box::new(user("Item")), size: 4 },
                ),
            ],
        ),
    ];
    assert_eq!(validate_user_defined_types(&defs), Ok(()));
    assert_eq!(validate_user_defined_types(&vec![]), Ok(()));
}

#[test]
fn primitive_names_and_aliases() {
    for n in ["u8", "i128", "f64", "bool", "String", "PublicKey", "Signature", "Keypair", "number"] {
        assert!(is_valid_primitive_type(n));
    }
    assert!(!is_valid_primitive_type("Pubkey"));
    assert!(!is_valid_primitive_type("usize"));
    assert_eq!(map_type_alias("number"), "u64");
    assert_eq!(map_type_alias("string"), "String");
    assert_eq!(map_type_alias("boolean"), "bool");
    assert_eq!(map_type_alias("u16"), "u16");
}

#[test]
fn deprecated_fields_are_listed() {
    let mut old = field("old_field", TypeInfo::Primitive("u64".to_string()));
    old.deprecated = Some("This field is deprecated".to_string());
    let mut v = field("x", TypeInfo::Primitive("u8".to_string()));
    v.deprecated = Some("gone".to_string());
    let e = TypeDefinition::Enum(EnumDefinition {
        name: "E".to_string(),
        generic_params: vec![],
        variants: vec![
            EnumVariantDefinition::Unit { name: "A".to_string() },
            EnumVariantDefinition::Struct { name: "B".to_string(), fields: vec![v] },
        ],
        metadata: Metadata::default(),
        visibility: Visibility::Public,
        module_segments: vec![],
    });
    let defs = vec![strukt("User", vec![field("name", TypeInfo::Primitive("String".to_string())), old]), e];
    assert_eq!(
        deprecation_warnings(&defs),
        vec![
            "User.old_field: This field is deprecated".to_string(),
            "E.B::x: gone".to_string()
        ]
    );
}

fn prim(n: &str) -> TypeSpec {
    TypeSpec::Primitive(n.to_string())
}

#[test]
fn aliases_resolve_through_each_other() {
    let mut r = TypeAliasResolver::new();
    r.add_alias("UserId".to_string(), prim("PublicKey")).unwrap();
    r.add_alias("Ids".to_string(), TypeSpec::Array(Box::new(prim("UserId")))).unwrap();
    r.add_alias(
        "Pair".to_string(),
        TypeSpec::FixedArray { element: Box::new(TypeSpec::UserDefined("Ids".to_string())), size: 2 },
    )
    .unwrap();
    r.add_alias("Count".to_string(), prim("number")).unwrap();
    assert!(r.resolve_all_aliases().is_ok());
    assert_eq!(r.get_resolved("Count"), Some(&TypeInfo::Primitive("u64".to_string())));
    assert_eq!(
        r.get_resolved("Pair"),
        Some(&TypeInfo::FixedArray {
            element: Box::new(TypeInfo::Array(Box::new(TypeInfo::Primitive(
                "PublicKey".to_string()
            )))),
            size: 2,
        })
    );
    assert_eq!(
        transform_type(&prim("Ids"), true, &r).unwrap(),
        TypeInfo::Option(Box::new(TypeInfo::Array(Box::new(TypeInfo::Primitive(
            "PublicKey".to_string()
        )))))
    );
    assert_eq!(
        transform_type(&TypeSpec::UserDefined("Player".to_string()), false, &r).unwrap(),
        TypeInfo::UserDefined("Player".to_string())
    );
}

#[test]
fn duplicate_and_circular_aliases_fail() {
    let mut r = TypeAliasResolver::new();
    r.add_alias("A".to_string(), prim("u8")).unwrap();
    assert_eq!(
        r.add_alias("A".to_string(), prim("u16")),
        Err(LumosError::Transform("Duplicate type alias definition: A".to_string()))
    );

    let mut r = TypeAliasResolver::new();
    r.add_alias("A".to_string(), TypeSpec::UserDefined("B".to_string())).unwrap();
    r.add_alias("B".to_string(), TypeSpec::Array(Box::new(prim("A")))).unwrap();
    match r.resolve_all_aliases() {
        Err(LumosError::Transform(m)) => {
            assert!(m.starts_with("Circular type alias detected: "));
        }
        other => panic!("expected a cycle, got {:?}", other),
    }

    let mut r = TypeAliasResolver::new();
    r.add_alias("Me".to_string(), prim("Me")).unwrap();
    assert_eq!(
        r.resolve_all_aliases(),
        Err(LumosError::Transform("Circular type alias detected: Me".to_string()))
    );
}

#[test]
fn aliases_added_after_resolving_are_resolved_next_time() {
    let mut r = TypeAliasResolver::new();
    r.add_alias("Ids".to_string(), TypeSpec::Array(Box::new(prim("UserId")))).unwrap();
    assert!(r.resolve_all_aliases().is_ok());
    assert_eq!(r.get_resolved("UserId"), None);
    r.add_alias("UserId".to_string(), prim("PublicKey")).unwrap();
    assert!(r.resolve_all_aliases().is_ok());
    assert_eq!(r.get_resolved("UserId"), Some(&TypeInfo::Primitive("PublicKey".to_string())));
    assert_eq!(
        r.get_resolved("Ids"),
        Some(&TypeInfo::Array(Box::new(TypeInfo::Primitive("PublicKey".to_string()))))
    );
}
