use lumos_core::diff::{compare_enums, compare_schemas, compare_structs, compare_types, variants_equal};
use lumos_core::ir::{
    EnumDefinition, EnumVariantDefinition, FieldDefinition, Metadata, StructDefinition,
    TypeAliasDefinition, TypeDefinition, TypeInfo, Visibility,
};

fn prim(n: &str) -> TypeInfo {
    TypeInfo::Primitive(n.to_string())
}

fn field(name: &str, ty: TypeInfo) -> FieldDefinition {
    FieldDefinition { name: name.to_string(), type_info: ty, optional: false, deprecated: None, anchor_attrs: vec![] }
}

fn strukt(name: &str, fields: Vec<FieldDefinition>, solana: bool) -> StructDefinition {
    let mut metadata = Metadata::default();
    metadata.solana = solana;
    StructDefinition {
        name: name.to_string(),
        generic_params: vec![],
        fields,
        metadata,
        visibility: Visibility::Public,
        module_segments: vec![],
    }
}

fn enm(name: &str, variants: Vec<EnumVariantDefinition>) -> EnumDefinition {
    EnumDefinition {
        name: name.to_string(),
        generic_params: vec![],
        variants,
        metadata: Metadata::default(),
        visibility: Visibility::Public,
        module_segments: vec![],
    }
}

fn unit(n: &str) -> EnumVariantDefinition {
    EnumVariantDefinition::Unit { name: n.to_string() }
}

#[test]
fn struct_changes_are_listed_added_removed_then_modified() {
    let s1 = strukt("Player", vec![field("id", prim("u64")), field("score", prim("u32")), field("old", prim("bool"))], false);
    let s2 = strukt(
        "Player",
        vec![field("id", prim("u64")), field("score", prim("u64")), field("items", TypeInfo::Array(Box::new(prim("u8"))))],
        true,
    );
    let mut changes = vec![];
    compare_structs(&s1, &s2, &mut changes);
    assert_eq!(
        changes,
        vec![
            "+ Added field: items (Vec<u8>)".to_string(),
            "- Removed field: old (bool)".to_string(),
            "~ Modified field: score (u32 → u64)".to_string(),
            "~ Solana attribute changed: false → true".to_string(),
        ]
    );
}

#[test]
fn changed_attributes_are_reported() {
    let s1 = strukt("A", vec![], false);
    let mut s2 = strukt("A", vec![], false);
    s2.metadata.attributes = vec!["account".to_string()];
    let mut changes = vec![];
    compare_structs(&s1, &s2, &mut changes);
    assert_eq!(changes, vec!["~ Attributes changed".to_string()]);
}

#[test]
fn enum_variant_changes_are_listed() {
    let e1 = enm("State", vec![unit("Idle"), unit("Gone"), EnumVariantDefinition::Tuple { name: "Moved".to_string(), types: vec![prim("u8")] }]);
    let e2 = enm("State", vec![unit("Idle"), unit("New"), EnumVariantDefinition::Tuple { name: "Moved".to_string(), types: vec![prim("u16")] }]);
    let mut changes = vec![];
    compare_enums(&e1, &e2, &mut changes);
    assert_eq!(
        changes,
        vec![
            "+ Added variant: New".to_string(),
            "- Removed variant: Gone".to_string(),
            "~ Modified variant: Moved".to_string(),
        ]
    );
}

#[test]
fn variants_compare_by_shape() {
    let a = EnumVariantDefinition::Struct { name: "X".to_string(), fields: vec![field("a", prim("u8"))] };
    let b = EnumVariantDefinition::Struct { name: "Y".to_string(), fields: vec![field("a", prim("u8"))] };
    let c = EnumVariantDefinition::Struct { name: "X".to_string(), fields: vec![field("b", prim("u8"))] };
    assert!(variants_equal(&a, &b));
    assert!(!variants_equal(&a, &c));
    assert!(!variants_equal(&a, &unit("X")));
    assert!(variants_equal(&unit("P"), &unit("Q")));
}

#[test]
fn kind_changes_and_aliases_are_reported() {
    let s = TypeDefinition::Struct(strukt("T", vec![], false));
    let e = TypeDefinition::Enum(enm("T", vec![]));
    let a = TypeDefinition::TypeAlias(TypeAliasDefinition {
        name: "T".to_string(),
        target: prim("u8"),
        visibility: Visibility::Public,
        module_segments: vec![],
    });
    assert_eq!(compare_types(&s, &e), vec!["Type changed from struct to enum".to_string()]);
    assert_eq!(compare_types(&a, &s), vec!["Type changed from type alias to struct".to_string()]);
    assert_eq!(compare_types(&a, &a), vec!["Type alias target may have changed".to_string()]);
    assert!(compare_types(&s, &s).is_empty());
}

#[test]
fn schemas_compare_by_definition_name() {
    let ir1 = vec![
        TypeDefinition::Struct(strukt("Keep", vec![field("a", prim("u8"))], false)),
        TypeDefinition::Struct(strukt("Drop", vec![], false)),
        TypeDefinition::Struct(strukt("Change", vec![field("a", prim("u8"))], false)),
    ];
    let ir2 = vec![
        TypeDefinition::Struct(strukt("Change", vec![field("a", prim("u16"))], false)),
        TypeDefinition::Struct(strukt("Keep", vec![field("a", prim("u8"))], false)),
        TypeDefinition::Enum(enm("Fresh", vec![unit("A")])),
    ];
    let cmp = compare_schemas(&ir1, &ir2);
    assert_eq!(cmp.added, vec!["Fresh".to_string()]);
    assert_eq!(cmp.removed, vec!["Drop".to_string()]);
    assert_eq!(
        cmp.modified,
        vec![("Change".to_string(), vec!["~ Modified field: a (u8 → u16)".to_string()])]
    );
    assert_eq!(cmp.total_changes(), 3);
}

#[test]
fn a_schema_compared_with_itself_has_no_changes() {
    let ir = vec![
        TypeDefinition::Struct(strukt("A", vec![field("x", prim("u8"))], true)),
        TypeDefinition::Enum(enm("B", vec![unit("P")])),
    ];
    let cmp = compare_schemas(&ir, &ir);
    assert_eq!(cmp.total_changes(), 0);
}
