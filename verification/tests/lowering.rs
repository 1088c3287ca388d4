use lumos_core::anchor::{
    generate_accounts_context, parse_anchor_attrs, AnchorAccountType, InstructionAccount,
    InstructionContext,
};
use lumos_core::ast::LumosFile;
use lumos_core::error::LumosError;
use lumos_core::ir::{EnumVariantDefinition, TypeDefinition, TypeInfo};
use lumos_core::parser::{
    parse_source_file, SourceField, SourceFields, SourceItem, SourceMeta, SourceType,
    SourceVariant,
};
use lumos_core::transform::{transform_to_ir, transform_to_ir_with_resolver, TypeAliasResolver};
use lumos_core::ast::TypeSpec;

// Builders for schemas as the Rust-syntax reader hands them over.

fn ty(name: &str) -> SourceType {
    SourceType::Path { last: Some(name.to_string()), first_arg: None }
}

fn option_of(inner: SourceType) -> SourceType {
    SourceType::Path { last: Some("Option".to_string()), first_arg: Some(Box::new(inner)) }
}

fn slice_of(inner: SourceType) -> SourceType {
    SourceType::Slice(Box::new(inner))
}

fn field(name: &str, t: SourceType) -> SourceField {
    SourceField { name: Some(name.to_string()), attrs: vec![], ty: t }
}

fn field_with(name: &str, attrs: Vec<SourceMeta>, t: SourceType) -> SourceField {
    SourceField { name: Some(name.to_string()), attrs, ty: t }
}

fn marker(name: &str) -> SourceMeta {
    SourceMeta::Path(Some(name.to_string()))
}

fn list(name: &str, tokens: &str) -> SourceMeta {
    SourceMeta::List { name: Some(name.to_string()), tokens: tokens.to_string() }
}

fn strukt(name: &str, attrs: Vec<SourceMeta>, fields: Vec<SourceField>) -> SourceItem {
    SourceItem::Struct { name: name.to_string(), attrs, fields: SourceFields::Named(fields), public: true }
}

fn enm(name: &str, attrs: Vec<SourceMeta>, variants: Vec<SourceVariant>) -> SourceItem {
    SourceItem::Enum { name: name.to_string(), attrs, variants, public: true }
}

fn unit(name: &str) -> SourceVariant {
    SourceVariant { name: name.to_string(), fields: SourceFields::Unit }
}

fn tuple(name: &str, types: Vec<SourceType>) -> SourceVariant {
    let fields = types.into_iter().map(|t| SourceField { name: None, attrs: vec![], ty: t }).collect();
    SourceVariant { name: name.to_string(), fields: SourceFields::Unnamed(fields) }
}

fn record(name: &str, fields: Vec<SourceField>) -> SourceVariant {
    SourceVariant { name: name.to_string(), fields: SourceFields::Named(fields) }
}

fn schema(items: Vec<SourceItem>) -> LumosFile {
    parse_source_file(vec![], &items).unwrap()
}

#[test]
fn test_transform_simple_struct() {
    let ast = schema(vec![strukt("User", vec![], vec![field("id", ty("u64")), field("name", ty("String"))])]);
    let ir = transform_to_ir(ast).unwrap();

    assert_eq!(ir.len(), 1);
    match &ir[0] {
        TypeDefinition::Struct(s) => {
            assert_eq!(s.name, "User");
            assert_eq!(s.fields.len(), 2);
        }
        _ => panic!("Expected struct type definition"),
    }
}

#[test]
fn test_transform_with_type_aliases() {
    let ast = schema(vec![strukt(
        "Product",
        vec![],
        vec![field("price", ty("number")), field("name", ty("string")), field("available", ty("boolean"))],
    )]);
    let ir = transform_to_ir(ast).unwrap();

    match &ir[0] {
        TypeDefinition::Struct(s) => {
            let fields = &s.fields;
            assert!(matches!(fields[0].type_info, TypeInfo::Primitive(ref t) if t == "u64"));
            assert!(matches!(fields[1].type_info, TypeInfo::Primitive(ref t) if t == "String"));
            assert!(matches!(fields[2].type_info, TypeInfo::Primitive(ref t) if t == "bool"));
        }
        _ => panic!("Expected struct type definition"),
    }
}

#[test]
fn test_transform_optional_field() {
    let ast = schema(vec![strukt("User", vec![], vec![field("email", option_of(ty("String")))])]);
    let ir = transform_to_ir(ast).unwrap();

    match &ir[0] {
        TypeDefinition::Struct(s) => {
            let field = &s.fields[0];
            assert!(field.optional);
            assert!(matches!(field.type_info, TypeInfo::Option(_)));
        }
        _ => panic!("Expected struct type definition"),
    }
}

#[test]
fn test_transform_array_type() {
    let ast = schema(vec![strukt("Team", vec![], vec![field("members", slice_of(ty("u64")))])]);
    let ir = transform_to_ir(ast).unwrap();

    match &ir[0] {
        TypeDefinition::Struct(s) => {
            let field = &s.fields[0];
            assert!(matches!(field.type_info, TypeInfo::Array(_)));
        }
        _ => panic!("Expected struct type definition"),
    }
}

#[test]
fn test_transform_solana_metadata() {
    let ast = schema(vec![strukt(
        "UserAccount",
        vec![marker("solana"), marker("account")],
        vec![field("wallet", ty("PublicKey"))],
    )]);
    let ir = transform_to_ir(ast).unwrap();

    match &ir[0] {
        TypeDefinition::Struct(s) => {
            assert!(s.metadata.solana);
            assert!(s.metadata.attributes.contains(&"account".to_string()));
        }
        _ => panic!("Expected struct type definition"),
    }
}

#[test]
fn test_transform_unit_enum() {
    let ast = schema(vec![enm(
        "GameState",
        vec![marker("solana")],
        vec![unit("Inactive"), unit("Active"), unit("Paused"), unit("Finished")],
    )]);
    let ir = transform_to_ir(ast).unwrap();

    assert_eq!(ir.len(), 1);
    match &ir[0] {
        TypeDefinition::Enum(e) => {
            assert_eq!(e.name, "GameState");
            assert_eq!(e.variants.len(), 4);
            assert!(e.metadata.solana);
            assert!(e.is_unit_only());

            assert_eq!(e.variants[0].name(), "Inactive");
            assert_eq!(e.variants[1].name(), "Active");
            assert_eq!(e.variants[2].name(), "Paused");
            assert_eq!(e.variants[3].name(), "Finished");
        }
        _ => panic!("Expected enum type definition"),
    }
}

#[test]
fn test_transform_tuple_enum() {
    let ast = schema(vec![enm(
        "GameEvent",
        vec![],
        vec![
            tuple("PlayerJoined", vec![ty("PublicKey")]),
            tuple("ScoreUpdated", vec![ty("PublicKey"), ty("u64")]),
        ],
    )]);
    let ir = transform_to_ir(ast).unwrap();

    assert_eq!(ir.len(), 1);
    match &ir[0] {
        TypeDefinition::Enum(e) => {
            assert_eq!(e.name, "GameEvent");
            assert_eq!(e.variants.len(), 2);
            assert!(e.has_tuple_variants());

            match &e.variants[0] {
                EnumVariantDefinition::Tuple { name, types } => {
                    assert_eq!(name, "PlayerJoined");
                    assert_eq!(types.len(), 1);
                }
                _ => panic!("Expected tuple variant"),
            }

            match &e.variants[1] {
                EnumVariantDefinition::Tuple { name, types } => {
                    assert_eq!(name, "ScoreUpdated");
                    assert_eq!(types.len(), 2);
                }
                _ => panic!("Expected tuple variant"),
            }
        }
        _ => panic!("Expected enum type definition"),
    }
}

#[test]
fn test_transform_struct_enum() {
    let ast = schema(vec![enm(
        "GameInstruction",
        vec![],
        vec![
            record("Initialize", vec![field("authority", ty("PublicKey")), field("max_players", ty("u8"))]),
            unit("Terminate"),
        ],
    )]);
    let ir = transform_to_ir(ast).unwrap();

    assert_eq!(ir.len(), 1);
    match &ir[0] {
        TypeDefinition::Enum(e) => {
            assert_eq!(e.name, "GameInstruction");
            assert_eq!(e.variants.len(), 2);
            assert!(e.has_struct_variants());

            match &e.variants[0] {
                EnumVariantDefinition::Struct { name, fields } => {
                    assert_eq!(name, "Initialize");
                    assert_eq!(fields.len(), 2);
                    assert_eq!(fields[0].name, "authority");
                    assert_eq!(fields[1].name, "max_players");
                }
                _ => panic!("Expected struct variant"),
            }

            match &e.variants[1] {
                EnumVariantDefinition::Unit { name } => {
                    assert_eq!(name, "Terminate");
                }
                _ => panic!("Expected unit variant"),
            }
        }
        _ => panic!("Expected enum type definition"),
    }
}

#[test]
fn test_validate_undefined_type_in_struct() {
    let ast = schema(vec![strukt("Player", vec![], vec![field("inventory", ty("UndefinedType"))])]);
    let result = transform_to_ir(ast);

    assert!(result.is_err());
    let err = result.unwrap_err();
    assert!(matches!(err, LumosError::TypeValidation(_)));
    assert!(err.to_display_string().contains("Undefined type 'UndefinedType'"));
    assert!(err.to_display_string().contains("Player.inventory"));
}

#[test]
fn test_validate_undefined_type_in_array() {
    let ast = schema(vec![strukt("Inventory", vec![], vec![field("items", slice_of(ty("MissingItem")))])]);
    let result = transform_to_ir(ast);

    assert!(result.is_err());
    let err = result.unwrap_err();
    assert!(err.to_display_string().contains("Undefined type 'MissingItem'"));
}

#[test]
fn test_validate_undefined_type_in_option() {
    let ast = schema(vec![strukt(
        "User",
        vec![],
        vec![field("profile", option_of(ty("NonexistentProfile")))],
    )]);
    let result = transform_to_ir(ast);

    assert!(result.is_err());
    let err = result.unwrap_err();
    assert!(err.to_display_string().contains("Undefined type 'NonexistentProfile'"));
}

#[test]
fn test_validate_undefined_type_in_enum_tuple_variant() {
    let ast = schema(vec![enm("GameEvent", vec![], vec![tuple("PlayerJoined", vec![ty("UndefinedPlayer")])])]);
    let result = transform_to_ir(ast);

    assert!(result.is_err());
    let err = result.unwrap_err();
    assert!(err.to_display_string().contains("Undefined type 'UndefinedPlayer'"));
}

#[test]
fn test_validate_undefined_type_in_enum_struct_variant() {
    let ast = schema(vec![enm(
        "Instruction",
        vec![],
        vec![record("Initialize", vec![field("config", ty("MissingConfig"))])],
    )]);
    let result = transform_to_ir(ast);

    assert!(result.is_err());
    let err = result.unwrap_err();
    assert!(err.to_display_string().contains("Undefined type 'MissingConfig'"));
}

#[test]
fn test_validate_valid_user_defined_types() {
    let ast = schema(vec![
        strukt("Item", vec![], vec![field("id", ty("u64")), field("name", ty("String"))]),
        strukt(
            "Inventory",
            vec![],
            vec![field("items", slice_of(ty("Item"))), field("selected", option_of(ty("Item")))],
        ),
        enm(
            "GameState",
            vec![],
            vec![record("Playing", vec![field("inventory", ty("Inventory"))]), unit("GameOver")],
        ),
    ]);
    let result = transform_to_ir(ast);

    assert!(result.is_ok());
    let ir = result.unwrap();
    assert_eq!(ir.len(), 3);
}

#[test]
fn test_validate_nested_user_defined_types() {
    let ast = schema(vec![
        strukt("Inner", vec![], vec![field("value", ty("u64"))]),
        strukt("Middle", vec![], vec![field("inner", ty("Inner"))]),
        strukt("Outer", vec![], vec![field("middle", slice_of(ty("Middle")))]),
    ]);
    let result = transform_to_ir(ast);

    assert!(result.is_ok());
}

#[test]
fn test_validate_primitive_types_always_valid() {
    let names = [
        ("a", "u8"),
        ("b", "u16"),
        ("c", "u32"),
        ("d", "u64"),
        ("e", "u128"),
        ("f", "i8"),
        ("g", "i16"),
        ("h", "i32"),
        ("i", "i64"),
        ("j", "i128"),
        ("k", "bool"),
        ("l", "String"),
        ("m", "PublicKey"),
        ("n", "Signature"),
    ];
    let fields = names.iter().map(|(f, t)| field(f, ty(t))).collect();
    let ast = schema(vec![strukt("AllPrimitives", vec![], fields)]);
    let result = transform_to_ir(ast);

    assert!(result.is_ok());
}

#[test]
fn test_deprecated_field_without_message() {
    let ast = schema(vec![strukt(
        "User",
        vec![],
        vec![field("name", ty("String")), field_with("old_field", vec![marker("deprecated")], ty("u64"))],
    )]);
    let ir = transform_to_ir(ast).unwrap();

    if let TypeDefinition::Struct(s) = &ir[0] {
        assert_eq!(s.fields.len(), 2);
        assert_eq!(s.fields[0].deprecated, None);
        assert_eq!(s.fields[1].deprecated, Some("This field is deprecated".to_string()));
    } else {
        panic!("Expected struct definition");
    }
}

#[test]
fn test_deprecated_field_with_message() {
    let ast = schema(vec![strukt(
        "Account",
        vec![],
        vec![
            field("balance", ty("u64")),
            field_with(
                "email",
                vec![list("deprecated", "\"Use new_email field instead\"")],
                ty("String"),
            ),
            field("new_email", option_of(ty("String"))),
        ],
    )]);
    let ir = transform_to_ir(ast).unwrap();

    if let TypeDefinition::Struct(s) = &ir[0] {
        assert_eq!(s.fields.len(), 3);
        assert_eq!(s.fields[0].deprecated, None);
        assert_eq!(s.fields[1].deprecated, Some("Use new_email field instead".to_string()));
        assert_eq!(s.fields[2].deprecated, None);
    } else {
        panic!("Expected struct definition");
    }
}

#[test]
fn test_deprecated_field_in_enum_variant() {
    let ast = schema(vec![enm(
        "Instruction",
        vec![marker("solana")],
        vec![record(
            "Initialize",
            vec![
                field("authority", ty("PublicKey")),
                field_with("old_param", vec![marker("deprecated")], ty("u64")),
            ],
        )],
    )]);
    let ir = transform_to_ir(ast).unwrap();

    if let TypeDefinition::Enum(e) = &ir[0] {
        if let EnumVariantDefinition::Struct { fields, .. } = &e.variants[0] {
            assert_eq!(fields.len(), 2);
            assert_eq!(fields[0].deprecated, None);
            assert_eq!(fields[1].deprecated, Some("This field is deprecated".to_string()));
        } else {
            panic!("Expected struct variant");
        }
    } else {
        panic!("Expected enum definition");
    }
}

#[test]
fn test_custom_derives_on_struct() {
    let ast = schema(vec![strukt(
        "Account",
        vec![list("derive", "PartialEq , Eq , Hash")],
        vec![field("balance", ty("u64"))],
    )]);
    let ir = transform_to_ir(ast).unwrap();

    if let TypeDefinition::Struct(s) = &ir[0] {
        assert_eq!(s.metadata.custom_derives.len(), 3);
        assert_eq!(s.metadata.custom_derives[0], "PartialEq");
        assert_eq!(s.metadata.custom_derives[1], "Eq");
        assert_eq!(s.metadata.custom_derives[2], "Hash");
    } else {
        panic!("Expected struct definition");
    }
}

#[test]
fn test_custom_derives_on_enum() {
    let ast = schema(vec![enm(
        "GameState",
        vec![list("derive", "PartialEq , Eq")],
        vec![unit("Active"), unit("Paused")],
    )]);
    let ir = transform_to_ir(ast).unwrap();

    if let TypeDefinition::Enum(e) = &ir[0] {
        assert_eq!(e.metadata.custom_derives.len(), 2);
        assert_eq!(e.metadata.custom_derives[0], "PartialEq");
        assert_eq!(e.metadata.custom_derives[1], "Eq");
    } else {
        panic!("Expected enum definition");
    }
}

#[test]
fn test_custom_derives_with_solana_attrs() {
    let ast = schema(vec![strukt(
        "UserAccount",
        vec![marker("solana"), list("derive", "PartialEq , Eq , Hash")],
        vec![field("wallet", ty("PublicKey")), field("balance", ty("u64"))],
    )]);
    let ir = transform_to_ir(ast).unwrap();

    if let TypeDefinition::Struct(s) = &ir[0] {
        assert!(s.metadata.solana);
        assert_eq!(s.metadata.custom_derives.len(), 3);
        assert_eq!(s.metadata.custom_derives[0], "PartialEq");
        assert_eq!(s.metadata.custom_derives[1], "Eq");
        assert_eq!(s.metadata.custom_derives[2], "Hash");
    } else {
        panic!("Expected struct definition");
    }
}

#[test]
fn test_no_custom_derives() {
    let ast = schema(vec![strukt("Account", vec![marker("solana")], vec![field("balance", ty("u64"))])]);
    let ir = transform_to_ir(ast).unwrap();

    if let TypeDefinition::Struct(s) = &ir[0] {
        assert_eq!(s.metadata.custom_derives.len(), 0);
    } else {
        panic!("Expected struct definition");
    }
}

// Aliases in a file.

#[test]
fn aliases_in_a_file_are_resolved_into_fields() {
    let ast = schema(vec![
        SourceItem::Type { name: "Amount".to_string(), ty: ty("number"), public: true },
        SourceItem::Type { name: "Balances".to_string(), ty: slice_of(ty("Amount")), public: true },
        strukt("Wallet", vec![], vec![field("balances", ty("Balances")), field("spare", option_of(ty("Amount")))]),
    ]);
    let ir = transform_to_ir(ast).unwrap();
    assert_eq!(ir.len(), 3);
    match &ir[1] {
        TypeDefinition::TypeAlias(a) => {
            assert_eq!(a.name, "Balances");
            assert_eq!(a.target, TypeInfo::Array(Box::new(TypeInfo::Primitive("u64".to_string()))));
        }
        _ => panic!("Expected alias"),
    }
    match &ir[2] {
        TypeDefinition::Struct(s) => {
            assert_eq!(
                s.fields[0].type_info,
                TypeInfo::Array(Box::new(TypeInfo::Primitive("u64".to_string())))
            );
            assert_eq!(
                s.fields[1].type_info,
                TypeInfo::Option(Box::new(TypeInfo::Primitive("u64".to_string())))
            );
        }
        _ => panic!("Expected struct"),
    }
}

#[test]
fn an_alias_defined_twice_is_refused() {
    let ast = schema(vec![
        SourceItem::Type { name: "Id".to_string(), ty: ty("u64"), public: true },
        SourceItem::Type { name: "Id".to_string(), ty: ty("u32"), public: true },
    ]);
    let err = transform_to_ir(ast).unwrap_err();
    assert_eq!(err, LumosError::Transform("Duplicate type alias definition: Id".to_string()));
}

#[test]
fn a_cycle_of_aliases_is_refused() {
    let ast = schema(vec![
        SourceItem::Type { name: "A".to_string(), ty: ty("B"), public: true },
        SourceItem::Type { name: "B".to_string(), ty: slice_of(ty("A")), public: true },
    ]);
    let err = transform_to_ir(ast).unwrap_err();
    let text = err.to_display_string();
    assert!(text.starts_with("Circular type alias detected: "));
}

#[test]
fn an_alias_the_resolver_lacks_is_reported() {
    let ast = schema(vec![SourceItem::Type { name: "Score".to_string(), ty: ty("u64"), public: true }]);
    let resolver = TypeAliasResolver::new();
    let err = transform_to_ir_with_resolver(ast, &resolver).unwrap_err();
    assert_eq!(err, LumosError::Transform("Type alias 'Score' was not resolved".to_string()));
}

#[test]
fn a_shared_resolver_serves_another_file() {
    let mut resolver = TypeAliasResolver::new();
    resolver.add_alias("Points".to_string(), TypeSpec::Primitive("u32".to_string())).unwrap();
    resolver.resolve_all_aliases().unwrap();
    let ast = schema(vec![strukt("Score", vec![], vec![field("points", ty("Points"))])]);
    let ir = transform_to_ir_with_resolver(ast, &resolver).unwrap();
    match &ir[0] {
        TypeDefinition::Struct(s) => {
            assert_eq!(s.fields[0].type_info, TypeInfo::Primitive("u32".to_string()));
        }
        _ => panic!("Expected struct"),
    }
}

#[test]
fn validation_can_be_left_to_a_later_pass() {
    let ast = schema(vec![strukt("Holder", vec![], vec![field("other", ty("Elsewhere"))])]);
    let resolver = TypeAliasResolver::new();
    let ir = lumos_core::transform::transform_to_ir_with_resolver_no_validation(ast, &resolver).unwrap();
    assert_eq!(ir.len(), 1);
}

#[test]
fn test_e2e_instruction_context_generation() {
    let ast = schema(vec![
        strukt(
            "InitializeVault",
            vec![marker("solana"), marker("instruction")],
            vec![
                field_with(
                    "vault",
                    vec![list("anchor", "init , payer = authority , space = 8 + 64")],
                    ty("VaultAccount"),
                ),
                field_with("authority", vec![list("anchor", "mut")], ty("Signer")),
                field("system_program", ty("SystemProgram")),
            ],
        ),
        strukt(
            "VaultAccount",
            vec![marker("solana"), marker("account")],
            vec![field("owner", ty("PublicKey")), field("balance", ty("u64"))],
        ),
        strukt("Signer", vec![marker("solana")], vec![]),
        strukt("SystemProgram", vec![marker("solana")], vec![]),
    ]);

    let ir = transform_to_ir(ast).expect("Failed to transform");

    let init_vault = ir
        .iter()
        .find(|t| t.name() == "InitializeVault")
        .expect("InitializeVault not found");

    if let TypeDefinition::Struct(s) = init_vault {
        assert!(s.metadata.is_instruction, "Should be marked as instruction");

        let mut accounts = Vec::new();
        for field in &s.fields {
            let mut attrs = Vec::new();
            for attr_str in &field.anchor_attrs {
                attrs.extend(parse_anchor_attrs(attr_str));
            }
            let account_type = match field.type_info {
                TypeInfo::UserDefined(ref name) => match name.as_str() {
                    "Signer" => AnchorAccountType::Signer,
                    "SystemProgram" => AnchorAccountType::Program("System".to_string()),
                    _ => AnchorAccountType::Account(name.clone()),
                },
                _ => AnchorAccountType::AccountInfo,
            };
            accounts.push(InstructionAccount {
                name: field.name.clone(),
                account_type,
                attrs,
                optional: field.optional,
                docs: vec![],
            });
        }

        let ctx = InstructionContext { name: s.name.clone(), accounts, args: vec![] };
        let generated = generate_accounts_context(&ctx);

        assert!(generated.contains("#[derive(Accounts)]"), "Should have Accounts derive");
        assert!(
            generated.contains("pub struct InitializeVault<'info>"),
            "Should have struct with lifetime"
        );
        assert!(
            generated.contains("pub vault: Account<'info, VaultAccount>"),
            "Should have vault field"
        );
        assert!(
            generated.contains("pub authority: Signer<'info>"),
            "Should have authority as Signer"
        );
        assert!(
            generated.contains("pub system_program: Program<'info, System>"),
            "Should have system_program"
        );
        assert!(generated.contains("#[account(init"), "Should have init attribute");
        assert!(generated.contains("payer = authority"), "Should have payer attribute");
        assert!(generated.contains("space = 8 + 64"), "Should have space attribute");
    } else {
        panic!("Expected struct");
    }
}

#[test]
fn anchor_attributes_and_instruction_marker_reach_the_ir() {
    let ast = schema(vec![
        strukt(
            "Ctx",
            vec![marker("instruction")],
            vec![
                field_with("a", vec![list("anchor", "mut"), marker("deprecated")], ty("u8")),
                field("b", ty("u8")),
            ],
        ),
        strukt("Plain", vec![], vec![field("c", ty("u8"))]),
    ]);
    let ir = transform_to_ir(ast).unwrap();
    match (&ir[0], &ir[1]) {
        (TypeDefinition::Struct(ctx), TypeDefinition::Struct(plain)) => {
            assert!(ctx.metadata.is_instruction);
            assert!(!plain.metadata.is_instruction);
            assert_eq!(ctx.fields[0].anchor_attrs, vec!["mut".to_string()]);
            assert!(ctx.fields[1].anchor_attrs.is_empty());
            assert!(plain.fields[0].anchor_attrs.is_empty());
        }
        _ => panic!("Expected two structs"),
    }
}
