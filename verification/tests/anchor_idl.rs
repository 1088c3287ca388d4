use lumos_core::anchor::idl::{calculate_type_size, to_snake_case, IdlEnumFields};
use lumos_core::anchor::{IdlGenerator, IdlGeneratorConfig, IdlType, IdlTypeDefTy};
use lumos_core::ir::{
    EnumDefinition, EnumVariantDefinition, FieldDefinition, Metadata, StructDefinition,
    TypeDefinition, TypeInfo, Visibility,
};

fn field(name: &str, ty: &str) -> FieldDefinition {
    FieldDefinition {
        name: name.to_string(),
        type_info: TypeInfo::Primitive(ty.to_string()),
        optional: false,
        deprecated: None,
        anchor_attrs: vec![],
    }
}

#[test]
fn test_to_snake_case() {
    assert_eq!(to_snake_case("PlayerAccount"), "player_account");
    assert_eq!(to_snake_case("MyProgram"), "my_program");
    assert_eq!(to_snake_case("NFTMarketplace"), "n_f_t_marketplace");
    assert_eq!(to_snake_case("already_snake"), "already_snake");
}

#[test]
fn test_generate_simple_idl() {
    let struct_def = StructDefinition {
        name: "PlayerAccount".to_string(),
        generic_params: vec![],
        fields: vec![
            field("authority", "PublicKey"),
            field("level", "u16"),
            field("experience", "u64"),
        ],
        metadata: Metadata {
            solana: true,
            attributes: vec!["account".to_string()],
            version: None,
            custom_derives: vec![],
            is_instruction: false,
            anchor_attrs: vec![],
        },
        visibility: Visibility::Public,
        module_segments: Vec::new(),
    };

    let config = IdlGeneratorConfig {
        program_name: "MyGame".to_string(),
        version: "0.1.0".to_string(),
        address: None,
    };

    let generator = IdlGenerator::new(config);
    let type_defs = vec![TypeDefinition::Struct(struct_def)];
    let idl = generator.generate(&type_defs);

    assert_eq!(idl.name, "my_game");
    assert_eq!(idl.version, "0.1.0");
    assert_eq!(idl.accounts.len(), 1);
    assert_eq!(idl.accounts[0].name, "PlayerAccount");
}

#[test]
fn test_calculate_account_space() {
    let struct_def = StructDefinition {
        name: "PlayerAccount".to_string(),
        generic_params: vec![],
        fields: vec![
            field("authority", "PublicKey"),
            field("level", "u16"),
            field("experience", "u64"),
        ],
        metadata: Metadata::default(),
        visibility: Visibility::Public,
        module_segments: Vec::new(),
    };

    let generator = IdlGenerator::new(IdlGeneratorConfig::default());
    let space = generator.calculate_account_space(&struct_def);

    // 8 (discriminator) + 32 (PublicKey) + 2 (u16) + 8 (u64) = 50
    assert_eq!(space, 50);
}

#[test]
fn test_convert_enum() {
    let enum_def = EnumDefinition {
        name: "GameState".to_string(),
        generic_params: vec![],
        variants: vec![
            EnumVariantDefinition::Unit { name: "Active".to_string() },
            EnumVariantDefinition::Unit { name: "Paused".to_string() },
            EnumVariantDefinition::Struct {
                name: "Finished".to_string(),
                fields: vec![field("winner", "PublicKey")],
            },
        ],
        metadata: Metadata::default(),
        visibility: Visibility::Public,
        module_segments: Vec::new(),
    };

    let config = IdlGeneratorConfig::default();
    let generator = IdlGenerator::new(config);
    let type_defs = vec![TypeDefinition::Enum(enum_def)];
    let idl = generator.generate(&type_defs);

    assert_eq!(idl.types.len(), 1);
    assert_eq!(idl.types[0].name, "GameState");

    if let IdlTypeDefTy::Enum { variants } = &idl.types[0].ty {
        assert_eq!(variants.len(), 3);
        assert_eq!(variants[0].name, "Active");
        assert!(variants[0].fields.is_none());
        assert_eq!(variants[2].name, "Finished");
        assert!(variants[2].fields.is_some());
    } else {
        panic!("Expected enum type");
    }
}

#[test]
fn test_type_conversion() {
    let generator = IdlGenerator::new(IdlGeneratorConfig::default());

    let pubkey = generator.convert_type(&TypeInfo::Primitive("PublicKey".to_string()));
    assert!(matches!(pubkey, IdlType::Primitive(s) if s == "publicKey"));

    let array = generator.convert_type(&TypeInfo::FixedArray {
        element: Box::new(TypeInfo::Primitive("u8".to_string())),
        size: 32,
    });
    assert!(matches!(array, IdlType::Array(_)));

    let option = generator.convert_type(&TypeInfo::Option(Box::new(TypeInfo::Primitive(
        "u64".to_string(),
    ))));
    assert!(matches!(option, IdlType::Option(_)));

    let vec = generator.convert_type(&TypeInfo::Array(Box::new(TypeInfo::Primitive(
        "u8".to_string(),
    ))));
    assert!(matches!(vec, IdlType::Vec(_)));
}

#[test]
fn test_generate_len_constant() {
    let struct_def = StructDefinition {
        name: "MyAccount".to_string(),
        generic_params: vec![],
        fields: vec![field("owner", "PublicKey"), field("amount", "u64")],
        metadata: Metadata::default(),
        visibility: Visibility::Public,
        module_segments: Vec::new(),
    };

    let generator = IdlGenerator::new(IdlGeneratorConfig::default());
    let len_const = generator.generate_len_constant(&struct_def);

    assert!(len_const.contains("impl MyAccount"));
    assert!(len_const.contains("pub const LEN: usize = 48"));
}

#[test]
fn snake_case_edge_cases() {
    assert_eq!(to_snake_case(""), "");
    assert_eq!(to_snake_case("A"), "a");
    assert_eq!(to_snake_case("_Private"), "private");
    assert_eq!(to_snake_case("my_Field"), "my_field");
}

#[test]
fn sizes_of_nested_and_optional_types() {
    let u8t = TypeInfo::Primitive("u8".to_string());
    assert_eq!(calculate_type_size(&TypeInfo::Primitive("Signature".to_string()), false), 64);
    assert_eq!(calculate_type_size(&TypeInfo::Primitive("string".to_string()), false), 4);
    assert_eq!(calculate_type_size(&u8t, true), 2);
    assert_eq!(
        calculate_type_size(&TypeInfo::FixedArray { element: Box::new(u8t.clone()), size: 32 }, false),
        32
    );
    assert_eq!(calculate_type_size(&TypeInfo::Array(Box::new(u8t.clone())), false), 5);
    assert_eq!(calculate_type_size(&TypeInfo::Option(Box::new(u8t.clone())), true), 2);
    assert_eq!(calculate_type_size(&TypeInfo::UserDefined("Other".to_string()), false), 0);
}

#[test]
fn optional_and_deprecated_fields_in_idl() {
    let s = StructDefinition {
        name: "Config".to_string(),
        generic_params: vec![],
        fields: vec![
            FieldDefinition {
                name: "maxSize".to_string(),
                type_info: TypeInfo::Primitive("u32".to_string()),
                optional: true,
                deprecated: Some("use limit".to_string()),
                anchor_attrs: vec![],
            },
            FieldDefinition {
                name: "owner".to_string(),
                type_info: TypeInfo::Option(Box::new(TypeInfo::Primitive("Pubkey".to_string()))),
                optional: true,
                deprecated: None,
                anchor_attrs: vec![],
            },
        ],
        metadata: Metadata::default(),
        visibility: Visibility::Public,
        module_segments: Vec::new(),
    };
    let alias = TypeDefinition::TypeAlias(lumos_core::ir::TypeAliasDefinition {
        name: "Id".to_string(),
        target: TypeInfo::Primitive("u64".to_string()),
        visibility: Visibility::Public,
        module_segments: Vec::new(),
    });
    let generator = IdlGenerator::new(IdlGeneratorConfig {
        program_name: "Cfg".to_string(),
        version: "1.0.0".to_string(),
        address: Some("Addr111".to_string()),
    });
    let idl = generator.generate(&vec![TypeDefinition::Struct(s), alias]);
    assert_eq!(idl.accounts.len(), 0);
    assert_eq!(idl.types.len(), 1);
    assert_eq!(idl.metadata.unwrap().address.unwrap(), "Addr111");
    if let IdlTypeDefTy::Struct { fields } = &idl.types[0].ty {
        assert_eq!(fields[0].name, "max_size");
        assert_eq!(fields[0].docs, vec!["@deprecated use limit".to_string()]);
        match &fields[0].ty {
            IdlType::Option(o) => assert!(matches!(&*o.option, IdlType::Primitive(p) if p == "u32")),
            _ => panic!("expected an option"),
        }
        match &fields[1].ty {
            IdlType::Option(o) => {
                assert!(matches!(&*o.option, IdlType::Primitive(p) if p == "publicKey"))
            }
            _ => panic!("expected an option"),
        }
    } else {
        panic!("expected a struct");
    }
    let _ = IdlEnumFields::Tuple(vec![]);
}
