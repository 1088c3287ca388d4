use lumos_core::ast::{AttributeValue, Item as AstItem, LumosFile};
use lumos_core::error::LumosError;
use lumos_core::parser::{
    parse_lumos_file, parse_source_file, SourceField, SourceFields, SourceItem, SourceLen,
    SourceMeta, SourceType,
    SourceValue, SourceVariant,
};

fn ty(name: &str) -> SourceType {
    SourceType::Path { last: Some(name.to_string()), first_arg: None }
}

fn field(name: &str, t: SourceType) -> SourceField {
    SourceField { name: Some(name.to_string()), attrs: vec![], ty: t }
}

fn marker(name: &str) -> SourceMeta {
    SourceMeta::Path(Some(name.to_string()))
}

fn list(name: &str, tokens: &str) -> SourceMeta {
    SourceMeta::List { name: Some(name.to_string()), tokens: tokens.to_string() }
}

fn version(v: &str) -> SourceMeta {
    SourceMeta::NameValue {
        name: Some("version".to_string()),
        value: SourceValue::Str(v.to_string()),
    }
}

fn strukt(name: &str, attrs: Vec<SourceMeta>, fields: Vec<SourceField>) -> SourceItem {
    SourceItem::Struct { name: name.to_string(), attrs, fields: SourceFields::Named(fields), public: true }
}

fn enm(name: &str, attrs: Vec<SourceMeta>, variants: &[&str]) -> SourceItem {
    let variants = variants
        .iter()
        .map(|v| SourceVariant { name: v.to_string(), fields: SourceFields::Unit })
        .collect();
    SourceItem::Enum { name: name.to_string(), attrs, variants, public: true }
}

fn parse(items: Vec<SourceItem>) -> Result<LumosFile, LumosError> {
    parse_source_file(vec![], &items)
}

fn derives_of(item: &AstItem) -> Vec<String> {
    let attr = match item {
        AstItem::Struct(s) => s.get_attribute("derive"),
        AstItem::Enum(e) => e.get_attribute("derive"),
        _ => None,
    };
    match &attr.expect("derive attribute").value {
        Some(AttributeValue::List(derives)) => derives.clone(),
        _ => panic!("Expected List attribute value"),
    }
}

#[test]
fn test_parse_simple_struct() {
    let result = parse(vec![strukt("User", vec![], vec![field("id", ty("u64")), field("name", ty("String"))])]);
    assert!(result.is_ok());

    let file = result.unwrap();
    assert_eq!(file.items.len(), 1);

    match &file.items[0] {
        AstItem::Struct(struct_def) => {
            assert_eq!(struct_def.name, "User");
            assert_eq!(struct_def.fields.len(), 2);
            assert_eq!(struct_def.fields[0].name, "id");
            assert_eq!(struct_def.fields[1].name, "name");
        }
        _ => panic!("Expected struct item"),
    }
}

#[test]
fn test_parse_with_attributes() {
    let result = parse(vec![strukt(
        "UserAccount",
        vec![marker("solana"), marker("account")],
        vec![
            SourceField { name: Some("wallet".to_string()), attrs: vec![marker("key")], ty: ty("PublicKey") },
            SourceField { name: Some("username".to_string()), attrs: vec![list("max", "32")], ty: ty("String") },
        ],
    )]);
    assert!(result.is_ok());

    let file = result.unwrap();
    match &file.items[0] {
        AstItem::Struct(struct_def) => {
            assert!(struct_def.has_attribute("solana"));
            assert!(struct_def.has_attribute("account"));
            assert_eq!(struct_def.fields[0].name, "wallet");
            assert!(struct_def.fields[0].has_attribute("key"));
        }
        _ => panic!("Expected struct item"),
    }
}

#[test]
fn test_parse_optional_type() {
    let option = SourceType::Path { last: Some("Option".to_string()), first_arg: Some(Box::new(ty("String"))) };
    let result = parse(vec![strukt("User", vec![], vec![field("email", option)])]);
    assert!(result.is_ok());

    let file = result.unwrap();
    match &file.items[0] {
        AstItem::Struct(struct_def) => {
            let field = &struct_def.fields[0];
            assert!(field.optional);
        }
        _ => panic!("Expected struct item"),
    }
}

#[test]
fn test_parse_array_type() {
    let result = parse(vec![strukt("Team", vec![], vec![field("members", SourceType::Slice(Box::new(ty("u64"))))])]);
    assert!(result.is_ok());

    let file = result.unwrap();
    match &file.items[0] {
        AstItem::Struct(struct_def) => {
            let field = &struct_def.fields[0];
            assert!(field.type_spec.is_array());
        }
        _ => panic!("Expected struct item"),
    }
}

#[test]
fn test_parse_struct_with_version() {
    let result = parse(vec![strukt(
        "PlayerAccount",
        vec![marker("solana"), version("1.0.0")],
        vec![field("wallet", ty("PublicKey")), field("level", ty("u16"))],
    )]);
    assert!(result.is_ok());

    let file = result.unwrap();
    match &file.items[0] {
        AstItem::Struct(struct_def) => {
            assert_eq!(struct_def.version, Some("1.0.0".to_string()));
        }
        _ => panic!("Expected struct item"),
    }
}

#[test]
fn test_parse_enum_with_version() {
    let result = parse(vec![enm(
        "GameState",
        vec![marker("solana"), version("2.1.3")],
        &["Active", "Paused", "Finished"],
    )]);
    assert!(result.is_ok());

    let file = result.unwrap();
    match &file.items[0] {
        AstItem::Enum(enum_def) => {
            assert_eq!(enum_def.version, Some("2.1.3".to_string()));
        }
        _ => panic!("Expected enum item"),
    }
}

#[test]
fn test_parse_struct_without_version() {
    let result = parse(vec![strukt("Account", vec![marker("solana")], vec![field("owner", ty("PublicKey"))])]);
    assert!(result.is_ok());

    let file = result.unwrap();
    match &file.items[0] {
        AstItem::Struct(struct_def) => {
            assert_eq!(struct_def.version, None);
        }
        _ => panic!("Expected struct item"),
    }
}

#[test]
fn test_parse_invalid_version_format() {
    let result = parse(vec![strukt(
        "Account",
        vec![marker("solana"), version("1.0")],
        vec![field("owner", ty("PublicKey"))],
    )]);
    assert!(result.is_err());

    if let Err(e) = result {
        assert!(e.to_display_string().contains("Invalid semantic version"));
    }
}

#[test]
fn test_parse_version_with_prerelease() {
    let result = parse(vec![strukt(
        "Account",
        vec![marker("solana"), version("1.0.0-beta.1")],
        vec![field("owner", ty("PublicKey"))],
    )]);
    assert!(result.is_ok());

    let file = result.unwrap();
    match &file.items[0] {
        AstItem::Struct(struct_def) => {
            assert_eq!(struct_def.version, Some("1.0.0-beta.1".to_string()));
        }
        _ => panic!("Expected struct item"),
    }
}

#[test]
fn test_parse_version_with_build_metadata() {
    let result = parse(vec![strukt(
        "Account",
        vec![marker("solana"), version("1.0.0+build.123")],
        vec![field("owner", ty("PublicKey"))],
    )]);
    assert!(result.is_ok());

    let file = result.unwrap();
    match &file.items[0] {
        AstItem::Struct(struct_def) => {
            assert_eq!(struct_def.version, Some("1.0.0+build.123".to_string()));
        }
        _ => panic!("Expected struct item"),
    }
}

#[test]
fn test_parse_single_derive() {
    let result = parse(vec![strukt("Account", vec![list("derive", "Debug")], vec![field("balance", ty("u64"))])]);
    assert!(result.is_ok());

    let file = result.unwrap();
    let derives = derives_of(&file.items[0]);
    assert_eq!(derives.len(), 1);
    assert_eq!(derives[0], "Debug");
}

#[test]
fn test_parse_multiple_derives() {
    let result = parse(vec![strukt(
        "Account",
        vec![list("derive", "Debug , Clone , PartialEq")],
        vec![field("balance", ty("u64"))],
    )]);
    assert!(result.is_ok());

    let file = result.unwrap();
    let derives = derives_of(&file.items[0]);
    assert_eq!(derives.len(), 3);
    assert_eq!(derives[0], "Debug");
    assert_eq!(derives[1], "Clone");
    assert_eq!(derives[2], "PartialEq");
}

#[test]
fn test_parse_derive_with_whitespace() {
    let result = parse(vec![strukt(
        "Account",
        vec![list("derive", "  Debug  ,  Clone  ,  PartialEq  ")],
        vec![field("balance", ty("u64"))],
    )]);
    assert!(result.is_ok());

    let file = result.unwrap();
    let derives = derives_of(&file.items[0]);
    assert_eq!(derives.len(), 3);
    assert_eq!(derives[0], "Debug");
    assert_eq!(derives[1], "Clone");
    assert_eq!(derives[2], "PartialEq");
}

#[test]
fn test_parse_derive_on_enum() {
    let result = parse(vec![enm(
        "GameState",
        vec![list("derive", "Debug , Clone , PartialEq , Eq , Hash")],
        &["Active", "Paused"],
    )]);
    assert!(result.is_ok());

    let file = result.unwrap();
    match &file.items[0] {
        AstItem::Enum(_) => {}
        _ => panic!("Expected enum item"),
    }
    let derives = derives_of(&file.items[0]);
    assert_eq!(derives.len(), 5);
    assert_eq!(derives[0], "Debug");
    assert_eq!(derives[1], "Clone");
    assert_eq!(derives[2], "PartialEq");
    assert_eq!(derives[3], "Eq");
    assert_eq!(derives[4], "Hash");
}

#[test]
fn test_parse_derive_with_solana_attributes() {
    let result = parse(vec![strukt(
        "UserAccount",
        vec![marker("solana"), marker("account"), list("derive", "PartialEq , Eq")],
        vec![field("wallet", ty("PublicKey")), field("balance", ty("u64"))],
    )]);
    assert!(result.is_ok());

    let file = result.unwrap();
    match &file.items[0] {
        AstItem::Struct(struct_def) => {
            assert!(struct_def.has_attribute("solana"));
            assert!(struct_def.has_attribute("account"));
            assert!(struct_def.has_attribute("derive"));
        }
        _ => panic!("Expected struct item"),
    }
    let derives = derives_of(&file.items[0]);
    assert_eq!(derives.len(), 2);
    assert_eq!(derives[0], "PartialEq");
    assert_eq!(derives[1], "Eq");
}

#[test]
fn fixed_arrays_keep_their_size() {
    let arr = SourceType::Array { elem: Box::new(ty("u8")), len: SourceLen::Int(Ok(32)) };
    let file = parse(vec![strukt("Key", vec![], vec![field("bytes", arr)])]).unwrap();
    match &file.items[0] {
        AstItem::Struct(s) => match &s.fields[0].type_spec {
            lumos_core::ast::TypeSpec::FixedArray { size, .. } => assert_eq!(*size, 32),
            other => panic!("unexpected {:?}", other),
        },
        _ => panic!("Expected struct item"),
    }
}

#[test]
fn a_tuple_struct_is_refused() {
    let items = vec![SourceItem::Struct {
        name: "Pair".to_string(),
        attrs: vec![],
        fields: SourceFields::Unnamed(vec![SourceField { name: None, attrs: vec![], ty: ty("u8") }]),
        public: true,
    }];
    assert!(parse_source_file(vec![], &items).is_err());
}

#[test]
fn imports_are_taken_out_of_the_text() {
    let (imports, rest) =
        lumos_core::parser::extract_imports("import { A, B } from \"./t.lumos\";\nstruct X { a: u8 }").unwrap();
    assert_eq!(imports.len(), 1);
    assert_eq!(imports[0].items, vec!["A".to_string(), "B".to_string()]);
    assert_eq!(imports[0].path, "./t.lumos");
    assert!(!rest.contains("import"));
    assert!(rest.contains("struct X"));
    let err = lumos_core::parser::extract_imports("import { , } from \"x\";").unwrap_err();
    assert_eq!(err, LumosError::SchemaParse("Empty import list".to_string()));
}

#[test]
fn captured_import_groups_become_imports() {
    let caps = vec![
        (" UserId,\n  Timestamp ,".to_string(), "./types.lumos".to_string()),
        ("Config".to_string(), "../common".to_string()),
    ];
    let imports = lumos_core::parser::imports_from_captures(&caps).unwrap();
    assert_eq!(imports[0].items, vec!["UserId".to_string(), "Timestamp".to_string()]);
    assert_eq!(imports[1].items, vec!["Config".to_string()]);
    assert_eq!(imports[1].path, "../common");
}

#[test]
fn schema_text_is_read_whole() {
    let text = r#"
        import { UserId } from "./types";

        #[solana]
        #[account]
        struct PlayerAccount {
            wallet: PublicKey,
            level: u16,
            items: Vec<u64>,
            nickname: Option<String>,
        }

        type Score = u64;

        fn ignored() {}
    "#;
    let file = parse_lumos_file(text).expect("parses");
    assert_eq!(file.imports.len(), 1);
    assert_eq!(file.imports[0].items, vec!["UserId".to_string()]);
    assert_eq!(file.items.len(), 2);
    match &file.items[0] {
        AstItem::Struct(s) => {
            assert_eq!(s.name, "PlayerAccount");
            assert_eq!(s.fields.len(), 4);
            assert!(s.fields[3].optional);
            assert_eq!(s.attributes.len(), 2);
        }
        _ => panic!("Expected struct"),
    }
    assert!(matches!(&file.items[1], AstItem::TypeAlias(a) if a.name == "Score"));
}

#[test]
fn schema_text_errors_are_reported() {
    match parse_lumos_file("struct {") {
        Err(LumosError::SchemaParse(m)) => assert!(m.starts_with("Failed to parse .lumos file: ")),
        other => panic!("unexpected {:?}", other),
    }
    match parse_lumos_file("fn main() {}") {
        Err(LumosError::SchemaParse(m)) => {
            assert_eq!(m, "No type definitions or imports found in .lumos file")
        }
        other => panic!("unexpected {:?}", other),
    }
    match parse_lumos_file("struct A { #[max(\")] x: u8 }") {
        Err(LumosError::SchemaParse(m)) => assert!(m.starts_with("Failed to parse .lumos file: ")),
        other => panic!("unexpected {:?}", other),
    }
}
