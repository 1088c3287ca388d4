use lumos_core::ast::{Attribute, EnumDef, EnumVariant, FieldDef, Item, LumosFile, StructDef, TypeSpec};
use lumos_core::error::LumosError;
use lumos_core::lsp::completion::{detect_context, get_completions, CompletionContext, CompletionEntry};
use lumos_core::lsp::diagnostics::{analyze, analyze_parsed, clean_error_message, extract_location_from_error, DiagnosticLevel};
use lumos_core::lsp::formatting::FormattingHandler;
use lumos_core::lsp::hover::{get_hover, get_word_at_position};

fn labels(items: &[CompletionEntry]) -> Vec<String> {
    items.iter().map(|i| i.label.clone()).collect()
}

fn has(items: &[CompletionEntry], label: &str) -> bool {
    labels(items).iter().any(|l| l == label)
}

fn field(name: &str, ty: &str) -> FieldDef {
    FieldDef { name: name.to_string(), type_spec: TypeSpec::Primitive(ty.to_string()), optional: false, attributes: vec![] }
}

fn marker(name: &str) -> Attribute {
    Attribute { name: name.to_string(), value: None }
}

fn account(owner_type: &str) -> LumosFile {
    LumosFile {
        imports: vec![],
        items: vec![Item::Struct(StructDef {
            name: "Account".to_string(),
            attributes: vec![marker("solana")],
            fields: vec![field("owner", owner_type), field("balance", "u64")],
            version: None,
            public: false,
        })],
        modules: vec![],
        uses: vec![],
    }
}

// Completion

#[test]
fn test_completion_includes_solana_types() {
    let items = get_completions("struct Foo { x: ", 0, 16);
    assert!(has(&items, "PublicKey"));
    assert!(has(&items, "Signature"));
    assert!(has(&items, "Keypair"));
}

#[test]
fn test_completion_includes_primitives() {
    let items = get_completions("struct Foo { x: ", 0, 16);
    assert!(has(&items, "u64"));
    assert!(has(&items, "String"));
    assert!(has(&items, "bool"));
}

#[test]
fn test_completion_includes_attributes() {
    let items = get_completions("", 0, 0);
    assert!(has(&items, "#[solana]"));
    assert!(has(&items, "#[account]"));
    assert!(has(&items, "#[key]"));
}

#[test]
fn test_completion_includes_keywords() {
    let items = get_completions("", 0, 0);
    assert!(has(&items, "struct"));
    assert!(has(&items, "enum"));
}

#[test]
fn test_context_top_level() {
    let items = get_completions("", 0, 0);
    assert!(has(&items, "struct"));
    assert!(has(&items, "enum"));
    assert!(has(&items, "#[solana]"));
    assert!(!has(&items, "u64"));
    assert!(!has(&items, "PublicKey"));
}

#[test]
fn test_context_after_attribute_bracket() {
    let items = get_completions("#[", 0, 2);
    assert!(has(&items, "solana"));
    assert!(has(&items, "account"));
    assert!(has(&items, "key"));
    assert!(!has(&items, "struct"));
    assert!(!has(&items, "u64"));
}

#[test]
fn test_context_type_position() {
    let items = get_completions("struct User {\n    id: ", 1, 8);
    assert!(has(&items, "u64"));
    assert!(has(&items, "PublicKey"));
    assert!(has(&items, "Vec"));
    assert!(has(&items, "Option"));
    assert!(!has(&items, "struct"));
    assert!(!has(&items, "#[solana]"));
}

#[test]
fn test_context_enum_body() {
    let items = get_completions("enum State {\n    ", 1, 4);
    assert!(items.is_empty());
}

#[test]
fn contexts_are_told_apart() {
    assert_eq!(detect_context("", 3, 3), CompletionContext::TopLevel);
    assert_eq!(detect_context("struct A {\n}\n\n", 5, 0), CompletionContext::Generic);
    assert_eq!(detect_context("struct A {\n    x: u8 y\n}", 1, 11), CompletionContext::Generic);
    assert_eq!(detect_context("enum E {\n}\n", 1, 1), CompletionContext::Generic);
    let snippets: Vec<bool> = get_completions("#[", 0, 2).iter().map(|i| i.snippet).collect();
    assert_eq!(snippets, vec![false, false, false, true, false]);
}

// Diagnostics

#[test]
fn test_diagnostics_on_valid_schema() {
    let text = r#"
            #[solana]
            struct Account {
                owner: PublicKey,
                balance: u64,
            }
        "#;
    let diagnostics = analyze(text);
    assert!(diagnostics.is_empty(), "Valid schema should have no diagnostics");
    assert!(analyze_parsed(Ok(account("PublicKey"))).is_empty());
}

#[test]
fn test_diagnostics_on_syntax_error() {
    let text = r#"
            struct Account {
                invalid syntax here
            }
        "#;
    let diagnostics = analyze(text);
    assert!(!diagnostics.is_empty(), "Syntax error should produce diagnostics");
    assert_eq!(diagnostics[0].level, DiagnosticLevel::Error);
}

#[test]
fn test_diagnostics_on_undefined_type() {
    let text = r#"
            #[solana]
            struct Account {
                owner: UndefinedType,
            }
        "#;
    let diagnostics = analyze(text);
    assert_eq!(analyze_parsed(Ok(account("UndefinedType"))).len(), 1);
    assert!(!diagnostics.is_empty(), "Undefined type should produce diagnostics");
}

#[test]
fn test_extract_location_from_error() {
    let message = "Failed to parse at line 5, column 12";
    let (line, column) = extract_location_from_error(message);
    assert_eq!(line, 5);
    assert_eq!(column, 12);
}

#[test]
fn test_clean_error_message() {
    let message = "Undefined type 'Foo' at line 5, column 12";
    let cleaned = clean_error_message(message);
    assert_eq!(cleaned, "Undefined type 'Foo'");
}

#[test]
fn locations_default_to_the_first_line_and_column() {
    assert_eq!(extract_location_from_error("no location"), (1, 1));
    assert_eq!(extract_location_from_error("bad at line x, column 7th"), (1, 7));
    assert_eq!(extract_location_from_error("bad at line 3 column 7"), (1, 1));
    assert_eq!(clean_error_message("oops (at 4:5)"), "oops");
    let d = &analyze_parsed(Err(LumosError::CodeGen("gen at line 2, column 3".to_string())))[0];
    assert_eq!(d.level, DiagnosticLevel::Warning);
    assert_eq!((d.line, d.start_character, d.end_character), (1, 2, 12));
    assert_eq!(d.message, "Code generation error: gen");
    assert_eq!(d.source, "lumos");
}

// Formatting

#[test]
fn test_format_simple_struct() {
    let input = "#[solana]\nstruct PlayerAccount{\nwallet:PublicKey,\n    level: u16,\nexperience:u64,\n}";
    let ast = LumosFile {
        imports: vec![],
        items: vec![Item::Struct(StructDef {
            name: "PlayerAccount".to_string(),
            attributes: vec![marker("solana")],
            fields: vec![field("wallet", "PublicKey"), field("level", "u16"), field("experience", "u64")],
            version: None,
            public: false,
        })],
        modules: vec![],
        uses: vec![],
    };
    let formatter = FormattingHandler::new();
    let result = formatter.format_parsed(input.trim(), Ok(ast));

    assert!(result.is_ok());
    let edits = result.unwrap();
    assert_eq!(edits.len(), 1);

    let formatted = &edits[0].new_text;
    assert!(formatted.contains("struct PlayerAccount {"));
    assert!(formatted.contains("    wallet: PublicKey,"));
    assert!(formatted.contains("    level: u16,"));
    assert!(formatted.contains("    experience: u64,"));
}

#[test]
fn test_format_enum() {
    let input = "enum GameState{Active,Paused,Finished}";
    let ast = LumosFile {
        imports: vec![],
        items: vec![Item::Enum(EnumDef {
            name: "GameState".to_string(),
            attributes: vec![],
            variants: ["Active", "Paused", "Finished"]
                .iter()
                .map(|n| EnumVariant::Unit { name: n.to_string() })
                .collect(),
            version: None,
            public: false,
        })],
        modules: vec![],
        uses: vec![],
    };
    let formatter = FormattingHandler::new();
    let result = formatter.format_parsed(input, Ok(ast));

    assert!(result.is_ok());
    let edits = result.unwrap();
    assert_eq!(edits.len(), 1);

    let formatted = &edits[0].new_text;
    assert!(formatted.contains("enum GameState {"));
    assert!(formatted.contains("    Active,"));
    assert!(formatted.contains("    Paused,"));
    assert!(formatted.contains("    Finished,"));
}

#[test]
fn formatted_text_is_left_alone() {
    let input = "struct User {\n    id: u64,\n    name: String,\n}";
    let ast = LumosFile {
        imports: vec![],
        items: vec![Item::Struct(StructDef {
            name: "User".to_string(),
            attributes: vec![],
            fields: vec![field("id", "u64"), field("name", "String")],
            version: None,
            public: false,
        })],
        modules: vec![],
        uses: vec![],
    };
    let edits = FormattingHandler::default().format_parsed(input, Ok(ast)).unwrap();
    assert_eq!(edits.len(), 0);
}

#[test]
fn an_edit_spans_the_whole_document() {
    let input = "struct User{\nid:u64}";
    let ast = LumosFile {
        imports: vec![lumos_core::ast::Import { items: vec!["A".to_string(), "B".to_string()], path: "./t.lumos".to_string() }],
        items: vec![Item::Struct(StructDef {
            name: "User".to_string(),
            attributes: vec![],
            fields: vec![field("id", "u64")],
            version: None,
            public: false,
        })],
        modules: vec![],
        uses: vec![],
    };
    let edits = FormattingHandler::new().format_parsed(input, Ok(ast)).unwrap();
    assert_eq!((edits[0].end_line, edits[0].end_character), (1, 7));
    assert_eq!(edits[0].new_text, "use { A, B } from \"./t.lumos\";\n\nstruct User {\n    id: u64,\n}");
    let err = FormattingHandler::new().format_parsed(input, Err(LumosError::SchemaParse("bad".to_string()))).unwrap_err();
    assert_eq!(err, "Schema parsing error: bad");
}

// Hover

#[test]
fn test_hover_on_publickey() {
    let hover = get_hover("owner: PublicKey", 0, 10);
    assert!(hover.is_some());
    if let Some(content) = hover {
        assert!(content.contains("PublicKey"));
        assert!(content.contains("32 bytes"));
    }
}

#[test]
fn test_hover_on_u64() {
    let hover = get_hover("balance: u64", 0, 10);
    assert!(hover.is_some());
    if let Some(content) = hover {
        assert!(content.contains("u64"));
        assert!(content.contains("64-bit"));
    }
}

#[test]
fn test_get_word_at_position() {
    let text = "owner: PublicKey";
    let word = get_word_at_position(text, 0, 10);
    assert_eq!(word, Some("PublicKey".to_string()));

    let word = get_word_at_position(text, 0, 2);
    assert_eq!(word, Some("owner".to_string()));
}

#[test]
fn test_hover_on_unknown_word() {
    let hover = get_hover("foo: UnknownType", 0, 10);
    assert!(hover.is_none());
}

#[test]
fn words_stop_at_punctuation_and_line_ends() {
    assert_eq!(get_word_at_position("a: b\r\nmax_len: u8", 1, 3), Some("max_len".to_string()));
    assert_eq!(get_word_at_position("x: y", 0, 2), None);
    assert_eq!(get_word_at_position("x: y", 0, 9), None);
    assert_eq!(get_word_at_position("x: y", 4, 0), None);
}

#[test]
fn test_already_formatted() {
    let input = r#"pub struct User {
    id: u64,
    name: String,
}"#;
    let formatter = FormattingHandler::new();
    let result = formatter.format(input);
    assert!(result.is_ok());
    let edits = result.unwrap();
    assert_eq!(edits.len(), 0);
}

#[test]
fn modules_and_uses_are_formatted_before_definitions() {
    let input = "struct A { x: u8 }\npub   mod models;\nuse crate::models::User;";
    let edits = FormattingHandler::new()
        .format(input)
        .unwrap();
    assert_eq!(edits.len(), 1);
    assert_eq!(
        edits[0].new_text,
        "pub mod models;\n\nuse crate::models::User;\n\npub struct A {\n    x: u8,\n}"
    );
}
