use lumos_core::generation::{
    debounce_ms, has_account_attrs, parse_target, without_account_attrs, TargetMode,
};
use lumos_core::generators::typescript;
use lumos_core::generators::{
    get_generator, get_generators, try_get_generator, CodeGenerator, Language, RustGenerator,
    TypeScriptGenerator,
};
use lumos_core::ir::{Metadata, StructDefinition, TypeDefinition, Visibility};

#[test]
fn test_language_from_name() {
    assert_eq!(Language::from_name("rust"), Some(Language::Rust));
    assert_eq!(Language::from_name("RS"), Some(Language::Rust));
    assert_eq!(
        Language::from_name("typescript"),
        Some(Language::TypeScript)
    );
    assert_eq!(Language::from_name("ts"), Some(Language::TypeScript));
    assert_eq!(Language::from_name("python"), Some(Language::Python));
    assert_eq!(Language::from_name("py"), Some(Language::Python));
    assert_eq!(Language::from_name("go"), Some(Language::Go));
    assert_eq!(Language::from_name("golang"), Some(Language::Go));
    assert_eq!(Language::from_name("ruby"), Some(Language::Ruby));
    assert_eq!(Language::from_name("rb"), Some(Language::Ruby));
    assert_eq!(Language::from_name("invalid"), None);
}

#[test]
fn test_language_parse_list() {
    let langs = Language::parse_list("rust,typescript,python");
    assert_eq!(langs.len(), 3);
    assert_eq!(langs[0], Language::Rust);
    assert_eq!(langs[1], Language::TypeScript);
    assert_eq!(langs[2], Language::Python);

    let langs = Language::parse_list("rust , ts , py");
    assert_eq!(langs.len(), 3);

    let langs = Language::parse_list("rust,invalid,typescript");
    assert_eq!(langs.len(), 2);
}

#[test]
fn test_language_file_extension() {
    assert_eq!(Language::Rust.file_extension(), "rs");
    assert_eq!(Language::TypeScript.file_extension(), "ts");
    assert_eq!(Language::Python.file_extension(), "py");
    assert_eq!(Language::Go.file_extension(), "go");
    assert_eq!(Language::Ruby.file_extension(), "rb");
}

#[test]
fn test_language_is_implemented() {
    assert!(Language::Rust.is_implemented());
    assert!(Language::TypeScript.is_implemented());
    assert!(Language::Python.is_implemented());
    assert!(Language::Go.is_implemented());
    assert!(Language::Ruby.is_implemented());
}

#[test]
fn test_get_generator_rust() {
    let gen = get_generator(Language::Rust);
    assert_eq!(gen.language(), Language::Rust);
    assert_eq!(gen.file_extension(), "rs");
}

#[test]
fn test_get_generator_typescript() {
    let gen = get_generator(Language::TypeScript);
    assert_eq!(gen.language(), Language::TypeScript);
    assert_eq!(gen.file_extension(), "ts");
}

#[test]
fn test_try_get_generator() {
    assert!(try_get_generator(Language::Rust).is_some());
    assert!(try_get_generator(Language::TypeScript).is_some());
    assert!(try_get_generator(Language::Python).is_some());
    assert!(try_get_generator(Language::Go).is_some());
    assert!(try_get_generator(Language::Ruby).is_some());
    assert!(try_get_generator(Language::Seahorse).is_some());
}

#[test]
fn test_get_generators_all_implemented() {
    let langs = vec![
        Language::Rust,
        Language::TypeScript,
        Language::Python,
        Language::Go,
        Language::Ruby,
        Language::Seahorse,
    ];
    let generators = get_generators(&langs);

    assert_eq!(generators.len(), 6);
    assert_eq!(generators[0].language(), Language::Rust);
    assert_eq!(generators[1].language(), Language::TypeScript);
    assert_eq!(generators[2].language(), Language::Python);
    assert_eq!(generators[3].language(), Language::Go);
    assert_eq!(generators[4].language(), Language::Ruby);
    assert_eq!(generators[5].language(), Language::Seahorse);
}

#[test]
fn test_get_generator_python() {
    let gen = get_generator(Language::Python);
    assert_eq!(gen.language(), Language::Python);
    assert_eq!(gen.file_extension(), "py");
}

#[test]
fn test_get_generator_go() {
    let gen = get_generator(Language::Go);
    assert_eq!(gen.language(), Language::Go);
    assert_eq!(gen.file_extension(), "go");
}

#[test]
fn test_get_generator_ruby() {
    let gen = get_generator(Language::Ruby);
    assert_eq!(gen.language(), Language::Ruby);
    assert_eq!(gen.file_extension(), "rb");
}

#[test]
fn test_output_filename() {
    let rust_gen = RustGenerator;
    let ts_gen = TypeScriptGenerator;

    assert_eq!(rust_gen.output_filename("schema"), "schema.rs");
    assert_eq!(ts_gen.output_filename("schema"), "schema.ts");
}

#[test]
fn test_language_supported() {
    let supported = Language::supported();
    assert_eq!(supported.len(), 6);
    assert!(supported.contains(&Language::Rust));
    assert!(supported.contains(&Language::TypeScript));
    assert!(supported.contains(&Language::Python));
    assert!(supported.contains(&Language::Go));
    assert!(supported.contains(&Language::Ruby));
    assert!(supported.contains(&Language::Seahorse));
}

#[test]
fn test_language_all() {
    let all = Language::all();
    assert_eq!(all.len(), 6);
}

#[test]
fn test_seahorse_generator() {
    let gen = get_generator(Language::Seahorse);
    assert_eq!(gen.language(), Language::Seahorse);
    assert_eq!(gen.file_extension(), "py");
}

#[test]
fn test_language_display() {
    assert_eq!(Language::Rust.to_display_string(), "rust");
    assert_eq!(Language::TypeScript.to_display_string(), "typescript");
    assert_eq!(Language::Python.to_display_string(), "python");
}

#[test]
fn generates_typescript_code() {
    let type_def = TypeDefinition::Struct(StructDefinition {
        name: "User".to_string(),
        generic_params: vec![],
        fields: vec![],
        metadata: Metadata::default(),
        visibility: Visibility::Public,
        module_segments: vec![],
    });

    let code = typescript::generate(&type_def);
    assert!(!code.is_empty());
}

#[test]
fn names_and_lists_edge_cases() {
    assert_eq!(Language::from_name("SeaHorse"), Some(Language::Seahorse));
    assert_eq!(Language::from_name(" rust"), None);
    assert_eq!(Language::parse_list(""), vec![]);
    assert_eq!(
        Language::parse_list("PY,,Golang"),
        vec![Language::Python, Language::Go]
    );
    assert_eq!(Language::Seahorse.name(), "seahorse");
    assert_eq!(Language::Seahorse.file_extension(), "py");
    assert_eq!(get_generator(Language::Go).output_filename("x"), "x.go");
}

#[test]
fn target_names_are_read_case_insensitively() {
    assert_eq!(parse_target("auto"), Ok(TargetMode::Auto));
    assert_eq!(parse_target("Native"), Ok(TargetMode::Native));
    assert_eq!(parse_target("ANCHOR"), Ok(TargetMode::Anchor));
    assert_eq!(
        parse_target("solana"),
        Err("Invalid target 'solana'. Supported: auto, native, anchor".to_string())
    );
}

#[test]
fn debounce_is_kept_up_to_five_seconds() {
    assert_eq!(debounce_ms(None), 100);
    assert_eq!(debounce_ms(Some(0)), 0);
    assert_eq!(debounce_ms(Some(250)), 250);
    assert_eq!(debounce_ms(Some(5000)), 5000);
    assert_eq!(debounce_ms(Some(5001)), 100);
}

fn account_struct(name: &str, attrs: &[&str]) -> TypeDefinition {
    TypeDefinition::Struct(StructDefinition {
        name: name.to_string(),
        generic_params: vec![],
        fields: vec![],
        metadata: Metadata {
            solana: true,
            attributes: attrs.iter().map(|a| a.to_string()).collect(),
            ..Metadata::default()
        },
        visibility: Visibility::Public,
        module_segments: vec![],
    })
}

#[test]
fn native_output_drops_only_the_account_marker() {
    let ir = vec![
        account_struct("A", &["solana", "account"]),
        account_struct("B", &["solana"]),
    ];
    assert!(has_account_attrs(&ir));
    let native = without_account_attrs(ir);
    assert!(!has_account_attrs(&native));
    assert_eq!(native.len(), 2);
    match (&native[0], &native[1]) {
        (TypeDefinition::Struct(a), TypeDefinition::Struct(b)) => {
            assert_eq!(a.name, "A");
            assert_eq!(a.metadata.attributes, vec!["solana".to_string()]);
            assert!(a.metadata.solana);
            assert_eq!(b.metadata.attributes, vec!["solana".to_string()]);
        }
        _ => panic!("Expected structs"),
    }
    assert!(!has_account_attrs(&vec![account_struct("C", &[])]));
}

#[test]
fn every_language_name_reads_back() {
    for l in Language::all() {
        assert_eq!(Language::from_name(l.name()), Some(l));
        assert_eq!(Language::from_name(&l.name().to_uppercase()), Some(l));
    }
}

#[test]
fn generators_come_in_the_order_asked() {
    let langs = vec![Language::Go, Language::Rust, Language::Go, Language::Seahorse];
    let gens = get_generators(&langs);
    let got: Vec<Language> = gens.iter().map(|g| g.language()).collect();
    assert_eq!(got, langs);
    assert!(get_generators(&[]).is_empty());
    for l in Language::all() {
        assert_eq!(get_generator(l).language(), l);
    }
}
