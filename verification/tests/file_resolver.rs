use lumos_core::ast::{FieldDef, Import, Item, LumosFile, StructDef, TypeAlias, TypeSpec};
use lumos_core::error::LumosError;
use lumos_core::file_resolver::{FileResolver, LoadStart};
use lumos_core::ir::{TypeDefinition, TypeInfo};

fn field(name: &str, ty: &str) -> FieldDef {
    FieldDef {
        name: name.to_string(),
        type_spec: TypeSpec::Primitive(ty.to_string()),
        optional: false,
        attributes: vec![],
    }
}

fn strukt(name: &str, fields: Vec<FieldDef>) -> Item {
    Item::Struct(StructDef { name: name.to_string(), attributes: vec![], fields, version: None, public: true })
}

fn file(imports: Vec<Import>, items: Vec<Item>) -> LumosFile {
    LumosFile { imports, items, modules: vec![], uses: vec![] }
}

fn import(names: &[&str], path: &str) -> Import {
    Import { items: names.iter().map(|n| n.to_string()).collect(), path: path.to_string() }
}

fn load(r: &mut FileResolver, path: &str, f: LumosFile) {
    let p = path.to_string();
    assert!(matches!(r.start_loading(&p), LoadStart::Load));
    r.finish_loading(p, f);
}

#[test]
fn a_single_file_resolves() {
    let mut r = FileResolver::new();
    load(&mut r, "/s/test.lumos", file(vec![], vec![strukt("Account", vec![field("balance", "u64")])]));
    let defs = r.resolve_loaded_files().unwrap();
    assert_eq!(defs.len(), 1);
    assert_eq!(r.loaded_files(), vec!["/s/test.lumos".to_string()]);
}

#[test]
fn types_and_aliases_are_shared_across_files() {
    let mut r = FileResolver::new();
    let main = "/s/main.lumos".to_string();
    assert!(matches!(r.start_loading(&main), LoadStart::Load));
    load(
        &mut r,
        "/s/types.lumos",
        file(
            vec![],
            vec![
                Item::TypeAlias(TypeAlias { name: "Id".to_string(), target: TypeSpec::Primitive("u64".to_string()), public: true }),
                strukt("Owner", vec![field("id", "Id")]),
            ],
        ),
    );
    r.finish_loading(
        main,
        file(vec![import(&["Owner", "Id"], "./types.lumos")], vec![strukt("Vault", vec![field("owner", "Owner"), field("id", "Id")])]),
    );
    assert!(r.validate_imports().is_ok());
    let defs = r.resolve_loaded_files().unwrap();
    assert_eq!(defs.len(), 3);
    match &defs[2] {
        TypeDefinition::Struct(s) => {
            assert_eq!(s.name, "Vault");
            assert_eq!(s.fields[0].type_info, TypeInfo::UserDefined("Owner".to_string()));
            assert_eq!(s.fields[1].type_info, TypeInfo::Primitive("u64".to_string()));
        }
        _ => panic!("expected struct"),
    }
}

#[test]
fn a_loaded_file_is_not_loaded_twice() {
    let mut r = FileResolver::new();
    load(&mut r, "/s/a.lumos", file(vec![], vec![]));
    assert!(matches!(r.start_loading(&"/s/a.lumos".to_string()), LoadStart::Cached));
}

#[test]
fn a_circular_import_names_the_chain() {
    let mut r = FileResolver::new();
    assert!(matches!(r.start_loading(&"/s/a.lumos".to_string()), LoadStart::Load));
    assert!(matches!(r.start_loading(&"/s/b.lumos".to_string()), LoadStart::Load));
    assert_eq!(r.format_import_chain(), "a.lumos -> b.lumos");
    match r.start_loading(&"/s/a.lumos".to_string()) {
        LoadStart::Circular(e) => {
            assert_eq!(
                e,
                LumosError::SchemaParse(
                    "Circular import detected: a.lumos -> b.lumos -> /s/a.lumos".to_string()
                )
            );
        }
        other => panic!("unexpected {:?}", other),
    }
}

#[test]
fn a_missing_imported_type_is_reported() {
    let mut r = FileResolver::new();
    load(&mut r, "/s/types.lumos", file(vec![], vec![strukt("Owner", vec![])]));
    load(&mut r, "/s/main.lumos", file(vec![import(&["Owner", "Ghost"], "./types.lumos")], vec![]));
    let err = r.validate_imports().unwrap_err();
    assert_eq!(
        err,
        LumosError::SchemaParse(
            "Import error in '/s/main.lumos': type 'Ghost' not found in './types.lumos'".to_string()
        )
    );
}

#[test]
fn an_alias_defined_in_two_files_is_refused() {
    let mut r = FileResolver::new();
    let alias = || Item::TypeAlias(TypeAlias { name: "Id".to_string(), target: TypeSpec::Primitive("u64".to_string()), public: true });
    load(&mut r, "/s/a.lumos", file(vec![], vec![alias()]));
    load(&mut r, "/s/b.lumos", file(vec![], vec![alias()]));
    let err = r.resolve_loaded_files().unwrap_err();
    assert_eq!(err, LumosError::Transform("Duplicate type alias definition: Id".to_string()));
}

#[test]
fn an_undefined_type_across_files_is_reported() {
    let mut r = FileResolver::default();
    load(&mut r, "/s/a.lumos", file(vec![], vec![strukt("A", vec![field("b", "Missing")])]));
    let err = r.resolve_loaded_files().unwrap_err();
    assert!(matches!(err, LumosError::TypeValidation(_)));
}
