use lumos_core::ast::LumosFile;
use lumos_core::error::LumosError;
use lumos_core::file_resolver::LoadStart;
use lumos_core::ir::TypeDefinition;
use lumos_core::module_resolver::{
    module_file_candidates, module_name_for, module_not_found, DeclaredType, ModuleLoadTracker,
    ModuleNode, ModuleResolver, PathSegment, UsePath,
};
use lumos_core::parser::parse_lumos_file;

fn ident(s: &str) -> PathSegment {
    PathSegment::Ident(s.to_string())
}

fn ty(name: &str, public: bool) -> DeclaredType {
    DeclaredType { name: name.to_string(), public }
}

/// main (0) -> types (1), models (2) -> user (3)
fn tree() -> ModuleResolver {
    ModuleResolver {
        modules: vec![
            ModuleNode {
                name: String::new(),
                file_path: "/p/main.lumos".to_string(),
                children: vec![("types".to_string(), 1), ("models".to_string(), 2)],
                parent: None,
                types: vec![ty("App", true)],
                uses: vec![],
            },
            ModuleNode {
                name: "types".to_string(),
                file_path: "/p/types.lumos".to_string(),
                children: vec![],
                parent: Some(0),
                types: vec![ty("UserId", true), ty("Secret", false)],
                uses: vec![],
            },
            ModuleNode {
                name: "mod".to_string(),
                file_path: "/p/models/mod.lumos".to_string(),
                children: vec![("user".to_string(), 3)],
                parent: Some(0),
                types: vec![],
                uses: vec![],
            },
            ModuleNode {
                name: "user".to_string(),
                file_path: "/p/models/user.lumos".to_string(),
                children: vec![],
                parent: Some(2),
                types: vec![ty("User", true)],
                uses: vec![UsePath {
                    segments: vec![PathSegment::Crate, ident("types"), ident("UserId")],
                }],
            },
        ],
        root: 0,
    }
}

#[test]
fn use_paths_resolve_to_modules() {
    let r = tree();
    assert_eq!(r.resolve_use_path(0, &vec![ident("types"), ident("UserId")]), Ok(1));
    assert_eq!(r.resolve_use_path(3, &vec![PathSegment::Crate, ident("types"), ident("UserId")]), Ok(1));
    assert_eq!(r.resolve_use_path(3, &vec![PathSegment::Super, PathSegment::Super, ident("App")]), Ok(0));
    assert_eq!(r.resolve_use_path(2, &vec![PathSegment::SelfPath, ident("user"), ident("User")]), Ok(3));
    assert_eq!(r.resolve_use_path(0, &vec![ident("App")]), Ok(0));
    assert_eq!(r.resolve_use_path(0, &vec![]), Ok(0));
    assert_eq!(
        r.resolve_use_path(0, &vec![PathSegment::Super, ident("X")]),
        Err("Cannot use 'super' in root module".to_string())
    );
    assert_eq!(
        r.resolve_use_path(1, &vec![PathSegment::Super, PathSegment::Super, ident("X")]),
        Err("Cannot use 'super' - module '/p/main.lumos' has no parent".to_string())
    );
    assert_eq!(
        r.resolve_use_path(0, &vec![PathSegment::Crate, PathSegment::Crate]),
        Err("'crate' can only appear at the start of a path".to_string())
    );
}

#[test]
fn use_statements_are_checked() {
    let r = tree();
    let ok = UsePath { segments: vec![ident("types"), ident("UserId")] };
    assert_eq!(r.validate_use_statement(0, &ok), Ok(()));
    let private = UsePath { segments: vec![ident("types"), ident("Secret")] };
    assert_eq!(
        r.validate_use_statement(0, &private),
        Err("Type 'Secret' is private and cannot be imported from '/p/types.lumos'".to_string())
    );
    let own = UsePath { segments: vec![PathSegment::SelfPath, ident("Secret")] };
    assert_eq!(r.validate_use_statement(1, &own), Ok(()));
    let missing = UsePath { segments: vec![ident("types"), ident("Nope")] };
    assert_eq!(
        r.validate_use_statement(0, &missing),
        Err("Type 'Nope' not found in module '/p/types.lumos'".to_string())
    );
    let bad = UsePath { segments: vec![PathSegment::Crate, PathSegment::Super] };
    assert_eq!(bad.to_display_string(), "crate::super");
    assert_eq!(
        r.validate_use_statement(0, &bad),
        Err("Invalid use path: crate::super".to_string())
    );
    assert_eq!(r.validate_use_statements(), Ok(()));
    let mut broken = tree();
    broken.modules[3].uses.push(missing.clone());
    assert!(broken.validate_use_statements().is_err());
}

#[test]
fn module_names_come_from_file_stems() {
    let root = "/p/main.lumos".to_string();
    assert_eq!(module_name_for(&root, &root), "");
    assert_eq!(module_name_for(&"/p/models.lumos".to_string(), &root), "models");
    assert_eq!(module_name_for(&"/p/models/mod.lumos".to_string(), &root), "mod");
    assert_eq!(module_name_for(&"/p/.hidden".to_string(), &root), ".hidden");
    assert_eq!(module_name_for(&"/p/a.b.lumos".to_string(), &root), "a.b");
}

#[test]
fn module_loading_detects_cycles_and_caches() {
    let mut t = ModuleLoadTracker::new();
    let a = "/p/main.lumos".to_string();
    let b = "/p/models.lumos".to_string();
    assert!(matches!(t.start_loading(&a), LoadStart::Load));
    assert!(matches!(t.start_loading(&b), LoadStart::Load));
    match t.start_loading(&a) {
        LoadStart::Circular(e) => assert_eq!(
            e.to_display_string(),
            "Schema parsing error: Circular module dependency detected: main.lumos -> models.lumos -> /p/main.lumos"
        ),
        other => panic!("unexpected {:?}", other),
    }
    t.finish_loading(b.clone());
    assert!(matches!(t.start_loading(&b), LoadStart::Cached));
    assert_eq!(t.format_loading_chain(), "main.lumos");
}

#[test]
fn loaded_modules_and_tree_root() {
    let r = tree();
    assert_eq!(
        r.loaded_modules(),
        vec![
            "/p/main.lumos".to_string(),
            "/p/types.lumos".to_string(),
            "/p/models/mod.lumos".to_string(),
            "/p/models/user.lumos".to_string(),
        ]
    );
    let root = r.module_tree().expect("root module");
    assert_eq!(root.file_path, "/p/main.lumos");
    assert_eq!(root.name, "");
    let empty = ModuleResolver { modules: vec![], root: 0 };
    assert!(empty.module_tree().is_none());
    assert!(empty.loaded_modules().is_empty());
}

// Loading module trees from schema texts held in memory, as the program
// does from disk.

fn load_from(
    disk: &[(&str, &str)],
    resolver: &mut ModuleResolver,
    tracker: &mut ModuleLoadTracker,
    files: &mut Vec<(String, LumosFile)>,
    path: &str,
    parent: Option<usize>,
) -> Result<usize, LumosError> {
    let key = path.to_string();
    match tracker.start_loading(&key) {
        LoadStart::Cached => return Ok(resolver.find_module(&key).unwrap()),
        LoadStart::Circular(e) => return Err(e),
        LoadStart::Load => {}
    }
    let text = disk.iter().find(|(p, _)| *p == path).unwrap().1;
    let file = parse_lumos_file(text)?;
    let dir = path[..path.rfind('/').unwrap()].to_string();
    let index = resolver.add_module(module_name_for(&key, &"/p/main.lumos".to_string()), key.clone(), parent, &file);
    let declared: Vec<String> = file.modules.iter().map(|m| m.name.clone()).collect();
    files.push((key.clone(), file));
    for name in declared {
        let (sibling, dir_module) = module_file_candidates(&dir, &name);
        let exists = |p: &str| disk.iter().any(|(q, _)| *q == p);
        let child_path = if exists(&sibling) {
            sibling
        } else if exists(&dir_module) {
            dir_module
        } else {
            return Err(module_not_found(&name, &sibling, &dir_module));
        };
        let child = load_from(disk, resolver, tracker, files, &child_path, Some(index))?;
        resolver.link_child(index, name, child);
    }
    tracker.finish_loading(key);
    Ok(index)
}

fn resolve(disk: &[(&str, &str)]) -> (Result<Vec<TypeDefinition>, LumosError>, usize) {
    let mut resolver = ModuleResolver::new();
    let mut tracker = ModuleLoadTracker::new();
    let mut files = Vec::new();
    if let Err(e) = load_from(disk, &mut resolver, &mut tracker, &mut files, "/p/main.lumos", None) {
        return (Err(e), resolver.loaded_modules().len());
    }
    (resolver.resolve_module_tree(&files), resolver.loaded_modules().len())
}

fn message(r: Result<Vec<TypeDefinition>, LumosError>) -> String {
    r.unwrap_err().to_display_string()
}

#[test]
fn module_files_are_looked_for_as_sibling_then_directory() {
    let (a, b) = module_file_candidates(&"/p".to_string(), &"types".to_string());
    assert_eq!(a, "/p/types.lumos");
    assert_eq!(b, "/p/types/mod.lumos");
}

#[test]
fn test_nested_modules() {
    let disk = [
        ("/p/types.lumos", "pub struct UserId { value: u64 }"),
        ("/p/models/mod.lumos", "pub mod user;"),
        ("/p/models/user.lumos", "pub struct User {\n    id: u64,\n}"),
        ("/p/main.lumos", "mod types;\nmod models;"),
    ];
    let (r, n) = resolve(&disk);
    assert!(r.is_ok());
    assert_eq!(n, 4);
    let names: Vec<String> = r.unwrap().iter().map(|d| d.name().to_string()).collect();
    assert_eq!(names, vec!["UserId".to_string(), "User".to_string()]);
}

#[test]
fn test_use_statement_valid() {
    let disk = [
        ("/p/types.lumos", "pub struct UserId { value: u64 }\npub type Timestamp = i64;"),
        (
            "/p/main.lumos",
            "mod types;\nuse types::UserId;\nuse types::Timestamp;\n\npub struct User {\n    id: UserId,\n    created: Timestamp,\n}",
        ),
    ];
    assert!(resolve(&disk).0.is_ok());
}

#[test]
fn test_use_statement_with_crate() {
    let disk = [
        ("/p/types.lumos", "pub struct UserId { value: u64 }"),
        ("/p/main.lumos", "mod types;\nuse crate::types::UserId;\n\npub struct User { id: UserId }"),
    ];
    assert!(resolve(&disk).0.is_ok());
}

#[test]
fn test_use_statement_type_not_found() {
    let disk = [
        ("/p/types.lumos", "pub type Timestamp = i64;"),
        ("/p/main.lumos", "mod types;\nuse types::UserId;"),
    ];
    assert!(message(resolve(&disk).0).contains("Type 'UserId' not found"));
}

#[test]
fn test_use_statement_private_type() {
    let disk = [
        ("/p/types.lumos", "pub(crate) struct UserId { value: u64 }"),
        ("/p/main.lumos", "mod types;\nuse types::UserId;"),
    ];
    assert!(message(resolve(&disk).0).contains("is private and cannot be imported"));
}

#[test]
fn test_use_statement_with_super() {
    let disk = [
        ("/p/main.lumos", "pub struct Config { value: u64 }\npub mod sub;"),
        ("/p/sub.lumos", "use super::Config;\n\npub struct App { config: Config }"),
    ];
    assert!(resolve(&disk).0.is_ok());
}

#[test]
fn test_use_statement_nested_modules() {
    let disk = [
        ("/p/types/mod.lumos", "pub mod common;"),
        ("/p/types/common.lumos", "pub struct UserId { value: u64 }"),
        ("/p/main.lumos", "mod types;\nuse crate::types::common::UserId;\n\npub struct User { id: UserId }"),
    ];
    assert!(resolve(&disk).0.is_ok());
}

#[test]
fn test_module_not_found() {
    let disk = [("/p/main.lumos", "mod nonexistent;")];
    assert!(message(resolve(&disk).0).contains("Module 'nonexistent' not found"));
}

#[test]
fn test_detect_circular_module_dependency() {
    let disk = [("/p/main.lumos", "mod a;"), ("/p/a.lumos", "mod b;"), ("/p/b.lumos", "mod a;")];
    assert!(message(resolve(&disk).0).contains("Circular module dependency detected"));
}

#[test]
fn a_module_reached_twice_is_loaded_once() {
    let disk = [
        ("/p/main.lumos", "mod a;\nmod shared;"),
        ("/p/a.lumos", "pub struct A { x: u8 }"),
        ("/p/shared.lumos", "pub struct S { y: u8 }"),
    ];
    let (r, n) = resolve(&disk);
    assert!(r.is_ok());
    assert_eq!(n, 3);
}

#[test]
fn undefined_types_across_modules_are_reported() {
    let disk = [("/p/main.lumos", "mod a;"), ("/p/a.lumos", "pub struct A { x: Missing }")];
    assert!(message(resolve(&disk).0).contains("Undefined type 'Missing'"));
}
