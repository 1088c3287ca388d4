//! Writing migration code (Rust and TypeScript) from a schema diff.
//!
//! The generated code declares the old version of the type under the name
//! `<Type>V<from-version>` and a conversion into the current version.
//! Where the new set of field names has no order of its own, the fields of
//! the old version come first, in their order, followed by added fields in
//! the order of the changes; a removed enum variant is mapped to the first
//! old variant that was kept, else to the first added one.

use vstd::prelude::*;
use crate::ir::{
    EnumDefinition, EnumVariantDefinition, FieldDefinition, StructDefinition, TypeDefinition,
    TypeInfo,
};
use crate::migration::{last_field, SchemaChange, SchemaDiff};
use crate::text::{
    concat_map, dec, dots_to_underscores, join, join_strings, lemma_concat_map_step,
    replace_dots, str_eq, to_string, usize_to_string, views,
};

verus! {

// ---------------------------------------------------------------------
// Versions and names
// ---------------------------------------------------------------------

/// The version migrated from, as written in comments.
pub open spec fn from_raw(d: SchemaDiff) -> Seq<char> {
    match d.from_version {
        Some(v) => v@,
        None => "unknown"@,
    }
}

/// The version migrated to, as written in comments.
pub open spec fn to_raw(d: SchemaDiff) -> Seq<char> {
    match d.to_version {
        Some(v) => v@,
        None => "current"@,
    }
}

/// The old version as it appears in identifiers (dots become underscores).
pub open spec fn from_ident(d: SchemaDiff) -> Seq<char> {
    dots_to_underscores(from_raw(d))
}

/// The name under which the old version of the type is declared.
pub open spec fn old_type_name(d: SchemaDiff) -> Seq<char> {
    d.type_ident@ + "V"@ + from_ident(d)
}

fn from_raw_exec(d: &SchemaDiff) -> (r: &str)
    ensures
        r@ == from_raw(*d),
{
    match &d.from_version {
        Some(v) => v.as_str(),
        None => "unknown",
    }
}

fn to_raw_exec(d: &SchemaDiff) -> (r: &str)
    ensures
        r@ == to_raw(*d),
{
    match &d.to_version {
        Some(v) => v.as_str(),
        None => "current",
    }
}

fn old_type_name_exec(d: &SchemaDiff) -> (r: String)
    ensures
        r@ == old_type_name(*d),
{
    let mut r = d.type_ident.clone();
    r.append("V");
    let v = replace_dots(from_raw_exec(d));
    r.append(v.as_str());
    r
}

// ---------------------------------------------------------------------
// The field names of the new version
// ---------------------------------------------------------------------

/// Names of the first `k` fields, each name once, in order.
pub open spec fn first_names(fs: Seq<FieldDefinition>, k: nat) -> Seq<Seq<char>>
    decreases k,
{
    if k == 0 {
        Seq::empty()
    } else {
        let rest = first_names(fs, (k - 1) as nat);
        if rest.contains(fs[k - 1].name@) {
            rest
        } else {
            rest.push(fs[k - 1].name@)
        }
    }
}

/// `names` without `x`.
pub open spec fn remove_name(names: Seq<Seq<char>>, x: Seq<char>) -> Seq<Seq<char>>
    decreases names.len(),
{
    if names.len() == 0 {
        names
    } else if names.last() == x {
        remove_name(names.drop_last(), x)
    } else {
        remove_name(names.drop_last(), x).push(names.last())
    }
}

/// The names after one change: an added field joins, a removed one leaves.
pub open spec fn apply_change(names: Seq<Seq<char>>, c: SchemaChange) -> Seq<Seq<char>> {
    match c {
        SchemaChange::FieldAdded { name, .. } => if names.contains(name@) {
            names
        } else {
            names.push(name@)
        },
        SchemaChange::FieldRemoved { name, .. } => remove_name(names, name@),
        _ => names,
    }
}

/// The names after the first `k` changes.
pub open spec fn apply_changes(names: Seq<Seq<char>>, cs: Seq<SchemaChange>, k: nat) -> Seq<
    Seq<char>,
>
    decreases k,
{
    if k == 0 {
        names
    } else {
        apply_change(apply_changes(names, cs, (k - 1) as nat), cs[k - 1])
    }
}

/// The field names of the new version of a struct.
pub open spec fn migrated_names(old: StructDefinition, cs: Seq<SchemaChange>) -> Seq<Seq<char>> {
    apply_changes(first_names(old.fields@, old.fields@.len()), cs, cs.len())
}

fn names_contain(names: &Vec<String>, x: &String) -> (r: bool)
    ensures
        r == views(names@).contains(x@),
{
    let mut i: usize = 0;
    while i < names.len()
        invariant
            i <= names@.len(),
            forall|j: int| 0 <= j < i ==> names@[j]@ != x@,
        decreases names@.len() - i,
    {
        if names[i] == *x {
            assert(views(names@)[i as int] == x@);
            return true;
        }
        i = i + 1;
    }
    assert forall|j: int| 0 <= j < views(names@).len() implies views(names@)[j] != x@ by {
        assert(views(names@)[j] == names@[j]@);
    }
    false
}

fn remove_name_exec(names: &Vec<String>, x: &String) -> (r: Vec<String>)
    ensures
        views(r@) == remove_name(views(names@), x@),
{
    let mut r: Vec<String> = Vec::new();
    let mut i: usize = 0;
    while i < names.len()
        invariant
            i <= names@.len(),
            views(r@) == remove_name(views(names@.subrange(0, i as int)), x@),
        decreases names@.len() - i,
    {
        let ghost before = r@;
        assert(views(names@.subrange(0, i + 1)).drop_last() =~= views(
            names@.subrange(0, i as int),
        ));
        if names[i] != *x {
            r.push(names[i].clone());
            assert(views(r@) =~= views(before).push(names@[i as int]@));
        }
        i = i + 1;
    }
    assert(names@.subrange(0, names@.len() as int) =~= names@);
    r
}

fn migrated_field_names(old: &StructDefinition, cs: &Vec<SchemaChange>) -> (r: Vec<String>)
    ensures
        views(r@) == migrated_names(*old, cs@),
{
    let mut names: Vec<String> = Vec::new();
    let mut i: usize = 0;
    while i < old.fields.len()
        invariant
            i <= old.fields@.len(),
            views(names@) == first_names(old.fields@, i as nat),
        decreases old.fields@.len() - i,
    {
        if !names_contain(&names, &old.fields[i].name) {
            let ghost before = names@;
            names.push(old.fields[i].name.clone());
            assert(views(names@) =~= views(before).push(old.fields@[i as int].name@));
        }
        i = i + 1;
    }
    let ghost start = views(names@);
    let mut k: usize = 0;
    while k < cs.len()
        invariant
            k <= cs@.len(),
            start == first_names(old.fields@, old.fields@.len()),
            views(names@) == apply_changes(start, cs@, k as nat),
        decreases cs@.len() - k,
    {
        match &cs[k] {
            SchemaChange::FieldAdded { name, .. } => {
                if !names_contain(&names, name) {
                    let ghost before = names@;
                    names.push(name.clone());
                    assert(views(names@) =~= views(before).push(name@));
                }
            },
            SchemaChange::FieldRemoved { name, .. } => {
                names = remove_name_exec(&names, name);
            },
            _ => {},
        }
        k = k + 1;
    }
    names
}

/// Whether the old struct has a field named `n`.
fn has_field(fs: &Vec<FieldDefinition>, n: &String) -> (r: bool)
    ensures
        r == (last_field(fs@, n@) >= 0),
{
    let mut i: usize = fs.len();
    assert(fs@.subrange(0, fs@.len() as int) =~= fs@);
    while i > 0
        invariant
            i <= fs@.len(),
            last_field(fs@, n@) == last_field(fs@.subrange(0, i as int), n@),
        decreases i,
    {
        assert(fs@.subrange(0, i as int).drop_last() =~= fs@.subrange(0, i - 1));
        if fs[i - 1].name == *n {
            return true;
        }
        i = i - 1;
    }
    assert(fs@.subrange(0, 0) =~= Seq::<FieldDefinition>::empty());
    false
}

// ---------------------------------------------------------------------
// Rust types and default values
// ---------------------------------------------------------------------

/// A type written in Rust; `optional` wraps it in `Option` unless it is
/// one already.
pub open spec fn rust_type(t: TypeInfo, optional: bool) -> Seq<char>
    decreases t, 1nat,
{
    match t {
        TypeInfo::Option(inner) => "Option<"@ + rust_type(*inner, false) + ">"@,
        _ => if optional {
            "Option<"@ + rust_base(t) + ">"@
        } else {
            rust_base(t)
        },
    }
}

/// A non-option type written in Rust.
pub open spec fn rust_base(t: TypeInfo) -> Seq<char>
    decreases t, 0nat,
{
    match t {
        TypeInfo::Primitive(n) => if n@ == "string"@ {
            "String"@
        } else if n@ == "PublicKey"@ {
            "Pubkey"@
        } else {
            n@
        },
        TypeInfo::Generic(n) => n@,
        TypeInfo::UserDefined(n) => n@,
        TypeInfo::Array(inner) => "Vec<"@ + rust_type(*inner, false) + ">"@,
        TypeInfo::FixedArray { element, size } => "["@ + rust_type(*element, false) + "; "@ + dec(
            size as nat,
        ) + "]"@,
        TypeInfo::Option(inner) => "Option<"@ + rust_type(*inner, false) + ">"@,
    }
}

/// Writes a type in Rust (see [`rust_type`]).
pub fn map_type_to_rust(t: &TypeInfo, optional: bool) -> (r: String)
    ensures
        r@ == rust_type(*t, optional),
    decreases t, 1nat,
{
    match t {
        TypeInfo::Option(inner) => {
            let mut r = to_string("Option<");
            let s = map_type_to_rust(inner, false);
            r.append(s.as_str());
            r.append(">");
            r
        },
        _ => {
            let base = rust_base_exec(t);
            if optional {
                let mut r = to_string("Option<");
                r.append(base.as_str());
                r.append(">");
                r
            } else {
                base
            }
        },
    }
}

fn rust_base_exec(t: &TypeInfo) -> (r: String)
    ensures
        r@ == rust_base(*t),
    decreases t, 0nat,
{
    match t {
        TypeInfo::Primitive(n) => {
            if str_eq(n.as_str(), "string") {
                to_string("String")
            } else if str_eq(n.as_str(), "PublicKey") {
                to_string("Pubkey")
            } else {
                n.clone()
            }
        },
        TypeInfo::Generic(n) => n.clone(),
        TypeInfo::UserDefined(n) => n.clone(),
        TypeInfo::Array(inner) => {
            let mut r = to_string("Vec<");
            let s = map_type_to_rust(inner, false);
            r.append(s.as_str());
            r.append(">");
            r
        },
        TypeInfo::FixedArray { element, size } => {
            let mut r = to_string("[");
            let s = map_type_to_rust(element, false);
            r.append(s.as_str());
            r.append("; ");
            let n = usize_to_string(*size);
            r.append(n.as_str());
            r.append("]");
            r
        },
        TypeInfo::Option(inner) => {
            let mut r = to_string("Option<");
            let s = map_type_to_rust(inner, false);
            r.append(s.as_str());
            r.append(">");
            r
        },
    }
}

/// Whether `n` names an integer primitive.
pub open spec fn is_int_name(n: Seq<char>) -> bool {
    n == "u8"@ || n == "u16"@ || n == "u32"@ || n == "u64"@ || n == "u128"@ || n == "i8"@ || n
        == "i16"@ || n == "i32"@ || n == "i64"@ || n == "i128"@
}

fn is_int_name_exec(n: &str) -> (r: bool)
    ensures
        r == is_int_name(n@),
{
    str_eq(n, "u8") || str_eq(n, "u16") || str_eq(n, "u32") || str_eq(n, "u64") || str_eq(
        n,
        "u128",
    ) || str_eq(n, "i8") || str_eq(n, "i16") || str_eq(n, "i32") || str_eq(n, "i64") || str_eq(
        n,
        "i128",
    )
}

/// The Rust default value of a type.
pub open spec fn rust_default(t: TypeInfo) -> Seq<char>
    decreases t,
{
    match t {
        TypeInfo::Primitive(n) => if is_int_name(n@) {
            "0"@
        } else if n@ == "f32"@ || n@ == "f64"@ {
            "0.0"@
        } else if n@ == "bool"@ {
            "false"@
        } else if n@ == "string"@ || n@ == "String"@ {
            "String::new()"@
        } else if n@ == "PublicKey"@ {
            "Pubkey::default()"@
        } else {
            "Default::default()"@
        },
        TypeInfo::Generic(_) => "Default::default()"@,
        TypeInfo::UserDefined(_) => "Default::default()"@,
        TypeInfo::Array(_) => "Vec::new()"@,
        TypeInfo::FixedArray { element, size } => "["@ + rust_default(*element) + "; "@ + dec(
            size as nat,
        ) + "]"@,
        TypeInfo::Option(_) => "None"@,
    }
}

/// Writes the Rust default value of a type.
pub fn get_default_value_for_type(t: &TypeInfo) -> (r: String)
    ensures
        r@ == rust_default(*t),
    decreases t,
{
    match t {
        TypeInfo::Primitive(n) => {
            let n = n.as_str();
            if is_int_name_exec(n) {
                to_string("0")
            } else if str_eq(n, "f32") || str_eq(n, "f64") {
                to_string("0.0")
            } else if str_eq(n, "bool") {
                to_string("false")
            } else if str_eq(n, "string") || str_eq(n, "String") {
                to_string("String::new()")
            } else if str_eq(n, "PublicKey") {
                to_string("Pubkey::default()")
            } else {
                to_string("Default::default()")
            }
        },
        TypeInfo::Generic(_) => to_string("Default::default()"),
        TypeInfo::UserDefined(_) => to_string("Default::default()"),
        TypeInfo::Array(_) => to_string("Vec::new()"),
        TypeInfo::FixedArray { element, size } => {
            let mut r = to_string("[");
            let e = get_default_value_for_type(element);
            r.append(e.as_str());
            r.append("; ");
            let n = usize_to_string(*size);
            r.append(n.as_str());
            r.append("]");
            r
        },
        TypeInfo::Option(_) => to_string("None"),
    }
}

/// The Rust value given to a field added by the changes: `None` when the
/// first addition of that name is optional, the type's default otherwise,
/// `Default::default()` when no change adds it.
pub open spec fn rust_default_added(n: Seq<char>, cs: Seq<SchemaChange>) -> Seq<char>
    decreases cs.len(),
{
    if cs.len() == 0 {
        "Default::default()"@
    } else {
        match cs[0] {
            SchemaChange::FieldAdded { name, type_info, optional } => if name@ == n {
                if optional {
                    "None"@
                } else {
                    rust_default(type_info)
                }
            } else {
                rust_default_added(n, cs.drop_first())
            },
            _ => rust_default_added(n, cs.drop_first()),
        }
    }
}

/// Writes the Rust value given to an added field (see [`rust_default_added`]).
pub fn get_default_value_for_added_field(n: &String, cs: &Vec<SchemaChange>) -> (r: String)
    ensures
        r@ == rust_default_added(n@, cs@),
{
    let mut i: usize = 0;
    assert(cs@.subrange(0, cs@.len() as int) =~= cs@);
    while i < cs.len()
        invariant
            i <= cs@.len(),
            rust_default_added(n@, cs@) == rust_default_added(n@, cs@.subrange(i as int, cs@.len() as int)),
        decreases cs@.len() - i,
    {
        assert(cs@.subrange(i as int, cs@.len() as int).drop_first() =~= cs@.subrange(
            i + 1,
            cs@.len() as int,
        ));
        match &cs[i] {
            SchemaChange::FieldAdded { name, type_info, optional } => {
                if *name == *n {
                    if *optional {
                        return to_string("None");
                    }
                    return get_default_value_for_type(type_info);
                }
            },
            _ => {},
        }
        i = i + 1;
    }
    to_string("Default::default()")
}

// ---------------------------------------------------------------------
// Rust struct migration
// ---------------------------------------------------------------------

/// A field of the old struct declaration.
pub open spec fn rust_old_field() -> spec_fn(FieldDefinition) -> Seq<char> {
    |f: FieldDefinition| "    pub "@ + f.name@ + ": "@ + rust_type(f.type_info, f.optional) + ",\n"@
}

/// A doc line of the struct migration for one change.
pub open spec fn rust_struct_doc() -> spec_fn(SchemaChange) -> Seq<char> {
    |c: SchemaChange|
        match c {
            SchemaChange::FieldAdded { name, .. } => "    /// - Added field: "@ + name@ + "\n"@,
            SchemaChange::FieldRemoved { name, .. } => "    /// - Removed field: "@ + name@
                + "\n"@,
            SchemaChange::FieldTypeChanged { name, .. } => "    /// - Changed field type: "@
                + name@ + "\n"@,
            _ => Seq::empty(),
        }
}

/// The assignment of one field of the new struct.
pub open spec fn rust_assign(fs: Seq<FieldDefinition>, d: SchemaDiff) -> spec_fn(Seq<char>) -> Seq<
    char,
> {
    |n: Seq<char>|
        if last_field(fs, n) >= 0 {
            "            "@ + n + ": old."@ + n + ",\n"@
        } else {
            "            "@ + n + ": "@ + rust_default_added(n, d.changes@)
                + ", // Default: Added in v"@ + to_raw(d) + "\n"@
        }
}

/// The Rust migration of a struct.
pub open spec fn rust_struct_migration(d: SchemaDiff, old: StructDefinition) -> Seq<char> {
    "// Auto-generated migration code by LUMOS\n// Migration from v"@ + from_raw(d) + " to v"@
        + to_raw(d) + "\n"@ + "\n// Old version struct definition\n"@
        + "#[derive(BorshSerialize, BorshDeserialize)]\n"@ + "pub struct "@ + old_type_name(d)
        + " {\n"@ + concat_map(old.fields@, rust_old_field()) + "}\n"@ + "\nimpl "@
        + d.type_ident@ + " {\n"@ + "    /// Migrate from v"@ + from_raw(d) + " to v"@ + to_raw(d)
        + "\n"@ + (if d.changes@.len() == 0 {
        Seq::empty()
    } else {
        "    ///\n    /// Changes:\n"@ + concat_map(d.changes@, rust_struct_doc())
    }) + "    pub fn migrate_from_v"@ + from_ident(d) + "(old: "@ + old_type_name(d)
        + ") -> Self {\n"@ + "        Self {\n"@ + concat_map(
        migrated_names(old, d.changes@),
        rust_assign(old.fields@, d),
    ) + "        }\n    }\n}\n"@
}

fn rust_struct_doc_exec(c: &SchemaChange) -> (r: String)
    ensures
        r@ == (rust_struct_doc())(*c),
{
    match c {
        SchemaChange::FieldAdded { name, .. } => {
            let mut r = to_string("    /// - Added field: ");
            r.append(name.as_str());
            r.append("\n");
            r
        },
        SchemaChange::FieldRemoved { name, .. } => {
            let mut r = to_string("    /// - Removed field: ");
            r.append(name.as_str());
            r.append("\n");
            r
        },
        SchemaChange::FieldTypeChanged { name, .. } => {
            let mut r = to_string("    /// - Changed field type: ");
            r.append(name.as_str());
            r.append("\n");
            r
        },
        _ => String::new(),
    }
}

#[verifier::spinoff_prover]
#[verifier::rlimit(40)]
fn rust_assignments(names: &Vec<String>, old: &StructDefinition, d: &SchemaDiff) -> (r: String)
    ensures
        r@ == concat_map(views(names@), rust_assign(old.fields@, *d)),
{
    let mut code = String::new();
    let ghost b4 = code@;
    let to = to_raw_exec(d);
    let ghost nv = views(names@);
    let mut j: usize = 0;
    while j < names.len()
        invariant
            j <= names@.len(),
            nv == views(names@),
            to@ == to_raw(*d),
            code@ == b4 + concat_map(nv.subrange(0, j as int), rust_assign(old.fields@, *d)),
        decreases names@.len() - j,
    {
        let n = &names[j];
        assert(nv[j as int] == n@);
        if has_field(&old.fields, n) {
            code.append("            ");
            code.append(n.as_str());
            code.append(": old.");
            code.append(n.as_str());
            code.append(",\n");
        } else {
            let dv = get_default_value_for_added_field(n, &d.changes);
            code.append("            ");
            code.append(n.as_str());
            code.append(": ");
            code.append(dv.as_str());
            code.append(", // Default: Added in v");
            code.append(to);
            code.append("\n");
        }
        proof {
            lemma_concat_map_step(nv, j as int, rust_assign(old.fields@, *d));
        }
        j = j + 1;
    }
    assert(nv.subrange(0, nv.len() as int) =~= nv);
    assert(code@ =~= concat_map(views(names@), rust_assign(old.fields@, *d)));
    code
}

#[verifier::spinoff_prover]
fn generate_rust_struct_migration(d: &SchemaDiff, old: &StructDefinition) -> (r: String)
    ensures
        r@ == rust_struct_migration(*d, *old),
{
    let from = from_raw_exec(d);
    let to = to_raw_exec(d);
    let old_name = old_type_name_exec(d);
    let mut code = to_string("// Auto-generated migration code by LUMOS\n// Migration from v");
    code.append(from);
    code.append(" to v");
    code.append(to);
    code.append("\n");
    code.append("\n// Old version struct definition\n");
    code.append("#[derive(BorshSerialize, BorshDeserialize)]\n");
    code.append("pub struct ");
    code.append(old_name.as_str());
    code.append(" {\n");
    let ghost b1 = code@;
    let mut i: usize = 0;
    while i < old.fields.len()
        invariant
            i <= old.fields@.len(),
            code@ == b1 + concat_map(old.fields@.subrange(0, i as int), rust_old_field()),
        decreases old.fields@.len() - i,
    {
        let f = &old.fields[i];
        code.append("    pub ");
        code.append(f.name.as_str());
        code.append(": ");
        let t = map_type_to_rust(&f.type_info, f.optional);
        code.append(t.as_str());
        code.append(",\n");
        proof {
            lemma_concat_map_step(old.fields@, i as int, rust_old_field());
        }
        i = i + 1;
    }
    assert(old.fields@.subrange(0, old.fields@.len() as int) =~= old.fields@);
    code.append("}\n");
    code.append("\nimpl ");
    code.append(d.type_ident.as_str());
    code.append(" {\n");
    code.append("    /// Migrate from v");
    code.append(from);
    code.append(" to v");
    code.append(to);
    code.append("\n");
    let ghost b2 = code@;
    if d.changes.len() != 0 {
        code.append("    ///\n    /// Changes:\n");
        let ghost b3 = code@;
        let mut k: usize = 0;
        while k < d.changes.len()
            invariant
                k <= d.changes@.len(),
                code@ == b3 + concat_map(d.changes@.subrange(0, k as int), rust_struct_doc()),
            decreases d.changes@.len() - k,
        {
            let line = rust_struct_doc_exec(&d.changes[k]);
            code.append(line.as_str());
            proof {
                lemma_concat_map_step(d.changes@, k as int, rust_struct_doc());
            }
            k = k + 1;
        }
        assert(d.changes@.subrange(0, d.changes@.len() as int) =~= d.changes@);
    } else {
        assert(code@ =~= b2 + Seq::<char>::empty());
    }
    code.append("    pub fn migrate_from_v");
    let fid = replace_dots(from);
    code.append(fid.as_str());
    code.append("(old: ");
    code.append(old_name.as_str());
    code.append(") -> Self {\n");
    code.append("        Self {\n");
    let names = migrated_field_names(old, &d.changes);
    let assigns = rust_assignments(&names, old, d);
    code.append(assigns.as_str());
    code.append("        }\n    }\n}\n");
    code
}

// ---------------------------------------------------------------------
// Enum migrations: removed and added variants, the default variant
// ---------------------------------------------------------------------

/// Names of the variants removed by the first `k` changes, in order.
pub open spec fn removed_names(cs: Seq<SchemaChange>, k: nat) -> Seq<Seq<char>>
    decreases k,
{
    if k == 0 {
        Seq::empty()
    } else {
        match cs[k - 1] {
            SchemaChange::VariantRemoved { name } => removed_names(cs, (k - 1) as nat).push(name@),
            _ => removed_names(cs, (k - 1) as nat),
        }
    }
}

/// Names of the variants added by the first `k` changes, in order.
pub open spec fn added_names(cs: Seq<SchemaChange>, k: nat) -> Seq<Seq<char>>
    decreases k,
{
    if k == 0 {
        Seq::empty()
    } else {
        match cs[k - 1] {
            SchemaChange::VariantAdded { name } => added_names(cs, (k - 1) as nat).push(name@),
            _ => added_names(cs, (k - 1) as nat),
        }
    }
}

/// The first variant whose name is not in `rm`.
pub open spec fn first_kept(vs: Seq<EnumVariantDefinition>, rm: Seq<Seq<char>>) -> Option<
    Seq<char>,
>
    decreases vs.len(),
{
    if vs.len() == 0 {
        None
    } else if !rm.contains(crate::ir::variant_name(vs[0])) {
        Some(crate::ir::variant_name(vs[0]))
    } else {
        first_kept(vs.drop_first(), rm)
    }
}

/// The variant that removed variants are mapped to.
pub open spec fn default_variant(old: EnumDefinition, cs: Seq<SchemaChange>) -> Seq<char> {
    match first_kept(old.variants@, removed_names(cs, cs.len())) {
        Some(n) => n,
        None => {
            let added = added_names(cs, cs.len());
            if added.len() > 0 {
                added[0]
            } else {
                "Default"@
            }
        },
    }
}

fn variant_names_of(cs: &Vec<SchemaChange>, removed: bool) -> (r: Vec<String>)
    ensures
        views(r@) == if removed {
            removed_names(cs@, cs@.len())
        } else {
            added_names(cs@, cs@.len())
        },
{
    let mut r: Vec<String> = Vec::new();
    let mut k: usize = 0;
    while k < cs.len()
        invariant
            k <= cs@.len(),
            views(r@) == if removed {
                removed_names(cs@, k as nat)
            } else {
                added_names(cs@, k as nat)
            },
        decreases cs@.len() - k,
    {
        let ghost before = r@;
        match &cs[k] {
            SchemaChange::VariantRemoved { name } => {
                if removed {
                    r.push(name.clone());
                    assert(views(r@) =~= views(before).push(name@));
                }
            },
            SchemaChange::VariantAdded { name } => {
                if !removed {
                    r.push(name.clone());
                    assert(views(r@) =~= views(before).push(name@));
                }
            },
            _ => {},
        }
        k = k + 1;
    }
    r
}

fn str_in(names: &Vec<String>, x: &str) -> (r: bool)
    ensures
        r == views(names@).contains(x@),
{
    let mut i: usize = 0;
    while i < names.len()
        invariant
            i <= names@.len(),
            forall|j: int| 0 <= j < i ==> names@[j]@ != x@,
        decreases names@.len() - i,
    {
        if str_eq(names[i].as_str(), x) {
            assert(views(names@)[i as int] == x@);
            return true;
        }
        i = i + 1;
    }
    assert forall|j: int| 0 <= j < views(names@).len() implies views(names@)[j] != x@ by {
        assert(views(names@)[j] == names@[j]@);
    }
    false
}

fn default_variant_exec(old: &EnumDefinition, cs: &Vec<SchemaChange>) -> (r: String)
    ensures
        r@ == default_variant(*old, cs@),
{
    let rm = variant_names_of(cs, true);
    let ghost rmv = views(rm@);
    let ghost vs = old.variants@;
    let mut i: usize = 0;
    assert(vs.subrange(0, vs.len() as int) =~= vs);
    while i < old.variants.len()
        invariant
            i <= vs.len(),
            vs == old.variants@,
            rmv == views(rm@),
            rmv == removed_names(cs@, cs@.len()),
            first_kept(vs, rmv) == first_kept(vs.subrange(i as int, vs.len() as int), rmv),
        decreases vs.len() - i,
    {
        assert(vs.subrange(i as int, vs.len() as int).drop_first() =~= vs.subrange(
            i + 1,
            vs.len() as int,
        ));
        if !str_in(&rm, old.variants[i].name()) {
            return old.variants[i].name().to_string();
        }
        i = i + 1;
    }
    let added = variant_names_of(cs, false);
    if added.len() > 0 {
        added[0].clone()
    } else {
        to_string("Default")
    }
}

// ---------------------------------------------------------------------
// Lists inside generated code
// ---------------------------------------------------------------------

/// `prefix0`, `prefix1`, ... for `n` entries.
pub open spec fn numbered(prefix: Seq<char>, n: nat) -> Seq<Seq<char>> {
    Seq::new(n, |i: int| prefix + dec(i as nat))
}

/// `prefix0, prefix1, ...` for `n` entries.
fn numbered_list(prefix: &str, n: usize) -> (r: String)
    ensures
        r@ == join(numbered(prefix@, n as nat), ", "@),
{
    let mut v: Vec<String> = Vec::new();
    let mut i: usize = 0;
    while i < n
        invariant
            i <= n,
            views(v@) =~= numbered(prefix@, i as nat),
        decreases n - i,
    {
        let ghost before = views(v@);
        let mut e = to_string(prefix);
        let d = usize_to_string(i);
        e.append(d.as_str());
        v.push(e);
        proof {
            assert(views(v@) =~= before.push(prefix@ + dec(i as nat)));
            assert(numbered(prefix@, (i + 1) as nat) =~= numbered(prefix@, i as nat).push(
                prefix@ + dec(i as nat),
            ));
        }
        i = i + 1;
    }
    join_strings(&v, ", ")
}

/// Types written in Rust, each not optional.
pub open spec fn rust_types(ts: Seq<TypeInfo>) -> Seq<Seq<char>> {
    ts.map_values(|t: TypeInfo| rust_type(t, false))
}

fn rust_type_list(ts: &Vec<TypeInfo>) -> (r: String)
    ensures
        r@ == join(rust_types(ts@), ", "@),
{
    let mut v: Vec<String> = Vec::new();
    let mut i: usize = 0;
    while i < ts.len()
        invariant
            i <= ts@.len(),
            views(v@) =~= rust_types(ts@.subrange(0, i as int)),
        decreases ts@.len() - i,
    {
        let ghost before = views(v@);
        v.push(map_type_to_rust(&ts[i], false));
        proof {
            assert(views(v@) =~= before.push(rust_type(ts@[i as int], false)));
            assert(rust_types(ts@.subrange(0, i + 1)) =~= rust_types(ts@.subrange(0, i as int)).push(
                rust_type(ts@[i as int], false),
            ));
        }
        i = i + 1;
    }
    assert(ts@.subrange(0, ts@.len() as int) =~= ts@);
    join_strings(&v, ", ")
}

/// Field names, each followed by `suffix`.
pub open spec fn names_with(fs: Seq<FieldDefinition>, suffix: Seq<char>) -> Seq<Seq<char>> {
    fs.map_values(|f: FieldDefinition| f.name@ + suffix)
}

/// Field names.
pub open spec fn names_of(fs: Seq<FieldDefinition>) -> Seq<Seq<char>> {
    fs.map_values(|f: FieldDefinition| f.name@)
}

fn field_name_list(fs: &Vec<FieldDefinition>, ignored: bool) -> (r: String)
    ensures
        r@ == if ignored {
            join(names_with(fs@, ":_"@), ", "@)
        } else {
            join(names_of(fs@), ", "@)
        },
{
    let mut v: Vec<String> = Vec::new();
    let mut i: usize = 0;
    while i < fs.len()
        invariant
            i <= fs@.len(),
            views(v@) =~= if ignored {
                names_with(fs@.subrange(0, i as int), ":_"@)
            } else {
                names_of(fs@.subrange(0, i as int))
            },
        decreases fs@.len() - i,
    {
        let ghost before = views(v@);
        let mut e = fs[i].name.clone();
        if ignored {
            e.append(":_");
        }
        v.push(e);
        proof {
            if ignored {
                assert(views(v@) =~= before.push(fs@[i as int].name@ + ":_"@));
                assert(names_with(fs@.subrange(0, i + 1), ":_"@) =~= names_with(
                    fs@.subrange(0, i as int),
                    ":_"@,
                ).push(fs@[i as int].name@ + ":_"@));
            } else {
                assert(views(v@) =~= before.push(fs@[i as int].name@));
                assert(names_of(fs@.subrange(0, i + 1)) =~= names_of(fs@.subrange(0, i as int)).push(
                    fs@[i as int].name@,
                ));
            }
        }
        i = i + 1;
    }
    assert(fs@.subrange(0, fs@.len() as int) =~= fs@);
    join_strings(&v, ", ")
}

// ---------------------------------------------------------------------
// Rust enum migration
// ---------------------------------------------------------------------

/// A field of an old struct variant.
pub open spec fn rust_variant_field() -> spec_fn(FieldDefinition) -> Seq<char> {
    |f: FieldDefinition| "        "@ + f.name@ + ": "@ + rust_type(f.type_info, f.optional) + ",\n"@
}

/// A variant of the old enum declaration.
pub open spec fn rust_old_variant() -> spec_fn(EnumVariantDefinition) -> Seq<char> {
    |v: EnumVariantDefinition|
        match v {
            EnumVariantDefinition::Unit { name } => "    "@ + name@ + ",\n"@,
            EnumVariantDefinition::Tuple { name, types } => "    "@ + name@ + "("@ + join(
                rust_types(types@),
                ", "@,
            ) + "),\n"@,
            EnumVariantDefinition::Struct { name, fields } => "    "@ + name@ + " {\n"@
                + concat_map(fields@, rust_variant_field()) + "    },\n"@,
        }
}

/// A doc line of the enum migration for one change.
pub open spec fn rust_enum_doc(dv: Seq<char>) -> spec_fn(SchemaChange) -> Seq<char> {
    |c: SchemaChange|
        match c {
            SchemaChange::VariantAdded { name } => "    /// - Added variant: "@ + name@ + "\n"@,
            SchemaChange::VariantRemoved { name } => "    /// - Removed variant: "@ + name@
                + " (mapped to "@ + dv + ")\n"@,
            _ => Seq::empty(),
        }
}

/// The match arm converting one old variant.
pub open spec fn rust_arm(on: Seq<char>, dv: Seq<char>, rm: Seq<Seq<char>>) -> spec_fn(
    EnumVariantDefinition,
) -> Seq<char> {
    |v: EnumVariantDefinition|
        {
            let vn = crate::ir::variant_name(v);
            if rm.contains(vn) {
                match v {
                    EnumVariantDefinition::Unit { .. } => "            "@ + on + "::"@ + vn
                        + " => Self::"@ + dv + ", // Removed: mapped to default\n"@,
                    EnumVariantDefinition::Tuple { types, .. } => "            "@ + on + "::"@ + vn
                        + "("@ + join(numbered("_"@, types@.len()), ", "@) + ") => Self::"@ + dv
                        + ", // Removed: mapped to default\n"@,
                    EnumVariantDefinition::Struct { fields, .. } => "            "@ + on + "::"@
                        + vn + " { "@ + join(names_with(fields@, ":_"@), ", "@) + " } => Self::"@
                        + dv + ", // Removed: mapped to default\n"@,
                }
            } else {
                match v {
                    EnumVariantDefinition::Unit { .. } => "            "@ + on + "::"@ + vn
                        + " => Self::"@ + vn + ",\n"@,
                    EnumVariantDefinition::Tuple { types, .. } => {
                        let vars = join(numbered("v"@, types@.len()), ", "@);
                        "            "@ + on + "::"@ + vn + "("@ + vars + ") => Self::"@ + vn + "("@
                            + vars + "),\n"@
                    },
                    EnumVariantDefinition::Struct { fields, .. } => {
                        let ns = join(names_of(fields@), ", "@);
                        "            "@ + on + "::"@ + vn + " { "@ + ns + " } => Self::"@ + vn
                            + " { "@ + ns + " },\n"@
                    },
                }
            }
        }
}

/// The Rust migration of an enum.
pub open spec fn rust_enum_migration(d: SchemaDiff, old: EnumDefinition) -> Seq<char> {
    let on = old_type_name(d);
    let dv = default_variant(old, d.changes@);
    "// Auto-generated migration code by LUMOS\n// Enum migration from v"@ + from_raw(d) + " to v"@
        + to_raw(d) + "\n"@ + "\n// Old version enum definition\n"@
        + "#[derive(BorshSerialize, BorshDeserialize)]\n"@ + "pub enum "@ + on + " {\n"@
        + concat_map(old.variants@, rust_old_variant()) + "}\n"@ + "\nimpl From<"@ + on + "> for "@
        + d.type_ident@ + " {\n"@ + "    /// Migrate from v"@ + from_raw(d) + " to v"@ + to_raw(d)
        + "\n"@ + (if d.changes@.len() == 0 {
        Seq::empty()
    } else {
        "    ///\n    /// Changes:\n"@ + concat_map(d.changes@, rust_enum_doc(dv))
    }) + "    fn from(old: "@ + on + ") -> Self {\n"@ + "        match old {\n"@ + concat_map(
        old.variants@,
        rust_arm(on, dv, removed_names(d.changes@, d.changes@.len())),
    ) + "        }\n    }\n}\n"@
}

#[verifier::spinoff_prover]
fn rust_old_variant_exec(v: &EnumVariantDefinition) -> (r: String)
    ensures
        r@ == (rust_old_variant())(*v),
{
    match v {
        EnumVariantDefinition::Unit { name } => {
            let mut r = to_string("    ");
            r.append(name.as_str());
            r.append(",\n");
            r
        },
        EnumVariantDefinition::Tuple { name, types } => {
            let mut r = to_string("    ");
            r.append(name.as_str());
            r.append("(");
            let l = rust_type_list(types);
            r.append(l.as_str());
            r.append("),\n");
            r
        },
        EnumVariantDefinition::Struct { name, fields } => {
            let mut r = to_string("    ");
            r.append(name.as_str());
            r.append(" {\n");
            let ghost b = r@;
            let mut i: usize = 0;
            while i < fields.len()
                invariant
                    i <= fields@.len(),
                    r@ == b + concat_map(fields@.subrange(0, i as int), rust_variant_field()),
                decreases fields@.len() - i,
            {
                let f = &fields[i];
                let ghost before = r@;
                r.append("        ");
                r.append(f.name.as_str());
                r.append(": ");
                let t = map_type_to_rust(&f.type_info, f.optional);
                r.append(t.as_str());
                r.append(",\n");
                proof {
                    lemma_concat_map_step(fields@, i as int, rust_variant_field());
                    assert(r@ =~= before + (rust_variant_field())(fields@[i as int]));
                }
                i = i + 1;
            }
            assert(fields@.subrange(0, fields@.len() as int) =~= fields@);
            r.append("    },\n");
            r
        },
    }
}

fn rust_enum_doc_exec(c: &SchemaChange, dv: &String) -> (r: String)
    ensures
        r@ == (rust_enum_doc(dv@))(*c),
{
    match c {
        SchemaChange::VariantAdded { name } => {
            let mut r = to_string("    /// - Added variant: ");
            r.append(name.as_str());
            r.append("\n");
            r
        },
        SchemaChange::VariantRemoved { name } => {
            let mut r = to_string("    /// - Removed variant: ");
            r.append(name.as_str());
            r.append(" (mapped to ");
            r.append(dv.as_str());
            r.append(")\n");
            r
        },
        _ => String::new(),
    }
}

fn rust_arm_exec(v: &EnumVariantDefinition, on: &String, dv: &String, rm: &Vec<String>) -> (r:
    String)
    ensures
        r@ == (rust_arm(on@, dv@, views(rm@)))(*v),
{
    let vn = v.name();
    let mut r = to_string("            ");
    r.append(on.as_str());
    r.append("::");
    r.append(vn);
    if str_in(rm, vn) {
        match v {
            EnumVariantDefinition::Unit { .. } => {
                r.append(" => Self::");
            },
            EnumVariantDefinition::Tuple { types, .. } => {
                r.append("(");
                let l = numbered_list("_", types.len());
                r.append(l.as_str());
                r.append(") => Self::");
            },
            EnumVariantDefinition::Struct { fields, .. } => {
                r.append(" { ");
                let l = field_name_list(fields, true);
                r.append(l.as_str());
                r.append(" } => Self::");
            },
        }
        r.append(dv.as_str());
        r.append(", // Removed: mapped to default\n");
    } else {
        match v {
            EnumVariantDefinition::Unit { .. } => {
                r.append(" => Self::");
                r.append(vn);
                r.append(",\n");
            },
            EnumVariantDefinition::Tuple { types, .. } => {
                let vars = numbered_list("v", types.len());
                r.append("(");
                r.append(vars.as_str());
                r.append(") => Self::");
                r.append(vn);
                r.append("(");
                r.append(vars.as_str());
                r.append("),\n");
            },
            EnumVariantDefinition::Struct { fields, .. } => {
                let ns = field_name_list(fields, false);
                r.append(" { ");
                r.append(ns.as_str());
                r.append(" } => Self::");
                r.append(vn);
                r.append(" { ");
                r.append(ns.as_str());
                r.append(" },\n");
            },
        }
    }
    r
}

#[verifier::spinoff_prover]
fn generate_rust_enum_migration(d: &SchemaDiff, old: &EnumDefinition) -> (r: String)
    ensures
        r@ == rust_enum_migration(*d, *old),
{
    let from = from_raw_exec(d);
    let to = to_raw_exec(d);
    let on = old_type_name_exec(d);
    let dv = default_variant_exec(old, &d.changes);
    let rm = variant_names_of(&d.changes, true);
    let mut code = to_string(
        "// Auto-generated migration code by LUMOS\n// Enum migration from v",
    );
    code.append(from);
    code.append(" to v");
    code.append(to);
    code.append("\n");
    code.append("\n// Old version enum definition\n");
    code.append("#[derive(BorshSerialize, BorshDeserialize)]\n");
    code.append("pub enum ");
    code.append(on.as_str());
    code.append(" {\n");
    let ghost b1 = code@;
    let mut i: usize = 0;
    while i < old.variants.len()
        invariant
            i <= old.variants@.len(),
            code@ == b1 + concat_map(old.variants@.subrange(0, i as int), rust_old_variant()),
        decreases old.variants@.len() - i,
    {
        let t = rust_old_variant_exec(&old.variants[i]);
        code.append(t.as_str());
        proof {
            lemma_concat_map_step(old.variants@, i as int, rust_old_variant());
        }
        i = i + 1;
    }
    assert(old.variants@.subrange(0, old.variants@.len() as int) =~= old.variants@);
    code.append("}\n");
    code.append("\nimpl From<");
    code.append(on.as_str());
    code.append("> for ");
    code.append(d.type_ident.as_str());
    code.append(" {\n");
    code.append("    /// Migrate from v");
    code.append(from);
    code.append(" to v");
    code.append(to);
    code.append("\n");
    let ghost b2 = code@;
    if d.changes.len() != 0 {
        code.append("    ///\n    /// Changes:\n");
        let ghost b3 = code@;
        let mut k: usize = 0;
        while k < d.changes.len()
            invariant
                k <= d.changes@.len(),
                code@ == b3 + concat_map(d.changes@.subrange(0, k as int), rust_enum_doc(dv@)),
            decreases d.changes@.len() - k,
        {
            let line = rust_enum_doc_exec(&d.changes[k], &dv);
            code.append(line.as_str());
            proof {
                lemma_concat_map_step(d.changes@, k as int, rust_enum_doc(dv@));
            }
            k = k + 1;
        }
        assert(d.changes@.subrange(0, d.changes@.len() as int) =~= d.changes@);
    } else {
        assert(code@ =~= b2 + Seq::<char>::empty());
    }
    code.append("    fn from(old: ");
    code.append(on.as_str());
    code.append(") -> Self {\n");
    code.append("        match old {\n");
    let ghost b4 = code@;
    let ghost f = rust_arm(on@, dv@, views(rm@));
    let mut j: usize = 0;
    while j < old.variants.len()
        invariant
            j <= old.variants@.len(),
            f == rust_arm(on@, dv@, views(rm@)),
            code@ == b4 + concat_map(old.variants@.subrange(0, j as int), f),
        decreases old.variants@.len() - j,
    {
        let t = rust_arm_exec(&old.variants[j], &on, &dv, &rm);
        code.append(t.as_str());
        proof {
            lemma_concat_map_step(old.variants@, j as int, f);
        }
        j = j + 1;
    }
    assert(old.variants@.subrange(0, old.variants@.len() as int) =~= old.variants@);
    code.append("        }\n    }\n}\n");
    code
}

/// The text written for a type alias, which needs no migration.
pub open spec fn alias_migration(d: SchemaDiff) -> Seq<char> {
    "// Type alias '"@ + d.type_ident@ + "' - no migration needed (resolved at compile time)\n"@
}

fn alias_migration_exec(d: &SchemaDiff) -> (r: String)
    ensures
        r@ == alias_migration(*d),
{
    let mut r = to_string("// Type alias '");
    r.append(d.type_ident.as_str());
    r.append("' - no migration needed (resolved at compile time)\n");
    r
}

/// The Rust migration code for a diff, given the old definition.
pub open spec fn rust_migration(d: SchemaDiff, old: TypeDefinition) -> Seq<char> {
    match old {
        TypeDefinition::Struct(s) => rust_struct_migration(d, s),
        TypeDefinition::Enum(e) => rust_enum_migration(d, e),
        TypeDefinition::TypeAlias(_) => alias_migration(d),
    }
}

/// Writes Rust code that converts values of the old version of a type into
/// the new version.
pub fn generate_rust_migration(d: &SchemaDiff, old: &TypeDefinition) -> (r: String)
    ensures
        r@ == rust_migration(*d, *old),
{
    match old {
        TypeDefinition::Struct(s) => generate_rust_struct_migration(d, s),
        TypeDefinition::Enum(e) => generate_rust_enum_migration(d, e),
        TypeDefinition::TypeAlias(_) => alias_migration_exec(d),
    }
}

// ---------------------------------------------------------------------
// TypeScript types and default values
// ---------------------------------------------------------------------

/// Whether `n` names a primitive that TypeScript holds as a `number`.
pub open spec fn is_ts_number(n: Seq<char>) -> bool {
    n == "u8"@ || n == "u16"@ || n == "u32"@ || n == "u64"@ || n == "i8"@ || n == "i16"@ || n
        == "i32"@ || n == "i64"@ || n == "f32"@ || n == "f64"@
}

fn is_ts_number_exec(n: &str) -> (r: bool)
    ensures
        r == is_ts_number(n@),
{
    str_eq(n, "u8") || str_eq(n, "u16") || str_eq(n, "u32") || str_eq(n, "u64") || str_eq(n, "i8")
        || str_eq(n, "i16") || str_eq(n, "i32") || str_eq(n, "i64") || str_eq(n, "f32") || str_eq(
        n,
        "f64",
    )
}

/// A type written in TypeScript; optional types get `| undefined`.
pub open spec fn ts_type(t: TypeInfo, optional: bool) -> Seq<char>
    decreases t, 1nat,
{
    match t {
        TypeInfo::Option(inner) => ts_type(*inner, false) + " | undefined"@,
        _ => if optional {
            ts_base(t) + " | undefined"@
        } else {
            ts_base(t)
        },
    }
}

/// A non-option type written in TypeScript.
pub open spec fn ts_base(t: TypeInfo) -> Seq<char>
    decreases t, 0nat,
{
    match t {
        TypeInfo::Primitive(n) => if is_ts_number(n@) {
            "number"@
        } else if n@ == "u128"@ || n@ == "i128"@ {
            "bigint"@
        } else if n@ == "bool"@ {
            "boolean"@
        } else if n@ == "string"@ || n@ == "String"@ {
            "string"@
        } else if n@ == "PublicKey"@ {
            "PublicKey"@
        } else {
            n@
        },
        TypeInfo::Generic(n) => n@,
        TypeInfo::UserDefined(n) => n@,
        TypeInfo::Array(inner) => ts_type(*inner, false) + "[]"@,
        TypeInfo::FixedArray { element, .. } => ts_type(*element, false) + "[]"@,
        TypeInfo::Option(inner) => ts_type(*inner, false) + " | undefined"@,
    }
}

/// Writes a type in TypeScript (see [`ts_type`]).
pub fn map_type_to_typescript(t: &TypeInfo, optional: bool) -> (r: String)
    ensures
        r@ == ts_type(*t, optional),
    decreases t, 1nat,
{
    match t {
        TypeInfo::Option(inner) => {
            let mut r = map_type_to_typescript(inner, false);
            r.append(" | undefined");
            r
        },
        _ => {
            let mut r = ts_base_exec(t);
            if optional {
                r.append(" | undefined");
            }
            r
        },
    }
}

fn ts_base_exec(t: &TypeInfo) -> (r: String)
    ensures
        r@ == ts_base(*t),
    decreases t, 0nat,
{
    match t {
        TypeInfo::Primitive(n) => {
            let n = n.as_str();
            if is_ts_number_exec(n) {
                to_string("number")
            } else if str_eq(n, "u128") || str_eq(n, "i128") {
                to_string("bigint")
            } else if str_eq(n, "bool") {
                to_string("boolean")
            } else if str_eq(n, "string") || str_eq(n, "String") {
                to_string("string")
            } else if str_eq(n, "PublicKey") {
                to_string("PublicKey")
            } else {
                to_string(n)
            }
        },
        TypeInfo::Generic(n) => n.clone(),
        TypeInfo::UserDefined(n) => n.clone(),
        TypeInfo::Array(inner) => {
            let mut r = map_type_to_typescript(inner, false);
            r.append("[]");
            r
        },
        TypeInfo::FixedArray { element, .. } => {
            let mut r = map_type_to_typescript(element, false);
            r.append("[]");
            r
        },
        TypeInfo::Option(inner) => {
            let mut r = map_type_to_typescript(inner, false);
            r.append(" | undefined");
            r
        },
    }
}

/// The TypeScript default value of a type.
pub open spec fn ts_default(t: TypeInfo) -> Seq<char>
    decreases t,
{
    match t {
        TypeInfo::Primitive(n) => if is_ts_number(n@) {
            "0"@
        } else if n@ == "u128"@ || n@ == "i128"@ {
            "0n"@
        } else if n@ == "bool"@ {
            "false"@
        } else if n@ == "string"@ || n@ == "String"@ {
            "\"\""@
        } else if n@ == "PublicKey"@ {
            "PublicKey.default"@
        } else {
            "undefined"@
        },
        TypeInfo::Generic(_) => "undefined"@,
        TypeInfo::UserDefined(_) => "undefined"@,
        TypeInfo::Array(_) => "[]"@,
        TypeInfo::FixedArray { element, size } => "new Array("@ + dec(size as nat) + ").fill("@
            + ts_default(*element) + ")"@,
        TypeInfo::Option(_) => "undefined"@,
    }
}

/// Writes the TypeScript default value of a type.
pub fn get_typescript_default_value_for_type(t: &TypeInfo) -> (r: String)
    ensures
        r@ == ts_default(*t),
    decreases t,
{
    match t {
        TypeInfo::Primitive(n) => {
            let n = n.as_str();
            if is_ts_number_exec(n) {
                to_string("0")
            } else if str_eq(n, "u128") || str_eq(n, "i128") {
                to_string("0n")
            } else if str_eq(n, "bool") {
                to_string("false")
            } else if str_eq(n, "string") || str_eq(n, "String") {
                to_string("\"\"")
            } else if str_eq(n, "PublicKey") {
                to_string("PublicKey.default")
            } else {
                to_string("undefined")
            }
        },
        TypeInfo::Generic(_) => to_string("undefined"),
        TypeInfo::UserDefined(_) => to_string("undefined"),
        TypeInfo::Array(_) => to_string("[]"),
        TypeInfo::FixedArray { element, size } => {
            let mut r = to_string("new Array(");
            let n = usize_to_string(*size);
            r.append(n.as_str());
            r.append(").fill(");
            let e = get_typescript_default_value_for_type(element);
            r.append(e.as_str());
            r.append(")");
            r
        },
        TypeInfo::Option(_) => to_string("undefined"),
    }
}

/// The TypeScript value given to a field added by the changes.
pub open spec fn ts_default_added(n: Seq<char>, cs: Seq<SchemaChange>) -> Seq<char>
    decreases cs.len(),
{
    if cs.len() == 0 {
        "undefined"@
    } else {
        match cs[0] {
            SchemaChange::FieldAdded { name, type_info, optional } => if name@ == n {
                if optional {
                    "undefined"@
                } else {
                    ts_default(type_info)
                }
            } else {
                ts_default_added(n, cs.drop_first())
            },
            _ => ts_default_added(n, cs.drop_first()),
        }
    }
}

/// Writes the TypeScript value given to an added field.
pub fn get_typescript_default_value_for_added_field(n: &String, cs: &Vec<SchemaChange>) -> (r:
    String)
    ensures
        r@ == ts_default_added(n@, cs@),
{
    let mut i: usize = 0;
    assert(cs@.subrange(0, cs@.len() as int) =~= cs@);
    while i < cs.len()
        invariant
            i <= cs@.len(),
            ts_default_added(n@, cs@) == ts_default_added(
                n@,
                cs@.subrange(i as int, cs@.len() as int),
            ),
        decreases cs@.len() - i,
    {
        assert(cs@.subrange(i as int, cs@.len() as int).drop_first() =~= cs@.subrange(
            i + 1,
            cs@.len() as int,
        ));
        match &cs[i] {
            SchemaChange::FieldAdded { name, type_info, optional } => {
                if *name == *n {
                    if *optional {
                        return to_string("undefined");
                    }
                    return get_typescript_default_value_for_type(type_info);
                }
            },
            _ => {},
        }
        i = i + 1;
    }
    to_string("undefined")
}

// ---------------------------------------------------------------------
// TypeScript struct migration
// ---------------------------------------------------------------------

/// `?` for an optional field.
pub open spec fn opt_mark(optional: bool) -> Seq<char> {
    if optional {
        "?"@
    } else {
        Seq::empty()
    }
}

/// A field of the old interface.
pub open spec fn ts_old_field() -> spec_fn(FieldDefinition) -> Seq<char> {
    |f: FieldDefinition|
        "  "@ + f.name@ + opt_mark(f.optional) + ": "@ + ts_type(f.type_info, f.optional) + ";\n"@
}

/// A doc line of the TypeScript struct migration.
pub open spec fn ts_struct_doc() -> spec_fn(SchemaChange) -> Seq<char> {
    |c: SchemaChange|
        match c {
            SchemaChange::FieldAdded { name, .. } => " * - Added field: "@ + name@ + "\n"@,
            SchemaChange::FieldRemoved { name, .. } => " * - Removed field: "@ + name@ + "\n"@,
            SchemaChange::FieldTypeChanged { name, .. } => " * - Changed field type: "@ + name@
                + "\n"@,
            _ => Seq::empty(),
        }
}

/// One property of the migrated object.
pub open spec fn ts_assign(fs: Seq<FieldDefinition>, d: SchemaDiff) -> spec_fn(Seq<char>) -> Seq<
    char,
> {
    |n: Seq<char>|
        if last_field(fs, n) >= 0 {
            "    "@ + n + ": old."@ + n + ",\n"@
        } else {
            "    "@ + n + ": "@ + ts_default_added(n, d.changes@) + ", // Default: Added in v"@
                + to_raw(d) + "\n"@
        }
}

/// The name of the TypeScript migration function.
pub open spec fn ts_fn_name(d: SchemaDiff) -> Seq<char> {
    "migrate"@ + d.type_ident@ + "FromV"@ + from_ident(d)
}

/// The TypeScript migration of a struct.
pub open spec fn ts_struct_migration(d: SchemaDiff, old: StructDefinition) -> Seq<char> {
    "// Auto-generated migration code by LUMOS\n// Migration from v"@ + from_raw(d) + " to v"@
        + to_raw(d) + "\n\n"@ + "// Old version interface\n"@ + "export interface "@
        + old_type_name(d) + " {\n"@ + concat_map(old.fields@, ts_old_field()) + "}\n\n"@
        + "/**\n"@ + " * Migrate "@ + d.type_ident@ + " from v"@ + from_raw(d) + " to v"@ + to_raw(
        d,
    ) + "\n"@ + (if d.changes@.len() == 0 {
        Seq::empty()
    } else {
        " *\n * Changes:\n"@ + concat_map(d.changes@, ts_struct_doc())
    }) + " */\n"@ + "export function "@ + ts_fn_name(d) + "(old: "@ + old_type_name(d) + "): "@
        + d.type_ident@ + " {\n"@ + "  return {\n"@ + concat_map(
        migrated_names(old, d.changes@),
        ts_assign(old.fields@, d),
    ) + "  };\n"@ + "}\n"@
}

fn ts_struct_doc_exec(c: &SchemaChange) -> (r: String)
    ensures
        r@ == (ts_struct_doc())(*c),
{
    match c {
        SchemaChange::FieldAdded { name, .. } => {
            let mut r = to_string(" * - Added field: ");
            r.append(name.as_str());
            r.append("\n");
            r
        },
        SchemaChange::FieldRemoved { name, .. } => {
            let mut r = to_string(" * - Removed field: ");
            r.append(name.as_str());
            r.append("\n");
            r
        },
        SchemaChange::FieldTypeChanged { name, .. } => {
            let mut r = to_string(" * - Changed field type: ");
            r.append(name.as_str());
            r.append("\n");
            r
        },
        _ => String::new(),
    }
}

fn ts_fn_name_exec(d: &SchemaDiff) -> (r: String)
    ensures
        r@ == ts_fn_name(*d),
{
    let mut r = to_string("migrate");
    r.append(d.type_ident.as_str());
    r.append("FromV");
    let v = replace_dots(from_raw_exec(d));
    r.append(v.as_str());
    r
}

#[verifier::spinoff_prover]
#[verifier::rlimit(40)]
fn typescript_assignments(names: &Vec<String>, old: &StructDefinition, d: &SchemaDiff) -> (r: String)
    ensures
        r@ == concat_map(views(names@), ts_assign(old.fields@, *d)),
{
    let mut code = String::new();
    let ghost b4 = code@;
    let to = to_raw_exec(d);
    let ghost nv = views(names@);
    let mut j: usize = 0;
    while j < names.len()
        invariant
            j <= names@.len(),
            nv == views(names@),
            to@ == to_raw(*d),
            code@ == b4 + concat_map(nv.subrange(0, j as int), ts_assign(old.fields@, *d)),
        decreases names@.len() - j,
    {
        let n = &names[j];
        assert(nv[j as int] == n@);
        if has_field(&old.fields, n) {
            code.append("    ");
            code.append(n.as_str());
            code.append(": old.");
            code.append(n.as_str());
            code.append(",\n");
        } else {
            let dv = get_typescript_default_value_for_added_field(n, &d.changes);
            code.append("    ");
            code.append(n.as_str());
            code.append(": ");
            code.append(dv.as_str());
            code.append(", // Default: Added in v");
            code.append(to);
            code.append("\n");
        }
        proof {
            lemma_concat_map_step(nv, j as int, ts_assign(old.fields@, *d));
        }
        j = j + 1;
    }
    assert(nv.subrange(0, nv.len() as int) =~= nv);
    assert(code@ =~= concat_map(views(names@), ts_assign(old.fields@, *d)));
    code
}

#[verifier::spinoff_prover]
fn generate_typescript_struct_migration(d: &SchemaDiff, old: &StructDefinition) -> (r: String)
    ensures
        r@ == ts_struct_migration(*d, *old),
{
    let from = from_raw_exec(d);
    let to = to_raw_exec(d);
    let on = old_type_name_exec(d);
    let fname = ts_fn_name_exec(d);
    let mut code = to_string("// Auto-generated migration code by LUMOS\n// Migration from v");
    code.append(from);
    code.append(" to v");
    code.append(to);
    code.append("\n\n");
    code.append("// Old version interface\n");
    code.append("export interface ");
    code.append(on.as_str());
    code.append(" {\n");
    let ghost b1 = code@;
    let mut i: usize = 0;
    while i < old.fields.len()
        invariant
            i <= old.fields@.len(),
            code@ == b1 + concat_map(old.fields@.subrange(0, i as int), ts_old_field()),
        decreases old.fields@.len() - i,
    {
        let f = &old.fields[i];
        code.append("  ");
        code.append(f.name.as_str());
        if f.optional {
            code.append("?");
        }
        code.append(": ");
        let t = map_type_to_typescript(&f.type_info, f.optional);
        code.append(t.as_str());
        code.append(";\n");
        proof {
            lemma_concat_map_step(old.fields@, i as int, ts_old_field());
        }
        i = i + 1;
    }
    assert(old.fields@.subrange(0, old.fields@.len() as int) =~= old.fields@);
    code.append("}\n\n");
    code.append("/**\n");
    code.append(" * Migrate ");
    code.append(d.type_ident.as_str());
    code.append(" from v");
    code.append(from);
    code.append(" to v");
    code.append(to);
    code.append("\n");
    let ghost b2 = code@;
    if d.changes.len() != 0 {
        code.append(" *\n * Changes:\n");
        let ghost b3 = code@;
        let mut k: usize = 0;
        while k < d.changes.len()
            invariant
                k <= d.changes@.len(),
                code@ == b3 + concat_map(d.changes@.subrange(0, k as int), ts_struct_doc()),
            decreases d.changes@.len() - k,
        {
            let line = ts_struct_doc_exec(&d.changes[k]);
            code.append(line.as_str());
            proof {
                lemma_concat_map_step(d.changes@, k as int, ts_struct_doc());
            }
            k = k + 1;
        }
        assert(d.changes@.subrange(0, d.changes@.len() as int) =~= d.changes@);
    } else {
        assert(code@ =~= b2 + Seq::<char>::empty());
    }
    code.append(" */\n");
    code.append("export function ");
    code.append(fname.as_str());
    code.append("(old: ");
    code.append(on.as_str());
    code.append("): ");
    code.append(d.type_ident.as_str());
    code.append(" {\n");
    code.append("  return {\n");
    let names = migrated_field_names(old, &d.changes);
    let assigns = typescript_assignments(&names, old, d);
    code.append(assigns.as_str());
    code.append("  };\n");
    code.append("}\n");
    code
}

// ---------------------------------------------------------------------
// TypeScript enum migration
// ---------------------------------------------------------------------

/// Types written in TypeScript, each not optional.
pub open spec fn ts_types(ts: Seq<TypeInfo>) -> Seq<Seq<char>> {
    ts.map_values(|t: TypeInfo| ts_type(t, false))
}

/// The members of a struct variant's TypeScript type.
pub open spec fn ts_members(fs: Seq<FieldDefinition>) -> Seq<Seq<char>> {
    fs.map_values(
        |f: FieldDefinition| f.name@ + opt_mark(f.optional) + ": "@ + ts_type(f.type_info, f.optional),
    )
}

fn ts_type_list(ts: &Vec<TypeInfo>) -> (r: String)
    ensures
        r@ == join(ts_types(ts@), ", "@),
{
    let mut v: Vec<String> = Vec::new();
    let mut i: usize = 0;
    while i < ts.len()
        invariant
            i <= ts@.len(),
            views(v@) =~= ts_types(ts@.subrange(0, i as int)),
        decreases ts@.len() - i,
    {
        let ghost before = views(v@);
        v.push(map_type_to_typescript(&ts[i], false));
        proof {
            assert(views(v@) =~= before.push(ts_type(ts@[i as int], false)));
            assert(ts_types(ts@.subrange(0, i + 1)) =~= ts_types(ts@.subrange(0, i as int)).push(
                ts_type(ts@[i as int], false),
            ));
        }
        i = i + 1;
    }
    assert(ts@.subrange(0, ts@.len() as int) =~= ts@);
    join_strings(&v, ", ")
}

fn ts_member_list(fs: &Vec<FieldDefinition>) -> (r: String)
    ensures
        r@ == join(ts_members(fs@), "; "@),
{
    let mut v: Vec<String> = Vec::new();
    let mut i: usize = 0;
    while i < fs.len()
        invariant
            i <= fs@.len(),
            views(v@) =~= ts_members(fs@.subrange(0, i as int)),
        decreases fs@.len() - i,
    {
        let ghost before = views(v@);
        let f = &fs[i];
        let mut e = f.name.clone();
        if f.optional {
            e.append("?");
        }
        e.append(": ");
        let t = map_type_to_typescript(&f.type_info, f.optional);
        e.append(t.as_str());
        v.push(e);
        proof {
            let m = f.name@ + opt_mark(f.optional) + ": "@ + ts_type(f.type_info, f.optional);
            assert(views(v@) =~= before.push(m));
            assert(ts_members(fs@.subrange(0, i + 1)) =~= ts_members(fs@.subrange(0, i as int)).push(
                m,
            ));
        }
        i = i + 1;
    }
    assert(fs@.subrange(0, fs@.len() as int) =~= fs@);
    join_strings(&v, "; ")
}

/// The type declared for one old variant.
pub open spec fn ts_variant_type(tn: Seq<char>, fv: Seq<char>) -> spec_fn(
    EnumVariantDefinition,
) -> Seq<char> {
    |v: EnumVariantDefinition|
        match v {
            EnumVariantDefinition::Unit { name } => "type "@ + tn + "V"@ + fv + name@
                + " = { kind: '"@ + name@ + "' };\n"@,
            EnumVariantDefinition::Tuple { name, types } => "type "@ + tn + "V"@ + fv + name@
                + " = { kind: '"@ + name@ + "'; fields: ["@ + join(ts_types(types@), ", "@)
                + "] };\n"@,
            EnumVariantDefinition::Struct { name, fields } => "type "@ + tn + "V"@ + fv + name@
                + " = { kind: '"@ + name@ + "'; "@ + join(ts_members(fields@), "; "@) + " };\n"@,
        }
}

/// The names of the per-variant types, in variant order.
pub open spec fn ts_union_members(tn: Seq<char>, fv: Seq<char>, vs: Seq<EnumVariantDefinition>) -> Seq<
    Seq<char>,
> {
    vs.map_values(|v: EnumVariantDefinition| tn + "V"@ + fv + crate::ir::variant_name(v))
}

/// A doc line of the TypeScript enum migration.
pub open spec fn ts_enum_doc(dv: Seq<char>) -> spec_fn(SchemaChange) -> Seq<char> {
    |c: SchemaChange|
        match c {
            SchemaChange::VariantAdded { name } => " * - Added variant: "@ + name@ + "\n"@,
            SchemaChange::VariantRemoved { name } => " * - Removed variant: "@ + name@
                + " (mapped to "@ + dv + ")\n"@,
            _ => Seq::empty(),
        }
}

/// A copied property of a struct variant.
pub open spec fn ts_copy_field() -> spec_fn(FieldDefinition) -> Seq<char> {
    |f: FieldDefinition| "        "@ + f.name@ + ": old."@ + f.name@ + ",\n"@
}

/// The `case` converting one old variant.
pub open spec fn ts_case(dv: Seq<char>, rm: Seq<Seq<char>>) -> spec_fn(EnumVariantDefinition) -> Seq<
    char,
> {
    |v: EnumVariantDefinition|
        {
            let vn = crate::ir::variant_name(v);
            if rm.contains(vn) {
                "    case '"@ + vn + "': // Removed: mapped to default\n"@ + "      return { kind: '"@
                    + dv + "' };\n"@
            } else {
                match v {
                    EnumVariantDefinition::Unit { .. } => "    case '"@ + vn + "':\n"@
                        + "      return { kind: '"@ + vn + "' };\n"@,
                    EnumVariantDefinition::Tuple { .. } => "    case '"@ + vn + "':\n"@
                        + "      return { kind: '"@ + vn + "', fields: old.fields };\n"@,
                    EnumVariantDefinition::Struct { fields, .. } => "    case '"@ + vn + "':\n"@
                        + "      return {\n        kind: '"@ + vn + "',\n"@ + concat_map(
                        fields@,
                        ts_copy_field(),
                    ) + "      };\n"@,
                }
            }
        }
}

/// The TypeScript migration of an enum.
pub open spec fn ts_enum_migration(d: SchemaDiff, old: EnumDefinition) -> Seq<char> {
    let on = old_type_name(d);
    let dv = default_variant(old, d.changes@);
    "// Auto-generated migration code by LUMOS\n// Enum migration from v"@ + from_raw(d) + " to v"@
        + to_raw(d) + "\n\n"@ + "// Old version enum type\n"@ + concat_map(
        old.variants@,
        ts_variant_type(d.type_ident@, from_ident(d)),
    ) + "export type "@ + on + " = "@ + join(
        ts_union_members(d.type_ident@, from_ident(d), old.variants@),
        " | "@,
    ) + ";\n\n"@ + "/**\n"@ + " * Migrate "@ + d.type_ident@ + " from v"@ + from_raw(d) + " to v"@
        + to_raw(d) + "\n"@ + (if d.changes@.len() == 0 {
        Seq::empty()
    } else {
        " *\n * Changes:\n"@ + concat_map(d.changes@, ts_enum_doc(dv))
    }) + " */\n"@ + "export function "@ + ts_fn_name(d) + "(old: "@ + on + "): "@ + d.type_ident@
        + " {\n"@ + "  switch (old.kind) {\n"@ + concat_map(
        old.variants@,
        ts_case(dv, removed_names(d.changes@, d.changes@.len())),
    ) + "  }\n"@ + "}\n"@
}

fn ts_variant_type_exec(v: &EnumVariantDefinition, tn: &String, fv: &String) -> (r: String)
    ensures
        r@ == (ts_variant_type(tn@, fv@))(*v),
{
    let mut r = to_string("type ");
    r.append(tn.as_str());
    r.append("V");
    r.append(fv.as_str());
    match v {
        EnumVariantDefinition::Unit { name } => {
            r.append(name.as_str());
            r.append(" = { kind: '");
            r.append(name.as_str());
            r.append("' };\n");
        },
        EnumVariantDefinition::Tuple { name, types } => {
            r.append(name.as_str());
            r.append(" = { kind: '");
            r.append(name.as_str());
            r.append("'; fields: [");
            let l = ts_type_list(types);
            r.append(l.as_str());
            r.append("] };\n");
        },
        EnumVariantDefinition::Struct { name, fields } => {
            r.append(name.as_str());
            r.append(" = { kind: '");
            r.append(name.as_str());
            r.append("'; ");
            let l = ts_member_list(fields);
            r.append(l.as_str());
            r.append(" };\n");
        },
    }
    r
}

fn ts_union_exec(tn: &String, fv: &String, vs: &Vec<EnumVariantDefinition>) -> (r: String)
    ensures
        r@ == join(ts_union_members(tn@, fv@, vs@), " | "@),
{
    let mut v: Vec<String> = Vec::new();
    let mut i: usize = 0;
    while i < vs.len()
        invariant
            i <= vs@.len(),
            views(v@) =~= ts_union_members(tn@, fv@, vs@.subrange(0, i as int)),
        decreases vs@.len() - i,
    {
        let ghost before = views(v@);
        let mut e = tn.clone();
        e.append("V");
        e.append(fv.as_str());
        e.append(vs[i].name());
        v.push(e);
        proof {
            let m = tn@ + "V"@ + fv@ + crate::ir::variant_name(vs@[i as int]);
            assert(views(v@) =~= before.push(m));
            assert(ts_union_members(tn@, fv@, vs@.subrange(0, i + 1)) =~= ts_union_members(
                tn@,
                fv@,
                vs@.subrange(0, i as int),
            ).push(m));
        }
        i = i + 1;
    }
    assert(vs@.subrange(0, vs@.len() as int) =~= vs@);
    join_strings(&v, " | ")
}

fn ts_enum_doc_exec(c: &SchemaChange, dv: &String) -> (r: String)
    ensures
        r@ == (ts_enum_doc(dv@))(*c),
{
    match c {
        SchemaChange::VariantAdded { name } => {
            let mut r = to_string(" * - Added variant: ");
            r.append(name.as_str());
            r.append("\n");
            r
        },
        SchemaChange::VariantRemoved { name } => {
            let mut r = to_string(" * - Removed variant: ");
            r.append(name.as_str());
            r.append(" (mapped to ");
            r.append(dv.as_str());
            r.append(")\n");
            r
        },
        _ => String::new(),
    }
}

#[verifier::spinoff_prover]
fn ts_case_exec(v: &EnumVariantDefinition, dv: &String, rm: &Vec<String>) -> (r: String)
    ensures
        r@ == (ts_case(dv@, views(rm@)))(*v),
{
    let vn = v.name();
    let mut r = to_string("    case '");
    r.append(vn);
    if str_in(rm, vn) {
        r.append("': // Removed: mapped to default\n");
        r.append("      return { kind: '");
        r.append(dv.as_str());
        r.append("' };\n");
    } else {
        r.append("':\n");
        match v {
            EnumVariantDefinition::Unit { .. } => {
                r.append("      return { kind: '");
                r.append(vn);
                r.append("' };\n");
            },
            EnumVariantDefinition::Tuple { .. } => {
                r.append("      return { kind: '");
                r.append(vn);
                r.append("', fields: old.fields };\n");
            },
            EnumVariantDefinition::Struct { fields, .. } => {
                r.append("      return {\n        kind: '");
                r.append(vn);
                r.append("',\n");
                let ghost b = r@;
                let mut i: usize = 0;
                while i < fields.len()
                    invariant
                        i <= fields@.len(),
                        r@ == b + concat_map(fields@.subrange(0, i as int), ts_copy_field()),
                    decreases fields@.len() - i,
                {
                    r.append("        ");
                    r.append(fields[i].name.as_str());
                    r.append(": old.");
                    r.append(fields[i].name.as_str());
                    r.append(",\n");
                    proof {
                        lemma_concat_map_step(fields@, i as int, ts_copy_field());
                    }
                    i = i + 1;
                }
                assert(fields@.subrange(0, fields@.len() as int) =~= fields@);
                r.append("      };\n");
            },
        }
    }
    r
}

#[verifier::spinoff_prover]
fn generate_typescript_enum_migration(d: &SchemaDiff, old: &EnumDefinition) -> (r: String)
    ensures
        r@ == ts_enum_migration(*d, *old),
{
    let from = from_raw_exec(d);
    let to = to_raw_exec(d);
    let on = old_type_name_exec(d);
    let fv = replace_dots(from);
    let fname = ts_fn_name_exec(d);
    let dv = default_variant_exec(old, &d.changes);
    let rm = variant_names_of(&d.changes, true);
    let mut code = to_string(
        "// Auto-generated migration code by LUMOS\n// Enum migration from v",
    );
    code.append(from);
    code.append(" to v");
    code.append(to);
    code.append("\n\n");
    code.append("// Old version enum type\n");
    let ghost b1 = code@;
    let ghost f1 = ts_variant_type(d.type_ident@, fv@);
    let mut i: usize = 0;
    while i < old.variants.len()
        invariant
            i <= old.variants@.len(),
            f1 == ts_variant_type(d.type_ident@, fv@),
            code@ == b1 + concat_map(old.variants@.subrange(0, i as int), f1),
        decreases old.variants@.len() - i,
    {
        let t = ts_variant_type_exec(&old.variants[i], &d.type_ident, &fv);
        code.append(t.as_str());
        proof {
            lemma_concat_map_step(old.variants@, i as int, f1);
        }
        i = i + 1;
    }
    assert(old.variants@.subrange(0, old.variants@.len() as int) =~= old.variants@);
    code.append("export type ");
    code.append(on.as_str());
    code.append(" = ");
    let u = ts_union_exec(&d.type_ident, &fv, &old.variants);
    code.append(u.as_str());
    code.append(";\n\n");
    code.append("/**\n");
    code.append(" * Migrate ");
    code.append(d.type_ident.as_str());
    code.append(" from v");
    code.append(from);
    code.append(" to v");
    code.append(to);
    code.append("\n");
    let ghost b2 = code@;
    if d.changes.len() != 0 {
        code.append(" *\n * Changes:\n");
        let ghost b3 = code@;
        let mut k: usize = 0;
        while k < d.changes.len()
            invariant
                k <= d.changes@.len(),
                code@ == b3 + concat_map(d.changes@.subrange(0, k as int), ts_enum_doc(dv@)),
            decreases d.changes@.len() - k,
        {
            let line = ts_enum_doc_exec(&d.changes[k], &dv);
            code.append(line.as_str());
            proof {
                lemma_concat_map_step(d.changes@, k as int, ts_enum_doc(dv@));
            }
            k = k + 1;
        }
        assert(d.changes@.subrange(0, d.changes@.len() as int) =~= d.changes@);
    } else {
        assert(code@ =~= b2 + Seq::<char>::empty());
    }
    code.append(" */\n");
    code.append("export function ");
    code.append(fname.as_str());
    code.append("(old: ");
    code.append(on.as_str());
    code.append("): ");
    code.append(d.type_ident.as_str());
    code.append(" {\n");
    code.append("  switch (old.kind) {\n");
    let ghost b4 = code@;
    let ghost f = ts_case(dv@, views(rm@));
    let mut j: usize = 0;
    while j < old.variants.len()
        invariant
            j <= old.variants@.len(),
            f == ts_case(dv@, views(rm@)),
            code@ == b4 + concat_map(old.variants@.subrange(0, j as int), f),
        decreases old.variants@.len() - j,
    {
        let t = ts_case_exec(&old.variants[j], &dv, &rm);
        code.append(t.as_str());
        proof {
            lemma_concat_map_step(old.variants@, j as int, f);
        }
        j = j + 1;
    }
    assert(old.variants@.subrange(0, old.variants@.len() as int) =~= old.variants@);
    code.append("  }\n");
    code.append("}\n");
    code
}

/// The TypeScript migration code for a diff, given the old definition.
pub open spec fn ts_migration(d: SchemaDiff, old: TypeDefinition) -> Seq<char> {
    match old {
        TypeDefinition::Struct(s) => ts_struct_migration(d, s),
        TypeDefinition::Enum(e) => ts_enum_migration(d, e),
        TypeDefinition::TypeAlias(_) => alias_migration(d),
    }
}

/// Writes TypeScript code that converts values of the old version of a
/// type into the new version.
pub fn generate_typescript_migration(d: &SchemaDiff, old: &TypeDefinition) -> (r: String)
    ensures
        r@ == ts_migration(*d, *old),
{
    match old {
        TypeDefinition::Struct(s) => generate_typescript_struct_migration(d, s),
        TypeDefinition::Enum(e) => generate_typescript_enum_migration(d, e),
        TypeDefinition::TypeAlias(_) => alias_migration_exec(d),
    }
}


/// A default value is `false` only for `bool`, and then it is `false` in
/// both languages: in the Rust migration as in the TypeScript one, a new
/// required `bool` field starts out false.
pub proof fn law_bool_defaults_to_false(t: TypeInfo)
    ensures
        (rust_default(t) == "false"@) <==> (t matches TypeInfo::Primitive(n) && n@ == "bool"@),
        (ts_default(t) == "false"@) <==> (t matches TypeInfo::Primitive(n) && n@ == "bool"@),
{
    reveal_strlit("false");
    reveal_strlit("0");
    reveal_strlit("0.0");
    reveal_strlit("0n");
    reveal_strlit("String::new()");
    reveal_strlit("Pubkey::default()");
    reveal_strlit("Default::default()");
    reveal_strlit("Vec::new()");
    reveal_strlit("None");
    reveal_strlit("[");
    reveal_strlit("\"\"");
    reveal_strlit("PublicKey.default");
    reveal_strlit("undefined");
    reveal_strlit("[]");
    reveal_strlit("new Array(");
    reveal_strlit("bool");
    reveal_strlit("u8");
    reveal_strlit("u16");
    reveal_strlit("u32");
    reveal_strlit("u64");
    reveal_strlit("u128");
    reveal_strlit("i8");
    reveal_strlit("i16");
    reveal_strlit("i32");
    reveal_strlit("i64");
    reveal_strlit("i128");
    reveal_strlit("f32");
    reveal_strlit("f64");
    reveal_strlit("string");
    reveal_strlit("String");
    reveal_strlit("PublicKey");
    match t {
        TypeInfo::FixedArray { element, size } => {
            let rd = "["@ + rust_default(*element) + "; "@ + dec(size as nat) + "]"@;
            let td = "new Array("@ + dec(size as nat) + ").fill("@ + ts_default(*element) + ")"@;
            assert(rd[0] != "false"@[0]);
            assert(td[0] != "false"@[0]);
            assert(!(rd =~= "false"@));
            assert(!(td =~= "false"@));
        },
        TypeInfo::Primitive(n) => {
            if n@ == "bool"@ {
                assert(n@[0] == 'b');
                assert("u8"@[0] != 'b');
                assert("u16"@[0] != 'b');
                assert("u32"@[0] != 'b');
                assert("u64"@[0] != 'b');
                assert("u128"@[0] != 'b');
                assert("i8"@[0] != 'b');
                assert("i16"@[0] != 'b');
                assert("i32"@[0] != 'b');
                assert("i64"@[0] != 'b');
                assert("i128"@[0] != 'b');
                assert("f32"@[0] != 'b');
                assert("f64"@[0] != 'b');
                assert(!is_int_name(n@));
                assert(!is_ts_number(n@));
            }
            assert(n@ == "bool"@ ==> rust_default(t) == "false"@);
            assert(n@ != "bool"@ ==> rust_default(t).len() != 5);
            assert(n@ == "bool"@ ==> ts_default(t) == "false"@);
            assert(n@ != "bool"@ ==> ts_default(t).len() != 5);
        },
        _ => {
            assert(rust_default(t).len() != 5);
            assert(ts_default(t).len() != 5);
        },
    }
}


/// The Rust and TypeScript migrations give a new field the same default:
/// zero for numbers, the empty string, the default public key, the empty
/// vector, and no value (`Default::default()` or `None` in Rust,
/// `undefined` in TypeScript) for the rest but fixed-size arrays.
pub proof fn law_defaults_agree_across_languages(t: TypeInfo)
    ensures
        (rust_default(t) == "0"@ || rust_default(t) == "0.0"@) <==> (ts_default(t) == "0"@
            || ts_default(t) == "0n"@),
        (rust_default(t) == "String::new()"@) <==> (ts_default(t) == "\"\""@),
        (rust_default(t) == "Pubkey::default()"@) <==> (ts_default(t) == "PublicKey.default"@),
        (rust_default(t) == "Vec::new()"@) <==> (ts_default(t) == "[]"@),
        (rust_default(t) == "Default::default()"@ || rust_default(t) == "None"@) <==> (ts_default(t)
            == "undefined"@),
{
    reveal_strlit("u8");
    reveal_strlit("u16");
    reveal_strlit("u32");
    reveal_strlit("u64");
    reveal_strlit("u128");
    reveal_strlit("i8");
    reveal_strlit("i16");
    reveal_strlit("i32");
    reveal_strlit("i64");
    reveal_strlit("i128");
    reveal_strlit("f32");
    reveal_strlit("f64");
    reveal_strlit("bool");
    reveal_strlit("string");
    reveal_strlit("String");
    reveal_strlit("PublicKey");
    reveal_strlit("0");
    reveal_strlit("[");
    reveal_strlit("new Array(");
    reveal_strlit("0.0");
    reveal_strlit("0n");
    reveal_strlit("false");
    reveal_strlit("String::new()");
    reveal_strlit("Pubkey::default()");
    reveal_strlit("Default::default()");
    reveal_strlit("Vec::new()");
    reveal_strlit("None");
    reveal_strlit("\"\"");
    reveal_strlit("PublicKey.default");
    reveal_strlit("undefined");
    reveal_strlit("[]");
    assert("0"@.len() == 1 && "0.0"@.len() == 3 && "0n"@.len() == 2 && "false"@.len() == 5);
    assert("String::new()"@.len() == 13 && "Pubkey::default()"@.len() == 17);
    assert("Default::default()"@.len() == 18 && "Vec::new()"@.len() == 10 && "None"@.len() == 4);
    assert("\"\""@.len() == 2 && "PublicKey.default"@.len() == 17 && "undefined"@.len() == 9);
    assert("[]"@.len() == 2 && "0n"@[0] == '0' && "\"\""@[0] == '"' && "[]"@[0] == '[');
    match t {
        TypeInfo::FixedArray { element, size } => {
            let rd = "["@ + rust_default(*element) + "; "@ + dec(size as nat) + "]"@;
            let td = "new Array("@ + dec(size as nat) + ").fill("@ + ts_default(*element) + ")"@;
            assert(rd[0] == '[');
            assert(td[0] == 'n');
            assert(!(rd =~= "0"@) && !(rd =~= "0.0"@) && !(rd =~= "String::new()"@));
            assert(!(rd =~= "Pubkey::default()"@) && !(rd =~= "Vec::new()"@));
            assert(!(rd =~= "Default::default()"@) && !(rd =~= "None"@));
            assert(!(td =~= "0"@) && !(td =~= "0n"@) && !(td =~= "\"\""@));
            assert(!(td =~= "PublicKey.default"@) && !(td =~= "[]"@) && !(td =~= "undefined"@));
        },
        TypeInfo::Primitive(n) => {
            assert("u128"@[0] == 'u' && "i128"@[0] == 'i' && "f32"@[0] == 'f' && "f64"@[0] == 'f');
            if is_int_name(n@) {
                if n@ == "u128"@ || n@ == "i128"@ {
                    assert(n@.len() == 4);
                    assert("u8"@.len() == 2 && "i8"@.len() == 2);
                    assert("u16"@.len() == 3 && "u32"@.len() == 3 && "u64"@.len() == 3);
                    assert("i16"@.len() == 3 && "i32"@.len() == 3 && "i64"@.len() == 3);
                    assert("f32"@.len() == 3 && "f64"@.len() == 3);
                    assert(!is_ts_number(n@));
                    assert(ts_default(t) == "0n"@);
                } else {
                    assert(is_ts_number(n@));
                }
                assert(rust_default(t) == "0"@);
            } else if n@ == "f32"@ || n@ == "f64"@ {
                assert(is_ts_number(n@));
                assert(rust_default(t) == "0.0"@);
                assert(ts_default(t) == "0"@);
            } else {
                assert(!is_ts_number(n@));
                assert(n@ != "u128"@ && n@ != "i128"@);
                let r = rust_default(t);
                let s = ts_default(t);
                if n@ == "bool"@ {
                    assert(r == "false"@ && s == "false"@);
                } else if n@ == "string"@ || n@ == "String"@ {
                    assert(r == "String::new()"@ && s == "\"\""@);
                    assert(s[0] != "0n"@[0] && s[0] != "[]"@[0]);
                } else if n@ == "PublicKey"@ {
                    assert(r == "Pubkey::default()"@ && s == "PublicKey.default"@);
                } else {
                    assert(r == "Default::default()"@ && s == "undefined"@);
                }
            }
        },
        TypeInfo::Array(_) => {
            assert(ts_default(t)[0] != "0n"@[0] && ts_default(t)[0] != "\"\""@[0]);
        },
        _ => {},
    }
}


/// The value both migrations give a field added by the changes agrees
/// between Rust and TypeScript, as the defaults of a type do.
pub proof fn law_added_defaults_agree(n: Seq<char>, cs: Seq<SchemaChange>)
    ensures
        ({
            let r = rust_default_added(n, cs);
            let t = ts_default_added(n, cs);
            &&& (r == "0"@ || r == "0.0"@) <==> (t == "0"@ || t == "0n"@)
            &&& (r == "false"@) <==> (t == "false"@)
            &&& (r == "String::new()"@) <==> (t == "\"\""@)
            &&& (r == "Pubkey::default()"@) <==> (t == "PublicKey.default"@)
            &&& (r == "Vec::new()"@) <==> (t == "[]"@)
            &&& (r == "Default::default()"@ || r == "None"@) <==> (t == "undefined"@)
        }),
    decreases cs.len(),
{
    reveal_strlit("0");
    reveal_strlit("0.0");
    reveal_strlit("0n");
    reveal_strlit("false");
    reveal_strlit("String::new()");
    reveal_strlit("Pubkey::default()");
    reveal_strlit("Default::default()");
    reveal_strlit("Vec::new()");
    reveal_strlit("None");
    reveal_strlit("\"\"");
    reveal_strlit("PublicKey.default");
    reveal_strlit("undefined");
    reveal_strlit("[]");
    assert("0"@.len() == 1 && "0.0"@.len() == 3 && "0n"@.len() == 2 && "false"@.len() == 5);
    assert("String::new()"@.len() == 13 && "Pubkey::default()"@.len() == 17);
    assert("Default::default()"@.len() == 18 && "Vec::new()"@.len() == 10 && "None"@.len() == 4);
    assert("\"\""@.len() == 2 && "PublicKey.default"@.len() == 17 && "undefined"@.len() == 9);
    if cs.len() > 0 {
        match cs[0] {
            SchemaChange::FieldAdded { name, type_info, optional } => {
                if name@ == n {
                    if !optional {
                        law_defaults_agree_across_languages(type_info);
                        law_bool_defaults_to_false(type_info);
                    }
                } else {
                    law_added_defaults_agree(n, cs.drop_first());
                }
            },
            _ => law_added_defaults_agree(n, cs.drop_first()),
        }
    }
}

} // verus!
