//! Schema checks on the intermediate representation: primitive type names
//! and their TypeScript-style aliases, references to undefined types, and
//! deprecated fields.

mod lowering;

pub use lowering::{
    alias_entries, alias_ir, anchor_values, custom_derives_of, deprecation_of, duplicate_message, enum_ir,
    extract_anchor_attrs, extract_custom_derives, extract_deprecation, extract_metadata, field_ir, fields_ir,
    first_duplicate, first_unresolved, item_ir, items_ir, law_lowering_keeps_names, lowered, metadata_of, opt_view,
    resolved_for, struct_ir, transform_enum, transform_enum_variant, transform_field,
    transform_answer, transform_struct, transform_to_ir, transform_to_ir_with_resolver,
    transform_to_ir_with_resolver_no_validation, transform_type_alias, types_ir,
    unresolved_message, variant_ir,
};

pub(crate) use lowering::{lemma_all_resolved, lemma_duplicate_persists};

use vstd::prelude::*;
use crate::ast::{copy_type_spec, TypeSpec};
use crate::error::LumosError;
use crate::ir::{def_name, EnumVariantDefinition, FieldDefinition, TypeDefinition, TypeInfo};
use crate::text::{chars_is, chars_of, copy_string, dec, to_string, usize_to_string};

verus! {

/// Whether `n` names a primitive type (TypeScript-style aliases included).
pub open spec fn valid_primitive(n: Seq<char>) -> bool {
    n == "u8"@ || n == "u16"@ || n == "u32"@ || n == "u64"@ || n == "u128"@ || n == "i8"@ || n
        == "i16"@ || n == "i32"@ || n == "i64"@ || n == "i128"@ || n == "f32"@ || n == "f64"@ || n
        == "bool"@ || n == "String"@ || n == "PublicKey"@ || n == "Signature"@ || n == "Keypair"@
        || n == "number"@ || n == "string"@ || n == "boolean"@
}

/// The Rust name of a TypeScript-style alias (`number`, `string`,
/// `boolean`); other names are kept.
pub open spec fn alias_mapped(n: Seq<char>) -> Seq<char> {
    if n == "number"@ {
        "u64"@
    } else if n == "string"@ {
        "String"@
    } else if n == "boolean"@ {
        "bool"@
    } else {
        n
    }
}

/// Whether a name is a primitive type.
pub fn is_valid_primitive_type(name: &str) -> (r: bool)
    ensures
        r == valid_primitive(name@),
{
    let c = chars_of(name);
    let s = c.as_slice();
    chars_is(s, "u8") || chars_is(s, "u16") || chars_is(s, "u32") || chars_is(s, "u64")
        || chars_is(s, "u128") || chars_is(s, "i8") || chars_is(s, "i16") || chars_is(s, "i32")
        || chars_is(s, "i64") || chars_is(s, "i128") || chars_is(s, "f32") || chars_is(s, "f64")
        || chars_is(s, "bool") || chars_is(s, "String") || chars_is(s, "PublicKey") || chars_is(
        s,
        "Signature",
    ) || chars_is(s, "Keypair") || chars_is(s, "number") || chars_is(s, "string") || chars_is(
        s,
        "boolean",
    )
}

/// Maps a TypeScript-style alias to its Rust type name.
pub fn map_type_alias(name: &str) -> (r: String)
    ensures
        r@ == alias_mapped(name@),
{
    let c = chars_of(name);
    if chars_is(c.as_slice(), "number") {
        to_string("u64")
    } else if chars_is(c.as_slice(), "string") {
        to_string("String")
    } else if chars_is(c.as_slice(), "boolean") {
        to_string("bool")
    } else {
        to_string(name)
    }
}

// ---------------------------------------------------------------------
// Undefined types
// ---------------------------------------------------------------------

/// Whether `n` is the name of one of `defs`.
pub open spec fn is_defined(defs: Seq<TypeDefinition>, n: Seq<char>) -> bool {
    exists|i: int| 0 <= i < defs.len() && def_name(#[trigger] defs[i]) == n
}

/// The first user-defined type that `t` refers to and `defs` does not
/// define, looking inside arrays and options; primitives and generic
/// parameters are always defined.
pub open spec fn undefined_in(t: TypeInfo, defs: Seq<TypeDefinition>) -> Option<Seq<char>>
    decreases t,
{
    match t {
        TypeInfo::UserDefined(n) => if is_defined(defs, n@) {
            None
        } else {
            Some(n@)
        },
        TypeInfo::Array(inner) => undefined_in(*inner, defs),
        TypeInfo::FixedArray { element, .. } => undefined_in(*element, defs),
        TypeInfo::Option(inner) => undefined_in(*inner, defs),
        _ => None,
    }
}

/// Where a reference sits: the context, and the field after a dot when
/// there is one.
pub open spec fn location(ctx: Seq<char>, field: Seq<char>) -> Seq<char> {
    if field.len() == 0 {
        ctx
    } else {
        ctx + "."@ + field
    }
}

/// A reference to an undefined type, with where it sits.
pub open spec fn violation(t: TypeInfo, defs: Seq<TypeDefinition>, ctx: Seq<char>, field: Seq<char>) -> Seq<
    (Seq<char>, Seq<char>),
> {
    match undefined_in(t, defs) {
        Some(n) => seq![(n, location(ctx, field))],
        None => Seq::empty(),
    }
}

/// The undefined references of the fields of `fs` from position `i` on,
/// in order.
pub open spec fn field_violations(
    fs: Seq<FieldDefinition>,
    defs: Seq<TypeDefinition>,
    ctx: Seq<char>,
    i: int,
) -> Seq<(Seq<char>, Seq<char>)>
    decreases fs.len() - i,
{
    if i < 0 || i >= fs.len() {
        Seq::empty()
    } else {
        violation(fs[i].type_info, defs, ctx, fs[i].name@) + field_violations(fs, defs, ctx, i + 1)
    }
}

/// The undefined references of the types of a tuple variant from position
/// `i` on; position `i` is written `Enum.Variant[i]`.
pub open spec fn tuple_violations(
    ts: Seq<TypeInfo>,
    defs: Seq<TypeDefinition>,
    ctx: Seq<char>,
    i: int,
) -> Seq<(Seq<char>, Seq<char>)>
    decreases ts.len() - i,
{
    if i < 0 || i >= ts.len() {
        Seq::empty()
    } else {
        violation(ts[i], defs, ctx + "["@ + dec(i as nat) + "]"@, Seq::empty()) + tuple_violations(
            ts,
            defs,
            ctx,
            i + 1,
        )
    }
}

/// The undefined references of an enum variant.
pub open spec fn variant_violations(
    v: EnumVariantDefinition,
    defs: Seq<TypeDefinition>,
    enum_name: Seq<char>,
) -> Seq<(Seq<char>, Seq<char>)> {
    match v {
        EnumVariantDefinition::Unit { .. } => Seq::empty(),
        EnumVariantDefinition::Tuple { name, types } => tuple_violations(
            types@,
            defs,
            enum_name + "."@ + name@,
            0,
        ),
        EnumVariantDefinition::Struct { name, fields } => field_violations(
            fields@,
            defs,
            enum_name + "."@ + name@,
            0,
        ),
    }
}

/// The undefined references of the variants from position `i` on.
pub open spec fn variants_violations(
    vs: Seq<EnumVariantDefinition>,
    defs: Seq<TypeDefinition>,
    enum_name: Seq<char>,
    i: int,
) -> Seq<(Seq<char>, Seq<char>)>
    decreases vs.len() - i,
{
    if i < 0 || i >= vs.len() {
        Seq::empty()
    } else {
        variant_violations(vs[i], defs, enum_name) + variants_violations(vs, defs, enum_name, i + 1)
    }
}

/// The undefined references of one definition.
pub open spec fn def_violations(d: TypeDefinition, defs: Seq<TypeDefinition>) -> Seq<
    (Seq<char>, Seq<char>),
> {
    match d {
        TypeDefinition::Struct(s) => field_violations(s.fields@, defs, s.name@, 0),
        TypeDefinition::Enum(e) => variants_violations(e.variants@, defs, e.name@, 0),
        TypeDefinition::TypeAlias(a) => violation(a.target, defs, a.name@, Seq::empty()),
    }
}

/// The undefined references of the definitions from position `i` on.
pub open spec fn schema_violations(defs: Seq<TypeDefinition>, i: int) -> Seq<(Seq<char>, Seq<char>)>
    decreases defs.len() - i,
{
    if i < 0 || i >= defs.len() {
        Seq::empty()
    } else {
        def_violations(defs[i], defs) + schema_violations(defs, i + 1)
    }
}

/// The message for a reference to an undefined type.
pub open spec fn undefined_message(v: (Seq<char>, Seq<char>)) -> Seq<char> {
    "Undefined type '"@ + v.0 + "' referenced in '"@ + v.1 + "'"@
}

/// Whether `r` answers for the list of undefined references `vs`: success
/// when there is none, else the message of the first one.
pub open spec fn answers_first(vs: Seq<(Seq<char>, Seq<char>)>, r: Result<(), LumosError>) -> bool {
    match r {
        Ok(_) => vs.len() == 0,
        Err(e) => vs.len() > 0 && match e {
            LumosError::TypeValidation(m) => m@ == undefined_message(vs[0]),
            _ => false,
        },
    }
}

fn has_name(defs: &Vec<TypeDefinition>, n: &String) -> (r: bool)
    ensures
        r == is_defined(defs@, n@),
{
    let mut i: usize = 0;
    while i < defs.len()
        invariant
            i <= defs@.len(),
            forall|k: int| 0 <= k < i ==> def_name(#[trigger] defs@[k]) != n@,
        decreases defs@.len() - i,
    {
        if crate::text::str_eq(defs[i].name(), n.as_str()) {
            assert(def_name(defs@[i as int]) == n@);
            return true;
        }
        i = i + 1;
    }
    false
}

fn find_undefined(t: &TypeInfo, defs: &Vec<TypeDefinition>) -> (r: Option<String>)
    ensures
        match r {
            Some(n) => undefined_in(*t, defs@) == Some(n@),
            None => undefined_in(*t, defs@) is None,
        },
    decreases t,
{
    match t {
        TypeInfo::UserDefined(n) => {
            if has_name(defs, n) {
                None
            } else {
                Some(copy_string(n))
            }
        },
        TypeInfo::Array(inner) => find_undefined(inner, defs),
        TypeInfo::FixedArray { element, .. } => find_undefined(element, defs),
        TypeInfo::Option(inner) => find_undefined(inner, defs),
        _ => None,
    }
}

fn located(ctx: &String, field: &String) -> (r: String)
    ensures
        r@ == location(ctx@, field@),
{
    if field.as_str().unicode_len() == 0 {
        copy_string(ctx)
    } else {
        let mut r = copy_string(ctx);
        r.append(".");
        r.append(field.as_str());
        r
    }
}

fn validate_type_info(t: &TypeInfo, defs: &Vec<TypeDefinition>, ctx: &String, field: &String) -> (r:
    Result<(), LumosError>)
    ensures
        answers_first(violation(*t, defs@, ctx@, field@), r),
{
    match find_undefined(t, defs) {
        Some(n) => {
            let loc = located(ctx, field);
            let mut m = to_string("Undefined type '");
            m.append(n.as_str());
            m.append("' referenced in '");
            m.append(loc.as_str());
            m.append("'");
            Err(LumosError::TypeValidation(m))
        },
        None => Ok(()),
    }
}

fn check_fields(fs: &Vec<FieldDefinition>, defs: &Vec<TypeDefinition>, ctx: &String) -> (r: Result<
    (),
    LumosError,
>)
    ensures
        answers_first(field_violations(fs@, defs@, ctx@, 0), r),
{
    let mut i: usize = 0;
    while i < fs.len()
        invariant
            i <= fs@.len(),
            field_violations(fs@, defs@, ctx@, 0) == field_violations(fs@, defs@, ctx@, i as int),
        decreases fs@.len() - i,
    {
        let r = validate_type_info(&fs[i].type_info, defs, ctx, &fs[i].name);
        match r {
            Err(e) => {
                return Err(e);
            },
            Ok(_) => {},
        }
        assert(field_violations(fs@, defs@, ctx@, i as int) =~= field_violations(
            fs@,
            defs@,
            ctx@,
            i + 1,
        ));
        i = i + 1;
    }
    Ok(())
}

fn check_tuple(ts: &Vec<TypeInfo>, defs: &Vec<TypeDefinition>, ctx: &String) -> (r: Result<
    (),
    LumosError,
>)
    ensures
        answers_first(tuple_violations(ts@, defs@, ctx@, 0), r),
{
    let mut i: usize = 0;
    while i < ts.len()
        invariant
            i <= ts@.len(),
            tuple_violations(ts@, defs@, ctx@, 0) == tuple_violations(ts@, defs@, ctx@, i as int),
        decreases ts@.len() - i,
    {
        let mut c = copy_string(ctx);
        c.append("[");
        let n = usize_to_string(i);
        c.append(n.as_str());
        c.append("]");
        let empty = String::new();
        let r = validate_type_info(&ts[i], defs, &c, &empty);
        match r {
            Err(e) => {
                return Err(e);
            },
            Ok(_) => {},
        }
        assert(tuple_violations(ts@, defs@, ctx@, i as int) =~= tuple_violations(
            ts@,
            defs@,
            ctx@,
            i + 1,
        ));
        i = i + 1;
    }
    Ok(())
}

fn check_variant(v: &EnumVariantDefinition, defs: &Vec<TypeDefinition>, enum_name: &String) -> (r:
    Result<(), LumosError>)
    ensures
        answers_first(variant_violations(*v, defs@, enum_name@), r),
{
    match v {
        EnumVariantDefinition::Unit { .. } => Ok(()),
        EnumVariantDefinition::Tuple { name, types } => {
            let mut c = copy_string(enum_name);
            c.append(".");
            c.append(name.as_str());
            check_tuple(types, defs, &c)
        },
        EnumVariantDefinition::Struct { name, fields } => {
            let mut c = copy_string(enum_name);
            c.append(".");
            c.append(name.as_str());
            check_fields(fields, defs, &c)
        },
    }
}

fn check_definition(d: &TypeDefinition, defs: &Vec<TypeDefinition>) -> (r: Result<(), LumosError>)
    ensures
        answers_first(def_violations(*d, defs@), r),
{
    match d {
        TypeDefinition::Struct(s) => check_fields(&s.fields, defs, &s.name),
        TypeDefinition::Enum(e) => {
            let mut i: usize = 0;
            while i < e.variants.len()
                invariant
                    *d == TypeDefinition::Enum(*e),
                    i <= e.variants@.len(),
                    variants_violations(e.variants@, defs@, e.name@, 0) == variants_violations(
                        e.variants@,
                        defs@,
                        e.name@,
                        i as int,
                    ),
                decreases e.variants@.len() - i,
            {
                let r = check_variant(&e.variants[i], defs, &e.name);
                match r {
                    Err(x) => {
                        return Err(x);
                    },
                    Ok(_) => {},
                }
                assert(variants_violations(e.variants@, defs@, e.name@, i as int) =~= variants_violations(
                    e.variants@,
                    defs@,
                    e.name@,
                    i + 1,
                ));
                i = i + 1;
            }
            Ok(())
        },
        TypeDefinition::TypeAlias(a) => {
            let empty = String::new();
            validate_type_info(&a.target, defs, &a.name, &empty)
        },
    }
}

/// Checks that every user-defined type that the schema refers to is one
/// of its definitions; the first reference to an undefined type, in schema
/// order, is reported with where it sits.
pub fn validate_user_defined_types(type_defs: &Vec<TypeDefinition>) -> (r: Result<(), LumosError>)
    ensures
        answers_first(schema_violations(type_defs@, 0), r),
{
    let mut i: usize = 0;
    while i < type_defs.len()
        invariant
            i <= type_defs@.len(),
            schema_violations(type_defs@, 0) == schema_violations(type_defs@, i as int),
        decreases type_defs@.len() - i,
    {
        let r = check_definition(&type_defs[i], type_defs);
        match r {
            Err(e) => {
                return Err(e);
            },
            Ok(_) => {},
        }
        assert(schema_violations(type_defs@, i as int) =~= schema_violations(type_defs@, i + 1));
        i = i + 1;
    }
    Ok(())
}

/// The user-defined type names that a type mentions, looking through
/// `Vec`, fixed-size arrays and `Option`.
pub open spec fn names_in(t: TypeInfo) -> Seq<Seq<char>>
    decreases t,
{
    match t {
        TypeInfo::UserDefined(n) => seq![n@],
        TypeInfo::Array(inner) => names_in(*inner),
        TypeInfo::FixedArray { element, .. } => names_in(*element),
        TypeInfo::Option(inner) => names_in(*inner),
        _ => Seq::empty(),
    }
}

/// Wrapping a type in `Vec<..>`, `[..; N]` or `Option<..>` neither hides
/// nor invents a reference to an undefined type.
pub proof fn law_containers_keep_undefined(t: TypeInfo, size: usize, defs: Seq<TypeDefinition>)
    ensures
        undefined_in(TypeInfo::Array(Box::new(t)), defs) == undefined_in(t, defs),
        undefined_in(TypeInfo::FixedArray { element: Box::new(t), size }, defs) == undefined_in(t, defs),
        undefined_in(TypeInfo::Option(Box::new(t)), defs) == undefined_in(t, defs),
{
}

/// A type has an undefined reference exactly when one of the names it
/// mentions is not defined, and the one reported is such a name.
pub proof fn law_undefined_in_names(t: TypeInfo, defs: Seq<TypeDefinition>)
    ensures
        undefined_in(t, defs) is None <==> (forall|k: int|
            0 <= k < names_in(t).len() ==> is_defined(defs, #[trigger] names_in(t)[k])),
        undefined_in(t, defs) matches Some(n) ==> names_in(t).contains(n) && !is_defined(defs, n),
    decreases t,
{
    match t {
        TypeInfo::UserDefined(n) => {
            if is_defined(defs, n@) {
                assert forall|k: int| 0 <= k < names_in(t).len() implies is_defined(
                    defs,
                    #[trigger] names_in(t)[k],
                ) by {
                    assert(names_in(t)[k] == n@);
                }
            } else {
                assert(names_in(t)[0] == n@);
            }
        },
        TypeInfo::Array(inner) => law_undefined_in_names(*inner, defs),
        TypeInfo::FixedArray { element, .. } => law_undefined_in_names(*element, defs),
        TypeInfo::Option(inner) => law_undefined_in_names(*inner, defs),
        _ => {},
    }
}

proof fn lemma_field_violations_cover(
    fs: Seq<FieldDefinition>,
    defs: Seq<TypeDefinition>,
    ctx: Seq<char>,
    j: int,
    k: int,
)
    requires
        0 <= j <= k < fs.len(),
    ensures
        field_violations(fs, defs, ctx, j).len() >= violation(fs[k].type_info, defs, ctx, fs[k].name@).len(),
    decreases k - j,
{
    if j < k {
        lemma_field_violations_cover(fs, defs, ctx, j + 1, k);
    }
}

proof fn lemma_schema_violations_cover(defs: Seq<TypeDefinition>, j: int, i: int)
    requires
        0 <= j <= i < defs.len(),
    ensures
        schema_violations(defs, j).len() >= def_violations(defs[i], defs).len(),
    decreases i - j,
{
    if j < i {
        lemma_schema_violations_cover(defs, j + 1, i);
    }
}

proof fn lemma_tuple_violations_cover(ts: Seq<TypeInfo>, defs: Seq<TypeDefinition>, ctx: Seq<char>, j: int, k: int)
    requires
        0 <= j <= k < ts.len(),
    ensures
        tuple_violations(ts, defs, ctx, j).len() >= violation(
            ts[k],
            defs,
            ctx + "["@ + dec(k as nat) + "]"@,
            Seq::empty(),
        ).len(),
    decreases k - j,
{
    if j < k {
        lemma_tuple_violations_cover(ts, defs, ctx, j + 1, k);
    }
}

proof fn lemma_variants_violations_cover(
    vs: Seq<EnumVariantDefinition>,
    defs: Seq<TypeDefinition>,
    en: Seq<char>,
    j: int,
    k: int,
)
    requires
        0 <= j <= k < vs.len(),
    ensures
        variants_violations(vs, defs, en, j).len() >= variant_violations(vs[k], defs, en).len(),
    decreases k - j,
{
    if j < k {
        lemma_variants_violations_cover(vs, defs, en, j + 1, k);
    }
}

/// Whether `t` mentions a name that `defs` does not define.
pub open spec fn mentions_undefined(t: TypeInfo, defs: Seq<TypeDefinition>) -> bool {
    exists|m: int| 0 <= m < names_in(t).len() && !is_defined(defs, #[trigger] names_in(t)[m])
}

/// Whether definition `d` refers, in a field, a variant or its target, to
/// a type that `defs` does not define.
pub open spec fn refers_to_undefined(d: TypeDefinition, defs: Seq<TypeDefinition>) -> bool {
    match d {
        TypeDefinition::Struct(s) => exists|k: int|
            0 <= k < s.fields@.len() && mentions_undefined(#[trigger] s.fields@[k].type_info, defs),
        TypeDefinition::Enum(e) => exists|v: int|
            0 <= v < e.variants@.len() && match #[trigger] e.variants@[v] {
                EnumVariantDefinition::Unit { .. } => false,
                EnumVariantDefinition::Tuple { types, .. } => exists|k: int|
                    0 <= k < types@.len() && mentions_undefined(#[trigger] types@[k], defs),
                EnumVariantDefinition::Struct { fields, .. } => exists|k: int|
                    0 <= k < fields@.len() && mentions_undefined(#[trigger] fields@[k].type_info, defs),
            },
        TypeDefinition::TypeAlias(a) => mentions_undefined(a.target, defs),
    }
}

proof fn lemma_mentions_violation(t: TypeInfo, defs: Seq<TypeDefinition>, ctx: Seq<char>, field: Seq<char>)
    requires
        mentions_undefined(t, defs),
    ensures
        violation(t, defs, ctx, field).len() == 1,
{
    law_undefined_in_names(t, defs);
}

/// Type validation succeeds exactly when no definition refers, in a struct
/// field, an enum variant (tuple or struct) or an alias target, at any
/// depth of `Vec`, fixed-size array or `Option`, to a name that no
/// definition declares.
pub proof fn law_validation_rejects_exactly_undefined(defs: Seq<TypeDefinition>, r: Result<(), LumosError>)
    requires
        answers_first(schema_violations(defs, 0), r),
    ensures
        r is Ok <==> forall|i: int| 0 <= i < defs.len() ==> !refers_to_undefined(#[trigger] defs[i], defs),
{
    if exists|i: int| 0 <= i < defs.len() && refers_to_undefined(#[trigger] defs[i], defs) {
        let i = choose|i: int| 0 <= i < defs.len() && refers_to_undefined(#[trigger] defs[i], defs);
        lemma_schema_violations_cover(defs, 0, i);
        match defs[i] {
            TypeDefinition::Struct(s) => {
                let k = choose|k: int|
                    0 <= k < s.fields@.len() && mentions_undefined(#[trigger] s.fields@[k].type_info, defs);
                lemma_mentions_violation(s.fields@[k].type_info, defs, s.name@, s.fields@[k].name@);
                lemma_field_violations_cover(s.fields@, defs, s.name@, 0, k);
            },
            TypeDefinition::Enum(e) => {
                let v = choose|v: int|
                    0 <= v < e.variants@.len() && match #[trigger] e.variants@[v] {
                        EnumVariantDefinition::Unit { .. } => false,
                        EnumVariantDefinition::Tuple { types, .. } => exists|k: int|
                            0 <= k < types@.len() && mentions_undefined(#[trigger] types@[k], defs),
                        EnumVariantDefinition::Struct { fields, .. } => exists|k: int|
                            0 <= k < fields@.len() && mentions_undefined(
                                #[trigger] fields@[k].type_info,
                                defs,
                            ),
                    };
                lemma_variants_violations_cover(e.variants@, defs, e.name@, 0, v);
                match e.variants@[v] {
                    EnumVariantDefinition::Tuple { name, types } => {
                        let k = choose|k: int|
                            0 <= k < types@.len() && mentions_undefined(#[trigger] types@[k], defs);
                        let ctx = e.name@ + "."@ + name@;
                        lemma_mentions_violation(types@[k], defs, ctx + "["@ + dec(k as nat) + "]"@, Seq::empty());
                        lemma_tuple_violations_cover(types@, defs, ctx, 0, k);
                    },
                    EnumVariantDefinition::Struct { name, fields } => {
                        let k = choose|k: int|
                            0 <= k < fields@.len() && mentions_undefined(#[trigger] fields@[k].type_info, defs);
                        let ctx = e.name@ + "."@ + name@;
                        lemma_mentions_violation(fields@[k].type_info, defs, ctx, fields@[k].name@);
                        lemma_field_violations_cover(fields@, defs, ctx, 0, k);
                    },
                    _ => {},
                }
            },
            TypeDefinition::TypeAlias(a) => {
                lemma_mentions_violation(a.target, defs, a.name@, Seq::empty());
            },
        }
    } else {
        lemma_no_violations(defs, 0);
    }
}

proof fn lemma_no_violation(t: TypeInfo, defs: Seq<TypeDefinition>, ctx: Seq<char>, field: Seq<char>)
    requires
        !mentions_undefined(t, defs),
    ensures
        violation(t, defs, ctx, field).len() == 0,
{
    law_undefined_in_names(t, defs);
}

proof fn lemma_no_field_violations(fs: Seq<FieldDefinition>, defs: Seq<TypeDefinition>, ctx: Seq<char>, j: int)
    requires
        forall|k: int| 0 <= k < fs.len() ==> !mentions_undefined(#[trigger] fs[k].type_info, defs),
    ensures
        field_violations(fs, defs, ctx, j).len() == 0,
    decreases fs.len() - j,
{
    if 0 <= j < fs.len() {
        lemma_no_violation(fs[j].type_info, defs, ctx, fs[j].name@);
        lemma_no_field_violations(fs, defs, ctx, j + 1);
    }
}

proof fn lemma_no_tuple_violations(ts: Seq<TypeInfo>, defs: Seq<TypeDefinition>, ctx: Seq<char>, j: int)
    requires
        forall|k: int| 0 <= k < ts.len() ==> !mentions_undefined(#[trigger] ts[k], defs),
    ensures
        tuple_violations(ts, defs, ctx, j).len() == 0,
    decreases ts.len() - j,
{
    if 0 <= j < ts.len() {
        lemma_no_violation(ts[j], defs, ctx + "["@ + dec(j as nat) + "]"@, Seq::empty());
        lemma_no_tuple_violations(ts, defs, ctx, j + 1);
    }
}

proof fn lemma_no_variants_violations(
    e: crate::ir::EnumDefinition,
    defs: Seq<TypeDefinition>,
    j: int,
)
    requires
        !refers_to_undefined(TypeDefinition::Enum(e), defs),
    ensures
        variants_violations(e.variants@, defs, e.name@, j).len() == 0,
    decreases e.variants@.len() - j,
{
    let vs = e.variants@;
    if 0 <= j < vs.len() {
        match vs[j] {
            EnumVariantDefinition::Tuple { name, types } => {
                lemma_no_tuple_violations(types@, defs, e.name@ + "."@ + name@, 0);
            },
            EnumVariantDefinition::Struct { name, fields } => {
                lemma_no_field_violations(fields@, defs, e.name@ + "."@ + name@, 0);
            },
            _ => {},
        }
        lemma_no_variants_violations(e, defs, j + 1);
    }
}

proof fn lemma_no_violations(defs: Seq<TypeDefinition>, j: int)
    requires
        forall|i: int| 0 <= i < defs.len() ==> !refers_to_undefined(#[trigger] defs[i], defs),
    ensures
        schema_violations(defs, j).len() == 0,
    decreases defs.len() - j,
{
    if 0 <= j < defs.len() {
        assert(!refers_to_undefined(defs[j], defs));
        match defs[j] {
            TypeDefinition::Struct(s) => lemma_no_field_violations(s.fields@, defs, s.name@, 0),
            TypeDefinition::Enum(e) => lemma_no_variants_violations(e, defs, 0),
            TypeDefinition::TypeAlias(a) => lemma_no_violation(a.target, defs, a.name@, Seq::empty()),
        }
        lemma_no_violations(defs, j + 1);
    }
}

// ---------------------------------------------------------------------
// Deprecated fields
// ---------------------------------------------------------------------

/// The deprecation lines of the fields `fs` from position `i` on:
/// `prefix.field: message` for each deprecated field.
pub open spec fn field_deprecations(fs: Seq<FieldDefinition>, prefix: Seq<char>, i: int) -> Seq<
    Seq<char>,
>
    decreases fs.len() - i,
{
    if i < 0 || i >= fs.len() {
        Seq::empty()
    } else {
        (match fs[i].deprecated {
            Some(m) => seq![prefix + fs[i].name@ + ": "@ + m@],
            None => Seq::empty(),
        }) + field_deprecations(fs, prefix, i + 1)
    }
}

/// The deprecation lines of the struct variants of an enum from position
/// `i` on: `Enum.Variant::field: message`.
pub open spec fn variant_deprecations(vs: Seq<EnumVariantDefinition>, enum_name: Seq<char>, i: int) -> Seq<
    Seq<char>,
>
    decreases vs.len() - i,
{
    if i < 0 || i >= vs.len() {
        Seq::empty()
    } else {
        (match vs[i] {
            EnumVariantDefinition::Struct { name, fields } => field_deprecations(
                fields@,
                enum_name + "."@ + name@ + "::"@,
                0,
            ),
            _ => Seq::empty(),
        }) + variant_deprecations(vs, enum_name, i + 1)
    }
}

/// The deprecation lines of the definitions from position `i` on.
pub open spec fn schema_deprecations(defs: Seq<TypeDefinition>, i: int) -> Seq<Seq<char>>
    decreases defs.len() - i,
{
    if i < 0 || i >= defs.len() {
        Seq::empty()
    } else {
        (match defs[i] {
            TypeDefinition::Struct(s) => field_deprecations(s.fields@, s.name@ + "."@, 0),
            TypeDefinition::Enum(e) => variant_deprecations(e.variants@, e.name@, 0),
            TypeDefinition::TypeAlias(_) => Seq::empty(),
        }) + schema_deprecations(defs, i + 1)
    }
}

fn push_field_deprecations(out: &mut Vec<String>, fs: &Vec<FieldDefinition>, prefix: &String)
    ensures
        crate::text::views(final(out)@) == crate::text::views(old(out)@) + field_deprecations(
            fs@,
            prefix@,
            0,
        ),
{
    let ghost start = crate::text::views(out@);
    let mut i: usize = 0;
    while i < fs.len()
        invariant
            i <= fs@.len(),
            start + field_deprecations(fs@, prefix@, 0) == crate::text::views(out@)
                + field_deprecations(fs@, prefix@, i as int),
        decreases fs@.len() - i,
    {
        let ghost before = crate::text::views(out@);
        match &fs[i].deprecated {
            Some(m) => {
                let mut line = copy_string(prefix);
                line.append(fs[i].name.as_str());
                line.append(": ");
                line.append(m.as_str());
                out.push(line);
            },
            None => {},
        }
        assert(crate::text::views(out@) + field_deprecations(fs@, prefix@, i + 1) =~= before
            + field_deprecations(fs@, prefix@, i as int));
        i = i + 1;
    }
    assert(crate::text::views(out@) + Seq::<Seq<char>>::empty() =~= crate::text::views(out@));
}

/// The deprecated fields of a schema, one line each in schema order:
/// `Struct.field: message` and `Enum.Variant::field: message`.
pub fn deprecation_warnings(type_defs: &Vec<TypeDefinition>) -> (r: Vec<String>)
    ensures
        crate::text::views(r@) == schema_deprecations(type_defs@, 0),
{
    let mut out: Vec<String> = Vec::new();
    let mut i: usize = 0;
    while i < type_defs.len()
        invariant
            i <= type_defs@.len(),
            schema_deprecations(type_defs@, 0) == crate::text::views(out@) + schema_deprecations(
                type_defs@,
                i as int,
            ),
        decreases type_defs@.len() - i,
    {
        let ghost before = crate::text::views(out@);
        match &type_defs[i] {
            TypeDefinition::Struct(s) => {
                let mut prefix = copy_string(&s.name);
                prefix.append(".");
                push_field_deprecations(&mut out, &s.fields, &prefix);
            },
            TypeDefinition::Enum(e) => {
                let ghost b2 = crate::text::views(out@);
                let mut j: usize = 0;
                while j < e.variants.len()
                    invariant
                        type_defs@[i as int] == TypeDefinition::Enum(*e),
                        j <= e.variants@.len(),
                        b2 + variant_deprecations(e.variants@, e.name@, 0) == crate::text::views(
                            out@,
                        ) + variant_deprecations(e.variants@, e.name@, j as int),
                    decreases e.variants@.len() - j,
                {
                    let ghost b3 = crate::text::views(out@);
                    match &e.variants[j] {
                        EnumVariantDefinition::Struct { name, fields } => {
                            let mut prefix = copy_string(&e.name);
                            prefix.append(".");
                            prefix.append(name.as_str());
                            prefix.append("::");
                            push_field_deprecations(&mut out, fields, &prefix);
                        },
                        _ => {},
                    }
                    assert(crate::text::views(out@) + variant_deprecations(
                        e.variants@,
                        e.name@,
                        j + 1,
                    ) =~= b3 + variant_deprecations(e.variants@, e.name@, j as int));
                    j = j + 1;
                }
                assert(crate::text::views(out@) + Seq::<Seq<char>>::empty() =~= crate::text::views(
                    out@,
                ));
            },
            TypeDefinition::TypeAlias(_) => {},
        }
        assert(crate::text::views(out@) + schema_deprecations(type_defs@, i + 1) =~= before
            + schema_deprecations(type_defs@, i as int));
        i = i + 1;
    }
    assert(crate::text::views(out@) + Seq::<Seq<char>>::empty() =~= crate::text::views(out@));
    out
}


// ---------------------------------------------------------------------
// Type aliases
// ---------------------------------------------------------------------

/// A resolved type with its names as characters.
pub enum TypeView {
    Primitive(Seq<char>),
    Generic(Seq<char>),
    UserDefined(Seq<char>),
    Array(Box<TypeView>),
    FixedArray(Box<TypeView>, usize),
    Option(Box<TypeView>),
}

/// The view of a resolved type.
pub open spec fn type_view(t: TypeInfo) -> TypeView
    decreases t,
{
    match t {
        TypeInfo::Primitive(n) => TypeView::Primitive(n@),
        TypeInfo::Generic(n) => TypeView::Generic(n@),
        TypeInfo::UserDefined(n) => TypeView::UserDefined(n@),
        TypeInfo::Array(inner) => TypeView::Array(Box::new(type_view(*inner))),
        TypeInfo::FixedArray { element, size } => TypeView::FixedArray(
            Box::new(type_view(*element)),
            size,
        ),
        TypeInfo::Option(inner) => TypeView::Option(Box::new(type_view(*inner))),
    }
}

/// `v`, wrapped in an option when `optional`.
pub open spec fn with_option(v: TypeView, optional: bool) -> TypeView {
    if optional {
        TypeView::Option(Box::new(v))
    } else {
        v
    }
}

/// The first position from `k` on of an alias named `n`, or -1.
pub open spec fn alias_index(aliases: Seq<(String, TypeSpec)>, n: Seq<char>, k: int) -> int
    decreases aliases.len() - k,
{
    if k < 0 || k >= aliases.len() {
        -1
    } else if aliases[k].0@ == n {
        k
    } else {
        alias_index(aliases, n, k + 1)
    }
}

/// Whether `n` names an alias.
pub open spec fn is_alias(aliases: Seq<(String, TypeSpec)>, n: Seq<char>) -> bool {
    alias_index(aliases, n, 0) >= 0
}

/// The target of alias `n`.
pub open spec fn alias_target(aliases: Seq<(String, TypeSpec)>, n: Seq<char>) -> TypeSpec {
    aliases[alias_index(aliases, n, 0)].1
}

/// The first position from `k` on of a resolved alias named `n`, or -1.
pub open spec fn resolved_index(res: Seq<(String, TypeInfo)>, n: Seq<char>, k: int) -> int
    decreases res.len() - k,
{
    if k < 0 || k >= res.len() {
        -1
    } else if res[k].0@ == n {
        k
    } else {
        resolved_index(res, n, k + 1)
    }
}

/// The resolved type of alias `n`, if it has been resolved.
pub open spec fn lookup(res: Seq<(String, TypeInfo)>, n: Seq<char>) -> Option<TypeView> {
    let k = resolved_index(res, n, 0);
    if k >= 0 {
        Some(type_view(res[k].1))
    } else {
        None
    }
}

/// Whether spec `t` refers to alias `n`.
pub open spec fn mentions(aliases: Seq<(String, TypeSpec)>, t: TypeSpec, n: Seq<char>) -> bool
    decreases t,
{
    match t {
        TypeSpec::Primitive(p) => !valid_primitive(p@) && p@ == n && is_alias(aliases, n),
        TypeSpec::UserDefined(u) => u@ == n && is_alias(aliases, n),
        TypeSpec::Array(inner) => mentions(aliases, *inner, n),
        TypeSpec::FixedArray { element, .. } => mentions(aliases, *element, n),
    }
}

/// The alias, or a name kept as a user-defined type.
pub open spec fn named(aliases: Seq<(String, TypeSpec)>, res: Seq<(String, TypeInfo)>, n: Seq<char>) -> TypeView {
    if is_alias(aliases, n) {
        match lookup(res, n) {
            Some(v) => v,
            None => TypeView::UserDefined(n),
        }
    } else {
        TypeView::UserDefined(n)
    }
}

/// Spec `t` with its aliases replaced by their resolved types: primitive
/// names are kept (TypeScript-style aliases mapped to Rust names), other
/// names become the alias they name or a user-defined type.
pub open spec fn expand(aliases: Seq<(String, TypeSpec)>, res: Seq<(String, TypeInfo)>, t: TypeSpec) -> TypeView
    decreases t,
{
    match t {
        TypeSpec::Primitive(p) => if valid_primitive(p@) {
            TypeView::Primitive(alias_mapped(p@))
        } else {
            named(aliases, res, p@)
        },
        TypeSpec::UserDefined(u) => named(aliases, res, u@),
        TypeSpec::Array(inner) => TypeView::Array(Box::new(expand(aliases, res, *inner))),
        TypeSpec::FixedArray { element, size } => TypeView::FixedArray(
            Box::new(expand(aliases, res, *element)),
            size,
        ),
    }
}

/// Whether every alias that `t` refers to was resolved before position
/// `bound` of `res`.
pub open spec fn resolved_before(
    aliases: Seq<(String, TypeSpec)>,
    res: Seq<(String, TypeInfo)>,
    t: TypeSpec,
    bound: int,
) -> bool {
    forall|n: Seq<char>|
        #[trigger] mentions(aliases, t, n) ==> 0 <= resolved_index(res, n, 0) < bound
}

/// Whether the resolved aliases are correct: each is an alias, resolved
/// once, after every alias its target refers to, and its type is its
/// target with those aliases replaced.
#[verifier::opaque]
pub open spec fn consistent(aliases: Seq<(String, TypeSpec)>, res: Seq<(String, TypeInfo)>) -> bool {
    forall|k: int|
        0 <= k < res.len() ==> {
            &&& is_alias(aliases, (#[trigger] res[k]).0@)
            &&& resolved_index(res, res[k].0@, 0) == k
            &&& resolved_before(aliases, res, alias_target(aliases, res[k].0@), k)
            &&& type_view(res[k].1) == expand(aliases, res, alias_target(aliases, res[k].0@))
        }
}

/// Whether alias `a` refers to alias `b`.
pub open spec fn refers(aliases: Seq<(String, TypeSpec)>, a: Seq<char>, b: Seq<char>) -> bool {
    is_alias(aliases, a) && mentions(aliases, alias_target(aliases, a), b)
}

/// Whether `p` is a cycle of aliases, each referring to the next.
pub open spec fn is_cycle(aliases: Seq<(String, TypeSpec)>, p: Seq<Seq<char>>) -> bool {
    &&& p.len() >= 2
    &&& p[0] == p.last()
    &&& forall|i: int| 0 <= i < p.len() - 1 ==> refers(aliases, #[trigger] p[i], p[i + 1])
}

/// Whether some aliases refer to each other in a cycle.
pub open spec fn has_cycle(aliases: Seq<(String, TypeSpec)>) -> bool {
    exists|p: Seq<Seq<char>>| #[trigger] is_cycle(aliases, p)
}

/// Whether the aliases being resolved form a chain, each referring to the
/// next and the last to `next`, none resolved yet and none twice.
pub open spec fn chain(
    aliases: Seq<(String, TypeSpec)>,
    res: Seq<(String, TypeInfo)>,
    visited: Seq<Seq<char>>,
) -> bool {
    &&& visited.no_duplicates()
    &&& forall|i: int| 0 <= i < visited.len() ==> is_alias(aliases, #[trigger] visited[i])
    &&& forall|i: int| 0 <= i < visited.len() ==> resolved_index(res, #[trigger] visited[i], 0) < 0
    &&& forall|i: int|
        0 <= i < visited.len() - 1 ==> refers(aliases, #[trigger] visited[i], visited[i + 1])
}

/// The circular-alias message.
pub open spec fn circular_message(n: Seq<char>) -> Seq<char> {
    "Circular type alias detected: "@ + n
}

/// Resolves type aliases, detecting circular ones.
pub struct TypeAliasResolver {
    aliases: Vec<(String, TypeSpec)>,
    resolved: Vec<(String, TypeInfo)>,
}

proof fn lemma_resolved_index_bounds(res: Seq<(String, TypeInfo)>, n: Seq<char>, k: int)
    requires
        0 <= k,
    ensures
        -1 <= resolved_index(res, n, k) < res.len(),
        resolved_index(res, n, k) >= 0 ==> resolved_index(res, n, k) >= k && res[resolved_index(
            res,
            n,
            k,
        )].0@ == n,
        resolved_index(res, n, k) < 0 ==> forall|j: int| k <= j < res.len() ==> res[j].0@ != n,
        forall|j: int| k <= j < resolved_index(res, n, k) ==> res[j].0@ != n,
    decreases res.len() - k,
{
    if k < res.len() && res[k].0@ != n {
        lemma_resolved_index_bounds(res, n, k + 1);
    }
}

proof fn lemma_resolved_index_push(res: Seq<(String, TypeInfo)>, e: (String, TypeInfo), n: Seq<char>, k: int)
    requires
        0 <= k,
    ensures
        resolved_index(res, n, k) >= 0 ==> resolved_index(res.push(e), n, k) == resolved_index(res, n, k),
        resolved_index(res, n, k) < 0 && k <= res.len() ==> resolved_index(res.push(e), n, k) == (if e.0@
            == n {
            res.len() as int
        } else {
            -1
        }),
    decreases res.len() - k,
{
    let r2 = res.push(e);
    if k < res.len() {
        assert(r2[k] == res[k]);
        if res[k].0@ != n {
            lemma_resolved_index_push(res, e, n, k + 1);
        }
    } else if k == res.len() {
        assert(r2[k] == e);
        if e.0@ != n {
            assert(resolved_index(r2, n, k + 1) == -1);
        }
    }
}

proof fn lemma_alias_index_bounds(aliases: Seq<(String, TypeSpec)>, n: Seq<char>, k: int)
    requires
        0 <= k,
    ensures
        -1 <= alias_index(aliases, n, k) < aliases.len(),
        alias_index(aliases, n, k) >= 0 ==> alias_index(aliases, n, k) >= k && aliases[alias_index(
            aliases,
            n,
            k,
        )].0@ == n,
        alias_index(aliases, n, k) < 0 ==> forall|j: int| k <= j < aliases.len() ==> aliases[j].0@ != n,
        forall|j: int| k <= j < alias_index(aliases, n, k) ==> aliases[j].0@ != n,
    decreases aliases.len() - k,
{
    if k < aliases.len() && aliases[k].0@ != n {
        lemma_alias_index_bounds(aliases, n, k + 1);
    }
}

/// Growing `res` keeps the expansion of a spec whose aliases were all
/// resolved.
proof fn lemma_expand_push(
    aliases: Seq<(String, TypeSpec)>,
    res: Seq<(String, TypeInfo)>,
    e: (String, TypeInfo),
    t: TypeSpec,
    bound: int,
)
    requires
        resolved_before(aliases, res, t, bound),
        bound <= res.len(),
    ensures
        expand(aliases, res.push(e), t) == expand(aliases, res, t),
        resolved_before(aliases, res.push(e), t, bound),
    decreases t,
{
    assert forall|n: Seq<char>| #[trigger] mentions(aliases, t, n) implies 0 <= resolved_index(
        res.push(e),
        n,
        0,
    ) < bound by {
        lemma_resolved_index_push(res, e, n, 0);
    }
    match t {
        TypeSpec::Primitive(p) => {
            if !valid_primitive(p@) && is_alias(aliases, p@) {
                assert(mentions(aliases, t, p@));
                lemma_resolved_index_push(res, e, p@, 0);
                lemma_resolved_index_bounds(res, p@, 0);
                assert(res.push(e)[resolved_index(res, p@, 0)] == res[resolved_index(res, p@, 0)]);
            }
        },
        TypeSpec::UserDefined(u) => {
            if is_alias(aliases, u@) {
                assert(mentions(aliases, t, u@));
                lemma_resolved_index_push(res, e, u@, 0);
                lemma_resolved_index_bounds(res, u@, 0);
                assert(res.push(e)[resolved_index(res, u@, 0)] == res[resolved_index(res, u@, 0)]);
            }
        },
        TypeSpec::Array(inner) => {
            assert forall|n: Seq<char>| #[trigger] mentions(aliases, *inner, n) implies 0
                <= resolved_index(res, n, 0) < bound by {
                assert(mentions(aliases, t, n));
            }
            lemma_expand_push(aliases, res, e, *inner, bound);
        },
        TypeSpec::FixedArray { element, .. } => {
            assert forall|n: Seq<char>| #[trigger] mentions(aliases, *element, n) implies 0
                <= resolved_index(res, n, 0) < bound by {
                assert(mentions(aliases, t, n));
            }
            lemma_expand_push(aliases, res, e, *element, bound);
        },
    }
}

/// Adding a correctly resolved alias keeps the resolved list correct.
proof fn lemma_consistent_push(
    aliases: Seq<(String, TypeSpec)>,
    res: Seq<(String, TypeInfo)>,
    name: Seq<char>,
    e: (String, TypeInfo),
)
    requires
        consistent(aliases, res),
        is_alias(aliases, name),
        e.0@ == name,
        resolved_index(res, name, 0) < 0,
        resolved_before(aliases, res, alias_target(aliases, name), res.len() as int),
        type_view(e.1) == expand(aliases, res, alias_target(aliases, name)),
    ensures
        consistent(aliases, res.push(e)),
        lookup(res.push(e), name) == Some(type_view(e.1)),
{
    reveal(consistent);
    let r2 = res.push(e);
    lemma_resolved_index_push(res, e, name, 0);
    assert forall|k: int| 0 <= k < r2.len() implies {
        &&& is_alias(aliases, (#[trigger] r2[k]).0@)
        &&& resolved_index(r2, r2[k].0@, 0) == k
        &&& resolved_before(aliases, r2, alias_target(aliases, r2[k].0@), k)
        &&& type_view(r2[k].1) == expand(aliases, r2, alias_target(aliases, r2[k].0@))
    } by {
        if k < res.len() {
            assert(r2[k] == res[k]);
            lemma_resolved_index_push(res, e, res[k].0@, 0);
            lemma_expand_push(aliases, res, e, alias_target(aliases, res[k].0@), k);
        } else {
            assert(r2[k] == e);
            lemma_expand_push(aliases, res, e, alias_target(aliases, name), res.len() as int);
        }
    }
}

/// A chain that comes back to one of its aliases is a cycle.
proof fn lemma_chain_cycle(
    aliases: Seq<(String, TypeSpec)>,
    res: Seq<(String, TypeInfo)>,
    visited: Seq<Seq<char>>,
    name: Seq<char>,
    j: int,
)
    requires
        chain(aliases, res, visited),
        0 <= j < visited.len(),
        visited[j] == name,
        refers(aliases, visited.last(), name),
    ensures
        has_cycle(aliases),
{
    let p = visited.subrange(j, visited.len() as int).push(name);
    assert(p[0] == name);
    assert forall|i: int| 0 <= i < p.len() - 1 implies refers(aliases, #[trigger] p[i], p[i + 1]) by {
        if i < p.len() - 2 {
            assert(p[i] == visited[j + i]);
            assert(p[i + 1] == visited[j + i + 1]);
        } else {
            assert(p[i] == visited.last());
        }
    }
    assert(is_cycle(aliases, p));
}

/// With every alias resolved in order, no aliases refer to each other in a
/// cycle.
proof fn lemma_no_cycle(aliases: Seq<(String, TypeSpec)>, res: Seq<(String, TypeInfo)>)
    requires
        consistent(aliases, res),
    ensures
        !has_cycle(aliases) || exists|n: Seq<char>| is_alias(aliases, n) && #[trigger] resolved_index(res, n, 0) < 0,
{
    reveal(consistent);
    if has_cycle(aliases) && forall|n: Seq<char>| is_alias(aliases, n) ==> #[trigger] resolved_index(res, n, 0) >= 0 {
        let p = choose|p: Seq<Seq<char>>| #[trigger] is_cycle(aliases, p);
        assert forall|i: int| 0 <= i < p.len() implies resolved_index(res, #[trigger] p[i], 0) <= resolved_index(res, p[0], 0) - i by {
            lemma_cycle_descends(aliases, res, p, i);
        }
        let last = p.len() - 1;
        assert(resolved_index(res, p[last], 0) <= resolved_index(res, p[0], 0) - last);
    }
}

proof fn lemma_cycle_descends(aliases: Seq<(String, TypeSpec)>, res: Seq<(String, TypeInfo)>, p: Seq<Seq<char>>, i: int)
    requires
        consistent(aliases, res),
        is_cycle(aliases, p),
        forall|n: Seq<char>| is_alias(aliases, n) ==> #[trigger] resolved_index(res, n, 0) >= 0,
        0 <= i < p.len(),
    ensures
        resolved_index(res, p[i], 0) <= resolved_index(res, p[0], 0) - i,
        resolved_index(res, p[i], 0) >= 0,
    decreases i,
{
    reveal(consistent);
    if i > 0 {
        lemma_cycle_descends(aliases, res, p, i - 1);
        let a = p[i - 1];
        let b = p[i];
        assert(refers(aliases, p[i - 1], p[i]));
        let ka = resolved_index(res, a, 0);
        lemma_resolved_index_bounds(res, a, 0);
        assert(res[ka].0@ == a);
        assert(resolved_before(aliases, res, alias_target(aliases, res[ka].0@), ka));
        assert(mentions(aliases, alias_target(aliases, a), b));
    } else {
        assert(refers(aliases, p[0], p[1]));
    }
}


/// Distinct alias names are no more than the aliases.
proof fn lemma_visited_bound(aliases: Seq<(String, TypeSpec)>, visited: Seq<Seq<char>>)
    requires
        visited.no_duplicates(),
        forall|i: int| 0 <= i < visited.len() ==> is_alias(aliases, #[trigger] visited[i]),
    ensures
        visited.len() <= aliases.len(),
{
    let idx = visited.map_values(|n: Seq<char>| alias_index(aliases, n, 0));
    assert forall|i: int| 0 <= i < visited.len() implies 0 <= #[trigger] idx[i] < aliases.len()
        && aliases[idx[i]].0@ == visited[i] by {
        lemma_alias_index_bounds(aliases, visited[i], 0);
    }
    assert(idx.no_duplicates()) by {
        assert forall|i: int, j: int|
            0 <= i < idx.len() && 0 <= j < idx.len() && i != j implies idx[i] != idx[j] by {
            if idx[i] == idx[j] {
                assert(aliases[idx[i]].0@ == visited[i]);
                assert(aliases[idx[j]].0@ == visited[j]);
            }
        }
    }
    idx.unique_seq_to_set();
    vstd::set_lib::lemma_int_range(0, aliases.len() as int);
    assert(idx.to_set().subset_of(vstd::set_lib::set_int_range(0, aliases.len() as int)));
    vstd::set_lib::lemma_len_subset(
        idx.to_set(),
        vstd::set_lib::set_int_range(0, aliases.len() as int),
    );
}

/// The height of a type spec.
pub open spec fn spec_height(t: TypeSpec) -> nat
    decreases t,
{
    match t {
        TypeSpec::Array(inner) => 1 + spec_height(*inner),
        TypeSpec::FixedArray { element, .. } => 1 + spec_height(*element),
        _ => 0,
    }
}

/// Whether `b` extends `a`, and what it adds names none of `visited`.
pub open spec fn grown(
    a: Seq<(String, TypeInfo)>,
    b: Seq<(String, TypeInfo)>,
    visited: Seq<Seq<char>>,
) -> bool {
    &&& a.len() <= b.len()
    &&& forall|k: int| 0 <= k < a.len() ==> #[trigger] b[k] == a[k]
    &&& forall|k: int| a.len() <= k < b.len() ==> !visited.contains(#[trigger] b[k].0@)
}

impl TypeAliasResolver {
    /// The aliases added, in order.
    pub closed spec fn alias_list(&self) -> Seq<(String, TypeSpec)> {
        self.aliases@
    }

    /// The aliases resolved so far, with their types, in order of
    /// resolution.
    pub closed spec fn resolved_list(&self) -> Seq<(String, TypeInfo)> {
        self.resolved@
    }

    /// Whether the resolved aliases are correct for the aliases added.
    pub open spec fn wf(&self) -> bool {
        consistent(self.alias_list(), self.resolved_list())
    }

    /// An empty resolver.
    pub fn new() -> (r: Self)
        ensures
            r.alias_list().len() == 0,
            r.resolved_list().len() == 0,
            r.wf(),
    {
        let r = TypeAliasResolver { aliases: Vec::new(), resolved: Vec::new() };
        proof {
            reveal(consistent);
        }
        r
    }

    fn find_alias(&self, name: &str) -> (r: Option<usize>)
        ensures
            match r {
                Some(k) => k == alias_index(self.aliases@, name@, 0) && k < self.aliases@.len(),
                None => alias_index(self.aliases@, name@, 0) < 0,
            },
    {
        let mut k: usize = 0;
        while k < self.aliases.len()
            invariant
                k <= self.aliases@.len(),
                alias_index(self.aliases@, name@, 0) == alias_index(self.aliases@, name@, k as int),
            decreases self.aliases@.len() - k,
        {
            if crate::text::str_eq(self.aliases[k].0.as_str(), name) {
                return Some(k);
            }
            k = k + 1;
        }
        None
    }

    fn find_resolved(&self, name: &str) -> (r: Option<usize>)
        ensures
            match r {
                Some(k) => k == resolved_index(self.resolved@, name@, 0) && k
                    < self.resolved@.len(),
                None => resolved_index(self.resolved@, name@, 0) < 0,
            },
    {
        let mut k: usize = 0;
        while k < self.resolved.len()
            invariant
                k <= self.resolved@.len(),
                resolved_index(self.resolved@, name@, 0) == resolved_index(
                    self.resolved@,
                    name@,
                    k as int,
                ),
            decreases self.resolved@.len() - k,
        {
            if crate::text::str_eq(self.resolved[k].0.as_str(), name) {
                return Some(k);
            }
            k = k + 1;
        }
        None
    }

    /// Adds an alias; a name can be an alias only once.
    pub fn add_alias(&mut self, name: String, target: TypeSpec) -> (r: Result<(), LumosError>)
        ensures
            final(self).resolved_list() == old(self).resolved_list(),
            is_alias(old(self).alias_list(), name@) ==> final(self).alias_list() == old(
                self,
            ).alias_list() && match r {
                Err(LumosError::Transform(m)) => m@ == "Duplicate type alias definition: "@
                    + name@,
                _ => false,
            },
            !is_alias(old(self).alias_list(), name@) ==> r is Ok && final(self).alias_list()
                == old(self).alias_list().push((name, target)),
            old(self).resolved_list().len() == 0 ==> final(self).wf(),
    {
        proof {
            reveal(consistent);
        }
        match self.find_alias(name.as_str()) {
            Some(_) => {
                let mut m = to_string("Duplicate type alias definition: ");
                m.append(name.as_str());
                Err(LumosError::Transform(m))
            },
            None => {
                self.aliases.push((name, target));
                proof {
                    reveal(consistent);
                }
                Ok(())
            },
        }
    }

    /// The resolved type of an alias, once resolved.
    pub fn get_resolved(&self, name: &str) -> (r: Option<&TypeInfo>)
        ensures
            match r {
                Some(t) => lookup(self.resolved_list(), name@) == Some(type_view(*t)),
                None => lookup(self.resolved_list(), name@) is None,
            },
    {
        match self.find_resolved(name) {
            Some(k) => Some(&self.resolved[k].1),
            None => None,
        }
    }

    fn resolve_alias(&mut self, name: &String, visited: &mut Vec<String>) -> (r: Result<
        TypeInfo,
        LumosError,
    >)
        requires
            old(self).wf(),
            is_alias(old(self).aliases@, name@),
            chain(old(self).aliases@, old(self).resolved@, crate::text::views(old(visited)@)),
            old(visited)@.len() > 0 ==> refers(
                old(self).aliases@,
                old(visited)@.last()@,
                name@,
            ),
        ensures
            final(self).aliases@ == old(self).aliases@,
            final(self).wf(),
            grown(old(self).resolved@, final(self).resolved@, crate::text::views(old(visited)@)),
            match r {
                Ok(t) => {
                    &&& final(visited)@ == old(visited)@
                    &&& lookup(final(self).resolved@, name@) == Some(type_view(t))
                },
                Err(e) => has_cycle(old(self).aliases@) && match e {
                    LumosError::Transform(m) => exists|n: Seq<char>|
                        is_alias(old(self).aliases@, n) && m@ == #[trigger] circular_message(n),
                    _ => false,
                },
            },
        decreases old(self).aliases@.len() - old(visited)@.len(), 0nat,
    {
        let ghost al = self.aliases@;
        let ghost v0 = crate::text::views(visited@);
        let ghost res0 = self.resolved@;
        proof {
            lemma_visited_bound(al, v0);
        }
        match self.find_resolved(name.as_str()) {
            Some(k) => {
                proof {
                    lemma_resolved_index_bounds(res0, name@, 0);
                }
                return Ok(crate::ir::copy_type_info(&self.resolved[k].1));
            },
            None => {},
        }
        if crate::text::has_string_exec(visited, name.as_str()) {
            proof {
                let j = choose|k: int| 0 <= k < visited@.len() && (#[trigger] visited@[k])@ == name@;
                assert(v0[j] == name@);
                assert(v0.last() == visited@.last()@);
                lemma_chain_cycle(al, res0, v0, name@, j);
                assert(is_alias(al, name@));
            }
            let mut m = to_string("Circular type alias detected: ");
            m.append(name.as_str());
            assert(m@ == circular_message(name@));
            return Err(LumosError::Transform(m));
        }
        visited.push(copy_string(name));
        let ghost v1 = crate::text::views(visited@);
        proof {
            assert(v1 =~= v0.push(name@));
            assert(!v0.contains(name@)) by {
                if v0.contains(name@) {
                    let j = choose|j: int| 0 <= j < v0.len() && v0[j] == name@;
                    assert(visited@[j]@ == name@);
                }
            }
            assert(v1.no_duplicates());
            assert forall|i: int| 0 <= i < v1.len() - 1 implies refers(
                al,
                #[trigger] v1[i],
                v1[i + 1],
            ) by {
                if i < v0.len() - 1 {
                    assert(v1[i] == v0[i] && v1[i + 1] == v0[i + 1]);
                } else {
                    assert(v1[i] == v0.last());
                }
            }
            lemma_visited_bound(al, v1);
        }
        let target = match self.find_alias(name.as_str()) {
            Some(k) => copy_type_spec(&self.aliases[k].1),
            None => {
                let mut m = to_string("Unknown type alias: ");
                m.append(name.as_str());
                return Err(LumosError::Transform(m));
            },
        };
        assert(target == alias_target(al, name@));
        let r = self.transform_type_with_resolver(&target, false, visited);
        match r {
            Ok(t) => {
                let ghost res1 = self.resolved@;
                proof {
                    assert forall|j: int| 0 <= j < res1.len() implies res1[j].0@ != name@ by {
                        if j < res0.len() {
                            lemma_resolved_index_bounds(res0, name@, 0);
                            assert(res1[j] == res0[j]);
                        } else {
                            assert(v1.contains(name@)) by {
                                assert(v1[v1.len() - 1] == name@);
                            }
                        }
                    }
                    lemma_resolved_index_bounds(res1, name@, 0);
                }
                let entry = (copy_string(name), crate::ir::copy_type_info(&t));
                proof {
                    lemma_consistent_push(al, res1, name@, entry);
                }
                self.resolved.push(entry);
                visited.pop();
                proof {
                    assert(crate::text::views(visited@) =~= v0);
                    assert(visited@ =~= old(visited)@) by {
                        assert forall|i: int| 0 <= i < visited@.len() implies visited@[i] == old(
                            visited,
                        )@[i] by {}
                    }
                    assert forall|k: int|
                        res0.len() <= k < self.resolved@.len() implies !v0.contains(
                            #[trigger] self.resolved@[k].0@,
                        ) by {
                        if k < res1.len() {
                            assert(self.resolved@[k] == res1[k]);
                            if v0.contains(res1[k].0@) {
                                let j = choose|j: int| 0 <= j < v0.len() && v0[j] == res1[k].0@;
                                assert(v1[j] == v0[j]);
                            }
                        } else {
                            assert(self.resolved@[k] == entry);
                        }
                    }
                }
                Ok(t)
            },
            Err(e) => {
                proof {
                    assert forall|k: int|
                        res0.len() <= k < self.resolved@.len() implies !v0.contains(
                            #[trigger] self.resolved@[k].0@,
                        ) by {
                        if v0.contains(self.resolved@[k].0@) {
                            let j = choose|j: int|
                                0 <= j < v0.len() && v0[j] == self.resolved@[k].0@;
                            assert(v1[j] == v0[j]);
                        }
                    }
                }
                Err(e)
            },
        }
    }

    fn resolve_name(&mut self, n: &String, visited: &mut Vec<String>) -> (r: Result<
        TypeInfo,
        LumosError,
    >)
        requires
            old(self).wf(),
            chain(old(self).aliases@, old(self).resolved@, crate::text::views(old(visited)@)),
            old(visited)@.len() > 0 && is_alias(old(self).aliases@, n@) ==> refers(
                old(self).aliases@,
                old(visited)@.last()@,
                n@,
            ),
            old(visited)@.len() <= old(self).aliases@.len(),
        ensures
            final(self).aliases@ == old(self).aliases@,
            final(self).wf(),
            grown(old(self).resolved@, final(self).resolved@, crate::text::views(old(visited)@)),
            match r {
                Ok(t) => {
                    &&& final(visited)@ == old(visited)@
                    &&& type_view(t) == named(final(self).aliases@, final(self).resolved@, n@)
                    &&& is_alias(final(self).aliases@, n@) ==> 0 <= resolved_index(
                        final(self).resolved@,
                        n@,
                        0,
                    ) < final(self).resolved@.len()
                },
                Err(e) => has_cycle(old(self).aliases@) && match e {
                    LumosError::Transform(m) => exists|x: Seq<char>|
                        is_alias(old(self).aliases@, x) && m@ == #[trigger] circular_message(x),
                    _ => false,
                },
            },
        decreases old(self).aliases@.len() - old(visited)@.len(), 1nat,
    {
        match self.find_alias(n.as_str()) {
            Some(_) => {
                match self.resolve_alias(n, visited) {
                    Ok(t) => {
                        proof {
                            lemma_resolved_index_bounds(self.resolved@, n@, 0);
                        }
                        Ok(t)
                    },
                    Err(e) => Err(e),
                }
            },
            None => Ok(TypeInfo::UserDefined(copy_string(n))),
        }
    }

    #[verifier::rlimit(50)]
    #[verifier::spinoff_prover]
    fn transform_type_with_resolver(&mut self, spec: &TypeSpec, optional: bool, visited: &mut Vec<String>) -> (r:
        Result<TypeInfo, LumosError>)
        requires
            old(self).wf(),
            chain(old(self).aliases@, old(self).resolved@, crate::text::views(old(visited)@)),
            old(visited)@.len() > 0 ==> forall|n: Seq<char>|
                #[trigger] mentions(old(self).aliases@, *spec, n) ==> refers(
                    old(self).aliases@,
                    old(visited)@.last()@,
                    n,
                ),
            old(visited)@.len() <= old(self).aliases@.len(),
        ensures
            final(self).aliases@ == old(self).aliases@,
            final(self).wf(),
            grown(old(self).resolved@, final(self).resolved@, crate::text::views(old(visited)@)),
            match r {
                Ok(t) => {
                    &&& final(visited)@ == old(visited)@
                    &&& type_view(t) == with_option(
                        expand(final(self).aliases@, final(self).resolved@, *spec),
                        optional,
                    )
                    &&& resolved_before(
                        final(self).aliases@,
                        final(self).resolved@,
                        *spec,
                        final(self).resolved@.len() as int,
                    )
                },
                Err(e) => has_cycle(old(self).aliases@) && match e {
                    LumosError::Transform(m) => exists|n: Seq<char>|
                        is_alias(old(self).aliases@, n) && m@ == #[trigger] circular_message(n),
                    _ => false,
                },
            },
        decreases old(self).aliases@.len() - old(visited)@.len(), 2 + spec_height(*spec),
    {
        let ghost al = self.aliases@;
        match spec {
            TypeSpec::Primitive(p) => {
                if is_valid_primitive_type(p.as_str()) {
                    let t = TypeInfo::Primitive(map_type_alias(p.as_str()));
                    assert(forall|n: Seq<char>| !#[trigger] mentions(al, *spec, n));
                    Ok(Self::optional_of(t, optional))
                } else {
                    proof {
                        if is_alias(al, p@) {
                            assert(mentions(al, *spec, p@));
                        }
                    }
                    match self.resolve_name(p, visited) {
                        Ok(t) => {
                            assert(type_view(t) == expand(al, self.resolved@, *spec));
                            Ok(Self::optional_of(t, optional))
                        },
                        Err(e) => Err(e),
                    }
                }
            },
            TypeSpec::UserDefined(n) => {
                proof {
                    if is_alias(al, n@) {
                        assert(mentions(al, *spec, n@));
                    }
                }
                match self.resolve_name(n, visited) {
                    Ok(t) => {
                        assert(type_view(t) == expand(al, self.resolved@, *spec));
                        Ok(Self::optional_of(t, optional))
                    },
                    Err(e) => Err(e),
                }
            },
            TypeSpec::Array(inner) => {
                proof {
                    assert forall|n: Seq<char>| #[trigger] mentions(al, **inner, n) implies mentions(
                        al,
                        *spec,
                        n,
                    ) by {}
                }
                match self.transform_type_with_resolver(inner, false, visited) {
                    Ok(t) => {
                        proof {
                            assert forall|n: Seq<char>| #[trigger] mentions(al, *spec, n) implies 0
                                <= resolved_index(self.resolved@, n, 0)
                                < self.resolved@.len() by {
                                assert(mentions(al, **inner, n));
                            }
                        }
                        Ok(Self::optional_of(TypeInfo::Array(Box::new(t)), optional))
                    },
                    Err(e) => Err(e),
                }
            },
            TypeSpec::FixedArray { element, size } => {
                proof {
                    assert forall|n: Seq<char>| #[trigger] mentions(al, **element, n) implies mentions(
                        al,
                        *spec,
                        n,
                    ) by {}
                }
                match self.transform_type_with_resolver(element, false, visited) {
                    Ok(t) => {
                        proof {
                            assert forall|n: Seq<char>| #[trigger] mentions(al, *spec, n) implies 0
                                <= resolved_index(self.resolved@, n, 0)
                                < self.resolved@.len() by {
                                assert(mentions(al, **element, n));
                            }
                        }
                        Ok(
                            Self::optional_of(
                                TypeInfo::FixedArray { element: Box::new(t), size: *size },
                                optional,
                            ),
                        )
                    },
                    Err(e) => Err(e),
                }
            },
        }
    }

    fn optional_of(t: TypeInfo, optional: bool) -> (r: TypeInfo)
        ensures
            type_view(r) == with_option(type_view(t), optional),
    {
        if optional {
            TypeInfo::Option(Box::new(t))
        } else {
            t
        }
    }

    /// Resolves every alias, in the order they were added, from scratch
    /// (what an earlier call resolved is recomputed, so aliases added since
    /// are taken into account); fails when aliases refer to each other in a
    /// cycle, naming an alias on it.
    #[verifier::rlimit(50)]
    #[verifier::spinoff_prover]
    pub fn resolve_all_aliases(&mut self) -> (r: Result<(), LumosError>)
        ensures
            final(self).alias_list() == old(self).alias_list(),
            final(self).wf(),
            r is Ok <==> !has_cycle(old(self).alias_list()),
            r is Ok ==> forall|n: Seq<char>|
                is_alias(final(self).alias_list(), n) ==> #[trigger] lookup(
                    final(self).resolved_list(),
                    n,
                ) is Some,
            match r {
                Err(LumosError::Transform(m)) => exists|n: Seq<char>|
                    is_alias(old(self).alias_list(), n) && m@ == #[trigger] circular_message(n),
                Err(_) => false,
                Ok(_) => true,
            },
    {
        self.resolved = Vec::new();
        proof {
            reveal(consistent);
        }
        let ghost al = self.aliases@;
        let mut i: usize = 0;
        while i < self.aliases.len()
            invariant
                al == old(self).aliases@,
                self.aliases@ == al,
                self.wf(),
                i <= al.len(),
                forall|j: int| 0 <= j < i ==> resolved_index(self.resolved@, #[trigger] al[j].0@, 0) >= 0,
            decreases al.len() - i,
        {
            let name = copy_string(&self.aliases[i].0);
            let mut visited: Vec<String> = Vec::new();
            proof {
                assert(crate::text::views(visited@) =~= Seq::<Seq<char>>::empty());
                lemma_alias_index_bounds(al, name@, 0);
                assert(is_alias(al, name@));
            }
            let ghost res0 = self.resolved@;
            match self.resolve_alias(&name, &mut visited) {
                Ok(_) => {},
                Err(e) => {
                    return Err(e);
                },
            }
            proof {
                assert forall|j: int| 0 <= j <= i implies resolved_index(
                    self.resolved@,
                    #[trigger] al[j].0@,
                    0,
                ) >= 0 by {
                    if j < i {
                        lemma_resolved_index_bounds(res0, al[j].0@, 0);
                        let k = resolved_index(res0, al[j].0@, 0);
                        assert(self.resolved@[k] == res0[k]);
                        lemma_resolved_index_bounds(self.resolved@, al[j].0@, 0);
                    } else {
                        lemma_resolved_index_bounds(self.resolved@, name@, 0);
                    }
                }
            }
            i = i + 1;
        }
        proof {
            assert forall|n: Seq<char>| is_alias(al, n) implies #[trigger] lookup(
                self.resolved@,
                n,
            ) is Some by {
                lemma_alias_index_bounds(al, n, 0);
                let j = alias_index(al, n, 0);
                assert(resolved_index(self.resolved@, al[j].0@, 0) >= 0);
            }
            lemma_no_cycle(al, self.resolved@);
            if exists|n: Seq<char>| is_alias(al, n) && #[trigger] resolved_index(self.resolved@, n, 0) < 0 {
                let n = choose|n: Seq<char>| is_alias(al, n) && #[trigger] resolved_index(self.resolved@, n, 0) < 0;
                assert(lookup(self.resolved@, n) is Some);
            }
        }
        Ok(())
    }
}


/// A name after resolution: its resolved alias, or a user-defined type.
pub open spec fn applied_name(res: Seq<(String, TypeInfo)>, n: Seq<char>) -> TypeView {
    match lookup(res, n) {
        Some(v) => v,
        None => TypeView::UserDefined(n),
    }
}

/// Spec `t` with the resolved aliases of `res` put in: primitive names are
/// kept (TypeScript-style aliases mapped to Rust names); other names become
/// the resolved alias they name or a user-defined type.
pub open spec fn applied(res: Seq<(String, TypeInfo)>, t: TypeSpec) -> TypeView
    decreases t,
{
    match t {
        TypeSpec::Primitive(p) => if valid_primitive(p@) {
            TypeView::Primitive(alias_mapped(p@))
        } else {
            applied_name(res, p@)
        },
        TypeSpec::UserDefined(u) => applied_name(res, u@),
        TypeSpec::Array(inner) => TypeView::Array(Box::new(applied(res, *inner))),
        TypeSpec::FixedArray { element, size } => TypeView::FixedArray(
            Box::new(applied(res, *element)),
            size,
        ),
    }
}

fn applied_name_exec(n: &String, resolver: &TypeAliasResolver) -> (r: TypeInfo)
    ensures
        type_view(r) == applied_name(resolver.resolved_list(), n@),
{
    match resolver.get_resolved(n.as_str()) {
        Some(t) => crate::ir::copy_type_info(t),
        None => TypeInfo::UserDefined(copy_string(n)),
    }
}

/// The type of a spec, with the aliases the resolver has resolved put in,
/// wrapped in an option when `optional`.
pub fn transform_type(spec: &TypeSpec, optional: bool, resolver: &TypeAliasResolver) -> (r: Result<
    TypeInfo,
    LumosError,
>)
    ensures
        match r {
            Ok(t) => type_view(t) == with_option(applied(resolver.resolved_list(), *spec), optional),
            Err(_) => false,
        },
    decreases spec,
{
    let base = match spec {
        TypeSpec::Primitive(p) => {
            if is_valid_primitive_type(p.as_str()) {
                TypeInfo::Primitive(map_type_alias(p.as_str()))
            } else {
                applied_name_exec(p, resolver)
            }
        },
        TypeSpec::UserDefined(n) => applied_name_exec(n, resolver),
        TypeSpec::Array(inner) => {
            let t = match transform_type(inner, false, resolver) {
                Ok(t) => t,
                Err(e) => {
                    return Err(e);
                },
            };
            TypeInfo::Array(Box::new(t))
        },
        TypeSpec::FixedArray { element, size } => {
            let t = match transform_type(element, false, resolver) {
                Ok(t) => t,
                Err(e) => {
                    return Err(e);
                },
            };
            TypeInfo::FixedArray { element: Box::new(t), size: *size }
        },
    };
    if optional {
        Ok(TypeInfo::Option(Box::new(base)))
    } else {
        Ok(base)
    }
}

/// Once every alias is resolved, putting the resolved aliases into a spec
/// gives the spec with each alias replaced by its resolved type: a name
/// that is no alias stays a user-defined type.
pub proof fn law_resolved_aliases_replace_names(
    aliases: Seq<(String, TypeSpec)>,
    res: Seq<(String, TypeInfo)>,
    t: TypeSpec,
)
    requires
        consistent(aliases, res),
        forall|n: Seq<char>| is_alias(aliases, n) ==> #[trigger] lookup(res, n) is Some,
    ensures
        applied(res, t) == expand(aliases, res, t),
    decreases t,
{
    reveal(consistent);
    match t {
        TypeSpec::Primitive(p) => {
            if lookup(res, p@) is Some {
                lemma_resolved_index_bounds(res, p@, 0);
                let k = resolved_index(res, p@, 0);
                assert(is_alias(aliases, res[k].0@));
            }
        },
        TypeSpec::UserDefined(u) => {
            if lookup(res, u@) is Some {
                lemma_resolved_index_bounds(res, u@, 0);
                let k = resolved_index(res, u@, 0);
                assert(is_alias(aliases, res[k].0@));
            }
        },
        TypeSpec::Array(inner) => {
            law_resolved_aliases_replace_names(aliases, res, *inner);
        },
        TypeSpec::FixedArray { element, .. } => {
            law_resolved_aliases_replace_names(aliases, res, *element);
        },
    }
}

/// Resolution succeeds exactly for alias sets without a cycle, and then
/// every alias maps to its target with the aliases inside it replaced.
pub proof fn law_alias_resolution(r: TypeAliasResolver)
    requires
        r.wf(),
        forall|n: Seq<char>| is_alias(r.alias_list(), n) ==> #[trigger] lookup(r.resolved_list(), n) is Some,
    ensures
        !has_cycle(r.alias_list()),
        forall|n: Seq<char>|
            is_alias(r.alias_list(), n) ==> #[trigger] lookup(r.resolved_list(), n) == Some(
                applied(r.resolved_list(), alias_target(r.alias_list(), n)),
            ),
{
    let al = r.alias_list();
    let res = r.resolved_list();
    lemma_no_cycle(al, res);
    if exists|n: Seq<char>| is_alias(al, n) && #[trigger] resolved_index(res, n, 0) < 0 {
        let n = choose|n: Seq<char>| is_alias(al, n) && #[trigger] resolved_index(res, n, 0) < 0;
        assert(lookup(res, n) is Some);
    }
    assert forall|n: Seq<char>| is_alias(al, n) implies #[trigger] lookup(res, n) == Some(
        applied(res, alias_target(al, n)),
    ) by {
        reveal(consistent);
        assert(lookup(res, n) is Some);
        lemma_resolved_index_bounds(res, n, 0);
        let k = resolved_index(res, n, 0);
        assert(res[k].0@ == n);
        law_resolved_aliases_replace_names(al, res, alias_target(al, n));
    }
}

} // verus!
