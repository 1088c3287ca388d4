//! Lowering of the syntax tree to the intermediate representation: fields,
//! variants, structs, enums and aliases, with the aliases a resolver has
//! resolved put in, and metadata read from attributes.

use vstd::prelude::*;
use crate::ast::{
    Attribute, AttributeValue, EnumDef, EnumVariant, FieldDef, Item, LumosFile, StructDef,
    TypeAlias, TypeSpec, copy_type_spec, find_attr, first_attr, has_attr, item_name,
};
use crate::error::LumosError;
use crate::ir::{
    copy_strings, def_name, EnumDefinition, EnumVariantDefinition, FieldDefinition, Metadata,
    StructDefinition, TypeAliasDefinition, TypeDefinition, TypeInfo, Visibility,
};
use crate::text::{copy_string, to_string};
use super::{
    answers_first, applied, circular_message, consistent, has_cycle, is_alias, lookup,
    schema_violations, transform_type, type_view, validate_user_defined_types, with_option,
    TypeAliasResolver,
};

verus! {

/// The deprecation message of a field: that of its first `deprecated`
/// attribute when it holds a string, a standard message when it holds
/// none, nothing when the field has no such attribute.
pub open spec fn deprecation_of(attrs: Seq<Attribute>) -> Option<Seq<char>> {
    match first_attr(attrs, "deprecated"@, 0) {
        Some(a) => match a.value {
            Some(AttributeValue::String(m)) => Some(m@),
            _ => Some("This field is deprecated"@),
        },
        None => None,
    }
}

/// The names listed by the first `derive` attribute, when it holds a list.
pub open spec fn custom_derives_of(attrs: Seq<Attribute>) -> Seq<String> {
    match first_attr(attrs, "derive"@, 0) {
        Some(a) => match a.value {
            Some(AttributeValue::List(l)) => l@,
            _ => Seq::empty(),
        },
        None => Seq::empty(),
    }
}

/// Characters of an optional string.
pub open spec fn opt_view(o: Option<String>) -> Option<Seq<char>> {
    match o {
        Some(s) => Some(s@),
        None => None,
    }
}

/// The metadata of a definition with attributes `attrs` and version
/// `version`.
pub open spec fn metadata_of(attrs: Seq<Attribute>, version: Option<String>, m: Metadata) -> bool {
    &&& m.solana == has_attr(attrs, "solana"@)
    &&& m.attributes@ == attrs.map_values(|a: Attribute| a.name)
    &&& m.version == version
    &&& m.custom_derives@ == custom_derives_of(attrs)
    &&& m.is_instruction == has_attr(attrs, "instruction"@)
    &&& m.anchor_attrs@.len() == 0
}

/// The texts of the `anchor(...)` attributes, in order.
pub open spec fn anchor_values(attrs: Seq<Attribute>) -> Seq<Seq<char>>
    decreases attrs.len(),
{
    if attrs.len() == 0 {
        Seq::empty()
    } else {
        let rest = anchor_values(attrs.drop_last());
        let a = attrs.last();
        if a.name@ == "anchor"@ {
            match a.value {
                Some(AttributeValue::String(v)) => rest.push(v@),
                _ => rest,
            }
        } else {
            rest
        }
    }
}

/// The texts of a field's `anchor(...)` attributes, in order.
pub fn extract_anchor_attrs(attributes: &Vec<Attribute>) -> (r: Vec<String>)
    ensures
        crate::text::views(r@) == anchor_values(attributes@),
{
    let mut out: Vec<String> = Vec::new();
    let mut k: usize = 0;
    while k < attributes.len()
        invariant
            k <= attributes@.len(),
            crate::text::views(out@) == anchor_values(attributes@.take(k as int)),
        decreases attributes@.len() - k,
    {
        proof {
            assert(attributes@.take(k + 1).drop_last() =~= attributes@.take(k as int));
        }
        let a = &attributes[k];
        if crate::text::str_eq(a.name.as_str(), "anchor") {
            match &a.value {
                Some(AttributeValue::String(v)) => {
                    let ghost before = crate::text::views(out@);
                    out.push(v.clone());
                    assert(crate::text::views(out@) =~= before.push(v@));
                },
                _ => {},
            }
        }
        k = k + 1;
    }
    assert(attributes@.take(k as int) =~= attributes@);
    out
}

/// The deprecation message of a field with these attributes.
pub fn extract_deprecation(attributes: &Vec<Attribute>) -> (r: Option<String>)
    ensures
        opt_view(r) == deprecation_of(attributes@),
{
    proof {
        reveal_strlit("deprecated");
    }
    match find_attr(attributes, "deprecated") {
        Some(k) => match &attributes[k].value {
            Some(AttributeValue::String(m)) => Some(m.clone()),
            _ => {
                proof {
                    reveal_strlit("This field is deprecated");
                }
                Some(to_string("This field is deprecated"))
            },
        },
        None => None,
    }
}

/// The names listed by the first `derive` attribute, or none.
pub fn extract_custom_derives(attributes: &Vec<Attribute>) -> (r: Vec<String>)
    ensures
        r@ == custom_derives_of(attributes@),
{
    match find_attr(attributes, "derive") {
        Some(k) => match &attributes[k].value {
            Some(AttributeValue::List(l)) => copy_strings(l),
            _ => Vec::new(),
        },
        None => Vec::new(),
    }
}

/// The metadata of a definition: whether it is marked `solana`, the names
/// of its attributes, its version and its custom derives.
pub fn extract_metadata(attributes: &Vec<Attribute>, version: &Option<String>) -> (r: Metadata)
    ensures
        metadata_of(attributes@, *version, r),
{
    let mut names: Vec<String> = Vec::new();
    let mut k: usize = 0;
    while k < attributes.len()
        invariant
            k <= attributes@.len(),
            names@ == attributes@.subrange(0, k as int).map_values(|a: Attribute| a.name),
        decreases attributes@.len() - k,
    {
        names.push(attributes[k].name.clone());
        k = k + 1;
        assert(names@ =~= attributes@.subrange(0, k as int).map_values(|a: Attribute| a.name));
    }
    assert(attributes@.subrange(0, k as int) =~= attributes@);
    Metadata {
        solana: crate::ast::has_attr_exec(attributes, "solana"),
        attributes: names,
        version: crate::ir::copy_opt_string(version),
        custom_derives: extract_custom_derives(attributes),
        is_instruction: crate::ast::has_attr_exec(attributes, "instruction"),
        anchor_attrs: Vec::new(),
    }
}


/// Field `d` is field `f` lowered with the resolved aliases `res`.
pub open spec fn field_ir(res: Seq<(String, TypeInfo)>, f: FieldDef, d: FieldDefinition) -> bool {
    &&& d.name == f.name
    &&& type_view(d.type_info) == with_option(applied(res, f.type_spec), f.optional)
    &&& d.optional == f.optional
    &&& opt_view(d.deprecated) == deprecation_of(f.attributes@)
    &&& crate::text::views(d.anchor_attrs@) == anchor_values(f.attributes@)
}

/// Fields `ds` are fields `fs` lowered, one for one.
pub open spec fn fields_ir(
    res: Seq<(String, TypeInfo)>,
    fs: Seq<FieldDef>,
    ds: Seq<FieldDefinition>,
) -> bool {
    &&& ds.len() == fs.len()
    &&& forall|k: int| 0 <= k < fs.len() ==> #[trigger] field_ir(res, fs[k], ds[k])
}

/// Types `ds` are the specs `ts` with the resolved aliases put in.
pub open spec fn types_ir(res: Seq<(String, TypeInfo)>, ts: Seq<TypeSpec>, ds: Seq<TypeInfo>) -> bool {
    &&& ds.len() == ts.len()
    &&& forall|k: int| 0 <= k < ts.len() ==> #[trigger] type_view(ds[k]) == applied(res, ts[k])
}

/// Variant `d` is variant `v` lowered.
pub open spec fn variant_ir(
    res: Seq<(String, TypeInfo)>,
    v: EnumVariant,
    d: EnumVariantDefinition,
) -> bool {
    match (v, d) {
        (EnumVariant::Unit { name }, EnumVariantDefinition::Unit { name: n }) => n == name,
        (
            EnumVariant::Tuple { name, types },
            EnumVariantDefinition::Tuple { name: n, types: ts },
        ) => n == name && types_ir(res, types@, ts@),
        (
            EnumVariant::Struct { name, fields },
            EnumVariantDefinition::Struct { name: n, fields: fs },
        ) => n == name && fields_ir(res, fields@, fs@),
        _ => false,
    }
}

/// Struct `d` is struct `s` lowered: a public, non-generic struct at the
/// schema's root.
pub open spec fn struct_ir(res: Seq<(String, TypeInfo)>, s: StructDef, d: StructDefinition) -> bool {
    &&& d.name == s.name
    &&& d.generic_params@.len() == 0
    &&& fields_ir(res, s.fields@, d.fields@)
    &&& metadata_of(s.attributes@, s.version, d.metadata)
    &&& d.visibility == Visibility::Public
    &&& d.module_segments@.len() == 0
}

/// Enum `d` is enum `e` lowered: a public, non-generic enum at the
/// schema's root.
pub open spec fn enum_ir(res: Seq<(String, TypeInfo)>, e: EnumDef, d: EnumDefinition) -> bool {
    &&& d.name == e.name
    &&& d.generic_params@.len() == 0
    &&& d.variants@.len() == e.variants@.len()
    &&& forall|k: int|
        0 <= k < e.variants@.len() ==> #[trigger] variant_ir(res, e.variants@[k], d.variants@[k])
    &&& metadata_of(e.attributes@, e.version, d.metadata)
    &&& d.visibility == Visibility::Public
    &&& d.module_segments@.len() == 0
}

/// Alias `d` is alias `a` lowered to its resolved type.
pub open spec fn alias_ir(res: Seq<(String, TypeInfo)>, a: TypeAlias, d: TypeAliasDefinition) -> bool {
    &&& d.name == a.name
    &&& lookup(res, a.name@) == Some(type_view(d.target))
    &&& d.visibility == Visibility::Public
    &&& d.module_segments@.len() == 0
}

/// The message for an alias that was never resolved.
pub open spec fn unresolved_message(n: Seq<char>) -> Seq<char> {
    "Type alias '"@ + n + "' was not resolved"@
}

/// Lowers a field: its type with the aliases put in (an option when the
/// field is optional), and its deprecation message.
pub fn transform_field(field: &FieldDef, resolver: &TypeAliasResolver) -> (r: Result<
    FieldDefinition,
    LumosError,
>)
    ensures
        match r {
            Ok(d) => field_ir(resolver.resolved_list(), *field, d),
            Err(_) => false,
        },
{
    let deprecated = extract_deprecation(&field.attributes);
    let type_info = match transform_type(&field.type_spec, field.optional, resolver) {
        Ok(t) => t,
        Err(e) => {
            return Err(e);
        },
    };
    Ok(
        FieldDefinition {
            name: field.name.clone(),
            type_info,
            optional: field.optional,
            deprecated,
            anchor_attrs: extract_anchor_attrs(&field.attributes),
        },
    )
}

fn transform_fields(fields: &Vec<FieldDef>, resolver: &TypeAliasResolver) -> (r: Result<
    Vec<FieldDefinition>,
    LumosError,
>)
    ensures
        match r {
            Ok(ds) => fields_ir(resolver.resolved_list(), fields@, ds@),
            Err(_) => false,
        },
{
    let mut out: Vec<FieldDefinition> = Vec::new();
    let mut k: usize = 0;
    while k < fields.len()
        invariant
            k <= fields@.len(),
            out@.len() == k,
            forall|j: int|
                0 <= j < k ==> #[trigger] field_ir(resolver.resolved_list(), fields@[j], out@[j]),
        decreases fields@.len() - k,
    {
        match transform_field(&fields[k], resolver) {
            Ok(d) => out.push(d),
            Err(e) => {
                return Err(e);
            },
        }
        k = k + 1;
    }
    Ok(out)
}

fn transform_types(types: &Vec<TypeSpec>, resolver: &TypeAliasResolver) -> (r: Result<
    Vec<TypeInfo>,
    LumosError,
>)
    ensures
        match r {
            Ok(ds) => types_ir(resolver.resolved_list(), types@, ds@),
            Err(_) => false,
        },
{
    let mut out: Vec<TypeInfo> = Vec::new();
    let mut k: usize = 0;
    while k < types.len()
        invariant
            k <= types@.len(),
            out@.len() == k,
            forall|j: int|
                0 <= j < k ==> #[trigger] type_view(out@[j]) == applied(
                    resolver.resolved_list(),
                    types@[j],
                ),
        decreases types@.len() - k,
    {
        match transform_type(&types[k], false, resolver) {
            Ok(t) => out.push(t),
            Err(e) => {
                return Err(e);
            },
        }
        k = k + 1;
    }
    Ok(out)
}

/// Lowers an enum variant.
pub fn transform_enum_variant(variant: &EnumVariant, resolver: &TypeAliasResolver) -> (r: Result<
    EnumVariantDefinition,
    LumosError,
>)
    ensures
        match r {
            Ok(d) => variant_ir(resolver.resolved_list(), *variant, d),
            Err(_) => false,
        },
{
    match variant {
        EnumVariant::Unit { name } => Ok(EnumVariantDefinition::Unit { name: name.clone() }),
        EnumVariant::Tuple { name, types } => match transform_types(types, resolver) {
            Ok(ts) => Ok(EnumVariantDefinition::Tuple { name: name.clone(), types: ts }),
            Err(e) => Err(e),
        },
        EnumVariant::Struct { name, fields } => match transform_fields(fields, resolver) {
            Ok(fs) => Ok(EnumVariantDefinition::Struct { name: name.clone(), fields: fs }),
            Err(e) => Err(e),
        },
    }
}

/// Lowers a struct.
pub fn transform_struct(struct_def: &StructDef, resolver: &TypeAliasResolver) -> (r: Result<
    StructDefinition,
    LumosError,
>)
    ensures
        match r {
            Ok(d) => struct_ir(resolver.resolved_list(), *struct_def, d),
            Err(_) => false,
        },
{
    let metadata = extract_metadata(&struct_def.attributes, &struct_def.version);
    let fields = match transform_fields(&struct_def.fields, resolver) {
        Ok(fs) => fs,
        Err(e) => {
            return Err(e);
        },
    };
    Ok(
        StructDefinition {
            name: struct_def.name.clone(),
            generic_params: Vec::new(),
            fields,
            metadata,
            visibility: Visibility::Public,
            module_segments: Vec::new(),
        },
    )
}

/// Lowers an enum.
pub fn transform_enum(enum_def: &EnumDef, resolver: &TypeAliasResolver) -> (r: Result<
    EnumDefinition,
    LumosError,
>)
    ensures
        match r {
            Ok(d) => enum_ir(resolver.resolved_list(), *enum_def, d),
            Err(_) => false,
        },
{
    let metadata = extract_metadata(&enum_def.attributes, &enum_def.version);
    let mut variants: Vec<EnumVariantDefinition> = Vec::new();
    let mut k: usize = 0;
    while k < enum_def.variants.len()
        invariant
            k <= enum_def.variants@.len(),
            variants@.len() == k,
            forall|j: int|
                0 <= j < k ==> #[trigger] variant_ir(
                    resolver.resolved_list(),
                    enum_def.variants@[j],
                    variants@[j],
                ),
        decreases enum_def.variants@.len() - k,
    {
        match transform_enum_variant(&enum_def.variants[k], resolver) {
            Ok(v) => variants.push(v),
            Err(e) => {
                return Err(e);
            },
        }
        k = k + 1;
    }
    Ok(
        EnumDefinition {
            name: enum_def.name.clone(),
            generic_params: Vec::new(),
            variants,
            metadata,
            visibility: Visibility::Public,
            module_segments: Vec::new(),
        },
    )
}

/// Lowers a type alias to its resolved type; fails when the resolver has
/// not resolved it.
pub fn transform_type_alias(alias_def: &TypeAlias, resolver: &TypeAliasResolver) -> (r: Result<
    TypeAliasDefinition,
    LumosError,
>)
    ensures
        match r {
            Ok(d) => alias_ir(resolver.resolved_list(), *alias_def, d),
            Err(e) => lookup(resolver.resolved_list(), alias_def.name@) is None && (e matches LumosError::Transform(m)
                && m@ == unresolved_message(alias_def.name@)),
        },
{
    match resolver.get_resolved(alias_def.name.as_str()) {
        Some(t) => Ok(
            TypeAliasDefinition {
                name: alias_def.name.clone(),
                target: crate::ir::copy_type_info(t),
                visibility: Visibility::Public,
                module_segments: Vec::new(),
            },
        ),
        None => {
            let mut m = to_string("Type alias '");
            m.append(alias_def.name.as_str());
            m.append("' was not resolved");
            proof {
                reveal_strlit("Type alias '");
                reveal_strlit("' was not resolved");
            }
            Err(LumosError::Transform(m))
        },
    }
}


/// Definition `d` is item `it` lowered.
pub open spec fn item_ir(res: Seq<(String, TypeInfo)>, it: Item, d: TypeDefinition) -> bool {
    match (it, d) {
        (Item::Struct(s), TypeDefinition::Struct(sd)) => struct_ir(res, s, sd),
        (Item::Enum(e), TypeDefinition::Enum(ed)) => enum_ir(res, e, ed),
        (Item::TypeAlias(a), TypeDefinition::TypeAlias(ad)) => alias_ir(res, a, ad),
        _ => false,
    }
}

/// Definitions `ds` are items `items` lowered, one for one and in order.
pub open spec fn items_ir(res: Seq<(String, TypeInfo)>, items: Seq<Item>, ds: Seq<TypeDefinition>) -> bool {
    &&& ds.len() == items.len()
    &&& forall|k: int| 0 <= k < items.len() ==> #[trigger] item_ir(res, items[k], ds[k])
}

/// The name of the first alias from position `i` on that `res` has not
/// resolved.
pub open spec fn first_unresolved(res: Seq<(String, TypeInfo)>, items: Seq<Item>, i: int) -> Option<
    Seq<char>,
>
    decreases items.len() - i,
{
    if 0 <= i < items.len() {
        match items[i] {
            Item::TypeAlias(a) => if lookup(res, a.name@) is None {
                Some(a.name@)
            } else {
                first_unresolved(res, items, i + 1)
            },
            _ => first_unresolved(res, items, i + 1),
        }
    } else {
        None
    }
}

fn transform_items(items: &Vec<Item>, resolver: &TypeAliasResolver) -> (r: Result<
    Vec<TypeDefinition>,
    LumosError,
>)
    ensures
        match first_unresolved(resolver.resolved_list(), items@, 0) {
            Some(n) => r matches Err(LumosError::Transform(m)) && m@ == unresolved_message(n),
            None => r matches Ok(ds) && items_ir(resolver.resolved_list(), items@, ds@),
        },
{
    let ghost res = resolver.resolved_list();
    let mut out: Vec<TypeDefinition> = Vec::new();
    let mut k: usize = 0;
    while k < items.len()
        invariant
            res == resolver.resolved_list(),
            k <= items@.len(),
            out@.len() == k,
            first_unresolved(res, items@, 0) == first_unresolved(res, items@, k as int),
            forall|j: int| 0 <= j < k ==> #[trigger] item_ir(res, items@[j], out@[j]),
        decreases items@.len() - k,
    {
        match &items[k] {
            Item::Struct(s) => match transform_struct(s, resolver) {
                Ok(d) => out.push(TypeDefinition::Struct(d)),
                Err(e) => {
                    return Err(e);
                },
            },
            Item::Enum(e) => match transform_enum(e, resolver) {
                Ok(d) => out.push(TypeDefinition::Enum(d)),
                Err(e) => {
                    return Err(e);
                },
            },
            Item::TypeAlias(a) => match transform_type_alias(a, resolver) {
                Ok(d) => out.push(TypeDefinition::TypeAlias(d)),
                Err(e) => {
                    return Err(e);
                },
            },
        }
        k = k + 1;
    }
    Ok(out)
}

/// What lowering a file with a resolver gives: the first alias the
/// resolver has not resolved fails it; otherwise its items lowered, in
/// order, which with `validate` must refer to defined types only.
pub open spec fn lowered(
    res: Seq<(String, TypeInfo)>,
    items: Seq<Item>,
    validate: bool,
    r: Result<Vec<TypeDefinition>, LumosError>,
) -> bool {
    match first_unresolved(res, items, 0) {
        Some(n) => r matches Err(LumosError::Transform(m)) && m@ == unresolved_message(n),
        None => match r {
            Ok(ds) => items_ir(res, items, ds@) && (validate ==> schema_violations(ds@, 0).len()
                == 0),
            Err(e) => validate && exists|ds: Seq<TypeDefinition>|
                items_ir(res, items, ds) && #[trigger] answers_first(
                    schema_violations(ds, 0),
                    Err(e),
                ),
        },
    }
}

fn transform_to_ir_with_resolver_impl(
    file: &LumosFile,
    resolver: &TypeAliasResolver,
    validate: bool,
) -> (r: Result<Vec<TypeDefinition>, LumosError>)
    ensures
        lowered(resolver.resolved_list(), file.items@, validate, r),
{
    let defs = match transform_items(&file.items, resolver) {
        Ok(ds) => ds,
        Err(e) => {
            return Err(e);
        },
    };
    if validate {
        match validate_user_defined_types(&defs) {
            Ok(()) => {},
            Err(e) => {
                assert(answers_first(schema_violations(defs@, 0), Err(e)));
                return Err(e);
            },
        }
    }
    Ok(defs)
}

/// Lowers a file with aliases resolved beforehand (possibly from several
/// files), then checks that every type it refers to is defined.
pub fn transform_to_ir_with_resolver(file: LumosFile, resolver: &TypeAliasResolver) -> (r: Result<
    Vec<TypeDefinition>,
    LumosError,
>)
    ensures
        lowered(resolver.resolved_list(), file.items@, true, r),
{
    transform_to_ir_with_resolver_impl(&file, resolver, true)
}

/// Lowers a file with aliases resolved beforehand, without checking the
/// types it refers to (they may be defined in other files).
pub fn transform_to_ir_with_resolver_no_validation(
    file: LumosFile,
    resolver: &TypeAliasResolver,
) -> (r: Result<Vec<TypeDefinition>, LumosError>)
    ensures
        lowered(resolver.resolved_list(), file.items@, false, r),
{
    transform_to_ir_with_resolver_impl(&file, resolver, false)
}


/// The aliases of a file, with their targets, in order.
pub open spec fn alias_entries(items: Seq<Item>) -> Seq<(String, TypeSpec)>
    decreases items.len(),
{
    if items.len() == 0 {
        Seq::empty()
    } else {
        let rest = alias_entries(items.drop_last());
        match items.last() {
            Item::TypeAlias(a) => rest.push((a.name, a.target)),
            _ => rest,
        }
    }
}

/// The first alias name that is defined a second time.
pub open spec fn first_duplicate(als: Seq<(String, TypeSpec)>) -> Option<Seq<char>>
    decreases als.len(),
{
    if als.len() == 0 {
        None
    } else {
        match first_duplicate(als.drop_last()) {
            Some(n) => Some(n),
            None => if is_alias(als.drop_last(), als.last().0@) {
                Some(als.last().0@)
            } else {
                None
            },
        }
    }
}

/// Whether `res` holds every alias of `als`, each resolved correctly.
pub open spec fn resolved_for(als: Seq<(String, TypeSpec)>, res: Seq<(String, TypeInfo)>) -> bool {
    &&& consistent(als, res)
    &&& forall|n: Seq<char>| is_alias(als, n) ==> #[trigger] lookup(res, n) is Some
}

/// The message for an alias defined twice.
pub open spec fn duplicate_message(n: Seq<char>) -> Seq<char> {
    "Duplicate type alias definition: "@ + n
}

pub(crate) proof fn lemma_duplicate_persists(items: Seq<Item>, m: int)
    requires
        0 <= m <= items.len(),
        first_duplicate(alias_entries(items.subrange(0, m))) is Some,
    ensures
        first_duplicate(alias_entries(items)) == first_duplicate(
            alias_entries(items.subrange(0, m)),
        ),
    decreases items.len() - m,
{
    if m < items.len() {
        let p = items.subrange(0, m + 1);
        assert(p.drop_last() =~= items.subrange(0, m));
        let q = alias_entries(items.subrange(0, m));
        match p.last() {
            Item::TypeAlias(a) => {
                assert(alias_entries(p).drop_last() =~= q);
            },
            _ => {},
        }
        lemma_duplicate_persists(items, m + 1);
    } else {
        assert(items.subrange(0, m) =~= items);
    }
}

proof fn lemma_alias_item_listed(items: Seq<Item>, k: int)
    requires
        0 <= k < items.len(),
        items[k] is TypeAlias,
    ensures
        exists|j: int|
            0 <= j < alias_entries(items).len() && (#[trigger] alias_entries(items)[j]).0
                == items[k]->TypeAlias_0.name,
    decreases items.len(),
{
    let rest = alias_entries(items.drop_last());
    if k == items.len() - 1 {
        let j = rest.len() as int;
        assert(alias_entries(items)[j].0 == items[k]->TypeAlias_0.name);
    } else {
        assert(items.drop_last()[k] == items[k]);
        lemma_alias_item_listed(items.drop_last(), k);
        let j = choose|j: int|
            0 <= j < rest.len() && (#[trigger] rest[j]).0 == items[k]->TypeAlias_0.name;
        match items.last() {
            Item::TypeAlias(a) => {
                assert(alias_entries(items)[j] == rest[j]);
            },
            _ => {
                assert(alias_entries(items)[j] == rest[j]);
            },
        }
        assert(0 <= j < alias_entries(items).len());
    }
}

pub(crate) proof fn lemma_all_resolved(res: Seq<(String, TypeInfo)>, items: Seq<Item>, i: int)
    requires
        0 <= i,
        resolved_for(alias_entries(items), res),
    ensures
        first_unresolved(res, items, i) is None,
    decreases items.len() - i,
{
    if i < items.len() {
        match items[i] {
            Item::TypeAlias(a) => {
                lemma_alias_item_listed(items, i);
                let als = alias_entries(items);
                let j = choose|j: int| 0 <= j < als.len() && (#[trigger] als[j]).0 == a.name;
                super::lemma_alias_index_bounds(als, a.name@, 0);
                assert(is_alias(als, a.name@));
            },
            _ => {},
        }
        lemma_all_resolved(res, items, i + 1);
    }
}

/// What lowering a whole file answers: an alias defined twice, or a cycle
/// of aliases, is refused; otherwise the aliases are resolved and every
/// item is lowered and checked.
pub open spec fn transform_answer(file: LumosFile, r: Result<Vec<TypeDefinition>, LumosError>) -> bool {
    let als = alias_entries(file.items@);
    match first_duplicate(als) {
        Some(n) => r matches Err(LumosError::Transform(m)) && m@ == duplicate_message(n),
        None => if has_cycle(als) {
            r matches Err(LumosError::Transform(m)) && exists|n: Seq<char>|
                is_alias(als, n) && m@ == #[trigger] circular_message(n)
        } else {
            exists|res: Seq<(String, TypeInfo)>|
                resolved_for(als, res) && #[trigger] lowered(res, file.items@, true, r)
        },
    }
}

/// Lowers a file: collects its aliases (an alias defined twice fails),
/// resolves them (a cycle of aliases fails), lowers its items in order and
/// checks that every type they refer to is defined.
#[verifier::rlimit(30)]
pub fn transform_to_ir(file: LumosFile) -> (r: Result<Vec<TypeDefinition>, LumosError>)
    ensures
        transform_answer(file, r),
{
    let ghost items = file.items@;
    let mut resolver = TypeAliasResolver::new();
    let mut k: usize = 0;
    while k < file.items.len()
        invariant
            items == file.items@,
            k <= items.len(),
            resolver.alias_list() == alias_entries(items.subrange(0, k as int)),
            first_duplicate(resolver.alias_list()) is None,
            resolver.resolved_list().len() == 0,
            resolver.wf(),
        decreases items.len() - k,
    {
        let ghost before = resolver.alias_list();
        proof {
            assert(items.subrange(0, k + 1).drop_last() =~= items.subrange(0, k as int));
        }
        match &file.items[k] {
            Item::TypeAlias(a) => {
                match resolver.add_alias(a.name.clone(), copy_type_spec(&a.target)) {
                    Ok(()) => {
                        proof {
                            assert(resolver.alias_list().drop_last() =~= before);
                        }
                    },
                    Err(e) => {
                        proof {
                            let after = alias_entries(items.subrange(0, k + 1));
                            assert(after.drop_last() =~= before);
                            lemma_duplicate_persists(items, k + 1);
                        }
                        return Err(e);
                    },
                }
            },
            _ => {},
        }
        k = k + 1;
    }
    proof {
        assert(items.subrange(0, k as int) =~= items);
    }
    match resolver.resolve_all_aliases() {
        Ok(()) => {},
        Err(e) => {
            return Err(e);
        },
    }
    proof {
        lemma_all_resolved(resolver.resolved_list(), items, 0);
    }
    let r = transform_to_ir_with_resolver_impl(&file, &resolver, true);
    assert(lowered(resolver.resolved_list(), items, true, r));
    r
}


/// Lowering keeps the definitions of a file, one for one and in order,
/// under their names.
pub proof fn law_lowering_keeps_names(
    res: Seq<(String, TypeInfo)>,
    items: Seq<Item>,
    ds: Seq<TypeDefinition>,
)
    requires
        items_ir(res, items, ds),
    ensures
        ds.len() == items.len(),
        forall|k: int| 0 <= k < items.len() ==> def_name(#[trigger] ds[k]) == item_name(items[k]),
{
    assert forall|k: int| 0 <= k < items.len() implies def_name(#[trigger] ds[k]) == item_name(
        items[k],
    ) by {
        assert(item_ir(res, items[k], ds[k]));
    }
}

} // verus!
