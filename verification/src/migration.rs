//! Schema migration: comparing two versions of a type definition and
//! writing the code that converts data from the old version to the new one.
//!
//! Field and variant names are compared as sets: a name that occurs
//! several times counts once, and the last field of that name is the one
//! whose type is compared. Changes come out in four groups (removed,
//! added, type-changed, reordered), each in the order of the schema.

use vstd::prelude::*;
use crate::ir::{
    copy_opt_string, copy_type_info, def_name, variant_name, EnumDefinition,
    EnumVariantDefinition, FieldDefinition, StructDefinition, TypeDefinition, TypeInfo,
};
use crate::text::{concat_map, dec, lemma_concat_map_step, str_eq, to_string, usize_to_string};

verus! {

/// A change between two schema versions.
#[derive(Debug, Clone, PartialEq)]
pub enum SchemaChange {
    /// A field was added.
    FieldAdded { name: String, type_info: TypeInfo, optional: bool },
    /// A field was removed.
    FieldRemoved { name: String, type_info: TypeInfo },
    /// A field's type was changed.
    FieldTypeChanged { name: String, old_type: TypeInfo, new_type: TypeInfo },
    /// A field moved to another position.
    FieldReordered { name: String, old_position: usize, new_position: usize },
    /// An enum variant was added.
    VariantAdded { name: String },
    /// An enum variant was removed.
    VariantRemoved { name: String },
}

/// The difference between two versions of one type.
#[derive(Debug, Clone)]
pub struct SchemaDiff {
    /// The name of the type being compared.
    pub type_ident: String,
    /// Version being migrated from.
    pub from_version: Option<String>,
    /// Version being migrated to.
    pub to_version: Option<String>,
    /// The detected changes.
    pub changes: Vec<SchemaChange>,
    /// Whether the migration is backward compatible.
    pub is_safe: bool,
}

/// Safety classification of a migration.
#[derive(Debug, Clone, Copy, PartialEq, Eq, Structural)]
pub enum MigrationSafety {
    /// Backward compatible.
    Safe,
    /// Potential data loss or incompatibility.
    Unsafe,
}

// ---------------------------------------------------------------------
// Type equality as the diff sees it
// ---------------------------------------------------------------------

/// Two types are equal for the diff when both are primitives or both are
/// user-defined types of the same name, or both are arrays / options of
/// equal types. Fixed arrays and generic parameters never compare equal.
pub open spec fn type_info_eq(a: TypeInfo, b: TypeInfo) -> bool
    decreases a,
{
    match (a, b) {
        (TypeInfo::Primitive(x), TypeInfo::Primitive(y)) => x@ == y@,
        (TypeInfo::UserDefined(x), TypeInfo::UserDefined(y)) => x@ == y@,
        (TypeInfo::Array(x), TypeInfo::Array(y)) => type_info_eq(*x, *y),
        (TypeInfo::Option(x), TypeInfo::Option(y)) => type_info_eq(*x, *y),
        _ => false,
    }
}

/// Compares two types for the diff (see [`type_info_eq`]).
pub fn type_info_equal(a: &TypeInfo, b: &TypeInfo) -> (r: bool)
    ensures
        r == type_info_eq(*a, *b),
    decreases a,
{
    match (a, b) {
        (TypeInfo::Primitive(x), TypeInfo::Primitive(y)) => *x == *y,
        (TypeInfo::UserDefined(x), TypeInfo::UserDefined(y)) => *x == *y,
        (TypeInfo::Array(x), TypeInfo::Array(y)) => type_info_equal(x, y),
        (TypeInfo::Option(x), TypeInfo::Option(y)) => type_info_equal(x, y),
        _ => false,
    }
}

// ---------------------------------------------------------------------
// Name lookups
// ---------------------------------------------------------------------

/// The index of the last field named `n`, or -1.
pub open spec fn last_field(fs: Seq<FieldDefinition>, n: Seq<char>) -> int
    decreases fs.len(),
{
    if fs.len() == 0 {
        -1
    } else if fs.last().name@ == n {
        fs.len() - 1
    } else {
        last_field(fs.drop_last(), n)
    }
}

/// Whether field `i` is the first one of its name.
pub open spec fn first_field(fs: Seq<FieldDefinition>, i: int) -> bool {
    forall|j: int| 0 <= j < i ==> fs[j].name@ != fs[i].name@
}

pub(crate) proof fn lemma_last_field(fs: Seq<FieldDefinition>, n: Seq<char>)
    ensures
        -1 <= last_field(fs, n) < fs.len(),
        last_field(fs, n) >= 0 ==> fs[last_field(fs, n)].name@ == n,
        last_field(fs, n) < 0 ==> forall|j: int| 0 <= j < fs.len() ==> fs[j].name@ != n,
        forall|j: int| last_field(fs, n) < j < fs.len() ==> fs[j].name@ != n,
    decreases fs.len(),
{
    if fs.len() > 0 && fs.last().name@ != n {
        lemma_last_field(fs.drop_last(), n);
        assert forall|j: int| 0 <= j < fs.len() - 1 implies fs[j] == fs.drop_last()[j] by {}
    }
}

/// The last field named `n`, if any.
fn find_last_field(fs: &Vec<FieldDefinition>, n: &String) -> (r: Option<usize>)
    ensures
        match r {
            Some(i) => i == last_field(fs@, n@) && i < fs@.len(),
            None => last_field(fs@, n@) == -1,
        },
{
    let mut i: usize = fs.len();
    assert(fs@.subrange(0, fs@.len() as int) =~= fs@);
    while i > 0
        invariant
            i <= fs@.len(),
            last_field(fs@, n@) == last_field(fs@.subrange(0, i as int), n@),
        decreases i,
    {
        let ghost pre = fs@.subrange(0, i as int);
        assert(pre.drop_last() =~= fs@.subrange(0, i - 1));
        if fs[i - 1].name == *n {
            proof {
                lemma_last_field(pre, n@);
            }
            return Some(i - 1);
        }
        i = i - 1;
    }
    assert(fs@.subrange(0, 0) =~= Seq::<FieldDefinition>::empty());
    None
}

/// Whether field `i` is the first of its name, checked.
fn is_first_field(fs: &Vec<FieldDefinition>, i: usize) -> (r: bool)
    requires
        i < fs@.len(),
    ensures
        r == first_field(fs@, i as int),
{
    let mut j: usize = 0;
    while j < i
        invariant
            i < fs@.len(),
            j <= i,
            forall|k: int| 0 <= k < j ==> fs@[k].name@ != fs@[i as int].name@,
        decreases i - j,
    {
        if fs[j].name == fs[i].name {
            return false;
        }
        j = j + 1;
    }
    true
}

/// The name of a variant, as a string value.
pub open spec fn variant_name_string(v: EnumVariantDefinition) -> String {
    match v {
        EnumVariantDefinition::Unit { name } => name,
        EnumVariantDefinition::Tuple { name, .. } => name,
        EnumVariantDefinition::Struct { name, .. } => name,
    }
}

/// Whether some variant is named `n`.
pub open spec fn has_variant(vs: Seq<EnumVariantDefinition>, n: Seq<char>) -> bool {
    exists|j: int| 0 <= j < vs.len() && #[trigger] variant_name(vs[j]) == n
}

/// Whether variant `i` is the first one of its name.
pub open spec fn first_variant(vs: Seq<EnumVariantDefinition>, i: int) -> bool {
    forall|j: int| 0 <= j < i ==> variant_name(vs[j]) != variant_name(vs[i])
}

fn variant_name_clone(v: &EnumVariantDefinition) -> (r: String)
    ensures
        r == variant_name_string(*v),
        r@ == variant_name(*v),
{
    match v {
        EnumVariantDefinition::Unit { name } => name.clone(),
        EnumVariantDefinition::Tuple { name, .. } => name.clone(),
        EnumVariantDefinition::Struct { name, .. } => name.clone(),
    }
}

fn contains_variant(vs: &Vec<EnumVariantDefinition>, n: &str) -> (r: bool)
    ensures
        r == has_variant(vs@, n@),
{
    let mut j: usize = 0;
    while j < vs.len()
        invariant
            j <= vs@.len(),
            forall|k: int| 0 <= k < j ==> variant_name(#[trigger] vs@[k]) != n@,
        decreases vs@.len() - j,
    {
        if str_eq(vs[j].name(), n) {
            return true;
        }
        j = j + 1;
    }
    false
}

fn is_first_variant(vs: &Vec<EnumVariantDefinition>, i: usize) -> (r: bool)
    requires
        i < vs@.len(),
    ensures
        r == first_variant(vs@, i as int),
{
    let mut j: usize = 0;
    while j < i
        invariant
            i < vs@.len(),
            j <= i,
            forall|k: int| 0 <= k < j ==> variant_name(vs@[k]) != variant_name(vs@[i as int]),
        decreases i - j,
    {
        if str_eq(vs[j].name(), vs[i].name()) {
            return false;
        }
        j = j + 1;
    }
    true
}

// ---------------------------------------------------------------------
// The changes between two structs
// ---------------------------------------------------------------------

/// Removed fields among the first `k` old fields.
pub open spec fn removed_fields(
    old: Seq<FieldDefinition>,
    new: Seq<FieldDefinition>,
    k: nat,
) -> Seq<SchemaChange>
    decreases k,
{
    if k == 0 {
        Seq::empty()
    } else {
        let i = k - 1;
        let rest = removed_fields(old, new, (k - 1) as nat);
        if first_field(old, i) && last_field(new, old[i].name@) < 0 {
            rest.push(
                SchemaChange::FieldRemoved {
                    name: old[i].name,
                    type_info: old[last_field(old, old[i].name@)].type_info,
                },
            )
        } else {
            rest
        }
    }
}

/// Whether `c` reports the field named `n` as removed.
pub open spec fn removes_field(c: SchemaChange, n: Seq<char>) -> bool {
    c matches SchemaChange::FieldRemoved { name, .. } && name@ == n
}

/// Whether `c` reports the field named `n` as added, optional or not.
pub open spec fn adds_field(c: SchemaChange, n: Seq<char>, opt: bool) -> bool {
    c matches SchemaChange::FieldAdded { name, optional, .. } && name@ == n && optional == opt
}

/// The first field carrying the name of field `j`.
pub(crate) proof fn lemma_first_field_of_name(fs: Seq<FieldDefinition>, j: int) -> (i: int)
    requires
        0 <= j < fs.len(),
    ensures
        0 <= i <= j,
        first_field(fs, i),
        fs[i].name@ == fs[j].name@,
    decreases j,
{
    if first_field(fs, j) {
        j
    } else {
        let k = choose|k: int| 0 <= k < j && fs[k].name@ == fs[j].name@;
        lemma_first_field_of_name(fs, k)
    }
}

/// A field of the old struct, first of its name, that the new struct lacks
/// is listed as removed.
pub(crate) proof fn lemma_removed_field_listed(
    old: Seq<FieldDefinition>,
    new: Seq<FieldDefinition>,
    i: int,
    k: nat,
)
    requires
        0 <= i < k <= old.len(),
        first_field(old, i),
        last_field(new, old[i].name@) < 0,
    ensures
        exists|p: int|
            0 <= p < removed_fields(old, new, k).len() && removes_field(
                #[trigger] removed_fields(old, new, k)[p],
                old[i].name@,
            ),
    decreases k,
{
    let rest = removed_fields(old, new, (k - 1) as nat);
    if i < k - 1 {
        lemma_removed_field_listed(old, new, i, (k - 1) as nat);
        let p = choose|p: int| 0 <= p < rest.len() && removes_field(#[trigger] rest[p], old[i].name@);
        assert(removed_fields(old, new, k)[p] == rest[p]);
    } else {
        assert(removes_field(removed_fields(old, new, k)[rest.len() as int], old[i].name@));
    }
}

/// A field of the new struct, first of its name, that the old struct lacks
/// is listed as added, optional exactly when its last declaration is.
pub(crate) proof fn lemma_added_field_listed(
    old: Seq<FieldDefinition>,
    new: Seq<FieldDefinition>,
    i: int,
    k: nat,
)
    requires
        0 <= i < k <= new.len(),
        first_field(new, i),
        last_field(old, new[i].name@) < 0,
    ensures
        exists|p: int|
            0 <= p < added_fields(old, new, k).len() && adds_field(
                #[trigger] added_fields(old, new, k)[p],
                new[i].name@,
                new[last_field(new, new[i].name@)].optional,
            ),
    decreases k,
{
    let rest = added_fields(old, new, (k - 1) as nat);
    let opt = new[last_field(new, new[i].name@)].optional;
    if i < k - 1 {
        lemma_added_field_listed(old, new, i, (k - 1) as nat);
        let p = choose|p: int| 0 <= p < rest.len() && adds_field(#[trigger] rest[p], new[i].name@, opt);
        assert(added_fields(old, new, k)[p] == rest[p]);
    } else {
        assert(adds_field(added_fields(old, new, k)[rest.len() as int], new[i].name@, opt));
    }
}

/// Added fields among the first `k` new fields.
pub open spec fn added_fields(
    old: Seq<FieldDefinition>,
    new: Seq<FieldDefinition>,
    k: nat,
) -> Seq<SchemaChange>
    decreases k,
{
    if k == 0 {
        Seq::empty()
    } else {
        let i = k - 1;
        let rest = added_fields(old, new, (k - 1) as nat);
        if first_field(new, i) && last_field(old, new[i].name@) < 0 {
            let f = new[last_field(new, new[i].name@)];
            rest.push(
                SchemaChange::FieldAdded {
                    name: new[i].name,
                    type_info: f.type_info,
                    optional: f.optional,
                },
            )
        } else {
            rest
        }
    }
}

/// Fields among the first `k` old fields whose type changed.
pub open spec fn changed_fields(
    old: Seq<FieldDefinition>,
    new: Seq<FieldDefinition>,
    k: nat,
) -> Seq<SchemaChange>
    decreases k,
{
    if k == 0 {
        Seq::empty()
    } else {
        let i = k - 1;
        let rest = changed_fields(old, new, (k - 1) as nat);
        let n = old[i].name@;
        if first_field(old, i) && last_field(new, n) >= 0 && !type_info_eq(
            old[last_field(old, n)].type_info,
            new[last_field(new, n)].type_info,
        ) {
            rest.push(
                SchemaChange::FieldTypeChanged {
                    name: old[i].name,
                    old_type: old[last_field(old, n)].type_info,
                    new_type: new[last_field(new, n)].type_info,
                },
            )
        } else {
            rest
        }
    }
}

/// Fields among the first `k` old fields that moved.
pub open spec fn moved_fields(
    old: Seq<FieldDefinition>,
    new: Seq<FieldDefinition>,
    k: nat,
) -> Seq<SchemaChange>
    decreases k,
{
    if k == 0 {
        Seq::empty()
    } else {
        let i = k - 1;
        let rest = moved_fields(old, new, (k - 1) as nat);
        let n = old[i].name@;
        if first_field(old, i) && last_field(new, n) >= 0 && last_field(old, n) != last_field(
            new,
            n,
        ) {
            rest.push(
                SchemaChange::FieldReordered {
                    name: old[i].name,
                    old_position: last_field(old, n) as usize,
                    new_position: last_field(new, n) as usize,
                },
            )
        } else {
            rest
        }
    }
}

/// All changes between two structs.
pub open spec fn struct_changes(old: StructDefinition, new: StructDefinition) -> Seq<
    SchemaChange,
> {
    let o = old.fields@;
    let n = new.fields@;
    removed_fields(o, n, o.len()) + added_fields(o, n, n.len()) + changed_fields(o, n, o.len())
        + moved_fields(o, n, o.len())
}

/// Whether a change breaks reading data written before it: removing a
/// field, adding a required field, changing a field's type or removing an
/// enum variant.
pub open spec fn is_unsafe_change(c: SchemaChange) -> bool {
    match c {
        SchemaChange::FieldRemoved { .. } => true,
        SchemaChange::FieldAdded { optional, .. } => !optional,
        SchemaChange::FieldTypeChanged { .. } => true,
        SchemaChange::VariantRemoved { .. } => true,
        _ => false,
    }
}

/// Whether none of the changes is unsafe.
pub open spec fn all_safe(cs: Seq<SchemaChange>) -> bool {
    forall|i: int| 0 <= i < cs.len() ==> !is_unsafe_change(#[trigger] cs[i])
}

proof fn lemma_all_safe_push(s1: Seq<SchemaChange>, c: SchemaChange)
    ensures
        all_safe(s1.push(c)) == (all_safe(s1) && !is_unsafe_change(c)),
{
    let s2 = s1.push(c);
    assert forall|i: int| 0 <= i < s1.len() implies s1[i] == s2[i] by {}
    if all_safe(s1) && !is_unsafe_change(c) {
        assert forall|i: int| 0 <= i < s2.len() implies !is_unsafe_change(#[trigger] s2[i]) by {
            if i < s1.len() {
                assert(s2[i] == s1[i]);
            }
        }
    }
    if all_safe(s2) {
        assert(!is_unsafe_change(s2[s1.len() as int]));
        assert forall|i: int| 0 <= i < s1.len() implies !is_unsafe_change(#[trigger] s1[i]) by {
            assert(s2[i] == s1[i]);
        }
    }
}

/// Removed variants among the first `k` old variants.
pub open spec fn removed_variants(
    old: Seq<EnumVariantDefinition>,
    new: Seq<EnumVariantDefinition>,
    k: nat,
) -> Seq<SchemaChange>
    decreases k,
{
    if k == 0 {
        Seq::empty()
    } else {
        let i = k - 1;
        let rest = removed_variants(old, new, (k - 1) as nat);
        if first_variant(old, i) && !has_variant(new, variant_name(old[i])) {
            rest.push(SchemaChange::VariantRemoved { name: variant_name_string(old[i]) })
        } else {
            rest
        }
    }
}

/// The first variant carrying the name of variant `j`.
pub(crate) proof fn lemma_first_of_name(vs: Seq<EnumVariantDefinition>, j: int) -> (i: int)
    requires
        0 <= j < vs.len(),
    ensures
        0 <= i <= j,
        first_variant(vs, i),
        variant_name(vs[i]) == variant_name(vs[j]),
    decreases j,
{
    if first_variant(vs, j) {
        j
    } else {
        let k = choose|k: int| 0 <= k < j && variant_name(vs[k]) == variant_name(vs[j]);
        lemma_first_of_name(vs, k)
    }
}

/// A variant of the old enum, first of its name, that the new enum lacks is
/// listed as removed.
pub(crate) proof fn lemma_removed_variant_listed(
    old: Seq<EnumVariantDefinition>,
    new: Seq<EnumVariantDefinition>,
    i: int,
    k: nat,
)
    requires
        0 <= i < k <= old.len(),
        first_variant(old, i),
        !has_variant(new, variant_name(old[i])),
    ensures
        removed_variants(old, new, k).contains(
            SchemaChange::VariantRemoved { name: variant_name_string(old[i]) },
        ),
    decreases k,
{
    let c = SchemaChange::VariantRemoved { name: variant_name_string(old[i]) };
    let rest = removed_variants(old, new, (k - 1) as nat);
    if i < k - 1 {
        lemma_removed_variant_listed(old, new, i, (k - 1) as nat);
        let p = choose|p: int| 0 <= p < rest.len() && rest[p] == c;
        if first_variant(old, k - 1) && !has_variant(new, variant_name(old[k - 1])) {
            let v = SchemaChange::VariantRemoved { name: variant_name_string(old[k - 1]) };
            assert(rest.push(v)[p] == c);
        }
    } else {
        assert(rest.push(c)[rest.len() as int] == c);
    }
}

/// Added variants among the first `k` new variants.
pub open spec fn added_variants(
    old: Seq<EnumVariantDefinition>,
    new: Seq<EnumVariantDefinition>,
    k: nat,
) -> Seq<SchemaChange>
    decreases k,
{
    if k == 0 {
        Seq::empty()
    } else {
        let i = k - 1;
        let rest = added_variants(old, new, (k - 1) as nat);
        if first_variant(new, i) && !has_variant(old, variant_name(new[i])) {
            rest.push(SchemaChange::VariantAdded { name: variant_name_string(new[i]) })
        } else {
            rest
        }
    }
}

/// All changes between two enums.
pub open spec fn enum_changes(old: EnumDefinition, new: EnumDefinition) -> Seq<SchemaChange> {
    let o = old.variants@;
    let n = new.variants@;
    removed_variants(o, n, o.len()) + added_variants(o, n, n.len())
}

/// What `SchemaDiff::compute` gives for two definitions of the same name
/// and kind; `None` where it reports an error.
pub open spec fn diff_changes(old: TypeDefinition, new: TypeDefinition) -> Option<
    Seq<SchemaChange>,
> {
    if def_name(old) != def_name(new) {
        None
    } else {
        match (old, new) {
            (TypeDefinition::Struct(o), TypeDefinition::Struct(n)) => Some(struct_changes(o, n)),
            (TypeDefinition::Enum(o), TypeDefinition::Enum(n)) => Some(enum_changes(o, n)),
            _ => None,
        }
    }
}

/// The version recorded in a definition's metadata.
pub open spec fn def_version(t: TypeDefinition) -> Option<String> {
    match t {
        TypeDefinition::Struct(s) => s.metadata.version,
        TypeDefinition::Enum(e) => e.metadata.version,
        TypeDefinition::TypeAlias(_) => None,
    }
}

/// The error text of `SchemaDiff::compute`.
pub open spec fn compute_error(old: TypeDefinition, new: TypeDefinition) -> Seq<char> {
    if def_name(old) != def_name(new) {
        "Type names don't match: '"@ + def_name(old) + "' vs '"@ + def_name(new) + "'"@
    } else {
        "Cannot compare different type kinds for '"@ + def_name(old) + "'"@
    }
}

impl SchemaDiff {
    /// An empty, safe diff.
    pub fn new(type_ident: String, from_version: Option<String>, to_version: Option<String>) -> (r:
        Self)
        ensures
            r.type_ident == type_ident,
            r.from_version == from_version,
            r.to_version == to_version,
            r.changes@.len() == 0,
            r.is_safe,
    {
        SchemaDiff { type_ident, from_version, to_version, changes: Vec::new(), is_safe: true }
    }

    /// Computes the difference between two definitions of the same type.
    ///
    /// Fails when the names differ or when the two are not both structs or
    /// both enums.
    pub fn compute(old: &TypeDefinition, new: &TypeDefinition) -> (r: Result<Self, String>)
        ensures
            match r {
                Ok(d) => {
                    &&& diff_changes(*old, *new) == Some(d.changes@)
                    &&& d.type_ident@ == def_name(*old)
                    &&& d.from_version == def_version(*old)
                    &&& d.to_version == def_version(*new)
                    &&& d.is_safe == all_safe(d.changes@)
                },
                Err(e) => diff_changes(*old, *new) is None && e@ == compute_error(*old, *new),
            },
    {
        if !str_eq(old.name(), new.name()) {
            let mut e = to_string("Type names don't match: '");
            e.append(old.name());
            e.append("' vs '");
            e.append(new.name());
            e.append("'");
            return Err(e);
        }
        match (old, new) {
            (TypeDefinition::Struct(o), TypeDefinition::Struct(n)) => Ok(
                Self::compute_struct_diff(o, n),
            ),
            (TypeDefinition::Enum(o), TypeDefinition::Enum(n)) => Ok(
                Self::compute_enum_diff(o, n),
            ),
            _ => {
                let mut e = to_string("Cannot compare different type kinds for '");
                e.append(old.name());
                e.append("'");
                Err(e)
            },
        }
    }

    fn compute_struct_diff(old: &StructDefinition, new: &StructDefinition) -> (r: Self)
        ensures
            r.changes@ == struct_changes(*old, *new),
            r.type_ident == old.name,
            r.from_version == old.metadata.version,
            r.to_version == new.metadata.version,
            r.is_safe == all_safe(r.changes@),
    {
        let mut diff = Self::new(
            old.name.clone(),
            copy_opt_string(&old.metadata.version),
            copy_opt_string(&new.metadata.version),
        );
        let ghost o = old.fields@;
        let ghost n = new.fields@;
        // Removed fields
        let mut i: usize = 0;
        while i < old.fields.len()
            invariant
                o == old.fields@,
                n == new.fields@,
                i <= o.len(),
                diff.changes@ == removed_fields(o, n, i as nat),
                diff.is_safe == all_safe(diff.changes@),
                diff.type_ident == old.name,
                diff.from_version == old.metadata.version,
                diff.to_version == new.metadata.version,
            decreases o.len() - i,
        {
            if is_first_field(&old.fields, i) {
                match find_last_field(&new.fields, &old.fields[i].name) {
                    None => {
                        let k = find_last_field(&old.fields, &old.fields[i].name);
                        proof {
                            lemma_last_field(o, o[i as int].name@);
                        }
                        let k = k.unwrap();
                        let ghost before = diff.changes@;
                        diff.changes.push(
                            SchemaChange::FieldRemoved {
                                name: old.fields[i].name.clone(),
                                type_info: copy_type_info(&old.fields[k].type_info),
                            },
                        );
                        proof {
                            lemma_all_safe_push(before, diff.changes@.last());
                        }
                        diff.is_safe = false;
                    },
                    Some(_) => {},
                }
            }
            i = i + 1;
        }
        // Added fields
        let ghost base1 = diff.changes@;
        let mut j: usize = 0;
        while j < new.fields.len()
            invariant
                o == old.fields@,
                n == new.fields@,
                j <= n.len(),
                base1 == removed_fields(o, n, o.len()),
                diff.changes@ == base1 + added_fields(o, n, j as nat),
                diff.is_safe == all_safe(diff.changes@),
                diff.type_ident == old.name,
                diff.from_version == old.metadata.version,
                diff.to_version == new.metadata.version,
            decreases n.len() - j,
        {
            if is_first_field(&new.fields, j) {
                match find_last_field(&old.fields, &new.fields[j].name) {
                    None => {
                        let k = find_last_field(&new.fields, &new.fields[j].name);
                        proof {
                            lemma_last_field(n, n[j as int].name@);
                        }
                        let k = k.unwrap();
                        let optional = new.fields[k].optional;
                        let ghost before = diff.changes@;
                        diff.changes.push(
                            SchemaChange::FieldAdded {
                                name: new.fields[j].name.clone(),
                                type_info: copy_type_info(&new.fields[k].type_info),
                                optional,
                            },
                        );
                        proof {
                            lemma_all_safe_push(before, diff.changes@.last());
                        }
                        if !optional {
                            diff.is_safe = false;
                        }
                    },
                    Some(_) => {},
                }
            }
            j = j + 1;
            assert(diff.changes@ =~= base1 + added_fields(o, n, j as nat));
        }
        // Type changes
        let ghost base2 = diff.changes@;
        let mut i: usize = 0;
        while i < old.fields.len()
            invariant
                o == old.fields@,
                n == new.fields@,
                i <= o.len(),
                base2 == removed_fields(o, n, o.len()) + added_fields(o, n, n.len()),
                diff.changes@ == base2 + changed_fields(o, n, i as nat),
                diff.is_safe == all_safe(diff.changes@),
                diff.type_ident == old.name,
                diff.from_version == old.metadata.version,
                diff.to_version == new.metadata.version,
            decreases o.len() - i,
        {
            if is_first_field(&old.fields, i) {
                match find_last_field(&new.fields, &old.fields[i].name) {
                    Some(kn) => {
                        let ko = find_last_field(&old.fields, &old.fields[i].name);
                        proof {
                            lemma_last_field(o, o[i as int].name@);
                        }
                        let ko = ko.unwrap();
                        if !type_info_equal(&old.fields[ko].type_info, &new.fields[kn].type_info) {
                            let ghost before = diff.changes@;
                            diff.changes.push(
                                SchemaChange::FieldTypeChanged {
                                    name: old.fields[i].name.clone(),
                                    old_type: copy_type_info(&old.fields[ko].type_info),
                                    new_type: copy_type_info(&new.fields[kn].type_info),
                                },
                            );
                            proof {
                                lemma_all_safe_push(before, diff.changes@.last());
                            }
                            diff.is_safe = false;
                        }
                    },
                    None => {},
                }
            }
            i = i + 1;
            assert(diff.changes@ =~= base2 + changed_fields(o, n, i as nat));
        }
        // Reordered fields
        let ghost base3 = diff.changes@;
        let mut i: usize = 0;
        while i < old.fields.len()
            invariant
                o == old.fields@,
                n == new.fields@,
                i <= o.len(),
                base3 == removed_fields(o, n, o.len()) + added_fields(o, n, n.len())
                    + changed_fields(o, n, o.len()),
                diff.changes@ == base3 + moved_fields(o, n, i as nat),
                diff.is_safe == all_safe(diff.changes@),
                diff.type_ident == old.name,
                diff.from_version == old.metadata.version,
                diff.to_version == new.metadata.version,
            decreases o.len() - i,
        {
            if is_first_field(&old.fields, i) {
                match find_last_field(&new.fields, &old.fields[i].name) {
                    Some(kn) => {
                        let ko = find_last_field(&old.fields, &old.fields[i].name);
                        proof {
                            lemma_last_field(o, o[i as int].name@);
                        }
                        let ko = ko.unwrap();
                        if ko != kn {
                            let ghost before = diff.changes@;
                            diff.changes.push(
                                SchemaChange::FieldReordered {
                                    name: old.fields[i].name.clone(),
                                    old_position: ko,
                                    new_position: kn,
                                },
                            );
                            proof {
                                lemma_all_safe_push(before, diff.changes@.last());
                            }
                        }
                    },
                    None => {},
                }
            }
            i = i + 1;
            assert(diff.changes@ =~= base3 + moved_fields(o, n, i as nat));
        }
        diff
    }

    fn compute_enum_diff(old: &EnumDefinition, new: &EnumDefinition) -> (r: Self)
        ensures
            r.changes@ == enum_changes(*old, *new),
            r.type_ident == old.name,
            r.from_version == old.metadata.version,
            r.to_version == new.metadata.version,
            r.is_safe == all_safe(r.changes@),
    {
        let mut diff = Self::new(
            old.name.clone(),
            copy_opt_string(&old.metadata.version),
            copy_opt_string(&new.metadata.version),
        );
        let ghost o = old.variants@;
        let ghost n = new.variants@;
        let mut i: usize = 0;
        while i < old.variants.len()
            invariant
                o == old.variants@,
                n == new.variants@,
                i <= o.len(),
                diff.changes@ == removed_variants(o, n, i as nat),
                diff.is_safe == all_safe(diff.changes@),
                diff.type_ident == old.name,
                diff.from_version == old.metadata.version,
                diff.to_version == new.metadata.version,
            decreases o.len() - i,
        {
            if is_first_variant(&old.variants, i) && !contains_variant(
                &new.variants,
                old.variants[i].name(),
            ) {
                let ghost before = diff.changes@;
                diff.changes.push(
                    SchemaChange::VariantRemoved { name: variant_name_clone(&old.variants[i]) },
                );
                proof {
                    lemma_all_safe_push(before, diff.changes@.last());
                }
                diff.is_safe = false;
            }
            i = i + 1;
        }
        let ghost base = diff.changes@;
        let mut j: usize = 0;
        while j < new.variants.len()
            invariant
                o == old.variants@,
                n == new.variants@,
                j <= n.len(),
                base == removed_variants(o, n, o.len()),
                diff.changes@ == base + added_variants(o, n, j as nat),
                diff.is_safe == all_safe(diff.changes@),
                diff.type_ident == old.name,
                diff.from_version == old.metadata.version,
                diff.to_version == new.metadata.version,
            decreases n.len() - j,
        {
            if is_first_variant(&new.variants, j) && !contains_variant(
                &old.variants,
                new.variants[j].name(),
            ) {
                let ghost before = diff.changes@;
                diff.changes.push(
                    SchemaChange::VariantAdded { name: variant_name_clone(&new.variants[j]) },
                );
                proof {
                    lemma_all_safe_push(before, diff.changes@.last());
                }
            }
            j = j + 1;
            assert(diff.changes@ =~= base + added_variants(o, n, j as nat));
        }
        diff
    }

    /// The safety classification of this diff.
    pub fn safety(&self) -> (r: MigrationSafety)
        ensures
            r == (if self.is_safe {
                MigrationSafety::Safe
            } else {
                MigrationSafety::Unsafe
            }),
    {
        if self.is_safe {
            MigrationSafety::Safe
        } else {
            MigrationSafety::Unsafe
        }
    }
}

// ---------------------------------------------------------------------
// Human-readable description
// ---------------------------------------------------------------------

/// How a type is shown in a change description.
pub open spec fn type_display(t: TypeInfo) -> Seq<char>
    decreases t,
{
    match t {
        TypeInfo::Primitive(n) => n@,
        TypeInfo::Generic(n) => n@,
        TypeInfo::UserDefined(n) => n@,
        TypeInfo::Array(inner) => "["@ + type_display(*inner) + "]"@,
        TypeInfo::FixedArray { element, size } => "["@ + type_display(*element) + "; "@ + dec(
            size as nat,
        ) + "]"@,
        TypeInfo::Option(inner) => "Option<"@ + type_display(*inner) + ">"@,
    }
}

/// Renders a type for a change description.
pub fn type_info_display(t: &TypeInfo) -> (r: String)
    ensures
        r@ == type_display(*t),
    decreases t,
{
    match t {
        TypeInfo::Primitive(n) => n.clone(),
        TypeInfo::Generic(n) => n.clone(),
        TypeInfo::UserDefined(n) => n.clone(),
        TypeInfo::Array(inner) => {
            let mut r = to_string("[");
            let s = type_info_display(inner);
            r.append(s.as_str());
            r.append("]");
            r
        },
        TypeInfo::FixedArray { element, size } => {
            let mut r = to_string("[");
            let s = type_info_display(element);
            r.append(s.as_str());
            r.append("; ");
            let n = usize_to_string(*size);
            r.append(n.as_str());
            r.append("]");
            r
        },
        TypeInfo::Option(inner) => {
            let mut r = to_string("Option<");
            let s = type_info_display(inner);
            r.append(s.as_str());
            r.append(">");
            r
        },
    }
}

/// The one-line description of a change.
pub open spec fn change_text(c: SchemaChange) -> Seq<char> {
    match c {
        SchemaChange::FieldAdded { name, type_info, optional } => "✓ Added field: "@ + name@
            + " ("@ + type_display(type_info) + ")"@ + if optional {
            " (optional)"@
        } else {
            Seq::empty()
        },
        SchemaChange::FieldRemoved { name, type_info } => "⚠ Removed field: "@ + name@ + " ("@
            + type_display(type_info) + ")"@,
        SchemaChange::FieldTypeChanged { name, old_type, new_type } => "⚠ Changed field type: "@
            + name@ + " ("@ + type_display(old_type) + " -> "@ + type_display(new_type) + ")"@,
        SchemaChange::FieldReordered { name, old_position, new_position } =>
            "↕ Reordered field: "@ + name@ + " (position "@ + dec(old_position as nat) + " -> "@
            + dec(new_position as nat) + ")"@,
        SchemaChange::VariantAdded { name } => "✓ Added enum variant: "@ + name@,
        SchemaChange::VariantRemoved { name } => "⚠ Removed enum variant: "@ + name@,
    }
}

/// Describes one change in a line.
pub fn describe_change(c: &SchemaChange) -> (r: String)
    ensures
        r@ == change_text(*c),
{
    match c {
        SchemaChange::FieldAdded { name, type_info, optional } => {
            let mut r = to_string("✓ Added field: ");
            r.append(name.as_str());
            r.append(" (");
            let t = type_info_display(type_info);
            r.append(t.as_str());
            r.append(")");
            if *optional {
                r.append(" (optional)");
            }
            r
        },
        SchemaChange::FieldRemoved { name, type_info } => {
            let mut r = to_string("⚠ Removed field: ");
            r.append(name.as_str());
            r.append(" (");
            let t = type_info_display(type_info);
            r.append(t.as_str());
            r.append(")");
            r
        },
        SchemaChange::FieldTypeChanged { name, old_type, new_type } => {
            let mut r = to_string("⚠ Changed field type: ");
            r.append(name.as_str());
            r.append(" (");
            let a = type_info_display(old_type);
            r.append(a.as_str());
            r.append(" -> ");
            let b = type_info_display(new_type);
            r.append(b.as_str());
            r.append(")");
            r
        },
        SchemaChange::FieldReordered { name, old_position, new_position } => {
            let mut r = to_string("↕ Reordered field: ");
            r.append(name.as_str());
            r.append(" (position ");
            let a = usize_to_string(*old_position);
            r.append(a.as_str());
            r.append(" -> ");
            let b = usize_to_string(*new_position);
            r.append(b.as_str());
            r.append(")");
            r
        },
        SchemaChange::VariantAdded { name } => {
            let mut r = to_string("✓ Added enum variant: ");
            r.append(name.as_str());
            r
        },
        SchemaChange::VariantRemoved { name } => {
            let mut r = to_string("⚠ Removed enum variant: ");
            r.append(name.as_str());
            r
        },
    }
}

/// A change as an indented line of the description.
pub open spec fn change_line() -> spec_fn(SchemaChange) -> Seq<char> {
    |c: SchemaChange| "\n  "@ + change_text(c)
}

/// The text of `SchemaDiff::describe`: a header, the versions, the list of
/// changes and the safety verdict, one per line.
pub open spec fn describe_text(d: SchemaDiff) -> Seq<char> {
    "Comparing schemas for '"@ + d.type_ident@ + "':"@ + match d.from_version {
        Some(v) => "\n  From: v"@ + v@,
        None => Seq::empty(),
    } + match d.to_version {
        Some(v) => "\n  To: v"@ + v@,
        None => Seq::empty(),
    } + "\n\n"@ + if d.changes@.len() == 0 {
        "No changes detected."@
    } else {
        "Changes detected ("@ + dec(d.changes@.len()) + "):"@ + concat_map(
            d.changes@,
            change_line(),
        )
    } + "\n\nMigration is "@ + if d.is_safe {
        "SAFE ✓"@
    } else {
        "UNSAFE ⚠"@
    }
}

impl SchemaDiff {
    /// A human-readable description of the changes.
    pub fn describe(&self) -> (r: String)
        ensures
            r@ == describe_text(*self),
    {
        let mut r = to_string("Comparing schemas for '");
        r.append(self.type_ident.as_str());
        r.append("':");
        match &self.from_version {
            Some(v) => {
                r.append("\n  From: v");
                r.append(v.as_str());
            },
            None => {},
        }
        match &self.to_version {
            Some(v) => {
                r.append("\n  To: v");
                r.append(v.as_str());
            },
            None => {},
        }
        r.append("\n\n");
        if self.changes.len() == 0 {
            r.append("No changes detected.");
        } else {
            r.append("Changes detected (");
            let n = usize_to_string(self.changes.len());
            r.append(n.as_str());
            r.append("):");
            let ghost base = r@;
            let mut i: usize = 0;
            while i < self.changes.len()
                invariant
                    i <= self.changes@.len(),
                    r@ == base + concat_map(self.changes@.subrange(0, i as int), change_line()),
                decreases self.changes@.len() - i,
            {
                r.append("\n  ");
                let t = describe_change(&self.changes[i]);
                r.append(t.as_str());
                proof {
                    lemma_concat_map_step(self.changes@, i as int, change_line());
                }
                i = i + 1;
            }
            assert(self.changes@.subrange(0, self.changes@.len() as int) =~= self.changes@);
        }
        r.append("\n\nMigration is ");
        if self.is_safe {
            r.append("SAFE ✓");
        } else {
            r.append("UNSAFE ⚠");
        }
        r
    }
}

/// A copy of a change.
pub fn copy_change(c: &SchemaChange) -> (r: SchemaChange)
    ensures
        r == *c,
{
    match c {
        SchemaChange::FieldAdded { name, type_info, optional } => SchemaChange::FieldAdded {
            name: name.clone(),
            type_info: copy_type_info(type_info),
            optional: *optional,
        },
        SchemaChange::FieldRemoved { name, type_info } => SchemaChange::FieldRemoved {
            name: name.clone(),
            type_info: copy_type_info(type_info),
        },
        SchemaChange::FieldTypeChanged { name, old_type, new_type } =>
            SchemaChange::FieldTypeChanged {
            name: name.clone(),
            old_type: copy_type_info(old_type),
            new_type: copy_type_info(new_type),
        },
        SchemaChange::FieldReordered { name, old_position, new_position } =>
            SchemaChange::FieldReordered {
            name: name.clone(),
            old_position: *old_position,
            new_position: *new_position,
        },
        SchemaChange::VariantAdded { name } => SchemaChange::VariantAdded { name: name.clone() },
        SchemaChange::VariantRemoved { name } => SchemaChange::VariantRemoved {
            name: name.clone(),
        },
    }
}

// ---------------------------------------------------------------------
// Laws
// ---------------------------------------------------------------------

/// A type built from primitives, user-defined types, arrays and options
/// only (no fixed-size arrays, no generic parameters).
pub open spec fn plain_type(t: TypeInfo) -> bool
    decreases t,
{
    match t {
        TypeInfo::Primitive(_) => true,
        TypeInfo::UserDefined(_) => true,
        TypeInfo::Array(inner) => plain_type(*inner),
        TypeInfo::Option(inner) => plain_type(*inner),
        _ => false,
    }
}

/// A plain type is equal to itself for the diff.
pub proof fn lemma_type_info_eq_refl(t: TypeInfo)
    requires
        plain_type(t),
    ensures
        type_info_eq(t, t),
    decreases t,
{
    match t {
        TypeInfo::Array(inner) => lemma_type_info_eq_refl(*inner),
        TypeInfo::Option(inner) => lemma_type_info_eq_refl(*inner),
        _ => {},
    }
}

proof fn lemma_self_field_groups(o: Seq<FieldDefinition>, k: nat)
    requires
        k <= o.len(),
        forall|i: int| 0 <= i < o.len() ==> plain_type(#[trigger] o[i].type_info),
    ensures
        removed_fields(o, o, k).len() == 0,
        added_fields(o, o, k).len() == 0,
        changed_fields(o, o, k).len() == 0,
        moved_fields(o, o, k).len() == 0,
    decreases k,
{
    if k > 0 {
        lemma_self_field_groups(o, (k - 1) as nat);
        let i = k - 1;
        let n = o[i].name@;
        lemma_last_field(o, n);
        assert(last_field(o, n) >= 0);
        lemma_type_info_eq_refl(o[last_field(o, n)].type_info);
    }
}

/// Comparing a struct with itself finds no change, as long as no field's
/// type holds a fixed-size array or a generic parameter (the diff never
/// considers those equal).
pub proof fn law_struct_self_diff_is_empty(s: StructDefinition)
    requires
        forall|i: int| 0 <= i < s.fields@.len() ==> plain_type(#[trigger] s.fields@[i].type_info),
    ensures
        struct_changes(s, s).len() == 0,
        all_safe(struct_changes(s, s)),
{
    lemma_self_field_groups(s.fields@, s.fields@.len());
}

proof fn lemma_self_variant_groups(o: Seq<EnumVariantDefinition>, k: nat)
    requires
        k <= o.len(),
    ensures
        removed_variants(o, o, k).len() == 0,
        added_variants(o, o, k).len() == 0,
    decreases k,
{
    if k > 0 {
        lemma_self_variant_groups(o, (k - 1) as nat);
        let i = k - 1;
        assert(variant_name(o[i]) == variant_name(o[i]));
        assert(has_variant(o, variant_name(o[i])));
    }
}

/// Comparing an enum with itself finds no change.
pub proof fn law_enum_self_diff_is_empty(e: EnumDefinition)
    ensures
        enum_changes(e, e).len() == 0,
        all_safe(enum_changes(e, e)),
{
    lemma_self_variant_groups(e.variants@, e.variants@.len());
}

/// Every change that `SchemaDiff::compute` reports for two structs names a
/// field of the old struct or of the new one: removed and changed fields
/// come from the old struct, added fields from the new one.
pub proof fn law_struct_changes_name_fields(old: StructDefinition, new: StructDefinition, k: nat)
    requires
        k <= old.fields@.len(),
    ensures
        forall|c: int|
            0 <= c < removed_fields(old.fields@, new.fields@, k).len() ==> {
                let ch = #[trigger] removed_fields(old.fields@, new.fields@, k)[c];
                &&& ch is FieldRemoved
                &&& last_field(old.fields@, ch->FieldRemoved_name@) >= 0
                &&& last_field(new.fields@, ch->FieldRemoved_name@) < 0
            },
    decreases k,
{
    if k > 0 {
        law_struct_changes_name_fields(old, new, (k - 1) as nat);
        let o = old.fields@;
        lemma_last_field(o, o[k - 1].name@);
    }
}


/// Comparing the other way round turns removals into additions: the fields
/// the new struct lacks are, in the same order and with the same types,
/// the fields that comparing the new struct with the old one reports added.
pub proof fn law_swapped_fields_removed_are_added(old: Seq<FieldDefinition>, new: Seq<FieldDefinition>, k: nat)
    requires
        k <= old.len(),
    ensures
        removed_fields(old, new, k).len() == added_fields(new, old, k).len(),
        forall|p: int|
            0 <= p < removed_fields(old, new, k).len() ==> {
                let rc = #[trigger] removed_fields(old, new, k)[p];
                let ac = added_fields(new, old, k)[p];
                &&& rc matches SchemaChange::FieldRemoved { name: rn, type_info: rt }
                &&& ac matches SchemaChange::FieldAdded { name: an, type_info: at, .. }
                &&& rn == an
                &&& rt == at
            },
    decreases k,
{
    if k > 0 {
        law_swapped_fields_removed_are_added(old, new, (k - 1) as nat);
        let r0 = removed_fields(old, new, (k - 1) as nat);
        let a0 = added_fields(new, old, (k - 1) as nat);
        assert forall|p: int| 0 <= p < r0.len() implies removed_fields(old, new, k)[p] == r0[p]
            && added_fields(new, old, k)[p] == a0[p] by {}
    }
}

/// Comparing the other way round turns removed variants into added ones,
/// in the same order and with the same names.
pub proof fn law_swapped_variants_removed_are_added(
    old: Seq<EnumVariantDefinition>,
    new: Seq<EnumVariantDefinition>,
    k: nat,
)
    requires
        k <= old.len(),
    ensures
        removed_variants(old, new, k).len() == added_variants(new, old, k).len(),
        forall|p: int|
            0 <= p < removed_variants(old, new, k).len() ==> {
                let rc = #[trigger] removed_variants(old, new, k)[p];
                let ac = added_variants(new, old, k)[p];
                &&& rc matches SchemaChange::VariantRemoved { name: rn }
                &&& ac matches SchemaChange::VariantAdded { name: an }
                &&& rn == an
            },
    decreases k,
{
    if k > 0 {
        law_swapped_variants_removed_are_added(old, new, (k - 1) as nat);
        let r0 = removed_variants(old, new, (k - 1) as nat);
        let a0 = added_variants(new, old, (k - 1) as nat);
        assert forall|p: int| 0 <= p < r0.len() implies removed_variants(old, new, k)[p] == r0[p]
            && added_variants(new, old, k)[p] == a0[p] by {}
    }
}

} // verus!

pub use crate::migrate_code::{generate_rust_migration, generate_typescript_migration};
