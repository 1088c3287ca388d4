//! Comparison of two schemas: which definitions were added, removed or
//! changed, and how each changed one differs, field by field and variant by
//! variant. Definitions, fields and variants are matched by name; where a
//! name occurs twice, the last one is the one compared.

use vstd::prelude::*;
use crate::cli_helpers::{format_type, type_text};
use crate::ir::{
    def_name, variant_name, EnumDefinition, EnumVariantDefinition, FieldDefinition,
    StructDefinition, TypeDefinition, TypeInfo,
};
use crate::text::{to_string, views};

verus! {

/// The last position of `n` in `ns`, or -1.
pub open spec fn last_pos(ns: Seq<Seq<char>>, n: Seq<char>) -> int
    decreases ns.len(),
{
    if ns.len() == 0 {
        -1
    } else if ns.last() == n {
        ns.len() - 1
    } else {
        last_pos(ns.drop_last(), n)
    }
}

/// Whether `n` occurs in `ns`.
pub open spec fn named_in(ns: Seq<Seq<char>>, n: Seq<char>) -> bool {
    last_pos(ns, n) >= 0
}

/// Whether position `i` of `ns` is the first occurrence of its name.
pub open spec fn first_at(ns: Seq<Seq<char>>, i: int) -> bool {
    !named_in(ns.take(i), ns[i])
}

pub(crate) proof fn lemma_last_pos(ns: Seq<Seq<char>>, n: Seq<char>)
    ensures
        -1 <= last_pos(ns, n) < ns.len(),
        last_pos(ns, n) >= 0 ==> ns[last_pos(ns, n)] == n,
    decreases ns.len(),
{
    if ns.len() > 0 && ns.last() != n {
        lemma_last_pos(ns.drop_last(), n);
    }
}

/// The names of fields.
pub open spec fn field_names(fs: Seq<FieldDefinition>) -> Seq<Seq<char>> {
    fs.map_values(|f: FieldDefinition| f.name@)
}

/// The names of variants.
pub open spec fn variant_names(vs: Seq<EnumVariantDefinition>) -> Seq<Seq<char>> {
    vs.map_values(|v: EnumVariantDefinition| variant_name(v))
}

/// The names of definitions.
pub open spec fn def_names(ds: Seq<TypeDefinition>) -> Seq<Seq<char>> {
    ds.map_values(|d: TypeDefinition| def_name(d))
}

/// The text of a boolean.
pub open spec fn bool_text(b: bool) -> Seq<char> {
    if b {
        "true"@
    } else {
        "false"@
    }
}

/// The type text of the field of `fs` that a lookup of `n` finds.
pub open spec fn field_type_text(fs: Seq<FieldDefinition>, n: Seq<char>) -> Seq<char> {
    type_text(fs[last_pos(field_names(fs), n)].type_info)
}

/// One line for each field name of `f2` (from position `i` on, first
/// occurrences only) that `f1` lacks.
pub open spec fn added_field_lines(f1: Seq<FieldDefinition>, f2: Seq<FieldDefinition>, i: int) -> Seq<
    Seq<char>,
>
    decreases f2.len() - i,
{
    if 0 <= i < f2.len() {
        let n = f2[i].name@;
        let here = if first_at(field_names(f2), i) && !named_in(field_names(f1), n) {
            seq!["+ Added field: "@ + n + " ("@ + field_type_text(f2, n) + ")"@]
        } else {
            Seq::empty()
        };
        here + added_field_lines(f1, f2, i + 1)
    } else {
        Seq::empty()
    }
}

/// One line for each field name of `f1` (from position `i` on, first
/// occurrences only) that `f2` lacks.
pub open spec fn removed_field_lines(f1: Seq<FieldDefinition>, f2: Seq<FieldDefinition>, i: int) -> Seq<
    Seq<char>,
>
    decreases f1.len() - i,
{
    if 0 <= i < f1.len() {
        let n = f1[i].name@;
        let here = if first_at(field_names(f1), i) && !named_in(field_names(f2), n) {
            seq!["- Removed field: "@ + n + " ("@ + field_type_text(f1, n) + ")"@]
        } else {
            Seq::empty()
        };
        here + removed_field_lines(f1, f2, i + 1)
    } else {
        Seq::empty()
    }
}

/// One line for each field name of `f1` (from position `i` on, first
/// occurrences only) that `f2` has with a type of another text.
pub open spec fn modified_field_lines(f1: Seq<FieldDefinition>, f2: Seq<FieldDefinition>, i: int) -> Seq<
    Seq<char>,
>
    decreases f1.len() - i,
{
    if 0 <= i < f1.len() {
        let n = f1[i].name@;
        let here = if first_at(field_names(f1), i) && named_in(field_names(f2), n)
            && field_type_text(f1, n) != field_type_text(f2, n) {
            seq![
                "~ Modified field: "@ + n + " ("@ + field_type_text(f1, n) + " → "@
                    + field_type_text(f2, n) + ")"@,
            ]
        } else {
            Seq::empty()
        };
        here + modified_field_lines(f1, f2, i + 1)
    } else {
        Seq::empty()
    }
}

/// The line for a change of the `solana` mark, if it changed.
pub open spec fn solana_lines(a: bool, b: bool) -> Seq<Seq<char>> {
    if a != b {
        seq!["~ Solana attribute changed: "@ + bool_text(a) + " → "@ + bool_text(b)]
    } else {
        Seq::empty()
    }
}

/// The changes from struct `s1` to struct `s2`: fields added, removed and
/// retyped, then a change of the `solana` mark and of the attributes.
pub open spec fn struct_changes(s1: StructDefinition, s2: StructDefinition) -> Seq<Seq<char>> {
    added_field_lines(s1.fields@, s2.fields@, 0) + removed_field_lines(s1.fields@, s2.fields@, 0)
        + modified_field_lines(s1.fields@, s2.fields@, 0) + solana_lines(
        s1.metadata.solana,
        s2.metadata.solana,
    ) + if views(s1.metadata.attributes@) != views(s2.metadata.attributes@) {
        seq!["~ Attributes changed"@]
    } else {
        Seq::empty()
    }
}

/// Whether two variants have the same shape: both units, tuples of types
/// with the same texts, or records of fields with the same names and type
/// texts.
pub open spec fn variants_same(v1: EnumVariantDefinition, v2: EnumVariantDefinition) -> bool {
    match (v1, v2) {
        (EnumVariantDefinition::Unit { .. }, EnumVariantDefinition::Unit { .. }) => true,
        (
            EnumVariantDefinition::Tuple { types: t1, .. },
            EnumVariantDefinition::Tuple { types: t2, .. },
        ) => t1@.len() == t2@.len() && forall|k: int|
            0 <= k < t1@.len() ==> #[trigger] type_text(t1@[k]) == type_text(t2@[k]),
        (
            EnumVariantDefinition::Struct { fields: f1, .. },
            EnumVariantDefinition::Struct { fields: f2, .. },
        ) => f1@.len() == f2@.len() && forall|k: int|
            0 <= k < f1@.len() ==> (#[trigger] f1@[k]).name@ == f2@[k].name@ && type_text(
                f1@[k].type_info,
            ) == type_text(f2@[k].type_info),
        _ => false,
    }
}

/// The variant of `vs` that a lookup of `n` finds.
pub open spec fn named_variant(vs: Seq<EnumVariantDefinition>, n: Seq<char>) -> EnumVariantDefinition {
    vs[last_pos(variant_names(vs), n)]
}

/// Lines for the variant names of `v2` (from `i` on, first occurrences)
/// that `v1` lacks.
pub open spec fn added_variant_lines(
    v1: Seq<EnumVariantDefinition>,
    v2: Seq<EnumVariantDefinition>,
    i: int,
) -> Seq<Seq<char>>
    decreases v2.len() - i,
{
    if 0 <= i < v2.len() {
        let n = variant_name(v2[i]);
        let here = if first_at(variant_names(v2), i) && !named_in(variant_names(v1), n) {
            seq!["+ Added variant: "@ + n]
        } else {
            Seq::empty()
        };
        here + added_variant_lines(v1, v2, i + 1)
    } else {
        Seq::empty()
    }
}

/// Lines for the variant names of `v1` (from `i` on, first occurrences)
/// that `v2` lacks.
pub open spec fn removed_variant_lines(
    v1: Seq<EnumVariantDefinition>,
    v2: Seq<EnumVariantDefinition>,
    i: int,
) -> Seq<Seq<char>>
    decreases v1.len() - i,
{
    if 0 <= i < v1.len() {
        let n = variant_name(v1[i]);
        let here = if first_at(variant_names(v1), i) && !named_in(variant_names(v2), n) {
            seq!["- Removed variant: "@ + n]
        } else {
            Seq::empty()
        };
        here + removed_variant_lines(v1, v2, i + 1)
    } else {
        Seq::empty()
    }
}

/// Lines for the variant names of `v1` (from `i` on, first occurrences)
/// that `v2` has with another shape.
pub open spec fn modified_variant_lines(
    v1: Seq<EnumVariantDefinition>,
    v2: Seq<EnumVariantDefinition>,
    i: int,
) -> Seq<Seq<char>>
    decreases v1.len() - i,
{
    if 0 <= i < v1.len() {
        let n = variant_name(v1[i]);
        let here = if first_at(variant_names(v1), i) && named_in(variant_names(v2), n)
            && !variants_same(named_variant(v1, n), named_variant(v2, n)) {
            seq!["~ Modified variant: "@ + n]
        } else {
            Seq::empty()
        };
        here + modified_variant_lines(v1, v2, i + 1)
    } else {
        Seq::empty()
    }
}

/// The changes from enum `e1` to enum `e2`: variants added, removed and
/// reshaped, then a change of the `solana` mark.
pub open spec fn enum_changes(e1: EnumDefinition, e2: EnumDefinition) -> Seq<Seq<char>> {
    added_variant_lines(e1.variants@, e2.variants@, 0) + removed_variant_lines(
        e1.variants@,
        e2.variants@,
        0,
    ) + modified_variant_lines(e1.variants@, e2.variants@, 0) + solana_lines(
        e1.metadata.solana,
        e2.metadata.solana,
    )
}

/// The word for a kind of definition.
pub open spec fn kind_word(d: TypeDefinition) -> Seq<char> {
    match d {
        TypeDefinition::Struct(_) => "struct"@,
        TypeDefinition::Enum(_) => "enum"@,
        TypeDefinition::TypeAlias(_) => "type alias"@,
    }
}

/// The changes from definition `d1` to definition `d2`.
pub open spec fn type_changes(d1: TypeDefinition, d2: TypeDefinition) -> Seq<Seq<char>> {
    match (d1, d2) {
        (TypeDefinition::Struct(s1), TypeDefinition::Struct(s2)) => struct_changes(s1, s2),
        (TypeDefinition::Enum(e1), TypeDefinition::Enum(e2)) => enum_changes(e1, e2),
        (TypeDefinition::TypeAlias(_), TypeDefinition::TypeAlias(_)) => seq![
            "Type alias target may have changed"@,
        ],
        _ => seq!["Type changed from "@ + kind_word(d1) + " to "@ + kind_word(d2)],
    }
}


pub(crate) fn last_pos_exec(ns: &Vec<String>, n: &String, upto: usize) -> (r: Option<usize>)
    requires
        upto <= ns@.len(),
    ensures
        match r {
            Some(k) => k < upto && k as int == last_pos(views(ns@).take(upto as int), n@) && ns@[k as int]@
                == n@,
            None => last_pos(views(ns@).take(upto as int), n@) < 0,
        },
{
    let mut found: Option<usize> = None;
    let mut k: usize = 0;
    while k < upto
        invariant
            k <= upto <= ns@.len(),
            match found {
                Some(j) => j < k && j as int == last_pos(views(ns@).take(k as int), n@) && ns@[j as int]@
                    == n@,
                None => last_pos(views(ns@).take(k as int), n@) < 0,
            },
        decreases upto - k,
    {
        proof {
            assert(views(ns@).take(k + 1).drop_last() =~= views(ns@).take(k as int));
        }
        if crate::text::str_eq(ns[k].as_str(), n.as_str()) {
            found = Some(k);
        }
        k = k + 1;
    }
    found
}

pub(crate) proof fn lemma_last_pos_ge(ns: Seq<Seq<char>>, n: Seq<char>, i: int)
    requires
        0 <= i < ns.len(),
        ns[i] == n,
    ensures
        last_pos(ns, n) >= i,
    decreases ns.len(),
{
    if ns.last() != n {
        lemma_last_pos_ge(ns.drop_last(), n, i);
    }
}

pub(crate) fn lookup_pos(ns: &Vec<String>, n: &String) -> (r: Option<usize>)
    ensures
        match r {
            Some(k) => k < ns@.len() && k as int == last_pos(views(ns@), n@) && ns@[k as int]@ == n@,
            None => last_pos(views(ns@), n@) < 0,
        },
{
    proof {
        assert(views(ns@).take(ns@.len() as int) =~= views(ns@));
    }
    last_pos_exec(ns, n, ns.len())
}

fn field_name_list(fs: &Vec<FieldDefinition>) -> (r: Vec<String>)
    ensures
        views(r@) == field_names(fs@),
{
    let mut r: Vec<String> = Vec::new();
    let mut k: usize = 0;
    while k < fs.len()
        invariant
            k <= fs@.len(),
            views(r@) == field_names(fs@.take(k as int)),
        decreases fs@.len() - k,
    {
        let ghost prev = r@;
        r.push(fs[k].name.clone());
        assert(fs@.take(k + 1) =~= fs@.take(k as int).push(fs@[k as int]));
        assert(views(r@) =~= views(prev).push(fs@[k as int].name@));
        k = k + 1;
        assert(views(r@) =~= field_names(fs@.take(k as int)));
    }
    assert(fs@.take(k as int) =~= fs@);
    r
}

fn variant_name_list(vs: &Vec<EnumVariantDefinition>) -> (r: Vec<String>)
    ensures
        views(r@) == variant_names(vs@),
{
    let mut r: Vec<String> = Vec::new();
    let mut k: usize = 0;
    while k < vs.len()
        invariant
            k <= vs@.len(),
            views(r@) == variant_names(vs@.take(k as int)),
        decreases vs@.len() - k,
    {
        let ghost prev = r@;
        r.push(to_string(vs[k].name()));
        assert(vs@.take(k + 1) =~= vs@.take(k as int).push(vs@[k as int]));
        assert(views(r@) =~= views(prev).push(variant_name(vs@[k as int])));
        k = k + 1;
        assert(views(r@) =~= variant_names(vs@.take(k as int)));
    }
    assert(vs@.take(k as int) =~= vs@);
    r
}

fn bool_string(b: bool) -> (r: String)
    ensures
        r@ == bool_text(b),
{
    if b {
        to_string("true")
    } else {
        to_string("false")
    }
}

fn push_solana_line(a: bool, b: bool, changes: &mut Vec<String>)
    ensures
        views(final(changes)@) == views(old(changes)@) + solana_lines(a, b),
{
    if a != b {
        let mut line = to_string("~ Solana attribute changed: ");
        line.append(bool_string(a).as_str());
        line.append(" → ");
        line.append(bool_string(b).as_str());
        changes.push(line);
        assert(views(changes@) =~= views(old(changes)@) + solana_lines(a, b));
    } else {
        assert(views(changes@) =~= views(old(changes)@) + solana_lines(a, b));
    }
}

fn strings_equal(a: &Vec<String>, b: &Vec<String>) -> (r: bool)
    ensures
        r == (views(a@) == views(b@)),
{
    if a.len() != b.len() {
        assert(views(a@).len() != views(b@).len());
        return false;
    }
    let mut k: usize = 0;
    while k < a.len()
        invariant
            k <= a@.len() == b@.len(),
            forall|j: int| 0 <= j < k ==> (#[trigger] a@[j])@ == b@[j]@,
        decreases a@.len() - k,
    {
        if !crate::text::str_eq(a[k].as_str(), b[k].as_str()) {
            assert(views(a@)[k as int] != views(b@)[k as int]);
            return false;
        }
        k = k + 1;
    }
    assert(views(a@) =~= views(b@));
    true
}

/// Adds to `changes` how struct `s1` became struct `s2`.
pub fn compare_structs(s1: &StructDefinition, s2: &StructDefinition, changes: &mut Vec<String>)
    ensures
        views(final(changes)@) == views(old(changes)@) + struct_changes(*s1, *s2),
{
    let ghost f1 = s1.fields@;
    let ghost f2 = s2.fields@;
    let names1 = field_name_list(&s1.fields);
    let names2 = field_name_list(&s2.fields);
    let ghost base = views(changes@);
    let mut i: usize = 0;
    while i < s2.fields.len()
        invariant
            f1 == s1.fields@,
            f2 == s2.fields@,
            views(names1@) == field_names(f1),
            views(names2@) == field_names(f2),
            i <= f2.len(),
            views(changes@) + added_field_lines(f1, f2, i as int) == base + added_field_lines(
                f1,
                f2,
                0,
            ),
        decreases f2.len() - i,
    {
        let n = &s2.fields[i].name;
        assert(field_names(f2)[i as int] == n@);
        let first = last_pos_exec(&names2, n, i).is_none();
        let elsewhere = lookup_pos(&names1, n).is_some();
        proof {
            lemma_last_pos_ge(field_names(f2), n@, i as int);
        }
        if first && !elsewhere {
            let k = lookup_pos(&names2, n).unwrap();
            let mut line = to_string("+ Added field: ");
            line.append(n.as_str());
            line.append(" (");
            line.append(format_type(&s2.fields[k].type_info).as_str());
            line.append(")");
            let ghost before = views(changes@);
            changes.push(line);
            assert(views(changes@) =~= before.push(line@));
        }
        let ghost here = if first && !elsewhere {
            seq![
                "+ Added field: "@ + n@ + " ("@ + field_type_text(f2, n@) + ")"@,
            ]
        } else {
            Seq::<Seq<char>>::empty()
        };
        assert(added_field_lines(f1, f2, i as int) == here + added_field_lines(f1, f2, i + 1));
        i = i + 1;
    }
    let ghost after_added = views(changes@);
    let mut i: usize = 0;
    while i < s1.fields.len()
        invariant
            f1 == s1.fields@,
            f2 == s2.fields@,
            views(names1@) == field_names(f1),
            views(names2@) == field_names(f2),
            i <= f1.len(),
            views(changes@) + removed_field_lines(f1, f2, i as int) == after_added
                + removed_field_lines(f1, f2, 0),
        decreases f1.len() - i,
    {
        let n = &s1.fields[i].name;
        assert(field_names(f1)[i as int] == n@);
        let first = last_pos_exec(&names1, n, i).is_none();
        let elsewhere = lookup_pos(&names2, n).is_some();
        proof {
            lemma_last_pos_ge(field_names(f1), n@, i as int);
        }
        if first && !elsewhere {
            let k = lookup_pos(&names1, n).unwrap();
            let mut line = to_string("- Removed field: ");
            line.append(n.as_str());
            line.append(" (");
            line.append(format_type(&s1.fields[k].type_info).as_str());
            line.append(")");
            let ghost before = views(changes@);
            changes.push(line);
            assert(views(changes@) =~= before.push(line@));
        }
        let ghost here = if first && !elsewhere {
            seq![
                "- Removed field: "@ + n@ + " ("@ + field_type_text(f1, n@) + ")"@,
            ]
        } else {
            Seq::<Seq<char>>::empty()
        };
        assert(removed_field_lines(f1, f2, i as int) == here + removed_field_lines(f1, f2, i + 1));
        i = i + 1;
    }
    let ghost after_removed = views(changes@);
    let mut i: usize = 0;
    while i < s1.fields.len()
        invariant
            f1 == s1.fields@,
            f2 == s2.fields@,
            views(names1@) == field_names(f1),
            views(names2@) == field_names(f2),
            i <= f1.len(),
            views(changes@) + modified_field_lines(f1, f2, i as int) == after_removed
                + modified_field_lines(f1, f2, 0),
        decreases f1.len() - i,
    {
        let n = &s1.fields[i].name;
        assert(field_names(f1)[i as int] == n@);
        let first = last_pos_exec(&names1, n, i).is_none();
        let other = lookup_pos(&names2, n);
        proof {
            lemma_last_pos_ge(field_names(f1), n@, i as int);
        }
        if first {
            match other {
                Some(k2) => {
                    let k1 = lookup_pos(&names1, n).unwrap();
                    let t1 = format_type(&s1.fields[k1].type_info);
                    let t2 = format_type(&s2.fields[k2].type_info);
                    if !crate::text::str_eq(t1.as_str(), t2.as_str()) {
                        let mut line = to_string("~ Modified field: ");
                        line.append(n.as_str());
                        line.append(" (");
                        line.append(t1.as_str());
                        line.append(" → ");
                        line.append(t2.as_str());
                        line.append(")");
                        let ghost before = views(changes@);
                        changes.push(line);
                        assert(views(changes@) =~= before.push(line@));
                    }
                },
                None => {},
            }
        }
        assert(modified_field_lines(f1, f2, i as int) == (if first_at(field_names(f1), i as int)
            && named_in(field_names(f2), n@) && field_type_text(f1, n@) != field_type_text(f2, n@) {
            seq![
                "~ Modified field: "@ + n@ + " ("@ + field_type_text(f1, n@) + " → "@
                    + field_type_text(f2, n@) + ")"@,
            ]
        } else {
            Seq::<Seq<char>>::empty()
        }) + modified_field_lines(f1, f2, i + 1));
        i = i + 1;
    }
    let ghost after_modified = views(changes@);
    push_solana_line(s1.metadata.solana, s2.metadata.solana, changes);
    if !strings_equal(&s1.metadata.attributes, &s2.metadata.attributes) {
        let ghost before = views(changes@);
        changes.push(to_string("~ Attributes changed"));
        assert(views(changes@) =~= before.push("~ Attributes changed"@));
    }
    assert(views(changes@) =~= views(old(changes)@) + struct_changes(*s1, *s2));
}


fn types_same_text(t1: &Vec<TypeInfo>, t2: &Vec<TypeInfo>) -> (r: bool)
    ensures
        r == (t1@.len() == t2@.len() && forall|k: int|
            0 <= k < t1@.len() ==> #[trigger] type_text(t1@[k]) == type_text(t2@[k])),
{
    if t1.len() != t2.len() {
        return false;
    }
    let mut k: usize = 0;
    while k < t1.len()
        invariant
            k <= t1@.len() == t2@.len(),
            forall|j: int| 0 <= j < k ==> #[trigger] type_text(t1@[j]) == type_text(t2@[j]),
        decreases t1@.len() - k,
    {
        let a = format_type(&t1[k]);
        let b = format_type(&t2[k]);
        if !crate::text::str_eq(a.as_str(), b.as_str()) {
            return false;
        }
        k = k + 1;
    }
    true
}

fn fields_same_text(f1: &Vec<FieldDefinition>, f2: &Vec<FieldDefinition>) -> (r: bool)
    ensures
        r == (f1@.len() == f2@.len() && forall|k: int|
            0 <= k < f1@.len() ==> (#[trigger] f1@[k]).name@ == f2@[k].name@ && type_text(
                f1@[k].type_info,
            ) == type_text(f2@[k].type_info)),
{
    if f1.len() != f2.len() {
        return false;
    }
    let mut k: usize = 0;
    while k < f1.len()
        invariant
            k <= f1@.len() == f2@.len(),
            forall|j: int|
                0 <= j < k ==> (#[trigger] f1@[j]).name@ == f2@[j].name@ && type_text(
                    f1@[j].type_info,
                ) == type_text(f2@[j].type_info),
        decreases f1@.len() - k,
    {
        if !crate::text::str_eq(f1[k].name.as_str(), f2[k].name.as_str()) {
            return false;
        }
        let a = format_type(&f1[k].type_info);
        let b = format_type(&f2[k].type_info);
        if !crate::text::str_eq(a.as_str(), b.as_str()) {
            return false;
        }
        k = k + 1;
    }
    true
}

/// Whether two variants have the same shape.
pub fn variants_equal(v1: &EnumVariantDefinition, v2: &EnumVariantDefinition) -> (r: bool)
    ensures
        r == variants_same(*v1, *v2),
{
    match (v1, v2) {
        (EnumVariantDefinition::Unit { .. }, EnumVariantDefinition::Unit { .. }) => true,
        (
            EnumVariantDefinition::Tuple { types: t1, .. },
            EnumVariantDefinition::Tuple { types: t2, .. },
        ) => types_same_text(t1, t2),
        (
            EnumVariantDefinition::Struct { fields: f1, .. },
            EnumVariantDefinition::Struct { fields: f2, .. },
        ) => fields_same_text(f1, f2),
        _ => false,
    }
}

/// Adds to `changes` how enum `e1` became enum `e2`.
pub fn compare_enums(e1: &EnumDefinition, e2: &EnumDefinition, changes: &mut Vec<String>)
    ensures
        views(final(changes)@) == views(old(changes)@) + enum_changes(*e1, *e2),
{
    let ghost v1 = e1.variants@;
    let ghost v2 = e2.variants@;
    let names1 = variant_name_list(&e1.variants);
    let names2 = variant_name_list(&e2.variants);
    assert(views(names1@).len() == names1@.len() && views(names2@).len() == names2@.len());
    let ghost base = views(changes@);
    let mut i: usize = 0;
    while i < e2.variants.len()
        invariant
            v1 == e1.variants@,
            v2 == e2.variants@,
            views(names1@) == variant_names(v1),
            views(names2@) == variant_names(v2),
            names1@.len() == v1.len(),
            names2@.len() == v2.len(),
            i <= v2.len(),
            views(changes@) + added_variant_lines(v1, v2, i as int) == base + added_variant_lines(
                v1,
                v2,
                0,
            ),
        decreases v2.len() - i,
    {
        let n = to_string(e2.variants[i].name());
        assert(variant_names(v2)[i as int] == n@);
        let first = last_pos_exec(&names2, &n, i).is_none();
        let elsewhere = lookup_pos(&names1, &n).is_some();
        if first && !elsewhere {
            let mut line = to_string("+ Added variant: ");
            line.append(n.as_str());
            let ghost before = views(changes@);
            changes.push(line);
            assert(views(changes@) =~= before.push(line@));
        }
        let ghost here = if first && !elsewhere {
            seq!["+ Added variant: "@ + n@]
        } else {
            Seq::<Seq<char>>::empty()
        };
        assert(added_variant_lines(v1, v2, i as int) == here + added_variant_lines(v1, v2, i + 1));
        i = i + 1;
    }
    let ghost after_added = views(changes@);
    let mut i: usize = 0;
    while i < e1.variants.len()
        invariant
            v1 == e1.variants@,
            v2 == e2.variants@,
            views(names1@) == variant_names(v1),
            views(names2@) == variant_names(v2),
            names1@.len() == v1.len(),
            names2@.len() == v2.len(),
            i <= v1.len(),
            views(changes@) + removed_variant_lines(v1, v2, i as int) == after_added
                + removed_variant_lines(v1, v2, 0),
        decreases v1.len() - i,
    {
        let n = to_string(e1.variants[i].name());
        assert(variant_names(v1)[i as int] == n@);
        let first = last_pos_exec(&names1, &n, i).is_none();
        let elsewhere = lookup_pos(&names2, &n).is_some();
        if first && !elsewhere {
            let mut line = to_string("- Removed variant: ");
            line.append(n.as_str());
            let ghost before = views(changes@);
            changes.push(line);
            assert(views(changes@) =~= before.push(line@));
        }
        let ghost here = if first && !elsewhere {
            seq!["- Removed variant: "@ + n@]
        } else {
            Seq::<Seq<char>>::empty()
        };
        assert(removed_variant_lines(v1, v2, i as int) == here + removed_variant_lines(
            v1,
            v2,
            i + 1,
        ));
        i = i + 1;
    }
    let ghost after_removed = views(changes@);
    let mut i: usize = 0;
    while i < e1.variants.len()
        invariant
            v1 == e1.variants@,
            v2 == e2.variants@,
            views(names1@) == variant_names(v1),
            views(names2@) == variant_names(v2),
            names1@.len() == v1.len(),
            names2@.len() == v2.len(),
            i <= v1.len(),
            views(changes@) + modified_variant_lines(v1, v2, i as int) == after_removed
                + modified_variant_lines(v1, v2, 0),
        decreases v1.len() - i,
    {
        let n = to_string(e1.variants[i].name());
        assert(variant_names(v1)[i as int] == n@);
        let first = last_pos_exec(&names1, &n, i).is_none();
        let other = lookup_pos(&names2, &n);
        proof {
            lemma_last_pos_ge(variant_names(v1), n@, i as int);
        }
        if first {
            match other {
                Some(k2) => {
                    let k1 = lookup_pos(&names1, &n).unwrap();
                    if !variants_equal(&e1.variants[k1], &e2.variants[k2]) {
                        let mut line = to_string("~ Modified variant: ");
                        line.append(n.as_str());
                        let ghost before = views(changes@);
                        changes.push(line);
                        assert(views(changes@) =~= before.push(line@));
                    }
                },
                None => {},
            }
        }
        assert(modified_variant_lines(v1, v2, i as int) == (if first_at(variant_names(v1), i as int)
            && named_in(variant_names(v2), n@) && !variants_same(
            named_variant(v1, n@),
            named_variant(v2, n@),
        ) {
            seq!["~ Modified variant: "@ + n@]
        } else {
            Seq::<Seq<char>>::empty()
        }) + modified_variant_lines(v1, v2, i + 1));
        i = i + 1;
    }
    push_solana_line(e1.metadata.solana, e2.metadata.solana, changes);
    assert(views(changes@) =~= views(old(changes)@) + enum_changes(*e1, *e2));
}

/// How definition `type1` became definition `type2`.
pub fn compare_types(type1: &TypeDefinition, type2: &TypeDefinition) -> (r: Vec<String>)
    ensures
        views(r@) == type_changes(*type1, *type2),
{
    let mut changes: Vec<String> = Vec::new();
    match (type1, type2) {
        (TypeDefinition::Struct(s1), TypeDefinition::Struct(s2)) => {
            compare_structs(s1, s2, &mut changes);
        },
        (TypeDefinition::Enum(e1), TypeDefinition::Enum(e2)) => {
            compare_enums(e1, e2, &mut changes);
        },
        (TypeDefinition::TypeAlias(_), TypeDefinition::TypeAlias(_)) => {
            changes.push(to_string("Type alias target may have changed"));
        },
        _ => {
            let mut line = to_string("Type changed from ");
            line.append(kind_string(type1).as_str());
            line.append(" to ");
            line.append(kind_string(type2).as_str());
            changes.push(line);
        },
    }
    assert(views(changes@) =~= type_changes(*type1, *type2));
    changes
}

fn kind_string(d: &TypeDefinition) -> (r: String)
    ensures
        r@ == kind_word(*d),
{
    match d {
        TypeDefinition::Struct(_) => to_string("struct"),
        TypeDefinition::Enum(_) => to_string("enum"),
        TypeDefinition::TypeAlias(_) => to_string("type alias"),
    }
}


/// The definition of `ds` that a lookup of `n` finds.
pub open spec fn named_def(ds: Seq<TypeDefinition>, n: Seq<char>) -> TypeDefinition {
    ds[last_pos(def_names(ds), n)]
}

/// The definition names of `d2` (from `i` on, first occurrences) that `d1`
/// lacks.
pub open spec fn added_names(d1: Seq<TypeDefinition>, d2: Seq<TypeDefinition>, i: int) -> Seq<Seq<char>>
    decreases d2.len() - i,
{
    if 0 <= i < d2.len() {
        let n = def_name(d2[i]);
        let here = if first_at(def_names(d2), i) && !named_in(def_names(d1), n) {
            seq![n]
        } else {
            Seq::empty()
        };
        here + added_names(d1, d2, i + 1)
    } else {
        Seq::empty()
    }
}

/// The definition names of `d1` (from `i` on, first occurrences) that `d2`
/// lacks.
pub open spec fn removed_names(d1: Seq<TypeDefinition>, d2: Seq<TypeDefinition>, i: int) -> Seq<
    Seq<char>,
>
    decreases d1.len() - i,
{
    if 0 <= i < d1.len() {
        let n = def_name(d1[i]);
        let here = if first_at(def_names(d1), i) && !named_in(def_names(d2), n) {
            seq![n]
        } else {
            Seq::empty()
        };
        here + removed_names(d1, d2, i + 1)
    } else {
        Seq::empty()
    }
}

/// The definitions of `d1` (from `i` on, first occurrences) that `d2` has
/// with changes, each with its changes.
pub open spec fn modifications(d1: Seq<TypeDefinition>, d2: Seq<TypeDefinition>, i: int) -> Seq<
    (Seq<char>, Seq<Seq<char>>),
>
    decreases d1.len() - i,
{
    if 0 <= i < d1.len() {
        let n = def_name(d1[i]);
        let c = type_changes(named_def(d1, n), named_def(d2, n));
        let here = if first_at(def_names(d1), i) && named_in(def_names(d2), n) && c.len() > 0 {
            seq![(n, c)]
        } else {
            Seq::empty()
        };
        here + modifications(d1, d2, i + 1)
    } else {
        Seq::empty()
    }
}

/// Names and change lines as characters.
pub open spec fn modification_views(m: Seq<(String, Vec<String>)>) -> Seq<(Seq<char>, Seq<Seq<char>>)> {
    m.map_values(|p: (String, Vec<String>)| (p.0@, views(p.1@)))
}

/// How one schema became another.
pub struct SchemaComparison {
    /// Definitions only the second schema has.
    pub added: Vec<String>,
    /// Definitions only the first schema has.
    pub removed: Vec<String>,
    /// Definitions both have that differ, with how.
    pub modified: Vec<(String, Vec<String>)>,
}

impl SchemaComparison {
    /// The number of definitions added, removed or changed.
    pub fn total_changes(&self) -> (r: usize)
        requires
            self.added@.len() + self.removed@.len() + self.modified@.len() <= usize::MAX,
        ensures
            r == self.added@.len() + self.removed@.len() + self.modified@.len(),
    {
        self.added.len() + self.removed.len() + self.modified.len()
    }
}

pub(crate) fn def_name_list(ds: &Vec<TypeDefinition>) -> (r: Vec<String>)
    ensures
        views(r@) == def_names(ds@),
        r@.len() == ds@.len(),
{
    let mut r: Vec<String> = Vec::new();
    let mut k: usize = 0;
    while k < ds.len()
        invariant
            k <= ds@.len(),
            r@.len() == k,
            views(r@) == def_names(ds@.take(k as int)),
        decreases ds@.len() - k,
    {
        let ghost prev = r@;
        r.push(to_string(ds[k].name()));
        assert(ds@.take(k + 1) =~= ds@.take(k as int).push(ds@[k as int]));
        assert(views(r@) =~= views(prev).push(def_name(ds@[k as int])));
        k = k + 1;
        assert(views(r@) =~= def_names(ds@.take(k as int)));
    }
    assert(ds@.take(k as int) =~= ds@);
    r
}

/// Compares two schemas by definition name: the names only the second
/// has, those only the first has, and, for names both have, how the
/// definition changed where it did; each list in schema order.
pub fn compare_schemas(ir1: &Vec<TypeDefinition>, ir2: &Vec<TypeDefinition>) -> (r: SchemaComparison)
    ensures
        views(r.added@) == added_names(ir1@, ir2@, 0),
        views(r.removed@) == removed_names(ir1@, ir2@, 0),
        modification_views(r.modified@) == modifications(ir1@, ir2@, 0),
{
    let names1 = def_name_list(ir1);
    let names2 = def_name_list(ir2);
    let ghost d1 = ir1@;
    let ghost d2 = ir2@;
    let mut added: Vec<String> = Vec::new();
    let mut i: usize = 0;
    while i < ir2.len()
        invariant
            d1 == ir1@,
            d2 == ir2@,
            views(names1@) == def_names(d1),
            views(names2@) == def_names(d2),
            names1@.len() == d1.len(),
            names2@.len() == d2.len(),
            i <= d2.len(),
            views(added@) + added_names(d1, d2, i as int) == added_names(d1, d2, 0),
        decreases d2.len() - i,
    {
        let n = &names2[i];
        assert(def_names(d2)[i as int] == n@);
        let first = last_pos_exec(&names2, n, i).is_none();
        let elsewhere = lookup_pos(&names1, n).is_some();
        if first && !elsewhere {
            let ghost before = views(added@);
            added.push(n.clone());
            assert(views(added@) =~= before.push(n@));
        }
        let ghost here = if first && !elsewhere {
            seq![n@]
        } else {
            Seq::<Seq<char>>::empty()
        };
        assert(added_names(d1, d2, i as int) == here + added_names(d1, d2, i + 1));
        i = i + 1;
    }
    assert(views(added@) =~= added_names(d1, d2, 0));
    let mut removed: Vec<String> = Vec::new();
    let mut modified: Vec<(String, Vec<String>)> = Vec::new();
    let mut i: usize = 0;
    while i < ir1.len()
        invariant
            d1 == ir1@,
            d2 == ir2@,
            views(names1@) == def_names(d1),
            views(names2@) == def_names(d2),
            names1@.len() == d1.len(),
            names2@.len() == d2.len(),
            i <= d1.len(),
            views(removed@) + removed_names(d1, d2, i as int) == removed_names(d1, d2, 0),
            modification_views(modified@) + modifications(d1, d2, i as int) == modifications(
                d1,
                d2,
                0,
            ),
        decreases d1.len() - i,
    {
        let n = &names1[i];
        assert(def_names(d1)[i as int] == n@);
        let first = last_pos_exec(&names1, n, i).is_none();
        let other = lookup_pos(&names2, n);
        proof {
            lemma_last_pos_ge(def_names(d1), n@, i as int);
        }
        let ghost c = type_changes(named_def(d1, n@), named_def(d2, n@));
        if first {
            match other {
                None => {
                    let ghost before = views(removed@);
                    removed.push(n.clone());
                    assert(views(removed@) =~= before.push(n@));
                },
                Some(k2) => {
                    let k1 = lookup_pos(&names1, n).unwrap();
                    let changes = compare_types(&ir1[k1], &ir2[k2]);
                    if changes.len() > 0 {
                        let ghost before = modification_views(modified@);
                        modified.push((n.clone(), changes));
                        assert(modification_views(modified@) =~= before.push((n@, c)));
                    }
                },
            }
        }
        let ghost here_r = if first && other.is_none() {
            seq![n@]
        } else {
            Seq::<Seq<char>>::empty()
        };
        assert(removed_names(d1, d2, i as int) == here_r + removed_names(d1, d2, i + 1));
        let ghost here_m = if first_at(def_names(d1), i as int) && named_in(def_names(d2), n@)
            && c.len() > 0 {
            seq![(n@, c)]
        } else {
            Seq::<(Seq<char>, Seq<Seq<char>>)>::empty()
        };
        assert(modifications(d1, d2, i as int) == here_m + modifications(d1, d2, i + 1));
        i = i + 1;
    }
    assert(views(removed@) =~= removed_names(d1, d2, 0));
    assert(modification_views(modified@) =~= modifications(d1, d2, 0));
    SchemaComparison { added, removed, modified }
}


proof fn lemma_fields_against_themselves(f: Seq<FieldDefinition>, i: int)
    requires
        0 <= i,
    ensures
        added_field_lines(f, f, i).len() == 0,
        removed_field_lines(f, f, i).len() == 0,
        modified_field_lines(f, f, i).len() == 0,
    decreases f.len() - i,
{
    if i < f.len() {
        assert(field_names(f)[i] == f[i].name@);
        lemma_last_pos_ge(field_names(f), f[i].name@, i);
        lemma_fields_against_themselves(f, i + 1);
    }
}

proof fn lemma_variants_against_themselves(v: Seq<EnumVariantDefinition>, i: int)
    requires
        0 <= i,
    ensures
        added_variant_lines(v, v, i).len() == 0,
        removed_variant_lines(v, v, i).len() == 0,
        modified_variant_lines(v, v, i).len() == 0,
    decreases v.len() - i,
{
    if i < v.len() {
        let n = variant_name(v[i]);
        assert(variant_names(v)[i] == n);
        lemma_last_pos_ge(variant_names(v), n, i);
        let x = named_variant(v, n);
        assert(variants_same(x, x));
        lemma_variants_against_themselves(v, i + 1);
    }
}

proof fn lemma_defs_against_themselves(d: Seq<TypeDefinition>, i: int)
    requires
        0 <= i,
        forall|k: int| 0 <= k < d.len() ==> !(#[trigger] d[k] is TypeAlias),
    ensures
        added_names(d, d, i).len() == 0,
        removed_names(d, d, i).len() == 0,
        modifications(d, d, i).len() == 0,
    decreases d.len() - i,
{
    if i < d.len() {
        let n = def_name(d[i]);
        assert(def_names(d)[i] == n);
        lemma_last_pos_ge(def_names(d), n, i);
        lemma_last_pos(def_names(d), n);
        let x = named_def(d, n);
        assert(!(x is TypeAlias));
        match x {
            TypeDefinition::Struct(s) => {
                lemma_fields_against_themselves(s.fields@, 0);
            },
            TypeDefinition::Enum(e) => {
                lemma_variants_against_themselves(e.variants@, 0);
            },
            TypeDefinition::TypeAlias(_) => {},
        }
        assert(type_changes(x, x).len() == 0);
        lemma_defs_against_themselves(d, i + 1);
    }
}

/// A schema without type aliases compared with itself shows no
/// difference: nothing added, removed or changed.
pub proof fn law_self_comparison_is_empty(ir: Seq<TypeDefinition>)
    requires
        forall|k: int| 0 <= k < ir.len() ==> !(#[trigger] ir[k] is TypeAlias),
    ensures
        added_names(ir, ir, 0).len() == 0,
        removed_names(ir, ir, 0).len() == 0,
        modifications(ir, ir, 0).len() == 0,
{
    lemma_defs_against_themselves(ir, 0);
}


proof fn lemma_added_removed_swap(d1: Seq<TypeDefinition>, d2: Seq<TypeDefinition>, i: int)
    ensures
        added_names(d1, d2, i) == removed_names(d2, d1, i),
    decreases d2.len() - i,
{
    if 0 <= i < d2.len() {
        lemma_added_removed_swap(d1, d2, i + 1);
    }
}

/// What a comparison finds added is exactly what the comparison the other
/// way round finds removed.
pub proof fn law_added_is_removed_the_other_way(ir1: Seq<TypeDefinition>, ir2: Seq<TypeDefinition>)
    ensures
        added_names(ir1, ir2, 0) == removed_names(ir2, ir1, 0),
{
    lemma_added_removed_swap(ir1, ir2, 0);
}

} // verus!
