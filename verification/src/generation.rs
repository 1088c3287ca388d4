//! The decisions of the generate command: which target framework was asked
//! for, whether the schema marks any definition as an account, and the
//! schema with those markers taken out for native (pure Borsh) output;
//! and the pause of watch mode.

use vstd::prelude::*;
use crate::generators::{str_lowercased, to_lowercase};
use crate::ir::{EnumDefinition, Metadata, StructDefinition, TypeDefinition};
use crate::text::{has_string, has_string_exec, str_eq, to_string, views};

verus! {

/// The framework generated code is meant for.
#[derive(Debug, Clone, Copy, PartialEq, Eq)]
pub enum TargetMode {
    /// Decide from the schema's attributes.
    Auto,
    /// Plain Solana programs with Borsh serialisation.
    Native,
    /// Anchor programs.
    Anchor,
}

/// The target a lower-cased name selects.
pub open spec fn target_of(lowered: Seq<char>) -> Option<TargetMode> {
    if lowered == "auto"@ {
        Some(TargetMode::Auto)
    } else if lowered == "native"@ {
        Some(TargetMode::Native)
    } else if lowered == "anchor"@ {
        Some(TargetMode::Anchor)
    } else {
        None
    }
}

/// The message for a target name that selects nothing.
pub open spec fn invalid_target_message(target: Seq<char>) -> Seq<char> {
    "Invalid target '"@ + target + "'. Supported: auto, native, anchor"@
}

/// Reads the `--target` option, case-insensitively.
pub fn parse_target(target: &str) -> (r: Result<TargetMode, String>)
    ensures
        match target_of(str_lowercased(target@)) {
            Some(m) => r == Ok::<TargetMode, String>(m),
            None => r matches Err(e) && e@ == invalid_target_message(target@),
        },
{
    let lowered = to_lowercase(target);
    if str_eq(lowered.as_str(), "auto") {
        Ok(TargetMode::Auto)
    } else if str_eq(lowered.as_str(), "native") {
        Ok(TargetMode::Native)
    } else if str_eq(lowered.as_str(), "anchor") {
        Ok(TargetMode::Anchor)
    } else {
        let mut m = to_string("Invalid target '");
        m.append(target);
        m.append("'. Supported: auto, native, anchor");
        Err(m)
    }
}

/// The attribute names of a struct or enum (an alias has none).
pub open spec fn attributes_of(d: TypeDefinition) -> Seq<String> {
    match d {
        TypeDefinition::Struct(s) => s.metadata.attributes@,
        TypeDefinition::Enum(e) => e.metadata.attributes@,
        TypeDefinition::TypeAlias(_) => Seq::empty(),
    }
}

/// Whether some definition carries the `account` attribute.
pub open spec fn has_account(ir: Seq<TypeDefinition>) -> bool {
    exists|i: int| 0 <= i < ir.len() && has_string(attributes_of(#[trigger] ir[i]), "account"@)
}

/// Whether the schema marks any struct or enum as an account.
pub fn has_account_attrs(ir: &Vec<TypeDefinition>) -> (r: bool)
    ensures
        r == has_account(ir@),
{
    let mut i: usize = 0;
    while i < ir.len()
        invariant
            i <= ir@.len(),
            forall|k: int| 0 <= k < i ==> !has_string(attributes_of(#[trigger] ir@[k]), "account"@),
        decreases ir@.len() - i,
    {
        let found = match &ir[i] {
            TypeDefinition::Struct(s) => has_string_exec(&s.metadata.attributes, "account"),
            TypeDefinition::Enum(e) => has_string_exec(&e.metadata.attributes, "account"),
            TypeDefinition::TypeAlias(_) => false,
        };
        if found {
            return true;
        }
        i = i + 1;
    }
    false
}

/// The attribute names other than `account`, in order.
pub open spec fn kept_names(attrs: Seq<Seq<char>>) -> Seq<Seq<char>>
    decreases attrs.len(),
{
    if attrs.len() == 0 {
        Seq::empty()
    } else if attrs.last() == "account"@ {
        kept_names(attrs.drop_last())
    } else {
        kept_names(attrs.drop_last()).push(attrs.last())
    }
}

/// The attribute names other than `account`, in order.
fn without_account(attrs: &Vec<String>) -> (r: Vec<String>)
    ensures
        views(r@) == kept_names(views(attrs@)),
{
    let mut out: Vec<String> = Vec::new();
    let mut i: usize = 0;
    while i < attrs.len()
        invariant
            i <= attrs@.len(),
            views(out@) == kept_names(views(attrs@.subrange(0, i as int))),
        decreases attrs@.len() - i,
    {
        let ghost before = out@;
        assert(views(attrs@.subrange(0, i + 1)).drop_last() =~= views(attrs@.subrange(0, i as int)));
        if !str_eq(attrs[i].as_str(), "account") {
            out.push(to_string(attrs[i].as_str()));
            assert(views(out@) =~= views(before).push(attrs@[i as int]@));
        }
        i = i + 1;
    }
    assert(attrs@.subrange(0, attrs@.len() as int) =~= attrs@);
    out
}

/// `d` with its attribute names replaced by `attrs` (an alias is kept).
pub open spec fn with_attributes(d: TypeDefinition, attrs: Vec<String>) -> TypeDefinition {
    match d {
        TypeDefinition::Struct(s) => TypeDefinition::Struct(
            StructDefinition { metadata: Metadata { attributes: attrs, ..s.metadata }, ..s },
        ),
        TypeDefinition::Enum(e) => TypeDefinition::Enum(
            EnumDefinition { metadata: Metadata { attributes: attrs, ..e.metadata }, ..e },
        ),
        TypeDefinition::TypeAlias(_) => d,
    }
}

/// The attribute list of a struct or enum, as a value.
pub open spec fn attribute_list(d: TypeDefinition) -> Vec<String> {
    match d {
        TypeDefinition::Struct(s) => s.metadata.attributes,
        TypeDefinition::Enum(e) => e.metadata.attributes,
        TypeDefinition::TypeAlias(_) => arbitrary(),
    }
}

/// Whether `after` is `before` with `account` taken out of its attribute
/// names and nothing else changed.
pub open spec fn stripped(before: TypeDefinition, after: TypeDefinition) -> bool {
    &&& after == with_attributes(before, attribute_list(after))
    &&& views(attributes_of(after)) == kept_names(views(attributes_of(before)))
}

/// The schema for native output: every definition as it was, with the
/// `account` attribute name removed from structs and enums.
pub fn without_account_attrs(ir: Vec<TypeDefinition>) -> (r: Vec<TypeDefinition>)
    ensures
        r@.len() == ir@.len(),
        forall|i: int| 0 <= i < ir@.len() ==> stripped(#[trigger] ir@[i], r@[i]),
{
    let ghost orig = ir@;
    let n = ir.len();
    let mut rest = ir;
    let mut out: Vec<TypeDefinition> = Vec::new();
    let mut i: usize = 0;
    while i < n
        invariant
            n == orig.len(),
            i <= n,
            rest@ == orig.subrange(i as int, n as int),
            out@.len() == i,
            forall|k: int| 0 <= k < i ==> stripped(#[trigger] orig[k], out@[k]),
        decreases n - i,
    {
        let d = rest.remove(0);
        assert(d == orig[i as int]);
        let nd = match d {
            TypeDefinition::Struct(mut s) => {
                let kept = without_account(&s.metadata.attributes);
                s.metadata.attributes = kept;
                TypeDefinition::Struct(s)
            },
            TypeDefinition::Enum(mut e) => {
                let kept = without_account(&e.metadata.attributes);
                e.metadata.attributes = kept;
                TypeDefinition::Enum(e)
            },
            TypeDefinition::TypeAlias(a) => {
                assert(views(Seq::<String>::empty()) =~= Seq::<Seq<char>>::empty());
                TypeDefinition::TypeAlias(a)
            },
        };
        out.push(nd);
        assert(rest@ =~= orig.subrange(i + 1, n as int));
        i = i + 1;
    }
    out
}

/// The longest pause between a change and regeneration that may be set.
pub const MAX_DEBOUNCE_MS: u64 = 5000;

/// The pause used when none, or one that is too long, is set.
pub const DEFAULT_DEBOUNCE_MS: u64 = 100;

/// The pause of watch mode in milliseconds, from the configured number if
/// there is one: it is kept when at most five seconds, else the default.
pub fn debounce_ms(configured: Option<u64>) -> (r: u64)
    ensures
        r == match configured {
            Some(ms) => if ms <= MAX_DEBOUNCE_MS { ms } else { DEFAULT_DEBOUNCE_MS },
            None => DEFAULT_DEBOUNCE_MS,
        },
{
    match configured {
        Some(ms) => if ms <= MAX_DEBOUNCE_MS { ms } else { DEFAULT_DEBOUNCE_MS },
        None => DEFAULT_DEBOUNCE_MS,
    }
}

} // verus!
