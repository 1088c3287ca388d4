//! Backward-compatibility checks between two versions of a schema type.
//!
//! A change that would keep a deployed program from reading account data
//! written under the old schema is *breaking*; a report is compatible when
//! it holds no breaking issue. When both versions are given, the version
//! bump is checked too: breaking changes need a new major version, and
//! without them the minor version may not go down.

use vstd::prelude::*;
use crate::ir::{
    copy_opt_string, def_name, variant_name, EnumDefinition, StructDefinition, TypeDefinition,
    TypeInfo,
};
use crate::migration::{
    added_fields, adds_field, all_safe, copy_change, def_version, diff_changes, enum_changes,
    has_variant, is_unsafe_change, last_field, lemma_added_field_listed, lemma_first_field_of_name,
    lemma_first_of_name, lemma_last_field, lemma_removed_field_listed, lemma_removed_variant_listed,
    removed_fields, removes_field, struct_changes, removed_variants, variant_name_string, SchemaChange, SchemaDiff,
};
use crate::text::{
    chars_of, debug_quote, debug_str, dec, parse_u32, parse_u32_exec, split_exec, split_on,
    to_string, usize_to_string,
};

verus! {

/// Severity of a compatibility issue.
#[derive(Debug, Clone, Copy, PartialEq, Eq, Structural)]
pub enum IssueLevel {
    /// Breaking change: old data can no longer be read.
    Breaking,
    /// May cause issues but is not breaking.
    Warning,
    /// Informational: a safe change.
    Info,
}

/// A compatibility issue found while comparing schemas.
#[derive(Debug, Clone)]
pub struct CompatibilityIssue {
    /// Issue severity.
    pub level: IssueLevel,
    /// The type in which the issue was found.
    pub type_ident: String,
    /// Short description.
    pub message: String,
    /// Why this is an issue.
    pub reason: String,
    /// Suggested fix or workaround.
    pub suggestion: Option<String>,
    /// The change that caused this issue.
    pub change: SchemaChange,
}

/// The content of an issue, with texts as character sequences.
pub struct IssueView {
    pub level: IssueLevel,
    pub type_ident: Seq<char>,
    pub message: Seq<char>,
    pub reason: Seq<char>,
    pub suggestion: Option<Seq<char>>,
    pub change: SchemaChange,
}

/// The view of an optional string.
pub open spec fn opt_view(s: Option<String>) -> Option<Seq<char>> {
    match s {
        Some(v) => Some(v@),
        None => None,
    }
}

impl View for CompatibilityIssue {
    type V = IssueView;

    open spec fn view(&self) -> IssueView {
        IssueView {
            level: self.level,
            type_ident: self.type_ident@,
            message: self.message@,
            reason: self.reason@,
            suggestion: opt_view(self.suggestion),
            change: self.change,
        }
    }
}

impl CompatibilityIssue {
    /// A breaking issue.
    pub fn breaking(
        type_ident: String,
        message: String,
        reason: String,
        suggestion: Option<String>,
        change: SchemaChange,
    ) -> (r: Self)
        ensures
            r.level == IssueLevel::Breaking,
            r.type_ident == type_ident,
            r.message == message,
            r.reason == reason,
            r.suggestion == suggestion,
            r.change == change,
    {
        CompatibilityIssue {
            level: IssueLevel::Breaking,
            type_ident,
            message,
            reason,
            suggestion,
            change,
        }
    }

    /// A warning.
    pub fn warning(
        type_ident: String,
        message: String,
        reason: String,
        suggestion: Option<String>,
        change: SchemaChange,
    ) -> (r: Self)
        ensures
            r.level == IssueLevel::Warning,
            r.type_ident == type_ident,
            r.message == message,
            r.reason == reason,
            r.suggestion == suggestion,
            r.change == change,
    {
        CompatibilityIssue { level: IssueLevel::Warning, type_ident, message, reason, suggestion, change }
    }

    /// An informational issue (no suggestion).
    pub fn info(type_ident: String, message: String, reason: String, change: SchemaChange) -> (r:
        Self)
        ensures
            r.level == IssueLevel::Info,
            r.type_ident == type_ident,
            r.message == message,
            r.reason == reason,
            r.suggestion is None,
            r.change == change,
    {
        CompatibilityIssue {
            level: IssueLevel::Info,
            type_ident,
            message,
            reason,
            suggestion: None,
            change,
        }
    }

    /// The issue as one line, `<symbol> <type>: <message>`, with the
    /// suggestion on a second line when there is one.
    pub fn to_display_string(&self) -> (r: String)
        ensures
            r@ == issue_text(self@),
    {
        let mut r = match self.level {
            IssueLevel::Breaking => to_string("✗"),
            IssueLevel::Warning => to_string("⚠"),
            IssueLevel::Info => to_string("ℹ"),
        };
        r.append(" ");
        r.append(self.type_ident.as_str());
        r.append(": ");
        r.append(self.message.as_str());
        match &self.suggestion {
            Some(s) => {
                r.append("\n  Suggestion: ");
                r.append(s.as_str());
            },
            None => {},
        }
        r
    }
}

/// The symbol shown for a level.
pub open spec fn level_symbol(l: IssueLevel) -> Seq<char> {
    match l {
        IssueLevel::Breaking => "✗"@,
        IssueLevel::Warning => "⚠"@,
        IssueLevel::Info => "ℹ"@,
    }
}

/// How an issue is displayed.
pub open spec fn issue_text(i: IssueView) -> Seq<char> {
    level_symbol(i.level) + " "@ + i.type_ident + ": "@ + i.message + match i.suggestion {
        Some(s) => "\n  Suggestion: "@ + s,
        None => Seq::empty(),
    }
}

/// The result of a compatibility check.
#[derive(Debug, Clone)]
pub struct CompatibilityReport {
    /// Old schema version.
    pub from_version: Option<String>,
    /// New schema version.
    pub to_version: Option<String>,
    /// All issues found.
    pub issues: Vec<CompatibilityIssue>,
    /// Whether the schemas are backward compatible.
    pub is_compatible: bool,
    /// Whether the version bump fits the changes.
    pub version_bump_valid: bool,
}

/// The views of a sequence of issues.
pub open spec fn issue_views(s: Seq<CompatibilityIssue>) -> Seq<IssueView> {
    s.map_values(|i: CompatibilityIssue| i@)
}

/// The number of issues at a level.
pub open spec fn count_level(s: Seq<CompatibilityIssue>, l: IssueLevel) -> nat
    decreases s.len(),
{
    if s.len() == 0 {
        0
    } else {
        count_level(s.drop_last(), l) + if s.last().level == l {
            1nat
        } else {
            0nat
        }
    }
}

/// Whether some issue is breaking.
pub open spec fn has_breaking(s: Seq<CompatibilityIssue>) -> bool {
    exists|i: int| 0 <= i < s.len() && (#[trigger] s[i]).level == IssueLevel::Breaking
}

/// A report is consistent when it is compatible exactly when it holds no
/// breaking issue.
pub open spec fn report_consistent(r: CompatibilityReport) -> bool {
    r.is_compatible == !has_breaking(r.issues@)
}

/// The issues at a level, in order.
pub open spec fn at_level(s: Seq<CompatibilityIssue>, l: IssueLevel) -> Seq<CompatibilityIssue>
    decreases s.len(),
{
    if s.len() == 0 {
        Seq::empty()
    } else if s.last().level == l {
        at_level(s.drop_last(), l).push(s.last())
    } else {
        at_level(s.drop_last(), l)
    }
}

proof fn lemma_count_level_positive(s: Seq<CompatibilityIssue>, l: IssueLevel)
    ensures
        (count_level(s, l) > 0) == (exists|i: int| 0 <= i < s.len() && (#[trigger] s[i]).level == l),
    decreases s.len(),
{
    if s.len() > 0 {
        lemma_count_level_positive(s.drop_last(), l);
        if count_level(s.drop_last(), l) > 0 {
            let i = choose|i: int| 0 <= i < s.drop_last().len() && (#[trigger] s.drop_last()[i]).level == l;
            assert(s[i] == s.drop_last()[i]);
        }
        if exists|i: int| 0 <= i < s.len() && (#[trigger] s[i]).level == l {
            let i = choose|i: int| 0 <= i < s.len() && (#[trigger] s[i]).level == l;
            if i < s.len() - 1 {
                assert(s.drop_last()[i] == s[i]);
            }
        }
    }
}

impl CompatibilityReport {
    /// An empty, compatible report.
    pub fn new(from_version: Option<String>, to_version: Option<String>) -> (r: Self)
        ensures
            r.from_version == from_version,
            r.to_version == to_version,
            r.issues@.len() == 0,
            r.is_compatible,
            r.version_bump_valid,
            report_consistent(r),
    {
        CompatibilityReport {
            from_version,
            to_version,
            issues: Vec::new(),
            is_compatible: true,
            version_bump_valid: true,
        }
    }

    /// Adds an issue; a breaking issue makes the report incompatible.
    pub fn add_issue(&mut self, issue: CompatibilityIssue)
        ensures
            final(self).issues@ == old(self).issues@.push(issue),
            final(self).is_compatible == (old(self).is_compatible && issue.level
                != IssueLevel::Breaking),
            final(self).from_version == old(self).from_version,
            final(self).to_version == old(self).to_version,
            final(self).version_bump_valid == old(self).version_bump_valid,
            report_consistent(*old(self)) ==> report_consistent(*final(self)),
    {
        let ghost before = self.issues@;
        if issue.level == IssueLevel::Breaking {
            self.is_compatible = false;
        }
        self.issues.push(issue);
        proof {
            let after = self.issues@;
            if has_breaking(before) {
                let i = choose|i: int| 0 <= i < before.len() && (#[trigger] before[i]).level == IssueLevel::Breaking;
                assert(after[i] == before[i]);
            }
            if has_breaking(after) {
                let i = choose|i: int| 0 <= i < after.len() && (#[trigger] after[i]).level == IssueLevel::Breaking;
                if i < before.len() {
                    assert(after[i] == before[i]);
                }
            }
            if after.last().level == IssueLevel::Breaking {
                assert(after[after.len() - 1].level == IssueLevel::Breaking);
            }
        }
    }

    /// The number of issues at a level.
    pub fn count_by_level(&self, level: IssueLevel) -> (r: usize)
        ensures
            r == count_level(self.issues@, level),
    {
        let mut n: usize = 0;
        let mut i: usize = 0;
        while i < self.issues.len()
            invariant
                i <= self.issues@.len(),
                n == count_level(self.issues@.subrange(0, i as int), level),
                n <= i,
            decreases self.issues@.len() - i,
        {
            assert(self.issues@.subrange(0, i + 1).drop_last() =~= self.issues@.subrange(0, i as int));
            if self.issues[i].level == level {
                n = n + 1;
            }
            i = i + 1;
        }
        assert(self.issues@.subrange(0, self.issues@.len() as int) =~= self.issues@);
        n
    }

    fn issues_at(&self, level: IssueLevel) -> (r: Vec<&CompatibilityIssue>)
        ensures
            r@.len() == at_level(self.issues@, level).len(),
            forall|k: int| 0 <= k < r@.len() ==> *r@[k] == at_level(self.issues@, level)[k],
    {
        let mut r: Vec<&CompatibilityIssue> = Vec::new();
        let mut i: usize = 0;
        while i < self.issues.len()
            invariant
                i <= self.issues@.len(),
                r@.len() == at_level(self.issues@.subrange(0, i as int), level).len(),
                forall|k: int|
                    0 <= k < r@.len() ==> *r@[k] == at_level(
                        self.issues@.subrange(0, i as int),
                        level,
                    )[k],
            decreases self.issues@.len() - i,
        {
            assert(self.issues@.subrange(0, i + 1).drop_last() =~= self.issues@.subrange(0, i as int));
            if self.issues[i].level == level {
                r.push(&self.issues[i]);
            }
            i = i + 1;
        }
        assert(self.issues@.subrange(0, self.issues@.len() as int) =~= self.issues@);
        r
    }

    /// The breaking issues, in order.
    pub fn breaking_issues(&self) -> (r: Vec<&CompatibilityIssue>)
        ensures
            r@.len() == at_level(self.issues@, IssueLevel::Breaking).len(),
            forall|k: int|
                0 <= k < r@.len() ==> *r@[k] == at_level(self.issues@, IssueLevel::Breaking)[k],
    {
        self.issues_at(IssueLevel::Breaking)
    }

    /// The warnings, in order.
    pub fn warnings(&self) -> (r: Vec<&CompatibilityIssue>)
        ensures
            r@.len() == at_level(self.issues@, IssueLevel::Warning).len(),
            forall|k: int|
                0 <= k < r@.len() ==> *r@[k] == at_level(self.issues@, IssueLevel::Warning)[k],
    {
        self.issues_at(IssueLevel::Warning)
    }
}

// ---------------------------------------------------------------------
// Issues for changes
// ---------------------------------------------------------------------

/// How `{:?}` prints a type.
pub open spec fn type_debug(t: TypeInfo) -> Seq<char>
    decreases t,
{
    match t {
        TypeInfo::Primitive(n) => "Primitive("@ + debug_str(n@) + ")"@,
        TypeInfo::Generic(n) => "Generic("@ + debug_str(n@) + ")"@,
        TypeInfo::UserDefined(n) => "UserDefined("@ + debug_str(n@) + ")"@,
        TypeInfo::Array(inner) => "Array("@ + type_debug(*inner) + ")"@,
        TypeInfo::FixedArray { element, size } => "FixedArray { element: "@ + type_debug(*element)
            + ", size: "@ + dec(size as nat) + " }"@,
        TypeInfo::Option(inner) => "Option("@ + type_debug(*inner) + ")"@,
    }
}

/// Formats a type with `{:?}` (see [`type_debug`]).
pub fn type_debug_exec(t: &TypeInfo) -> (r: String)
    ensures
        r@ == type_debug(*t),
    decreases t,
{
    match t {
        TypeInfo::Primitive(n) => {
            let mut r = to_string("Primitive(");
            let q = debug_quote(n.as_str());
            r.append(q.as_str());
            r.append(")");
            r
        },
        TypeInfo::Generic(n) => {
            let mut r = to_string("Generic(");
            let q = debug_quote(n.as_str());
            r.append(q.as_str());
            r.append(")");
            r
        },
        TypeInfo::UserDefined(n) => {
            let mut r = to_string("UserDefined(");
            let q = debug_quote(n.as_str());
            r.append(q.as_str());
            r.append(")");
            r
        },
        TypeInfo::Array(inner) => {
            let mut r = to_string("Array(");
            let q = type_debug_exec(inner);
            r.append(q.as_str());
            r.append(")");
            r
        },
        TypeInfo::FixedArray { element, size } => {
            let mut r = to_string("FixedArray { element: ");
            let q = type_debug_exec(element);
            r.append(q.as_str());
            r.append(", size: ");
            let n = usize_to_string(*size);
            r.append(n.as_str());
            r.append(" }");
            r
        },
        TypeInfo::Option(inner) => {
            let mut r = to_string("Option(");
            let q = type_debug_exec(inner);
            r.append(q.as_str());
            r.append(")");
            r
        },
    }
}

/// The issue reported for one change of the type named `tn`.
pub open spec fn change_issue(tn: Seq<char>, c: SchemaChange) -> IssueView {
    match c {
        SchemaChange::FieldAdded { name, type_info, optional } => if optional {
            IssueView {
                level: IssueLevel::Info,
                type_ident: tn,
                message: "Added optional field: "@ + name@,
                reason: "Old data will deserialize successfully with this field as None"@,
                suggestion: None,
                change: c,
            }
        } else {
            IssueView {
                level: IssueLevel::Breaking,
                type_ident: tn,
                message: "Added required field: "@ + name@ + " ("@ + type_debug(type_info) + ")"@,
                reason: "Old account data lacks this field, deserialization will fail"@,
                suggestion: Some("Make field optional or provide migration code"@),
                change: c,
            }
        },
        SchemaChange::FieldRemoved { name, type_info } => IssueView {
            level: IssueLevel::Breaking,
            type_ident: tn,
            message: "Removed field: "@ + name@ + " ("@ + type_debug(type_info) + ")"@,
            reason: "Old account data contains this field, causing extra bytes during deserialization"@,
            suggestion: Some("Keep deprecated field or create migration"@),
            change: c,
        },
        SchemaChange::FieldTypeChanged { name, old_type, new_type } => IssueView {
            level: IssueLevel::Breaking,
            type_ident: tn,
            message: "Changed type of '"@ + name@ + "': "@ + type_debug(old_type) + " → "@
                + type_debug(new_type),
            reason: "Borsh deserialization will fail due to type mismatch"@,
            suggestion: Some("Create a migration function or use a new field name"@),
            change: c,
        },
        SchemaChange::FieldReordered { name, old_position, new_position } => IssueView {
            level: IssueLevel::Info,
            type_ident: tn,
            message: "Reordered field '"@ + name@ + "': position "@ + dec(old_position as nat)
                + " → "@ + dec(new_position as nat),
            reason: "Borsh uses field order for serialization, so this is safe"@,
            suggestion: None,
            change: c,
        },
        SchemaChange::VariantAdded { name } => IssueView {
            level: IssueLevel::Info,
            type_ident: tn,
            message: "Added enum variant: "@ + name@,
            reason: "Old data won't use this variant, so deserialization remains compatible"@,
            suggestion: None,
            change: c,
        },
        SchemaChange::VariantRemoved { name } => IssueView {
            level: IssueLevel::Breaking,
            type_ident: tn,
            message: "Removed enum variant: "@ + name@,
            reason: "Old data may contain this variant, causing deserialization failure"@,
            suggestion: Some("Mark variant as deprecated instead of removing"@),
            change: c,
        },
    }
}

fn cat(a: &str, b: &str) -> (r: String)
    ensures
        r@ == a@ + b@,
{
    let mut r = to_string(a);
    r.append(b);
    r
}

/// The issue for one change (see [`change_issue`]).
pub fn analyze_change(tn: &String, c: &SchemaChange) -> (r: CompatibilityIssue)
    ensures
        r@ == change_issue(tn@, *c),
{
    let t = tn.clone();
    match c {
        SchemaChange::FieldAdded { name, type_info, optional } => {
            if *optional {
                CompatibilityIssue::info(
                    t,
                    cat("Added optional field: ", name.as_str()),
                    to_string("Old data will deserialize successfully with this field as None"),
                    copy_change(c),
                )
            } else {
                let mut m = cat("Added required field: ", name.as_str());
                m.append(" (");
                let d = type_debug_exec(type_info);
                m.append(d.as_str());
                m.append(")");
                CompatibilityIssue::breaking(
                    t,
                    m,
                    to_string("Old account data lacks this field, deserialization will fail"),
                    Some(to_string("Make field optional or provide migration code")),
                    copy_change(c),
                )
            }
        },
        SchemaChange::FieldRemoved { name, type_info } => {
            let mut m = cat("Removed field: ", name.as_str());
            m.append(" (");
            let d = type_debug_exec(type_info);
            m.append(d.as_str());
            m.append(")");
            CompatibilityIssue::breaking(
                t,
                m,
                to_string(
                    "Old account data contains this field, causing extra bytes during deserialization",
                ),
                Some(to_string("Keep deprecated field or create migration")),
                copy_change(c),
            )
        },
        SchemaChange::FieldTypeChanged { name, old_type, new_type } => {
            let mut m = cat("Changed type of '", name.as_str());
            m.append("': ");
            let a = type_debug_exec(old_type);
            m.append(a.as_str());
            m.append(" → ");
            let b = type_debug_exec(new_type);
            m.append(b.as_str());
            CompatibilityIssue::breaking(
                t,
                m,
                to_string("Borsh deserialization will fail due to type mismatch"),
                Some(to_string("Create a migration function or use a new field name")),
                copy_change(c),
            )
        },
        SchemaChange::FieldReordered { name, old_position, new_position } => {
            let mut m = cat("Reordered field '", name.as_str());
            m.append("': position ");
            let a = usize_to_string(*old_position);
            m.append(a.as_str());
            m.append(" → ");
            let b = usize_to_string(*new_position);
            m.append(b.as_str());
            CompatibilityIssue::info(
                t,
                m,
                to_string("Borsh uses field order for serialization, so this is safe"),
                copy_change(c),
            )
        },
        SchemaChange::VariantAdded { name } => {
            CompatibilityIssue::info(
                t,
                cat("Added enum variant: ", name.as_str()),
                to_string("Old data won't use this variant, so deserialization remains compatible"),
                copy_change(c),
            )
        },
        SchemaChange::VariantRemoved { name } => {
            CompatibilityIssue::breaking(
                t,
                cat("Removed enum variant: ", name.as_str()),
                to_string("Old data may contain this variant, causing deserialization failure"),
                Some(to_string("Mark variant as deprecated instead of removing")),
                copy_change(c),
            )
        },
    }
}

// ---------------------------------------------------------------------
// Versions
// ---------------------------------------------------------------------

/// What `parse_semver` gives: three dot-separated unsigned 32-bit numbers,
/// or the message naming the first part that is not one.
pub open spec fn semver_parse(v: Seq<char>) -> Result<(u32, u32, u32), Seq<char>> {
    let parts = split_on(v, '.');
    if parts.len() != 3 {
        Err("Invalid semver format: "@ + v)
    } else if parse_u32(parts[0]) is None {
        Err("Invalid major version: "@ + parts[0])
    } else if parse_u32(parts[1]) is None {
        Err("Invalid minor version: "@ + parts[1])
    } else if parse_u32(parts[2]) is None {
        Err("Invalid patch version: "@ + parts[2])
    } else {
        Ok((parse_u32(parts[0])->0, parse_u32(parts[1])->0, parse_u32(parts[2])->0))
    }
}

fn string_of(v: &Vec<char>) -> (r: String)
    ensures
        r@ == v@,
{
    crate::text::string_from_chars(v.as_slice())
}

/// Parses a semantic version `MAJOR.MINOR.PATCH` into its three numbers.
pub fn parse_semver(version: &str) -> (r: Result<(u32, u32, u32), String>)
    ensures
        match r {
            Ok(t) => semver_parse(version@) == Ok::<(u32, u32, u32), Seq<char>>(t),
            Err(e) => semver_parse(version@) == Err::<(u32, u32, u32), Seq<char>>(e@),
        },
{
    let cs = chars_of(version);
    let parts = split_exec(cs.as_slice(), '.');
    if parts.len() != 3 {
        let mut e = to_string("Invalid semver format: ");
        e.append(version);
        return Err(e);
    }
    let major = parse_u32_exec(parts[0].as_slice());
    if major.is_none() {
        let mut e = to_string("Invalid major version: ");
        let p = string_of(&parts[0]);
        e.append(p.as_str());
        return Err(e);
    }
    let minor = parse_u32_exec(parts[1].as_slice());
    if minor.is_none() {
        let mut e = to_string("Invalid minor version: ");
        let p = string_of(&parts[1]);
        e.append(p.as_str());
        return Err(e);
    }
    let patch = parse_u32_exec(parts[2].as_slice());
    if patch.is_none() {
        let mut e = to_string("Invalid patch version: ");
        let p = string_of(&parts[2]);
        e.append(p.as_str());
        return Err(e);
    }
    Ok((major.unwrap(), minor.unwrap(), patch.unwrap()))
}

/// What `validate_version_bump` gives for versions `f` and `t` when the
/// report does or does not hold a breaking issue: a parse error of either
/// version, a complaint when breaking changes do not raise the major
/// version, or a
/// complaint when, without breaking changes, the major version stays and
/// the minor version goes down.
pub open spec fn bump_check(f: Seq<char>, t: Seq<char>, breaking: bool) -> Result<(), Seq<char>> {
    match semver_parse(f) {
        Err(e) => Err(e),
        Ok(a) => match semver_parse(t) {
            Err(e) => Err(e),
            Ok(b) => if breaking {
                if b.0 <= a.0 {
                    Err("Breaking changes detected but major version not bumped ("@ + f + " → "@ + t
                        + ")"@)
                } else {
                    Ok(())
                }
            } else if b.0 == a.0 && b.1 < a.1 {
                Err("Minor version decreased ("@ + f + " → "@ + t + ")"@)
            } else {
                Ok(())
            },
        },
    }
}

/// Checks that the version bump from `from_version` to `to_version` fits
/// the issues of the report.
pub fn validate_version_bump(
    from_version: &str,
    to_version: &str,
    report: &CompatibilityReport,
) -> (r: Result<(), String>)
    ensures
        match r {
            Ok(_) => bump_check(
                from_version@,
                to_version@,
                count_level(report.issues@, IssueLevel::Breaking) > 0,
            ) is Ok,
            Err(e) => bump_check(
                from_version@,
                to_version@,
                count_level(report.issues@, IssueLevel::Breaking) > 0,
            ) == Err::<(), Seq<char>>(e@),
        },
{
    let a = match parse_semver(from_version) {
        Ok(a) => a,
        Err(e) => {
            return Err(e);
        },
    };
    let b = match parse_semver(to_version) {
        Ok(b) => b,
        Err(e) => {
            return Err(e);
        },
    };
    let has_breaking = report.count_by_level(IssueLevel::Breaking) > 0;
    if has_breaking {
        if b.0 <= a.0 {
            let mut e = to_string("Breaking changes detected but major version not bumped (");
            e.append(from_version);
            e.append(" → ");
            e.append(to_version);
            e.append(")");
            return Err(e);
        }
    } else {
        if b.0 == a.0 && b.1 < a.1 {
            let mut e = to_string("Minor version decreased (");
            e.append(from_version);
            e.append(" → ");
            e.append(to_version);
            e.append(")");
            return Err(e);
        }
    }
    Ok(())
}

// ---------------------------------------------------------------------
// The checker
// ---------------------------------------------------------------------

/// Checks the backward compatibility of a new version of a type.
pub struct CompatibilityChecker {
    old_schema: TypeDefinition,
    new_schema: TypeDefinition,
}

/// The issues for a sequence of changes of the type named `tn`.
pub open spec fn change_issues(tn: Seq<char>, cs: Seq<SchemaChange>) -> Seq<IssueView> {
    cs.map_values(|c: SchemaChange| change_issue(tn, c))
}

/// Whether some issue view is breaking.
pub open spec fn views_breaking(s: Seq<IssueView>) -> bool {
    exists|i: int| 0 <= i < s.len() && (#[trigger] s[i]).level == IssueLevel::Breaking
}

/// The complaint about the version bump that `check` adds, if any.
pub open spec fn bump_error(old: TypeDefinition, new: TypeDefinition) -> Option<Seq<char>> {
    match (def_version(old), def_version(new), diff_changes(old, new)) {
        (Some(f), Some(t), Some(cs)) => match bump_check(
            f@,
            t@,
            views_breaking(change_issues(def_name(old), cs)),
        ) {
            Err(m) => Some(m),
            Ok(_) => None,
        },
        _ => None,
    }
}

/// The issue that reports an invalid version bump with message `m`.
pub open spec fn is_bump_issue(i: IssueView, tn: Seq<char>, m: Seq<char>) -> bool {
    &&& i.level == IssueLevel::Breaking
    &&& i.type_ident == tn
    &&& i.message == "Invalid version bump"@
    &&& i.reason == m
    &&& i.suggestion == Some("Bump major version for breaking changes, minor for new features"@)
    &&& i.change matches SchemaChange::FieldAdded { name, type_info, optional }
    &&& name@.len() == 0
    &&& type_info matches TypeInfo::Primitive(p) && p@ == "bool"@
    &&& !optional
}

proof fn lemma_count_views(s: Seq<CompatibilityIssue>)
    ensures
        (count_level(s, IssueLevel::Breaking) > 0) == views_breaking(issue_views(s)),
        has_breaking(s) == views_breaking(issue_views(s)),
{
    lemma_count_level_positive(s, IssueLevel::Breaking);
    if has_breaking(s) {
        let i = choose|i: int| 0 <= i < s.len() && (#[trigger] s[i]).level == IssueLevel::Breaking;
        assert(issue_views(s)[i].level == IssueLevel::Breaking);
    }
    if views_breaking(issue_views(s)) {
        let i = choose|i: int|
            0 <= i < issue_views(s).len() && (#[trigger] issue_views(s)[i]).level
                == IssueLevel::Breaking;
        assert(s[i].level == IssueLevel::Breaking);
    }
}

impl CompatibilityChecker {
    /// The old version of the type.
    pub closed spec fn old_schema(&self) -> TypeDefinition {
        self.old_schema
    }

    /// The new version of the type.
    pub closed spec fn new_schema(&self) -> TypeDefinition {
        self.new_schema
    }

    /// A checker for two versions of a type.
    pub fn new(old_schema: TypeDefinition, new_schema: TypeDefinition) -> (r: Self)
        ensures
            r.old_schema() == old_schema,
            r.new_schema() == new_schema,
    {
        CompatibilityChecker { old_schema, new_schema }
    }

    /// Checks backward compatibility (see [`checked`]).
    pub fn check(&self) -> (r: Result<CompatibilityReport, String>)
        ensures
            checked(self.old_schema(), self.new_schema(), r),
    {
        check_definitions(&self.old_schema, &self.new_schema)
    }
}

/// What checking the compatibility of `new` with `old` gives: one issue
/// per change of their diff, in order, then, when both versions are known
/// and the bump does not fit, a breaking issue about the version bump; the
/// diff's error when they cannot be compared.
pub open spec fn checked(old: TypeDefinition, new: TypeDefinition, r: Result<CompatibilityReport, String>) -> bool {
    match r {
        Err(e) => diff_changes(old, new) is None && e@
            == crate::migration::compute_error(old, new),
        Ok(rep) => {
            let cs = diff_changes(old, new)->0;
            let tn = def_name(old);
            let n = cs.len() as int;
            &&& diff_changes(old, new) is Some
            &&& rep.from_version == def_version(old)
            &&& rep.to_version == def_version(new)
            &&& issue_views(rep.issues@).subrange(0, n) == change_issues(tn, cs)
            &&& match bump_error(old, new) {
                Some(m) => {
                    &&& rep.issues@.len() == n + 1
                    &&& is_bump_issue(rep.issues@[n]@, tn, m)
                    &&& !rep.version_bump_valid
                },
                None => rep.issues@.len() == n && rep.version_bump_valid,
            }
            &&& report_consistent(rep)
        },
    }
}

/// Checks the backward compatibility of `new_schema` with `old_schema`
/// (see [`checked`]).
pub fn check_definitions(old_schema: &TypeDefinition, new_schema: &TypeDefinition) -> (r: Result<
    CompatibilityReport,
    String,
>)
    ensures
        checked(*old_schema, *new_schema, r),
{
    let diff = match SchemaDiff::compute(old_schema, new_schema) {
        Ok(d) => d,
        Err(e) => {
            return Err(e);
        },
    };
    let ghost tn = def_name(*old_schema);
    let ghost cs = diff.changes@;
    let mut report = CompatibilityReport::new(
        copy_opt_string(&diff.from_version),
        copy_opt_string(&diff.to_version),
    );
    let mut i: usize = 0;
    while i < diff.changes.len()
        invariant
            i <= cs.len(),
            cs == diff.changes@,
            tn == diff.type_ident@,
            issue_views(report.issues@) == change_issues(tn, cs.subrange(0, i as int)),
            report_consistent(report),
            report.version_bump_valid,
            report.from_version == diff.from_version,
            report.to_version == diff.to_version,
        decreases cs.len() - i,
    {
        let issue = analyze_change(&diff.type_ident, &diff.changes[i]);
        let ghost before = report.issues@;
        let ghost iv = issue@;
        report.add_issue(issue);
        proof {
            assert(iv == change_issue(tn, cs[i as int]));
            assert(issue_views(report.issues@) =~= issue_views(before).push(iv));
            assert(change_issues(tn, cs.subrange(0, i + 1)) =~= change_issues(
                tn,
                cs.subrange(0, i as int),
            ).push(change_issue(tn, cs[i as int])));
        }
        i = i + 1;
    }
    assert(cs.subrange(0, cs.len() as int) =~= cs);
    let ghost n = cs.len() as int;
    proof {
        lemma_count_views(report.issues@);
    }
    match (&diff.from_version, &diff.to_version) {
        (Some(f), Some(t)) => {
            match validate_version_bump(f.as_str(), t.as_str(), &report) {
                Err(msg) => {
                    report.version_bump_valid = false;
                    let issue = CompatibilityIssue::breaking(
                        diff.type_ident.clone(),
                        to_string("Invalid version bump"),
                        msg,
                        Some(
                            to_string(
                                "Bump major version for breaking changes, minor for new features",
                            ),
                        ),
                        SchemaChange::FieldAdded {
                            name: String::new(),
                            type_info: TypeInfo::Primitive(to_string("bool")),
                            optional: false,
                        },
                    );
                    report.add_issue(issue);
                    assert(issue_views(report.issues@).subrange(0, n) =~= change_issues(
                        tn,
                        cs,
                    ));
                },
                Ok(_) => {},
            }
        },
        _ => {},
    }
    assert(issue_views(report.issues@).subrange(0, n) =~= change_issues(tn, cs));
    Ok(report)
}

// ---------------------------------------------------------------------
// Laws
// ---------------------------------------------------------------------

/// Adding issues one by one to a new report keeps it consistent: the
/// report is compatible exactly when none of the issues is breaking.
pub proof fn law_report_compatible_iff_no_breaking(r: CompatibilityReport)
    requires
        report_consistent(r),
    ensures
        r.is_compatible == (count_level(r.issues@, IssueLevel::Breaking) == 0),
{
    lemma_count_level_positive(r.issues@, IssueLevel::Breaking);
}

/// With breaking changes, a bump is valid exactly when it raises the major
/// version; without them, keeping the major version while raising or
/// keeping the minor version is always valid, as long as both versions
/// parse.
pub proof fn law_version_bump(f: Seq<char>, t: Seq<char>)
    requires
        semver_parse(f) is Ok,
        semver_parse(t) is Ok,
    ensures
        bump_check(f, t, true) is Ok <==> (semver_parse(t)->Ok_0).0 > (semver_parse(f)->Ok_0).0,
        (semver_parse(t)->Ok_0).1 >= (semver_parse(f)->Ok_0).1 ==> bump_check(f, t, false) is Ok,
{
}


/// Removing an enum variant is a breaking change: checking the new version
/// of an enum against the old one reports the removal as a breaking issue,
/// with a suggestion, and the report is not compatible.
pub proof fn law_removed_variant_is_breaking(
    old: EnumDefinition,
    new: EnumDefinition,
    j: int,
    r: Result<CompatibilityReport, String>,
)
    requires
        old.name@ == new.name@,
        0 <= j < old.variants@.len(),
        !has_variant(new.variants@, variant_name(old.variants@[j])),
        checked(TypeDefinition::Enum(old), TypeDefinition::Enum(new), r),
    ensures
        r is Ok,
        !r->Ok_0.is_compatible,
        exists|p: int|
            0 <= p < r->Ok_0.issues@.len() && {
                let iss = #[trigger] r->Ok_0.issues@[p];
                &&& iss.level == IssueLevel::Breaking
                &&& iss.message@ == "Removed enum variant: "@ + variant_name(old.variants@[j])
                &&& iss.suggestion is Some
            },
{
    let o = old.variants@;
    let nv = new.variants@;
    let i = lemma_first_of_name(o, j);
    lemma_removed_variant_listed(o, nv, i, o.len());
    let ch = SchemaChange::VariantRemoved { name: variant_name_string(o[i]) };
    let rem = removed_variants(o, nv, o.len());
    let p = choose|p: int| 0 <= p < rem.len() && rem[p] == ch;
    let cs = enum_changes(old, new);
    assert(cs[p] == ch);
    let rep = r->Ok_0;
    let tn = def_name(TypeDefinition::Enum(old));
    assert(change_issues(tn, cs)[p] == change_issue(tn, ch));
    assert(issue_views(rep.issues@).subrange(0, cs.len() as int)[p] == rep.issues@[p]@);
    assert(rep.issues@[p].level == IssueLevel::Breaking);
    assert(has_breaking(rep.issues@));
}


/// A change is reported as breaking exactly when it is unsafe for data
/// written before it (a removed field, a new required field, a changed
/// field type, a removed variant); every other change is informational.
/// A breaking issue comes with a suggestion, an informational one without;
/// each issue names its type and carries its change.
pub proof fn law_issue_level_matches_safety(tn: Seq<char>, c: SchemaChange)
    ensures
        (change_issue(tn, c).level == IssueLevel::Breaking) == is_unsafe_change(c),
        !is_unsafe_change(c) ==> change_issue(tn, c).level == IssueLevel::Info,
        change_issue(tn, c).suggestion is Some <==> is_unsafe_change(c),
        change_issue(tn, c).type_ident == tn,
        change_issue(tn, c).change == c,
{
}

/// A compatibility report is compatible exactly when every change of the
/// diff is safe and the version bump, where both versions are known, fits.
pub proof fn law_compatible_iff_safe(old: TypeDefinition, new: TypeDefinition, rep: CompatibilityReport)
    requires
        checked(old, new, Ok(rep)),
    ensures
        rep.is_compatible <==> (all_safe(diff_changes(old, new)->0) && bump_error(old, new) is None),
{
    let cs = diff_changes(old, new)->0;
    let tn = def_name(old);
    let n = cs.len() as int;
    let iv = issue_views(rep.issues@);
    assert forall|q: int| 0 <= q < n implies (#[trigger] rep.issues@[q]).level == change_issue(
        tn,
        cs[q],
    ).level by {
        assert(iv.subrange(0, n)[q] == iv[q]);
        assert(change_issues(tn, cs)[q] == change_issue(tn, cs[q]));
    }
    if has_breaking(rep.issues@) {
        let p = choose|p: int| 0 <= p < rep.issues@.len() && (#[trigger] rep.issues@[p]).level
            == IssueLevel::Breaking;
        if p < n {
            law_issue_level_matches_safety(tn, cs[p]);
            assert(!all_safe(cs));
        }
    }
    if !all_safe(cs) {
        let q = choose|q: int| 0 <= q < n && is_unsafe_change(#[trigger] cs[q]);
        law_issue_level_matches_safety(tn, cs[q]);
        assert(rep.issues@[q].level == IssueLevel::Breaking);
    }
    if bump_error(old, new) is Some {
        assert(rep.issues@[n].level == IssueLevel::Breaking);
    }
}


/// Removing a field is a breaking change: checking the new version of a
/// struct against the old one reports the removal as a breaking issue, and
/// the report is not compatible.
pub proof fn law_removed_field_is_breaking(
    old: StructDefinition,
    new: StructDefinition,
    k: int,
    r: Result<CompatibilityReport, String>,
)
    requires
        old.name@ == new.name@,
        0 <= k < old.fields@.len(),
        forall|j: int| 0 <= j < new.fields@.len() ==> new.fields@[j].name@ != old.fields@[k].name@,
        checked(TypeDefinition::Struct(old), TypeDefinition::Struct(new), r),
    ensures
        r is Ok,
        !r->Ok_0.is_compatible,
        exists|p: int|
            0 <= p < r->Ok_0.issues@.len() && (#[trigger] r->Ok_0.issues@[p]).level
                == IssueLevel::Breaking && removes_field(r->Ok_0.issues@[p].change, old.fields@[k].name@),
{
    let o = old.fields@;
    let nf = new.fields@;
    let i = lemma_first_field_of_name(o, k);
    lemma_last_field(nf, o[k].name@);
    lemma_removed_field_listed(o, nf, i, o.len());
    let rem = removed_fields(o, nf, o.len());
    let p = choose|p: int| 0 <= p < rem.len() && removes_field(#[trigger] rem[p], o[i].name@);
    let cs = struct_changes(old, new);
    assert(cs[p] == rem[p]);
    let rep = r->Ok_0;
    let tn = def_name(TypeDefinition::Struct(old));
    law_issue_level_matches_safety(tn, cs[p]);
    assert(change_issues(tn, cs)[p] == change_issue(tn, cs[p]));
    assert(issue_views(rep.issues@).subrange(0, cs.len() as int)[p] == rep.issues@[p]@);
    assert(rep.issues@[p].level == IssueLevel::Breaking);
    assert(has_breaking(rep.issues@));
}

/// Adding a field is reported: as breaking when the field is required, as
/// informational when it is optional (the last declaration of the name
/// decides); a new required field makes the report incompatible.
pub proof fn law_added_field_reported(
    old: StructDefinition,
    new: StructDefinition,
    k: int,
    r: Result<CompatibilityReport, String>,
)
    requires
        old.name@ == new.name@,
        0 <= k < new.fields@.len(),
        forall|j: int| 0 <= j < old.fields@.len() ==> old.fields@[j].name@ != new.fields@[k].name@,
        checked(TypeDefinition::Struct(old), TypeDefinition::Struct(new), r),
    ensures
        r is Ok,
        ({
            let name = new.fields@[k].name@;
            let opt = new.fields@[last_field(new.fields@, name)].optional;
            &&& exists|p: int|
                0 <= p < r->Ok_0.issues@.len() && adds_field(
                    (#[trigger] r->Ok_0.issues@[p]).change,
                    name,
                    opt,
                ) && (r->Ok_0.issues@[p].level == IssueLevel::Breaking <==> !opt)
            &&& !opt ==> !r->Ok_0.is_compatible
        }),
{
    let o = old.fields@;
    let nf = new.fields@;
    let name = nf[k].name@;
    let i = lemma_first_field_of_name(nf, k);
    lemma_last_field(o, name);
    lemma_added_field_listed(o, nf, i, nf.len());
    let rem = removed_fields(o, nf, o.len());
    let add = added_fields(o, nf, nf.len());
    let opt = nf[last_field(nf, name)].optional;
    let q = choose|q: int| 0 <= q < add.len() && adds_field(#[trigger] add[q], name, opt);
    let cs = struct_changes(old, new);
    let p = rem.len() + q;
    assert(cs[p] == add[q]);
    let rep = r->Ok_0;
    let tn = def_name(TypeDefinition::Struct(old));
    law_issue_level_matches_safety(tn, cs[p]);
    assert(change_issues(tn, cs)[p] == change_issue(tn, cs[p]));
    assert(issue_views(rep.issues@).subrange(0, cs.len() as int)[p] == rep.issues@[p]@);
    assert(adds_field(rep.issues@[p].change, name, opt));
    if !opt {
        assert(has_breaking(rep.issues@));
    }
}

} // verus!
