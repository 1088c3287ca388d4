//! Checks schemas against the Metaplex Token Metadata standard.

use vstd::prelude::*;
use crate::ir::{copy_opt_string, FieldDefinition, StructDefinition, TypeDefinition, TypeInfo};
use crate::metaplex::constraints;
use crate::text::{
    chars_of, contains, contains_exec, copy_string, dec, ends_with, str_eq, to_string,
    usize_to_string,
};

verus! {

/// How serious a finding is.
#[derive(Debug, Clone, Copy, PartialEq, Eq, Structural)]
pub enum Severity {
    /// The schema is invalid.
    Error,
    /// The schema should be reviewed.
    Warning,
}

/// A finding of the validator.
#[derive(Debug, Clone, PartialEq, Eq)]
pub struct ValidationError {
    /// Struct or field.
    pub location: String,
    /// What is wrong.
    pub message: String,
    /// Severity.
    pub severity: Severity,
    /// How to fix it.
    pub suggestion: Option<String>,
}

/// The findings of a validation.
#[derive(Debug, Clone)]
pub struct ValidationResult {
    /// Errors found.
    pub errors: Vec<ValidationError>,
    /// Warnings found.
    pub warnings: Vec<ValidationError>,
}

/// A finding with its texts as characters.
pub struct FindingView {
    pub location: Seq<char>,
    pub message: Seq<char>,
    pub severity: Severity,
    pub suggestion: Option<Seq<char>>,
}

/// The errors and warnings of a validation, in order.
pub struct ResultView {
    pub errors: Seq<FindingView>,
    pub warnings: Seq<FindingView>,
}

/// The view of an optional string.
pub open spec fn opt_view(s: Option<String>) -> Option<Seq<char>> {
    match s {
        Some(x) => Some(x@),
        None => None,
    }
}

impl View for ValidationError {
    type V = FindingView;

    open spec fn view(&self) -> FindingView {
        FindingView {
            location: self.location@,
            message: self.message@,
            severity: self.severity,
            suggestion: opt_view(self.suggestion),
        }
    }
}

/// The views of a list of findings.
pub open spec fn finding_views(v: Seq<ValidationError>) -> Seq<FindingView> {
    v.map_values(|e: ValidationError| e@)
}

impl View for ValidationResult {
    type V = ResultView;

    open spec fn view(&self) -> ResultView {
        ResultView { errors: finding_views(self.errors@), warnings: finding_views(self.warnings@) }
    }
}

/// An error finding.
pub open spec fn error_at(loc: Seq<char>, msg: Seq<char>, sug: Option<Seq<char>>) -> FindingView {
    FindingView { location: loc, message: msg, severity: Severity::Error, suggestion: sug }
}

/// A warning finding.
pub open spec fn warning_at(loc: Seq<char>, msg: Seq<char>, sug: Option<Seq<char>>) -> FindingView {
    FindingView { location: loc, message: msg, severity: Severity::Warning, suggestion: sug }
}

/// No findings.
pub open spec fn no_findings() -> ResultView {
    ResultView { errors: Seq::empty(), warnings: Seq::empty() }
}

/// The findings of `a` followed by those of `b`.
pub open spec fn merged(a: ResultView, b: ResultView) -> ResultView {
    ResultView { errors: a.errors + b.errors, warnings: a.warnings + b.warnings }
}

/// The display text of a finding.
pub open spec fn finding_text(e: FindingView) -> Seq<char> {
    (match e.severity {
        Severity::Error => "error"@,
        Severity::Warning => "warning"@,
    }) + ": "@ + e.location + ": "@ + e.message + match e.suggestion {
        Some(s) => " (suggestion: "@ + s + ")"@,
        None => Seq::empty(),
    }
}

impl ValidationError {
    /// The display text: `severity: location: message`, followed by
    /// ` (suggestion: ...)` where there is one.
    pub fn to_display_string(&self) -> (r: String)
        ensures
            r@ == finding_text(self@),
    {
        let mut r = match self.severity {
            Severity::Error => to_string("error"),
            Severity::Warning => to_string("warning"),
        };
        r.append(": ");
        r.append(self.location.as_str());
        r.append(": ");
        r.append(self.message.as_str());
        match &self.suggestion {
            Some(s) => {
                r.append(" (suggestion: ");
                r.append(s.as_str());
                r.append(")");
            },
            None => {},
        }
        r
    }
}

impl Default for ValidationResult {
    fn default() -> (r: Self)
        ensures
            r@ == no_findings(),
    {
        ValidationResult::new()
    }
}

impl ValidationResult {
    /// An empty result.
    pub fn new() -> (r: Self)
        ensures
            r@ == no_findings(),
    {
        let r = ValidationResult { errors: Vec::new(), warnings: Vec::new() };
        assert(r@.errors =~= Seq::<FindingView>::empty());
        assert(r@.warnings =~= Seq::<FindingView>::empty());
        r
    }

    /// Whether there are no errors.
    pub fn is_valid(&self) -> (r: bool)
        ensures
            r == (self@.errors.len() == 0),
    {
        self.errors.len() == 0
    }

    /// Whether there is a warning.
    pub fn has_warnings(&self) -> (r: bool)
        ensures
            r == (self@.warnings.len() > 0),
    {
        self.warnings.len() > 0
    }

    /// Adds an error.
    pub fn add_error(&mut self, location: String, message: String, suggestion: Option<String>)
        ensures
            final(self)@ == (ResultView {
                errors: old(self)@.errors.push(error_at(location@, message@, opt_view(suggestion))),
                warnings: old(self)@.warnings,
            }),
    {
        let ghost before = self.errors@;
        let e = ValidationError { location, message, severity: Severity::Error, suggestion };
        let ghost ev = e@;
        self.errors.push(e);
        assert(finding_views(self.errors@) =~= finding_views(before).push(ev));
    }

    /// Adds a warning.
    pub fn add_warning(&mut self, location: String, message: String, suggestion: Option<String>)
        ensures
            final(self)@ == (ResultView {
                errors: old(self)@.errors,
                warnings: old(self)@.warnings.push(
                    warning_at(location@, message@, opt_view(suggestion)),
                ),
            }),
    {
        let ghost before = self.warnings@;
        let e = ValidationError { location, message, severity: Severity::Warning, suggestion };
        let ghost ev = e@;
        self.warnings.push(e);
        assert(finding_views(self.warnings@) =~= finding_views(before).push(ev));
    }

    /// Appends the findings of `other`.
    pub fn merge(&mut self, other: ValidationResult)
        ensures
            final(self)@ == merged(old(self)@, other@),
    {
        let ghost e0 = self.errors@;
        let ghost w0 = self.warnings@;
        let mut other = other;
        let ghost e1 = other.errors@;
        let ghost w1 = other.warnings@;
        self.errors.append(&mut other.errors);
        self.warnings.append(&mut other.warnings);
        assert(finding_views(self.errors@) =~= finding_views(e0) + finding_views(e1));
        assert(finding_views(self.warnings@) =~= finding_views(w0) + finding_views(w1));
    }
}

// ---------------------------------------------------------------------
// What the validator finds
// ---------------------------------------------------------------------

/// Whether some attribute contains `p`.
pub open spec fn some_attr_contains(attrs: Seq<String>, p: Seq<char>) -> bool {
    exists|k: int| 0 <= k < attrs.len() && contains(#[trigger] attrs[k]@, p)
}

/// Whether some attribute contains both `p` and `q`.
pub open spec fn some_attr_contains_both(attrs: Seq<String>, p: Seq<char>, q: Seq<char>) -> bool {
    exists|k: int| 0 <= k < attrs.len() && contains(#[trigger] attrs[k]@, p) && contains(attrs[k]@, q)
}

/// Whether a struct is checked as token metadata: by its name, or by an
/// attribute that mentions `metaplex`.
pub open spec fn metadata_struct(s: StructDefinition) -> bool {
    s.name@ == "Metadata"@ || s.name@ == "TokenMetadata"@ || ends_with(s.name@, "Metadata"@)
        || some_attr_contains(s.metadata.attributes@, "metaplex"@)
}

/// Whether a struct is checked as a creator.
pub open spec fn creator_struct(s: StructDefinition) -> bool {
    s.name@ == "Creator"@ || some_attr_contains_both(
        s.metadata.attributes@,
        "metaplex"@,
        "creator"@,
    )
}

/// Whether a struct is checked as a collection.
pub open spec fn collection_struct(s: StructDefinition) -> bool {
    s.name@ == "Collection"@ || some_attr_contains_both(
        s.metadata.attributes@,
        "metaplex"@,
        "collection"@,
    )
}

/// The first field named `n` from position `k` on, if any.
pub open spec fn field_named(fs: Seq<FieldDefinition>, n: Seq<char>, k: int) -> Option<
    FieldDefinition,
>
    decreases fs.len() - k,
{
    if k < 0 || k >= fs.len() {
        None
    } else if fs[k].name@ == n {
        Some(fs[k])
    } else {
        field_named(fs, n, k + 1)
    }
}

/// Whether `t` is the primitive named `p`.
pub open spec fn is_primitive(t: TypeInfo, p: Seq<char>) -> bool {
    match t {
        TypeInfo::Primitive(n) => n@ == p,
        _ => false,
    }
}

/// The warning for a missing recommended metadata field.
pub open spec fn missing_field_warning(sn: Seq<char>, f: Seq<char>) -> FindingView {
    warning_at(
        sn,
        "Missing recommended field '"@ + f + "'"@,
        Some("Add '"@ + f + ": String' field"@),
    )
}

/// Warnings for the missing fields among `name`, `symbol` and `uri`.
pub open spec fn missing_metadata_warnings(s: StructDefinition) -> Seq<FindingView> {
    let w1 = if field_named(s.fields@, "name"@, 0) is None {
        seq![missing_field_warning(s.name@, "name"@)]
    } else {
        Seq::empty()
    };
    let w2 = if field_named(s.fields@, "symbol"@, 0) is None {
        seq![missing_field_warning(s.name@, "symbol"@)]
    } else {
        Seq::empty()
    };
    let w3 = if field_named(s.fields@, "uri"@, 0) is None {
        seq![missing_field_warning(s.name@, "uri"@)]
    } else {
        Seq::empty()
    };
    w1 + w2 + w3
}

/// The findings for a limited text field (`name`, `symbol` or `uri`): an
/// error unless it is a `String`, and a warning about its limit.
pub open spec fn text_field_findings(
    sn: Seq<char>,
    f: FieldDefinition,
    label: Seq<char>,
    limit: nat,
    runtime: Seq<char>,
) -> ResultView {
    let loc = sn + "."@ + f.name@;
    ResultView {
        errors: if is_primitive(f.type_info, "String"@) {
            Seq::empty()
        } else {
            seq![error_at(loc, f.name@ + " field must be String type"@, None)]
        },
        warnings: seq![
            warning_at(
                loc,
                "Metaplex limits "@ + label + " to "@ + dec(limit) + " characters"@,
                Some("Ensure "@ + runtime + " length is validated at runtime"@),
            ),
        ],
    }
}

/// The findings for one field of a metadata struct.
pub open spec fn metadata_field_findings(sn: Seq<char>, f: FieldDefinition) -> ResultView {
    if f.name@ == "name"@ {
        text_field_findings(sn, f, "name"@, constraints::MAX_NAME_LENGTH as nat, "name"@)
    } else if f.name@ == "symbol"@ {
        text_field_findings(sn, f, "symbol"@, constraints::MAX_SYMBOL_LENGTH as nat, "symbol"@)
    } else if f.name@ == "uri"@ {
        text_field_findings(sn, f, "URI"@, constraints::MAX_URI_LENGTH as nat, "URI"@)
    } else {
        no_findings()
    }
}

/// The findings for the fields of a metadata struct, in field order.
pub open spec fn metadata_fields_findings(sn: Seq<char>, fs: Seq<FieldDefinition>) -> ResultView
    decreases fs.len(),
{
    if fs.len() == 0 {
        no_findings()
    } else {
        merged(metadata_fields_findings(sn, fs.drop_last()), metadata_field_findings(sn, fs.last()))
    }
}

/// The warnings for the `creators` field of a metadata struct.
pub open spec fn creators_warnings(sn: Seq<char>, f: FieldDefinition) -> Seq<FindingView> {
    let loc = sn + ".creators"@;
    let shape = match f.type_info {
        TypeInfo::Array(inner) => creators_inner_warning(loc, *inner),
        TypeInfo::Option(inner) => creators_inner_warning(loc, *inner),
        TypeInfo::UserDefined(n) => if contains(n@, "Creator"@) {
            seq![
                warning_at(
                    loc,
                    "creators is typically a Vec<Creator>"@,
                    Some("Consider using Vec<Creator> instead"@),
                ),
            ]
        } else {
            seq![unexpected_creators_warning(loc)]
        },
        _ => seq![unexpected_creators_warning(loc)],
    };
    shape.push(
        warning_at(
            loc,
            "Metaplex limits to "@ + dec(constraints::MAX_CREATORS as nat) + " creators"@,
            Some("Validate creator count at runtime"@),
        ),
    )
}

/// The warning for a creators field of an unexpected type.
pub open spec fn unexpected_creators_warning(loc: Seq<char>) -> FindingView {
    warning_at(
        loc,
        "Unexpected type for creators field"@,
        Some("Use Vec<Creator> or Option<Vec<Creator>>"@),
    )
}

/// The warning for the element of a `Vec` or `Option` creators field: only
/// a nested `Vec` whose element is not `Creator` is warned about.
pub open spec fn creators_inner_warning(loc: Seq<char>, inner: TypeInfo) -> Seq<FindingView> {
    match inner {
        TypeInfo::Array(elem) => match *elem {
            TypeInfo::UserDefined(n) => if n@ == "Creator"@ {
                Seq::empty()
            } else {
                seq![
                    warning_at(
                        loc,
                        "creators should be Vec<Creator> or Option<Vec<Creator>>"@,
                        None,
                    ),
                ]
            },
            _ => seq![
                warning_at(loc, "creators should be Vec<Creator> or Option<Vec<Creator>>"@, None),
            ],
        },
        _ => Seq::empty(),
    }
}

/// The findings for a metadata struct: missing recommended fields, the
/// checks of each field, the type of `seller_fee_basis_points` and the
/// shape of `creators`.
pub open spec fn metadata_findings(s: StructDefinition) -> ResultView {
    let sn = s.name@;
    let per_field = metadata_fields_findings(sn, s.fields@);
    let fee = match field_named(s.fields@, "seller_fee_basis_points"@, 0) {
        Some(f) => if is_primitive(f.type_info, "u16"@) {
            Seq::empty()
        } else {
            seq![
                error_at(
                    sn + ".seller_fee_basis_points"@,
                    "seller_fee_basis_points must be u16"@,
                    Some("Change type to u16"@),
                ),
            ]
        },
        None => Seq::empty(),
    };
    let creators = match field_named(s.fields@, "creators"@, 0) {
        Some(f) => creators_warnings(sn, f),
        None => Seq::empty(),
    };
    ResultView {
        errors: per_field.errors + fee,
        warnings: missing_metadata_warnings(s) + per_field.warnings + creators,
    }
}

/// The error for a required creator field, if it is missing or of another
/// type.
pub open spec fn creator_field_errors(s: StructDefinition, f: Seq<char>, ty: Seq<char>) -> Seq<
    FindingView,
> {
    match field_named(s.fields@, f, 0) {
        Some(fd) => if is_primitive(fd.type_info, ty) {
            Seq::empty()
        } else {
            seq![error_at(s.name@ + "."@ + f, f + " must be "@ + ty + " type"@, None)]
        },
        None => seq![
            error_at(
                s.name@,
                "Creator struct missing required field '"@ + f + "'"@,
                Some("Add '"@ + f + ": "@ + ty + "' field"@),
            ),
        ],
    }
}

/// The findings for a creator struct: `address: PublicKey`,
/// `verified: bool` and `share: u8` are required, and a share field is
/// reminded that shares sum to 100.
pub open spec fn creator_findings(s: StructDefinition) -> ResultView {
    ResultView {
        errors: creator_field_errors(s, "address"@, "PublicKey"@) + creator_field_errors(
            s,
            "verified"@,
            "bool"@,
        ) + creator_field_errors(s, "share"@, "u8"@),
        warnings: if field_named(s.fields@, "share"@, 0) is Some {
            seq![
                warning_at(
                    s.name@ + ".share"@,
                    "Creator shares must sum to 100 across all creators"@,
                    Some("Validate share totals at runtime"@),
                ),
            ]
        } else {
            Seq::empty()
        },
    }
}

/// The findings for a collection struct: `key` and `verified` are required.
pub open spec fn collection_findings(s: StructDefinition) -> ResultView {
    ResultView {
        errors: (if field_named(s.fields@, "key"@, 0) is None {
            seq![
                error_at(
                    s.name@,
                    "Collection struct missing required field 'key'"@,
                    Some("Add 'key: PublicKey' field"@),
                ),
            ]
        } else {
            Seq::empty()
        }) + (if field_named(s.fields@, "verified"@, 0) is None {
            seq![
                error_at(
                    s.name@,
                    "Collection struct missing required field 'verified'"@,
                    Some("Add 'verified: bool' field"@),
                ),
            ]
        } else {
            Seq::empty()
        }),
        warnings: Seq::empty(),
    }
}

/// The findings for one definition: a struct is checked as metadata, else
/// as a creator, else as a collection; anything else gives none.
pub open spec fn definition_findings(d: TypeDefinition) -> ResultView {
    match d {
        TypeDefinition::Struct(s) => if metadata_struct(s) {
            metadata_findings(s)
        } else if creator_struct(s) {
            creator_findings(s)
        } else if collection_struct(s) {
            collection_findings(s)
        } else {
            no_findings()
        },
        _ => no_findings(),
    }
}

/// The findings for a schema, definition by definition.
pub open spec fn schema_findings(defs: Seq<TypeDefinition>) -> ResultView
    decreases defs.len(),
{
    if defs.len() == 0 {
        no_findings()
    } else {
        merged(schema_findings(defs.drop_last()), definition_findings(defs.last()))
    }
}

// ---------------------------------------------------------------------
// The validator
// ---------------------------------------------------------------------

/// A finding reported as an error.
pub open spec fn as_error(f: FindingView) -> FindingView {
    FindingView { severity: Severity::Error, ..f }
}

/// The findings of strict mode: the errors, followed by every warning
/// reported as an error; no warnings remain.
pub open spec fn strict_findings(r: ResultView) -> ResultView {
    ResultView {
        errors: r.errors + r.warnings.map_values(|f: FindingView| as_error(f)),
        warnings: Seq::empty(),
    }
}

/// Validates schemas against the Metaplex standard.
pub struct MetaplexValidator {
    /// Strict mode (warnings count as errors).
    pub strict: bool,
}

impl Default for MetaplexValidator {
    fn default() -> (r: Self)
        ensures
            !r.strict,
    {
        MetaplexValidator::new()
    }
}

fn any_attr_contains(attrs: &Vec<String>, p: &str) -> (r: bool)
    ensures
        r == some_attr_contains(attrs@, p@),
{
    let pc = chars_of(p);
    let mut k: usize = 0;
    while k < attrs.len()
        invariant
            pc@ == p@,
            k <= attrs@.len(),
            forall|m: int| 0 <= m < k ==> !contains(#[trigger] attrs@[m]@, p@),
        decreases attrs@.len() - k,
    {
        let a = chars_of(attrs[k].as_str());
        if contains_exec(a.as_slice(), pc.as_slice()) {
            assert(contains(attrs@[k as int]@, p@));
            return true;
        }
        k = k + 1;
    }
    false
}

fn any_attr_contains_both(attrs: &Vec<String>, p: &str, q: &str) -> (r: bool)
    ensures
        r == some_attr_contains_both(attrs@, p@, q@),
{
    let pc = chars_of(p);
    let qc = chars_of(q);
    let mut k: usize = 0;
    while k < attrs.len()
        invariant
            pc@ == p@,
            qc@ == q@,
            k <= attrs@.len(),
            forall|m: int|
                0 <= m < k ==> !(contains(#[trigger] attrs@[m]@, p@) && contains(attrs@[m]@, q@)),
        decreases attrs@.len() - k,
    {
        let a = chars_of(attrs[k].as_str());
        if contains_exec(a.as_slice(), pc.as_slice()) && contains_exec(a.as_slice(), qc.as_slice()) {
            assert(contains(attrs@[k as int]@, p@) && contains(attrs@[k as int]@, q@));
            return true;
        }
        k = k + 1;
    }
    false
}

fn find_field(fs: &Vec<FieldDefinition>, n: &str) -> (r: Option<usize>)
    ensures
        match r {
            Some(k) => k < fs@.len() && field_named(fs@, n@, 0) == Some(fs@[k as int]),
            None => field_named(fs@, n@, 0) is None,
        },
{
    let mut k: usize = 0;
    while k < fs.len()
        invariant
            k <= fs@.len(),
            field_named(fs@, n@, 0) == field_named(fs@, n@, k as int),
        decreases fs@.len() - k,
    {
        if str_eq(fs[k].name.as_str(), n) {
            return Some(k);
        }
        k = k + 1;
    }
    None
}

fn primitive_is(t: &TypeInfo, p: &str) -> (r: bool)
    ensures
        r == is_primitive(*t, p@),
{
    match t {
        TypeInfo::Primitive(n) => str_eq(n.as_str(), p),
        _ => false,
    }
}

fn dotted(a: &String, b: &str) -> (r: String)
    ensures
        r@ == a@ + "."@ + b@,
{
    let mut r = a.clone();
    r.append(".");
    r.append(b);
    r
}

/// A finding with its severity set to error.
fn error_copy(w: &ValidationError) -> (r: ValidationError)
    ensures
        r@ == as_error(w@),
{
    ValidationError {
        location: copy_string(&w.location),
        message: copy_string(&w.message),
        severity: Severity::Error,
        suggestion: copy_opt_string(&w.suggestion),
    }
}

/// The findings with every warning moved, as an error, after the errors.
fn warnings_as_errors(result: ValidationResult) -> (r: ValidationResult)
    ensures
        r@ == strict_findings(result@),
{
    let ValidationResult { mut errors, warnings } = result;
    let ghost errs = finding_views(errors@);
    let mut k: usize = 0;
    while k < warnings.len()
        invariant
            k <= warnings@.len(),
            finding_views(errors@) == errs + finding_views(warnings@.subrange(0, k as int)).map_values(
                |f: FindingView| as_error(f),
            ),
        decreases warnings@.len() - k,
    {
        let ghost before = finding_views(errors@);
        errors.push(error_copy(&warnings[k]));
        assert(finding_views(warnings@.subrange(0, k + 1)) =~= finding_views(
            warnings@.subrange(0, k as int),
        ).push(warnings@[k as int]@));
        assert(finding_views(errors@) =~= before.push(as_error(warnings@[k as int]@)));
        k = k + 1;
        assert(finding_views(errors@) =~= errs + finding_views(warnings@.subrange(0, k as int)).map_values(
            |f: FindingView| as_error(f),
        ));
    }
    assert(warnings@.subrange(0, warnings@.len() as int) =~= warnings@);
    let r = ValidationResult { errors, warnings: Vec::new() };
    assert(r@.warnings =~= Seq::<FindingView>::empty());
    r
}

impl MetaplexValidator {
    /// A validator in normal mode.
    pub fn new() -> (r: Self)
        ensures
            !r.strict,
    {
        MetaplexValidator { strict: false }
    }

    /// A validator in strict mode.
    pub fn strict() -> (r: Self)
        ensures
            r.strict,
    {
        MetaplexValidator { strict: true }
    }

    /// Validates a schema: metadata, creator and collection structs are
    /// checked; findings come definition by definition. In strict mode the
    /// warnings are reported as errors, after the other errors.
    pub fn validate(&self, types: &Vec<TypeDefinition>) -> (r: ValidationResult)
        ensures
            r@ == if self.strict {
                strict_findings(schema_findings(types@))
            } else {
                schema_findings(types@)
            },
    {
        let mut result = ValidationResult::new();
        let mut i: usize = 0;
        while i < types.len()
            invariant
                i <= types@.len(),
                result@ == schema_findings(types@.subrange(0, i as int)),
            decreases types@.len() - i,
        {
            let ghost pre = types@.subrange(0, i as int);
            assert(types@.subrange(0, i + 1).drop_last() =~= pre);
            match &types[i] {
                TypeDefinition::Struct(s) => {
                    if self.is_metaplex_metadata(s) {
                        result.merge(self.validate_metadata_struct(s));
                    } else if self.is_metaplex_creator(s) {
                        result.merge(self.validate_creator_struct(s));
                    } else if self.is_metaplex_collection(s) {
                        result.merge(self.validate_collection_struct(s));
                    } else {
                        assert(merged(result@, no_findings()) =~= result@);
                    }
                },
                _ => {
                    assert(merged(result@, no_findings()) =~= result@);
                },
            }
            i = i + 1;
        }
        assert(types@.subrange(0, types@.len() as int) =~= types@);
        if self.strict {
            warnings_as_errors(result)
        } else {
            result
        }
    }

    fn is_metaplex_metadata(&self, s: &StructDefinition) -> (r: bool)
        ensures
            r == metadata_struct(*s),
    {
        let n = chars_of(s.name.as_str());
        let suffix = chars_of("Metadata");
        str_eq(s.name.as_str(), "Metadata") || str_eq(s.name.as_str(), "TokenMetadata")
            || crate::text::ends_with_exec(n.as_slice(), suffix.as_slice()) || any_attr_contains(
            &s.metadata.attributes,
            "metaplex",
        )
    }

    fn is_metaplex_creator(&self, s: &StructDefinition) -> (r: bool)
        ensures
            r == creator_struct(*s),
    {
        str_eq(s.name.as_str(), "Creator") || any_attr_contains_both(
            &s.metadata.attributes,
            "metaplex",
            "creator",
        )
    }

    fn is_metaplex_collection(&self, s: &StructDefinition) -> (r: bool)
        ensures
            r == collection_struct(*s),
    {
        str_eq(s.name.as_str(), "Collection") || any_attr_contains_both(
            &s.metadata.attributes,
            "metaplex",
            "collection",
        )
    }

    fn warn_missing(&self, s: &StructDefinition, f: &str, result: &mut ValidationResult)
        ensures
            final(result)@ == (ResultView {
                errors: old(result)@.errors,
                warnings: old(result)@.warnings + (if field_named(s.fields@, f@, 0) is None {
                    seq![missing_field_warning(s.name@, f@)]
                } else {
                    Seq::empty()
                }),
            }),
    {
        match find_field(&s.fields, f) {
            Some(_) => {
                assert(old(result)@.warnings + Seq::<FindingView>::empty() =~= old(
                    result,
                )@.warnings);
            },
            None => {
                let mut m = to_string("Missing recommended field '");
                m.append(f);
                m.append("'");
                let mut g = to_string("Add '");
                g.append(f);
                g.append(": String' field");
                result.add_warning(s.name.clone(), m, Some(g));
                assert(old(result)@.warnings.push(missing_field_warning(s.name@, f@)) =~= old(
                    result,
                )@.warnings + seq![missing_field_warning(s.name@, f@)]);
            },
        }
    }

    fn validate_metadata_struct(&self, s: &StructDefinition) -> (r: ValidationResult)
        ensures
            r@ == metadata_findings(*s),
    {
        let mut result = ValidationResult::new();
        self.warn_missing(s, "name", &mut result);
        self.warn_missing(s, "symbol", &mut result);
        self.warn_missing(s, "uri", &mut result);
        assert(result@.warnings =~= missing_metadata_warnings(*s));
        assert(result@.errors =~= Seq::<FindingView>::empty());
        let ghost missing = result@.warnings;
        let mut per_field = ValidationResult::new();
        let mut i: usize = 0;
        while i < s.fields.len()
            invariant
                i <= s.fields@.len(),
                per_field@ == metadata_fields_findings(s.name@, s.fields@.subrange(0, i as int)),
            decreases s.fields@.len() - i,
        {
            assert(s.fields@.subrange(0, i + 1).drop_last() =~= s.fields@.subrange(0, i as int));
            per_field.merge(self.validate_metadata_field(&s.name, &s.fields[i]));
            i = i + 1;
        }
        assert(s.fields@.subrange(0, s.fields@.len() as int) =~= s.fields@);
        let ghost pf = per_field@;
        result.merge(per_field);
        match find_field(&s.fields, "seller_fee_basis_points") {
            Some(k) => {
                if !primitive_is(&s.fields[k].type_info, "u16") {
                    let loc = dotted(&s.name, "seller_fee_basis_points");
                    proof {
                        reveal_strlit(".");
                        reveal_strlit("seller_fee_basis_points");
                        reveal_strlit(".seller_fee_basis_points");
                        assert(loc@ =~= s.name@ + ".seller_fee_basis_points"@);
                    }
                    result.add_error(
                        loc,
                        to_string("seller_fee_basis_points must be u16"),
                        Some(to_string("Change type to u16")),
                    );
                }
            },
            None => {},
        }
        match find_field(&s.fields, "creators") {
            Some(k) => {
                self.validate_creators_field(&s.name, &s.fields[k], &mut result);
            },
            None => {},
        }
        proof {
            let m = metadata_findings(*s);
            assert(result@.errors =~= m.errors);
            assert(result@.warnings =~= m.warnings);
        }
        result
    }

    fn text_field(
        &self,
        struct_name: &String,
        f: &FieldDefinition,
        label: &str,
        limit: usize,
        runtime: &str,
    ) -> (r: ValidationResult)
        ensures
            r@ == text_field_findings(struct_name@, *f, label@, limit as nat, runtime@),
    {
        let mut result = ValidationResult::new();
        let loc = dotted(struct_name, f.name.as_str());
        if !primitive_is(&f.type_info, "String") {
            let mut m = f.name.clone();
            m.append(" field must be String type");
            result.add_error(loc.clone(), m, None);
        }
        let mut w = to_string("Metaplex limits ");
        w.append(label);
        w.append(" to ");
        let n = usize_to_string(limit);
        w.append(n.as_str());
        w.append(" characters");
        let mut g = to_string("Ensure ");
        g.append(runtime);
        g.append(" length is validated at runtime");
        result.add_warning(loc, w, Some(g));
        proof {
            let t = text_field_findings(struct_name@, *f, label@, limit as nat, runtime@);
            assert(result@.errors =~= t.errors);
            assert(result@.warnings =~= t.warnings);
        }
        result
    }

    fn validate_metadata_field(&self, struct_name: &String, f: &FieldDefinition) -> (r:
        ValidationResult)
        ensures
            r@ == metadata_field_findings(struct_name@, *f),
    {
        if str_eq(f.name.as_str(), "name") {
            self.text_field(struct_name, f, "name", constraints::MAX_NAME_LENGTH, "name")
        } else if str_eq(f.name.as_str(), "symbol") {
            self.text_field(struct_name, f, "symbol", constraints::MAX_SYMBOL_LENGTH, "symbol")
        } else if str_eq(f.name.as_str(), "uri") {
            self.text_field(struct_name, f, "URI", constraints::MAX_URI_LENGTH, "URI")
        } else {
            ValidationResult::new()
        }
    }

    fn validate_creators_field(
        &self,
        struct_name: &String,
        f: &FieldDefinition,
        result: &mut ValidationResult,
    )
        ensures
            final(result)@ == (ResultView {
                errors: old(result)@.errors,
                warnings: old(result)@.warnings + creators_warnings(struct_name@, *f),
            }),
    {
        let loc = dotted(struct_name, "creators");
        proof {
            reveal_strlit(".");
            reveal_strlit("creators");
            reveal_strlit(".creators");
            assert(loc@ =~= struct_name@ + ".creators"@);
        }
        let ghost w0 = result@.warnings;
        let inner: Option<&TypeInfo> = match &f.type_info {
            TypeInfo::Array(inner) => Some(&**inner),
            TypeInfo::Option(inner) => Some(&**inner),
            _ => None,
        };
        match inner {
            Some(inner) => {
                match inner {
                    TypeInfo::Array(elem) => {
                        let is_creator = match &**elem {
                            TypeInfo::UserDefined(n) => str_eq(n.as_str(), "Creator"),
                            _ => false,
                        };
                        if !is_creator {
                            result.add_warning(
                                loc.clone(),
                                to_string("creators should be Vec<Creator> or Option<Vec<Creator>>"),
                                None,
                            );
                        }
                    },
                    _ => {},
                }
            },
            None => {
                let is_named_creator = match &f.type_info {
                    TypeInfo::UserDefined(n) => {
                        let nc = chars_of(n.as_str());
                        let cc = chars_of("Creator");
                        contains_exec(nc.as_slice(), cc.as_slice())
                    },
                    _ => false,
                };
                if is_named_creator {
                    result.add_warning(
                        loc.clone(),
                        to_string("creators is typically a Vec<Creator>"),
                        Some(to_string("Consider using Vec<Creator> instead")),
                    );
                } else {
                    result.add_warning(
                        loc.clone(),
                        to_string("Unexpected type for creators field"),
                        Some(to_string("Use Vec<Creator> or Option<Vec<Creator>>")),
                    );
                }
            },
        }
        let mut w = to_string("Metaplex limits to ");
        let n = usize_to_string(constraints::MAX_CREATORS);
        w.append(n.as_str());
        w.append(" creators");
        result.add_warning(loc, w, Some(to_string("Validate creator count at runtime")));
        assert(result@.warnings =~= w0 + creators_warnings(struct_name@, *f));
    }

    fn creator_field(
        &self,
        s: &StructDefinition,
        f: &str,
        ty: &str,
        result: &mut ValidationResult,
    )
        ensures
            final(result)@ == (ResultView {
                errors: old(result)@.errors + creator_field_errors(*s, f@, ty@),
                warnings: old(result)@.warnings,
            }),
    {
        let ghost e0 = result@.errors;
        match find_field(&s.fields, f) {
            Some(k) => {
                if !primitive_is(&s.fields[k].type_info, ty) {
                    let mut m = to_string(f);
                    m.append(" must be ");
                    m.append(ty);
                    m.append(" type");
                    result.add_error(dotted(&s.name, f), m, None);
                }
            },
            None => {
                let mut m = to_string("Creator struct missing required field '");
                m.append(f);
                m.append("'");
                let mut g = to_string("Add '");
                g.append(f);
                g.append(": ");
                g.append(ty);
                g.append("' field");
                result.add_error(s.name.clone(), m, Some(g));
            },
        }
        assert(result@.errors =~= e0 + creator_field_errors(*s, f@, ty@));
    }

    fn validate_creator_struct(&self, s: &StructDefinition) -> (r: ValidationResult)
        ensures
            r@ == creator_findings(*s),
    {
        let mut result = ValidationResult::new();
        self.creator_field(s, "address", "PublicKey", &mut result);
        self.creator_field(s, "verified", "bool", &mut result);
        self.creator_field(s, "share", "u8", &mut result);
        match find_field(&s.fields, "share") {
            Some(_) => {
                let loc = dotted(&s.name, "share");
                proof {
                    reveal_strlit(".");
                    reveal_strlit("share");
                    reveal_strlit(".share");
                    assert(loc@ =~= s.name@ + ".share"@);
                }
                result.add_warning(
                    loc,
                    to_string("Creator shares must sum to 100 across all creators"),
                    Some(to_string("Validate share totals at runtime")),
                );
            },
            None => {},
        }
        proof {
            let c = creator_findings(*s);
            assert(result@.errors =~= c.errors);
            assert(result@.warnings =~= c.warnings);
        }
        result
    }

    fn validate_collection_struct(&self, s: &StructDefinition) -> (r: ValidationResult)
        ensures
            r@ == collection_findings(*s),
    {
        let mut result = ValidationResult::new();
        match find_field(&s.fields, "key") {
            Some(_) => {},
            None => {
                result.add_error(
                    s.name.clone(),
                    to_string("Collection struct missing required field 'key'"),
                    Some(to_string("Add 'key: PublicKey' field")),
                );
            },
        }
        match find_field(&s.fields, "verified") {
            Some(_) => {},
            None => {
                result.add_error(
                    s.name.clone(),
                    to_string("Collection struct missing required field 'verified'"),
                    Some(to_string("Add 'verified: bool' field")),
                );
            },
        }
        proof {
            let c = collection_findings(*s);
            assert(result@.errors =~= c.errors);
            assert(result@.warnings =~= c.warnings);
        }
        result
    }
}

/// A schema with no metadata, creator or collection struct has no findings.
pub proof fn law_plain_schema_has_no_findings(defs: Seq<TypeDefinition>)
    requires
        forall|i: int|
            0 <= i < defs.len() ==> match #[trigger] defs[i] {
                TypeDefinition::Struct(s) => !metadata_struct(s) && !creator_struct(s)
                    && !collection_struct(s),
                _ => true,
            },
    ensures
        schema_findings(defs) == no_findings(),
    decreases defs.len(),
{
    if defs.len() > 0 {
        assert(defs[defs.len() - 1] == defs.last());
        law_plain_schema_has_no_findings(defs.drop_last());
        let a = schema_findings(defs.drop_last());
        assert(merged(a, no_findings()).errors =~= a.errors);
        assert(merged(a, no_findings()).warnings =~= a.warnings);
    } else {
        assert(no_findings().errors =~= Seq::<FindingView>::empty());
    }
}

proof fn lemma_field_error_kept(sn: Seq<char>, fs: Seq<FieldDefinition>, k: int, e: FindingView)
    requires
        0 <= k < fs.len(),
        metadata_field_findings(sn, fs[k]).errors.contains(e),
    ensures
        metadata_fields_findings(sn, fs).errors.contains(e),
    decreases fs.len(),
{
    let prev = metadata_fields_findings(sn, fs.drop_last()).errors;
    let last = metadata_field_findings(sn, fs.last()).errors;
    if k == fs.len() - 1 {
        let p = choose|p: int| 0 <= p < last.len() && last[p] == e;
        assert((prev + last)[prev.len() + p] == e);
    } else {
        assert(fs.drop_last()[k] == fs[k]);
        lemma_field_error_kept(sn, fs.drop_last(), k, e);
        let p = choose|p: int| 0 <= p < prev.len() && prev[p] == e;
        assert((prev + last)[p] == e);
    }
}

proof fn lemma_definition_error_kept(defs: Seq<TypeDefinition>, i: int, e: FindingView)
    requires
        0 <= i < defs.len(),
        definition_findings(defs[i]).errors.contains(e),
    ensures
        schema_findings(defs).errors.contains(e),
    decreases defs.len(),
{
    let prev = schema_findings(defs.drop_last()).errors;
    let last = definition_findings(defs.last()).errors;
    if i == defs.len() - 1 {
        let p = choose|p: int| 0 <= p < last.len() && last[p] == e;
        assert((prev + last)[prev.len() + p] == e);
    } else {
        assert(defs.drop_last()[i] == defs[i]);
        lemma_definition_error_kept(defs.drop_last(), i, e);
        let p = choose|p: int| 0 <= p < prev.len() && prev[p] == e;
        assert((prev + last)[p] == e);
    }
}

/// In a metadata struct, each of the fields `name`, `symbol` and `uri`
/// whose type is not `String` is reported as an error at
/// `<Struct>.<field>`: "`<field>` field must be String type".
pub proof fn law_text_fields_must_be_strings(defs: Seq<TypeDefinition>, i: int, k: int)
    requires
        0 <= i < defs.len(),
        defs[i] is Struct,
        metadata_struct(defs[i]->Struct_0),
        0 <= k < defs[i]->Struct_0.fields@.len(),
        defs[i]->Struct_0.fields@[k].name@ == "name"@ || defs[i]->Struct_0.fields@[k].name@
            == "symbol"@ || defs[i]->Struct_0.fields@[k].name@ == "uri"@,
        !is_primitive(defs[i]->Struct_0.fields@[k].type_info, "String"@),
    ensures
        ({
            let s = defs[i]->Struct_0;
            let f = s.fields@[k];
            schema_findings(defs).errors.contains(
                error_at(s.name@ + "."@ + f.name@, f.name@ + " field must be String type"@, None),
            )
        }),
{
    reveal_strlit("name");
    reveal_strlit("symbol");
    reveal_strlit("uri");
    let s = defs[i]->Struct_0;
    let f = s.fields@[k];
    let e = error_at(s.name@ + "."@ + f.name@, f.name@ + " field must be String type"@, None);
    assert(metadata_field_findings(s.name@, f).errors[0] == e);
    lemma_field_error_kept(s.name@, s.fields@, k, e);
    let pf = metadata_fields_findings(s.name@, s.fields@).errors;
    let p = choose|p: int| 0 <= p < pf.len() && pf[p] == e;
    assert(metadata_findings(s).errors[p] == e);
    assert(definition_findings(defs[i]).errors[p] == e);
    lemma_definition_error_kept(defs, i, e);
}

proof fn lemma_definition_warning_kept(defs: Seq<TypeDefinition>, i: int, e: FindingView)
    requires
        0 <= i < defs.len(),
        definition_findings(defs[i]).warnings.contains(e),
    ensures
        schema_findings(defs).warnings.contains(e),
    decreases defs.len(),
{
    let prev = schema_findings(defs.drop_last()).warnings;
    let last = definition_findings(defs.last()).warnings;
    if i == defs.len() - 1 {
        let p = choose|p: int| 0 <= p < last.len() && last[p] == e;
        assert((prev + last)[prev.len() + p] == e);
    } else {
        assert(defs.drop_last()[i] == defs[i]);
        lemma_definition_warning_kept(defs.drop_last(), i, e);
        let p = choose|p: int| 0 <= p < prev.len() && prev[p] == e;
        assert((prev + last)[p] == e);
    }
}

/// In a metadata struct, a `seller_fee_basis_points` field that is not a
/// `u16` is an error.
pub proof fn law_fee_must_be_u16(defs: Seq<TypeDefinition>, i: int)
    requires
        0 <= i < defs.len(),
        defs[i] is Struct,
        metadata_struct(defs[i]->Struct_0),
        field_named(defs[i]->Struct_0.fields@, "seller_fee_basis_points"@, 0) matches Some(f)
            && !is_primitive(f.type_info, "u16"@),
    ensures
        schema_findings(defs).errors.contains(
            error_at(
                defs[i]->Struct_0.name@ + ".seller_fee_basis_points"@,
                "seller_fee_basis_points must be u16"@,
                Some("Change type to u16"@),
            ),
        ),
{
    let s = defs[i]->Struct_0;
    let e = error_at(
        s.name@ + ".seller_fee_basis_points"@,
        "seller_fee_basis_points must be u16"@,
        Some("Change type to u16"@),
    );
    let pf = metadata_fields_findings(s.name@, s.fields@).errors;
    assert(metadata_findings(s).errors[pf.len() as int] == e);
    lemma_definition_error_kept(defs, i, e);
}

/// A metadata struct without a `name`, `symbol` or `uri` field is warned
/// about each one missing.
pub proof fn law_missing_text_fields_warned(defs: Seq<TypeDefinition>, i: int, f: Seq<char>)
    requires
        0 <= i < defs.len(),
        defs[i] is Struct,
        metadata_struct(defs[i]->Struct_0),
        f == "name"@ || f == "symbol"@ || f == "uri"@,
        field_named(defs[i]->Struct_0.fields@, f, 0) is None,
    ensures
        schema_findings(defs).warnings.contains(missing_field_warning(defs[i]->Struct_0.name@, f)),
{
    let s = defs[i]->Struct_0;
    let w = missing_metadata_warnings(s);
    let e = missing_field_warning(s.name@, f);
    let w1 = if field_named(s.fields@, "name"@, 0) is None {
        seq![missing_field_warning(s.name@, "name"@)]
    } else {
        Seq::empty()
    };
    let w2 = if field_named(s.fields@, "symbol"@, 0) is None {
        seq![missing_field_warning(s.name@, "symbol"@)]
    } else {
        Seq::empty()
    };
    let p = if f == "name"@ {
        0
    } else if f == "symbol"@ {
        w1.len() as int
    } else {
        (w1.len() + w2.len()) as int
    };
    assert(w[p] == e);
    assert(metadata_findings(s).warnings[p] == e);
    lemma_definition_warning_kept(defs, i, e);
}

/// In a creator struct (one not checked as metadata), each required field
/// (`address: PublicKey`, `verified: bool`, `share: u8`) is an error when
/// missing or of another type.
pub proof fn law_creator_fields_required(defs: Seq<TypeDefinition>, i: int, f: Seq<char>, ty: Seq<char>)
    requires
        0 <= i < defs.len(),
        defs[i] is Struct,
        !metadata_struct(defs[i]->Struct_0),
        creator_struct(defs[i]->Struct_0),
        (f == "address"@ && ty == "PublicKey"@) || (f == "verified"@ && ty == "bool"@) || (f
            == "share"@ && ty == "u8"@),
    ensures
        ({
            let s = defs[i]->Struct_0;
            match field_named(s.fields@, f, 0) {
                Some(fd) => !is_primitive(fd.type_info, ty) ==> schema_findings(defs).errors.contains(
                    error_at(s.name@ + "."@ + f, f + " must be "@ + ty + " type"@, None),
                ),
                None => schema_findings(defs).errors.contains(
                    error_at(
                        s.name@,
                        "Creator struct missing required field '"@ + f + "'"@,
                        Some("Add '"@ + f + ": "@ + ty + "' field"@),
                    ),
                ),
            }
        }),
{
    reveal_strlit("address");
    reveal_strlit("verified");
    reveal_strlit("share");
    let s = defs[i]->Struct_0;
    let a = creator_field_errors(s, "address"@, "PublicKey"@);
    let v = creator_field_errors(s, "verified"@, "bool"@);
    let own = creator_field_errors(s, f, ty);
    if own.len() > 0 {
        let p = if f == "address"@ {
            0
        } else if f == "verified"@ {
            a.len() as int
        } else {
            (a.len() + v.len()) as int
        };
        assert(creator_findings(s).errors[p] == own[0]);
        lemma_definition_error_kept(defs, i, own[0]);
    }
}

/// In a collection struct (one checked neither as metadata nor as a
/// creator), a missing `key` or `verified` field is an error.
pub proof fn law_collection_fields_required(defs: Seq<TypeDefinition>, i: int, f: Seq<char>)
    requires
        0 <= i < defs.len(),
        defs[i] is Struct,
        !metadata_struct(defs[i]->Struct_0),
        !creator_struct(defs[i]->Struct_0),
        collection_struct(defs[i]->Struct_0),
        f == "key"@ || f == "verified"@,
        field_named(defs[i]->Struct_0.fields@, f, 0) is None,
    ensures
        schema_findings(defs).errors.contains(
            error_at(
                defs[i]->Struct_0.name@,
                "Collection struct missing required field '"@ + f + "'"@,
                Some("Add '"@ + f + ": "@ + (if f == "key"@ {
                    "PublicKey"@
                } else {
                    "bool"@
                }) + "' field"@),
            ),
        ),
{
    reveal_strlit("key");
    reveal_strlit("verified");
    reveal_strlit("Collection struct missing required field 'key'");
    reveal_strlit("Collection struct missing required field 'verified'");
    reveal_strlit("Collection struct missing required field '");
    reveal_strlit("'");
    reveal_strlit("Add 'key: PublicKey' field");
    reveal_strlit("Add 'verified: bool' field");
    reveal_strlit("Add '");
    reveal_strlit(": ");
    reveal_strlit("PublicKey");
    reveal_strlit("bool");
    reveal_strlit("' field");
    let s = defs[i]->Struct_0;
    let e = error_at(
        s.name@,
        "Collection struct missing required field '"@ + f + "'"@,
        Some("Add '"@ + f + ": "@ + (if f == "key"@ {
            "PublicKey"@
        } else {
            "bool"@
        }) + "' field"@),
    );
    let c = collection_findings(s).errors;
    if f == "key"@ {
        assert("Collection struct missing required field 'key'"@ =~= "Collection struct missing required field '"@
            + f + "'"@);
        assert("Add 'key: PublicKey' field"@ =~= "Add '"@ + f + ": "@ + "PublicKey"@ + "' field"@);
        assert(c[0] == e);
    } else {
        assert("Collection struct missing required field 'verified'"@
            =~= "Collection struct missing required field '"@ + f + "'"@);
        assert("Add 'verified: bool' field"@ =~= "Add '"@ + f + ": "@ + "bool"@ + "' field"@);
        assert(c[c.len() - 1] == e);
    }
    lemma_definition_error_kept(defs, i, e);
}

/// The standard Metaplex types written as a schema.
pub fn generate_standard_types() -> (r: String)
    ensures
        r@ == standard_types_text(),
{
    to_string(STANDARD_TYPES)
}

/// The schema text of the standard Metaplex types.
pub open spec fn standard_types_text() -> Seq<char> {
    STANDARD_TYPES@
}

/// The schema of the standard Metaplex types.
pub const STANDARD_TYPES: &'static str = "// Standard Metaplex Token Metadata types for LUMOS
// Generated by LUMOS - compatible with mpl-token-metadata

#[solana]
#[metaplex(creator)]
struct Creator {
    address: PublicKey,
    verified: bool,
    share: u8,
}

#[solana]
#[metaplex(collection)]
struct Collection {
    verified: bool,
    key: PublicKey,
}

#[solana]
#[metaplex(uses)]
struct Uses {
    use_method: u8,  // 0 = Burn, 1 = Multiple, 2 = Single
    remaining: u64,
    total: u64,
}

#[solana]
#[metaplex(metadata)]
struct TokenMetadata {
    name: String,           // Max 32 chars
    symbol: String,         // Max 10 chars
    uri: String,            // Max 200 chars
    seller_fee_basis_points: u16,  // 0-10000 (100% = 10000)
    creators: Option<[Creator]>,   // Max 5 creators
}

// Token standards as enum
#[solana]
enum TokenStandard {
    NonFungible,
    FungibleAsset,
    Fungible,
    NonFungibleEdition,
    ProgrammableNonFungible,
    ProgrammableNonFungibleEdition,
}
";

} // verus!
