//! Reading schema files into their syntax tree.
//!
//! A schema is written in Rust syntax. The Rust-syntax reader hands over
//! what it read as a `SourceItem` tree (names, attribute token text, type
//! shapes); this module turns it into the schema's syntax tree, checking
//! attributes, types, array sizes and versions. JavaScript-style imports,
//! which are not Rust syntax, are taken out of the text first.

use vstd::prelude::*;
use crate::ast::{
    has_attr, Attribute, AttributeValue, EnumDef, EnumVariant, FieldDef, Import, Item, LumosFile,
    ModuleDecl, PathSegment, StructDef, TypeAlias, TypeSpec, UsePath,
};
use crate::error::LumosError;
use syn::{
    Attribute as SynAttribute, Item as SynItem, PathSegment as SynPathSegment,
    Variant as SynVariant, Visibility as SynVisibility,
};
use crate::text::{
    chars_is, chars_of, copy_string, dec, parse_u64, parse_u64_exec, slice_range, split_exec,
    split_on, string_from_chars, str_eq, to_string, trim, trim_exec, usize_to_string, views,
};

verus! {

// ---------------------------------------------------------------------
// What the Rust-syntax reader hands over
// ---------------------------------------------------------------------

/// The value of a `#[name = value]` attribute.
#[derive(Debug)]
pub enum SourceValue {
    /// A string literal, unquoted.
    Str(String),
    /// Another literal.
    OtherLiteral,
    /// An expression that is no literal.
    NotLiteral,
}

/// An attribute.
#[derive(Debug)]
pub enum SourceMeta {
    /// `#[path]`, with the name when the path is one identifier.
    Path(Option<String>),
    /// `#[path(tokens)]`.
    List { name: Option<String>, tokens: String },
    /// `#[path = value]`.
    NameValue { name: Option<String>, value: SourceValue },
}

/// The length of an array type `[T; N]`.
#[derive(Debug)]
pub enum SourceLen {
    /// An integer literal, read as a `usize` or the reason it is not one.
    Int(Result<usize, String>),
    /// Another literal.
    OtherLiteral,
    /// An expression that is no literal.
    NotLiteral,
}

/// A type.
#[derive(Debug)]
pub enum SourceType {
    /// A path type: the name of its last segment (if it has segments) and,
    /// where that segment has angle-bracketed arguments whose first is a
    /// type, that type.
    Path { last: Option<String>, first_arg: Option<Box<SourceType>> },
    /// `[T; N]`.
    Array { elem: Box<SourceType>, len: SourceLen },
    /// `[T]`.
    Slice(Box<SourceType>),
    /// Any other type, with its debug text.
    Other(String),
}

/// A field.
#[derive(Debug)]
pub struct SourceField {
    /// Field name (none for tuple fields).
    pub name: Option<String>,
    /// Attributes.
    pub attrs: Vec<SourceMeta>,
    /// Field type.
    pub ty: SourceType,
}

/// The fields of a struct or variant.
#[derive(Debug)]
pub enum SourceFields {
    /// `{ a: T }`
    Named(Vec<SourceField>),
    /// `(T, U)`
    Unnamed(Vec<SourceField>),
    /// No fields.
    Unit,
}

/// An enum variant.
#[derive(Debug)]
pub struct SourceVariant {
    /// Variant name.
    pub name: String,
    /// Fields.
    pub fields: SourceFields,
}

/// A top-level item; `public` tells whether it is public (items are
/// public unless their visibility is restricted, as in `pub(crate)`).
#[derive(Debug)]
pub enum SourceItem {
    /// A struct.
    Struct { name: String, attrs: Vec<SourceMeta>, fields: SourceFields, public: bool },
    /// An enum.
    Enum { name: String, attrs: Vec<SourceMeta>, variants: Vec<SourceVariant>, public: bool },
    /// A type alias.
    Type { name: String, ty: SourceType, public: bool },
    /// A module declaration; `inline` when it has a body in braces.
    Mod { name: String, public: bool, inline: bool },
    /// A `use` statement: the segments of a plain path (`a::b::C`), or
    /// `None` for another form (a group, a glob or a rename).
    Use(Option<Vec<String>>),
    /// Anything else (functions, impls, ...), which is ignored.
    Other,
}

// ---------------------------------------------------------------------
// Views
// ---------------------------------------------------------------------

/// An attribute value with its texts as characters.
pub enum ValueView {
    String(Seq<char>),
    Integer(u64),
    Bool(bool),
    List(Seq<Seq<char>>),
}

/// The view of an attribute value.
pub open spec fn value_view(v: AttributeValue) -> ValueView {
    match v {
        AttributeValue::String(s) => ValueView::String(s@),
        AttributeValue::Integer(n) => ValueView::Integer(n),
        AttributeValue::Bool(b) => ValueView::Bool(b),
        AttributeValue::List(l) => ValueView::List(views(l@)),
    }
}

/// An attribute with its texts as characters.
pub struct AttrView {
    pub name: Seq<char>,
    pub value: Option<ValueView>,
}

/// The view of an attribute.
pub open spec fn attr_view(a: Attribute) -> AttrView {
    AttrView {
        name: a.name@,
        value: match a.value {
            Some(v) => Some(value_view(v)),
            None => None,
        },
    }
}

/// The views of attributes.
pub open spec fn attr_views(s: Seq<Attribute>) -> Seq<AttrView> {
    s.map_values(|a: Attribute| attr_view(a))
}

/// Whether `r` is the schema-parse error with message `m`.
pub open spec fn parse_error(r: LumosError, m: Seq<char>) -> bool {
    match r {
        LumosError::SchemaParse(x) => x@ == m,
        _ => false,
    }
}

// ---------------------------------------------------------------------
// Attributes
// ---------------------------------------------------------------------

/// The value written inside `#[name(...)]`: an unsigned integer, `true` or
/// `false`, a string literal without its quotes, or else the trimmed text.
pub open spec fn attribute_value_of(tokens: Seq<char>) -> ValueView {
    let t = trim(tokens);
    if parse_u64(t) is Some {
        ValueView::Integer(parse_u64(t)->0)
    } else if t == "true"@ {
        ValueView::Bool(true)
    } else if t == "false"@ {
        ValueView::Bool(false)
    } else if t.len() > 0 && t[0] == '"' && t.last() == '"' {
        ValueView::String(t.subrange(1, t.len() - 1))
    } else {
        ValueView::String(t)
    }
}

/// Reads the value written inside `#[name(...)]`. (A lone `"` is left out:
/// no token text reads so.)
pub fn parse_attribute_value(tokens: &str) -> (r: AttributeValue)
    requires
        trim(tokens@) != seq!['"'],
    ensures
        value_view(r) == attribute_value_of(tokens@),
{
    let c = chars_of(tokens);
    let t = trim_exec(c.as_slice());
    match parse_u64_exec(t.as_slice()) {
        Some(n) => {
            return AttributeValue::Integer(n);
        },
        None => {},
    }
    if chars_is(t.as_slice(), "true") {
        return AttributeValue::Bool(true);
    }
    if chars_is(t.as_slice(), "false") {
        return AttributeValue::Bool(false);
    }
    if t.len() > 0 && t[0] == '"' && t[t.len() - 1] == '"' {
        if t.len() == 1 {
            assert(t@ =~= seq!['"']);
        }
        let inner = slice_range(t.as_slice(), 1, t.len() - 1);
        return AttributeValue::String(string_from_chars(inner.as_slice()));
    }
    AttributeValue::String(string_from_chars(t.as_slice()))
}

/// The trimmed non-empty pieces of a list, in order.
pub open spec fn nonempty_trimmed(parts: Seq<Seq<char>>) -> Seq<Seq<char>>
    decreases parts.len(),
{
    if parts.len() == 0 {
        Seq::empty()
    } else {
        let rest = nonempty_trimmed(parts.drop_last());
        if trim(parts.last()).len() > 0 {
            rest.push(trim(parts.last()))
        } else {
            rest
        }
    }
}

/// The names of `#[derive(...)]`: the trimmed non-empty comma-separated
/// pieces; there must be one.
pub open spec fn derive_list_of(tokens: Seq<char>) -> Result<Seq<Seq<char>>, Seq<char>> {
    let names = nonempty_trimmed(split_on(trim(tokens), ','));
    if names.len() == 0 {
        Err("derive attribute must have at least one macro"@)
    } else {
        Ok(names)
    }
}

fn trimmed_pieces(parts: &Vec<Vec<char>>) -> (r: Vec<String>)
    ensures
        views(r@) == nonempty_trimmed(parts@.map_values(|p: Vec<char>| p@)),
{
    let ghost ps = parts@.map_values(|p: Vec<char>| p@);
    let mut r: Vec<String> = Vec::new();
    let mut i: usize = 0;
    while i < parts.len()
        invariant
            i <= parts@.len(),
            ps == parts@.map_values(|p: Vec<char>| p@),
            views(r@) == nonempty_trimmed(ps.subrange(0, i as int)),
        decreases parts@.len() - i,
    {
        assert(ps.subrange(0, i + 1).drop_last() =~= ps.subrange(0, i as int));
        assert(ps.subrange(0, i + 1).last() == parts@[i as int]@);
        let t = trim_exec(parts[i].as_slice());
        if t.len() > 0 {
            let ghost before = views(r@);
            r.push(string_from_chars(t.as_slice()));
            assert(views(r@) =~= before.push(t@));
        }
        i = i + 1;
    }
    assert(ps.subrange(0, ps.len() as int) =~= ps);
    r
}

/// Reads the names of `#[derive(...)]`.
pub fn parse_derive_list(tokens: &str) -> (r: Result<AttributeValue, LumosError>)
    ensures
        match r {
            Ok(v) => derive_list_of(tokens@) matches Ok(names) && value_view(v) == ValueView::List(
                names,
            ),
            Err(e) => derive_list_of(tokens@) matches Err(m) && parse_error(e, m),
        },
{
    let c = chars_of(tokens);
    let t = trim_exec(c.as_slice());
    let parts = split_exec(t.as_slice(), ',');
    proof {
        assert(parts@.map_values(|p: Vec<char>| p@) =~= split_on(trim(tokens@), ','));
    }
    let names = trimmed_pieces(&parts);
    if names.len() == 0 {
        return Err(LumosError::SchemaParse(to_string("derive attribute must have at least one macro")));
    }
    Ok(AttributeValue::List(names))
}

/// What one attribute reads as: nothing for a path that is no single
/// name, the attribute, or the error.
pub open spec fn meta_of(m: SourceMeta) -> Result<Option<AttrView>, Seq<char>> {
    match m {
        SourceMeta::Path(n) => match n {
            Some(name) => Ok(Some(AttrView { name: name@, value: None })),
            None => Ok(None),
        },
        SourceMeta::List { name, tokens } => match name {
            None => Err("Invalid attribute"@),
            Some(n) => if n@ == "derive"@ {
                match derive_list_of(tokens@) {
                    Ok(names) => Ok(Some(AttrView { name: n@, value: Some(ValueView::List(names)) })),
                    Err(e) => Err(e),
                }
            } else {
                Ok(Some(AttrView { name: n@, value: Some(attribute_value_of(tokens@)) }))
            },
        },
        SourceMeta::NameValue { name, value } => match name {
            None => Err("Invalid attribute"@),
            Some(n) => match value {
                SourceValue::Str(s) => Ok(
                    Some(AttrView { name: n@, value: Some(ValueView::String(s@)) }),
                ),
                SourceValue::OtherLiteral => Err(
                    "Attribute '"@ + n@ + "' must have a string value"@,
                ),
                SourceValue::NotLiteral => Err("Attribute '"@ + n@ + "' must have a literal value"@),
            },
        },
    }
}

/// The attributes read from `ms` from position `i` on, or the first error.
pub open spec fn attrs_of(ms: Seq<SourceMeta>, i: int) -> Result<Seq<AttrView>, Seq<char>>
    decreases ms.len() - i,
{
    if i < 0 || i >= ms.len() {
        Ok(Seq::empty())
    } else {
        match meta_of(ms[i]) {
            Err(e) => Err(e),
            Ok(o) => match attrs_of(ms, i + 1) {
                Err(e) => Err(e),
                Ok(rest) => Ok(
                    match o {
                        Some(a) => seq![a] + rest,
                        None => rest,
                    },
                ),
            },
        }
    }
}

/// Whether the token text of every list attribute can be read.
pub open spec fn metas_readable(ms: Seq<SourceMeta>) -> bool {
    forall|i: int|
        0 <= i < ms.len() ==> match #[trigger] ms[i] {
            SourceMeta::List { tokens, .. } => trim(tokens@) != seq!['"'],
            _ => true,
        }
}

fn parse_meta(m: &SourceMeta) -> (r: Result<Option<Attribute>, LumosError>)
    requires
        match *m {
            SourceMeta::List { tokens, .. } => trim(tokens@) != seq!['"'],
            _ => true,
        },
    ensures
        match r {
            Ok(o) => meta_of(*m) matches Ok(v) && v == match o {
                Some(a) => Some(attr_view(a)),
                None => None,
            },
            Err(e) => meta_of(*m) matches Err(x) && parse_error(e, x),
        },
{
    match m {
        SourceMeta::Path(n) => match n {
            Some(name) => Ok(Some(Attribute { name: copy_string(name), value: None })),
            None => Ok(None),
        },
        SourceMeta::List { name, tokens } => match name {
            None => Err(LumosError::SchemaParse(to_string("Invalid attribute"))),
            Some(n) => {
                let value = if str_eq(n.as_str(), "derive") {
                    match parse_derive_list(tokens.as_str()) {
                        Ok(v) => v,
                        Err(e) => {
                            return Err(e);
                        },
                    }
                } else {
                    parse_attribute_value(tokens.as_str())
                };
                Ok(Some(Attribute { name: copy_string(n), value: Some(value) }))
            },
        },
        SourceMeta::NameValue { name, value } => match name {
            None => Err(LumosError::SchemaParse(to_string("Invalid attribute"))),
            Some(n) => match value {
                SourceValue::Str(s) => Ok(
                    Some(
                        Attribute {
                            name: copy_string(n),
                            value: Some(AttributeValue::String(copy_string(s))),
                        },
                    ),
                ),
                SourceValue::OtherLiteral => {
                    let mut msg = to_string("Attribute '");
                    msg.append(n.as_str());
                    msg.append("' must have a string value");
                    Err(LumosError::SchemaParse(msg))
                },
                SourceValue::NotLiteral => {
                    let mut msg = to_string("Attribute '");
                    msg.append(n.as_str());
                    msg.append("' must have a literal value");
                    Err(LumosError::SchemaParse(msg))
                },
            },
        },
    }
}

/// Reads a list of attributes; the first unreadable one fails the list.
pub fn parse_attributes(metas: &Vec<SourceMeta>) -> (r: Result<Vec<Attribute>, LumosError>)
    requires
        metas_readable(metas@),
    ensures
        match r {
            Ok(v) => attrs_of(metas@, 0) == Ok::<Seq<AttrView>, Seq<char>>(attr_views(v@)),
            Err(e) => attrs_of(metas@, 0) matches Err(x) && parse_error(e, x),
        },
{
    let mut out: Vec<Attribute> = Vec::new();
    let mut i: usize = 0;
    while i < metas.len()
        invariant
            metas_readable(metas@),
            i <= metas@.len(),
            attrs_of(metas@, 0) == (match attrs_of(metas@, i as int) {
                Ok(rest) => Ok::<Seq<AttrView>, Seq<char>>(attr_views(out@) + rest),
                Err(e) => Err(e),
            }),
        decreases metas@.len() - i,
    {
        let ghost before = out@;
        match parse_meta(&metas[i]) {
            Err(e) => {
                return Err(e);
            },
            Ok(o) => {
                match o {
                    Some(a) => {
                        out.push(a);
                        proof {
                            assert(attr_views(out@) =~= attr_views(before).push(attr_view(a)));
                            match attrs_of(metas@, i + 1) {
                                Ok(rest) => {
                                    assert(attr_views(before) + (seq![attr_view(a)] + rest)
                                        =~= attr_views(out@) + rest);
                                },
                                Err(_) => {},
                            }
                        }
                    },
                    None => {},
                }
            },
        }
        i = i + 1;
    }
    proof {
        assert(attr_views(out@) + Seq::<AttrView>::empty() =~= attr_views(out@));
    }
    Ok(out)
}

// ---------------------------------------------------------------------
// Versions
// ---------------------------------------------------------------------

/// What `semver::Version::parse` gives for a text: the version written back
/// (`Display`), or the message of the error.
pub uninterp spec fn semver_version_text(s: Seq<char>) -> Result<Seq<char>, Seq<char>>;

/// semver `Version::parse`, with the version written back by its `Display`
/// and an error turned into its message; the contract names the outcome.
#[verifier::external_body]
fn parse_semantic_version(s: &str) -> (r: Result<String, String>)
    ensures
        match r {
            Ok(v) => semver_version_text(s@) == Ok::<Seq<char>, Seq<char>>(v@),
            Err(e) => semver_version_text(s@) == Err::<Seq<char>, Seq<char>>(e@),
        },
{
    match semver::Version::parse(s) {
        Ok(v) => Ok(v.to_string()),
        Err(e) => Err(e.to_string()),
    }
}

/// The first attribute named `n` from position `k` on.
pub open spec fn attr_named(attrs: Seq<AttrView>, n: Seq<char>, k: int) -> Option<AttrView>
    decreases attrs.len() - k,
{
    if k < 0 || k >= attrs.len() {
        None
    } else if attrs[k].name == n {
        Some(attrs[k])
    } else {
        attr_named(attrs, n, k + 1)
    }
}

/// What the `version` attribute gives: no version without one, the
/// normalized version for a valid string, and an error otherwise.
pub open spec fn version_of(attrs: Seq<AttrView>) -> Result<Option<Seq<char>>, Seq<char>> {
    match attr_named(attrs, "version"@, 0) {
        None => Ok(None),
        Some(a) => match a.value {
            Some(ValueView::String(s)) => match semver_version_text(s) {
                Ok(v) => Ok(Some(v)),
                Err(e) => Err(
                    "Invalid semantic version '"@ + s + "': "@ + e
                        + ". Expected format: MAJOR.MINOR.PATCH (e.g., \"1.0.0\")"@,
                ),
            },
            Some(_) => Err(
                "Version attribute must be a string (e.g., #[version = \"1.0.0\"])"@,
            ),
            None => Err(
                "Version attribute must have a value (e.g., #[version = \"1.0.0\"])"@,
            ),
        },
    }
}

fn find_attr(attrs: &Vec<Attribute>, n: &str) -> (r: Option<usize>)
    ensures
        match r {
            Some(k) => k < attrs@.len() && attr_named(attr_views(attrs@), n@, 0) == Some(
                attr_view(attrs@[k as int]),
            ),
            None => attr_named(attr_views(attrs@), n@, 0) is None,
        },
{
    let ghost av = attr_views(attrs@);
    let mut k: usize = 0;
    while k < attrs.len()
        invariant
            av == attr_views(attrs@),
            k <= attrs@.len(),
            attr_named(av, n@, 0) == attr_named(av, n@, k as int),
        decreases attrs@.len() - k,
    {
        if str_eq(attrs[k].name.as_str(), n) {
            return Some(k);
        }
        k = k + 1;
    }
    None
}

/// Reads the `version` attribute: its semantic version, written back in
/// normal form.
pub fn extract_version_attribute(attributes: &Vec<Attribute>) -> (r: Result<
    Option<String>,
    LumosError,
>)
    ensures
        match r {
            Ok(v) => version_of(attr_views(attributes@)) == Ok::<Option<Seq<char>>, Seq<char>>(
                match v {
                    Some(s) => Some(s@),
                    None => None,
                },
            ),
            Err(e) => version_of(attr_views(attributes@)) matches Err(m) && parse_error(e, m),
        },
{
    match find_attr(attributes, "version") {
        None => Ok(None),
        Some(k) => match &attributes[k].value {
            Some(AttributeValue::String(s)) => match parse_semantic_version(s.as_str()) {
                Ok(v) => Ok(Some(v)),
                Err(e) => {
                    let mut m = to_string("Invalid semantic version '");
                    m.append(s.as_str());
                    m.append("': ");
                    m.append(e.as_str());
                    m.append(". Expected format: MAJOR.MINOR.PATCH (e.g., \"1.0.0\")");
                    Err(LumosError::SchemaParse(m))
                },
            },
            Some(_) => Err(
                LumosError::SchemaParse(
                    to_string("Version attribute must be a string (e.g., #[version = \"1.0.0\"])"),
                ),
            ),
            None => Err(
                LumosError::SchemaParse(
                    to_string("Version attribute must have a value (e.g., #[version = \"1.0.0\"])"),
                ),
            ),
        },
    }
}

// ---------------------------------------------------------------------
// Types
// ---------------------------------------------------------------------

/// The largest fixed array size accepted.
pub const MAX_ARRAY_SIZE: usize = 1024;

/// Checks that a fixed array size lies in `1..=1024`.
pub fn validate_array_size(size: usize) -> (r: Result<(), LumosError>)
    ensures
        r is Ok <==> (1 <= size && size <= MAX_ARRAY_SIZE),
        size == 0 ==> (r matches Err(e) && parse_error(e, "Array size must be greater than 0"@)),
        size > MAX_ARRAY_SIZE ==> (r matches Err(e) && parse_error(
            e,
            "Array size "@ + dec(size as nat)
                + " exceeds maximum of 1024 elements (consider using Vec for dynamic arrays)"@,
        )),
{
    if size == 0 {
        return Err(LumosError::SchemaParse(to_string("Array size must be greater than 0")));
    }
    if size > MAX_ARRAY_SIZE {
        let mut m = to_string("Array size ");
        let n = usize_to_string(size);
        m.append(n.as_str());
        m.append(" exceeds maximum of 1024 elements (consider using Vec for dynamic arrays)");
        return Err(LumosError::SchemaParse(m));
    }
    Ok(())
}

/// What an array length gives: its value or the error.
pub open spec fn array_size_of(len: SourceLen) -> Result<usize, Seq<char>> {
    match len {
        SourceLen::Int(Ok(n)) => Ok(n),
        SourceLen::Int(Err(e)) => Err("Invalid array size (must be valid usize): "@ + e@),
        SourceLen::OtherLiteral => Err("Array size must be an integer literal"@),
        SourceLen::NotLiteral => Err(
            "Array size must be a literal integer (const generics not yet supported)"@,
        ),
    }
}

/// Reads the length of a fixed array type.
pub fn parse_array_size(len: &SourceLen) -> (r: Result<usize, LumosError>)
    ensures
        match r {
            Ok(n) => array_size_of(*len) == Ok::<usize, Seq<char>>(n),
            Err(e) => array_size_of(*len) matches Err(m) && parse_error(e, m),
        },
{
    match len {
        SourceLen::Int(Ok(n)) => Ok(*n),
        SourceLen::Int(Err(e)) => {
            let mut m = to_string("Invalid array size (must be valid usize): ");
            m.append(e.as_str());
            Err(LumosError::SchemaParse(m))
        },
        SourceLen::OtherLiteral => Err(
            LumosError::SchemaParse(to_string("Array size must be an integer literal")),
        ),
        SourceLen::NotLiteral => Err(
            LumosError::SchemaParse(
                to_string("Array size must be a literal integer (const generics not yet supported)"),
            ),
        ),
    }
}

/// What a type reads as: its spec and whether it was written `Option<T>`,
/// or the error. A type named `Option` with a type argument is its argument
/// made optional; other paths are names; `[T; N]` is a fixed array whose
/// size must lie in `1..=1024`; `[T]` is a vector.
pub open spec fn type_of(t: SourceType) -> Result<(TypeSpec, bool), Seq<char>>
    decreases t,
{
    match t {
        SourceType::Path { last, first_arg } => match last {
            None => Err("Invalid type"@),
            Some(n) => if n@ == "Option"@ && first_arg is Some {
                match type_of(*first_arg->0) {
                    Ok(p) => Ok((p.0, true)),
                    Err(e) => Err(e),
                }
            } else {
                Ok((TypeSpec::Primitive(n), false))
            },
        },
        SourceType::Array { elem, len } => match type_of(*elem) {
            Err(e) => Err(e),
            Ok(p) => match array_size_of(len) {
                Err(e) => Err(e),
                Ok(size) => if size == 0 {
                    Err("Array size must be greater than 0"@)
                } else if size > MAX_ARRAY_SIZE {
                    Err(
                        "Array size "@ + dec(size as nat)
                            + " exceeds maximum of 1024 elements (consider using Vec for dynamic arrays)"@,
                    )
                } else {
                    Ok((TypeSpec::FixedArray { element: Box::new(p.0), size }, false))
                },
            },
        },
        SourceType::Slice(elem) => match type_of(*elem) {
            Err(e) => Err(e),
            Ok(p) => Ok((TypeSpec::Array(Box::new(p.0)), false)),
        },
        SourceType::Other(d) => Err("Unsupported type: "@ + d@),
    }
}

/// Whether `r` answers for `expected`.
pub open spec fn type_answer(
    r: Result<(TypeSpec, bool), LumosError>,
    expected: Result<(TypeSpec, bool), Seq<char>>,
) -> bool {
    match r {
        Ok(p) => expected matches Ok(q) && p == q,
        Err(e) => expected matches Err(m) && parse_error(e, m),
    }
}

/// Reads a type.
pub fn parse_type(ty: &SourceType) -> (r: Result<(TypeSpec, bool), LumosError>)
    ensures
        type_answer(r, type_of(*ty)),
    decreases ty,
{
    match ty {
        SourceType::Path { last, first_arg } => match last {
            None => Err(LumosError::SchemaParse(to_string("Invalid type"))),
            Some(n) => {
                if str_eq(n.as_str(), "Option") {
                    match first_arg {
                        Some(inner) => {
                            return match parse_type(inner) {
                                Ok(p) => Ok((p.0, true)),
                                Err(e) => Err(e),
                            };
                        },
                        None => {},
                    }
                }
                Ok((TypeSpec::Primitive(copy_string(n)), false))
            },
        },
        SourceType::Array { elem, len } => {
            let inner = match parse_type(elem) {
                Ok(p) => p.0,
                Err(e) => {
                    return Err(e);
                },
            };
            let size = match parse_array_size(len) {
                Ok(n) => n,
                Err(e) => {
                    return Err(e);
                },
            };
            match validate_array_size(size) {
                Ok(_) => {},
                Err(e) => {
                    return Err(e);
                },
            }
            Ok((TypeSpec::FixedArray { element: Box::new(inner), size }, false))
        },
        SourceType::Slice(elem) => match parse_type(elem) {
            Ok(p) => Ok((TypeSpec::Array(Box::new(p.0)), false)),
            Err(e) => Err(e),
        },
        SourceType::Other(d) => {
            let mut m = to_string("Unsupported type: ");
            m.append(d.as_str());
            Err(LumosError::SchemaParse(m))
        },
    }
}


// ---------------------------------------------------------------------
// Fields, variants and definitions
// ---------------------------------------------------------------------

/// A field with its texts as characters.
pub struct FieldView {
    pub name: Seq<char>,
    pub type_spec: TypeSpec,
    pub optional: bool,
    pub attributes: Seq<AttrView>,
}

/// The view of a field.
pub open spec fn field_view(f: FieldDef) -> FieldView {
    FieldView {
        name: f.name@,
        type_spec: f.type_spec,
        optional: f.optional,
        attributes: attr_views(f.attributes@),
    }
}

/// The views of fields.
pub open spec fn field_views(fs: Seq<FieldDef>) -> Seq<FieldView> {
    fs.map_values(|f: FieldDef| field_view(f))
}

/// What a field reads as.
pub open spec fn field_of(f: SourceField) -> Result<FieldView, Seq<char>> {
    match f.name {
        None => Err("Field must have a name"@),
        Some(n) => match attrs_of(f.attrs@, 0) {
            Err(e) => Err(e),
            Ok(a) => match type_of(f.ty) {
                Err(e) => Err(e),
                Ok(p) => Ok(FieldView { name: n@, type_spec: p.0, optional: p.1, attributes: a }),
            },
        },
    }
}

/// The fields read from `fs` from position `i` on, or the first error.
pub open spec fn fields_of(fs: Seq<SourceField>, i: int) -> Result<Seq<FieldView>, Seq<char>>
    decreases fs.len() - i,
{
    if i < 0 || i >= fs.len() {
        Ok(Seq::empty())
    } else {
        match field_of(fs[i]) {
            Err(e) => Err(e),
            Ok(f) => match fields_of(fs, i + 1) {
                Err(e) => Err(e),
                Ok(rest) => Ok(seq![f] + rest),
            },
        }
    }
}

/// The types of tuple fields from position `i` on, or the first error.
pub open spec fn types_of(fs: Seq<SourceField>, i: int) -> Result<Seq<TypeSpec>, Seq<char>>
    decreases fs.len() - i,
{
    if i < 0 || i >= fs.len() {
        Ok(Seq::empty())
    } else {
        match type_of(fs[i].ty) {
            Err(e) => Err(e),
            Ok(p) => match types_of(fs, i + 1) {
                Err(e) => Err(e),
                Ok(rest) => Ok(seq![p.0] + rest),
            },
        }
    }
}

/// Whether the attribute tokens of every field can be read.
pub open spec fn fields_readable(fs: Seq<SourceField>) -> bool {
    forall|i: int| 0 <= i < fs.len() ==> metas_readable((#[trigger] fs[i]).attrs@)
}

/// Whether the attribute tokens of every field of `fields` can be read.
pub open spec fn source_fields_readable(fields: SourceFields) -> bool {
    match fields {
        SourceFields::Named(fs) => fields_readable(fs@),
        SourceFields::Unnamed(fs) => fields_readable(fs@),
        SourceFields::Unit => true,
    }
}

fn parse_field(f: &SourceField) -> (r: Result<FieldDef, LumosError>)
    requires
        metas_readable(f.attrs@),
    ensures
        match r {
            Ok(d) => field_of(*f) == Ok::<FieldView, Seq<char>>(field_view(d)),
            Err(e) => field_of(*f) matches Err(m) && parse_error(e, m),
        },
{
    let name = match &f.name {
        Some(n) => copy_string(n),
        None => {
            return Err(LumosError::SchemaParse(to_string("Field must have a name")));
        },
    };
    let attributes = match parse_attributes(&f.attrs) {
        Ok(a) => a,
        Err(e) => {
            return Err(e);
        },
    };
    let (type_spec, optional) = match parse_type(&f.ty) {
        Ok(p) => p,
        Err(e) => {
            return Err(e);
        },
    };
    Ok(FieldDef { name, type_spec, optional, attributes })
}

fn parse_fields(fs: &Vec<SourceField>) -> (r: Result<Vec<FieldDef>, LumosError>)
    requires
        fields_readable(fs@),
    ensures
        match r {
            Ok(v) => fields_of(fs@, 0) == Ok::<Seq<FieldView>, Seq<char>>(field_views(v@)),
            Err(e) => fields_of(fs@, 0) matches Err(m) && parse_error(e, m),
        },
{
    let mut out: Vec<FieldDef> = Vec::new();
    let mut i: usize = 0;
    while i < fs.len()
        invariant
            fields_readable(fs@),
            i <= fs@.len(),
            fields_of(fs@, 0) == (match fields_of(fs@, i as int) {
                Ok(rest) => Ok::<Seq<FieldView>, Seq<char>>(field_views(out@) + rest),
                Err(e) => Err(e),
            }),
        decreases fs@.len() - i,
    {
        let ghost before = out@;
        match parse_field(&fs[i]) {
            Err(e) => {
                return Err(e);
            },
            Ok(d) => {
                out.push(d);
                proof {
                    assert(field_views(out@) =~= field_views(before).push(field_view(d)));
                    match fields_of(fs@, i + 1) {
                        Ok(rest) => {
                            assert(field_views(before) + (seq![field_view(d)] + rest)
                                =~= field_views(out@) + rest);
                        },
                        Err(_) => {},
                    }
                }
            },
        }
        i = i + 1;
    }
    assert(field_views(out@) + Seq::<FieldView>::empty() =~= field_views(out@));
    Ok(out)
}

fn parse_types(fs: &Vec<SourceField>) -> (r: Result<Vec<TypeSpec>, LumosError>)
    ensures
        match r {
            Ok(v) => types_of(fs@, 0) == Ok::<Seq<TypeSpec>, Seq<char>>(v@),
            Err(e) => types_of(fs@, 0) matches Err(m) && parse_error(e, m),
        },
{
    let mut out: Vec<TypeSpec> = Vec::new();
    let mut i: usize = 0;
    while i < fs.len()
        invariant
            i <= fs@.len(),
            types_of(fs@, 0) == (match types_of(fs@, i as int) {
                Ok(rest) => Ok::<Seq<TypeSpec>, Seq<char>>(out@ + rest),
                Err(e) => Err(e),
            }),
        decreases fs@.len() - i,
    {
        let ghost before = out@;
        match parse_type(&fs[i].ty) {
            Err(e) => {
                return Err(e);
            },
            Ok(p) => {
                let ghost t = p.0;
                out.push(p.0);
                proof {
                    match types_of(fs@, i + 1) {
                        Ok(rest) => {
                            assert(before + (seq![t] + rest) =~= out@ + rest);
                        },
                        Err(_) => {},
                    }
                }
            },
        }
        i = i + 1;
    }
    assert(out@ + Seq::<TypeSpec>::empty() =~= out@);
    Ok(out)
}

/// An enum variant with its texts as characters.
pub enum VariantView {
    Unit { name: Seq<char> },
    Tuple { name: Seq<char>, types: Seq<TypeSpec> },
    Struct { name: Seq<char>, fields: Seq<FieldView> },
}

/// The view of a variant.
pub open spec fn variant_view(v: EnumVariant) -> VariantView {
    match v {
        EnumVariant::Unit { name } => VariantView::Unit { name: name@ },
        EnumVariant::Tuple { name, types } => VariantView::Tuple { name: name@, types: types@ },
        EnumVariant::Struct { name, fields } => VariantView::Struct {
            name: name@,
            fields: field_views(fields@),
        },
    }
}

/// The views of variants.
pub open spec fn variant_views(vs: Seq<EnumVariant>) -> Seq<VariantView> {
    vs.map_values(|v: EnumVariant| variant_view(v))
}

/// What a variant reads as.
pub open spec fn variant_of(v: SourceVariant) -> Result<VariantView, Seq<char>> {
    match v.fields {
        SourceFields::Unit => Ok(VariantView::Unit { name: v.name@ }),
        SourceFields::Unnamed(fs) => match types_of(fs@, 0) {
            Err(e) => Err(e),
            Ok(ts) => Ok(VariantView::Tuple { name: v.name@, types: ts }),
        },
        SourceFields::Named(fs) => match fields_of(fs@, 0) {
            Err(e) => Err(e),
            Ok(f) => Ok(VariantView::Struct { name: v.name@, fields: f }),
        },
    }
}

/// The variants read from `vs` from position `i` on, or the first error.
pub open spec fn variants_of(vs: Seq<SourceVariant>, i: int) -> Result<Seq<VariantView>, Seq<char>>
    decreases vs.len() - i,
{
    if i < 0 || i >= vs.len() {
        Ok(Seq::empty())
    } else {
        match variant_of(vs[i]) {
            Err(e) => Err(e),
            Ok(v) => match variants_of(vs, i + 1) {
                Err(e) => Err(e),
                Ok(rest) => Ok(seq![v] + rest),
            },
        }
    }
}

fn parse_enum_variant(v: &SourceVariant) -> (r: Result<EnumVariant, LumosError>)
    requires
        source_fields_readable(v.fields),
    ensures
        match r {
            Ok(d) => variant_of(*v) == Ok::<VariantView, Seq<char>>(variant_view(d)),
            Err(e) => variant_of(*v) matches Err(m) && parse_error(e, m),
        },
{
    let name = copy_string(&v.name);
    match &v.fields {
        SourceFields::Unit => Ok(EnumVariant::Unit { name }),
        SourceFields::Unnamed(fs) => match parse_types(fs) {
            Ok(types) => Ok(EnumVariant::Tuple { name, types }),
            Err(e) => Err(e),
        },
        SourceFields::Named(fs) => match parse_fields(fs) {
            Ok(fields) => Ok(EnumVariant::Struct { name, fields }),
            Err(e) => Err(e),
        },
    }
}

/// A struct with its texts as characters.
pub struct StructView {
    pub name: Seq<char>,
    pub attributes: Seq<AttrView>,
    pub fields: Seq<FieldView>,
    pub version: Option<Seq<char>>,
    pub public: bool,
}

/// An enum with its texts as characters.
pub struct EnumView {
    pub name: Seq<char>,
    pub attributes: Seq<AttrView>,
    pub variants: Seq<VariantView>,
    pub version: Option<Seq<char>>,
    pub public: bool,
}

/// A definition with its texts as characters.
pub enum ItemView {
    Struct(StructView),
    Enum(EnumView),
    TypeAlias { name: Seq<char>, target: TypeSpec, public: bool },
}

/// The view of an optional string.
pub open spec fn opt_text(s: Option<String>) -> Option<Seq<char>> {
    match s {
        Some(x) => Some(x@),
        None => None,
    }
}

/// The view of a definition.
pub open spec fn item_view(i: Item) -> ItemView {
    match i {
        Item::Struct(s) => ItemView::Struct(
            StructView {
                name: s.name@,
                attributes: attr_views(s.attributes@),
                fields: field_views(s.fields@),
                version: opt_text(s.version),
                public: s.public,
            },
        ),
        Item::Enum(e) => ItemView::Enum(
            EnumView {
                name: e.name@,
                attributes: attr_views(e.attributes@),
                variants: variant_views(e.variants@),
                version: opt_text(e.version),
                public: e.public,
            },
        ),
        Item::TypeAlias(a) => ItemView::TypeAlias { name: a.name@, target: a.target, public: a.public },
    }
}

/// The views of definitions.
pub open spec fn item_views(s: Seq<Item>) -> Seq<ItemView> {
    s.map_values(|i: Item| item_view(i))
}

/// What a struct reads as: its attributes, its version, and its named
/// fields.
pub open spec fn struct_of(
    name: Seq<char>,
    attrs: Seq<SourceMeta>,
    fields: SourceFields,
    public: bool,
) -> Result<
    StructView,
    Seq<char>,
> {
    match attrs_of(attrs, 0) {
        Err(e) => Err(e),
        Ok(a) => match version_of(a) {
            Err(e) => Err(e),
            Ok(v) => match fields {
                SourceFields::Named(fs) => match fields_of(fs@, 0) {
                    Err(e) => Err(e),
                    Ok(f) => Ok(StructView { name, attributes: a, fields: f, version: v, public }),
                },
                _ => Err("Struct '"@ + name + "' must have named fields"@),
            },
        },
    }
}

/// What an enum reads as: its attributes, its version, and at least one
/// variant.
pub open spec fn enum_of(
    name: Seq<char>,
    attrs: Seq<SourceMeta>,
    vs: Seq<SourceVariant>,
    public: bool,
) -> Result<
    EnumView,
    Seq<char>,
> {
    match attrs_of(attrs, 0) {
        Err(e) => Err(e),
        Ok(a) => match version_of(a) {
            Err(e) => Err(e),
            Ok(v) => match variants_of(vs, 0) {
                Err(e) => Err(e),
                Ok(vv) => if vv.len() == 0 {
                    Err("Enum '"@ + name + "' must have at least one variant"@)
                } else {
                    Ok(EnumView { name, attributes: a, variants: vv, version: v, public })
                },
            },
        },
    }
}

/// The message for a module declared with a body.
pub open spec fn inline_module_message(name: Seq<char>) -> Seq<char> {
    "Inline module bodies are not supported: '"@ + name + "' (use `mod "@ + name + ";`)"@
}

/// The message for a `use` statement that is no plain path.
pub open spec fn unsupported_use_message() -> Seq<char> {
    "Unsupported use statement: only plain paths such as `crate::a::B` are supported"@
}

/// What a top-level item reads as: structs, enums and aliases are
/// definitions; a module declaration with a body and a `use` that is no
/// plain path are errors; module declarations, other `use` statements and
/// all other items give no definition.
pub open spec fn item_of(i: SourceItem) -> Result<Option<ItemView>, Seq<char>> {
    match i {
        SourceItem::Struct { name, attrs, fields, public } => match struct_of(name@, attrs@, fields, public) {
            Err(e) => Err(e),
            Ok(s) => Ok(Some(ItemView::Struct(s))),
        },
        SourceItem::Enum { name, attrs, variants, public } => match enum_of(name@, attrs@, variants@, public) {
            Err(e) => Err(e),
            Ok(e) => Ok(Some(ItemView::Enum(e))),
        },
        SourceItem::Type { name, ty, public } => match type_of(ty) {
            Err(e) => Err(e),
            Ok(p) => Ok(Some(ItemView::TypeAlias { name: name@, target: p.0, public })),
        },
        SourceItem::Mod { name, inline, .. } => if inline {
            Err(inline_module_message(name@))
        } else {
            Ok(None)
        },
        SourceItem::Use(segs) => match segs {
            Some(_) => Ok(None),
            None => Err(unsupported_use_message()),
        },
        SourceItem::Other => Ok(None),
    }
}

/// A segment of a `use` path as written.
pub open spec fn segment_of(s: String) -> PathSegment {
    if s@ == "crate"@ {
        PathSegment::Crate
    } else if s@ == "super"@ {
        PathSegment::Super
    } else if s@ == "self"@ {
        PathSegment::SelfPath
    } else {
        PathSegment::Ident(s)
    }
}

/// The module declarations among `items` (name and whether public), in order.
pub open spec fn decls_of(items: Seq<SourceItem>) -> Seq<(Seq<char>, bool)>
    decreases items.len(),
{
    if items.len() == 0 {
        Seq::empty()
    } else {
        let rest = decls_of(items.drop_last());
        match items.last() {
            SourceItem::Mod { name, public, .. } => rest.push((name@, public)),
            _ => rest,
        }
    }
}

/// The paths of the plain `use` statements among `items`, in order.
pub open spec fn uses_of(items: Seq<SourceItem>) -> Seq<Seq<PathSegment>>
    decreases items.len(),
{
    if items.len() == 0 {
        Seq::empty()
    } else {
        let rest = uses_of(items.drop_last());
        match items.last() {
            SourceItem::Use(Some(segs)) => rest.push(segs@.map_values(|x: String| segment_of(x))),
            _ => rest,
        }
    }
}

/// The module declarations of a file, as name and whether public.
pub open spec fn decl_views(ms: Seq<ModuleDecl>) -> Seq<(Seq<char>, bool)> {
    ms.map_values(|m: ModuleDecl| (m.name@, m.public))
}

/// The paths of the `use` statements of a file.
pub open spec fn use_views(us: Seq<UsePath>) -> Seq<Seq<PathSegment>> {
    us.map_values(|u: UsePath| u.segments@)
}

/// The definitions read from `items` from position `i` on, or the first
/// error.
pub open spec fn items_of(items: Seq<SourceItem>, i: int) -> Result<Seq<ItemView>, Seq<char>>
    decreases items.len() - i,
{
    if i < 0 || i >= items.len() {
        Ok(Seq::empty())
    } else {
        match item_of(items[i]) {
            Err(e) => Err(e),
            Ok(o) => match items_of(items, i + 1) {
                Err(e) => Err(e),
                Ok(rest) => Ok(
                    match o {
                        Some(x) => seq![x] + rest,
                        None => rest,
                    },
                ),
            },
        }
    }
}

/// Whether every attribute token text of an item can be read.
pub open spec fn item_readable(i: SourceItem) -> bool {
    match i {
        SourceItem::Struct { attrs, fields, .. } => metas_readable(attrs@) && source_fields_readable(
            fields,
        ),
        SourceItem::Enum { attrs, variants, .. } => metas_readable(attrs@) && forall|k: int|
            0 <= k < variants@.len() ==> source_fields_readable((#[trigger] variants@[k]).fields),
        _ => true,
    }
}

fn parse_struct(name: &String, attrs: &Vec<SourceMeta>, fields: &SourceFields, public: bool) -> (r: Result<
    StructDef,
    LumosError,
>)
    requires
        metas_readable(attrs@),
        source_fields_readable(*fields),
    ensures
        match r {
            Ok(d) => struct_of(name@, attrs@, *fields, public) == Ok::<StructView, Seq<char>>(
                StructView {
                    name: d.name@,
                    attributes: attr_views(d.attributes@),
                    fields: field_views(d.fields@),
                    version: opt_text(d.version),
                    public: d.public,
                },
            ),
            Err(e) => struct_of(name@, attrs@, *fields, public) matches Err(m) && parse_error(e, m),
        },
{
    let attributes = match parse_attributes(attrs) {
        Ok(a) => a,
        Err(e) => {
            return Err(e);
        },
    };
    let version = match extract_version_attribute(&attributes) {
        Ok(v) => v,
        Err(e) => {
            return Err(e);
        },
    };
    match fields {
        SourceFields::Named(fs) => match parse_fields(fs) {
            Ok(f) => Ok(StructDef { name: copy_string(name), attributes, fields: f, version, public }),
            Err(e) => Err(e),
        },
        _ => {
            let mut m = to_string("Struct '");
            m.append(name.as_str());
            m.append("' must have named fields");
            Err(LumosError::SchemaParse(m))
        },
    }
}

fn parse_enum(
    name: &String,
    attrs: &Vec<SourceMeta>,
    variants: &Vec<SourceVariant>,
    public: bool,
) -> (r: Result<
    EnumDef,
    LumosError,
>)
    requires
        metas_readable(attrs@),
        forall|k: int|
            0 <= k < variants@.len() ==> source_fields_readable((#[trigger] variants@[k]).fields),
    ensures
        match r {
            Ok(d) => enum_of(name@, attrs@, variants@, public) == Ok::<EnumView, Seq<char>>(
                EnumView {
                    name: d.name@,
                    attributes: attr_views(d.attributes@),
                    variants: variant_views(d.variants@),
                    version: opt_text(d.version),
                    public: d.public,
                },
            ),
            Err(e) => enum_of(name@, attrs@, variants@, public) matches Err(m) && parse_error(e, m),
        },
{
    let attributes = match parse_attributes(attrs) {
        Ok(a) => a,
        Err(e) => {
            return Err(e);
        },
    };
    let version = match extract_version_attribute(&attributes) {
        Ok(v) => v,
        Err(e) => {
            return Err(e);
        },
    };
    let mut out: Vec<EnumVariant> = Vec::new();
    let mut i: usize = 0;
    while i < variants.len()
        invariant
            attrs_of(attrs@, 0) == Ok::<Seq<AttrView>, Seq<char>>(attr_views(attributes@)),
            version_of(attr_views(attributes@)) == Ok::<Option<Seq<char>>, Seq<char>>(
                opt_text(version),
            ),
            forall|k: int|
                0 <= k < variants@.len() ==> source_fields_readable((#[trigger] variants@[k]).fields),
            i <= variants@.len(),
            variants_of(variants@, 0) == (match variants_of(variants@, i as int) {
                Ok(rest) => Ok::<Seq<VariantView>, Seq<char>>(variant_views(out@) + rest),
                Err(e) => Err(e),
            }),
        decreases variants@.len() - i,
    {
        let ghost before = out@;
        match parse_enum_variant(&variants[i]) {
            Err(e) => {
                return Err(e);
            },
            Ok(d) => {
                out.push(d);
                proof {
                    assert(variant_views(out@) =~= variant_views(before).push(variant_view(d)));
                    match variants_of(variants@, i + 1) {
                        Ok(rest) => {
                            assert(variant_views(before) + (seq![variant_view(d)] + rest)
                                =~= variant_views(out@) + rest);
                        },
                        Err(_) => {},
                    }
                }
            },
        }
        i = i + 1;
    }
    assert(variant_views(out@) + Seq::<VariantView>::empty() =~= variant_views(out@));
    if out.len() == 0 {
        let mut m = to_string("Enum '");
        m.append(name.as_str());
        m.append("' must have at least one variant");
        return Err(LumosError::SchemaParse(m));
    }
    Ok(EnumDef { name: copy_string(name), attributes, variants: out, version, public })
}

fn parse_item(item: &SourceItem) -> (r: Result<Option<Item>, LumosError>)
    requires
        item_readable(*item),
    ensures
        match r {
            Ok(o) => item_of(*item) == Ok::<Option<ItemView>, Seq<char>>(
                match o {
                    Some(x) => Some(item_view(x)),
                    None => None,
                },
            ),
            Err(e) => item_of(*item) matches Err(m) && parse_error(e, m),
        },
{
    match item {
        SourceItem::Struct { name, attrs, fields, public } => match parse_struct(name, attrs, fields, *public) {
            Ok(s) => Ok(Some(Item::Struct(s))),
            Err(e) => Err(e),
        },
        SourceItem::Enum { name, attrs, variants, public } => match parse_enum(name, attrs, variants, *public) {
            Ok(e) => Ok(Some(Item::Enum(e))),
            Err(e) => Err(e),
        },
        SourceItem::Type { name, ty, public } => match parse_type_alias(name, ty, *public) {
            Ok(a) => Ok(Some(Item::TypeAlias(a))),
            Err(e) => Err(e),
        },
        SourceItem::Mod { name, inline, .. } => {
            if *inline {
                let mut m = to_string("Inline module bodies are not supported: '");
                m.append(name.as_str());
                m.append("' (use `mod ");
                m.append(name.as_str());
                m.append(";`)");
                Err(LumosError::SchemaParse(m))
            } else {
                Ok(None)
            }
        },
        SourceItem::Use(segs) => match segs {
            Some(_) => Ok(None),
            None => Err(
                LumosError::SchemaParse(
                    to_string(
                        "Unsupported use statement: only plain paths such as `crate::a::B` are supported",
                    ),
                ),
            ),
        },
        SourceItem::Other => Ok(None),
    }
}

/// Reads a type alias `type name = ty;`: its target is the type read, an
/// `Option` in it unwrapped.
pub fn parse_type_alias(name: &String, ty: &SourceType, public: bool) -> (r: Result<TypeAlias, LumosError>)
    ensures
        match r {
            Ok(a) => a.name@ == name@ && a.public == public && (type_of(*ty) matches Ok(p) && a.target == p.0),
            Err(e) => type_of(*ty) matches Err(m) && parse_error(e, m),
        },
{
    match parse_type(ty) {
        Ok(p) => Ok(TypeAlias { name: copy_string(name), target: p.0, public }),
        Err(e) => Err(e),
    }
}

/// What a schema file reads as: its definitions; a file without
/// definitions, imports, module declarations and `use` statements is an
/// error.
pub open spec fn file_of(import_count: nat, items: Seq<SourceItem>) -> Result<Seq<ItemView>, Seq<char>> {
    match items_of(items, 0) {
        Err(e) => Err(e),
        Ok(defs) => if defs.len() == 0 && import_count == 0 && decls_of(items).len() == 0
            && uses_of(items).len() == 0 {
            Err("No type definitions or imports found in .lumos file"@)
        } else {
            Ok(defs)
        },
    }
}

/// Reads a schema file from its imports and the items the Rust-syntax
/// reader found.
pub fn parse_source_file(imports: Vec<Import>, items: &Vec<SourceItem>) -> (r: Result<
    LumosFile,
    LumosError,
>)
    requires
        forall|k: int| 0 <= k < items@.len() ==> item_readable(#[trigger] items@[k]),
    ensures
        match r {
            Ok(f) => {
                &&& f.imports@ == imports@
                &&& file_of(imports@.len(), items@) == Ok::<Seq<ItemView>, Seq<char>>(
                    item_views(f.items@),
                )
                &&& decl_views(f.modules@) == decls_of(items@)
                &&& use_views(f.uses@) == uses_of(items@)
            },
            Err(e) => file_of(imports@.len(), items@) matches Err(m) && parse_error(e, m),
        },
{
    let mut out: Vec<Item> = Vec::new();
    let mut i: usize = 0;
    while i < items.len()
        invariant
            forall|k: int| 0 <= k < items@.len() ==> item_readable(#[trigger] items@[k]),
            i <= items@.len(),
            items_of(items@, 0) == (match items_of(items@, i as int) {
                Ok(rest) => Ok::<Seq<ItemView>, Seq<char>>(item_views(out@) + rest),
                Err(e) => Err(e),
            }),
        decreases items@.len() - i,
    {
        let ghost before = out@;
        match parse_item(&items[i]) {
            Err(e) => {
                return Err(e);
            },
            Ok(o) => match o {
                Some(x) => {
                    out.push(x);
                    proof {
                        assert(item_views(out@) =~= item_views(before).push(item_view(x)));
                        match items_of(items@, i + 1) {
                            Ok(rest) => {
                                assert(item_views(before) + (seq![item_view(x)] + rest)
                                    =~= item_views(out@) + rest);
                            },
                            Err(_) => {},
                        }
                    }
                },
                None => {},
            },
        }
        i = i + 1;
    }
    assert(item_views(out@) + Seq::<ItemView>::empty() =~= item_views(out@));
    let modules = collect_modules(items);
    let uses = collect_uses(items);
    if out.len() == 0 && imports.len() == 0 && modules.len() == 0 && uses.len() == 0 {
        return Err(
            LumosError::SchemaParse(to_string("No type definitions or imports found in .lumos file")),
        );
    }
    Ok(LumosFile { imports, items: out, modules, uses })
}

fn collect_modules(items: &Vec<SourceItem>) -> (r: Vec<ModuleDecl>)
    ensures
        decl_views(r@) == decls_of(items@),
{
    let mut r: Vec<ModuleDecl> = Vec::new();
    let mut i: usize = 0;
    while i < items.len()
        invariant
            i <= items@.len(),
            decl_views(r@) == decls_of(items@.subrange(0, i as int)),
        decreases items@.len() - i,
    {
        assert(items@.subrange(0, i + 1).drop_last() =~= items@.subrange(0, i as int));
        match &items[i] {
            SourceItem::Mod { name, public, .. } => {
                let ghost before = r@;
                r.push(ModuleDecl { name: copy_string(name), public: *public });
                assert(decl_views(r@) =~= decl_views(before).push((name@, *public)));
            },
            _ => {},
        }
        i = i + 1;
    }
    assert(items@.subrange(0, items@.len() as int) =~= items@);
    r
}

fn segments_exec(segs: &Vec<String>) -> (r: Vec<PathSegment>)
    ensures
        r@ == segs@.map_values(|x: String| segment_of(x)),
{
    proof {
        reveal_strlit("crate");
        reveal_strlit("super");
        reveal_strlit("self");
    }
    let mut r: Vec<PathSegment> = Vec::new();
    let mut i: usize = 0;
    while i < segs.len()
        invariant
            i <= segs@.len(),
            r@ == segs@.subrange(0, i as int).map_values(|x: String| segment_of(x)),
        decreases segs@.len() - i,
    {
        let s = &segs[i];
        let seg = if str_eq(s.as_str(), "crate") {
            PathSegment::Crate
        } else if str_eq(s.as_str(), "super") {
            PathSegment::Super
        } else if str_eq(s.as_str(), "self") {
            PathSegment::SelfPath
        } else {
            PathSegment::Ident(copy_string(s))
        };
        assert(seg == segment_of(segs@[i as int]));
        r.push(seg);
        i = i + 1;
        assert(r@ =~= segs@.subrange(0, i as int).map_values(|x: String| segment_of(x)));
    }
    assert(segs@.subrange(0, segs@.len() as int) =~= segs@);
    r
}

fn collect_uses(items: &Vec<SourceItem>) -> (r: Vec<UsePath>)
    ensures
        use_views(r@) == uses_of(items@),
{
    let mut r: Vec<UsePath> = Vec::new();
    let mut i: usize = 0;
    while i < items.len()
        invariant
            i <= items@.len(),
            use_views(r@) == uses_of(items@.subrange(0, i as int)),
        decreases items@.len() - i,
    {
        assert(items@.subrange(0, i + 1).drop_last() =~= items@.subrange(0, i as int));
        match &items[i] {
            SourceItem::Use(Some(segs)) => {
                let ghost before = r@;
                let p = UsePath { segments: segments_exec(segs) };
                r.push(p);
                assert(use_views(r@) =~= use_views(before).push(
                    segs@.map_values(|x: String| segment_of(x)),
                ));
            },
            _ => {},
        }
        i = i + 1;
    }
    assert(items@.subrange(0, items@.len() as int) =~= items@);
    r
}


// ---------------------------------------------------------------------
// Imports
// ---------------------------------------------------------------------

#[verifier::external_type_specification]
#[verifier::external_body]
pub struct ExRegex(regex::Regex);

/// The pattern of an import statement:
/// `import { A, B } from "./path.lumos";`, with the names and the path as
/// its two groups.
pub const IMPORT_PATTERN: &'static str = r#"import\s*\{([^}]+)\}\s*from\s+["']([^"']+)["']\s*;?"#;

/// What `Regex::new` says of a pattern: nothing when it compiles, else its
/// error message.
pub uninterp spec fn pattern_error(pattern: Seq<char>) -> Option<Seq<char>>;

/// The first and second groups (empty where a group takes no part) of each
/// match, in order, of the regex compiled from `pattern` in `text`, as
/// `Regex::captures_iter` finds them.
pub uninterp spec fn captured_groups(pattern: Seq<char>, text: Seq<char>) -> Seq<(Seq<char>, Seq<char>)>;

/// `text` with every match of the regex compiled from `pattern` taken out,
/// as `Regex::replace_all` with an empty replacement gives it.
pub uninterp spec fn matches_removed(pattern: Seq<char>, text: Seq<char>) -> Seq<char>;

/// A compiled regex with the pattern it was compiled from.
pub struct CompiledPattern {
    re: regex::Regex,
    source: Ghost<Seq<char>>,
}

impl CompiledPattern {
    /// The pattern the regex was compiled from.
    pub closed spec fn source(&self) -> Seq<char> {
        self.source@
    }
}

/// regex `Regex::new`: compiles a pattern, or gives the error's message.
#[verifier::external_body]
fn regex_new(pattern: &str) -> (r: Result<CompiledPattern, String>)
    ensures
        match r {
            Ok(c) => pattern_error(pattern@) is None && c.source() == pattern@,
            Err(e) => pattern_error(pattern@) == Some(e@),
        },
{
    match regex::Regex::new(pattern) {
        Ok(re) => Ok(CompiledPattern { re, source: Ghost(pattern@) }),
        Err(e) => Err(e.to_string()),
    }
}

/// The texts of a sequence of string pairs.
pub open spec fn pair_views(caps: Seq<(String, String)>) -> Seq<(Seq<char>, Seq<char>)> {
    caps.map_values(|c: (String, String)| (c.0@, c.1@))
}

/// regex `Regex::captures_iter`: the first and second groups of each
/// match, in order (see [`captured_groups`]).
#[verifier::external_body]
fn regex_capture_pairs(re: &CompiledPattern, s: &str) -> (r: Vec<(String, String)>)
    ensures
        pair_views(r@) == captured_groups(re.source(), s@),
{
    let mut out = Vec::new();
    for c in re.re.captures_iter(s) {
        let a = c.get(1).map_or("", |m| m.as_str()).to_string();
        let b = c.get(2).map_or("", |m| m.as_str()).to_string();
        out.push((a, b));
    }
    out
}

/// regex `Regex::replace_all` with an empty replacement (see
/// [`matches_removed`]).
#[verifier::external_body]
fn regex_remove_all(re: &CompiledPattern, s: &str) -> (r: String)
    ensures
        r@ == matches_removed(re.source(), s@),
{
    re.re.replace_all(s, "").to_string()
}

/// An import with its texts as characters.
pub struct ImportView {
    pub items: Seq<Seq<char>>,
    pub path: Seq<char>,
}

/// The view of an import.
pub open spec fn import_view(i: Import) -> ImportView {
    ImportView { items: views(i.items@), path: i.path@ }
}

/// The views of imports.
pub open spec fn import_views(s: Seq<Import>) -> Seq<ImportView> {
    s.map_values(|i: Import| import_view(i))
}

/// The imports of the matches of the import pattern from position `i` on:
/// the trimmed non-empty comma-separated names and the path; a match
/// naming nothing is an error.
pub open spec fn imports_of(caps: Seq<(Seq<char>, Seq<char>)>, i: int) -> Result<Seq<ImportView>, Seq<char>>
    decreases caps.len() - i,
{
    if i < 0 || i >= caps.len() {
        Ok(Seq::empty())
    } else {
        let names = nonempty_trimmed(split_on(caps[i].0, ','));
        if names.len() == 0 {
            Err("Empty import list"@)
        } else {
            match imports_of(caps, i + 1) {
                Err(e) => Err(e),
                Ok(rest) => Ok(seq![ImportView { items: names, path: caps[i].1 }] + rest),
            }
        }
    }
}

/// Turns the matches of the import pattern (names, path) into imports.
pub fn imports_from_captures(caps: &Vec<(String, String)>) -> (r: Result<Vec<Import>, LumosError>)
    ensures
        match r {
            Ok(v) => imports_of(pair_views(caps@), 0) == Ok::<Seq<ImportView>, Seq<char>>(
                import_views(v@),
            ),
            Err(e) => imports_of(pair_views(caps@), 0) matches Err(m) && parse_error(e, m),
        },
{
    let mut out: Vec<Import> = Vec::new();
    let mut i: usize = 0;
    while i < caps.len()
        invariant
            i <= caps@.len(),
            imports_of(pair_views(caps@), 0) == (match imports_of(pair_views(caps@), i as int) {
                Ok(rest) => Ok::<Seq<ImportView>, Seq<char>>(import_views(out@) + rest),
                Err(e) => Err(e),
            }),
        decreases caps@.len() - i,
    {
        let c = chars_of(caps[i].0.as_str());
        let parts = split_exec(c.as_slice(), ',');
        proof {
            assert(pair_views(caps@)[i as int] == (caps@[i as int].0@, caps@[i as int].1@));
            assert(parts@.map_values(|p: Vec<char>| p@) =~= split_on(pair_views(caps@)[i as int].0, ','));
        }
        let items = trimmed_pieces(&parts);
        if items.len() == 0 {
            return Err(LumosError::SchemaParse(to_string("Empty import list")));
        }
        let ghost before = out@;
        let imp = Import { items, path: copy_string(&caps[i].1) };
        let ghost iv = import_view(imp);
        out.push(imp);
        proof {
            assert(import_views(out@) =~= import_views(before).push(iv));
            match imports_of(pair_views(caps@), i + 1) {
                Ok(rest) => {
                    assert(import_views(before) + (seq![iv] + rest) =~= import_views(out@) + rest);
                },
                Err(_) => {},
            }
        }
        i = i + 1;
    }
    assert(import_views(out@) + Seq::<ImportView>::empty() =~= import_views(out@));
    Ok(out)
}

/// Whether every import names at least one item, each trimmed and not
/// empty.
pub open spec fn imports_well_formed(v: Seq<ImportView>) -> bool {
    forall|k: int|
        0 <= k < v.len() ==> (#[trigger] v[k]).items.len() > 0 && forall|j: int|
            0 <= j < v[k].items.len() ==> v[k].items[j].len() > 0 && trim(v[k].items[j])
                == v[k].items[j]
}

proof fn lemma_nonempty_trimmed(parts: Seq<Seq<char>>)
    ensures
        forall|j: int|
            0 <= j < nonempty_trimmed(parts).len() ==> nonempty_trimmed(parts)[j].len() > 0
                && trim(nonempty_trimmed(parts)[j]) == nonempty_trimmed(parts)[j],
    decreases parts.len(),
{
    if parts.len() > 0 {
        lemma_nonempty_trimmed(parts.drop_last());
        crate::text::lemma_trim_idempotent(parts.last());
        let rest = nonempty_trimmed(parts.drop_last());
        let all = nonempty_trimmed(parts);
        assert forall|j: int| 0 <= j < all.len() implies all[j].len() > 0 && trim(all[j])
            == all[j] by {
            if j < rest.len() {
                assert(all[j] == rest[j]);
            } else {
                assert(all[j] == trim(parts.last()));
            }
        }
    }
}

proof fn lemma_imports_well_formed(caps: Seq<(Seq<char>, Seq<char>)>, i: int)
    requires
        imports_of(caps, i) is Ok,
    ensures
        imports_well_formed(imports_of(caps, i)->Ok_0),
    decreases caps.len() - i,
{
    if 0 <= i < caps.len() {
        lemma_nonempty_trimmed(split_on(caps[i].0, ','));
        lemma_imports_well_formed(caps, i + 1);
        let rest = imports_of(caps, i + 1)->Ok_0;
        let names = nonempty_trimmed(split_on(caps[i].0, ','));
        let all = seq![ImportView { items: names, path: caps[i].1 }] + rest;
        assert forall|k: int| 0 <= k < all.len() implies (#[trigger] all[k]).items.len() > 0
            && forall|j: int|
            0 <= j < all[k].items.len() ==> all[k].items[j].len() > 0 && trim(all[k].items[j])
                == all[k].items[j] by {
            if k > 0 {
                assert(all[k] == rest[k - 1]);
            }
        }
    }
}

/// Takes the import statements out of a schema text: the imports of the
/// matches of [`IMPORT_PATTERN`] (an import naming nothing is an error),
/// and the text without the matches. Each import names at least one item.
pub fn extract_imports(input: &str) -> (r: Result<(Vec<Import>, String), LumosError>)
    ensures
        match pattern_error(IMPORT_PATTERN@) {
            Some(m) => r matches Err(LumosError::SchemaParse(e)) && e@
                == "Failed to compile import regex: "@ + m,
            None => match imports_of(captured_groups(IMPORT_PATTERN@, input@), 0) {
                Ok(v) => r matches Ok(p) && import_views(p.0@) == v && p.1@ == matches_removed(
                    IMPORT_PATTERN@,
                    input@,
                ),
                Err(m) => r matches Err(e) && parse_error(e, m),
            },
        },
        r matches Ok(p) ==> imports_well_formed(import_views(p.0@)),
{
    let re = match regex_new(IMPORT_PATTERN) {
        Ok(re) => re,
        Err(e) => {
            let mut m = to_string("Failed to compile import regex: ");
            m.append(e.as_str());
            return Err(LumosError::SchemaParse(m));
        },
    };
    let caps = regex_capture_pairs(&re, input);
    let imports = match imports_from_captures(&caps) {
        Ok(v) => v,
        Err(e) => {
            return Err(e);
        },
    };
    proof {
        lemma_imports_well_formed(pair_views(caps@), 0);
    }
    let remaining = regex_remove_all(&re, input);
    Ok((imports, remaining))
}

} // verus!

verus! {

// ---------------------------------------------------------------------
// Reading a whole schema file
// ---------------------------------------------------------------------

fn meta_readable_exec(m: &SourceMeta) -> (r: bool)
    ensures
        r == match *m {
            SourceMeta::List { tokens, .. } => trim(tokens@) != seq!['"'],
            _ => true,
        },
{
    match m {
        SourceMeta::List { tokens, .. } => {
            let cs = chars_of(tokens.as_str());
            let t = trim_exec(cs.as_slice());
            proof {
                reveal_strlit("\"");
                assert("\""@ =~= seq!['"']);
            }
            !chars_is(t.as_slice(), "\"")
        },
        _ => true,
    }
}

fn metas_readable_exec(ms: &Vec<SourceMeta>) -> (r: bool)
    ensures
        r == metas_readable(ms@),
{
    let mut k: usize = 0;
    while k < ms.len()
        invariant
            k <= ms@.len(),
            forall|i: int|
                0 <= i < k ==> match #[trigger] ms@[i] {
                    SourceMeta::List { tokens, .. } => trim(tokens@) != seq!['"'],
                    _ => true,
                },
        decreases ms@.len() - k,
    {
        if !meta_readable_exec(&ms[k]) {
            return false;
        }
        k = k + 1;
    }
    true
}

fn field_list_readable_exec(fs: &Vec<SourceField>) -> (r: bool)
    ensures
        r == fields_readable(fs@),
{
    let mut k: usize = 0;
    while k < fs.len()
        invariant
            k <= fs@.len(),
            forall|i: int| 0 <= i < k ==> metas_readable((#[trigger] fs@[i]).attrs@),
        decreases fs@.len() - k,
    {
        if !metas_readable_exec(&fs[k].attrs) {
            return false;
        }
        k = k + 1;
    }
    true
}

fn fields_readable_exec(fields: &SourceFields) -> (r: bool)
    ensures
        r == source_fields_readable(*fields),
{
    match fields {
        SourceFields::Named(fs) => field_list_readable_exec(fs),
        SourceFields::Unnamed(fs) => field_list_readable_exec(fs),
        SourceFields::Unit => true,
    }
}

fn variants_readable_exec(variants: &Vec<SourceVariant>) -> (r: bool)
    ensures
        r == forall|i: int|
            0 <= i < variants@.len() ==> source_fields_readable((#[trigger] variants@[i]).fields),
{
    let mut k: usize = 0;
    while k < variants.len()
        invariant
            k <= variants@.len(),
            forall|i: int| 0 <= i < k ==> source_fields_readable((#[trigger] variants@[i]).fields),
        decreases variants@.len() - k,
    {
        if !fields_readable_exec(&variants[k].fields) {
            return false;
        }
        k = k + 1;
    }
    true
}

fn item_readable_exec(item: &SourceItem) -> (r: bool)
    ensures
        r == item_readable(*item),
{
    match item {
        SourceItem::Struct { attrs, fields, .. } => metas_readable_exec(attrs) && fields_readable_exec(
            fields,
        ),
        SourceItem::Enum { attrs, variants, .. } => metas_readable_exec(attrs)
            && variants_readable_exec(variants),
        _ => true,
    }
}

/// Whether the attribute tokens of every item can be read.
pub open spec fn all_readable(items: Seq<SourceItem>) -> bool {
    forall|k: int| 0 <= k < items.len() ==> item_readable(#[trigger] items[k])
}

fn items_readable_exec(items: &Vec<SourceItem>) -> (r: bool)
    ensures
        r == all_readable(items@),
{
    let mut k: usize = 0;
    while k < items.len()
        invariant
            k <= items@.len(),
            forall|i: int| 0 <= i < k ==> item_readable(#[trigger] items@[i]),
        decreases items@.len() - k,
    {
        if !item_readable_exec(&items[k]) {
            return false;
        }
        k = k + 1;
    }
    true
}

#[verifier::external_type_specification]
#[verifier::external_body]
pub struct ExSynItem(SynItem);

#[verifier::external_type_specification]
#[verifier::external_body]
pub struct ExSynAttribute(SynAttribute);

#[verifier::external_type_specification]
#[verifier::external_body]
pub struct ExSynType(syn::Type);

#[verifier::external_type_specification]
#[verifier::external_body]
pub struct ExSynPathSegment(SynPathSegment);

#[verifier::external_type_specification]
#[verifier::external_body]
pub struct ExSynExpr(syn::Expr);

#[verifier::external_type_specification]
#[verifier::external_body]
pub struct ExSynFields(syn::Fields);

#[verifier::external_type_specification]
#[verifier::external_body]
pub struct ExSynVisibility(SynVisibility);

#[verifier::external_type_specification]
#[verifier::external_body]
pub struct ExSynUseTree(syn::UseTree);

#[verifier::external_type_specification]
#[verifier::external_body]
pub struct ExSynVariant(SynVariant);

/// What `syn::parse_file` reads from a text, as the items it holds (each
/// converted one for one into a `SourceItem`), or the text of its error.
pub uninterp spec fn syn_items(text: Seq<char>) -> Result<Seq<SourceItem>, Seq<char>>;

/// The syn value of an attribute's `= value`, converted.
#[verifier::external_body]
fn source_value(e: &syn::Expr) -> SourceValue {
    match e {
        syn::Expr::Lit(lit) => match &lit.lit {
            syn::Lit::Str(s) => SourceValue::Str(s.value()),
            _ => SourceValue::OtherLiteral,
        },
        _ => SourceValue::NotLiteral,
    }
}

/// The length of a syn array type, converted.
#[verifier::external_body]
fn source_len(e: &syn::Expr) -> SourceLen {
    match e {
        syn::Expr::Lit(lit) => match &lit.lit {
            syn::Lit::Int(i) => SourceLen::Int(i.base10_parse::<usize>().map_err(|e| e.to_string())),
            _ => SourceLen::OtherLiteral,
        },
        _ => SourceLen::NotLiteral,
    }
}

/// A syn attribute, converted.
#[verifier::external_body]
fn source_meta(attr: &SynAttribute) -> SourceMeta {
    let name = |p: &syn::Path| p.get_ident().map(|i| i.to_string());
    match &attr.meta {
        syn::Meta::Path(p) => SourceMeta::Path(name(p)),
        syn::Meta::List(l) => SourceMeta::List { name: name(&l.path), tokens: l.tokens.to_string() },
        syn::Meta::NameValue(nv) => {
            SourceMeta::NameValue { name: name(&nv.path), value: source_value(&nv.value) }
        },
    }
}

/// The first angle-bracketed type argument of a syn path segment, converted.
#[verifier::external_body]
fn source_first_arg(seg: &SynPathSegment) -> Option<Box<SourceType>> {
    match &seg.arguments {
        syn::PathArguments::AngleBracketed(args) => match args.args.first() {
            Some(syn::GenericArgument::Type(inner)) => Some(Box::new(source_type(inner))),
            _ => None,
        },
        _ => None,
    }
}

/// A syn type, converted.
#[verifier::external_body]
fn source_type(ty: &syn::Type) -> SourceType {
    match ty {
        syn::Type::Path(tp) => SourceType::Path {
            last: tp.path.segments.last().map(|seg| seg.ident.to_string()),
            first_arg: tp.path.segments.last().and_then(source_first_arg),
        },
        syn::Type::Array(a) => {
            SourceType::Array { elem: Box::new(source_type(&a.elem)), len: source_len(&a.len) }
        },
        syn::Type::Slice(s) => SourceType::Slice(Box::new(source_type(&s.elem))),
        other => SourceType::Other(format!("{:?}", other)),
    }
}

/// The fields of a syn struct or variant, converted.
#[verifier::external_body]
fn source_fields(fields: &syn::Fields) -> SourceFields {
    let field = |f: &syn::Field| SourceField {
        name: f.ident.as_ref().map(|i| i.to_string()),
        attrs: f.attrs.iter().map(source_meta).collect(),
        ty: source_type(&f.ty),
    };
    match fields {
        syn::Fields::Named(n) => SourceFields::Named(n.named.iter().map(field).collect()),
        syn::Fields::Unnamed(u) => SourceFields::Unnamed(u.unnamed.iter().map(field).collect()),
        syn::Fields::Unit => SourceFields::Unit,
    }
}

/// Whether a syn visibility counts as public: schema items are public
/// unless restricted (`pub(crate)`, `pub(super)`, `pub(in ...)`).
#[verifier::external_body]
fn source_public(v: &SynVisibility) -> bool {
    !matches!(v, syn::Visibility::Restricted(_))
}

/// The attributes of a syn item, converted.
#[verifier::external_body]
fn source_metas(attrs: &Vec<SynAttribute>) -> Vec<SourceMeta> {
    attrs.iter().map(source_meta).collect()
}

/// A syn `use` tree, as the segments of a plain path (`None` for a group,
/// a glob or a rename).
#[verifier::external_body]
fn source_use(tree: &syn::UseTree) -> Option<Vec<String>> {
    match tree {
        syn::UseTree::Path(p) => source_use(&p.tree).map(|rest| {
            let mut v = vec![p.ident.to_string()];
            v.extend(rest);
            v
        }),
        syn::UseTree::Name(n) => Some(vec![n.ident.to_string()]),
        _ => None,
    }
}

/// A syn variant, converted.
#[verifier::external_body]
fn source_variant(v: &SynVariant) -> SourceVariant {
    SourceVariant { name: v.ident.to_string(), fields: source_fields(&v.fields) }
}

/// A syn item other than a struct or type alias, converted: enums, module
/// declarations and `use` statements are kept, the rest is `Other`.
#[verifier::external_body]
fn source_item_rest(item: &SynItem) -> SourceItem {
    match item {
        syn::Item::Enum(e) => SourceItem::Enum {
            name: e.ident.to_string(),
            attrs: source_metas(&e.attrs),
            variants: e.variants.iter().map(source_variant).collect(),
            public: source_public(&e.vis),
        },
        syn::Item::Mod(m) => {
            SourceItem::Mod { name: m.ident.to_string(), public: source_public(&m.vis), inline: m.content.is_some() }
        },
        syn::Item::Use(u) => SourceItem::Use(source_use(&u.tree)),
        _ => SourceItem::Other,
    }
}

/// A syn item, converted.
#[verifier::external_body]
fn source_item(item: &SynItem) -> SourceItem {
    match item {
        syn::Item::Struct(s) => SourceItem::Struct {
            name: s.ident.to_string(),
            attrs: source_metas(&s.attrs),
            fields: source_fields(&s.fields),
            public: source_public(&s.vis),
        },
        syn::Item::Type(t) => {
            SourceItem::Type { name: t.ident.to_string(), ty: source_type(&t.ty), public: source_public(&t.vis) }
        },
        _ => source_item_rest(item),
    }
}

/// `syn::parse_file`: reads a text as a Rust source file and gives its
/// items, each converted into a `SourceItem`, or the text of the syntax
/// error. The contract names the result; it is a function of the text
/// alone.
#[verifier::external_body]
fn syn_parse_items(text: &str) -> (r: Result<Vec<SourceItem>, String>)
    ensures
        match r {
            Ok(v) => syn_items(text@) == Ok::<Seq<SourceItem>, Seq<char>>(v@),
            Err(e) => syn_items(text@) == Err::<Seq<SourceItem>, Seq<char>>(e@),
        },
{
    match syn::parse_file(text) {
        Ok(f) => Ok(f.items.iter().map(source_item).collect()),
        Err(e) => Err(e.to_string()),
    }
}

/// The message for attribute tokens made of a single quote, which cannot
/// be read as a value.
pub open spec fn unreadable_message() -> Seq<char> {
    "Invalid attribute value: \""@
}

/// What reading a schema text gives: its imports are taken out, the rest
/// is read as Rust syntax (a syntax error is reported), an attribute whose
/// tokens are a single quote is refused, and the items are read as
/// `parse_source_file` reads them.
pub open spec fn file_answer(input: Seq<char>, r: Result<LumosFile, LumosError>) -> bool {
    match pattern_error(IMPORT_PATTERN@) {
        Some(m) => r matches Err(LumosError::SchemaParse(e)) && e@ == "Failed to compile import regex: "@
            + m,
        None => match imports_of(captured_groups(IMPORT_PATTERN@, input), 0) {
            Err(m) => r matches Err(e) && parse_error(e, m),
            Ok(imports) => match syn_items(matches_removed(IMPORT_PATTERN@, input)) {
                Err(m) => r matches Err(LumosError::SchemaParse(e)) && e@
                    == "Failed to parse .lumos file: "@ + m,
                Ok(items) => if !all_readable(items) {
                    r matches Err(LumosError::SchemaParse(e)) && e@ == unreadable_message()
                } else {
                    match r {
                        Ok(f) => import_views(f.imports@) == imports && file_of(
                            imports.len(),
                            items,
                        ) == Ok::<Seq<ItemView>, Seq<char>>(item_views(f.items@)) && decl_views(
                            f.modules@,
                        ) == decls_of(items) && use_views(f.uses@) == uses_of(items),
                        Err(e) => file_of(imports.len(), items) matches Err(m) && parse_error(e, m),
                    }
                },
            },
        },
    }
}

/// Reads the text of a schema file.
pub fn parse_lumos_file(input: &str) -> (r: Result<LumosFile, LumosError>)
    ensures
        file_answer(input@, r),
{
    let (imports, remaining) = match extract_imports(input) {
        Ok(p) => p,
        Err(e) => {
            return Err(e);
        },
    };
    let items = match syn_parse_items(remaining.as_str()) {
        Ok(v) => v,
        Err(e) => {
            let mut m = to_string("Failed to parse .lumos file: ");
            m.append(e.as_str());
            return Err(LumosError::SchemaParse(m));
        },
    };
    if !items_readable_exec(&items) {
        return Err(LumosError::SchemaParse(to_string("Invalid attribute value: \"")));
    }
    parse_source_file(imports, &items)
}

} // verus!
