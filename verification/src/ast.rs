//! The syntax tree of a schema file: structs, enums and type aliases with
//! their attributes and visibility, imports, module declarations and `use`
//! statements.

use vstd::prelude::*;
use crate::text::copy_string;

verus! {

/// A type as written in a schema, before aliases are resolved.
#[derive(Debug, PartialEq)]
pub enum TypeSpec {
    /// A name that may be a primitive, an alias or a user-defined type.
    Primitive(String),
    /// A vector (`[T]`).
    Array(Box<TypeSpec>),
    /// A fixed-size array (`[T; N]`).
    FixedArray { element: Box<TypeSpec>, size: usize },
    /// A user-defined type or an alias.
    UserDefined(String),
}

/// A copy of a type spec.
pub fn copy_type_spec(t: &TypeSpec) -> (r: TypeSpec)
    ensures
        r == *t,
    decreases t,
{
    match t {
        TypeSpec::Primitive(n) => TypeSpec::Primitive(copy_string(n)),
        TypeSpec::Array(inner) => TypeSpec::Array(Box::new(copy_type_spec(inner))),
        TypeSpec::FixedArray { element, size } => TypeSpec::FixedArray {
            element: Box::new(copy_type_spec(element)),
            size: *size,
        },
        TypeSpec::UserDefined(n) => TypeSpec::UserDefined(copy_string(n)),
    }
}

impl Clone for TypeSpec {
    fn clone(&self) -> (r: Self)
        ensures
            r == *self,
    {
        copy_type_spec(self)
    }
}

impl TypeSpec {
    /// Whether this is a vector type.
    pub fn is_array(&self) -> (r: bool)
        ensures
            r == (*self is Array),
    {
        match self {
            TypeSpec::Array(_) => true,
            _ => false,
        }
    }
}

/// The value of an attribute.
#[derive(Debug, Clone, PartialEq, Eq)]
pub enum AttributeValue {
    /// A string.
    String(String),
    /// An integer.
    Integer(u64),
    /// A boolean.
    Bool(bool),
    /// A list of names (`derive`).
    List(Vec<String>),
}

/// An attribute such as `#[solana]`, `#[max(100)]` or `#[version = "1.0.0"]`.
#[derive(Debug, Clone, PartialEq, Eq)]
pub struct Attribute {
    /// Attribute name.
    pub name: String,
    /// Attribute value, if any.
    pub value: Option<AttributeValue>,
}

/// Whether an attribute list holds one named `n`.
pub open spec fn has_attr(attrs: Seq<Attribute>, n: Seq<char>) -> bool {
    exists|k: int| 0 <= k < attrs.len() && (#[trigger] attrs[k]).name@ == n
}

/// Whether an attribute list holds one named `n`.
pub fn has_attr_exec(attrs: &Vec<Attribute>, n: &str) -> (r: bool)
    ensures
        r == has_attr(attrs@, n@),
{
    let mut k: usize = 0;
    while k < attrs.len()
        invariant
            k <= attrs@.len(),
            forall|m: int| 0 <= m < k ==> (#[trigger] attrs@[m]).name@ != n@,
        decreases attrs@.len() - k,
    {
        if crate::text::str_eq(attrs[k].name.as_str(), n) {
            assert(attrs@[k as int].name@ == n@);
            return true;
        }
        k = k + 1;
    }
    false
}

/// The first attribute from position `i` on that is named `n`.
pub open spec fn first_attr(attrs: Seq<Attribute>, n: Seq<char>, i: int) -> Option<Attribute>
    decreases attrs.len() - i,
{
    if 0 <= i < attrs.len() {
        if attrs[i].name@ == n {
            Some(attrs[i])
        } else {
            first_attr(attrs, n, i + 1)
        }
    } else {
        None
    }
}

/// The position of the first attribute named `n`.
pub fn find_attr(attrs: &Vec<Attribute>, n: &str) -> (r: Option<usize>)
    ensures
        match r {
            Some(k) => k < attrs@.len() && first_attr(attrs@, n@, 0) == Some(attrs@[k as int]),
            None => first_attr(attrs@, n@, 0) is None,
        },
{
    let mut k: usize = 0;
    while k < attrs.len()
        invariant
            k <= attrs@.len(),
            first_attr(attrs@, n@, 0) == first_attr(attrs@, n@, k as int),
        decreases attrs@.len() - k,
    {
        if crate::text::str_eq(attrs[k].name.as_str(), n) {
            return Some(k);
        }
        k = k + 1;
    }
    None
}

/// A field of a struct or struct variant.
#[derive(Debug, Clone)]
pub struct FieldDef {
    /// Field name.
    pub name: String,
    /// Field type (the inner type of an `Option`).
    pub type_spec: TypeSpec,
    /// Whether the field was written `Option<T>`.
    pub optional: bool,
    /// Field attributes.
    pub attributes: Vec<Attribute>,
}

impl FieldDef {
    /// Whether the field has an attribute named `n`.
    pub fn has_attribute(&self, n: &str) -> (r: bool)
        ensures
            r == has_attr(self.attributes@, n@),
    {
        has_attr_exec(&self.attributes, n)
    }

    /// The first attribute named `n`.
    pub fn get_attribute(&self, n: &str) -> (r: Option<&Attribute>)
        ensures
            match r {
                Some(a) => first_attr(self.attributes@, n@, 0) == Some(*a),
                None => first_attr(self.attributes@, n@, 0) is None,
            },
    {
        match find_attr(&self.attributes, n) {
            Some(k) => Some(&self.attributes[k]),
            None => None,
        }
    }
}

/// An enum variant.
#[derive(Debug, Clone)]
pub enum EnumVariant {
    /// `Name`
    Unit { name: String },
    /// `Name(T, U)`
    Tuple { name: String, types: Vec<TypeSpec> },
    /// `Name { field: T }`
    Struct { name: String, fields: Vec<FieldDef> },
}

/// A struct definition.
#[derive(Debug, Clone)]
pub struct StructDef {
    /// Struct name.
    pub name: String,
    /// Attributes.
    pub attributes: Vec<Attribute>,
    /// Fields.
    pub fields: Vec<FieldDef>,
    /// Schema version, normalized.
    pub version: Option<String>,
    /// Whether it is public (items are unless restricted, as in `pub(crate)`).
    pub public: bool,
}

impl StructDef {
    /// Whether the struct has an attribute named `n`.
    pub fn has_attribute(&self, n: &str) -> (r: bool)
        ensures
            r == has_attr(self.attributes@, n@),
    {
        has_attr_exec(&self.attributes, n)
    }

    /// The first attribute named `n`.
    pub fn get_attribute(&self, n: &str) -> (r: Option<&Attribute>)
        ensures
            match r {
                Some(a) => first_attr(self.attributes@, n@, 0) == Some(*a),
                None => first_attr(self.attributes@, n@, 0) is None,
            },
    {
        match find_attr(&self.attributes, n) {
            Some(k) => Some(&self.attributes[k]),
            None => None,
        }
    }
}

/// An enum definition.
#[derive(Debug, Clone)]
pub struct EnumDef {
    /// Enum name.
    pub name: String,
    /// Attributes.
    pub attributes: Vec<Attribute>,
    /// Variants.
    pub variants: Vec<EnumVariant>,
    /// Schema version, normalized.
    pub version: Option<String>,
    /// Whether it is public (items are unless restricted, as in `pub(crate)`).
    pub public: bool,
}

impl EnumDef {
    /// Whether the enum has an attribute named `n`.
    pub fn has_attribute(&self, n: &str) -> (r: bool)
        ensures
            r == has_attr(self.attributes@, n@),
    {
        has_attr_exec(&self.attributes, n)
    }

    /// The first attribute named `n`.
    pub fn get_attribute(&self, n: &str) -> (r: Option<&Attribute>)
        ensures
            match r {
                Some(a) => first_attr(self.attributes@, n@, 0) == Some(*a),
                None => first_attr(self.attributes@, n@, 0) is None,
            },
    {
        match find_attr(&self.attributes, n) {
            Some(k) => Some(&self.attributes[k]),
            None => None,
        }
    }
}

/// A type alias definition: `type Name = Target;`.
#[derive(Debug, Clone)]
pub struct TypeAlias {
    /// Alias name.
    pub name: String,
    /// Target type.
    pub target: TypeSpec,
    /// Whether it is public (items are unless restricted, as in `pub(crate)`).
    pub public: bool,
}

/// An import: `import { A, B } from "./path.lumos";`.
#[derive(Debug, Clone, PartialEq, Eq)]
pub struct Import {
    /// Imported names.
    pub items: Vec<String>,
    /// Path of the file imported from.
    pub path: String,
}

/// A definition of a schema file.
#[derive(Debug, Clone)]
pub enum Item {
    /// A struct.
    Struct(StructDef),
    /// An enum.
    Enum(EnumDef),
    /// A type alias.
    TypeAlias(TypeAlias),
}

/// The name an item defines.
pub open spec fn item_name(it: Item) -> Seq<char> {
    match it {
        Item::Struct(s) => s.name@,
        Item::Enum(e) => e.name@,
        Item::TypeAlias(a) => a.name@,
    }
}

/// A segment of a `use` path.
#[derive(Debug, Clone, PartialEq, Eq)]
pub enum PathSegment {
    /// `crate`
    Crate,
    /// `super`
    Super,
    /// `self`
    SelfPath,
    /// A module or type name.
    Ident(String),
}

/// A `use` path such as `crate::models::User`.
#[derive(Debug, Clone)]
pub struct UsePath {
    /// The segments, in order.
    pub segments: Vec<PathSegment>,
}

/// A module declaration: `mod name;`.
#[derive(Debug, Clone)]
pub struct ModuleDecl {
    /// Module name.
    pub name: String,
    /// Whether it is public (items are unless restricted, as in `pub(crate)`).
    pub public: bool,
}

/// A parsed schema file.
#[derive(Debug, Clone)]
pub struct LumosFile {
    /// Imports, in order.
    pub imports: Vec<Import>,
    /// Definitions, in order.
    pub items: Vec<Item>,
    /// Module declarations, in order.
    pub modules: Vec<ModuleDecl>,
    /// `use` statements, in order.
    pub uses: Vec<UsePath>,
}

} // verus!
