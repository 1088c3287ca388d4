//! Intermediate representation (IR) of type definitions.
//!
//! The IR is a language-agnostic description of the structs, enums and
//! type aliases of a schema, from which the generators write code.

use vstd::prelude::*;

verus! {

/// Visibility of a type definition.
#[derive(Debug, Clone, Copy, PartialEq, Eq, Structural, Default)]
pub enum Visibility {
    /// Accessible from other modules.
    #[default]
    Public,
    /// Only accessible within the same module.
    Private,
}

impl Visibility {
    /// Whether this is public visibility.
    pub fn is_public(&self) -> (r: bool)
        ensures
            r == (*self is Public),
    {
        match self {
            Visibility::Public => true,
            Visibility::Private => false,
        }
    }

    /// Whether this is private visibility.
    pub fn is_private(&self) -> (r: bool)
        ensures
            r == (*self is Private),
    {
        match self {
            Visibility::Public => false,
            Visibility::Private => true,
        }
    }
}

/// Type information of a field, a tuple element or an alias target.
#[derive(Debug, PartialEq)]
pub enum TypeInfo {
    /// Primitive types (`u64`, `String`, `PublicKey`, ...).
    Primitive(String),
    /// Generic type parameter (`T`, `U`, ...).
    Generic(String),
    /// User-defined types (structs and enums of the schema).
    UserDefined(String),
    /// Dynamic array (`Vec<T>`).
    Array(Box<TypeInfo>),
    /// Fixed-size array (`[T; N]`).
    FixedArray { element: Box<TypeInfo>, size: usize },
    /// Option type.
    Option(Box<TypeInfo>),
}

/// Metadata about a type definition.
#[derive(Debug, Clone, Default, PartialEq)]
pub struct Metadata {
    /// Whether this is Solana-specific.
    pub solana: bool,
    /// Attribute names (e.g. `account`, `solana`).
    pub attributes: Vec<String>,
    /// Optional semantic version (e.g. "1.0.0").
    pub version: Option<String>,
    /// Custom derive macros requested by the user.
    pub custom_derives: Vec<String>,
    /// Whether this struct is an Anchor instruction context.
    pub is_instruction: bool,
    /// Raw Anchor struct attributes.
    pub anchor_attrs: Vec<String>,
}

/// A field in a struct or in a struct variant.
#[derive(Debug, Clone, PartialEq)]
pub struct FieldDefinition {
    /// Field name.
    pub name: String,
    /// Field type.
    pub type_info: TypeInfo,
    /// Whether this field is optional.
    pub optional: bool,
    /// Deprecation message (None if not deprecated).
    pub deprecated: Option<String>,
    /// Raw anchor attribute strings.
    pub anchor_attrs: Vec<String>,
}

/// Enum variant definition.
#[derive(Debug, Clone, PartialEq)]
pub enum EnumVariantDefinition {
    /// Unit variant (`Active`).
    Unit { name: String },
    /// Tuple variant (`PlayerJoined(PublicKey, u64)`).
    Tuple { name: String, types: Vec<TypeInfo> },
    /// Struct variant (`Initialize { authority: PublicKey }`).
    Struct { name: String, fields: Vec<FieldDefinition> },
}

/// Struct type definition.
#[derive(Debug, Clone, PartialEq)]
pub struct StructDefinition {
    /// Struct name.
    pub name: String,
    /// Generic type parameters.
    pub generic_params: Vec<String>,
    /// Fields in this struct.
    pub fields: Vec<FieldDefinition>,
    /// Metadata.
    pub metadata: Metadata,
    /// Visibility.
    pub visibility: Visibility,
    /// Module path (e.g. ["models", "user"]).
    pub module_segments: Vec<String>,
}

/// Enum type definition.
#[derive(Debug, Clone, PartialEq)]
pub struct EnumDefinition {
    /// Enum name.
    pub name: String,
    /// Generic type parameters.
    pub generic_params: Vec<String>,
    /// Variants in this enum.
    pub variants: Vec<EnumVariantDefinition>,
    /// Metadata.
    pub metadata: Metadata,
    /// Visibility.
    pub visibility: Visibility,
    /// Module path.
    pub module_segments: Vec<String>,
}

/// Type alias definition.
#[derive(Debug, Clone, PartialEq)]
pub struct TypeAliasDefinition {
    /// Alias name (e.g. "UserId").
    pub name: String,
    /// Target type (e.g. PublicKey).
    pub target: TypeInfo,
    /// Visibility.
    pub visibility: Visibility,
    /// Module path.
    pub module_segments: Vec<String>,
}

/// A type definition: struct, enum or type alias.
#[derive(Debug, Clone, PartialEq)]
pub enum TypeDefinition {
    /// Struct definition.
    Struct(StructDefinition),
    /// Enum definition.
    Enum(EnumDefinition),
    /// Type alias definition.
    TypeAlias(TypeAliasDefinition),
}

/// The name of a type definition.
pub open spec fn def_name(t: TypeDefinition) -> Seq<char> {
    match t {
        TypeDefinition::Struct(s) => s.name@,
        TypeDefinition::Enum(e) => e.name@,
        TypeDefinition::TypeAlias(a) => a.name@,
    }
}

/// The visibility of a type definition.
pub open spec fn def_visibility(t: TypeDefinition) -> Visibility {
    match t {
        TypeDefinition::Struct(s) => s.visibility,
        TypeDefinition::Enum(e) => e.visibility,
        TypeDefinition::TypeAlias(a) => a.visibility,
    }
}

/// The name of an enum variant.
pub open spec fn variant_name(v: EnumVariantDefinition) -> Seq<char> {
    match v {
        EnumVariantDefinition::Unit { name } => name@,
        EnumVariantDefinition::Tuple { name, .. } => name@,
        EnumVariantDefinition::Struct { name, .. } => name@,
    }
}

impl TypeDefinition {
    /// The name of this type definition.
    pub fn name(&self) -> (r: &str)
        ensures
            r@ == def_name(*self),
    {
        match self {
            TypeDefinition::Struct(s) => s.name.as_str(),
            TypeDefinition::Enum(e) => e.name.as_str(),
            TypeDefinition::TypeAlias(a) => a.name.as_str(),
        }
    }

    /// The metadata of this type definition (type aliases have none).
    pub fn metadata(&self) -> (r: Option<&Metadata>)
        ensures
            r == match *self {
                TypeDefinition::Struct(s) => Some(&s.metadata),
                TypeDefinition::Enum(e) => Some(&e.metadata),
                TypeDefinition::TypeAlias(_) => None,
            },
    {
        match self {
            TypeDefinition::Struct(s) => Some(&s.metadata),
            TypeDefinition::Enum(e) => Some(&e.metadata),
            TypeDefinition::TypeAlias(_) => None,
        }
    }

    /// Whether this is a Solana type (type aliases are not).
    pub fn is_solana(&self) -> (r: bool)
        ensures
            r == match *self {
                TypeDefinition::Struct(s) => s.metadata.solana,
                TypeDefinition::Enum(e) => e.metadata.solana,
                TypeDefinition::TypeAlias(_) => false,
            },
    {
        match self {
            TypeDefinition::Struct(s) => s.metadata.solana,
            TypeDefinition::Enum(e) => e.metadata.solana,
            TypeDefinition::TypeAlias(_) => false,
        }
    }

    /// Whether this is a type alias.
    pub fn is_type_alias(&self) -> (r: bool)
        ensures
            r == (*self is TypeAlias),
    {
        match self {
            TypeDefinition::TypeAlias(_) => true,
            _ => false,
        }
    }

    /// The visibility of this type definition.
    pub fn visibility(&self) -> (r: Visibility)
        ensures
            r == def_visibility(*self),
    {
        match self {
            TypeDefinition::Struct(s) => s.visibility,
            TypeDefinition::Enum(e) => e.visibility,
            TypeDefinition::TypeAlias(a) => a.visibility,
        }
    }

    /// The module path of this type definition.
    pub fn module_segments(&self) -> (r: &[String])
        ensures
            r@ == match *self {
                TypeDefinition::Struct(s) => s.module_segments@,
                TypeDefinition::Enum(e) => e.module_segments@,
                TypeDefinition::TypeAlias(a) => a.module_segments@,
            },
    {
        match self {
            TypeDefinition::Struct(s) => s.module_segments.as_slice(),
            TypeDefinition::Enum(e) => e.module_segments.as_slice(),
            TypeDefinition::TypeAlias(a) => a.module_segments.as_slice(),
        }
    }

    /// Whether this type is public.
    pub fn is_public(&self) -> (r: bool)
        ensures
            r == (def_visibility(*self) is Public),
    {
        self.visibility().is_public()
    }
}

impl TypeAliasDefinition {
    /// The alias name.
    pub fn alias_name(&self) -> (r: &str)
        ensures
            r@ == self.name@,
    {
        self.name.as_str()
    }

    /// The target type.
    pub fn target_type(&self) -> (r: &TypeInfo)
        ensures
            *r == self.target,
    {
        &self.target
    }
}

impl EnumDefinition {
    /// Whether this enum has only unit variants.
    pub fn is_unit_only(&self) -> (r: bool)
        ensures
            r == (forall|i: int|
                0 <= i < self.variants@.len() ==> #[trigger] self.variants@[i] is Unit),
    {
        let mut i: usize = 0;
        while i < self.variants.len()
            invariant
                i <= self.variants@.len(),
                forall|j: int| 0 <= j < i ==> #[trigger] self.variants@[j] is Unit,
            decreases self.variants@.len() - i,
        {
            match &self.variants[i] {
                EnumVariantDefinition::Unit { .. } => {},
                _ => {
                    return false;
                },
            }
            i = i + 1;
        }
        true
    }

    /// Whether this enum has struct variants.
    pub fn has_struct_variants(&self) -> (r: bool)
        ensures
            r == (exists|i: int|
                0 <= i < self.variants@.len() && #[trigger] self.variants@[i] is Struct),
    {
        let mut i: usize = 0;
        while i < self.variants.len()
            invariant
                i <= self.variants@.len(),
                forall|j: int| 0 <= j < i ==> !(#[trigger] self.variants@[j] is Struct),
            decreases self.variants@.len() - i,
        {
            match &self.variants[i] {
                EnumVariantDefinition::Struct { .. } => {
                    return true;
                },
                _ => {},
            }
            i = i + 1;
        }
        false
    }

    /// Whether this enum has tuple variants.
    pub fn has_tuple_variants(&self) -> (r: bool)
        ensures
            r == (exists|i: int|
                0 <= i < self.variants@.len() && #[trigger] self.variants@[i] is Tuple),
    {
        let mut i: usize = 0;
        while i < self.variants.len()
            invariant
                i <= self.variants@.len(),
                forall|j: int| 0 <= j < i ==> !(#[trigger] self.variants@[j] is Tuple),
            decreases self.variants@.len() - i,
        {
            match &self.variants[i] {
                EnumVariantDefinition::Tuple { .. } => {
                    return true;
                },
                _ => {},
            }
            i = i + 1;
        }
        false
    }
}

impl EnumVariantDefinition {
    /// The variant name.
    pub fn name(&self) -> (r: &str)
        ensures
            r@ == variant_name(*self),
    {
        match self {
            EnumVariantDefinition::Unit { name } => name.as_str(),
            EnumVariantDefinition::Tuple { name, .. } => name.as_str(),
            EnumVariantDefinition::Struct { name, .. } => name.as_str(),
        }
    }
}

/// A copy of a type.
pub fn copy_type_info(t: &TypeInfo) -> (r: TypeInfo)
    ensures
        r == *t,
    decreases t,
{
    match t {
        TypeInfo::Primitive(n) => TypeInfo::Primitive(n.clone()),
        TypeInfo::Generic(n) => TypeInfo::Generic(n.clone()),
        TypeInfo::UserDefined(n) => TypeInfo::UserDefined(n.clone()),
        TypeInfo::Array(inner) => TypeInfo::Array(Box::new(copy_type_info(inner))),
        TypeInfo::FixedArray { element, size } => TypeInfo::FixedArray {
            element: Box::new(copy_type_info(element)),
            size: *size,
        },
        TypeInfo::Option(inner) => TypeInfo::Option(Box::new(copy_type_info(inner))),
    }
}

impl Clone for TypeInfo {
    fn clone(&self) -> (r: Self)
        ensures
            r == *self,
    {
        copy_type_info(self)
    }
}

/// A copy of a list of strings.
pub fn copy_strings(v: &Vec<String>) -> (r: Vec<String>)
    ensures
        r@ == v@,
{
    let mut r: Vec<String> = Vec::new();
    let mut i: usize = 0;
    while i < v.len()
        invariant
            i <= v@.len(),
            r@ == v@.subrange(0, i as int),
        decreases v@.len() - i,
    {
        r.push(v[i].clone());
        i = i + 1;
        assert(r@ =~= v@.subrange(0, i as int));
    }
    assert(r@ =~= v@);
    r
}

/// A copy of an optional string.
pub fn copy_opt_string(v: &Option<String>) -> (r: Option<String>)
    ensures
        r == *v,
{
    match v {
        Some(s) => Some(s.clone()),
        None => None,
    }
}

} // verus!
