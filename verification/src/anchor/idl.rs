//! Anchor IDL generation: the IDL document model, the conversion of schema
//! types into IDL types, and account space calculation.

use vstd::prelude::*;
use crate::ir::{
    EnumDefinition, EnumVariantDefinition, FieldDefinition, StructDefinition, TypeDefinition,
    TypeInfo,
};
use crate::text::{
    char_is_lower, char_is_upper, char_lowercased, chars_of, copy_string, dec, has_string,
    has_string_exec, is_lowercase, is_uppercase, string_from_chars, to_lowercase_first, to_string,
    usize_to_string, views,
};

verus! {

// ---------------------------------------------------------------------
// The IDL document
// ---------------------------------------------------------------------

/// Anchor IDL root.
#[derive(Debug)]
pub struct Idl {
    /// IDL version.
    pub version: String,
    /// Program name (snake_case).
    pub name: String,
    /// Program instructions.
    pub instructions: Vec<IdlInstruction>,
    /// Account types (structs with `#[account]`).
    pub accounts: Vec<IdlTypeDef>,
    /// Other structs and enums.
    pub types: Vec<IdlTypeDef>,
    /// Program events.
    pub events: Vec<IdlEvent>,
    /// Program errors.
    pub errors: Vec<IdlError>,
    /// Program metadata.
    pub metadata: Option<IdlMetadata>,
}

/// An instruction.
#[derive(Debug)]
pub struct IdlInstruction {
    /// Instruction name (snake_case).
    pub name: String,
    /// Instruction accounts.
    pub accounts: Vec<IdlAccountItem>,
    /// Instruction arguments.
    pub args: Vec<IdlField>,
}

/// A single account or a group of nested accounts.
#[derive(Debug)]
pub enum IdlAccountItem {
    /// A single account.
    Single(IdlAccount),
    /// Nested accounts.
    Composite(IdlAccountComposite),
}

/// An account of an instruction.
#[derive(Debug, Clone)]
pub struct IdlAccount {
    /// Account name.
    pub name: String,
    /// Whether the account is mutable.
    pub is_mut: bool,
    /// Whether the account signs.
    pub is_signer: bool,
    /// Whether the account is optional.
    pub is_optional: Option<bool>,
    /// Documentation.
    pub docs: Vec<String>,
    /// PDA seeds.
    pub pda: Option<IdlPda>,
}

/// Nested accounts.
#[derive(Debug)]
pub struct IdlAccountComposite {
    /// Group name.
    pub name: String,
    /// Accounts of the group.
    pub accounts: Vec<IdlAccountItem>,
}

/// Program derived address configuration.
#[derive(Debug, Clone)]
pub struct IdlPda {
    /// Seeds.
    pub seeds: Vec<IdlSeed>,
    /// Program id, where it is another program.
    pub program_id: Option<String>,
}

/// A PDA seed.
#[derive(Debug, Clone)]
pub enum IdlSeed {
    /// Literal bytes.
    Const { value: String },
    /// Taken from an account.
    Account { path: String },
    /// Taken from an instruction argument.
    Arg { path: String },
}

/// A type definition.
#[derive(Debug, Clone)]
pub struct IdlTypeDef {
    /// Type name.
    pub name: String,
    /// Documentation.
    pub docs: Vec<String>,
    /// Struct or enum body.
    pub ty: IdlTypeDefTy,
}

/// The body of a type definition.
#[derive(Debug, Clone)]
pub enum IdlTypeDefTy {
    /// A struct.
    Struct {
        /// Fields.
        fields: Vec<IdlField>,
    },
    /// An enum.
    Enum {
        /// Variants.
        variants: Vec<IdlEnumVariant>,
    },
}

/// A field of a struct or an instruction argument.
#[derive(Debug, Clone)]
pub struct IdlField {
    /// Field name (snake_case).
    pub name: String,
    /// Field type.
    pub ty: IdlType,
    /// Documentation.
    pub docs: Vec<String>,
}

/// An enum variant.
#[derive(Debug, Clone)]
pub struct IdlEnumVariant {
    /// Variant name.
    pub name: String,
    /// Fields of a struct or tuple variant.
    pub fields: Option<IdlEnumFields>,
}

/// The fields of an enum variant.
#[derive(Debug, Clone)]
pub enum IdlEnumFields {
    /// Named fields.
    Named(Vec<IdlField>),
    /// Positional fields.
    Tuple(Vec<IdlType>),
}

/// An IDL type.
#[derive(Debug)]
pub enum IdlType {
    /// A primitive, by name.
    Primitive(String),
    /// A fixed-size array.
    Array(IdlTypeArray),
    /// An optional value.
    Option(IdlTypeOption),
    /// A vector.
    Vec(IdlTypeVec),
    /// A type defined in the IDL.
    Defined(IdlTypeDefined),
}

/// Element type and length of an array.
#[derive(Debug)]
pub struct IdlTypeArray {
    /// Element type and length.
    pub array: (Box<IdlType>, usize),
}

/// A copy of an IDL type.
pub fn copy_idl_type(t: &IdlType) -> (r: IdlType)
    ensures
        r == *t,
    decreases t,
{
    match t {
        IdlType::Primitive(s) => IdlType::Primitive(copy_string(s)),
        IdlType::Array(a) => IdlType::Array(
            IdlTypeArray { array: (Box::new(copy_idl_type(&a.array.0)), a.array.1) },
        ),
        IdlType::Option(o) => IdlType::Option(
            IdlTypeOption { option: Box::new(copy_idl_type(&o.option)) },
        ),
        IdlType::Vec(v) => IdlType::Vec(IdlTypeVec { vec: Box::new(copy_idl_type(&v.vec)) }),
        IdlType::Defined(d) => IdlType::Defined(IdlTypeDefined { defined: copy_string(&d.defined) }),
    }
}

impl Clone for IdlType {
    fn clone(&self) -> (r: Self)
        ensures
            r == *self,
    {
        copy_idl_type(self)
    }
}

impl Clone for IdlTypeArray {
    fn clone(&self) -> (r: Self)
        ensures
            r == *self,
    {
        IdlTypeArray { array: (Box::new(copy_idl_type(&self.array.0)), self.array.1) }
    }
}

impl Clone for IdlTypeOption {
    fn clone(&self) -> (r: Self)
        ensures
            r == *self,
    {
        IdlTypeOption { option: Box::new(copy_idl_type(&self.option)) }
    }
}

impl Clone for IdlTypeVec {
    fn clone(&self) -> (r: Self)
        ensures
            r == *self,
    {
        IdlTypeVec { vec: Box::new(copy_idl_type(&self.vec)) }
    }
}

impl Clone for IdlTypeDefined {
    fn clone(&self) -> (r: Self)
        ensures
            r == *self,
    {
        IdlTypeDefined { defined: copy_string(&self.defined) }
    }
}

/// The inner type of an option.
#[derive(Debug)]
pub struct IdlTypeOption {
    /// Inner type.
    pub option: Box<IdlType>,
}

/// The element type of a vector.
#[derive(Debug)]
pub struct IdlTypeVec {
    /// Element type.
    pub vec: Box<IdlType>,
}

/// A reference to a defined type.
#[derive(Debug)]
pub struct IdlTypeDefined {
    /// Type name.
    pub defined: String,
}

/// A program event.
#[derive(Debug, Clone)]
pub struct IdlEvent {
    /// Event name.
    pub name: String,
    /// Event fields.
    pub fields: Vec<IdlEventField>,
}

/// A field of an event.
#[derive(Debug, Clone)]
pub struct IdlEventField {
    /// Field name.
    pub name: String,
    /// Field type.
    pub ty: IdlType,
    /// Whether the field is indexed.
    pub index: bool,
}

/// A program error.
#[derive(Debug, Clone)]
pub struct IdlError {
    /// Error code.
    pub code: u32,
    /// Error name.
    pub name: String,
    /// Error message.
    pub msg: Option<String>,
}

/// Program metadata.
#[derive(Debug, Clone)]
pub struct IdlMetadata {
    /// Program address.
    pub address: Option<String>,
}

/// Configuration of the IDL generator.
#[derive(Debug, Clone)]
pub struct IdlGeneratorConfig {
    /// Program name (written in snake_case in the IDL).
    pub program_name: String,
    /// Program version.
    pub version: String,
    /// Program address.
    pub address: Option<String>,
}

impl Default for IdlGeneratorConfig {
    fn default() -> (r: Self)
        ensures
            r.program_name@ == "my_program"@,
            r.version@ == "0.1.0"@,
            r.address is None,
    {
        IdlGeneratorConfig {
            program_name: to_string("my_program"),
            version: to_string("0.1.0"),
            address: None,
        }
    }
}

// ---------------------------------------------------------------------
// Views
// ---------------------------------------------------------------------

/// An IDL type with its names as characters.
pub enum IdlTypeView {
    Primitive(Seq<char>),
    Array(Box<IdlTypeView>, usize),
    Option(Box<IdlTypeView>),
    Vec(Box<IdlTypeView>),
    Defined(Seq<char>),
}

/// The view of an IDL type.
pub open spec fn idl_type_view(t: IdlType) -> IdlTypeView
    decreases t,
{
    match t {
        IdlType::Primitive(s) => IdlTypeView::Primitive(s@),
        IdlType::Array(a) => IdlTypeView::Array(Box::new(idl_type_view(*a.array.0)), a.array.1),
        IdlType::Option(o) => IdlTypeView::Option(Box::new(idl_type_view(*o.option))),
        IdlType::Vec(v) => IdlTypeView::Vec(Box::new(idl_type_view(*v.vec))),
        IdlType::Defined(d) => IdlTypeView::Defined(d.defined@),
    }
}

impl View for IdlType {
    type V = IdlTypeView;

    open spec fn view(&self) -> IdlTypeView {
        idl_type_view(*self)
    }
}

/// The IDL name of a primitive type.
pub open spec fn idl_primitive(n: Seq<char>) -> Seq<char> {
    if n == "String"@ || n == "string"@ || n == "Signature"@ {
        "string"@
    } else if n == "PublicKey"@ || n == "Pubkey"@ {
        "publicKey"@
    } else {
        n
    }
}

/// The IDL type of a schema type.
pub open spec fn idl_type_of(t: TypeInfo) -> IdlTypeView
    decreases t,
{
    match t {
        TypeInfo::Primitive(n) => IdlTypeView::Primitive(idl_primitive(n@)),
        TypeInfo::Generic(n) => IdlTypeView::Defined(n@),
        TypeInfo::UserDefined(n) => IdlTypeView::Defined(n@),
        TypeInfo::Array(inner) => IdlTypeView::Vec(Box::new(idl_type_of(*inner))),
        TypeInfo::FixedArray { element, size } => IdlTypeView::Array(
            Box::new(idl_type_of(*element)),
            size,
        ),
        TypeInfo::Option(inner) => IdlTypeView::Option(Box::new(idl_type_of(*inner))),
    }
}

// ---------------------------------------------------------------------
// snake_case
// ---------------------------------------------------------------------

/// The text written and whether the last character read was lower case,
/// after the first `k` characters of `s`.
pub open spec fn snake_run(s: Seq<char>, k: nat) -> (Seq<char>, bool)
    decreases k,
{
    if k == 0 || k > s.len() {
        (Seq::empty(), false)
    } else {
        let (r, prev_lower) = snake_run(s, (k - 1) as nat);
        let c = s[k - 1];
        if char_is_upper(c) {
            let r1 = if prev_lower || (k - 1 > 0 && !(r.len() > 0 && r.last() == '_')) {
                r.push('_')
            } else {
                r
            };
            (r1.push(char_lowercased(c)), false)
        } else {
            (r.push(c), char_is_lower(c))
        }
    }
}

/// `s` in snake_case: an underscore before each upper-case letter that
/// follows a lower-case one or that is not the first character and does not
/// follow an underscore, upper-case letters lowered, and a leading
/// underscore dropped.
pub open spec fn snake_case(s: Seq<char>) -> Seq<char> {
    let r = snake_run(s, s.len()).0;
    if r.len() > 0 && r[0] == '_' {
        r.drop_first()
    } else {
        r
    }
}

/// Converts a name to snake_case.
pub fn to_snake_case(s: &str) -> (r: String)
    ensures
        r@ == snake_case(s@),
{
    let cs = chars_of(s);
    let mut result: Vec<char> = Vec::new();
    let mut prev_lower = false;
    let mut i: usize = 0;
    while i < cs.len()
        invariant
            cs@ == s@,
            i <= cs@.len(),
            (result@, prev_lower) == snake_run(s@, i as nat),
        decreases cs@.len() - i,
    {
        let c = cs[i];
        if is_uppercase(c) {
            let ends_underscore = result.len() > 0 && result[result.len() - 1] == '_';
            if prev_lower || (i > 0 && !ends_underscore) {
                result.push('_');
            }
            result.push(to_lowercase_first(c));
            prev_lower = false;
        } else {
            result.push(c);
            prev_lower = is_lowercase(c);
        }
        i = i + 1;
    }
    if result.len() > 0 && result[0] == '_' {
        let mut rest: Vec<char> = Vec::new();
        let mut j: usize = 1;
        while j < result.len()
            invariant
                1 <= j <= result@.len(),
                rest@ == result@.subrange(1, j as int),
            decreases result@.len() - j,
        {
            rest.push(result[j]);
            j = j + 1;
        }
        assert(rest@ =~= result@.drop_first());
        string_from_chars(rest.as_slice())
    } else {
        string_from_chars(result.as_slice())
    }
}

// ---------------------------------------------------------------------
// Converting definitions
// ---------------------------------------------------------------------

/// The IDL type of a field: an optional field whose type is not already an
/// option is wrapped in one.
pub open spec fn field_idl_type(f: FieldDefinition) -> IdlTypeView {
    if f.optional && !(f.type_info is Option) {
        IdlTypeView::Option(Box::new(idl_type_of(f.type_info)))
    } else {
        idl_type_of(f.type_info)
    }
}

/// The documentation of a field: its deprecation note, if any.
pub open spec fn field_docs(f: FieldDefinition) -> Seq<Seq<char>> {
    match f.deprecated {
        Some(m) => seq!["@deprecated "@ + m@],
        None => Seq::empty(),
    }
}

/// Whether `r` is the IDL field written for `f`.
pub open spec fn field_converted(r: IdlField, f: FieldDefinition) -> bool {
    &&& r.name@ == snake_case(f.name@)
    &&& r.ty@ == field_idl_type(f)
    &&& views(r.docs@) == field_docs(f)
}

/// Whether `r` holds the IDL fields written for `fs`, in order.
pub open spec fn fields_converted(r: Seq<IdlField>, fs: Seq<FieldDefinition>) -> bool {
    r.len() == fs.len() && forall|i: int| 0 <= i < r.len() ==> field_converted(#[trigger] r[i], fs[i])
}

/// Whether `r` holds the IDL types of `ts`, in order.
pub open spec fn types_converted(r: Seq<IdlType>, ts: Seq<TypeInfo>) -> bool {
    r.len() == ts.len() && forall|i: int| 0 <= i < r.len() ==> (#[trigger] r[i])@ == idl_type_of(ts[i])
}

/// Whether `r` is the IDL variant written for `v`.
pub open spec fn variant_converted(r: IdlEnumVariant, v: EnumVariantDefinition) -> bool {
    match v {
        EnumVariantDefinition::Unit { name } => r.name@ == name@ && r.fields is None,
        EnumVariantDefinition::Tuple { name, types } => r.name@ == name@ && match r.fields {
            Some(IdlEnumFields::Tuple(ts)) => types_converted(ts@, types@),
            _ => false,
        },
        EnumVariantDefinition::Struct { name, fields } => r.name@ == name@ && match r.fields {
            Some(IdlEnumFields::Named(fs)) => fields_converted(fs@, fields@),
            _ => false,
        },
    }
}

/// Whether `r` is the IDL type definition written for struct `s`.
pub open spec fn struct_converted(r: IdlTypeDef, s: StructDefinition) -> bool {
    &&& r.name@ == s.name@
    &&& r.docs@.len() == 0
    &&& match r.ty {
        IdlTypeDefTy::Struct { fields } => fields_converted(fields@, s.fields@),
        _ => false,
    }
}

/// Whether `r` is the IDL type definition written for enum `e`.
pub open spec fn enum_converted(r: IdlTypeDef, e: EnumDefinition) -> bool {
    &&& r.name@ == e.name@
    &&& r.docs@.len() == 0
    &&& match r.ty {
        IdlTypeDefTy::Enum { variants } => variants@.len() == e.variants@.len() && forall|i: int|
            0 <= i < variants@.len() ==> variant_converted(
                #[trigger] variants@[i],
                e.variants@[i],
            ),
        _ => false,
    }
}

/// Whether a struct carries the `account` attribute.
pub open spec fn is_account_struct(s: StructDefinition) -> bool {
    has_string(s.metadata.attributes@, "account"@)
}

/// The account structs among `defs`, in order.
pub open spec fn account_structs(defs: Seq<TypeDefinition>) -> Seq<StructDefinition>
    decreases defs.len(),
{
    if defs.len() == 0 {
        Seq::empty()
    } else {
        let rest = account_structs(defs.drop_last());
        match defs.last() {
            TypeDefinition::Struct(s) => if is_account_struct(s) {
                rest.push(s)
            } else {
                rest
            },
            _ => rest,
        }
    }
}

/// The other structs and the enums among `defs`, in order; aliases are left
/// out.
pub open spec fn plain_types(defs: Seq<TypeDefinition>) -> Seq<TypeDefinition>
    decreases defs.len(),
{
    if defs.len() == 0 {
        Seq::empty()
    } else {
        let rest = plain_types(defs.drop_last());
        match defs.last() {
            TypeDefinition::Struct(s) => if is_account_struct(s) {
                rest
            } else {
                rest.push(defs.last())
            },
            TypeDefinition::Enum(_) => rest.push(defs.last()),
            TypeDefinition::TypeAlias(_) => rest,
        }
    }
}

/// Whether `r` is the IDL type definition written for `d`.
pub open spec fn def_converted(r: IdlTypeDef, d: TypeDefinition) -> bool {
    match d {
        TypeDefinition::Struct(s) => struct_converted(r, s),
        TypeDefinition::Enum(e) => enum_converted(r, e),
        TypeDefinition::TypeAlias(_) => false,
    }
}

// ---------------------------------------------------------------------
// Sizes
// ---------------------------------------------------------------------

/// The Borsh size of a primitive type; a string counts its length prefix
/// only, and an unknown name counts nothing.
pub open spec fn primitive_size(n: Seq<char>) -> nat {
    if n == "u8"@ || n == "i8"@ || n == "bool"@ {
        1
    } else if n == "u16"@ || n == "i16"@ {
        2
    } else if n == "u32"@ || n == "i32"@ || n == "f32"@ {
        4
    } else if n == "u64"@ || n == "i64"@ || n == "f64"@ {
        8
    } else if n == "u128"@ || n == "i128"@ {
        16
    } else if n == "PublicKey"@ || n == "Pubkey"@ {
        32
    } else if n == "Signature"@ {
        64
    } else if n == "String"@ || n == "string"@ {
        4
    } else {
        0
    }
}

/// The size in bytes of a value of type `t`; an optional field whose type is
/// not already an option adds a tag byte. Generic and user-defined types
/// count nothing.
pub open spec fn type_size(t: TypeInfo, optional: bool) -> nat
    decreases t,
{
    let base: nat = match t {
        TypeInfo::Primitive(n) => primitive_size(n@),
        TypeInfo::Generic(_) => 0,
        TypeInfo::UserDefined(_) => 0,
        TypeInfo::Array(inner) => 4 + type_size(*inner, false),
        TypeInfo::FixedArray { element, size } => type_size(*element, false) * (size as nat),
        TypeInfo::Option(inner) => 1 + type_size(*inner, false),
    };
    if optional && !(t is Option) {
        1 + base
    } else {
        base
    }
}

/// Whether the size of `t` and of each type inside it fits in `usize`.
pub open spec fn type_size_fits(t: TypeInfo, optional: bool) -> bool
    decreases t,
{
    &&& type_size(t, optional) <= usize::MAX
    &&& match t {
        TypeInfo::Array(inner) => type_size_fits(*inner, false),
        TypeInfo::FixedArray { element, .. } => type_size_fits(*element, false),
        TypeInfo::Option(inner) => type_size_fits(*inner, false),
        _ => true,
    }
}

/// The sum of the sizes of the fields.
pub open spec fn fields_size(fs: Seq<FieldDefinition>) -> nat
    decreases fs.len(),
{
    if fs.len() == 0 {
        0
    } else {
        fields_size(fs.drop_last()) + type_size(fs.last().type_info, fs.last().optional)
    }
}

/// The space of an account: the 8-byte discriminator and its fields.
pub open spec fn account_space(s: StructDefinition) -> nat {
    8 + fields_size(s.fields@)
}

/// Whether the space of an account, and each size summed into it, fits in
/// `usize`.
pub open spec fn account_space_fits(s: StructDefinition) -> bool {
    &&& account_space(s) <= usize::MAX
    &&& forall|i: int|
        0 <= i < s.fields@.len() ==> type_size_fits(
            #[trigger] s.fields@[i].type_info,
            s.fields@[i].optional,
        )
}

/// The `LEN` constant written for an account.
pub open spec fn len_constant_text(s: StructDefinition) -> Seq<char> {
    "impl "@ + s.name@ + " {\n    pub const LEN: usize = "@ + dec(account_space(s)) + ";\n}"@
}

/// An optional field takes the space of an `Option` of its type: one tag
/// byte more than the type itself, and a field that is already an `Option`
/// takes no extra byte for being optional.
pub proof fn law_optional_field_sized_as_option(t: TypeInfo)
    ensures
        !(t is Option) ==> type_size(t, true) == type_size(TypeInfo::Option(Box::new(t)), false),
        t is Option ==> type_size(t, true) == type_size(t, false),
        type_size(TypeInfo::Option(Box::new(t)), true) == type_size(TypeInfo::Option(Box::new(t)), false),
        type_size(TypeInfo::Option(Box::new(t)), false) == 1 + type_size(t, false),
{
    if !(t is Option) {
        assert(type_size(t, true) == 1 + type_size(t, false));
    }
}

proof fn lemma_fields_size_prefix(fs: Seq<FieldDefinition>, i: int)
    requires
        0 <= i <= fs.len(),
    ensures
        fields_size(fs.subrange(0, i)) <= fields_size(fs),
    decreases fs.len() - i,
{
    if i < fs.len() {
        lemma_fields_size_prefix(fs, i + 1);
        assert(fs.subrange(0, i + 1).drop_last() =~= fs.subrange(0, i));
    } else {
        assert(fs.subrange(0, i) =~= fs);
    }
}

// ---------------------------------------------------------------------
// The generator
// ---------------------------------------------------------------------

/// Generates an Anchor IDL from schema type definitions.
pub struct IdlGenerator {
    config: IdlGeneratorConfig,
}

/// Converts a schema type to an IDL type.
pub fn convert_type_to_idl(t: &TypeInfo) -> (r: IdlType)
    ensures
        r@ == idl_type_of(*t),
    decreases t,
{
    match t {
        TypeInfo::Primitive(n) => {
            let c = chars_of(n.as_str());
            let name = if crate::text::chars_is(c.as_slice(), "String") || crate::text::chars_is(
                c.as_slice(),
                "string",
            ) || crate::text::chars_is(c.as_slice(), "Signature") {
                to_string("string")
            } else if crate::text::chars_is(c.as_slice(), "PublicKey") || crate::text::chars_is(
                c.as_slice(),
                "Pubkey",
            ) {
                to_string("publicKey")
            } else {
                copy_string(n)
            };
            IdlType::Primitive(name)
        },
        TypeInfo::Generic(n) => IdlType::Defined(IdlTypeDefined { defined: copy_string(n) }),
        TypeInfo::UserDefined(n) => IdlType::Defined(IdlTypeDefined { defined: copy_string(n) }),
        TypeInfo::Array(inner) => IdlType::Vec(
            IdlTypeVec { vec: Box::new(convert_type_to_idl(inner)) },
        ),
        TypeInfo::FixedArray { element, size } => IdlType::Array(
            IdlTypeArray { array: (Box::new(convert_type_to_idl(element)), *size) },
        ),
        TypeInfo::Option(inner) => IdlType::Option(
            IdlTypeOption { option: Box::new(convert_type_to_idl(inner)) },
        ),
    }
}

/// The size in bytes of a value of type `t` (see [`type_size`]).
pub fn calculate_type_size(t: &TypeInfo, optional: bool) -> (r: usize)
    requires
        type_size_fits(*t, optional),
    ensures
        r == type_size(*t, optional),
    decreases t,
{
    let base: usize = match t {
        TypeInfo::Primitive(n) => {
            let c = chars_of(n.as_str());
            let cs = c.as_slice();
            if crate::text::chars_is(cs, "u8") || crate::text::chars_is(cs, "i8")
                || crate::text::chars_is(cs, "bool") {
                1
            } else if crate::text::chars_is(cs, "u16") || crate::text::chars_is(cs, "i16") {
                2
            } else if crate::text::chars_is(cs, "u32") || crate::text::chars_is(cs, "i32")
                || crate::text::chars_is(cs, "f32") {
                4
            } else if crate::text::chars_is(cs, "u64") || crate::text::chars_is(cs, "i64")
                || crate::text::chars_is(cs, "f64") {
                8
            } else if crate::text::chars_is(cs, "u128") || crate::text::chars_is(cs, "i128") {
                16
            } else if crate::text::chars_is(cs, "PublicKey") || crate::text::chars_is(cs, "Pubkey") {
                32
            } else if crate::text::chars_is(cs, "Signature") {
                64
            } else if crate::text::chars_is(cs, "String") || crate::text::chars_is(cs, "string") {
                4
            } else {
                0
            }
        },
        TypeInfo::Generic(_) => 0,
        TypeInfo::UserDefined(_) => 0,
        TypeInfo::Array(inner) => {
            let s = calculate_type_size(inner, false);
            4 + s
        },
        TypeInfo::FixedArray { element, size } => {
            let s = calculate_type_size(element, false);
            s * *size
        },
        TypeInfo::Option(inner) => {
            let s = calculate_type_size(inner, false);
            1 + s
        },
    };
    let is_option = match t {
        TypeInfo::Option(_) => true,
        _ => false,
    };
    if optional && !is_option {
        1 + base
    } else {
        base
    }
}

impl IdlGenerator {
    /// The configuration the generator was made with.
    pub closed spec fn config(&self) -> IdlGeneratorConfig {
        self.config
    }

    /// Makes a generator with the given configuration.
    pub fn new(config: IdlGeneratorConfig) -> (r: Self)
        ensures
            r.config() == config,
    {
        IdlGenerator { config }
    }

    /// Generates the IDL of a list of type definitions: structs with the
    /// `account` attribute become accounts, other structs and enums become
    /// types (both in schema order), aliases are left out.
    pub fn generate(&self, type_defs: &Vec<TypeDefinition>) -> (r: Idl)
        ensures
            r.version@ == self.config().version@,
            r.name@ == snake_case(self.config().program_name@),
            r.instructions@.len() == 0,
            r.events@.len() == 0,
            r.errors@.len() == 0,
            r.accounts@.len() == account_structs(type_defs@).len(),
            forall|i: int|
                0 <= i < r.accounts@.len() ==> struct_converted(
                    #[trigger] r.accounts@[i],
                    account_structs(type_defs@)[i],
                ),
            r.types@.len() == plain_types(type_defs@).len(),
            forall|i: int|
                0 <= i < r.types@.len() ==> def_converted(
                    #[trigger] r.types@[i],
                    plain_types(type_defs@)[i],
                ),
            match self.config().address {
                Some(a) => match r.metadata {
                    Some(m) => match m.address {
                        Some(b) => b@ == a@,
                        None => false,
                    },
                    None => false,
                },
                None => r.metadata is None,
            },
    {
        let mut accounts: Vec<IdlTypeDef> = Vec::new();
        let mut types: Vec<IdlTypeDef> = Vec::new();
        let mut i: usize = 0;
        while i < type_defs.len()
            invariant
                i <= type_defs@.len(),
                accounts@.len() == account_structs(type_defs@.subrange(0, i as int)).len(),
                forall|k: int|
                    0 <= k < accounts@.len() ==> struct_converted(
                        #[trigger] accounts@[k],
                        account_structs(type_defs@.subrange(0, i as int))[k],
                    ),
                types@.len() == plain_types(type_defs@.subrange(0, i as int)).len(),
                forall|k: int|
                    0 <= k < types@.len() ==> def_converted(
                        #[trigger] types@[k],
                        plain_types(type_defs@.subrange(0, i as int))[k],
                    ),
            decreases type_defs@.len() - i,
        {
            let ghost pre = type_defs@.subrange(0, i as int);
            let ghost next = type_defs@.subrange(0, i + 1);
            assert(next.drop_last() =~= pre);
            assert(next.last() == type_defs@[i as int]);
            match &type_defs[i] {
                TypeDefinition::Struct(s) => {
                    let d = self.convert_struct(s);
                    if self.is_account_type(s) {
                        accounts.push(d);
                    } else {
                        types.push(d);
                    }
                },
                TypeDefinition::Enum(e) => {
                    let d = self.convert_enum(e);
                    types.push(d);
                },
                TypeDefinition::TypeAlias(_) => {},
            }
            i = i + 1;
        }
        assert(type_defs@.subrange(0, type_defs@.len() as int) =~= type_defs@);
        let metadata = match &self.config.address {
            Some(a) => Some(IdlMetadata { address: Some(copy_string(a)) }),
            None => None,
        };
        Idl {
            version: copy_string(&self.config.version),
            name: to_snake_case(self.config.program_name.as_str()),
            instructions: Vec::new(),
            accounts,
            types,
            events: Vec::new(),
            errors: Vec::new(),
            metadata,
        }
    }

    fn convert_fields(&self, fs: &Vec<FieldDefinition>) -> (r: Vec<IdlField>)
        ensures
            fields_converted(r@, fs@),
    {
        let mut r: Vec<IdlField> = Vec::new();
        let mut i: usize = 0;
        while i < fs.len()
            invariant
                i <= fs@.len(),
                r@.len() == i,
                forall|k: int| 0 <= k < i ==> field_converted(#[trigger] r@[k], fs@[k]),
            decreases fs@.len() - i,
        {
            r.push(self.convert_field(&fs[i]));
            i = i + 1;
        }
        r
    }

    /// Converts a struct to an IDL type definition.
    fn convert_struct(&self, s: &StructDefinition) -> (r: IdlTypeDef)
        ensures
            struct_converted(r, *s),
    {
        let fields = self.convert_fields(&s.fields);
        IdlTypeDef {
            name: copy_string(&s.name),
            docs: Vec::new(),
            ty: IdlTypeDefTy::Struct { fields },
        }
    }

    /// Converts an enum to an IDL type definition.
    fn convert_enum(&self, e: &EnumDefinition) -> (r: IdlTypeDef)
        ensures
            enum_converted(r, *e),
    {
        let mut variants: Vec<IdlEnumVariant> = Vec::new();
        let mut i: usize = 0;
        while i < e.variants.len()
            invariant
                i <= e.variants@.len(),
                variants@.len() == i,
                forall|k: int|
                    0 <= k < i ==> variant_converted(#[trigger] variants@[k], e.variants@[k]),
            decreases e.variants@.len() - i,
        {
            variants.push(self.convert_variant(&e.variants[i]));
            i = i + 1;
        }
        IdlTypeDef {
            name: copy_string(&e.name),
            docs: Vec::new(),
            ty: IdlTypeDefTy::Enum { variants },
        }
    }

    /// Converts a field; an optional field is wrapped in an option unless
    /// its type is one already, and a deprecation note becomes its
    /// documentation.
    fn convert_field(&self, f: &FieldDefinition) -> (r: IdlField)
        ensures
            field_converted(r, *f),
    {
        let is_option = match &f.type_info {
            TypeInfo::Option(_) => true,
            _ => false,
        };
        let ty = if f.optional && !is_option {
            IdlType::Option(IdlTypeOption { option: Box::new(self.convert_type(&f.type_info)) })
        } else {
            self.convert_type(&f.type_info)
        };
        let mut docs: Vec<String> = Vec::new();
        match &f.deprecated {
            Some(m) => {
                let mut d = to_string("@deprecated ");
                d.append(m.as_str());
                docs.push(d);
                assert(views(docs@) =~= field_docs(*f));
            },
            None => {
                assert(views(docs@) =~= field_docs(*f));
            },
        }
        IdlField { name: to_snake_case(f.name.as_str()), ty, docs }
    }

    /// Converts an enum variant.
    fn convert_variant(&self, v: &EnumVariantDefinition) -> (r: IdlEnumVariant)
        ensures
            variant_converted(r, *v),
    {
        match v {
            EnumVariantDefinition::Unit { name } => IdlEnumVariant {
                name: copy_string(name),
                fields: None,
            },
            EnumVariantDefinition::Tuple { name, types } => {
                let mut ts: Vec<IdlType> = Vec::new();
                let mut i: usize = 0;
                while i < types.len()
                    invariant
                        i <= types@.len(),
                        ts@.len() == i,
                        forall|k: int| 0 <= k < i ==> (#[trigger] ts@[k])@ == idl_type_of(types@[k]),
                    decreases types@.len() - i,
                {
                    ts.push(self.convert_type(&types[i]));
                    i = i + 1;
                }
                IdlEnumVariant { name: copy_string(name), fields: Some(IdlEnumFields::Tuple(ts)) }
            },
            EnumVariantDefinition::Struct { name, fields } => {
                let fs = self.convert_fields(fields);
                IdlEnumVariant { name: copy_string(name), fields: Some(IdlEnumFields::Named(fs)) }
            },
        }
    }

    /// Converts a schema type to an IDL type.
    pub fn convert_type(&self, t: &TypeInfo) -> (r: IdlType)
        ensures
            r@ == idl_type_of(*t),
    {
        convert_type_to_idl(t)
    }

    /// Whether a struct carries the `account` attribute.
    fn is_account_type(&self, s: &StructDefinition) -> (r: bool)
        ensures
            r == is_account_struct(*s),
    {
        has_string_exec(&s.metadata.attributes, "account")
    }

    /// The space of an account: 8 discriminator bytes and the sizes of its
    /// fields.
    pub fn calculate_account_space(&self, s: &StructDefinition) -> (r: usize)
        requires
            account_space_fits(*s),
        ensures
            r == account_space(*s),
    {
        let mut size: usize = 8;
        let mut i: usize = 0;
        while i < s.fields.len()
            invariant
                i <= s.fields@.len(),
                account_space_fits(*s),
                size == 8 + fields_size(s.fields@.subrange(0, i as int)),
            decreases s.fields@.len() - i,
        {
            let ghost fs = s.fields@;
            proof {
                lemma_fields_size_prefix(fs, i + 1);
                assert(fs.subrange(0, i + 1).drop_last() =~= fs.subrange(0, i as int));
                assert(fs.subrange(0, i + 1).last() == fs[i as int]);
            }
            let f = &s.fields[i];
            let t = calculate_type_size(&f.type_info, f.optional);
            size = size + t;
            i = i + 1;
        }
        assert(s.fields@.subrange(0, s.fields@.len() as int) =~= s.fields@);
        size
    }

    /// Writes the `LEN` constant of an account:
    /// `impl Name {\n    pub const LEN: usize = N;\n}`.
    pub fn generate_len_constant(&self, s: &StructDefinition) -> (r: String)
        requires
            account_space_fits(*s),
        ensures
            r@ == len_constant_text(*s),
    {
        let space = self.calculate_account_space(s);
        let mut r = to_string("impl ");
        r.append(s.name.as_str());
        r.append(" {\n    pub const LEN: usize = ");
        let n = usize_to_string(space);
        r.append(n.as_str());
        r.append(";\n}");
        r
    }
}

} // verus!
