//! The standard Metaplex types and the `#[metaplex(...)]` attribute.

use vstd::prelude::*;
use crate::text::{
    chars_is, chars_of, chars_starts, slice_range, starts_with, string_from_chars, trim,
    trim_char, trim_char_exec, trim_exec,
};

verus! {

/// Metaplex token standards.
#[derive(Debug, Clone, Copy, PartialEq, Eq, Structural)]
pub enum TokenStandard {
    /// A 1/1 NFT.
    NonFungible,
    /// A fungible asset with metadata.
    FungibleAsset,
    /// A fungible token.
    Fungible,
    /// An edition of a master NFT.
    NonFungibleEdition,
    /// A programmable NFT.
    ProgrammableNonFungible,
    /// A programmable edition.
    ProgrammableNonFungibleEdition,
}

/// The Borsh discriminant of a token standard: its position in declaration
/// order.
pub open spec fn token_standard_code(t: TokenStandard) -> u8 {
    match t {
        TokenStandard::NonFungible => 0,
        TokenStandard::FungibleAsset => 1,
        TokenStandard::Fungible => 2,
        TokenStandard::NonFungibleEdition => 3,
        TokenStandard::ProgrammableNonFungible => 4,
        TokenStandard::ProgrammableNonFungibleEdition => 5,
    }
}

impl TokenStandard {
    /// The Borsh discriminant.
    pub fn discriminant(&self) -> (r: u8)
        ensures
            r == token_standard_code(*self),
    {
        match self {
            TokenStandard::NonFungible => 0,
            TokenStandard::FungibleAsset => 1,
            TokenStandard::Fungible => 2,
            TokenStandard::NonFungibleEdition => 3,
            TokenStandard::ProgrammableNonFungible => 4,
            TokenStandard::ProgrammableNonFungibleEdition => 5,
        }
    }

    /// The token standard with the given discriminant, if any.
    pub fn from_discriminant(value: u8) -> (r: Option<Self>)
        ensures
            match r {
                Some(t) => token_standard_code(t) == value,
                None => value > 5,
            },
    {
        match value {
            0 => Some(TokenStandard::NonFungible),
            1 => Some(TokenStandard::FungibleAsset),
            2 => Some(TokenStandard::Fungible),
            3 => Some(TokenStandard::NonFungibleEdition),
            4 => Some(TokenStandard::ProgrammableNonFungible),
            5 => Some(TokenStandard::ProgrammableNonFungibleEdition),
            _ => None,
        }
    }
}

/// Reading back a discriminant gives the token standard that wrote it, and
/// distinct token standards have distinct discriminants.
pub proof fn law_token_standard_round_trip(t: TokenStandard, u: TokenStandard)
    ensures
        token_standard_code(t) <= 5,
        token_standard_code(t) == token_standard_code(u) ==> t == u,
{
}

/// How an NFT may be used.
#[derive(Debug, Clone, Copy, PartialEq, Eq, Structural)]
pub enum UseMethod {
    /// Burnt after one use.
    Burn,
    /// Several uses up to a limit.
    Multiple,
    /// One use without burning.
    Single,
}

impl UseMethod {
    /// The Borsh discriminant.
    pub fn discriminant(&self) -> (r: u8)
        ensures
            r == match *self {
                UseMethod::Burn => 0u8,
                UseMethod::Multiple => 1u8,
                UseMethod::Single => 2u8,
            },
    {
        match self {
            UseMethod::Burn => 0,
            UseMethod::Multiple => 1,
            UseMethod::Single => 2,
        }
    }
}

/// The standard Metaplex account types.
#[derive(Debug, Clone, PartialEq, Eq, Structural)]
pub enum MetaplexType {
    /// Token metadata.
    TokenMetadata,
    /// A creator.
    Creator,
    /// A collection reference.
    Collection,
    /// Uses configuration.
    Uses,
    /// Master edition v2.
    MasterEditionV2,
    /// An edition.
    Edition,
    /// An edition marker.
    EditionMarker,
}

/// The struct name of a standard type.
pub open spec fn metaplex_struct_name(t: MetaplexType) -> Seq<char> {
    match t {
        MetaplexType::TokenMetadata => "Metadata"@,
        MetaplexType::Creator => "Creator"@,
        MetaplexType::Collection => "Collection"@,
        MetaplexType::Uses => "Uses"@,
        MetaplexType::MasterEditionV2 => "MasterEditionV2"@,
        MetaplexType::Edition => "Edition"@,
        MetaplexType::EditionMarker => "EditionMarker"@,
    }
}

impl MetaplexType {
    /// The struct name of this type.
    pub fn struct_name(&self) -> (r: &'static str)
        ensures
            r@ == metaplex_struct_name(*self),
    {
        match self {
            MetaplexType::TokenMetadata => "Metadata",
            MetaplexType::Creator => "Creator",
            MetaplexType::Collection => "Collection",
            MetaplexType::Uses => "Uses",
            MetaplexType::MasterEditionV2 => "MasterEditionV2",
            MetaplexType::Edition => "Edition",
            MetaplexType::EditionMarker => "EditionMarker",
        }
    }

    /// All standard types, in declaration order.
    pub fn all() -> (r: Vec<MetaplexType>)
        ensures
            r@ == seq![
                MetaplexType::TokenMetadata,
                MetaplexType::Creator,
                MetaplexType::Collection,
                MetaplexType::Uses,
                MetaplexType::MasterEditionV2,
                MetaplexType::Edition,
                MetaplexType::EditionMarker,
            ],
    {
        vec![
            MetaplexType::TokenMetadata,
            MetaplexType::Creator,
            MetaplexType::Collection,
            MetaplexType::Uses,
            MetaplexType::MasterEditionV2,
            MetaplexType::Edition,
            MetaplexType::EditionMarker,
        ]
    }
}

/// An entry of a `#[metaplex(...)]` attribute.
#[derive(Debug, Clone, PartialEq, Eq)]
pub enum MetaplexAttribute {
    /// A metadata struct.
    Metadata,
    /// A creator struct.
    Creator,
    /// A collection struct.
    Collection,
    /// A uses struct.
    Uses,
    /// A master edition struct.
    MasterEdition,
    /// An edition struct.
    Edition,
    /// A custom validation rule.
    Validate(String),
    /// The NFT name field.
    Name,
    /// The NFT symbol field.
    Symbol,
    /// The NFT URI field.
    Uri,
    /// The seller fee field.
    SellerFeeBasisPoints,
    /// The creators field.
    Creators,
    /// A creator share field.
    Share,
}

/// A metaplex attribute with its rule as characters.
pub enum MetaplexAttrView {
    Metadata,
    Creator,
    Collection,
    Uses,
    MasterEdition,
    Edition,
    Validate(Seq<char>),
    Name,
    Symbol,
    Uri,
    SellerFeeBasisPoints,
    Creators,
    Share,
}

impl View for MetaplexAttribute {
    type V = MetaplexAttrView;

    open spec fn view(&self) -> MetaplexAttrView {
        match self {
            MetaplexAttribute::Metadata => MetaplexAttrView::Metadata,
            MetaplexAttribute::Creator => MetaplexAttrView::Creator,
            MetaplexAttribute::Collection => MetaplexAttrView::Collection,
            MetaplexAttribute::Uses => MetaplexAttrView::Uses,
            MetaplexAttribute::MasterEdition => MetaplexAttrView::MasterEdition,
            MetaplexAttribute::Edition => MetaplexAttrView::Edition,
            MetaplexAttribute::Validate(r) => MetaplexAttrView::Validate(r@),
            MetaplexAttribute::Name => MetaplexAttrView::Name,
            MetaplexAttribute::Symbol => MetaplexAttrView::Symbol,
            MetaplexAttribute::Uri => MetaplexAttrView::Uri,
            MetaplexAttribute::SellerFeeBasisPoints => MetaplexAttrView::SellerFeeBasisPoints,
            MetaplexAttribute::Creators => MetaplexAttrView::Creators,
            MetaplexAttribute::Share => MetaplexAttrView::Share,
        }
    }
}

/// The attribute named by a keyword, if it is one.
pub open spec fn metaplex_keyword(t: Seq<char>) -> Option<MetaplexAttrView> {
    if t == "metadata"@ {
        Some(MetaplexAttrView::Metadata)
    } else if t == "creator"@ {
        Some(MetaplexAttrView::Creator)
    } else if t == "collection"@ {
        Some(MetaplexAttrView::Collection)
    } else if t == "uses"@ {
        Some(MetaplexAttrView::Uses)
    } else if t == "master_edition"@ {
        Some(MetaplexAttrView::MasterEdition)
    } else if t == "edition"@ {
        Some(MetaplexAttrView::Edition)
    } else if t == "name"@ {
        Some(MetaplexAttrView::Name)
    } else if t == "symbol"@ {
        Some(MetaplexAttrView::Symbol)
    } else if t == "uri"@ {
        Some(MetaplexAttrView::Uri)
    } else if t == "seller_fee_basis_points"@ {
        Some(MetaplexAttrView::SellerFeeBasisPoints)
    } else if t == "creators"@ {
        Some(MetaplexAttrView::Creators)
    } else if t == "share"@ {
        Some(MetaplexAttrView::Share)
    } else {
        None
    }
}

/// The attribute written in `s`: a keyword, or `validate = "rule"` (the
/// rule without surrounding quotes), after trimming white space.
pub open spec fn parse_metaplex_attr(s: Seq<char>) -> Option<MetaplexAttrView> {
    let t = trim(s);
    if metaplex_keyword(t) is Some {
        metaplex_keyword(t)
    } else if starts_with(t, "validate"@) {
        let r1 = trim(t.subrange(8, t.len() as int));
        if r1.len() > 0 && r1[0] == '=' {
            Some(MetaplexAttrView::Validate(trim_char(trim(r1.drop_first()), '"')))
        } else {
            None
        }
    } else {
        None
    }
}

fn metaplex_keyword_exec(t: &[char]) -> (r: Option<MetaplexAttribute>)
    ensures
        match r {
            Some(a) => metaplex_keyword(t@) == Some(a@),
            None => metaplex_keyword(t@) is None,
        },
{
    if chars_is(t, "metadata") {
        Some(MetaplexAttribute::Metadata)
    } else if chars_is(t, "creator") {
        Some(MetaplexAttribute::Creator)
    } else if chars_is(t, "collection") {
        Some(MetaplexAttribute::Collection)
    } else if chars_is(t, "uses") {
        Some(MetaplexAttribute::Uses)
    } else if chars_is(t, "master_edition") {
        Some(MetaplexAttribute::MasterEdition)
    } else if chars_is(t, "edition") {
        Some(MetaplexAttribute::Edition)
    } else if chars_is(t, "name") {
        Some(MetaplexAttribute::Name)
    } else if chars_is(t, "symbol") {
        Some(MetaplexAttribute::Symbol)
    } else if chars_is(t, "uri") {
        Some(MetaplexAttribute::Uri)
    } else if chars_is(t, "seller_fee_basis_points") {
        Some(MetaplexAttribute::SellerFeeBasisPoints)
    } else if chars_is(t, "creators") {
        Some(MetaplexAttribute::Creators)
    } else if chars_is(t, "share") {
        Some(MetaplexAttribute::Share)
    } else {
        None
    }
}

impl MetaplexAttribute {
    /// Reads one entry of a `#[metaplex(...)]` attribute, such as
    /// `metadata`, `seller_fee_basis_points` or `validate = "len <= 32"`.
    pub fn parse_from_str(s: &str) -> (r: Option<Self>)
        ensures
            match r {
                Some(a) => parse_metaplex_attr(s@) == Some(a@),
                None => parse_metaplex_attr(s@) is None,
            },
    {
        let c = chars_of(s);
        let t = trim_exec(c.as_slice());
        match metaplex_keyword_exec(t.as_slice()) {
            Some(a) => {
                return Some(a);
            },
            None => {},
        }
        proof {
            reveal_strlit("validate");
        }
        if chars_starts(t.as_slice(), "validate") {
            let rest = slice_range(t.as_slice(), 8, t.len());
            let r1 = trim_exec(rest.as_slice());
            if r1.len() > 0 && r1[0] == '=' {
                let after = slice_range(r1.as_slice(), 1, r1.len());
                assert(after@ =~= r1@.drop_first());
                let r2 = trim_exec(after.as_slice());
                let rule = trim_char_exec(r2.as_slice(), '"');
                Some(MetaplexAttribute::Validate(string_from_chars(rule.as_slice())))
            } else {
                None
            }
        } else {
            None
        }
    }
}

/// The metaplex attributes read for a struct or a field.
#[derive(Debug, Clone)]
pub struct ParsedMetaplexAttrs {
    /// The struct-level attribute.
    pub struct_type: Option<MetaplexAttribute>,
    /// Field-level attributes.
    pub field_attrs: Vec<MetaplexAttribute>,
    /// Custom validation rules.
    pub validations: Vec<String>,
}

impl Default for ParsedMetaplexAttrs {
    fn default() -> (r: Self)
        ensures
            r.struct_type is None,
            r.field_attrs@.len() == 0,
            r.validations@.len() == 0,
    {
        ParsedMetaplexAttrs { struct_type: None, field_attrs: Vec::new(), validations: Vec::new() }
    }
}

impl ParsedMetaplexAttrs {
    /// Whether the struct is a metadata struct.
    pub fn is_metadata(&self) -> (r: bool)
        ensures
            r == (self.struct_type matches Some(MetaplexAttribute::Metadata)),
    {
        match &self.struct_type {
            Some(MetaplexAttribute::Metadata) => true,
            _ => false,
        }
    }

    /// Whether the struct is a creator struct.
    pub fn is_creator(&self) -> (r: bool)
        ensures
            r == (self.struct_type matches Some(MetaplexAttribute::Creator)),
    {
        match &self.struct_type {
            Some(MetaplexAttribute::Creator) => true,
            _ => false,
        }
    }

    /// Whether the struct is a collection struct.
    pub fn is_collection(&self) -> (r: bool)
        ensures
            r == (self.struct_type matches Some(MetaplexAttribute::Collection)),
    {
        match &self.struct_type {
            Some(MetaplexAttribute::Collection) => true,
            _ => false,
        }
    }
}

} // verus!
