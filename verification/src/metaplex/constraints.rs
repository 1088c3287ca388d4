//! Metaplex Token Metadata limits.

use vstd::prelude::*;

verus! {

/// Maximum length of an NFT name.
pub const MAX_NAME_LENGTH: usize = 32;

/// Maximum length of an NFT symbol.
pub const MAX_SYMBOL_LENGTH: usize = 10;

/// Maximum length of an NFT URI.
pub const MAX_URI_LENGTH: usize = 200;

/// Maximum number of creators.
pub const MAX_CREATORS: usize = 5;

/// Maximum seller fee in basis points (100% = 10000).
pub const MAX_SELLER_FEE_BASIS_POINTS: u16 = 10000;

/// The total that creator shares add up to (100%).
pub const CREATOR_SHARES_TOTAL: u8 = 100;

} // verus!
