//! Metaplex Token Metadata support: the standard types and constraints, and
//! a validator that checks schemas against them.

pub mod constraints;
pub mod types;
pub mod validator;

pub use types::{MetaplexAttribute, MetaplexType, ParsedMetaplexAttrs, TokenStandard, UseMethod};
pub use validator::{
    generate_standard_types, MetaplexValidator, Severity, ValidationError, ValidationResult,
};
