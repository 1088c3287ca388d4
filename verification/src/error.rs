//! Errors of schema processing.

use vstd::prelude::*;
use crate::text::to_string;

verus! {

/// An error found while reading or checking a schema.
#[derive(Debug, Clone, PartialEq, Eq)]
pub enum LumosError {
    /// The schema text could not be read.
    SchemaParse(String),
    /// Code could not be generated.
    CodeGen(String),
    /// A type alias problem (duplicate, unknown or circular alias).
    Transform(String),
    /// A reference to a type that the schema does not define.
    TypeValidation(String),
}

/// The display text of an error.
pub open spec fn error_text(e: LumosError) -> Seq<char> {
    match e {
        LumosError::SchemaParse(m) => "Schema parsing error: "@ + m@,
        LumosError::CodeGen(m) => "Code generation error: "@ + m@,
        LumosError::Transform(m) => m@,
        LumosError::TypeValidation(m) => m@,
    }
}

impl LumosError {
    /// The display text: parse and generation errors are prefixed with
    /// their kind; alias and type errors are their message.
    pub fn to_display_string(&self) -> (r: String)
        ensures
            r@ == error_text(*self),
    {
        match self {
            LumosError::SchemaParse(m) => {
                let mut r = to_string("Schema parsing error: ");
                r.append(m.as_str());
                r
            },
            LumosError::CodeGen(m) => {
                let mut r = to_string("Code generation error: ");
                r.append(m.as_str());
                r
            },
            LumosError::Transform(m) => m.clone(),
            LumosError::TypeValidation(m) => m.clone(),
        }
    }
}

} // verus!
