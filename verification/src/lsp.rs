//! Editor support for schema files: diagnostics from errors, hover
//! documentation, completion entries and formatting.

pub mod completion;
pub mod diagnostics;
pub mod formatting;
pub mod hover;
