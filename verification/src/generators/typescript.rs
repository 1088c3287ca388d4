//! TypeScript output for a single definition.

use vstd::prelude::*;
use crate::ir::TypeDefinition;
use crate::text::to_string;

verus! {

/// The placeholder text written for a definition.
pub open spec fn typescript_placeholder() -> Seq<char> {
    "// Generated TypeScript code will appear here\n"@
}

/// Writes TypeScript for a type definition; every definition currently
/// gets the same placeholder comment.
pub fn generate(_type_def: &TypeDefinition) -> (r: String)
    ensures
        r@ == typescript_placeholder(),
{
    to_string("// Generated TypeScript code will appear here\n")
}

} // verus!
