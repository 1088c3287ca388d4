//! Hover documentation: the word under the cursor and what is known about
//! it (Solana types, primitives, containers, keywords and attributes).

use vstd::prelude::*;
use crate::text::{
    char_is_alphanumeric, is_alphanumeric, line_at, line_count, lines_exec, slice_range,
    str_eq, string_from_chars, to_string,
};

verus! {

/// Whether `c` can be part of a word.
pub open spec fn is_word_char(c: char) -> bool {
    char_is_alphanumeric(c) || c == '_'
}

/// The position after the last non-word character before position `k`,
/// or 0.
pub open spec fn word_start(l: Seq<char>, k: int) -> int
    decreases k,
{
    if k <= 0 {
        0
    } else if !is_word_char(l[k - 1]) {
        k
    } else {
        word_start(l, k - 1)
    }
}

/// The position of the first non-word character from position `k` on, or
/// the line's length.
pub open spec fn word_end(l: Seq<char>, k: int) -> int
    decreases l.len() - k,
{
    if k >= l.len() {
        l.len() as int
    } else if !is_word_char(l[k]) {
        k
    } else {
        word_end(l, k + 1)
    }
}

/// The word of line `l` around column `col`, if the cursor is on the line
/// and touches a word.
pub open spec fn word_around(l: Seq<char>, col: int) -> Option<Seq<char>> {
    if col > l.len() {
        None
    } else {
        let start = word_start(l, col);
        let end = word_end(l, col);
        if start >= end {
            None
        } else {
            Some(l.subrange(start, end))
        }
    }
}

/// The word at a position of a text (line and column counted from 0, the
/// column in characters).
pub open spec fn word_at(text: Seq<char>, line: int, col: int) -> Option<Seq<char>> {
    if line < line_count(text) {
        word_around(line_at(text, line), col)
    } else {
        None
    }
}

proof fn lemma_word_bounds(l: Seq<char>, k: int)
    requires
        0 <= k <= l.len(),
    ensures
        0 <= word_start(l, k) <= k,
        k <= word_end(l, k) <= l.len(),
    decreases l.len() - k,
{
    lemma_word_start_bounds(l, k);
    if k < l.len() && is_word_char(l[k]) {
        lemma_word_bounds(l, k + 1);
    }
}

proof fn lemma_word_start_bounds(l: Seq<char>, k: int)
    requires
        0 <= k <= l.len(),
    ensures
        0 <= word_start(l, k) <= k,
    decreases k,
{
    if k > 0 && is_word_char(l[k - 1]) {
        lemma_word_start_bounds(l, k - 1);
    }
}

fn word_around_exec(l: &Vec<char>, col: usize) -> (r: Option<String>)
    ensures
        match r {
            Some(w) => word_around(l@, col as int) == Some(w@),
            None => word_around(l@, col as int) is None,
        },
{
    if col > l.len() {
        return None;
    }
    let mut start: usize = col;
    while start > 0 && (is_alphanumeric(l[start - 1]) || l[start - 1] == '_')
        invariant
            start <= col <= l@.len(),
            word_start(l@, col as int) == word_start(l@, start as int),
        decreases start,
    {
        start = start - 1;
    }
    let mut end: usize = col;
    while end < l.len() && (is_alphanumeric(l[end]) || l[end] == '_')
        invariant
            col <= end <= l@.len(),
            word_end(l@, col as int) == word_end(l@, end as int),
        decreases l@.len() - end,
    {
        end = end + 1;
    }
    if start >= end {
        return None;
    }
    Some(string_from_chars(slice_range(l.as_slice(), start, end).as_slice()))
}

/// The word at a position of a text: line and column are counted from 0
/// (the column in characters); the word is the run of letters, digits and
/// underscores around the column.
pub fn get_word_at_position(text: &str, line: u32, character: u32) -> (r: Option<String>)
    ensures
        match r {
            Some(w) => word_at(text@, line as int, character as int) == Some(w@),
            None => word_at(text@, line as int, character as int) is None,
        },
{
    let lines = lines_exec(text);
    let k = line as usize;
    if k >= lines.len() {
        return None;
    }
    word_around_exec(&lines[k], character as usize)
}


// Hover texts, in Markdown.
/// Hover text for `PublicKey`.
pub const DOC_PUBLIC_KEY: &'static str = "**PublicKey** - Solana public key\n\n\
                **Size**: 32 bytes  \n\
                **Use for**: Account addresses, program IDs, signers  \n\
                **Rust**: `anchor_lang::prelude::Pubkey`  \n\
                **TypeScript**: `PublicKey` from `@solana/web3.js`";
/// Hover text for `Signature`.
pub const DOC_SIGNATURE: &'static str = "**Signature** - Solana transaction signature\n\n\
                **Size**: 64 bytes  \n\
                **Use for**: Transaction verification  \n\
                **Rust**: `solana_program::signature::Signature`  \n\
                **TypeScript**: `string` (base58-encoded)";
/// Hover text for `Keypair`.
pub const DOC_KEYPAIR: &'static str = "**Keypair** - Solana keypair (public + private key)\n\n\
                **Use for**: Authority, signing operations  \n\
                **Rust**: `solana_program::signature::Keypair`  \n\
                **TypeScript**: `Keypair` from `@solana/web3.js`";
/// Hover text for `u8`.
pub const DOC_U8: &'static str = "**u8** - 8-bit unsigned integer\n\n**Range**: 0 to 255";
/// Hover text for `u16`.
pub const DOC_U16: &'static str = "**u16** - 16-bit unsigned integer\n\n**Range**: 0 to 65,535";
/// Hover text for `u32`.
pub const DOC_U32: &'static str = "**u32** - 32-bit unsigned integer\n\n**Range**: 0 to 4,294,967,295";
/// Hover text for `u64`.
pub const DOC_U64: &'static str = "**u64** - 64-bit unsigned integer\n\n\
                **Range**: 0 to 18,446,744,073,709,551,615  \n\
                **Common for**: Lamports, timestamps, counts  \n\
                ⚠️ **JavaScript precision limit**: 2^53-1 (9,007,199,254,740,991)";
/// Hover text for `u128`.
pub const DOC_U128: &'static str = "**u128** - 128-bit unsigned integer\n\n\
                **Range**: 0 to 340,282,366,920,938,463,463,374,607,431,768,211,455  \n\
                **TypeScript**: Maps to `bigint`";
/// Hover text for `i8`.
pub const DOC_I8: &'static str = "**i8** - 8-bit signed integer\n\n**Range**: -128 to 127";
/// Hover text for `i16`.
pub const DOC_I16: &'static str = "**i16** - 16-bit signed integer\n\n**Range**: -32,768 to 32,767";
/// Hover text for `i32`.
pub const DOC_I32: &'static str = "**i32** - 32-bit signed integer\n\n**Range**: -2,147,483,648 to 2,147,483,647";
/// Hover text for `i64`.
pub const DOC_I64: &'static str = "**i64** - 64-bit signed integer\n\n\
                **Range**: -9,223,372,036,854,775,808 to 9,223,372,036,854,775,807  \n\
                ⚠️ **JavaScript precision limit**: ±2^53-1";
/// Hover text for `i128`.
pub const DOC_I128: &'static str = "**i128** - 128-bit signed integer\n\n**TypeScript**: Maps to `bigint`";
/// Hover text for `f32`.
pub const DOC_F32: &'static str = "**f32** - 32-bit floating point\n\n**Precision**: ~7 decimal digits";
/// Hover text for `f64`.
pub const DOC_F64: &'static str = "**f64** - 64-bit floating point\n\n**Precision**: ~15 decimal digits";
/// Hover text for `bool`.
pub const DOC_BOOL: &'static str = "**bool** - Boolean type\n\n**Values**: `true` or `false`";
/// Hover text for `String`.
pub const DOC_STRING: &'static str = "**String** - UTF-8 string\n\n\
                **Variable length**: Stored with length prefix  \n\
                **Rust**: `String`  \n\
                **TypeScript**: `string`";
/// Hover text for `Vec`.
pub const DOC_VEC: &'static str = "**Vec\\<T>** - Dynamic array\n\n\
                **Example**: `items: Vec<PublicKey>`  \n\
                **Rust**: `Vec<T>`  \n\
                **TypeScript**: `T[]`  \n\
                **Note**: Use `#[max(n)]` to limit length";
/// Hover text for `Option`.
pub const DOC_OPTION: &'static str = "**Option\\<T>** - Optional value\n\n\
                **Example**: `email: Option<String>`  \n\
                **Rust**: `Option<T>` (Some/None)  \n\
                **TypeScript**: `T | undefined`";
/// Hover text for `struct`.
pub const DOC_STRUCT: &'static str = "**struct** - Define a structured data type\n\n\
                **Syntax**:\n```rust\n\
                #[solana]\n\
                struct Name {\n    \
                    field: Type,\n\
                }\n\
                ```";
/// Hover text for `enum`.
pub const DOC_ENUM: &'static str = "**enum** - Define an enumeration type\n\n\
                **Syntax**:\n```rust\n\
                #[solana]\n\
                enum State {\n    \
                    Variant1,\n    \
                    Variant2(Type),\n    \
                    Variant3 { field: Type },\n\
                }\n\
                ```";
/// Hover text for `solana`.
pub const DOC_SOLANA: &'static str = "**#[solana]** - Mark as Solana-compatible\n\n\
                Indicates this type is designed for Solana blockchain.  \n\
                **Required for**: Code generation  \n\
                **Applies to**: structs, enums";
/// Hover text for `account`.
pub const DOC_ACCOUNT: &'static str = "**#[account]** - Mark as Anchor account\n\n\
                Indicates this struct is an Anchor account.  \n\
                **Requires**: `#[solana]` attribute  \n\
                **Applies to**: structs only  \n\
                **Generates**: Anchor Account trait implementation";
/// Hover text for `key`.
pub const DOC_KEY: &'static str = "**#[key]** - Mark field as unique key\n\n\
                Indicates this field is a unique identifier.  \n\
                **Applies to**: struct fields";
/// Hover text for `max`.
pub const DOC_MAX: &'static str = "**#[max(n)]** - Set maximum length\n\n\
                Sets the maximum length for arrays or strings.  \n\
                **Example**: `#[max(100)]`  \n\
                **Applies to**: `Vec<T>` and `String` fields";
/// Hover text for `deprecated`.
pub const DOC_DEPRECATED: &'static str = "**#[deprecated]** - Mark field as deprecated\n\n\
                Marks a field as deprecated with optional migration message.  \n\
                **Example**: `#[deprecated(\"Use new_field instead\")]`  \n\
                **Applies to**: struct fields, enum variant fields";

/// The hover documentation of a word, if it is a known type, keyword or
/// attribute name.
pub open spec fn hover_doc(w: Seq<char>) -> Option<Seq<char>> {
    if w == "PublicKey"@ {
        Some(DOC_PUBLIC_KEY@)
    } else if w == "Signature"@ {
        Some(DOC_SIGNATURE@)
    } else if w == "Keypair"@ {
        Some(DOC_KEYPAIR@)
    } else if w == "u8"@ {
        Some(DOC_U8@)
    } else if w == "u16"@ {
        Some(DOC_U16@)
    } else if w == "u32"@ {
        Some(DOC_U32@)
    } else if w == "u64"@ {
        Some(DOC_U64@)
    } else if w == "u128"@ {
        Some(DOC_U128@)
    } else if w == "i8"@ {
        Some(DOC_I8@)
    } else if w == "i16"@ {
        Some(DOC_I16@)
    } else if w == "i32"@ {
        Some(DOC_I32@)
    } else if w == "i64"@ {
        Some(DOC_I64@)
    } else if w == "i128"@ {
        Some(DOC_I128@)
    } else if w == "f32"@ {
        Some(DOC_F32@)
    } else if w == "f64"@ {
        Some(DOC_F64@)
    } else if w == "bool"@ {
        Some(DOC_BOOL@)
    } else if w == "String"@ {
        Some(DOC_STRING@)
    } else if w == "Vec"@ {
        Some(DOC_VEC@)
    } else if w == "Option"@ {
        Some(DOC_OPTION@)
    } else if w == "struct"@ {
        Some(DOC_STRUCT@)
    } else if w == "enum"@ {
        Some(DOC_ENUM@)
    } else if w == "solana"@ {
        Some(DOC_SOLANA@)
    } else if w == "account"@ {
        Some(DOC_ACCOUNT@)
    } else if w == "key"@ {
        Some(DOC_KEY@)
    } else if w == "max"@ {
        Some(DOC_MAX@)
    } else if w == "deprecated"@ {
        Some(DOC_DEPRECATED@)
    } else {
        None
    }
}

/// The hover documentation of a word, if it is a known type, keyword or
/// attribute name.
pub fn get_hover_content(word: &str) -> (r: Option<String>)
    ensures
        match r {
            Some(s) => hover_doc(word@) == Some(s@),
            None => hover_doc(word@) is None,
        },
{
    if str_eq(word, "PublicKey") {
        Some(to_string(DOC_PUBLIC_KEY))
    } else if str_eq(word, "Signature") {
        Some(to_string(DOC_SIGNATURE))
    } else if str_eq(word, "Keypair") {
        Some(to_string(DOC_KEYPAIR))
    } else if str_eq(word, "u8") {
        Some(to_string(DOC_U8))
    } else if str_eq(word, "u16") {
        Some(to_string(DOC_U16))
    } else if str_eq(word, "u32") {
        Some(to_string(DOC_U32))
    } else if str_eq(word, "u64") {
        Some(to_string(DOC_U64))
    } else if str_eq(word, "u128") {
        Some(to_string(DOC_U128))
    } else if str_eq(word, "i8") {
        Some(to_string(DOC_I8))
    } else if str_eq(word, "i16") {
        Some(to_string(DOC_I16))
    } else if str_eq(word, "i32") {
        Some(to_string(DOC_I32))
    } else if str_eq(word, "i64") {
        Some(to_string(DOC_I64))
    } else if str_eq(word, "i128") {
        Some(to_string(DOC_I128))
    } else if str_eq(word, "f32") {
        Some(to_string(DOC_F32))
    } else if str_eq(word, "f64") {
        Some(to_string(DOC_F64))
    } else if str_eq(word, "bool") {
        Some(to_string(DOC_BOOL))
    } else if str_eq(word, "String") {
        Some(to_string(DOC_STRING))
    } else if str_eq(word, "Vec") {
        Some(to_string(DOC_VEC))
    } else if str_eq(word, "Option") {
        Some(to_string(DOC_OPTION))
    } else if str_eq(word, "struct") {
        Some(to_string(DOC_STRUCT))
    } else if str_eq(word, "enum") {
        Some(to_string(DOC_ENUM))
    } else if str_eq(word, "solana") {
        Some(to_string(DOC_SOLANA))
    } else if str_eq(word, "account") {
        Some(to_string(DOC_ACCOUNT))
    } else if str_eq(word, "key") {
        Some(to_string(DOC_KEY))
    } else if str_eq(word, "max") {
        Some(to_string(DOC_MAX))
    } else if str_eq(word, "deprecated") {
        Some(to_string(DOC_DEPRECATED))
    } else {
        None
    }
}

/// The hover documentation for the word at a position of a text.
pub fn get_hover(text: &str, line: u32, character: u32) -> (r: Option<String>)
    ensures
        match word_at(text@, line as int, character as int) {
            Some(w) => match r {
                Some(s) => hover_doc(w) == Some(s@),
                None => hover_doc(w) is None,
            },
            None => r is None,
        },
{
    match get_word_at_position(text, line, character) {
        Some(w) => get_hover_content(w.as_str()),
        None => None,
    }
}

} // verus!
