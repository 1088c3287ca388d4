//! Helpers of the command-line tool: writing types, snake_case names, and
//! Anchor account types of fields.

use vstd::prelude::*;
use crate::anchor::attributes::{
    arg_type_text, type_info_to_rust, wrapper_inner, wrapper_inner_exec, AccountTypeView,
};
use crate::anchor::AnchorAccountType;
use crate::ir::TypeInfo;
use crate::text::{
    char_is_upper, char_lowercased, chars_is, chars_of, chars_starts, copy_string, dec,
    is_uppercase, starts_with, string_from_chars, to_lowercase_first, to_string, usize_to_string,
};

verus! {

/// A type written as in a schema: `Vec<T>`, `[T; n]`, `Option<T>`, names
/// as they are.
pub open spec fn type_text(t: TypeInfo) -> Seq<char>
    decreases t,
{
    match t {
        TypeInfo::Primitive(n) => n@,
        TypeInfo::Generic(n) => n@,
        TypeInfo::UserDefined(n) => n@,
        TypeInfo::Array(inner) => "Vec<"@ + type_text(*inner) + ">"@,
        TypeInfo::FixedArray { element, size } => "["@ + type_text(*element) + "; "@ + dec(
            size as nat,
        ) + "]"@,
        TypeInfo::Option(inner) => "Option<"@ + type_text(*inner) + ">"@,
    }
}

/// Writes a type as in a schema.
pub fn format_type(t: &TypeInfo) -> (r: String)
    ensures
        r@ == type_text(*t),
    decreases t,
{
    match t {
        TypeInfo::Primitive(n) => copy_string(n),
        TypeInfo::Generic(n) => copy_string(n),
        TypeInfo::UserDefined(n) => copy_string(n),
        TypeInfo::Array(inner) => {
            let mut r = to_string("Vec<");
            let s = format_type(inner);
            r.append(s.as_str());
            r.append(">");
            r
        },
        TypeInfo::FixedArray { element, size } => {
            let mut r = to_string("[");
            let s = format_type(element);
            r.append(s.as_str());
            r.append("; ");
            let n = usize_to_string(*size);
            r.append(n.as_str());
            r.append("]");
            r
        },
        TypeInfo::Option(inner) => {
            let mut r = to_string("Option<");
            let s = format_type(inner);
            r.append(s.as_str());
            r.append(">");
            r
        },
    }
}

/// Writes a type in Rust (`PublicKey` as `Pubkey`).
pub fn type_info_to_rust_type(t: &TypeInfo) -> (r: String)
    ensures
        r@ == arg_type_text(*t),
{
    type_info_to_rust(t)
}

/// The text written and whether the last character read was upper case,
/// after the first `k` characters of `s`: each upper-case letter is
/// lowered, with an underscore before it unless it is the first character
/// or follows another upper-case letter.
pub open spec fn snake_words_run(s: Seq<char>, k: nat) -> (Seq<char>, bool)
    decreases k,
{
    if k == 0 || k > s.len() {
        (Seq::empty(), false)
    } else {
        let (r, prev_upper) = snake_words_run(s, (k - 1) as nat);
        let c = s[k - 1];
        if char_is_upper(c) {
            let r1 = if k - 1 > 0 && !prev_upper {
                r.push('_')
            } else {
                r
            };
            (r1.push(char_lowercased(c)), true)
        } else {
            (r.push(c), false)
        }
    }
}

/// A name in snake_case, as the command-line tool writes it.
pub open spec fn snake_words(s: Seq<char>) -> Seq<char> {
    snake_words_run(s, s.len()).0
}

/// Converts a name to snake_case: `PlayerAccount` becomes
/// `player_account`, and a run of capitals stays together (`NFTItem`
/// becomes `nftitem`).
pub fn to_snake_case(s: &str) -> (r: String)
    ensures
        r@ == snake_words(s@),
{
    let cs = chars_of(s);
    let mut result: Vec<char> = Vec::new();
    let mut prev_upper = false;
    let mut i: usize = 0;
    while i < cs.len()
        invariant
            cs@ == s@,
            i <= cs@.len(),
            (result@, prev_upper) == snake_words_run(s@, i as nat),
        decreases cs@.len() - i,
    {
        let c = cs[i];
        if is_uppercase(c) {
            if i > 0 && !prev_upper {
                result.push('_');
            }
            result.push(to_lowercase_first(c));
            prev_upper = true;
        } else {
            result.push(c);
            prev_upper = false;
        }
        i = i + 1;
    }
    string_from_chars(result.as_slice())
}

/// The Anchor account type the command-line tool gives a field type; like
/// the account inference of instruction contexts, with `SystemProgram`
/// read as `Program<System>`.
pub open spec fn cli_account_type(t: TypeInfo) -> AccountTypeView {
    match t {
        TypeInfo::Primitive(n) => if n@ == "Signer"@ {
            AccountTypeView::Signer
        } else {
            AccountTypeView::AccountInfo
        },
        TypeInfo::UserDefined(n) => if n@ == "Signer"@ {
            AccountTypeView::Signer
        } else if n@ == "SystemAccount"@ {
            AccountTypeView::SystemAccount
        } else if n@ == "UncheckedAccount"@ {
            AccountTypeView::UncheckedAccount
        } else if n@ == "AccountInfo"@ {
            AccountTypeView::AccountInfo
        } else if starts_with(n@, "Program<"@) {
            AccountTypeView::Program(wrapper_inner(n@, 8, "System"@))
        } else if starts_with(n@, "Sysvar<"@) {
            AccountTypeView::Sysvar(wrapper_inner(n@, 7, "Rent"@))
        } else if n@ == "SystemProgram"@ {
            AccountTypeView::Program("System"@)
        } else {
            AccountTypeView::Account(n@)
        },
        _ => AccountTypeView::AccountInfo,
    }
}

/// The Anchor account type of a field type.
pub fn infer_anchor_account_type(t: &TypeInfo) -> (r: AnchorAccountType)
    ensures
        r@ == cli_account_type(*t),
{
    match t {
        TypeInfo::Primitive(n) => {
            if crate::text::str_eq(n.as_str(), "Signer") {
                AnchorAccountType::Signer
            } else {
                AnchorAccountType::AccountInfo
            }
        },
        TypeInfo::UserDefined(n) => {
            let c = chars_of(n.as_str());
            proof {
                reveal_strlit("Program<");
                reveal_strlit("Sysvar<");
            }
            if chars_is(c.as_slice(), "Signer") {
                AnchorAccountType::Signer
            } else if chars_is(c.as_slice(), "SystemAccount") {
                AnchorAccountType::SystemAccount
            } else if chars_is(c.as_slice(), "UncheckedAccount") {
                AnchorAccountType::UncheckedAccount
            } else if chars_is(c.as_slice(), "AccountInfo") {
                AnchorAccountType::AccountInfo
            } else if chars_starts(c.as_slice(), "Program<") {
                AnchorAccountType::Program(wrapper_inner_exec(c.as_slice(), 8, "System"))
            } else if chars_starts(c.as_slice(), "Sysvar<") {
                AnchorAccountType::Sysvar(wrapper_inner_exec(c.as_slice(), 7, "Rent"))
            } else if chars_is(c.as_slice(), "SystemProgram") {
                AnchorAccountType::Program(to_string("System"))
            } else {
                AnchorAccountType::Account(copy_string(n))
            }
        },
        _ => AnchorAccountType::AccountInfo,
    }
}

} // verus!
