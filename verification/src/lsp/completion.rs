//! Completion: what the cursor is in (top level, an attribute, a type
//! position, an enum body) and the entries offered there.

use vstd::prelude::*;
use crate::text::{
    chars_of, contains, ends_with, find_exec, is_ws, line_at, line_count, lines_exec, slice_range,
    starts_with, starts_with_exec, ends_with_exec, to_string, trim, trim_end, trim_end_exec, trim_exec,
};

verus! {

/// The kind of a completion entry.
#[derive(Debug, Clone, Copy, PartialEq, Eq, Structural)]
pub enum CompletionKind {
    /// A struct type.
    Struct,
    /// A keyword or attribute.
    Keyword,
    /// A generic container.
    Class,
    /// A primitive type.
    TypeParameter,
}

/// The documentation of a completion entry.
#[derive(Debug, Clone)]
pub enum CompletionDoc {
    /// Markdown text.
    Markdown(String),
    /// Plain text.
    Plain(String),
}

/// A completion entry.
#[derive(Debug, Clone)]
pub struct CompletionEntry {
    /// What is shown.
    pub label: String,
    /// Its kind.
    pub kind: CompletionKind,
    /// A one-line description.
    pub detail: String,
    /// Documentation.
    pub documentation: Option<CompletionDoc>,
    /// What is inserted in place of the label.
    pub insert_text: Option<String>,
    /// Whether the inserted text is a snippet with `$n` tab stops.
    pub snippet: bool,
}

/// A completion entry as characters; its documentation is marked `true`
/// when it is Markdown.
pub struct EntryView {
    /// What is shown.
    pub label: Seq<char>,
    /// The kind of entry.
    pub kind: CompletionKind,
    /// The one-line description.
    pub detail: Seq<char>,
    /// The documentation, marked `true` when it is Markdown.
    pub doc: Option<(bool, Seq<char>)>,
    /// What is inserted.
    pub insert: Option<Seq<char>>,
    /// Whether what is inserted is a snippet.
    pub snippet: bool,
}

/// The view of an entry.
pub open spec fn entry_view(e: CompletionEntry) -> EntryView {
    EntryView {
        label: e.label@,
        kind: e.kind,
        detail: e.detail@,
        doc: match e.documentation {
            Some(CompletionDoc::Markdown(s)) => Some((true, s@)),
            Some(CompletionDoc::Plain(s)) => Some((false, s@)),
            None => None,
        },
        insert: match e.insert_text {
            Some(s) => Some(s@),
            None => None,
        },
        snippet: e.snippet,
    }
}

/// The views of entries.
pub open spec fn entry_views(es: Seq<CompletionEntry>) -> Seq<EntryView> {
    es.map_values(|e: CompletionEntry| entry_view(e))
}

/// Completion documentation, in Markdown.
pub const COMPLETION_DOC_1: &'static str = "Solana public key type.\n\n**Size**: 32 bytes\n**Use for**: Account addresses, signers";
/// Completion documentation, in Markdown.
pub const COMPLETION_DOC_2: &'static str = "Solana signature type.\n\n**Size**: 64 bytes\n**Use for**: Transaction signatures";
/// Completion documentation, in Markdown.
pub const COMPLETION_DOC_3: &'static str = "Solana keypair type.\n\n**Use for**: Authority, signing";
/// Completion documentation, in Markdown.
pub const COMPLETION_DOC_4: &'static str = "Marks a struct or enum as Solana-compatible.\n\n**Usage**: `#[solana]`\n**Applies to**: structs, enums";
/// Completion documentation, in Markdown.
pub const COMPLETION_DOC_5: &'static str = "Marks a struct as an Anchor account.\n\n**Usage**: `#[account]`\n**Applies to**: structs\n**Requires**: `#[solana]` attribute";
/// Completion documentation, in Markdown.
pub const COMPLETION_DOC_6: &'static str = "Marks a field as a unique key.\n\n**Usage**: `#[key]`\n**Applies to**: struct fields";
/// Completion documentation, in Markdown.
pub const COMPLETION_DOC_7: &'static str = "Sets maximum length for arrays or strings.\n\n**Usage**: `#[max(100)]`\n**Applies to**: array and String fields";
/// Completion documentation, in Markdown.
pub const COMPLETION_DOC_8: &'static str = "Marks a field as deprecated.\n\n**Usage**: `#[deprecated]` or `#[deprecated(\"message\")]`\n**Applies to**: struct fields, enum variant fields";
/// Completion documentation, in Markdown.
pub const COMPLETION_DOC_9: &'static str = "Dynamic array type.\n\n**Usage**: `Vec<Type>`\n**Example**: `items: Vec<PublicKey>`";
/// Completion documentation, in Markdown.
pub const COMPLETION_DOC_10: &'static str = "Optional type (can be None).\n\n**Usage**: `Option<Type>`\n**Example**: `email: Option<String>`";

/// A primitive type entry.
pub open spec fn type_item_view(label: Seq<char>, detail: Seq<char>, docs: Seq<char>) -> EntryView {
    EntryView {
        label,
        kind: CompletionKind::TypeParameter,
        detail,
        doc: Some((false, docs)),
        insert: None,
        snippet: false,
    }
}

/// An attribute name entry: a snippet when what it inserts has a `$`.
pub open spec fn attribute_name_view(label: Seq<char>, detail: Seq<char>, insert: Seq<char>) -> EntryView {
    EntryView {
        label,
        kind: CompletionKind::Keyword,
        detail,
        doc: None,
        insert: Some(insert),
        snippet: contains(insert, "$"@),
    }
}

/// An entry for a primitive type.
pub fn create_type_item(label: &str, detail: &str, docs: &str) -> (r: CompletionEntry)
    ensures
        entry_view(r) == type_item_view(label@, detail@, docs@),
{
    CompletionEntry {
        label: to_string(label),
        kind: CompletionKind::TypeParameter,
        detail: to_string(detail),
        documentation: Some(CompletionDoc::Plain(to_string(docs))),
        insert_text: None,
        snippet: false,
    }
}

/// An entry for an attribute name written after `#[`.
pub fn create_attribute_name_item(label: &str, detail: &str, insert_text: &str) -> (r:
    CompletionEntry)
    ensures
        entry_view(r) == attribute_name_view(label@, detail@, insert_text@),
{
    let ins = chars_of(insert_text);
    let dollar = chars_of("$");
    let snippet = match find_exec(ins.as_slice(), dollar.as_slice()) {
        Some(_) => true,
        None => false,
    };
    CompletionEntry {
        label: to_string(label),
        kind: CompletionKind::Keyword,
        detail: to_string(detail),
        documentation: None,
        insert_text: Some(to_string(insert_text)),
        snippet,
    }
}

/// The Solana types.
pub open spec fn solana_type_entries() -> Seq<EntryView> {
    seq![
        EntryView { label: "PublicKey"@, kind: CompletionKind::Struct, detail: "Solana public key (32 bytes)"@, doc: Some((true, COMPLETION_DOC_1@)), insert: None, snippet: false },
        EntryView { label: "Signature"@, kind: CompletionKind::Struct, detail: "Solana signature (64 bytes)"@, doc: Some((true, COMPLETION_DOC_2@)), insert: None, snippet: false },
        EntryView { label: "Keypair"@, kind: CompletionKind::Struct, detail: "Solana keypair"@, doc: Some((true, COMPLETION_DOC_3@)), insert: None, snippet: false },
    ]
}

/// The Solana types.
pub fn solana_type_completions() -> (r: Vec<CompletionEntry>)
    ensures
        entry_views(r@) == solana_type_entries(),
{
    let mut v: Vec<CompletionEntry> = Vec::new();
    v.push(CompletionEntry { label: to_string("PublicKey"), kind: CompletionKind::Struct, detail: to_string("Solana public key (32 bytes)"), documentation: Some(CompletionDoc::Markdown(to_string(COMPLETION_DOC_1))), insert_text: None, snippet: false });
    v.push(CompletionEntry { label: to_string("Signature"), kind: CompletionKind::Struct, detail: to_string("Solana signature (64 bytes)"), documentation: Some(CompletionDoc::Markdown(to_string(COMPLETION_DOC_2))), insert_text: None, snippet: false });
    v.push(CompletionEntry { label: to_string("Keypair"), kind: CompletionKind::Struct, detail: to_string("Solana keypair"), documentation: Some(CompletionDoc::Markdown(to_string(COMPLETION_DOC_3))), insert_text: None, snippet: false });
    assert(entry_views(v@) =~= solana_type_entries());
    v
}

/// The primitive types.
pub open spec fn primitive_type_entries() -> Seq<EntryView> {
    seq![
        type_item_view("u8"@, "8-bit unsigned integer"@, "Range: 0 to 255"@),
        type_item_view("u16"@, "16-bit unsigned integer"@, "Range: 0 to 65,535"@),
        type_item_view("u32"@, "32-bit unsigned integer"@, "Range: 0 to 4,294,967,295"@),
        type_item_view("u64"@, "64-bit unsigned integer"@, "Range: 0 to 18,446,744,073,709,551,615\n\n**Warning**: JavaScript numbers are safe up to 2^53-1"@),
        type_item_view("u128"@, "128-bit unsigned integer"@, "Range: 0 to 340,282,366,920,938,463,463,374,607,431,768,211,455"@),
        type_item_view("i8"@, "8-bit signed integer"@, "Range: -128 to 127"@),
        type_item_view("i16"@, "16-bit signed integer"@, "Range: -32,768 to 32,767"@),
        type_item_view("i32"@, "32-bit signed integer"@, "Range: -2,147,483,648 to 2,147,483,647"@),
        type_item_view("i64"@, "64-bit signed integer"@, "Range: -9,223,372,036,854,775,808 to 9,223,372,036,854,775,807"@),
        type_item_view("i128"@, "128-bit signed integer"@, "Very large signed integer"@),
        type_item_view("f32"@, "32-bit floating point"@, "Single precision float"@),
        type_item_view("f64"@, "64-bit floating point"@, "Double precision float"@),
        type_item_view("bool"@, "Boolean type"@, "Values: true or false"@),
        type_item_view("String"@, "UTF-8 string"@, "Variable-length text"@),
    ]
}

/// The primitive types.
pub fn primitive_type_completions() -> (r: Vec<CompletionEntry>)
    ensures
        entry_views(r@) == primitive_type_entries(),
{
    let mut v: Vec<CompletionEntry> = Vec::new();
    v.push(create_type_item("u8", "8-bit unsigned integer", "Range: 0 to 255"));
    v.push(create_type_item("u16", "16-bit unsigned integer", "Range: 0 to 65,535"));
    v.push(create_type_item("u32", "32-bit unsigned integer", "Range: 0 to 4,294,967,295"));
    v.push(create_type_item("u64", "64-bit unsigned integer", "Range: 0 to 18,446,744,073,709,551,615\n\n**Warning**: JavaScript numbers are safe up to 2^53-1"));
    v.push(create_type_item("u128", "128-bit unsigned integer", "Range: 0 to 340,282,366,920,938,463,463,374,607,431,768,211,455"));
    v.push(create_type_item("i8", "8-bit signed integer", "Range: -128 to 127"));
    v.push(create_type_item("i16", "16-bit signed integer", "Range: -32,768 to 32,767"));
    v.push(create_type_item("i32", "32-bit signed integer", "Range: -2,147,483,648 to 2,147,483,647"));
    v.push(create_type_item("i64", "64-bit signed integer", "Range: -9,223,372,036,854,775,808 to 9,223,372,036,854,775,807"));
    v.push(create_type_item("i128", "128-bit signed integer", "Very large signed integer"));
    v.push(create_type_item("f32", "32-bit floating point", "Single precision float"));
    v.push(create_type_item("f64", "64-bit floating point", "Double precision float"));
    v.push(create_type_item("bool", "Boolean type", "Values: true or false"));
    v.push(create_type_item("String", "UTF-8 string", "Variable-length text"));
    assert(entry_views(v@) =~= primitive_type_entries());
    v
}

/// The attributes, written out with `#[...]`.
pub open spec fn attribute_entries() -> Seq<EntryView> {
    seq![
        EntryView { label: "#[solana]"@, kind: CompletionKind::Keyword, detail: "Mark as Solana-compatible type"@, doc: Some((true, COMPLETION_DOC_4@)), insert: Some("#[solana]"@), snippet: false },
        EntryView { label: "#[account]"@, kind: CompletionKind::Keyword, detail: "Mark as Anchor account"@, doc: Some((true, COMPLETION_DOC_5@)), insert: Some("#[account]"@), snippet: false },
        EntryView { label: "#[key]"@, kind: CompletionKind::Keyword, detail: "Mark field as unique key"@, doc: Some((true, COMPLETION_DOC_6@)), insert: Some("#[key]"@), snippet: false },
        EntryView { label: "#[max(n)]"@, kind: CompletionKind::Keyword, detail: "Set maximum array/string length"@, doc: Some((true, COMPLETION_DOC_7@)), insert: Some("#[max($1)]"@), snippet: true },
        EntryView { label: "#[deprecated]"@, kind: CompletionKind::Keyword, detail: "Mark field as deprecated"@, doc: Some((true, COMPLETION_DOC_8@)), insert: Some("#[deprecated]"@), snippet: false },
    ]
}

/// The attributes, written out with `#[...]`.
pub fn attribute_completions() -> (r: Vec<CompletionEntry>)
    ensures
        entry_views(r@) == attribute_entries(),
{
    let mut v: Vec<CompletionEntry> = Vec::new();
    v.push(CompletionEntry { label: to_string("#[solana]"), kind: CompletionKind::Keyword, detail: to_string("Mark as Solana-compatible type"), documentation: Some(CompletionDoc::Markdown(to_string(COMPLETION_DOC_4))), insert_text: Some(to_string("#[solana]")), snippet: false });
    v.push(CompletionEntry { label: to_string("#[account]"), kind: CompletionKind::Keyword, detail: to_string("Mark as Anchor account"), documentation: Some(CompletionDoc::Markdown(to_string(COMPLETION_DOC_5))), insert_text: Some(to_string("#[account]")), snippet: false });
    v.push(CompletionEntry { label: to_string("#[key]"), kind: CompletionKind::Keyword, detail: to_string("Mark field as unique key"), documentation: Some(CompletionDoc::Markdown(to_string(COMPLETION_DOC_6))), insert_text: Some(to_string("#[key]")), snippet: false });
    v.push(CompletionEntry { label: to_string("#[max(n)]"), kind: CompletionKind::Keyword, detail: to_string("Set maximum array/string length"), documentation: Some(CompletionDoc::Markdown(to_string(COMPLETION_DOC_7))), insert_text: Some(to_string("#[max($1)]")), snippet: true });
    v.push(CompletionEntry { label: to_string("#[deprecated]"), kind: CompletionKind::Keyword, detail: to_string("Mark field as deprecated"), documentation: Some(CompletionDoc::Markdown(to_string(COMPLETION_DOC_8))), insert_text: Some(to_string("#[deprecated]")), snippet: false });
    assert(entry_views(v@) =~= attribute_entries());
    v
}

/// The attribute names, for after `#[`.
pub open spec fn attribute_name_entries() -> Seq<EntryView> {
    seq![
        attribute_name_view("solana"@, "Mark as Solana-compatible type"@, "solana]"@),
        attribute_name_view("account"@, "Mark as Anchor account"@, "account]"@),
        attribute_name_view("key"@, "Mark field as unique key"@, "key]"@),
        attribute_name_view("max"@, "Set maximum array/string length"@, "max($1)]"@),
        attribute_name_view("deprecated"@, "Mark field as deprecated"@, "deprecated]"@),
    ]
}

/// The attribute names, for after `#[`.
pub fn attribute_names_only() -> (r: Vec<CompletionEntry>)
    ensures
        entry_views(r@) == attribute_name_entries(),
{
    let mut v: Vec<CompletionEntry> = Vec::new();
    v.push(create_attribute_name_item("solana", "Mark as Solana-compatible type", "solana]"));
    v.push(create_attribute_name_item("account", "Mark as Anchor account", "account]"));
    v.push(create_attribute_name_item("key", "Mark field as unique key", "key]"));
    v.push(create_attribute_name_item("max", "Set maximum array/string length", "max($1)]"));
    v.push(create_attribute_name_item("deprecated", "Mark field as deprecated", "deprecated]"));
    assert(entry_views(v@) =~= attribute_name_entries());
    v
}

/// The container types.
pub open spec fn container_entries() -> Seq<EntryView> {
    seq![
        EntryView { label: "Vec"@, kind: CompletionKind::Class, detail: "Dynamic array type"@, doc: Some((true, COMPLETION_DOC_9@)), insert: Some("Vec<$1>"@), snippet: true },
        EntryView { label: "Option"@, kind: CompletionKind::Class, detail: "Optional type"@, doc: Some((true, COMPLETION_DOC_10@)), insert: Some("Option<$1>"@), snippet: true },
    ]
}

/// The container types.
pub fn container_type_completions() -> (r: Vec<CompletionEntry>)
    ensures
        entry_views(r@) == container_entries(),
{
    let mut v: Vec<CompletionEntry> = Vec::new();
    v.push(CompletionEntry { label: to_string("Vec"), kind: CompletionKind::Class, detail: to_string("Dynamic array type"), documentation: Some(CompletionDoc::Markdown(to_string(COMPLETION_DOC_9))), insert_text: Some(to_string("Vec<$1>")), snippet: true });
    v.push(CompletionEntry { label: to_string("Option"), kind: CompletionKind::Class, detail: to_string("Optional type"), documentation: Some(CompletionDoc::Markdown(to_string(COMPLETION_DOC_10))), insert_text: Some(to_string("Option<$1>")), snippet: true });
    assert(entry_views(v@) =~= container_entries());
    v
}

/// The keywords.
pub open spec fn keyword_entries() -> Seq<EntryView> {
    seq![
        EntryView { label: "struct"@, kind: CompletionKind::Keyword, detail: "Define a struct"@, doc: Some((false, "Define a struct type"@)), insert: Some("struct $1 {\n    $2\n}"@), snippet: true },
        EntryView { label: "enum"@, kind: CompletionKind::Keyword, detail: "Define an enum"@, doc: Some((false, "Define an enum type"@)), insert: Some("enum $1 {\n    $2\n}"@), snippet: true },
    ]
}

/// The keywords.
pub fn keyword_completions() -> (r: Vec<CompletionEntry>)
    ensures
        entry_views(r@) == keyword_entries(),
{
    let mut v: Vec<CompletionEntry> = Vec::new();
    v.push(CompletionEntry { label: to_string("struct"), kind: CompletionKind::Keyword, detail: to_string("Define a struct"), documentation: Some(CompletionDoc::Plain(to_string("Define a struct type"))), insert_text: Some(to_string("struct $1 {\n    $2\n}")), snippet: true });
    v.push(CompletionEntry { label: to_string("enum"), kind: CompletionKind::Keyword, detail: to_string("Define an enum"), documentation: Some(CompletionDoc::Plain(to_string("Define an enum type"))), insert_text: Some(to_string("enum $1 {\n    $2\n}")), snippet: true });
    assert(entry_views(v@) =~= keyword_entries());
    v
}

/// Where a cursor is, for completion.
#[derive(Debug, Clone, Copy, PartialEq, Eq, Structural)]
pub enum CompletionContext {
    /// Before any struct or enum, on an empty line.
    TopLevel,
    /// Just after `#[`.
    Attribute,
    /// After `name:`, where a type goes.
    TypePosition,
    /// Inside an enum body.
    EnumBody,
    /// Anywhere else.
    Generic,
}

/// The last position of `c` in `s`, or -1.
pub open spec fn last_pos_of(s: Seq<char>, c: char) -> int
    decreases s.len(),
{
    if s.len() == 0 {
        -1
    } else if s.last() == c {
        s.len() - 1
    } else {
        last_pos_of(s.drop_last(), c)
    }
}

/// Whether `c` occurs in `s`.
pub open spec fn has_char(s: Seq<char>, c: char) -> bool {
    last_pos_of(s, c) >= 0
}

/// Whether what follows the last `:` of `before`, trimmed, is empty or
/// holds no space: the cursor is at a type.
pub open spec fn at_type(before: Seq<char>) -> bool {
    let after = trim(before.subrange(last_pos_of(before, ':') + 1, before.len() as int));
    after.len() == 0 || !has_char(after, ' ')
}

/// Whether an enum is open after lines `0..k`: a line starting with
/// `enum ` opens one and a line that is `}` closes it.
pub open spec fn enum_open(text: Seq<char>, k: int) -> bool
    decreases k,
{
    if k <= 0 {
        false
    } else {
        let t = trim(line_at(text, k - 1));
        if t == "}"@ {
            false
        } else if starts_with(t, "enum "@) {
            true
        } else {
            enum_open(text, k - 1)
        }
    }
}

/// Whether one of lines `0..k` starts a struct or an enum.
pub open spec fn declared_before(text: Seq<char>, k: int) -> bool
    decreases k,
{
    if k <= 0 {
        false
    } else {
        let t = trim(line_at(text, k - 1));
        starts_with(t, "struct "@) || starts_with(t, "enum "@) || declared_before(text, k - 1)
    }
}

/// The context of a cursor at line `line` and column `col` (counted from
/// 0, the column in characters).
pub open spec fn context_at(text: Seq<char>, line: int, col: int) -> CompletionContext {
    if text.len() == 0 {
        CompletionContext::TopLevel
    } else if line >= line_count(text) {
        CompletionContext::Generic
    } else {
        let cur = line_at(text, line);
        let before = if col <= cur.len() {
            cur.take(col)
        } else {
            cur
        };
        if ends_with(trim_end(before), "#["@) {
            CompletionContext::Attribute
        } else if has_char(before, ':') && !has_char(before, '{') && at_type(before) {
            CompletionContext::TypePosition
        } else if enum_open(text, line + 1) {
            CompletionContext::EnumBody
        } else if !declared_before(text, line) && trim(before).len() == 0 {
            CompletionContext::TopLevel
        } else {
            CompletionContext::Generic
        }
    }
}

/// The entries offered in a context.
pub open spec fn entries_for(c: CompletionContext) -> Seq<EntryView> {
    match c {
        CompletionContext::TopLevel => keyword_entries() + attribute_entries(),
        CompletionContext::Attribute => attribute_name_entries(),
        CompletionContext::TypePosition => solana_type_entries() + primitive_type_entries()
            + container_entries(),
        CompletionContext::EnumBody => Seq::empty(),
        CompletionContext::Generic => solana_type_entries() + primitive_type_entries()
            + attribute_entries() + keyword_entries(),
    }
}

fn last_pos_of_exec(s: &Vec<char>, c: char) -> (r: Option<usize>)
    ensures
        match r {
            Some(k) => k as int == last_pos_of(s@, c) && k < s@.len(),
            None => last_pos_of(s@, c) < 0,
        },
{
    let mut k: usize = s.len();
    assert(s@.take(k as int) =~= s@);
    while k > 0
        invariant
            k <= s@.len(),
            last_pos_of(s@, c) == last_pos_of(s@.take(k as int), c),
        decreases k,
    {
        proof {
            assert(s@.take(k as int).drop_last() =~= s@.take(k - 1));
        }
        if s[k - 1] == c {
            return Some(k - 1);
        }
        k = k - 1;
    }
    None
}

fn starts_with_text(s: &Vec<char>, p: &str) -> (r: bool)
    ensures
        r == starts_with(s@, p@),
{
    let pc = chars_of(p);
    starts_with_exec(s.as_slice(), pc.as_slice())
}

fn is_closing_brace(t: &Vec<char>) -> (r: bool)
    ensures
        r == (t@ == "}"@),
{
    proof {
        reveal_strlit("}");
    }
    if t.len() == 1 && t[0] == '}' {
        assert(t@ =~= "}"@);
        true
    } else {
        false
    }
}

/// The context of a cursor, for completion.
#[verifier::rlimit(30)]
pub fn detect_context(text: &str, line: u32, character: u32) -> (r: CompletionContext)
    ensures
        r == context_at(text@, line as int, character as int),
{
    if text.unicode_len() == 0 {
        return CompletionContext::TopLevel;
    }
    let lines = lines_exec(text);
    let ln = line as usize;
    if ln >= lines.len() {
        return CompletionContext::Generic;
    }
    let cur = &lines[ln];
    let col = character as usize;
    let before = if col <= cur.len() {
        let b = slice_range(cur.as_slice(), 0, col);
        assert(b@ =~= cur@.take(col as int));
        b
    } else {
        slice_range(cur.as_slice(), 0, cur.len())
    };
    assert(before@ =~= (if col <= cur@.len() { cur@.take(col as int) } else { cur@ }));
    let tail_trimmed = trim_end_exec(before.as_slice());
    let hash = chars_of("#[");
    if ends_with_exec(tail_trimmed.as_slice(), hash.as_slice()) {
        return CompletionContext::Attribute;
    }
    let colon = last_pos_of_exec(&before, ':');
    let brace = last_pos_of_exec(&before, '{');
    match colon {
        Some(cpos) => {
            if brace.is_none() {
                let after = trim_exec(slice_range(before.as_slice(), cpos + 1, before.len()).as_slice());
                let space = last_pos_of_exec(&after, ' ');
                if after.len() == 0 || space.is_none() {
                    return CompletionContext::TypePosition;
                }
            }
        },
        None => {},
    }
    let mut in_enum = false;
    let mut k: usize = 0;
    assert(ln < usize::MAX);
    while k <= ln
        invariant
            ln < usize::MAX,
            ln < lines@.len(),
            lines@.len() == line_count(text@),
            forall|i: int| 0 <= i < lines@.len() ==> #[trigger] lines@[i]@ == line_at(text@, i),
            k <= ln + 1,
            in_enum == enum_open(text@, k as int),
        decreases ln + 1 - k,
    {
        let t = trim_exec(lines[k].as_slice());
        if is_closing_brace(&t) {
            in_enum = false;
        } else if starts_with_text(&t, "enum ") {
            in_enum = true;
        }
        k = k + 1;
    }
    if in_enum {
        return CompletionContext::EnumBody;
    }
    let mut declared = false;
    let mut k: usize = 0;
    while k < ln
        invariant
            ln < lines@.len(),
            lines@.len() == line_count(text@),
            forall|i: int| 0 <= i < lines@.len() ==> #[trigger] lines@[i]@ == line_at(text@, i),
            k <= ln,
            declared == declared_before(text@, k as int),
        decreases ln - k,
    {
        let t = trim_exec(lines[k].as_slice());
        if starts_with_text(&t, "struct ") || starts_with_text(&t, "enum ") {
            declared = true;
        }
        k = k + 1;
    }
    let blank = trim_exec(before.as_slice()).len() == 0;
    if !declared && blank {
        CompletionContext::TopLevel
    } else {
        CompletionContext::Generic
    }
}

/// The completion entries for a cursor: keywords and attributes at top
/// level, attribute names after `#[`, types at a type position, none in an
/// enum body, and everything else anywhere else.
pub fn get_completions(text: &str, line: u32, character: u32) -> (r: Vec<CompletionEntry>)
    ensures
        entry_views(r@) == entries_for(context_at(text@, line as int, character as int)),
{
    let context = detect_context(text, line, character);
    let mut items: Vec<CompletionEntry> = Vec::new();
    match context {
        CompletionContext::TopLevel => {
            let mut a = keyword_completions();
            let mut b = attribute_completions();
            a.append(&mut b);
            items = a;
        },
        CompletionContext::Attribute => {
            items = attribute_names_only();
        },
        CompletionContext::TypePosition => {
            let mut a = solana_type_completions();
            let mut b = primitive_type_completions();
            let mut c = container_type_completions();
            a.append(&mut b);
            a.append(&mut c);
            items = a;
        },
        CompletionContext::EnumBody => {},
        CompletionContext::Generic => {
            let mut a = solana_type_completions();
            let mut b = primitive_type_completions();
            let mut c = attribute_completions();
            let mut d = keyword_completions();
            a.append(&mut b);
            a.append(&mut c);
            a.append(&mut d);
            items = a;
        },
    }
    assert(entry_views(items@) =~= entries_for(context));
    items
}

} // verus!
