//! Diagnostics: an error of a schema turned into a located message.

use vstd::prelude::*;
use crate::ast::LumosFile;
use crate::error::{error_text, LumosError};
use crate::text::{
    chars_of, find_exec, is_numeric, occurs_at, parse_u64, parse_u64_exec, slice_range,
    string_from_chars, trim, trim_exec, char_is_numeric,
};
use crate::ir::TypeDefinition;
use crate::parser::{file_answer, parse_lumos_file};
use crate::transform::{transform_answer, transform_to_ir};

verus! {

/// The first position from `k` on at which `p` occurs in `s`, or -1.
pub open spec fn find_from(s: Seq<char>, p: Seq<char>, k: int) -> int
    decreases s.len() + 1 - k,
{
    if k < 0 || k + p.len() > s.len() {
        -1
    } else if occurs_at(s, p, k) {
        k
    } else {
        find_from(s, p, k + 1)
    }
}

proof fn lemma_find_from(s: Seq<char>, p: Seq<char>, k: int)
    requires
        0 <= k,
    ensures
        find_from(s, p, k) >= 0 ==> find_from(s, p, k) >= k && occurs_at(s, p, find_from(s, p, k))
            && forall|j: int| k <= j < find_from(s, p, k) ==> !occurs_at(s, p, j),
        find_from(s, p, k) < 0 ==> forall|j: int| k <= j ==> !occurs_at(s, p, j),
    decreases s.len() + 1 - k,
{
    if k + p.len() <= s.len() && !occurs_at(s, p, k) {
        lemma_find_from(s, p, k + 1);
    }
}

/// What `str::parse::<usize>` gives.
pub open spec fn parse_usize(s: Seq<char>) -> Option<usize> {
    match parse_u64(s) {
        Some(v) => if v <= usize::MAX {
            Some(v as usize)
        } else {
            None
        },
        None => None,
    }
}

/// The number that `s` holds, white space aside, or 1.
#[verifier::opaque]
pub open spec fn number_or_one_of(s: Seq<char>) -> usize {
    match parse_usize(trim(s)) {
        Some(v) => v,
        None => 1,
    }
}

/// The number of leading numeric characters of `s`.
pub open spec fn numeric_prefix_len(s: Seq<char>) -> nat
    decreases s.len(),
{
    if s.len() == 0 || !char_is_numeric(s[0]) {
        0
    } else {
        1 + numeric_prefix_len(s.drop_first())
    }
}

#[verifier::opaque]
/// The column of a message's "..., column M" tail: the number after
/// `column ` (up to the first non-numeric character), 1 when there is none.
pub open spec fn column_of(rest: Seq<char>) -> usize {
    let at = find_from(rest, "column "@, 0);
    if at >= 0 {
        let col = rest.subrange(at + "column "@.len(), rest.len() as int);
        number_or_one_of(col.take(numeric_prefix_len(col) as int))
    } else {
        1
    }
}

/// The line and column that a message names as "at line N, column M",
/// each 1 where it cannot be read.
#[verifier::opaque]
pub open spec fn location_of(m: Seq<char>) -> (usize, usize) {
    let at = find_from(m, " at line "@, 0);
    if at >= 0 {
        let rest = m.subrange(at + " at line "@.len(), m.len() as int);
        let c = find_from(rest, ","@, 0);
        if c >= 0 {
            (number_or_one_of(rest.take(c)), column_of(rest.subrange(c + 1, rest.len() as int)))
        } else {
            (1, 1)
        }
    } else {
        (1, 1)
    }
}

/// A message without its location: cut before " at line " or, failing
/// that, before " (at ".
#[verifier::opaque]
pub open spec fn cleaned(m: Seq<char>) -> Seq<char> {
    let a = find_from(m, " at line "@, 0);
    let b = find_from(m, " (at "@, 0);
    if a >= 0 {
        m.take(a)
    } else if b >= 0 {
        m.take(b)
    } else {
        m
    }
}

fn find_first(s: &Vec<char>, p: &str) -> (r: Option<usize>)
    ensures
        match r {
            Some(i) => i as int == find_from(s@, p@, 0) && i + p@.len() <= s@.len(),
            None => find_from(s@, p@, 0) < 0,
        },
{
    let pc = chars_of(p);
    let r = find_exec(s.as_slice(), pc.as_slice());
    proof {
        lemma_find_from(s@, p@, 0);
        let f = find_from(s@, p@, 0);
        match r {
            Some(i) => {
                if f < 0 {
                    assert(!occurs_at(s@, p@, i as int));
                } else if f < i {
                    assert(!occurs_at(s@, p@, f));
                } else if f > i {
                    assert(!occurs_at(s@, p@, i as int));
                }
            },
            None => {
                if f >= 0 {
                    assert(crate::text::contains(s@, p@));
                }
            },
        }
    }
    r
}

fn parse_usize_exec(s: &[char]) -> (r: Option<usize>)
    ensures
        r == parse_usize(s@),
{
    match parse_u64_exec(s) {
        Some(v) => {
            if v <= usize::MAX as u64 {
                Some(v as usize)
            } else {
                None
            }
        },
        None => None,
    }
}

fn numeric_prefix(s: &Vec<char>) -> (r: usize)
    ensures
        r == numeric_prefix_len(s@),
        r <= s@.len(),
{
    let mut k: usize = 0;
    assert(s@.subrange(0, s@.len() as int) =~= s@);
    while k < s.len() && is_numeric(s[k])
        invariant
            k <= s@.len(),
            numeric_prefix_len(s@) == k + numeric_prefix_len(s@.subrange(k as int, s@.len() as int)),
        decreases s@.len() - k,
    {
        proof {
            let t = s@.subrange(k as int, s@.len() as int);
            assert(t.drop_first() =~= s@.subrange(k + 1, s@.len() as int));
        }
        k = k + 1;
    }
    proof {
        let t = s@.subrange(k as int, s@.len() as int);
        if k < s@.len() {
            assert(t[0] == s@[k as int]);
        }
    }
    k
}

fn number_or_one(s: &[char]) -> (r: usize)
    ensures
        r == number_or_one_of(s@),
{
    proof {
        reveal(number_or_one_of);
    }
    let t = trim_exec(s);
    match parse_usize_exec(t.as_slice()) {
        Some(v) => v,
        None => 1,
    }
}

fn column_from(tail: &Vec<char>) -> (r: usize)
    ensures
        r == column_of(tail@),
{
    proof {
        reveal(column_of);
    }
    let key = "column ";
    match find_first(tail, key) {
        None => 1,
        Some(cs) => {
            let klen = key.unicode_len();
            let n = tail.len();
            assert(cs + klen <= n);
            let col = slice_range(tail.as_slice(), cs + klen, n);
            let end = numeric_prefix(&col);
            let digits = slice_range(col.as_slice(), 0, end);
            assert(col@.subrange(0, end as int) =~= col@.take(end as int));
            number_or_one(digits.as_slice())
        },
    }
}

/// The line and column that an error message names as "at line N, column
/// M"; each is 1 where it cannot be read.
pub fn extract_location_from_error(message: &str) -> (r: (usize, usize))
    ensures
        r == location_of(message@),
{
    proof {
        reveal(location_of);
    }
    let key = " at line ";
    let m = chars_of(message);
    match find_first(&m, key) {
        None => (1, 1),
        Some(at) => {
            let klen = key.unicode_len();
            let n = m.len();
            assert(at + klen <= n);
            let rest = slice_range(m.as_slice(), at + klen, n);
            match find_first(&rest, ",") {
                None => (1, 1),
                Some(c) => {
                    proof {
                        reveal_strlit(",");
                    }
                    let head = slice_range(rest.as_slice(), 0, c);
                    assert(rest@.subrange(0, c as int) =~= rest@.take(c as int));
                    let line = number_or_one(head.as_slice());
                    let tail = slice_range(rest.as_slice(), c + 1, rest.len());
                    let column = column_from(&tail);
                    (line, column)
                },
            }
        },
    }
}

/// An error message without its location.
pub fn clean_error_message(message: &str) -> (r: String)
    ensures
        r@ == cleaned(message@),
{
    proof {
        reveal(cleaned);
    }
    let m = chars_of(message);
    match find_first(&m, " at line ") {
        Some(at) => {
            let r = string_from_chars(slice_range(m.as_slice(), 0, at).as_slice());
            assert(m@.subrange(0, at as int) =~= m@.take(at as int));
            r
        },
        None => match find_first(&m, " (at ") {
            Some(at) => {
                let r = string_from_chars(slice_range(m.as_slice(), 0, at).as_slice());
                assert(m@.subrange(0, at as int) =~= m@.take(at as int));
                r
            },
            None => string_from_chars(m.as_slice()),
        },
    }
}

/// How serious a diagnostic is.
#[derive(Debug, Clone, Copy, PartialEq, Eq, Structural)]
pub enum DiagnosticLevel {
    /// An error.
    Error,
    /// A warning.
    Warning,
}

/// A diagnostic on one line of a document, from a start to an end column
/// (both counted from 0).
#[derive(Debug, Clone)]
pub struct SchemaDiagnostic {
    /// The line.
    pub line: u32,
    /// The first column.
    pub start_character: u32,
    /// The column after the last.
    pub end_character: u32,
    /// How serious it is.
    pub level: DiagnosticLevel,
    /// Who reports it.
    pub source: String,
    /// The message, without its location.
    pub message: String,
}

/// The diagnostic that reports `e`.
pub open spec fn diagnostic_of(e: LumosError, d: SchemaDiagnostic) -> bool {
    let m = error_text(e);
    let (line, column) = location_of(m);
    let l = if line >= 1 { (line - 1) as usize } else { 0usize };
    let c = if column >= 1 { (column - 1) as usize } else { 0usize };
    &&& d.line == l as u32
    &&& d.start_character == c as u32
    &&& d.end_character as int == ((c as u32) as int + 10) % 0x1_0000_0000
    &&& d.level == (if e is CodeGen { DiagnosticLevel::Warning } else { DiagnosticLevel::Error })
    &&& d.source@ == "lumos"@
    &&& d.message@ == cleaned(m)
}


/// The diagnostic for an error: the location its message names (counted
/// from 0; a start ten columns wide), its message without the location, and
/// a warning for a code generation error, an error otherwise.
pub fn error_to_diagnostic(error: &LumosError) -> (r: SchemaDiagnostic)
    ensures
        diagnostic_of(*error, r),
{
    let message = error.to_display_string();
    let (line, column) = extract_location_from_error(message.as_str());
    let l = line.saturating_sub(1);
    let c = column.saturating_sub(1);
    let start = c as u32;
    let level = match error {
        LumosError::CodeGen(_) => DiagnosticLevel::Warning,
        _ => DiagnosticLevel::Error,
    };
    SchemaDiagnostic {
        line: l as u32,
        start_character: start,
        end_character: start.wrapping_add(10),
        level,
        source: crate::text::to_string("lumos"),
        message: clean_error_message(message.as_str()),
    }
}

/// Whether `r` are the diagnostics of a document that parsed as `parsed`:
/// its parse error, or the error lowering it gives, or none.
pub open spec fn diagnostics_of(parsed: Result<LumosFile, LumosError>, r: Seq<SchemaDiagnostic>) -> bool {
    match parsed {
        Err(e) => r.len() == 1 && diagnostic_of(e, r[0]),
        Ok(ast) => exists|t: Result<Vec<TypeDefinition>, LumosError>|
            #[trigger] transform_answer(ast, t) && match t {
                Ok(_) => r.len() == 0,
                Err(e) => r.len() == 1 && diagnostic_of(e, r[0]),
            },
    }
}

/// The diagnostics of a document's text: it is parsed, then lowered.
pub fn analyze(text: &str) -> (r: Vec<SchemaDiagnostic>)
    ensures
        exists|p: Result<LumosFile, LumosError>| #[trigger] file_answer(text@, p) && diagnostics_of(p, r@),
{
    let parsed = parse_lumos_file(text);
    analyze_parsed(parsed)
}

/// The diagnostics of a document from how it parsed: its parse error, or
/// the error lowering it gives, or none.
pub fn analyze_parsed(parsed: Result<LumosFile, LumosError>) -> (r: Vec<SchemaDiagnostic>)
    ensures
        diagnostics_of(parsed, r@),
{
    let mut diagnostics: Vec<SchemaDiagnostic> = Vec::new();
    match parsed {
        Ok(ast) => {
            match transform_to_ir(ast) {
                Ok(_) => {},
                Err(e) => diagnostics.push(error_to_diagnostic(&e)),
            }
        },
        Err(e) => diagnostics.push(error_to_diagnostic(&e)),
    }
    diagnostics
}

} // verus!
