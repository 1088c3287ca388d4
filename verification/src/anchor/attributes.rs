//! Anchor account attributes: parsing `#[anchor(...)]` attribute text and
//! writing `#[derive(Accounts)]` instruction contexts.

use vstd::prelude::*;
use crate::ir::{StructDefinition, TypeInfo};
use crate::text::{
    is_ws, lemma_index_of_char, lemma_lead_run, lemma_lead_ws_char, lemma_trail_run,
    lemma_trail_ws_char, trim_end, trim_start, chars_ends, chars_is, chars_of, chars_starts, concat_map, contains, dec, find_exec, index_of,
    index_of_exec, join, join_strings, lemma_concat_map_step, occurs_at, slice_range, starts_with,
    ends_with, string_from_chars, to_string, trim, trim_char, trim_char_exec, trim_exec,
    usize_to_string, views,
};

verus! {

/// An Anchor account attribute.
#[derive(Debug, Clone, PartialEq)]
pub enum AnchorAccountAttr {
    /// `init`
    Init,
    /// `init_if_needed`
    InitIfNeeded,
    /// `mut`
    Mut,
    /// `signer`
    Signer,
    /// `close = target`
    Close(String),
    /// `constraint = "expression"`
    Constraint(String),
    /// `has_one = field`
    HasOne(String),
    /// `seeds = [...]`
    Seeds(Vec<SeedComponent>),
    /// `bump`
    Bump,
    /// `bump = expr`
    BumpExpr(String),
    /// `payer = account`
    Payer(String),
    /// `space = size`
    Space(String),
    /// `owner = program`
    Owner(String),
    /// `address = pubkey`
    Address(String),
    /// `zero`
    Zero,
    /// `rent_exempt = skip`
    RentExemptSkip,
    /// `realloc = size`
    Realloc(String),
    /// `realloc::payer = payer`
    ReallocPayer(String),
    /// `realloc::zero = bool`
    ReallocZero(bool),
}

/// A PDA seed component.
#[derive(Debug, Clone, PartialEq)]
pub enum SeedComponent {
    /// Literal bytes: `b"prefix"`.
    Literal(String),
    /// Account key: `authority.key()`.
    AccountKey(String),
    /// Instruction argument: `args.id`.
    Arg(String),
    /// Any other bytes expression.
    Bytes(String),
}

/// Parsed anchor field attributes.
#[derive(Debug, Clone, Default)]
pub struct AnchorFieldAttrs {
    /// Account attributes.
    pub attrs: Vec<AnchorAccountAttr>,
    /// Account type.
    pub account_type: Option<AnchorAccountType>,
}

/// Anchor account wrapper types.
#[derive(Debug, Clone, PartialEq)]
pub enum AnchorAccountType {
    /// `Account<'info, T>`
    Account(String),
    /// `Signer<'info>`
    Signer,
    /// `Program<'info, T>`
    Program(String),
    /// `SystemAccount<'info>`
    SystemAccount,
    /// `UncheckedAccount<'info>`
    UncheckedAccount,
    /// `AccountInfo<'info>`
    AccountInfo,
    /// `Box<Account<'info, T>>`
    BoxedAccount(String),
    /// `Sysvar<'info, T>`
    Sysvar(String),
}

/// An instruction context.
#[derive(Debug, Clone)]
pub struct InstructionContext {
    /// Instruction name.
    pub name: String,
    /// Account fields.
    pub accounts: Vec<InstructionAccount>,
    /// Instruction arguments.
    pub args: Vec<InstructionArg>,
}

/// An account of an instruction context.
#[derive(Debug, Clone)]
pub struct InstructionAccount {
    /// Account name.
    pub name: String,
    /// Account type.
    pub account_type: AnchorAccountType,
    /// Account attributes.
    pub attrs: Vec<AnchorAccountAttr>,
    /// Whether optional (wrapped in `Option`).
    pub optional: bool,
    /// Documentation lines.
    pub docs: Vec<String>,
}

/// An instruction argument.
#[derive(Debug, Clone)]
pub struct InstructionArg {
    /// Argument name.
    pub name: String,
    /// Argument type.
    pub ty: TypeInfo,
}

// ---------------------------------------------------------------------
// Views
// ---------------------------------------------------------------------

/// A seed component with its text as characters.
pub enum SeedView {
    Literal(Seq<char>),
    AccountKey(Seq<char>),
    Arg(Seq<char>),
    Bytes(Seq<char>),
}

/// An account attribute with its texts as characters.
pub enum AttrView {
    Init,
    InitIfNeeded,
    Mut,
    Signer,
    Close(Seq<char>),
    Constraint(Seq<char>),
    HasOne(Seq<char>),
    Seeds(Seq<SeedView>),
    Bump,
    BumpExpr(Seq<char>),
    Payer(Seq<char>),
    Space(Seq<char>),
    Owner(Seq<char>),
    Address(Seq<char>),
    Zero,
    RentExemptSkip,
    Realloc(Seq<char>),
    ReallocPayer(Seq<char>),
    ReallocZero(bool),
}

impl View for SeedComponent {
    type V = SeedView;

    open spec fn view(&self) -> SeedView {
        match self {
            SeedComponent::Literal(s) => SeedView::Literal(s@),
            SeedComponent::AccountKey(s) => SeedView::AccountKey(s@),
            SeedComponent::Arg(s) => SeedView::Arg(s@),
            SeedComponent::Bytes(s) => SeedView::Bytes(s@),
        }
    }
}

/// The views of seed components.
pub open spec fn seed_views(s: Seq<SeedComponent>) -> Seq<SeedView> {
    s.map_values(|c: SeedComponent| c@)
}

impl View for AnchorAccountAttr {
    type V = AttrView;

    open spec fn view(&self) -> AttrView {
        match self {
            AnchorAccountAttr::Init => AttrView::Init,
            AnchorAccountAttr::InitIfNeeded => AttrView::InitIfNeeded,
            AnchorAccountAttr::Mut => AttrView::Mut,
            AnchorAccountAttr::Signer => AttrView::Signer,
            AnchorAccountAttr::Close(s) => AttrView::Close(s@),
            AnchorAccountAttr::Constraint(s) => AttrView::Constraint(s@),
            AnchorAccountAttr::HasOne(s) => AttrView::HasOne(s@),
            AnchorAccountAttr::Seeds(v) => AttrView::Seeds(seed_views(v@)),
            AnchorAccountAttr::Bump => AttrView::Bump,
            AnchorAccountAttr::BumpExpr(s) => AttrView::BumpExpr(s@),
            AnchorAccountAttr::Payer(s) => AttrView::Payer(s@),
            AnchorAccountAttr::Space(s) => AttrView::Space(s@),
            AnchorAccountAttr::Owner(s) => AttrView::Owner(s@),
            AnchorAccountAttr::Address(s) => AttrView::Address(s@),
            AnchorAccountAttr::Zero => AttrView::Zero,
            AnchorAccountAttr::RentExemptSkip => AttrView::RentExemptSkip,
            AnchorAccountAttr::Realloc(s) => AttrView::Realloc(s@),
            AnchorAccountAttr::ReallocPayer(s) => AttrView::ReallocPayer(s@),
            AnchorAccountAttr::ReallocZero(b) => AttrView::ReallocZero(*b),
        }
    }
}

/// The views of attributes.
pub open spec fn attr_views(s: Seq<AnchorAccountAttr>) -> Seq<AttrView> {
    s.map_values(|a: AnchorAccountAttr| a@)
}

// ---------------------------------------------------------------------
// Splitting at top-level commas
// ---------------------------------------------------------------------

/// The state of the comma splitter.
pub struct SplitState {
    pub parts: Seq<Seq<char>>,
    pub cur: Seq<char>,
    pub depth: int,
    pub in_string: bool,
    pub escape: bool,
}

/// The splitter's state after one more character: a backslash escapes the
/// next character, double quotes open and close strings, brackets and
/// parentheses outside strings nest, and a comma at depth 0 outside a
/// string ends the current part (which is kept trimmed).
pub open spec fn split_step(st: SplitState, c: char) -> SplitState {
    if st.escape {
        SplitState {
            parts: st.parts,
            cur: st.cur.push(c),
            depth: st.depth,
            in_string: st.in_string,
            escape: false,
        }
    } else if c == '\\' {
        SplitState {
            parts: st.parts,
            cur: st.cur.push(c),
            depth: st.depth,
            in_string: st.in_string,
            escape: true,
        }
    } else if c == '"' {
        SplitState {
            parts: st.parts,
            cur: st.cur.push(c),
            depth: st.depth,
            in_string: !st.in_string,
            escape: false,
        }
    } else if (c == '[' || c == '(') && !st.in_string {
        SplitState {
            parts: st.parts,
            cur: st.cur.push(c),
            depth: st.depth + 1,
            in_string: st.in_string,
            escape: false,
        }
    } else if (c == ']' || c == ')') && !st.in_string {
        SplitState {
            parts: st.parts,
            cur: st.cur.push(c),
            depth: st.depth - 1,
            in_string: st.in_string,
            escape: false,
        }
    } else if c == ',' && st.depth == 0 && !st.in_string {
        SplitState {
            parts: st.parts.push(trim(st.cur)),
            cur: Seq::empty(),
            depth: st.depth,
            in_string: st.in_string,
            escape: false,
        }
    } else {
        SplitState {
            parts: st.parts,
            cur: st.cur.push(c),
            depth: st.depth,
            in_string: st.in_string,
            escape: false,
        }
    }
}

/// The splitter's state after the first `k` characters.
pub open spec fn split_run(s: Seq<char>, k: nat) -> SplitState
    decreases k,
{
    if k == 0 {
        SplitState {
            parts: Seq::empty(),
            cur: Seq::empty(),
            depth: 0,
            in_string: false,
            escape: false,
        }
    } else {
        split_step(split_run(s, (k - 1) as nat), s[k - 1])
    }
}

/// The parts of `s` between top-level commas, trimmed; a last part that
/// is only white space is dropped.
pub open spec fn split_attrs_spec(s: Seq<char>) -> Seq<Seq<char>> {
    let st = split_run(s, s.len());
    if trim(st.cur).len() > 0 {
        st.parts.push(trim(st.cur))
    } else {
        st.parts
    }
}

proof fn lemma_split_depth(s: Seq<char>, k: nat)
    requires
        k <= s.len(),
    ensures
        -(k as int) <= split_run(s, k).depth <= k,
    decreases k,
{
    if k > 0 {
        lemma_split_depth(s, (k - 1) as nat);
    }
}

/// The character views of a list of character vectors.
pub open spec fn char_views(v: Seq<Vec<char>>) -> Seq<Seq<char>> {
    v.map_values(|x: Vec<char>| x@)
}

/// Splits attribute text at top-level commas (see [`split_attrs_spec`]).
pub fn split_attrs(s: &[char]) -> (r: Vec<Vec<char>>)
    ensures
        char_views(r@) == split_attrs_spec(s@),
{
    let mut parts: Vec<Vec<char>> = Vec::new();
    let mut cur: Vec<char> = Vec::new();
    let mut depth: i128 = 0;
    let n = s.len();
    let mut in_string = false;
    let mut escape = false;
    let mut i: usize = 0;
    while i < s.len()
        invariant
            i <= s@.len(),
            n == s@.len(),
            char_views(parts@) == split_run(s@, i as nat).parts,
            cur@ == split_run(s@, i as nat).cur,
            depth == split_run(s@, i as nat).depth,
            in_string == split_run(s@, i as nat).in_string,
            escape == split_run(s@, i as nat).escape,
            -(i as int) <= depth <= i,
        decreases s@.len() - i,
    {
        proof {
            lemma_split_depth(s@, i as nat);
        }
        let c = s[i];
        if escape {
            cur.push(c);
            escape = false;
        } else if c == '\\' {
            cur.push(c);
            escape = true;
        } else if c == '"' {
            cur.push(c);
            in_string = !in_string;
        } else if (c == '[' || c == '(') && !in_string {
            cur.push(c);
            depth = depth + 1;
        } else if (c == ']' || c == ')') && !in_string {
            cur.push(c);
            depth = depth - 1;
        } else if c == ',' && depth == 0 && !in_string {
            let ghost before = parts@;
            let t = trim_exec(cur.as_slice());
            parts.push(t);
            assert(char_views(parts@) =~= char_views(before).push(trim(cur@)));
            cur = Vec::new();
        } else {
            cur.push(c);
        }
        i = i + 1;
    }
    let t = trim_exec(cur.as_slice());
    if t.len() > 0 {
        let ghost before = parts@;
        parts.push(t);
        assert(char_views(parts@) =~= char_views(before).push(trim(cur@)));
    }
    parts
}

// ---------------------------------------------------------------------
// Seeds
// ---------------------------------------------------------------------

/// The position of the first `.key()` in `p`, or -1.
pub open spec fn key_call_at(p: Seq<char>) -> int {
    if contains(p, ".key()"@) {
        choose|i: int| occurs_at(p, ".key()"@, i) && forall|j: int| 0 <= j < i ==> !occurs_at(p, ".key()"@, j)
    } else {
        -1
    }
}

/// The seed written as `p` (already trimmed): a byte-string literal, an
/// account key (`x.key()`, the text before the first `.key()`), an
/// instruction argument (`args.x` or `ctx.args.x`) or any other bytes.
pub open spec fn seed_of(p: Seq<char>) -> SeedView {
    if starts_with(p, "b\""@) || starts_with(p, "b'"@) {
        SeedView::Literal(p.subrange(2, p.len() - 1))
    } else if contains(p, ".key()"@) {
        SeedView::AccountKey(p.subrange(0, key_call_at(p)))
    } else if starts_with(p, "args."@) {
        SeedView::Arg(p.subrange(5, p.len() as int))
    } else if starts_with(p, "ctx.args."@) {
        SeedView::Arg(p.subrange(9, p.len() as int))
    } else {
        SeedView::Bytes(p)
    }
}

/// A seed part can be read without failing: a byte-string literal has at
/// least one character after `b"` and ends in an ASCII character.
pub open spec fn seed_part_ok(p: Seq<char>) -> bool {
    (starts_with(p, "b\""@) || starts_with(p, "b'"@)) ==> (p.len() >= 3 && (p.last() as u32)
        < 128)
}

/// The list inside `[` `]`, or the whole text when it is not bracketed.
pub open spec fn seeds_inner(s0: Seq<char>) -> Seq<char> {
    let s = trim(s0);
    if starts_with(s, "["@) && ends_with(s, "]"@) {
        s.subrange(1, s.len() - 1)
    } else {
        s
    }
}

/// The seeds of the first `k` parts.
pub open spec fn seeds_of_parts(parts: Seq<Seq<char>>, k: nat) -> Seq<SeedView>
    decreases k,
{
    if k == 0 {
        Seq::empty()
    } else {
        let rest = seeds_of_parts(parts, (k - 1) as nat);
        let p = trim(parts[k - 1]);
        if p.len() == 0 {
            rest
        } else {
            rest.push(seed_of(p))
        }
    }
}

/// The seeds written in `s` (`[seed, seed, ...]`).
pub open spec fn parse_seeds_spec(s: Seq<char>) -> Seq<SeedView> {
    let parts = split_attrs_spec(seeds_inner(s));
    seeds_of_parts(parts, parts.len())
}

/// Whether every seed in `s` can be read.
pub open spec fn seeds_ok(s: Seq<char>) -> bool {
    let parts = split_attrs_spec(seeds_inner(s));
    forall|i: int| 0 <= i < parts.len() ==> seed_part_ok(trim(#[trigger] parts[i]))
}

fn seed_of_exec(p: &[char]) -> (r: SeedComponent)
    requires
        p.len() > 0,
        seed_part_ok(p@),
    ensures
        r@ == seed_of(p@),
{
    if chars_starts(p, "b\"") || chars_starts(p, "b'") {
        let lit = slice_range(p, 2, p.len() - 1);
        return SeedComponent::Literal(string_from_chars(lit.as_slice()));
    }
    let key = chars_of(".key()");
    match find_exec(p, key.as_slice()) {
        Some(i) => {
            assert(contains(p@, ".key()"@));
            let ghost k = key_call_at(p@);
            proof {
                assert(occurs_at(p@, ".key()"@, k));
                if k < i {
                } else if k > i {
                }
            }
            let before = slice_range(p, 0, i);
            return SeedComponent::AccountKey(string_from_chars(before.as_slice()));
        },
        None => {},
    }
    proof {
        reveal_strlit("args.");
        reveal_strlit("ctx.args.");
    }
    if chars_starts(p, "args.") {
        let rest = slice_range(p, 5, p.len());
        return SeedComponent::Arg(string_from_chars(rest.as_slice()));
    }
    if chars_starts(p, "ctx.args.") {
        let rest = slice_range(p, 9, p.len());
        return SeedComponent::Arg(string_from_chars(rest.as_slice()));
    }
    SeedComponent::Bytes(string_from_chars(p))
}

fn parse_seeds(s: &[char]) -> (r: Vec<SeedComponent>)
    requires
        seeds_ok(s@),
    ensures
        seed_views(r@) == parse_seeds_spec(s@),
{
    let t = trim_exec(s);
    proof {
        reveal_strlit("[");
        reveal_strlit("]");
    }
    let inner = if chars_starts(t.as_slice(), "[") && chars_ends(t.as_slice(), "]") {
        assert(t@.len() >= 2) by {
            if t@.len() == 1 {
                assert(t@.subrange(0, 1)[0] == '[');
                assert(t@.subrange(0, 1)[0] == ']');
            }
        }
        slice_range(t.as_slice(), 1, t.len() - 1)
    } else {
        t
    };
    assert(inner@ == seeds_inner(s@));
    let parts = split_attrs(inner.as_slice());
    let ghost pv = char_views(parts@);
    let mut seeds: Vec<SeedComponent> = Vec::new();
    let mut i: usize = 0;
    while i < parts.len()
        invariant
            i <= parts@.len(),
            pv == char_views(parts@),
            pv == split_attrs_spec(seeds_inner(s@)),
            seeds_ok(s@),
            seed_views(seeds@) == seeds_of_parts(pv, i as nat),
        decreases parts@.len() - i,
    {
        let p = trim_exec(parts[i].as_slice());
        assert(pv[i as int] == parts@[i as int]@);
        if p.len() > 0 {
            assert(seed_part_ok(trim(pv[i as int])));
            let ghost before = seeds@;
            let c = seed_of_exec(p.as_slice());
            seeds.push(c);
            assert(seed_views(seeds@) =~= seed_views(before).push(seed_of(p@)));
        }
        i = i + 1;
    }
    seeds
}

// ---------------------------------------------------------------------
// One attribute
// ---------------------------------------------------------------------

/// A flag attribute written exactly as `s`.
pub open spec fn flag_attr(s: Seq<char>) -> Option<AttrView> {
    if s == "init"@ {
        Some(AttrView::Init)
    } else if s == "init_if_needed"@ {
        Some(AttrView::InitIfNeeded)
    } else if s == "mut"@ {
        Some(AttrView::Mut)
    } else if s == "signer"@ {
        Some(AttrView::Signer)
    } else if s == "bump"@ {
        Some(AttrView::Bump)
    } else if s == "zero"@ {
        Some(AttrView::Zero)
    } else if s == "rent_exempt = skip"@ {
        Some(AttrView::RentExemptSkip)
    } else {
        None
    }
}

/// A `key = value` attribute.
pub open spec fn keyed_attr(key: Seq<char>, value: Seq<char>) -> Option<AttrView> {
    if key == "constraint"@ {
        Some(AttrView::Constraint(value))
    } else if key == "has_one"@ {
        Some(AttrView::HasOne(value))
    } else if key == "close"@ {
        Some(AttrView::Close(value))
    } else if key == "payer"@ {
        Some(AttrView::Payer(value))
    } else if key == "space"@ {
        Some(AttrView::Space(value))
    } else if key == "owner"@ {
        Some(AttrView::Owner(value))
    } else if key == "address"@ {
        Some(AttrView::Address(value))
    } else if key == "bump"@ {
        Some(AttrView::BumpExpr(value))
    } else if key == "realloc"@ {
        Some(AttrView::Realloc(value))
    } else if key == "realloc::payer"@ {
        Some(AttrView::ReallocPayer(value))
    } else if key == "realloc::zero"@ {
        Some(AttrView::ReallocZero(value == "true"@))
    } else {
        None
    }
}

/// The attribute read from `key = value` text, when the key is known: the
/// key is the trimmed text before the first `=`, the value the trimmed
/// text after it without surrounding double quotes.
pub open spec fn keyed_of(s: Seq<char>) -> Option<AttrView> {
    let e = index_of(s, '=');
    if e >= 0 {
        keyed_attr(
            trim(s.subrange(0, e)),
            trim_char(trim(s.subrange(e + 1, s.len() as int)), '"'),
        )
    } else {
        None
    }
}

/// The text after `seeds` and `=`, when `s` is a seeds attribute.
pub open spec fn seeds_text(s: Seq<char>) -> Option<Seq<char>> {
    if starts_with(s, "seeds"@) {
        let t = trim(s.subrange(5, s.len() as int));
        if starts_with(t, "="@) {
            Some(trim(t.subrange(1, t.len() as int)))
        } else {
            None
        }
    } else {
        None
    }
}

/// The attribute written as `s0`: a flag, a known `key = value` pair or a
/// `seeds = [...]` list; `None` for anything else.
pub open spec fn parse_single_spec(s0: Seq<char>) -> Option<AttrView> {
    let s = trim(s0);
    match flag_attr(s) {
        Some(a) => Some(a),
        None => match keyed_of(s) {
            Some(a) => Some(a),
            None => match seeds_text(s) {
                Some(t) => Some(AttrView::Seeds(parse_seeds_spec(t))),
                None => None,
            },
        },
    }
}

/// Whether `s0` can be read without failing.
pub open spec fn single_ok(s0: Seq<char>) -> bool {
    let s = trim(s0);
    flag_attr(s) is None && keyed_of(s) is None ==> match seeds_text(s) {
        Some(t) => seeds_ok(t),
        None => true,
    }
}

fn flag_attr_exec(s: &[char]) -> (r: Option<AnchorAccountAttr>)
    ensures
        match r {
            Some(a) => flag_attr(s@) == Some(a@),
            None => flag_attr(s@) is None,
        },
{
    if chars_is(s, "init") {
        Some(AnchorAccountAttr::Init)
    } else if chars_is(s, "init_if_needed") {
        Some(AnchorAccountAttr::InitIfNeeded)
    } else if chars_is(s, "mut") {
        Some(AnchorAccountAttr::Mut)
    } else if chars_is(s, "signer") {
        Some(AnchorAccountAttr::Signer)
    } else if chars_is(s, "bump") {
        Some(AnchorAccountAttr::Bump)
    } else if chars_is(s, "zero") {
        Some(AnchorAccountAttr::Zero)
    } else if chars_is(s, "rent_exempt = skip") {
        Some(AnchorAccountAttr::RentExemptSkip)
    } else {
        None
    }
}

fn keyed_attr_exec(key: &[char], value: &[char]) -> (r: Option<AnchorAccountAttr>)
    ensures
        match r {
            Some(a) => keyed_attr(key@, value@) == Some(a@),
            None => keyed_attr(key@, value@) is None,
        },
{
    let v = string_from_chars(value);
    if chars_is(key, "constraint") {
        Some(AnchorAccountAttr::Constraint(v))
    } else if chars_is(key, "has_one") {
        Some(AnchorAccountAttr::HasOne(v))
    } else if chars_is(key, "close") {
        Some(AnchorAccountAttr::Close(v))
    } else if chars_is(key, "payer") {
        Some(AnchorAccountAttr::Payer(v))
    } else if chars_is(key, "space") {
        Some(AnchorAccountAttr::Space(v))
    } else if chars_is(key, "owner") {
        Some(AnchorAccountAttr::Owner(v))
    } else if chars_is(key, "address") {
        Some(AnchorAccountAttr::Address(v))
    } else if chars_is(key, "bump") {
        Some(AnchorAccountAttr::BumpExpr(v))
    } else if chars_is(key, "realloc") {
        Some(AnchorAccountAttr::Realloc(v))
    } else if chars_is(key, "realloc::payer") {
        Some(AnchorAccountAttr::ReallocPayer(v))
    } else if chars_is(key, "realloc::zero") {
        Some(AnchorAccountAttr::ReallocZero(chars_is(value, "true")))
    } else {
        None
    }
}

fn parse_single_attr(s0: &[char]) -> (r: Option<AnchorAccountAttr>)
    requires
        single_ok(s0@),
    ensures
        match r {
            Some(a) => parse_single_spec(s0@) == Some(a@),
            None => parse_single_spec(s0@) is None,
        },
{
    let s = trim_exec(s0);
    match flag_attr_exec(s.as_slice()) {
        Some(a) => {
            return Some(a);
        },
        None => {},
    }
    match index_of_exec(s.as_slice(), '=') {
        Some(e) => {
            assert(e < s@.len());
            assert(e + 1 <= s.len());
            let k0 = slice_range(s.as_slice(), 0, e);
            let key = trim_exec(k0.as_slice());
            let v0 = slice_range(s.as_slice(), e + 1, s.len());
            let v1 = trim_exec(v0.as_slice());
            let value = trim_char_exec(v1.as_slice(), '"');
            match keyed_attr_exec(key.as_slice(), value.as_slice()) {
                Some(a) => {
                    return Some(a);
                },
                None => {},
            }
        },
        None => {},
    }
    proof {
        reveal_strlit("seeds");
        reveal_strlit("=");
    }
    if chars_starts(s.as_slice(), "seeds") {
        let r0 = slice_range(s.as_slice(), 5, s.len());
        let t = trim_exec(r0.as_slice());
        if chars_starts(t.as_slice(), "=") {
            let r1 = slice_range(t.as_slice(), 1, t.len());
            let st = trim_exec(r1.as_slice());
            let seeds = parse_seeds(st.as_slice());
            return Some(AnchorAccountAttr::Seeds(seeds));
        }
    }
    None
}

// ---------------------------------------------------------------------
// A whole attribute list
// ---------------------------------------------------------------------

/// The attribute list inside `#[anchor(...)]` or `anchor(...)`, or the
/// whole text.
pub open spec fn anchor_content(s: Seq<char>) -> Seq<char> {
    if starts_with(s, "#[anchor("@) && ends_with(s, ")]"@) {
        s.subrange(9, s.len() - 2)
    } else if starts_with(s, "anchor("@) && ends_with(s, ")"@) {
        s.subrange(7, s.len() - 1)
    } else {
        s
    }
}

/// The attributes read from the first `k` parts.
pub open spec fn attrs_of_parts(parts: Seq<Seq<char>>, k: nat) -> Seq<AttrView>
    decreases k,
{
    if k == 0 {
        Seq::empty()
    } else {
        let rest = attrs_of_parts(parts, (k - 1) as nat);
        let p = trim(parts[k - 1]);
        if p.len() == 0 {
            rest
        } else {
            match parse_single_spec(p) {
                Some(a) => rest.push(a),
                None => rest,
            }
        }
    }
}

/// The attributes written in `s`, in order; unknown entries are skipped.
pub open spec fn anchor_attrs_spec(s: Seq<char>) -> Seq<AttrView> {
    let parts = split_attrs_spec(anchor_content(s));
    attrs_of_parts(parts, parts.len())
}

/// Whether `s` can be read without failing: every byte-string seed has a
/// body and ends in an ASCII character.
pub open spec fn anchor_attrs_ok(s: Seq<char>) -> bool {
    let parts = split_attrs_spec(anchor_content(s));
    forall|i: int| 0 <= i < parts.len() ==> single_ok(trim(#[trigger] parts[i]))
}

proof fn lemma_anchor_content_bounds(s: Seq<char>)
    ensures
        starts_with(s, "#[anchor("@) && ends_with(s, ")]"@) ==> s.len() >= 11,
        starts_with(s, "anchor("@) && ends_with(s, ")"@) ==> s.len() >= 8,
{
    reveal_strlit("#[anchor(");
    reveal_strlit(")]");
    reveal_strlit("anchor(");
    reveal_strlit(")");
    if starts_with(s, "#[anchor("@) && ends_with(s, ")]"@) {
        if s.len() == 9 {
            assert(s.subrange(0, 9)[7] == 'r');
            assert(s.subrange(7, 9)[0] == ')');
        }
        if s.len() == 10 {
            assert(s.subrange(0, 9)[8] == '(');
            assert(s.subrange(8, 10)[0] == ')');
        }
    }
    if starts_with(s, "anchor("@) && ends_with(s, ")"@) {
        if s.len() == 7 {
            assert(s.subrange(0, 7)[6] == '(');
            assert(s.subrange(6, 7)[0] == ')');
        }
    }
}

/// Parses an anchor attribute list such as
/// `#[anchor(init, payer = authority, space = 8 + 32)]`,
/// `mut, has_one = owner, constraint = "amount > 0"` or
/// `seeds = [b"vault", authority.key().as_ref()], bump`.
pub fn parse_anchor_attrs(attr_str: &str) -> (r: Vec<AnchorAccountAttr>)
    requires
        anchor_attrs_ok(attr_str@),
    ensures
        attr_views(r@) == anchor_attrs_spec(attr_str@),
{
    let s = chars_of(attr_str);
    proof {
        lemma_anchor_content_bounds(s@);
        reveal_strlit("#[anchor(");
        reveal_strlit(")]");
        reveal_strlit("anchor(");
        reveal_strlit(")");
    }
    let content = if chars_starts(s.as_slice(), "#[anchor(") && chars_ends(s.as_slice(), ")]") {
        slice_range(s.as_slice(), 9, s.len() - 2)
    } else if chars_starts(s.as_slice(), "anchor(") && chars_ends(s.as_slice(), ")") {
        slice_range(s.as_slice(), 7, s.len() - 1)
    } else {
        slice_range(s.as_slice(), 0, s.len())
    };
    assert(s@.subrange(0, s@.len() as int) =~= s@);
    assert(content@ == anchor_content(attr_str@));
    let parts = split_attrs(content.as_slice());
    let ghost pv = char_views(parts@);
    let mut attrs: Vec<AnchorAccountAttr> = Vec::new();
    let mut i: usize = 0;
    while i < parts.len()
        invariant
            i <= parts@.len(),
            pv == char_views(parts@),
            pv == split_attrs_spec(anchor_content(attr_str@)),
            anchor_attrs_ok(attr_str@),
            attr_views(attrs@) == attrs_of_parts(pv, i as nat),
        decreases parts@.len() - i,
    {
        let p = trim_exec(parts[i].as_slice());
        assert(pv[i as int] == parts@[i as int]@);
        if p.len() > 0 {
            assert(single_ok(trim(pv[i as int])));
            match parse_single_attr(p.as_slice()) {
                Some(a) => {
                    let ghost before = attrs@;
                    let ghost av = a@;
                    attrs.push(a);
                    assert(attr_views(attrs@) =~= attr_views(before).push(av));
                },
                None => {},
            }
        }
        i = i + 1;
    }
    attrs
}

// ---------------------------------------------------------------------
// Writing attributes and contexts
// ---------------------------------------------------------------------

/// How a seed is written in an account attribute.
pub open spec fn seed_text(s: SeedView) -> Seq<char> {
    match s {
        SeedView::Literal(l) => "b\""@ + l + "\""@,
        SeedView::AccountKey(a) => a + ".key().as_ref()"@,
        SeedView::Arg(a) => a + ".as_ref()"@,
        SeedView::Bytes(e) => e,
    }
}

/// The texts of seeds.
pub open spec fn seed_texts(s: Seq<SeedView>) -> Seq<Seq<char>> {
    s.map_values(|x: SeedView| seed_text(x))
}

/// How an attribute is written inside `#[account(...)]`.
pub open spec fn attr_text(a: AttrView) -> Seq<char> {
    match a {
        AttrView::Init => "init"@,
        AttrView::InitIfNeeded => "init_if_needed"@,
        AttrView::Mut => "mut"@,
        AttrView::Signer => "signer"@,
        AttrView::Close(t) => "close = "@ + t,
        AttrView::Constraint(e) => "constraint = \""@ + e + "\""@,
        AttrView::HasOne(f) => "has_one = "@ + f,
        AttrView::Seeds(ss) => "seeds = ["@ + join(seed_texts(ss), ", "@) + "]"@,
        AttrView::Bump => "bump"@,
        AttrView::BumpExpr(e) => "bump = "@ + e,
        AttrView::Payer(p) => "payer = "@ + p,
        AttrView::Space(p) => "space = "@ + p,
        AttrView::Owner(p) => "owner = "@ + p,
        AttrView::Address(p) => "address = "@ + p,
        AttrView::Zero => "zero"@,
        AttrView::RentExemptSkip => "rent_exempt = skip"@,
        AttrView::Realloc(p) => "realloc = "@ + p,
        AttrView::ReallocPayer(p) => "realloc::payer = "@ + p,
        AttrView::ReallocZero(z) => "realloc::zero = "@ + if z {
            "true"@
        } else {
            "false"@
        },
    }
}

/// The texts of attributes.
pub open spec fn attr_texts(s: Seq<AttrView>) -> Seq<Seq<char>> {
    s.map_values(|a: AttrView| attr_text(a))
}

fn seed_text_exec(s: &SeedComponent) -> (r: String)
    ensures
        r@ == seed_text(s@),
{
    match s {
        SeedComponent::Literal(l) => {
            let mut r = to_string("b\"");
            r.append(l.as_str());
            r.append("\"");
            r
        },
        SeedComponent::AccountKey(a) => {
            let mut r = a.clone();
            r.append(".key().as_ref()");
            r
        },
        SeedComponent::Arg(a) => {
            let mut r = a.clone();
            r.append(".as_ref()");
            r
        },
        SeedComponent::Bytes(e) => e.clone(),
    }
}

fn prefixed(p: &str, s: &String) -> (r: String)
    ensures
        r@ == p@ + s@,
{
    let mut r = to_string(p);
    r.append(s.as_str());
    r
}

fn attr_text_exec(a: &AnchorAccountAttr) -> (r: String)
    ensures
        r@ == attr_text(a@),
{
    match a {
        AnchorAccountAttr::Init => to_string("init"),
        AnchorAccountAttr::InitIfNeeded => to_string("init_if_needed"),
        AnchorAccountAttr::Mut => to_string("mut"),
        AnchorAccountAttr::Signer => to_string("signer"),
        AnchorAccountAttr::Close(t) => prefixed("close = ", t),
        AnchorAccountAttr::Constraint(e) => {
            let mut r = prefixed("constraint = \"", e);
            r.append("\"");
            r
        },
        AnchorAccountAttr::HasOne(f) => prefixed("has_one = ", f),
        AnchorAccountAttr::Seeds(ss) => {
            let mut v: Vec<String> = Vec::new();
            let mut i: usize = 0;
            while i < ss.len()
                invariant
                    i <= ss@.len(),
                    views(v@) =~= seed_texts(seed_views(ss@.subrange(0, i as int))),
                decreases ss@.len() - i,
            {
                let ghost before = views(v@);
                v.push(seed_text_exec(&ss[i]));
                proof {
                    let t = seed_text(ss@[i as int]@);
                    assert(views(v@) =~= before.push(t));
                    assert(seed_texts(seed_views(ss@.subrange(0, i + 1))) =~= seed_texts(
                        seed_views(ss@.subrange(0, i as int)),
                    ).push(t));
                }
                i = i + 1;
            }
            assert(ss@.subrange(0, ss@.len() as int) =~= ss@);
            let l = join_strings(&v, ", ");
            let mut r = prefixed("seeds = [", &l);
            r.append("]");
            r
        },
        AnchorAccountAttr::Bump => to_string("bump"),
        AnchorAccountAttr::BumpExpr(e) => prefixed("bump = ", e),
        AnchorAccountAttr::Payer(p) => prefixed("payer = ", p),
        AnchorAccountAttr::Space(p) => prefixed("space = ", p),
        AnchorAccountAttr::Owner(p) => prefixed("owner = ", p),
        AnchorAccountAttr::Address(p) => prefixed("address = ", p),
        AnchorAccountAttr::Zero => to_string("zero"),
        AnchorAccountAttr::RentExemptSkip => to_string("rent_exempt = skip"),
        AnchorAccountAttr::Realloc(p) => prefixed("realloc = ", p),
        AnchorAccountAttr::ReallocPayer(p) => prefixed("realloc::payer = ", p),
        AnchorAccountAttr::ReallocZero(z) => {
            let mut r = to_string("realloc::zero = ");
            if *z {
                r.append("true");
            } else {
                r.append("false");
            }
            r
        },
    }
}

/// Writes the inside of an `#[account(...)]` attribute: the attributes
/// joined with `, `.
pub fn generate_account_attr(attrs: &Vec<AnchorAccountAttr>) -> (r: String)
    ensures
        r@ == join(attr_texts(attr_views(attrs@)), ", "@),
{
    let mut v: Vec<String> = Vec::new();
    let mut i: usize = 0;
    while i < attrs.len()
        invariant
            i <= attrs@.len(),
            views(v@) =~= attr_texts(attr_views(attrs@.subrange(0, i as int))),
        decreases attrs@.len() - i,
    {
        let ghost before = views(v@);
        v.push(attr_text_exec(&attrs[i]));
        proof {
            let t = attr_text(attrs@[i as int]@);
            assert(views(v@) =~= before.push(t));
            assert(attr_texts(attr_views(attrs@.subrange(0, i + 1))) =~= attr_texts(
                attr_views(attrs@.subrange(0, i as int)),
            ).push(t));
        }
        i = i + 1;
    }
    assert(attrs@.subrange(0, attrs@.len() as int) =~= attrs@);
    join_strings(&v, ", ")
}

/// How an account type is written.
pub open spec fn account_type_text(t: AnchorAccountType) -> Seq<char> {
    match t {
        AnchorAccountType::Account(i) => "Account<'info, "@ + i@ + ">"@,
        AnchorAccountType::Signer => "Signer<'info>"@,
        AnchorAccountType::Program(p) => "Program<'info, "@ + p@ + ">"@,
        AnchorAccountType::SystemAccount => "SystemAccount<'info>"@,
        AnchorAccountType::UncheckedAccount => "UncheckedAccount<'info>"@,
        AnchorAccountType::AccountInfo => "AccountInfo<'info>"@,
        AnchorAccountType::BoxedAccount(i) => "Box<Account<'info, "@ + i@ + ">>"@,
        AnchorAccountType::Sysvar(i) => "Sysvar<'info, "@ + i@ + ">"@,
    }
}

/// Writes an account type.
pub fn generate_account_type(t: &AnchorAccountType) -> (r: String)
    ensures
        r@ == account_type_text(*t),
{
    match t {
        AnchorAccountType::Account(i) => {
            let mut r = prefixed("Account<'info, ", i);
            r.append(">");
            r
        },
        AnchorAccountType::Signer => to_string("Signer<'info>"),
        AnchorAccountType::Program(p) => {
            let mut r = prefixed("Program<'info, ", p);
            r.append(">");
            r
        },
        AnchorAccountType::SystemAccount => to_string("SystemAccount<'info>"),
        AnchorAccountType::UncheckedAccount => to_string("UncheckedAccount<'info>"),
        AnchorAccountType::AccountInfo => to_string("AccountInfo<'info>"),
        AnchorAccountType::BoxedAccount(i) => {
            let mut r = prefixed("Box<Account<'info, ", i);
            r.append(">>");
            r
        },
        AnchorAccountType::Sysvar(i) => {
            let mut r = prefixed("Sysvar<'info, ", i);
            r.append(">");
            r
        },
    }
}

/// A type written in Rust for an instruction argument.
pub open spec fn arg_type_text(t: TypeInfo) -> Seq<char>
    decreases t,
{
    match t {
        TypeInfo::Primitive(n) => if n@ == "PublicKey"@ || n@ == "Pubkey"@ {
            "Pubkey"@
        } else {
            n@
        },
        TypeInfo::Generic(n) => n@,
        TypeInfo::UserDefined(n) => n@,
        TypeInfo::Array(inner) => "Vec<"@ + arg_type_text(*inner) + ">"@,
        TypeInfo::FixedArray { element, size } => "["@ + arg_type_text(*element) + "; "@ + dec(
            size as nat,
        ) + "]"@,
        TypeInfo::Option(inner) => "Option<"@ + arg_type_text(*inner) + ">"@,
    }
}

/// Writes a type in Rust (see [`arg_type_text`]).
pub fn type_info_to_rust(t: &TypeInfo) -> (r: String)
    ensures
        r@ == arg_type_text(*t),
    decreases t,
{
    match t {
        TypeInfo::Primitive(n) => {
            if crate::text::str_eq(n.as_str(), "PublicKey") || crate::text::str_eq(
                n.as_str(),
                "Pubkey",
            ) {
                to_string("Pubkey")
            } else {
                n.clone()
            }
        },
        TypeInfo::Generic(n) => n.clone(),
        TypeInfo::UserDefined(n) => n.clone(),
        TypeInfo::Array(inner) => {
            let mut r = to_string("Vec<");
            let s = type_info_to_rust(inner);
            r.append(s.as_str());
            r.append(">");
            r
        },
        TypeInfo::FixedArray { element, size } => {
            let mut r = to_string("[");
            let s = type_info_to_rust(element);
            r.append(s.as_str());
            r.append("; ");
            let n = usize_to_string(*size);
            r.append(n.as_str());
            r.append("]");
            r
        },
        TypeInfo::Option(inner) => {
            let mut r = to_string("Option<");
            let s = type_info_to_rust(inner);
            r.append(s.as_str());
            r.append(">");
            r
        },
    }
}

/// Whether an attribute is a seeds list with an instruction argument.
pub open spec fn has_arg_seed(a: AnchorAccountAttr) -> bool {
    match a {
        AnchorAccountAttr::Seeds(ss) => exists|k: int|
            0 <= k < ss@.len() && #[trigger] ss@[k] is Arg,
        _ => false,
    }
}

/// Whether some account has a seed taken from an instruction argument.
pub open spec fn uses_arg_seeds(ctx: InstructionContext) -> bool {
    exists|i: int, j: int|
        0 <= i < ctx.accounts@.len() && 0 <= j < ctx.accounts@[i].attrs@.len() && has_arg_seed(
            #[trigger] ctx.accounts@[i].attrs@[j],
        )
}

/// An instruction argument as `name: Type`.
pub open spec fn arg_texts(args: Seq<InstructionArg>) -> Seq<Seq<char>> {
    args.map_values(|a: InstructionArg| a.name@ + ": "@ + arg_type_text(a.ty))
}

/// A documentation line of an account.
pub open spec fn doc_line() -> spec_fn(String) -> Seq<char> {
    |d: String| "    /// "@ + d@ + "\n"@
}

/// The declaration of one account of a context.
pub open spec fn account_decl() -> spec_fn(InstructionAccount) -> Seq<char> {
    |a: InstructionAccount|
        {
            let attrs = join(attr_texts(attr_views(a.attrs@)), ", "@);
            let ty = account_type_text(a.account_type);
            concat_map(a.docs@, doc_line()) + (if attrs.len() > 0 {
                "    #[account("@ + attrs + ")]\n"@
            } else {
                Seq::empty()
            }) + if a.optional {
                "    pub "@ + a.name@ + ": Option<"@ + ty + ">,\n"@
            } else {
                "    pub "@ + a.name@ + ": "@ + ty + ",\n"@
            }
        }
}

/// The `#[derive(Accounts)]` struct for an instruction context.
pub open spec fn accounts_context_text(ctx: InstructionContext) -> Seq<char> {
    "#[derive(Accounts)]\n"@ + (if uses_arg_seeds(ctx) || ctx.args@.len() > 0 {
        "#[instruction("@ + join(arg_texts(ctx.args@), ", "@) + ")]\n"@
    } else {
        Seq::empty()
    }) + "pub struct "@ + ctx.name@ + "<'info> {\n"@ + concat_map(ctx.accounts@, account_decl())
        + "}\n"@
}

fn attr_has_arg_seed(a: &AnchorAccountAttr) -> (r: bool)
    ensures
        r == has_arg_seed(*a),
{
    match a {
        AnchorAccountAttr::Seeds(ss) => {
            let mut k: usize = 0;
            while k < ss.len()
                invariant
                    *a == AnchorAccountAttr::Seeds(*ss),
                    k <= ss@.len(),
                    forall|m: int| 0 <= m < k ==> !(#[trigger] ss@[m] is Arg),
                decreases ss@.len() - k,
            {
                match &ss[k] {
                    SeedComponent::Arg(_) => {
                        assert(ss@[k as int] is Arg);
                        return true;
                    },
                    _ => {},
                }
                k = k + 1;
            }
            false
        },
        _ => false,
    }
}

fn context_uses_arg_seeds(ctx: &InstructionContext) -> (r: bool)
    ensures
        r == uses_arg_seeds(*ctx),
{
    let mut i: usize = 0;
    while i < ctx.accounts.len()
        invariant
            i <= ctx.accounts@.len(),
            forall|a: int, b: int|
                0 <= a < i && 0 <= b < ctx.accounts@[a].attrs@.len() ==> !has_arg_seed(
                    #[trigger] ctx.accounts@[a].attrs@[b],
                ),
        decreases ctx.accounts@.len() - i,
    {
        let acc = &ctx.accounts[i];
        let mut j: usize = 0;
        while j < acc.attrs.len()
            invariant
                i < ctx.accounts@.len(),
                *acc == ctx.accounts@[i as int],
                j <= acc.attrs@.len(),
                forall|b: int| 0 <= b < j ==> !has_arg_seed(#[trigger] acc.attrs@[b]),
            decreases acc.attrs@.len() - j,
        {
            if attr_has_arg_seed(&acc.attrs[j]) {
                assert(has_arg_seed(ctx.accounts@[i as int].attrs@[j as int]));
                return true;
            }
            j = j + 1;
        }
        i = i + 1;
    }
    false
}

fn account_decl_exec(a: &InstructionAccount) -> (r: String)
    ensures
        r@ == (account_decl())(*a),
{
    let mut r = String::new();
    let mut i: usize = 0;
    while i < a.docs.len()
        invariant
            i <= a.docs@.len(),
            r@ == concat_map(a.docs@.subrange(0, i as int), doc_line()),
        decreases a.docs@.len() - i,
    {
        r.append("    /// ");
        r.append(a.docs[i].as_str());
        r.append("\n");
        proof {
            lemma_concat_map_step(a.docs@, i as int, doc_line());
        }
        i = i + 1;
    }
    assert(a.docs@.subrange(0, a.docs@.len() as int) =~= a.docs@);
    let attrs = generate_account_attr(&a.attrs);
    if attrs.as_str().unicode_len() > 0 {
        r.append("    #[account(");
        r.append(attrs.as_str());
        r.append(")]\n");
    }
    let ty = generate_account_type(&a.account_type);
    r.append("    pub ");
    r.append(a.name.as_str());
    if a.optional {
        r.append(": Option<");
        r.append(ty.as_str());
        r.append(">,\n");
    } else {
        r.append(": ");
        r.append(ty.as_str());
        r.append(",\n");
    }
    r
}

/// Writes the `#[derive(Accounts)]` struct for an instruction context.
pub fn generate_accounts_context(ctx: &InstructionContext) -> (r: String)
    ensures
        r@ == accounts_context_text(*ctx),
{
    let mut out = to_string("#[derive(Accounts)]\n");
    if context_uses_arg_seeds(ctx) || ctx.args.len() > 0 {
        out.append("#[instruction(");
        let mut v: Vec<String> = Vec::new();
        let mut i: usize = 0;
        while i < ctx.args.len()
            invariant
                i <= ctx.args@.len(),
                views(v@) =~= arg_texts(ctx.args@.subrange(0, i as int)),
            decreases ctx.args@.len() - i,
        {
            let ghost before = views(v@);
            let mut e = ctx.args[i].name.clone();
            e.append(": ");
            let t = type_info_to_rust(&ctx.args[i].ty);
            e.append(t.as_str());
            v.push(e);
            proof {
                let a = ctx.args@[i as int];
                let x = a.name@ + ": "@ + arg_type_text(a.ty);
                assert(views(v@) =~= before.push(x));
                assert(arg_texts(ctx.args@.subrange(0, i + 1)) =~= arg_texts(
                    ctx.args@.subrange(0, i as int),
                ).push(x));
            }
            i = i + 1;
        }
        assert(ctx.args@.subrange(0, ctx.args@.len() as int) =~= ctx.args@);
        let l = join_strings(&v, ", ");
        out.append(l.as_str());
        out.append(")]\n");
    }
    out.append("pub struct ");
    out.append(ctx.name.as_str());
    out.append("<'info> {\n");
    let ghost b = out@;
    let mut k: usize = 0;
    while k < ctx.accounts.len()
        invariant
            k <= ctx.accounts@.len(),
            out@ == b + concat_map(ctx.accounts@.subrange(0, k as int), account_decl()),
        decreases ctx.accounts@.len() - k,
    {
        let d = account_decl_exec(&ctx.accounts[k]);
        out.append(d.as_str());
        proof {
            lemma_concat_map_step(ctx.accounts@, k as int, account_decl());
        }
        k = k + 1;
    }
    assert(ctx.accounts@.subrange(0, ctx.accounts@.len() as int) =~= ctx.accounts@);
    out.append("}\n");
    out
}


// ---------------------------------------------------------------------
// Instruction contexts from struct definitions
// ---------------------------------------------------------------------

/// An account type with its names as characters.
pub enum AccountTypeView {
    Account(Seq<char>),
    Signer,
    Program(Seq<char>),
    SystemAccount,
    UncheckedAccount,
    AccountInfo,
    BoxedAccount(Seq<char>),
    Sysvar(Seq<char>),
}

impl View for AnchorAccountType {
    type V = AccountTypeView;

    open spec fn view(&self) -> AccountTypeView {
        match self {
            AnchorAccountType::Account(s) => AccountTypeView::Account(s@),
            AnchorAccountType::Signer => AccountTypeView::Signer,
            AnchorAccountType::Program(s) => AccountTypeView::Program(s@),
            AnchorAccountType::SystemAccount => AccountTypeView::SystemAccount,
            AnchorAccountType::UncheckedAccount => AccountTypeView::UncheckedAccount,
            AnchorAccountType::AccountInfo => AccountTypeView::AccountInfo,
            AnchorAccountType::BoxedAccount(s) => AccountTypeView::BoxedAccount(s@),
            AnchorAccountType::Sysvar(s) => AccountTypeView::Sysvar(s@),
        }
    }
}

/// The text between `Wrapper<` and a closing `>`, or `default` when the
/// name does not end in `>`.
pub open spec fn wrapper_inner(name: Seq<char>, prefix_len: int, default: Seq<char>) -> Seq<char> {
    let rest = name.subrange(prefix_len, name.len() as int);
    if ends_with(rest, ">"@) {
        rest.subrange(0, rest.len() - 1)
    } else {
        default
    }
}

/// The Anchor account type that a field type stands for.
pub open spec fn inferred_account_type(t: TypeInfo) -> AccountTypeView {
    match t {
        TypeInfo::Primitive(n) => if n@ == "Signer"@ {
            AccountTypeView::Signer
        } else {
            AccountTypeView::AccountInfo
        },
        TypeInfo::UserDefined(n) => if n@ == "Signer"@ {
            AccountTypeView::Signer
        } else if n@ == "SystemAccount"@ {
            AccountTypeView::SystemAccount
        } else if n@ == "UncheckedAccount"@ {
            AccountTypeView::UncheckedAccount
        } else if n@ == "AccountInfo"@ {
            AccountTypeView::AccountInfo
        } else if starts_with(n@, "Program<"@) {
            AccountTypeView::Program(wrapper_inner(n@, 8, "System"@))
        } else if starts_with(n@, "Sysvar<"@) {
            AccountTypeView::Sysvar(wrapper_inner(n@, 7, "Rent"@))
        } else {
            AccountTypeView::Account(n@)
        },
        _ => AccountTypeView::AccountInfo,
    }
}

pub(crate) fn wrapper_inner_exec(name: &[char], prefix_len: usize, default: &str) -> (r: String)
    requires
        prefix_len <= name@.len(),
    ensures
        r@ == wrapper_inner(name@, prefix_len as int, default@),
{
    let rest = slice_range(name, prefix_len, name.len());
    proof {
        reveal_strlit(">");
    }
    if chars_ends(rest.as_slice(), ">") {
        let inner = slice_range(rest.as_slice(), 0, rest.len() - 1);
        string_from_chars(inner.as_slice())
    } else {
        to_string(default)
    }
}

/// Infers the Anchor account type of a field from its type.
pub fn infer_account_type(t: &TypeInfo) -> (r: AnchorAccountType)
    ensures
        r@ == inferred_account_type(*t),
{
    match t {
        TypeInfo::Primitive(n) => {
            if crate::text::str_eq(n.as_str(), "Signer") {
                AnchorAccountType::Signer
            } else {
                AnchorAccountType::AccountInfo
            }
        },
        TypeInfo::UserDefined(n) => {
            let c = chars_of(n.as_str());
            proof {
                reveal_strlit("Program<");
                reveal_strlit("Sysvar<");
            }
            if chars_is(c.as_slice(), "Signer") {
                AnchorAccountType::Signer
            } else if chars_is(c.as_slice(), "SystemAccount") {
                AnchorAccountType::SystemAccount
            } else if chars_is(c.as_slice(), "UncheckedAccount") {
                AnchorAccountType::UncheckedAccount
            } else if chars_is(c.as_slice(), "AccountInfo") {
                AnchorAccountType::AccountInfo
            } else if chars_starts(c.as_slice(), "Program<") {
                AnchorAccountType::Program(wrapper_inner_exec(c.as_slice(), 8, "System"))
            } else if chars_starts(c.as_slice(), "Sysvar<") {
                AnchorAccountType::Sysvar(wrapper_inner_exec(c.as_slice(), 7, "Rent"))
            } else {
                AnchorAccountType::Account(crate::text::copy_string(n))
            }
        },
        _ => AnchorAccountType::AccountInfo,
    }
}

/// The attribute strings given for field `name`: those of the first entry
/// from position `k` on whose key is `name`, or none.
pub open spec fn attrs_lookup(pairs: Seq<(String, Vec<String>)>, name: Seq<char>, k: int) -> Seq<
    String,
>
    decreases pairs.len() - k,
{
    if k < 0 || k >= pairs.len() {
        Seq::empty()
    } else if pairs[k].0@ == name {
        pairs[k].1@
    } else {
        attrs_lookup(pairs, name, k + 1)
    }
}

/// The attributes read from a list of attribute strings, in order.
pub open spec fn attrs_of_strings(ss: Seq<String>) -> Seq<AttrView>
    decreases ss.len(),
{
    if ss.len() == 0 {
        Seq::empty()
    } else {
        attrs_of_strings(ss.drop_last()) + anchor_attrs_spec(ss.last()@)
    }
}

/// Whether a struct carries the `instruction` attribute.
pub open spec fn is_instruction_struct(sd: StructDefinition) -> bool {
    exists|k: int|
        0 <= k < sd.metadata.attributes@.len() && #[trigger] sd.metadata.attributes@[k]@
            == "instruction"@
}

/// Whether each field name is given at most once, as in a map from names
/// to attribute strings.
pub open spec fn names_distinct(pairs: Seq<(String, Vec<String>)>) -> bool {
    forall|i: int, j: int| 0 <= i < j < pairs.len() ==> (#[trigger] pairs[i]).0@ != (#[trigger] pairs[j]).0@
}

/// Whether every attribute string given for a field of `sd` can be read.
pub open spec fn context_attrs_ok(sd: StructDefinition, pairs: Seq<(String, Vec<String>)>) -> bool {
    forall|i: int, k: int|
        0 <= i < sd.fields@.len() && 0 <= k < attrs_lookup(pairs, sd.fields@[i].name@, 0).len()
            ==> anchor_attrs_ok(#[trigger] attrs_lookup(pairs, sd.fields@[i].name@, 0)[k]@)
}

/// Whether `acc` is the account that field `f` gives.
pub open spec fn account_of_field(
    acc: InstructionAccount,
    f: crate::ir::FieldDefinition,
    pairs: Seq<(String, Vec<String>)>,
) -> bool {
    &&& acc.name@ == f.name@
    &&& acc.account_type@ == inferred_account_type(f.type_info)
    &&& attr_views(acc.attrs@) == attrs_of_strings(attrs_lookup(pairs, f.name@, 0))
    &&& acc.optional == f.optional
    &&& acc.docs@.len() == 0
}

fn has_instruction_attr(sd: &StructDefinition) -> (r: bool)
    ensures
        r == is_instruction_struct(*sd),
{
    let attrs = &sd.metadata.attributes;
    let mut k: usize = 0;
    while k < attrs.len()
        invariant
            *attrs == sd.metadata.attributes,
            k <= attrs@.len(),
            forall|m: int| 0 <= m < k ==> (#[trigger] attrs@[m])@ != "instruction"@,
        decreases attrs@.len() - k,
    {
        if crate::text::str_eq(attrs[k].as_str(), "instruction") {
            assert(sd.metadata.attributes@[k as int]@ == "instruction"@);
            return true;
        }
        k = k + 1;
    }
    false
}

fn lookup_attrs(pairs: &Vec<(String, Vec<String>)>, name: &String) -> (r: Option<usize>)
    ensures
        match r {
            Some(k) => k < pairs@.len() && attrs_lookup(pairs@, name@, 0) == pairs@[k as int].1@,
            None => attrs_lookup(pairs@, name@, 0) == Seq::<String>::empty(),
        },
{
    let mut k: usize = 0;
    while k < pairs.len()
        invariant
            k <= pairs@.len(),
            attrs_lookup(pairs@, name@, 0) == attrs_lookup(pairs@, name@, k as int),
        decreases pairs@.len() - k,
    {
        if crate::text::str_eq(pairs[k].0.as_str(), name.as_str()) {
            return Some(k);
        }
        k = k + 1;
    }
    None
}

fn field_account(f: &crate::ir::FieldDefinition, pairs: &Vec<(String, Vec<String>)>) -> (r:
    InstructionAccount)
    requires
        forall|k: int|
            0 <= k < attrs_lookup(pairs@, f.name@, 0).len() ==> anchor_attrs_ok(
                #[trigger] attrs_lookup(pairs@, f.name@, 0)[k]@,
            ),
    ensures
        account_of_field(r, *f, pairs@),
{
    let mut attrs: Vec<AnchorAccountAttr> = Vec::new();
    match lookup_attrs(pairs, &f.name) {
        Some(idx) => {
            let strs = &pairs[idx].1;
            let ghost ss = attrs_lookup(pairs@, f.name@, 0);
            assert(strs@ == ss);
            let mut j: usize = 0;
            while j < strs.len()
                invariant
                    strs@ == ss,
                    j <= ss.len(),
                    forall|k: int| 0 <= k < ss.len() ==> anchor_attrs_ok(#[trigger] ss[k]@),
                    attr_views(attrs@) == attrs_of_strings(ss.subrange(0, j as int)),
                decreases ss.len() - j,
            {
                let ghost before = attrs@;
                let mut more = parse_anchor_attrs(strs[j].as_str());
                let ghost mv = more@;
                attrs.append(&mut more);
                proof {
                    assert(ss.subrange(0, j + 1).drop_last() =~= ss.subrange(0, j as int));
                    assert(attr_views(attrs@) =~= attr_views(before) + attr_views(mv));
                }
                j = j + 1;
            }
            assert(ss.subrange(0, ss.len() as int) =~= ss);
        },
        None => {
            assert(attr_views(attrs@) =~= Seq::<AttrView>::empty());
        },
    }
    InstructionAccount {
        name: crate::text::copy_string(&f.name),
        account_type: infer_account_type(&f.type_info),
        attrs,
        optional: f.optional,
        docs: Vec::new(),
    }
}

/// Reads an instruction context from a struct marked `instruction`.
/// `account_attrs` maps field names to the raw `#[anchor(...)]` strings of
/// the fields: each name is given at most once; a field without an entry
/// has no attributes.
/// Returns `None` for a struct without the `instruction` attribute.
pub fn parse_instruction_context(
    struct_def: &StructDefinition,
    account_attrs: &Vec<(String, Vec<String>)>,
) -> (r: Option<InstructionContext>)
    requires
        names_distinct(account_attrs@),
        context_attrs_ok(*struct_def, account_attrs@),
    ensures
        r is None <==> !is_instruction_struct(*struct_def),
        match r {
            Some(ctx) => {
                &&& ctx.name@ == struct_def.name@
                &&& ctx.args@.len() == 0
                &&& ctx.accounts@.len() == struct_def.fields@.len()
                &&& forall|i: int|
                    0 <= i < ctx.accounts@.len() ==> account_of_field(
                        #[trigger] ctx.accounts@[i],
                        struct_def.fields@[i],
                        account_attrs@,
                    )
            },
            None => true,
        },
{
    if !has_instruction_attr(struct_def) {
        return None;
    }
    let mut accounts: Vec<InstructionAccount> = Vec::new();
    let mut i: usize = 0;
    while i < struct_def.fields.len()
        invariant
            i <= struct_def.fields@.len(),
            context_attrs_ok(*struct_def, account_attrs@),
            accounts@.len() == i,
            forall|m: int|
                0 <= m < i ==> account_of_field(
                    #[trigger] accounts@[m],
                    struct_def.fields@[m],
                    account_attrs@,
                ),
        decreases struct_def.fields@.len() - i,
    {
        let f = &struct_def.fields[i];
        assert forall|k: int|
            0 <= k < attrs_lookup(account_attrs@, f.name@, 0).len() implies anchor_attrs_ok(
            #[trigger] attrs_lookup(account_attrs@, f.name@, 0)[k]@,
        ) by {
            assert(struct_def.fields@[i as int] == *f);
        }
        let acc = field_account(f, account_attrs);
        accounts.push(acc);
        i = i + 1;
    }
    Some(
        InstructionContext {
            name: crate::text::copy_string(&struct_def.name),
            accounts,
            args: Vec::new(),
        },
    )
}


/// A `key = value` attribute is read as the attribute that the key names:
/// written back, it gives the key, ` = ` and the value again (the value of
/// a constraint in double quotes). `realloc::zero` takes `true` or `false`.
pub proof fn law_keyed_attr_writes_back(key: Seq<char>, value: Seq<char>)
    requires
        keyed_attr(key, value) is Some,
        key == "realloc::zero"@ ==> value == "true"@ || value == "false"@,
    ensures
        attr_text(keyed_attr(key, value)->0) == key + " = "@ + if key == "constraint"@ {
            "\""@ + value + "\""@
        } else {
            value
        },
{
    reveal_strlit("constraint");
    reveal_strlit("has_one");
    reveal_strlit("close");
    reveal_strlit("payer");
    reveal_strlit("space");
    reveal_strlit("owner");
    reveal_strlit("address");
    reveal_strlit("bump");
    reveal_strlit("realloc");
    reveal_strlit("realloc::payer");
    reveal_strlit("realloc::zero");
    reveal_strlit(" = ");
    if key == "constraint"@ {
        reveal_strlit("constraint = \"");
        reveal_strlit("\"");
        assert(attr_text(keyed_attr(key, value)->0) =~= "constraint"@ + " = "@ + ("\""@ + value
            + "\""@));
    } else if key == "has_one"@ {
        reveal_strlit("has_one = ");
        assert(attr_text(keyed_attr(key, value)->0) =~= key + " = "@ + value);
    } else if key == "close"@ {
        reveal_strlit("close = ");
        assert(attr_text(keyed_attr(key, value)->0) =~= key + " = "@ + value);
    } else if key == "payer"@ {
        reveal_strlit("payer = ");
        assert(attr_text(keyed_attr(key, value)->0) =~= key + " = "@ + value);
    } else if key == "space"@ {
        reveal_strlit("space = ");
        assert(attr_text(keyed_attr(key, value)->0) =~= key + " = "@ + value);
    } else if key == "owner"@ {
        reveal_strlit("owner = ");
        assert(attr_text(keyed_attr(key, value)->0) =~= key + " = "@ + value);
    } else if key == "address"@ {
        reveal_strlit("address = ");
        assert(attr_text(keyed_attr(key, value)->0) =~= key + " = "@ + value);
    } else if key == "bump"@ {
        reveal_strlit("bump = ");
        assert(attr_text(keyed_attr(key, value)->0) =~= key + " = "@ + value);
    } else if key == "realloc"@ {
        reveal_strlit("realloc = ");
        assert(attr_text(keyed_attr(key, value)->0) =~= key + " = "@ + value);
    } else if key == "realloc::payer"@ {
        reveal_strlit("realloc::payer = ");
        assert(attr_text(keyed_attr(key, value)->0) =~= key + " = "@ + value);
    } else {
        reveal_strlit("realloc::zero = ");
        reveal_strlit("true");
        reveal_strlit("false");
        assert(attr_text(keyed_attr(key, value)->0) =~= key + " = "@ + value);
    }
}

/// A flag attribute is written back exactly as it was read, and reading
/// that text back gives the flag again.
pub proof fn law_flag_attr_writes_back(s: Seq<char>)
    requires
        flag_attr(s) is Some,
    ensures
        attr_text(flag_attr(s)->0) == s,
        parse_single_spec(s) == flag_attr(s),
{
    reveal_strlit("init");
    reveal_strlit("init_if_needed");
    reveal_strlit("mut");
    reveal_strlit("signer");
    reveal_strlit("bump");
    reveal_strlit("zero");
    reveal_strlit("rent_exempt = skip");
    assert(s.len() > 0 && !is_ws(s[0]) && !is_ws(s.last()));
    lemma_trimmed(s);
}


/// Whether `s` can stand as a key: not empty, without `=`, and without
/// white space at either end.
pub open spec fn plain_key(s: Seq<char>) -> bool {
    &&& s.len() > 0
    &&& forall|j: int| 0 <= j < s.len() ==> s[j] != '='
    &&& !is_ws(s[0])
    &&& !is_ws(s.last())
}

/// Whether `v` reads back as itself after ` = `: not empty, and without
/// white space or a double quote at either end.
pub open spec fn plain_value(v: Seq<char>) -> bool {
    &&& v.len() > 0
    &&& !is_ws(v[0])
    &&& !is_ws(v.last())
    &&& v[0] != '"'
    &&& v.last() != '"'
}

proof fn lemma_known_key(key: Seq<char>, value: Seq<char>, w: Seq<char>)
    requires
        keyed_attr(key, value) is Some,
        w.len() > 0,
    ensures
        plain_key(key),
        flag_attr(key + " = "@ + w) is None,
{
    reveal_strlit("constraint");
    reveal_strlit("has_one");
    reveal_strlit("close");
    reveal_strlit("payer");
    reveal_strlit("space");
    reveal_strlit("owner");
    reveal_strlit("address");
    reveal_strlit("bump");
    reveal_strlit("realloc");
    reveal_strlit("realloc::payer");
    reveal_strlit("realloc::zero");
    reveal_strlit("init");
    reveal_strlit("init_if_needed");
    reveal_strlit("mut");
    reveal_strlit("signer");
    reveal_strlit("zero");
    reveal_strlit("rent_exempt = skip");
    reveal_strlit(" = ");
    let text = key + " = "@ + w;
    assert(text[0] == key[0] && text[2] == key[2]);
    assert(text.len() >= 8);
    if key == "constraint"@ {
        assert(text[0] == 'c' && text[2] == 'n');
    } else if key == "has_one"@ {
        assert(text[0] == 'h' && text[2] == 's');
    } else if key == "close"@ {
        assert(text[0] == 'c' && text[2] == 'o');
    } else if key == "payer"@ {
        assert(text[0] == 'p' && text[2] == 'y');
    } else if key == "space"@ {
        assert(text[0] == 's' && text[2] == 'a');
    } else if key == "owner"@ {
        assert(text[0] == 'o' && text[2] == 'n');
    } else if key == "address"@ {
        assert(text[0] == 'a' && text[2] == 'd');
    } else if key == "bump"@ {
        assert(text[0] == 'b' && text[2] == 'm');
    } else if key == "realloc"@ {
        assert(text[0] == 'r' && text[2] == 'a');
    } else if key == "realloc::payer"@ {
        assert(text[0] == 'r' && text[2] == 'a');
    } else if key == "realloc::zero"@ {
        assert(text[0] == 'r' && text[2] == 'a');
    }
    assert("init"@.len() == 4 && "mut"@.len() == 3 && "signer"@.len() == 6);
    assert("bump"@.len() == 4 && "zero"@.len() == 4);
    assert("init_if_needed"@[0] == 'i' && "rent_exempt = skip"@[0] == 'r');
    assert("rent_exempt = skip"@[2] == 'n');
    assert(text != "init"@ && text != "mut"@ && text != "signer"@ && text != "bump"@);
    assert(text != "zero"@);
    assert(text != "init_if_needed"@ && text != "rent_exempt = skip"@);
}

proof fn lemma_trimmed(s: Seq<char>)
    requires
        s.len() > 0,
        !is_ws(s[0]),
        !is_ws(s.last()),
    ensures
        trim(s) == s,
{
    lemma_lead_ws_char(s, 0);
    assert(trim_start(s) =~= s);
    lemma_trail_ws_char(s, 0);
    assert(trim_end(s) =~= s);
}

proof fn lemma_trim_key_part(key: Seq<char>)
    requires
        plain_key(key),
    ensures
        trim(key + " "@) == key,
{
    reveal_strlit(" ");
    let kp = key + " "@;
    assert(kp[0] == key[0]);
    assert(kp[kp.len() - 1] == ' ');
    assert(is_ws(' '));
    assert(kp[kp.len() - 2] == key.last());
    lemma_lead_ws_char(kp, 0);
    assert(trim_start(kp) =~= kp);
    lemma_trail_ws_char(kp, 1);
    assert(trim_end(kp) =~= key);
}

proof fn lemma_trim_value_part(w: Seq<char>)
    requires
        w.len() > 0,
        !is_ws(w[0]),
        !is_ws(w.last()),
    ensures
        trim(" "@ + w) == w,
{
    reveal_strlit(" ");
    let vp = " "@ + w;
    assert(vp[0] == ' ');
    assert(is_ws(' '));
    assert(vp[1] == w[0]);
    lemma_lead_ws_char(vp, 1);
    assert(trim_start(vp) =~= w);
    lemma_trimmed(w);
}

proof fn lemma_unquoted(value: Seq<char>, quoted: bool)
    requires
        plain_value(value),
    ensures
        trim_char(if quoted { "\""@ + value + "\""@ } else { value }, '"') == value,
{
    reveal_strlit("\"");
    let w = if quoted {
        "\""@ + value + "\""@
    } else {
        value
    };
    if quoted {
        assert(w[0] == '"' && w[1] == value[0]);
        lemma_lead_run(w, '"', 1);
        let t = w.subrange(1, w.len() as int);
        assert(t =~= value + "\""@);
        assert(t[t.len() - 1] == '"' && t[t.len() - 2] == value.last());
        lemma_trail_run(t, '"', 1);
        assert(t.subrange(0, t.len() - 1) =~= value);
    } else {
        lemma_lead_run(w, '"', 0);
        let t = w.subrange(0, w.len() as int);
        assert(t =~= w);
        lemma_trail_run(t, '"', 0);
        assert(t.subrange(0, t.len() as int) =~= value);
    }
}

proof fn lemma_keyed_text(key: Seq<char>, w: Seq<char>)
    requires
        plain_key(key),
        w.len() > 0,
        !is_ws(w[0]),
        !is_ws(w.last()),
    ensures
        trim(key + " = "@ + w) == key + " = "@ + w,
        keyed_of(key + " = "@ + w) == keyed_attr(key, trim_char(w, '"')),
{
    reveal_strlit(" = ");
    reveal_strlit(" ");
    let text = key + " = "@ + w;
    let k = key.len() as int;
    assert(text[0] == key[0] && text.last() == w.last());
    lemma_trimmed(text);
    assert forall|j: int| 0 <= j < k + 1 implies text[j] != '=' by {
        if j < k {
            assert(text[j] == key[j]);
        }
    }
    assert(text[k + 1] == '=');
    lemma_index_of_char(text, '=', k + 1);
    assert(text.subrange(0, k + 1) =~= key + " "@);
    lemma_trim_key_part(key);
    assert(text.subrange(k + 2, text.len() as int) =~= " "@ + w);
    lemma_trim_value_part(w);
}

/// Reading back what a `key = value` attribute writes gives the attribute
/// again, for a value without white space or a double quote at either end.
pub proof fn law_keyed_attr_reads_back(key: Seq<char>, value: Seq<char>)
    requires
        keyed_attr(key, value) is Some,
        plain_value(value),
        key == "realloc::zero"@ ==> value == "true"@ || value == "false"@,
    ensures
        parse_single_spec(attr_text(keyed_attr(key, value)->0)) == keyed_attr(key, value),
{
    reveal_strlit("\"");
    law_keyed_attr_writes_back(key, value);
    let quoted = key == "constraint"@;
    let w = if quoted {
        "\""@ + value + "\""@
    } else {
        value
    };
    assert(w.len() > 0 && !is_ws(w[0]) && !is_ws(w.last()));
    lemma_known_key(key, value, w);
    lemma_keyed_text(key, w);
    lemma_unquoted(value, quoted);
}

} // verus!
