//! Target languages of code generation and the generator interface.

pub mod typescript;

use vstd::prelude::*;
use crate::text::{
    chars_is, chars_of, split_exec, split_on, string_from_chars, to_string, trim, trim_exec,
};

verus! {

/// A target language.
#[derive(Debug, Clone, Copy, PartialEq, Eq, Hash, Structural)]
pub enum Language {
    /// Rust with Anchor/Borsh.
    Rust,
    /// TypeScript with Borsh.
    TypeScript,
    /// Python with borsh-python.
    Python,
    /// Go with go-borsh.
    Go,
    /// Ruby with borsh-rb.
    Ruby,
    /// Seahorse Python for Solana programs.
    Seahorse,
}

/// The file extension of generated code.
pub open spec fn extension_of(l: Language) -> Seq<char> {
    match l {
        Language::Rust => "rs"@,
        Language::TypeScript => "ts"@,
        Language::Python => "py"@,
        Language::Go => "go"@,
        Language::Ruby => "rb"@,
        Language::Seahorse => "py"@,
    }
}

/// The canonical name of a language.
pub open spec fn name_of(l: Language) -> Seq<char> {
    match l {
        Language::Rust => "rust"@,
        Language::TypeScript => "typescript"@,
        Language::Python => "python"@,
        Language::Go => "go"@,
        Language::Ruby => "ruby"@,
        Language::Seahorse => "seahorse"@,
    }
}

/// The language that a lower-case name or alias stands for.
pub open spec fn language_of_name(n: Seq<char>) -> Option<Language> {
    if n == "rust"@ || n == "rs"@ {
        Some(Language::Rust)
    } else if n == "typescript"@ || n == "ts"@ {
        Some(Language::TypeScript)
    } else if n == "python"@ || n == "py"@ {
        Some(Language::Python)
    } else if n == "go"@ || n == "golang"@ {
        Some(Language::Go)
    } else if n == "ruby"@ || n == "rb"@ {
        Some(Language::Ruby)
    } else if n == "seahorse"@ {
        Some(Language::Seahorse)
    } else {
        None
    }
}

/// All languages, in declaration order.
pub open spec fn all_languages() -> Seq<Language> {
    seq![
        Language::Rust,
        Language::TypeScript,
        Language::Python,
        Language::Go,
        Language::Ruby,
        Language::Seahorse,
    ]
}

/// What `str::to_lowercase` gives for `s`.
pub uninterp spec fn str_lowercased(s: Seq<char>) -> Seq<char>;

/// Whether every character of `s` is ASCII.
pub open spec fn ascii_text(s: Seq<char>) -> bool {
    forall|i: int| 0 <= i < s.len() ==> (#[trigger] s[i] as u32) < 128
}

/// ASCII characters with `A` to `Z` lowered.
pub open spec fn ascii_lowered(s: Seq<char>) -> Seq<char> {
    s.map_values(|c: char| if 'A' <= c && c <= 'Z' { ((c as u32) + 32) as char } else { c })
}

/// std `str::to_lowercase`: the string with each character replaced by its
/// Unicode lower-case mapping. For a string of ASCII characters this lowers
/// `A` to `Z` and keeps the rest; of other strings the contract only names
/// the answer.
#[verifier::external_body]
pub(crate) fn to_lowercase(s: &str) -> (r: String)
    ensures
        r@ == str_lowercased(s@),
        ascii_text(s@) ==> r@ == ascii_lowered(s@),
{
    s.to_lowercase()
}

/// The languages named in a comma-separated list, in order; pieces are
/// trimmed and unknown names skipped.
pub open spec fn languages_in(parts: Seq<Seq<char>>) -> Seq<Language>
    decreases parts.len(),
{
    if parts.len() == 0 {
        Seq::empty()
    } else {
        let rest = languages_in(parts.drop_last());
        match language_of_name(str_lowercased(trim(parts.last()))) {
            Some(l) => rest.push(l),
            None => rest,
        }
    }
}

impl Language {
    /// The languages generation supports.
    pub fn supported() -> (r: Vec<Language>)
        ensures
            r@ == all_languages(),
    {
        vec![
            Language::Rust,
            Language::TypeScript,
            Language::Python,
            Language::Go,
            Language::Ruby,
            Language::Seahorse,
        ]
    }

    /// All languages, planned ones included.
    pub fn all() -> (r: Vec<Language>)
        ensures
            r@ == all_languages(),
    {
        vec![
            Language::Rust,
            Language::TypeScript,
            Language::Python,
            Language::Go,
            Language::Ruby,
            Language::Seahorse,
        ]
    }

    /// Whether generation for this language is implemented (it is for all).
    pub fn is_implemented(&self) -> (r: bool)
        ensures
            r,
    {
        match self {
            Language::Rust | Language::TypeScript | Language::Python | Language::Go
            | Language::Ruby | Language::Seahorse => true,
        }
    }

    /// The file extension of generated code.
    pub fn file_extension(&self) -> (r: &'static str)
        ensures
            r@ == extension_of(*self),
    {
        match self {
            Language::Rust => "rs",
            Language::TypeScript => "ts",
            Language::Python => "py",
            Language::Go => "go",
            Language::Ruby => "rb",
            Language::Seahorse => "py",
        }
    }

    /// The canonical name.
    pub fn name(&self) -> (r: &'static str)
        ensures
            r@ == name_of(*self),
    {
        match self {
            Language::Rust => "rust",
            Language::TypeScript => "typescript",
            Language::Python => "python",
            Language::Go => "go",
            Language::Ruby => "ruby",
            Language::Seahorse => "seahorse",
        }
    }

    /// The canonical name as a string (what the language displays as).
    pub fn to_display_string(&self) -> (r: String)
        ensures
            r@ == name_of(*self),
    {
        to_string(self.name())
    }

    /// The language of a name or alias, in any case.
    pub fn from_name(s: &str) -> (r: Option<Language>)
        ensures
            r == language_of_name(str_lowercased(s@)),
            ascii_text(s@) ==> r == language_of_name(ascii_lowered(s@)),
    {
        let lower = to_lowercase(s);
        let c = chars_of(lower.as_str());
        language_of_lower_name(c.as_slice())
    }


    /// The languages named in a comma-separated list such as
    /// `rust, ts, py`; unknown names are skipped.
    pub fn parse_list(s: &str) -> (r: Vec<Language>)
        ensures
            r@ == languages_in(split_on(s@, ',')),
    {
        let c = chars_of(s);
        let parts = split_exec(c.as_slice(), ',');
        let ghost ps = split_on(s@, ',');
        let mut r: Vec<Language> = Vec::new();
        let mut i: usize = 0;
        while i < parts.len()
            invariant
                parts@.len() == ps.len(),
                forall|k: int| 0 <= k < parts@.len() ==> #[trigger] parts@[k]@ == ps[k],
                i <= ps.len(),
                r@ == languages_in(ps.subrange(0, i as int)),
            decreases ps.len() - i,
        {
            assert(ps.subrange(0, i + 1).drop_last() =~= ps.subrange(0, i as int));
            assert(parts@[i as int]@ == ps[i as int]);
            let t = trim_exec(parts[i].as_slice());
            let ts = string_from_chars(t.as_slice());
            match Self::from_name(ts.as_str()) {
                Some(l) => {
                    r.push(l);
                },
                None => {},
            }
            i = i + 1;
        }
        assert(ps.subrange(0, ps.len() as int) =~= ps);
        r
    }
}

fn language_of_lower_name(n: &[char]) -> (r: Option<Language>)
    ensures
        r == language_of_name(n@),
{
    if chars_is(n, "rust") || chars_is(n, "rs") {
        Some(Language::Rust)
    } else if chars_is(n, "typescript") || chars_is(n, "ts") {
        Some(Language::TypeScript)
    } else if chars_is(n, "python") || chars_is(n, "py") {
        Some(Language::Python)
    } else if chars_is(n, "go") || chars_is(n, "golang") {
        Some(Language::Go)
    } else if chars_is(n, "ruby") || chars_is(n, "rb") {
        Some(Language::Ruby)
    } else if chars_is(n, "seahorse") {
        Some(Language::Seahorse)
    } else {
        None
    }
}

/// A language's name reads back as that language: the name is plain ASCII
/// and, lowered, names the language.
pub proof fn law_language_name_round_trip(l: Language)
    ensures
        ascii_text(name_of(l)),
        language_of_name(ascii_lowered(name_of(l))) == Some(l),
{
    reveal_strlit("rust");
    reveal_strlit("typescript");
    reveal_strlit("python");
    reveal_strlit("go");
    reveal_strlit("ruby");
    reveal_strlit("seahorse");
    reveal_strlit("rs");
    reveal_strlit("ts");
    reveal_strlit("py");
    reveal_strlit("golang");
    reveal_strlit("rb");
    let n = name_of(l);
    assert(ascii_lowered(n) =~= n);
    assert(ascii_lowered(name_of(l)) == name_of(l));
    match l {
        Language::Rust => assert(language_of_name("rust"@) == Some(Language::Rust)),
        Language::TypeScript => assert(language_of_name("typescript"@) == Some(Language::TypeScript)),
        Language::Python => assert(language_of_name("python"@) == Some(Language::Python)),
        Language::Go => {
            assert("go"@[0] != "rs"@[0] && "go"@[0] != "ts"@[0] && "go"@[0] != "py"@[0]);
            assert(language_of_name("go"@) == Some(Language::Go));
        },
        Language::Ruby => {
            assert("ruby"@[2] != "rust"@[2]);
            assert(language_of_name("ruby"@) == Some(Language::Ruby));
        },
        Language::Seahorse => assert(language_of_name("seahorse"@) == Some(Language::Seahorse)),
    }
}

// ---------------------------------------------------------------------
// Generators
// ---------------------------------------------------------------------

/// A code generator for one target language.
pub trait CodeGenerator: Send + Sync {
    /// The language this generator writes.
    spec fn target(&self) -> Language;

    /// The target language.
    fn language(&self) -> (r: Language)
        ensures
            r == self.target(),
    ;

    /// The file extension of generated files.
    fn file_extension(&self) -> (r: &'static str)
        ensures
            r@ == extension_of(self.target()),
    {
        self.language().file_extension()
    }

    /// The default output file name for a schema: `name.extension`.
    fn output_filename(&self, schema_name: &str) -> (r: String)
        ensures
            r@ == schema_name@ + "."@ + extension_of(self.target()),
    {
        let mut r = to_string(schema_name);
        r.append(".");
        r.append(self.file_extension());
        r
    }
}

/// Generates Rust.
pub struct RustGenerator;

/// Generates TypeScript.
pub struct TypeScriptGenerator;

/// Generates Python.
pub struct PythonGenerator;

/// Generates Go.
pub struct GoGenerator;

/// Generates Ruby.
pub struct RubyGenerator;

/// Generates Seahorse Python.
pub struct SeahorseGenerator;

impl CodeGenerator for RustGenerator {
    open spec fn target(&self) -> Language {
        Language::Rust
    }

    fn language(&self) -> (r: Language) {
        Language::Rust
    }
}

impl CodeGenerator for TypeScriptGenerator {
    open spec fn target(&self) -> Language {
        Language::TypeScript
    }

    fn language(&self) -> (r: Language) {
        Language::TypeScript
    }
}

impl CodeGenerator for PythonGenerator {
    open spec fn target(&self) -> Language {
        Language::Python
    }

    fn language(&self) -> (r: Language) {
        Language::Python
    }
}

impl CodeGenerator for GoGenerator {
    open spec fn target(&self) -> Language {
        Language::Go
    }

    fn language(&self) -> (r: Language) {
        Language::Go
    }
}

impl CodeGenerator for RubyGenerator {
    open spec fn target(&self) -> Language {
        Language::Ruby
    }

    fn language(&self) -> (r: Language) {
        Language::Ruby
    }
}

impl CodeGenerator for SeahorseGenerator {
    open spec fn target(&self) -> Language {
        Language::Seahorse
    }

    fn language(&self) -> (r: Language) {
        Language::Seahorse
    }
}

/// The generator for a language, where one is implemented (for every
/// language).
pub fn try_get_generator(language: Language) -> (r: Option<Box<dyn CodeGenerator>>)
    ensures
        r is Some,
        r.unwrap().target() == language,
{
    match language {
        Language::Rust => Some(Box::new(RustGenerator)),
        Language::TypeScript => Some(Box::new(TypeScriptGenerator)),
        Language::Python => Some(Box::new(PythonGenerator)),
        Language::Go => Some(Box::new(GoGenerator)),
        Language::Ruby => Some(Box::new(RubyGenerator)),
        Language::Seahorse => Some(Box::new(SeahorseGenerator)),
    }
}

/// The generator for a language.
pub fn get_generator(language: Language) -> (r: Box<dyn CodeGenerator>)
    ensures
        r.target() == language,
{
    match language {
        Language::Rust => {
            return Box::new(RustGenerator);
        },
        Language::TypeScript => {
            return Box::new(TypeScriptGenerator);
        },
        Language::Python => {
            return Box::new(PythonGenerator);
        },
        Language::Go => {
            return Box::new(GoGenerator);
        },
        Language::Ruby => {
            return Box::new(RubyGenerator);
        },
        Language::Seahorse => {
            return Box::new(SeahorseGenerator);
        },
    };
}

/// std `Vec::push` of the generator that `g` holds: the list grows by that
/// generator at its end and keeps what it held. (vstd's specification of
/// `Vec::push` does not reach a list of boxed trait objects, whose items
/// Verus sees as unsized.)
#[verifier::external_body]
fn push_generator(v: &mut Vec<Box<dyn CodeGenerator>>, g: Option<Box<dyn CodeGenerator>>)
    requires
        g is Some,
    ensures
        final(v)@.len() == old(v)@.len() + 1,
        final(v)@[old(v)@.len() as int] == g->Some_0,
        forall|i: int| 0 <= i < old(v)@.len() ==> final(v)@[i] == old(v)@[i],
{
    v.push(g.unwrap());
}

/// The generators of the given languages, in order (one per language,
/// since every language has one).
pub fn get_generators(languages: &[Language]) -> (r: Vec<Box<dyn CodeGenerator>>)
    ensures
        r@.len() == languages@.len(),
        forall|i: int| 0 <= i < languages@.len() ==> (#[trigger] r@[i]).target() == languages@[i],
{
    let mut r: Vec<Box<dyn CodeGenerator>> = Vec::new();
    let mut i: usize = 0;
    while i < languages.len()
        invariant
            i <= languages@.len(),
            r@.len() == i,
            forall|k: int| 0 <= k < i ==> (#[trigger] r@[k]).target() == languages@[k],
        decreases languages@.len() - i,
    {
        push_generator(&mut r, try_get_generator(languages[i]));
        i = i + 1;
    }
    r
}

} // verus!
