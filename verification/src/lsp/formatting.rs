//! Formatting: a schema written back out in canonical layout, and the edit
//! that turns a document into it.

use vstd::prelude::*;
use crate::ast::{
    Attribute, AttributeValue, EnumDef, EnumVariant, FieldDef, Import, Item, LumosFile, ModuleDecl,
    StructDef, TypeAlias, TypeSpec, UsePath,
};
use crate::module_resolver::path_text;
use crate::parser::{file_answer, parse_lumos_file};
use crate::error::{error_text, LumosError};
use crate::text::{concat_map, dec, join, join_strings, line_at, line_count, lines_exec, str_eq, to_string, u64_to_string, usize_to_string, views};

verus! {

/// `n` spaces.
pub open spec fn spaces(n: nat) -> Seq<char> {
    Seq::new(n, |i: int| ' ')
}

/// A type spec as written in a schema.
pub open spec fn spec_text(t: TypeSpec) -> Seq<char>
    decreases t,
{
    match t {
        TypeSpec::Primitive(n) => n@,
        TypeSpec::UserDefined(n) => n@,
        TypeSpec::Array(inner) => "["@ + spec_text(*inner) + "]"@,
        TypeSpec::FixedArray { element, size } => "["@ + spec_text(*element) + "; "@ + dec(
            size as nat,
        ) + "]"@,
    }
}

/// An attribute as written between `#[` and `]`.
pub open spec fn attribute_text(a: Attribute) -> Seq<char> {
    match a.value {
        Some(AttributeValue::String(s)) => a.name@ + " = \""@ + s@ + "\""@,
        Some(AttributeValue::Integer(n)) => a.name@ + " = "@ + dec(n as nat),
        Some(AttributeValue::Bool(b)) => a.name@ + " = "@ + if b {
            "true"@
        } else {
            "false"@
        },
        Some(AttributeValue::List(items)) => a.name@ + "("@ + join(views(items@), ", "@) + ")"@,
        None => a.name@,
    }
}

/// An import statement.
pub open spec fn import_text(i: Import) -> Seq<char> {
    if i.items@.len() == 1 {
        "use "@ + i.items@[0]@ + " from \""@ + i.path@ + "\";"@
    } else {
        "use { "@ + join(views(i.items@), ", "@) + " } from \""@ + i.path@ + "\";"@
    }
}

/// Attribute lines at an indentation.
pub open spec fn attr_lines(ind: Seq<char>, attrs: Seq<Attribute>) -> Seq<char> {
    concat_map(attrs, |a: Attribute| ind + "#["@ + attribute_text(a) + "]\n"@)
}

/// A struct field line, after its attribute lines.
pub open spec fn struct_field_text(ind: Seq<char>, f: FieldDef) -> Seq<char> {
    attr_lines(ind, f.attributes@) + ind + f.name@ + ": "@ + spec_text(f.type_spec) + ",\n"@
}

/// A field line of a struct variant.
pub open spec fn variant_field_text(ind: Seq<char>, f: FieldDef) -> Seq<char> {
    ind + f.name@ + ": "@ + spec_text(f.type_spec) + ",\n"@
}

/// `pub ` for a public item, nothing for a private one (a restricted
/// visibility is not written back).
pub open spec fn vis_text(public: bool) -> Seq<char> {
    if public {
        "pub "@
    } else {
        Seq::empty()
    }
}

/// A struct at an indentation level of width `w`.
pub open spec fn struct_text(s: StructDef, w: nat, level: nat) -> Seq<char> {
    let ind = spaces(w * level);
    let find = spaces(w * (level + 1));
    attr_lines(ind, s.attributes@) + ind + vis_text(s.public) + "struct "@ + s.name@ + " {\n"@ + concat_map(
        s.fields@,
        |f: FieldDef| struct_field_text(find, f),
    ) + ind + "}"@
}

/// An enum variant.
pub open spec fn variant_text(v: EnumVariant, vind: Seq<char>, find: Seq<char>) -> Seq<char> {
    match v {
        EnumVariant::Unit { name } => vind + name@ + ",\n"@,
        EnumVariant::Tuple { name, types } => vind + name@ + "("@ + join(
            types@.map_values(|t: TypeSpec| spec_text(t)),
            ", "@,
        ) + "),\n"@,
        EnumVariant::Struct { name, fields } => vind + name@ + " {\n"@ + concat_map(
            fields@,
            |f: FieldDef| variant_field_text(find, f),
        ) + vind + "},\n"@,
    }
}

/// An enum at an indentation level of width `w`.
pub open spec fn enum_text(e: EnumDef, w: nat, level: nat) -> Seq<char> {
    let ind = spaces(w * level);
    let vind = spaces(w * (level + 1));
    let find = spaces(w * (level + 2));
    attr_lines(ind, e.attributes@) + ind + vis_text(e.public) + "enum "@ + e.name@ + " {\n"@ + concat_map(
        e.variants@,
        |v: EnumVariant| variant_text(v, vind, find),
    ) + ind + "}"@
}

/// A type alias at an indentation level of width `w`.
pub open spec fn alias_text(a: TypeAlias, w: nat, level: nat) -> Seq<char> {
    spaces(w * level) + vis_text(a.public) + "type "@ + a.name@ + " = "@ + spec_text(a.target) + ";"@
}

/// An item at an indentation level of width `w`.
pub open spec fn item_text(it: Item, w: nat, level: nat) -> Seq<char> {
    match it {
        Item::Struct(s) => struct_text(s, w, level),
        Item::Enum(e) => enum_text(e, w, level),
        Item::TypeAlias(a) => alias_text(a, w, level),
    }
}

/// A module declaration.
pub open spec fn module_text(m: ModuleDecl) -> Seq<char> {
    vis_text(m.public) + "mod "@ + m.name@ + ";"@
}

/// A `use` statement.
pub open spec fn use_text(u: UsePath) -> Seq<char> {
    "use "@ + path_text(u.segments@) + ";"@
}

/// The top-level pieces of a file after its imports: its module
/// declarations, its `use` statements, then its definitions.
pub open spec fn pieces_text(f: LumosFile, w: nat) -> Seq<Seq<char>> {
    f.modules@.map_values(|m: ModuleDecl| module_text(m)) + f.uses@.map_values(
        |u: UsePath| use_text(u),
    ) + f.items@.map_values(|it: Item| item_text(it, w, 0))
}

/// A whole file: its imports, one per line, a blank line when there are
/// both imports and other pieces, then its module declarations, `use`
/// statements and definitions, separated by blank lines.
pub open spec fn file_text(f: LumosFile, w: nat) -> Seq<char> {
    concat_map(f.imports@, |i: Import| import_text(i) + "\n"@) + (if f.imports@.len() > 0
        && pieces_text(f, w).len() > 0 {
        "\n"@
    } else {
        Seq::empty()
    }) + join(pieces_text(f, w), "\n\n"@)
}

/// An edit that replaces a document from its start (line 0, column 0) to
/// an end position with new text.
#[derive(Debug, Clone)]
pub struct FormatEdit {
    /// Line of the end of the replaced range.
    pub end_line: u32,
    /// Column of the end of the replaced range.
    pub end_character: u32,
    /// The replacement.
    pub new_text: String,
}

/// The length of the last line of a text, or 0 when it has none.
pub open spec fn last_line_len(text: Seq<char>) -> nat {
    if line_count(text) > 0 {
        line_at(text, line_count(text) - 1).len()
    } else {
        0
    }
}

/// A module declaration in canonical layout.
pub fn format_module(m: &ModuleDecl) -> (r: String)
    ensures
        r@ == module_text(*m),
{
    let mut r = String::new();
    if m.public {
        r.append("pub ");
    }
    r.append("mod ");
    r.append(m.name.as_str());
    r.append(";");
    r
}

/// A `use` statement in canonical layout.
pub fn format_use(u: &UsePath) -> (r: String)
    ensures
        r@ == use_text(*u),
{
    let mut r = to_string("use ");
    r.append(u.to_display_string().as_str());
    r.append(";");
    r
}

/// Whether `r` are the edits that format `text`, which parsed as `parsed`:
/// none when it is formatted already, else one replacing it whole (to the
/// end of its last line, columns counted in characters); a parse error
/// gives its text.
pub open spec fn format_answer(
    text: Seq<char>,
    parsed: Result<LumosFile, LumosError>,
    r: Result<Vec<FormatEdit>, String>,
) -> bool {
    match parsed {
        Err(e) => r matches Err(m) && m@ == error_text(e),
        Ok(f) => r matches Ok(edits) && if text == file_text(f, 4) {
            edits@.len() == 0
        } else {
            &&& edits@.len() == 1
            &&& edits@[0].new_text@ == file_text(f, 4)
            &&& edits@[0].end_line == if (line_count(text) as u32) > 0 {
                ((line_count(text) as u32) - 1) as u32
            } else {
                0u32
            }
            &&& edits@[0].end_character == last_line_len(text) as u32
        },
    }
}

/// Formats schemas.
pub struct FormattingHandler {
    indent_size: usize,
}

fn spaces_exec(n: usize) -> (r: String)
    ensures
        r@ == spaces(n as nat),
{
    let mut r = String::new();
    let mut k: usize = 0;
    while k < n
        invariant
            k <= n,
            r@ == spaces(k as nat),
        decreases n - k,
    {
        crate::text::push_char(&mut r, ' ');
        k = k + 1;
        assert(r@ =~= spaces(k as nat));
    }
    r
}

/// A type spec as written in a schema.
pub fn format_type_spec(t: &TypeSpec) -> (r: String)
    ensures
        r@ == spec_text(*t),
    decreases t,
{
    match t {
        TypeSpec::Primitive(n) => n.clone(),
        TypeSpec::UserDefined(n) => n.clone(),
        TypeSpec::Array(inner) => {
            let mut r = to_string("[");
            r.append(format_type_spec(inner).as_str());
            r.append("]");
            r
        },
        TypeSpec::FixedArray { element, size } => {
            let mut r = to_string("[");
            r.append(format_type_spec(element).as_str());
            r.append("; ");
            r.append(usize_to_string(*size).as_str());
            r.append("]");
            r
        },
    }
}

/// An attribute as written between `#[` and `]`.
pub fn format_attribute(a: &Attribute) -> (r: String)
    ensures
        r@ == attribute_text(*a),
{
    let mut r = a.name.clone();
    match &a.value {
        Some(AttributeValue::String(s)) => {
            r.append(" = \"");
            r.append(s.as_str());
            r.append("\"");
        },
        Some(AttributeValue::Integer(n)) => {
            r.append(" = ");
            r.append(u64_to_string(*n).as_str());
        },
        Some(AttributeValue::Bool(b)) => {
            r.append(" = ");
            if *b {
                r.append("true");
            } else {
                r.append("false");
            }
        },
        Some(AttributeValue::List(items)) => {
            r.append("(");
            r.append(join_strings(items, ", ").as_str());
            r.append(")");
        },
        None => {},
    }
    r
}

/// An import statement.
pub fn format_import(i: &Import) -> (r: String)
    ensures
        r@ == import_text(*i),
{
    if i.items.len() == 1 {
        let mut r = to_string("use ");
        r.append(i.items[0].as_str());
        r.append(" from \"");
        r.append(i.path.as_str());
        r.append("\";");
        r
    } else {
        let mut r = to_string("use { ");
        r.append(join_strings(&i.items, ", ").as_str());
        r.append(" } from \"");
        r.append(i.path.as_str());
        r.append("\";");
        r
    }
}

fn append_attr_lines(out: &mut String, ind: &String, attrs: &Vec<Attribute>)
    ensures
        final(out)@ == old(out)@ + attr_lines(ind@, attrs@),
{
    let ghost f = |a: Attribute| ind@ + "#["@ + attribute_text(a) + "]\n"@;
    let ghost start = out@;
    let mut k: usize = 0;
    while k < attrs.len()
        invariant
            f == (|a: Attribute| ind@ + "#["@ + attribute_text(a) + "]\n"@),
            k <= attrs@.len(),
            out@ == start + concat_map(attrs@.subrange(0, k as int), f),
        decreases attrs@.len() - k,
    {
        proof {
            crate::text::lemma_concat_map_step(attrs@, k as int, f);
        }
        let ghost before = out@;
        out.append(ind.as_str());
        out.append("#[");
        out.append(format_attribute(&attrs[k]).as_str());
        out.append("]\n");
        assert(out@ =~= before + f(attrs@[k as int]));
        k = k + 1;
    }
    assert(attrs@.subrange(0, k as int) =~= attrs@);
}

fn append_type_list(out: &mut String, types: &Vec<TypeSpec>)
    ensures
        final(out)@ == old(out)@ + join(types@.map_values(|t: TypeSpec| spec_text(t)), ", "@),
{
    let mut texts: Vec<String> = Vec::new();
    let mut k: usize = 0;
    while k < types.len()
        invariant
            k <= types@.len(),
            views(texts@) == types@.subrange(0, k as int).map_values(|t: TypeSpec| spec_text(t)),
        decreases types@.len() - k,
    {
        let ghost prev = texts@;
        texts.push(format_type_spec(&types[k]));
        assert(views(texts@) =~= views(prev).push(spec_text(types@[k as int])));
        k = k + 1;
        assert(views(texts@) =~= types@.subrange(0, k as int).map_values(
            |t: TypeSpec| spec_text(t),
        ));
    }
    assert(types@.subrange(0, k as int) =~= types@);
    out.append(join_strings(&texts, ", ").as_str());
}

impl FormattingHandler {
    /// The number of spaces per indentation level.
    pub closed spec fn indent_width(&self) -> nat {
        self.indent_size as nat
    }

    /// A formatter indenting by four spaces.
    pub fn new() -> (r: Self)
        ensures
            r.indent_width() == 4,
    {
        FormattingHandler { indent_size: 4 }
    }

    fn indent(&self, level: usize) -> (r: String)
        requires
            self.indent_width() * level <= usize::MAX,
        ensures
            r@ == spaces(self.indent_width() * (level as nat)),
    {
        proof {
            assert(self.indent_size * level <= usize::MAX) by (nonlinear_arith)
                requires
                    self.indent_width() * level <= usize::MAX,
                    self.indent_width() == self.indent_size,
            ;
        }
        spaces_exec(self.indent_size * level)
    }

    /// A struct at an indentation level.
    pub fn format_struct_def(&self, s: &StructDef, level: usize) -> (r: String)
        requires
            level < usize::MAX,
            self.indent_width() * (level + 1) <= usize::MAX,
        ensures
            r@ == struct_text(*s, self.indent_width(), level as nat),
    {
        proof {
            assert(self.indent_width() * level <= self.indent_width() * (level + 1)) by (nonlinear_arith);
        }
        let ind = self.indent(level);
        let find = self.indent(level + 1);
        let mut out = String::new();
        append_attr_lines(&mut out, &ind, &s.attributes);
        out.append(ind.as_str());
        if s.public {
            out.append("pub ");
        }
        out.append("struct ");
        out.append(s.name.as_str());
        out.append(" {\n");
        let ghost f = |fd: FieldDef| struct_field_text(find@, fd);
        let ghost start = out@;
        let mut k: usize = 0;
        while k < s.fields.len()
            invariant
                f == (|fd: FieldDef| struct_field_text(find@, fd)),
                k <= s.fields@.len(),
                out@ == start + concat_map(s.fields@.subrange(0, k as int), f),
            decreases s.fields@.len() - k,
        {
            proof {
                crate::text::lemma_concat_map_step(s.fields@, k as int, f);
            }
            let fd = &s.fields[k];
            let ghost before = out@;
            append_attr_lines(&mut out, &find, &fd.attributes);
            out.append(find.as_str());
            out.append(fd.name.as_str());
            out.append(": ");
            out.append(format_type_spec(&fd.type_spec).as_str());
            out.append(",\n");
            assert(out@ =~= before + f(s.fields@[k as int]));
            k = k + 1;
        }
        assert(s.fields@.subrange(0, k as int) =~= s.fields@);
        out.append(ind.as_str());
        out.append("}");
        out
    }

    fn format_variant(&self, v: &EnumVariant, vind: &String, find: &String) -> (r: String)
        ensures
            r@ == variant_text(*v, vind@, find@),
    {
        match v {
            EnumVariant::Unit { name } => {
                let mut r = vind.clone();
                r.append(name.as_str());
                r.append(",\n");
                r
            },
            EnumVariant::Tuple { name, types } => {
                let mut r = vind.clone();
                r.append(name.as_str());
                r.append("(");
                append_type_list(&mut r, types);
                r.append("),\n");
                r
            },
            EnumVariant::Struct { name, fields } => {
                let mut r = vind.clone();
                r.append(name.as_str());
                r.append(" {\n");
                let ghost f = |fd: FieldDef| variant_field_text(find@, fd);
                let ghost start = r@;
                let mut k: usize = 0;
                while k < fields.len()
                    invariant
                        f == (|fd: FieldDef| variant_field_text(find@, fd)),
                        k <= fields@.len(),
                        r@ == start + concat_map(fields@.subrange(0, k as int), f),
                    decreases fields@.len() - k,
                {
                    proof {
                        crate::text::lemma_concat_map_step(fields@, k as int, f);
                    }
                    let ghost before = r@;
                    r.append(find.as_str());
                    r.append(fields[k].name.as_str());
                    r.append(": ");
                    r.append(format_type_spec(&fields[k].type_spec).as_str());
                    r.append(",\n");
                    assert(r@ =~= before + f(fields@[k as int]));
                    k = k + 1;
                }
                assert(fields@.subrange(0, k as int) =~= fields@);
                r.append(vind.as_str());
                r.append("},\n");
                r
            },
        }
    }

    /// An enum at an indentation level.
    pub fn format_enum_def(&self, e: &EnumDef, level: usize) -> (r: String)
        requires
            level + 2 <= usize::MAX,
            self.indent_width() * (level + 2) <= usize::MAX,
        ensures
            r@ == enum_text(*e, self.indent_width(), level as nat),
    {
        proof {
            assert(self.indent_width() * level <= self.indent_width() * (level + 2)) by (nonlinear_arith);
            assert(self.indent_width() * (level + 1) <= self.indent_width() * (level + 2)) by (nonlinear_arith);
        }
        let ind = self.indent(level);
        let vind = self.indent(level + 1);
        let find = self.indent(level + 2);
        let mut out = String::new();
        append_attr_lines(&mut out, &ind, &e.attributes);
        out.append(ind.as_str());
        if e.public {
            out.append("pub ");
        }
        out.append("enum ");
        out.append(e.name.as_str());
        out.append(" {\n");
        let ghost f = |v: EnumVariant| variant_text(v, vind@, find@);
        let ghost start = out@;
        let mut k: usize = 0;
        while k < e.variants.len()
            invariant
                f == (|v: EnumVariant| variant_text(v, vind@, find@)),
                k <= e.variants@.len(),
                out@ == start + concat_map(e.variants@.subrange(0, k as int), f),
            decreases e.variants@.len() - k,
        {
            proof {
                crate::text::lemma_concat_map_step(e.variants@, k as int, f);
            }
            let ghost before = out@;
            out.append(self.format_variant(&e.variants[k], &vind, &find).as_str());
            assert(out@ =~= before + f(e.variants@[k as int]));
            k = k + 1;
        }
        assert(e.variants@.subrange(0, k as int) =~= e.variants@);
        out.append(ind.as_str());
        out.append("}");
        out
    }

    /// A type alias at an indentation level.
    pub fn format_type_alias(&self, a: &TypeAlias, level: usize) -> (r: String)
        requires
            self.indent_width() * level <= usize::MAX,
        ensures
            r@ == alias_text(*a, self.indent_width(), level as nat),
    {
        let mut r = self.indent(level);
        if a.public {
            r.append("pub ");
        }
        r.append("type ");
        r.append(a.name.as_str());
        r.append(" = ");
        r.append(format_type_spec(&a.target).as_str());
        r.append(";");
        r
    }

    /// An item at an indentation level.
    pub fn format_item(&self, it: &Item, level: usize) -> (r: String)
        requires
            level + 2 <= usize::MAX,
            self.indent_width() * (level + 2) <= usize::MAX,
        ensures
            r@ == item_text(*it, self.indent_width(), level as nat),
    {
        proof {
            assert(self.indent_width() * level <= self.indent_width() * (level + 2)) by (nonlinear_arith);
            assert(self.indent_width() * (level + 1) <= self.indent_width() * (level + 2)) by (nonlinear_arith);
        }
        match it {
            Item::Struct(s) => self.format_struct_def(s, level),
            Item::Enum(e) => self.format_enum_def(e, level),
            Item::TypeAlias(a) => self.format_type_alias(a, level),
        }
    }

    /// A whole file in canonical layout.
    pub fn format_file(&self, file: &LumosFile) -> (r: String)
        requires
            self.indent_width() == 4,
        ensures
            r@ == file_text(*file, self.indent_width()),
    {
        let mut out = String::new();
        let ghost f = |i: Import| import_text(i) + "\n"@;
        let mut k: usize = 0;
        while k < file.imports.len()
            invariant
                f == (|i: Import| import_text(i) + "\n"@),
                k <= file.imports@.len(),
                out@ == concat_map(file.imports@.subrange(0, k as int), f),
            decreases file.imports@.len() - k,
        {
            proof {
                crate::text::lemma_concat_map_step(file.imports@, k as int, f);
            }
            let ghost before = out@;
            out.append(format_import(&file.imports[k]).as_str());
            out.append("\n");
            assert(out@ =~= before + f(file.imports@[k as int]));
            k = k + 1;
        }
        assert(file.imports@.subrange(0, k as int) =~= file.imports@);
        let pieces = self.format_pieces(file);
        if file.imports.len() > 0 && pieces.len() > 0 {
            out.append("\n");
        }
        out.append(join_strings(&pieces, "\n\n").as_str());
        out
    }

    fn format_pieces(&self, file: &LumosFile) -> (r: Vec<String>)
        requires
            self.indent_width() == 4,
        ensures
            views(r@) == pieces_text(*file, 4),
    {
        let mut r: Vec<String> = Vec::new();
        let mut k: usize = 0;
        while k < file.modules.len()
            invariant
                k <= file.modules@.len(),
                views(r@) == file.modules@.subrange(0, k as int).map_values(|m: ModuleDecl| module_text(m)),
            decreases file.modules@.len() - k,
        {
            let ghost before = views(r@);
            r.push(format_module(&file.modules[k]));
            assert(views(r@) =~= before.push(module_text(file.modules@[k as int])));
            k = k + 1;
            assert(views(r@) =~= file.modules@.subrange(0, k as int).map_values(|m: ModuleDecl| module_text(m)));
        }
        assert(file.modules@.subrange(0, k as int) =~= file.modules@);
        let ghost mods = views(r@);
        let mut k: usize = 0;
        while k < file.uses.len()
            invariant
                k <= file.uses@.len(),
                views(r@) == mods + file.uses@.subrange(0, k as int).map_values(|u: UsePath| use_text(u)),
            decreases file.uses@.len() - k,
        {
            let ghost before = views(r@);
            r.push(format_use(&file.uses[k]));
            assert(views(r@) =~= before.push(use_text(file.uses@[k as int])));
            k = k + 1;
            assert(views(r@) =~= mods + file.uses@.subrange(0, k as int).map_values(|u: UsePath| use_text(u)));
        }
        assert(file.uses@.subrange(0, k as int) =~= file.uses@);
        let ghost head = views(r@);
        let mut k: usize = 0;
        while k < file.items.len()
            invariant
                self.indent_width() == 4,
                k <= file.items@.len(),
                views(r@) == head + file.items@.subrange(0, k as int).map_values(|it: Item| item_text(it, 4, 0)),
            decreases file.items@.len() - k,
        {
            let ghost before = views(r@);
            r.push(self.format_item(&file.items[k], 0));
            assert(views(r@) =~= before.push(item_text(file.items@[k as int], 4, 0)));
            k = k + 1;
            assert(views(r@) =~= head + file.items@.subrange(0, k as int).map_values(|it: Item| item_text(it, 4, 0)));
        }
        assert(file.items@.subrange(0, k as int) =~= file.items@);
        assert(views(r@) =~= pieces_text(*file, 4));
        r
    }

    /// The edits that format a document's text: it is parsed, then
    /// written back in canonical layout (see [`format_answer`]).
    pub fn format(&self, text: &str) -> (r: Result<Vec<FormatEdit>, String>)
        requires
            self.indent_width() == 4,
        ensures
            exists|p: Result<LumosFile, LumosError>| #[trigger] file_answer(text@, p) && format_answer(text@, p, r),
    {
        let parsed = parse_lumos_file(text);
        self.format_parsed(text, parsed)
    }

    /// The edits that format a document, from how it parsed (see
    /// [`format_answer`]).
    pub fn format_parsed(&self, text: &str, parsed: Result<LumosFile, LumosError>) -> (r: Result<
        Vec<FormatEdit>,
        String,
    >)
        requires
            self.indent_width() == 4,
        ensures
            format_answer(text@, parsed, r),
    {
        let file = match parsed {
            Ok(f) => f,
            Err(e) => {
                return Err(e.to_display_string());
            },
        };
        let formatted = self.format_file(&file);
        if str_eq(text, formatted.as_str()) {
            return Ok(Vec::new());
        }
        let lines = lines_exec(text);
        let count = lines.len() as u32;
        let last = if lines.len() > 0 {
            lines[lines.len() - 1].len()
        } else {
            0
        };
        let mut edits: Vec<FormatEdit> = Vec::new();
        edits.push(
            FormatEdit {
                end_line: count.saturating_sub(1),
                end_character: last as u32,
                new_text: formatted,
            },
        );
        Ok(edits)
    }
}

impl Default for FormattingHandler {
    fn default() -> (r: Self)
        ensures
            r.indent_width() == 4,
    {
        FormattingHandler::new()
    }
}

} // verus!
