//! Resolving `use` paths over a loaded tree of schema modules: `crate::`,
//! `super::`, `self::` and child-module segments, and checking that the
//! imported type exists and may be imported.
//!
//! Modules are numbered; a module knows its display path, its parent, its
//! child modules by name, the types it declares with their visibility, and
//! its `use` statements. The caller reads the files: for each `mod name;`
//! it tries the two candidate files ([`module_file_candidates`]), asks a
//! [`ModuleLoadTracker`] whether the file is loaded, being loaded (a
//! circular dependency) or to be loaded, adds the module
//! ([`ModuleResolver::add_module`]) and links it to its parent
//! ([`ModuleResolver::link_child`]). The loaded tree is then checked and
//! lowered as one schema ([`ModuleResolver::resolve_module_tree`]).

use vstd::prelude::*;
use crate::error::LumosError;
pub use crate::ast::{PathSegment, UsePath};
use crate::ast::{Item, LumosFile};
use crate::file_resolver::{files_answer, resolve_files};
use crate::ir::TypeDefinition;
use crate::file_resolver::{chain_text, file_name_text, last_index_of, LoadStart};
use crate::text::{copy_string, join_strings, str_eq, to_string, views};

verus! {

/// A declared type of a module: its name and whether it is public.
#[derive(Debug, Clone)]
pub struct DeclaredType {
    /// Type name.
    pub name: String,
    /// Whether it is public.
    pub public: bool,
}

/// A loaded module.
#[derive(Debug, Clone)]
pub struct ModuleNode {
    /// Module name (empty for the root).
    pub name: String,
    /// The module's file, as displayed in messages.
    pub file_path: String,
    /// Child modules: name and module number.
    pub children: Vec<(String, usize)>,
    /// The parent module, if any.
    pub parent: Option<usize>,
    /// The structs, enums and aliases declared, in order.
    pub types: Vec<DeclaredType>,
    /// The `use` statements, in order.
    pub uses: Vec<UsePath>,
}

/// A loaded module tree.
#[derive(Debug, Clone)]
pub struct ModuleResolver {
    /// The modules, by number.
    pub modules: Vec<ModuleNode>,
    /// The root module.
    pub root: usize,
}

/// The text of a path segment.
pub open spec fn segment_text(s: PathSegment) -> Seq<char> {
    match s {
        PathSegment::Crate => "crate"@,
        PathSegment::Super => "super"@,
        PathSegment::SelfPath => "self"@,
        PathSegment::Ident(n) => n@,
    }
}

/// A path written with `::` between its segments.
pub open spec fn path_text(segs: Seq<PathSegment>) -> Seq<char>
    decreases segs.len(),
{
    if segs.len() == 0 {
        Seq::empty()
    } else if segs.len() == 1 {
        segment_text(segs[0])
    } else {
        path_text(segs.drop_last()) + "::"@ + segment_text(segs.last())
    }
}

/// The imported name: the last segment, when it is a name.
pub open spec fn final_ident(segs: Seq<PathSegment>) -> Option<Seq<char>> {
    if segs.len() > 0 {
        match segs.last() {
            PathSegment::Ident(n) => Some(n@),
            _ => None,
        }
    } else {
        None
    }
}

/// Whether module numbers in the tree all name modules.
pub open spec fn tree_ok(r: ModuleResolver) -> bool {
    &&& r.root < r.modules@.len()
    &&& links_ok(r)
}

/// Whether every child and parent number of the tree names a module.
pub open spec fn links_ok(r: ModuleResolver) -> bool {
    &&& forall|m: int, c: int|
        0 <= m < r.modules@.len() && 0 <= c < r.modules@[m].children@.len() ==> (
        #[trigger] r.modules@[m].children@[c]).1 < r.modules@.len()
    &&& forall|m: int|
        0 <= m < r.modules@.len() ==> match (#[trigger] r.modules@[m]).parent {
            Some(p) => p < r.modules@.len(),
            None => true,
        }
}

/// The first child of module `m` named `n`, from position `k` on.
pub open spec fn child_named(children: Seq<(String, usize)>, n: Seq<char>, k: int) -> Option<usize>
    decreases children.len() - k,
{
    if k < 0 || k >= children.len() {
        None
    } else if children[k].0@ == n {
        Some(children[k].1)
    } else {
        child_named(children, n, k + 1)
    }
}

/// Following the segments after the first from module `t`: names of child
/// modules descend, `super` goes up, and the first name that is no child
/// module ends the walk (it names the type).
pub open spec fn walk(r: ModuleResolver, t: int, segs: Seq<PathSegment>, i: int) -> Result<
    int,
    Seq<char>,
>
    decreases segs.len() - i,
{
    if i < 0 || i >= segs.len() {
        Ok(t)
    } else {
        match segs[i] {
            PathSegment::Ident(n) => match child_named(r.modules@[t].children@, n@, 0) {
                Some(c) => walk(r, c as int, segs, i + 1),
                None => Ok(t),
            },
            PathSegment::Super => match r.modules@[t].parent {
                Some(p) => walk(r, p as int, segs, i + 1),
                None => Err(
                    "Cannot use 'super' - module '"@ + r.modules@[t].file_path@ + "' has no parent"@,
                ),
            },
            PathSegment::Crate => Err("'crate' can only appear at the start of a path"@),
            PathSegment::SelfPath => Err("'self' can only appear at the start of a path"@),
        }
    }
}

/// The module a `use` path from module `cur`, from segment `i` on, leads
/// to: `crate` starts at the root, `super` at the parent, `self` here; a
/// leading name of a child module descends into it and any other leading
/// name stays here.
pub open spec fn resolve_path(r: ModuleResolver, cur: int, segs: Seq<PathSegment>, i: int) -> Result<
    int,
    Seq<char>,
>
    decreases segs.len() - i,
{
    if i < 0 || i >= segs.len() {
        Ok(cur)
    } else {
        match segs[i] {
            PathSegment::Crate => walk(r, r.root as int, segs, i + 1),
            PathSegment::Super => match r.modules@[cur].parent {
                Some(p) => walk(r, p as int, segs, i + 1),
                None => Err("Cannot use 'super' in root module"@),
            },
            PathSegment::SelfPath => walk(r, cur, segs, i + 1),
            PathSegment::Ident(n) => match child_named(r.modules@[cur].children@, n@, 0) {
                Some(c) => resolve_path(r, c as int, segs, i + 1),
                None => Ok(cur),
            },
        }
    }
}

/// The first declared type named `n` in `types`, from position `k` on.
pub open spec fn type_named(types: Seq<DeclaredType>, n: Seq<char>, k: int) -> Option<DeclaredType>
    decreases types.len() - k,
{
    if k < 0 || k >= types.len() {
        None
    } else if types[k].name@ == n {
        Some(types[k])
    } else {
        type_named(types, n, k + 1)
    }
}

/// What checking a `use` statement of module `cur` gives: the imported
/// type must be a name, its module must resolve, the type must be declared
/// there, and it must be public unless imported within its own module.
pub open spec fn use_check(r: ModuleResolver, cur: int, segs: Seq<PathSegment>) -> Result<
    (),
    Seq<char>,
> {
    match final_ident(segs) {
        None => Err("Invalid use path: "@ + path_text(segs)),
        Some(tn) => match resolve_path(r, cur, segs, 0) {
            Err(e) => Err(e),
            Ok(t) => match type_named(r.modules@[t].types@, tn, 0) {
                None => Err(
                    "Type '"@ + tn + "' not found in module '"@ + r.modules@[t].file_path@ + "'"@,
                ),
                Some(d) => if t != cur && !d.public {
                    Err(
                        "Type '"@ + tn + "' is private and cannot be imported from '"@
                            + r.modules@[t].file_path@ + "'"@,
                    )
                } else {
                    Ok(())
                },
            },
        },
    }
}

/// The first failing `use` statement of module `m` from statement `k` on,
/// and of the modules after `m`.
pub open spec fn uses_check(r: ModuleResolver, m: int, k: int) -> Result<(), Seq<char>>
    decreases r.modules@.len() - m, r.modules@[m].uses@.len() - k,
{
    if m < 0 || m >= r.modules@.len() {
        Ok(())
    } else if k < 0 || k >= r.modules@[m].uses@.len() {
        uses_check(r, m + 1, 0)
    } else {
        match use_check(r, m, r.modules@[m].uses@[k].segments@) {
            Err(e) => Err(e),
            Ok(_) => uses_check(r, m, k + 1),
        }
    }
}

fn find_child(children: &Vec<(String, usize)>, n: &String) -> (r: Option<usize>)
    ensures
        r == child_named(children@, n@, 0),
{
    let mut k: usize = 0;
    while k < children.len()
        invariant
            k <= children@.len(),
            child_named(children@, n@, 0) == child_named(children@, n@, k as int),
        decreases children@.len() - k,
    {
        if str_eq(children[k].0.as_str(), n.as_str()) {
            return Some(children[k].1);
        }
        k = k + 1;
    }
    None
}

fn find_type(types: &Vec<DeclaredType>, n: &String) -> (r: Option<usize>)
    ensures
        match r {
            Some(k) => k < types@.len() && type_named(types@, n@, 0) == Some(types@[k as int]),
            None => type_named(types@, n@, 0) is None,
        },
{
    let mut k: usize = 0;
    while k < types.len()
        invariant
            k <= types@.len(),
            type_named(types@, n@, 0) == type_named(types@, n@, k as int),
        decreases types@.len() - k,
    {
        if str_eq(types[k].name.as_str(), n.as_str()) {
            return Some(k);
        }
        k = k + 1;
    }
    None
}

impl UsePath {
    /// The path written with `::` between its segments.
    pub fn to_display_string(&self) -> (r: String)
        ensures
            r@ == path_text(self.segments@),
    {
        let mut r = String::new();
        let mut i: usize = 0;
        while i < self.segments.len()
            invariant
                i <= self.segments@.len(),
                r@ == path_text(self.segments@.subrange(0, i as int)),
            decreases self.segments@.len() - i,
        {
            let ghost pre = self.segments@.subrange(0, i as int);
            let ghost next = self.segments@.subrange(0, i + 1);
            assert(next.drop_last() =~= pre);
            if i > 0 {
                r.append("::");
            }
            match &self.segments[i] {
                PathSegment::Crate => r.append("crate"),
                PathSegment::Super => r.append("super"),
                PathSegment::SelfPath => r.append("self"),
                PathSegment::Ident(n) => r.append(n.as_str()),
            }
            proof {
                if i == 0 {
                    assert(r@ =~= path_text(next));
                }
            }
            i = i + 1;
        }
        assert(self.segments@.subrange(0, self.segments@.len() as int) =~= self.segments@);
        r
    }

    /// The imported name: the last segment, when it is a name.
    pub fn final_ident(&self) -> (r: Option<&String>)
        ensures
            match r {
                Some(n) => final_ident(self.segments@) == Some(n@),
                None => final_ident(self.segments@) is None,
            },
    {
        if self.segments.len() == 0 {
            return None;
        }
        match &self.segments[self.segments.len() - 1] {
            PathSegment::Ident(n) => Some(n),
            _ => None,
        }
    }
}

impl ModuleResolver {
    fn walk_from(&self, t: usize, segs: &Vec<PathSegment>, i: usize) -> (r: Result<usize, String>)
        requires
            tree_ok(*self),
            t < self.modules@.len(),
            i <= segs@.len(),
        ensures
            match r {
                Ok(m) => walk(*self, t as int, segs@, i as int) == Ok::<int, Seq<char>>(m as int)
                    && m < self.modules@.len(),
                Err(e) => walk(*self, t as int, segs@, i as int) == Err::<int, Seq<char>>(e@),
            },
        decreases segs@.len() - i,
    {
        if i >= segs.len() {
            return Ok(t);
        }
        match &segs[i] {
            PathSegment::Ident(n) => {
                match find_child(&self.modules[t].children, n) {
                    Some(c) => {
                        proof {
                            lemma_child_in_tree(*self, t as int, n@, 0);
                        }
                        self.walk_from(c, segs, i + 1)
                    },
                    None => Ok(t),
                }
            },
            PathSegment::Super => {
                match self.modules[t].parent {
                    Some(p) => self.walk_from(p, segs, i + 1),
                    None => {
                        let mut m = to_string("Cannot use 'super' - module '");
                        m.append(self.modules[t].file_path.as_str());
                        m.append("' has no parent");
                        Err(m)
                    },
                }
            },
            PathSegment::Crate => Err(to_string("'crate' can only appear at the start of a path")),
            PathSegment::SelfPath => Err(to_string("'self' can only appear at the start of a path")),
        }
    }

    fn resolve_from(&self, cur: usize, segs: &Vec<PathSegment>, i: usize) -> (r: Result<
        usize,
        String,
    >)
        requires
            tree_ok(*self),
            cur < self.modules@.len(),
            i <= segs@.len(),
        ensures
            match r {
                Ok(m) => resolve_path(*self, cur as int, segs@, i as int) == Ok::<int, Seq<char>>(
                    m as int,
                ) && m < self.modules@.len(),
                Err(e) => resolve_path(*self, cur as int, segs@, i as int) == Err::<
                    int,
                    Seq<char>,
                >(e@),
            },
        decreases segs@.len() - i,
    {
        if i >= segs.len() {
            return Ok(cur);
        }
        match &segs[i] {
            PathSegment::Crate => self.walk_from(self.root, segs, i + 1),
            PathSegment::Super => {
                match self.modules[cur].parent {
                    Some(p) => self.walk_from(p, segs, i + 1),
                    None => Err(to_string("Cannot use 'super' in root module")),
                }
            },
            PathSegment::SelfPath => self.walk_from(cur, segs, i + 1),
            PathSegment::Ident(n) => {
                match find_child(&self.modules[cur].children, n) {
                    Some(c) => {
                        proof {
                            lemma_child_in_tree(*self, cur as int, n@, 0);
                        }
                        self.resolve_from(c, segs, i + 1)
                    },
                    None => Ok(cur),
                }
            },
        }
    }

    /// The module that a `use` path written in module `current` leads to
    /// (the module holding the imported type).
    pub fn resolve_use_path(&self, current: usize, segments: &Vec<PathSegment>) -> (r: Result<
        usize,
        String,
    >)
        requires
            tree_ok(*self),
            current < self.modules@.len(),
        ensures
            match r {
                Ok(m) => resolve_path(*self, current as int, segments@, 0) == Ok::<
                    int,
                    Seq<char>,
                >(m as int) && m < self.modules@.len(),
                Err(e) => resolve_path(*self, current as int, segments@, 0) == Err::<
                    int,
                    Seq<char>,
                >(e@),
            },
    {
        self.resolve_from(current, segments, 0)
    }

    /// Checks one `use` statement of module `current`.
    pub fn validate_use_statement(&self, current: usize, use_path: &UsePath) -> (r: Result<
        (),
        String,
    >)
        requires
            tree_ok(*self),
            current < self.modules@.len(),
        ensures
            match r {
                Ok(_) => use_check(*self, current as int, use_path.segments@) == Ok::<
                    (),
                    Seq<char>,
                >(()),
                Err(e) => use_check(*self, current as int, use_path.segments@) == Err::<
                    (),
                    Seq<char>,
                >(e@),
            },
    {
        let imported = match use_path.final_ident() {
            Some(n) => copy_string(n),
            None => {
                let mut m = to_string("Invalid use path: ");
                let p = use_path.to_display_string();
                m.append(p.as_str());
                return Err(m);
            },
        };
        let target = match self.resolve_use_path(current, &use_path.segments) {
            Ok(t) => t,
            Err(e) => {
                return Err(e);
            },
        };
        let module = &self.modules[target];
        match find_type(&module.types, &imported) {
            None => {
                let mut m = to_string("Type '");
                m.append(imported.as_str());
                m.append("' not found in module '");
                m.append(module.file_path.as_str());
                m.append("'");
                Err(m)
            },
            Some(k) => {
                if target != current && !module.types[k].public {
                    let mut m = to_string("Type '");
                    m.append(imported.as_str());
                    m.append("' is private and cannot be imported from '");
                    m.append(module.file_path.as_str());
                    m.append("'");
                    Err(m)
                } else {
                    Ok(())
                }
            },
        }
    }

    /// Checks every `use` statement, module by module; the first failure
    /// is reported.
    pub fn validate_use_statements(&self) -> (r: Result<(), String>)
        requires
            tree_ok(*self),
        ensures
            match r {
                Ok(_) => uses_check(*self, 0, 0) == Ok::<(), Seq<char>>(()),
                Err(e) => uses_check(*self, 0, 0) == Err::<(), Seq<char>>(e@),
            },
    {
        let mut m: usize = 0;
        while m < self.modules.len()
            invariant
                tree_ok(*self),
                m <= self.modules@.len(),
                uses_check(*self, 0, 0) == uses_check(*self, m as int, 0),
            decreases self.modules@.len() - m,
        {
            let mut k: usize = 0;
            while k < self.modules[m].uses.len()
                invariant
                    tree_ok(*self),
                    m < self.modules@.len(),
                    k <= self.modules@[m as int].uses@.len(),
                    uses_check(*self, 0, 0) == uses_check(*self, m as int, k as int),
                decreases self.modules@[m as int].uses@.len() - k,
            {
                match self.validate_use_statement(m, &self.modules[m].uses[k]) {
                    Err(e) => {
                        return Err(e);
                    },
                    Ok(_) => {},
                }
                k = k + 1;
            }
            m = m + 1;
        }
        Ok(())
    }

    /// The files of the loaded modules, in module order.
    pub fn loaded_modules(&self) -> (r: Vec<String>)
        ensures
            views(r@) == self.modules@.map_values(|m: ModuleNode| m.file_path@),
    {
        let mut r: Vec<String> = Vec::new();
        let mut k: usize = 0;
        while k < self.modules.len()
            invariant
                k <= self.modules@.len(),
                views(r@) == self.modules@.take(k as int).map_values(|m: ModuleNode| m.file_path@),
            decreases self.modules@.len() - k,
        {
            let ghost prev = r@;
            r.push(copy_string(&self.modules[k].file_path));
            assert(self.modules@.take(k + 1) =~= self.modules@.take(k as int).push(self.modules@[k as int]));
            assert(views(r@) =~= views(prev).push(self.modules@[k as int].file_path@));
            k = k + 1;
            assert(views(r@) =~= self.modules@.take(k as int).map_values(|m: ModuleNode| m.file_path@));
        }
        assert(self.modules@.take(k as int) =~= self.modules@);
        r
    }

    /// The root module, the top of the tree.
    pub fn module_tree(&self) -> (r: Option<&ModuleNode>)
        ensures
            match r {
                Some(m) => self.root < self.modules@.len() && *m == self.modules@[self.root as int],
                None => self.root >= self.modules@.len(),
            },
    {
        if self.root < self.modules.len() {
            Some(&self.modules[self.root])
        } else {
            None
        }
    }
}

proof fn lemma_child_in_tree(r: ModuleResolver, m: int, n: Seq<char>, k: int)
    requires
        tree_ok(r),
        0 <= m < r.modules@.len(),
        0 <= k,
    ensures
        match child_named(r.modules@[m].children@, n, k) {
            Some(c) => c < r.modules@.len(),
            None => true,
        },
    decreases r.modules@[m].children@.len() - k,
{
    let ch = r.modules@[m].children@;
    if k < ch.len() {
        assert(ch[k].1 < r.modules@.len());
        if ch[k].0@ != n {
            lemma_child_in_tree(r, m, n, k + 1);
        }
    }
}


/// The two files a module declaration `mod name;` in directory `dir` may
/// stand in: the sibling file `dir/name.lumos` (preferred) and the
/// directory module `dir/name/mod.lumos`.
pub fn module_file_candidates(dir: &String, name: &String) -> (r: (String, String))
    ensures
        r.0@ == dir@ + "/"@ + name@ + ".lumos"@,
        r.1@ == dir@ + "/"@ + name@ + "/mod.lumos"@,
{
    let mut a = copy_string(dir);
    a.append("/");
    a.append(name.as_str());
    let mut b = copy_string(&a);
    a.append(".lumos");
    b.append("/mod.lumos");
    (a, b)
}

/// The message for a module declaration that names no file.
pub open spec fn module_not_found_message(name: Seq<char>, sibling: Seq<char>, dir_module: Seq<char>) -> Seq<
    char,
> {
    "Module '"@ + name + "' not found. Tried:\n  - "@ + sibling + "\n  - "@ + dir_module
}

/// The message for a module declaration `mod name;` whose two candidate
/// files do not exist.
pub fn module_not_found(name: &String, sibling: &String, dir_module: &String) -> (r: LumosError)
    ensures
        r matches LumosError::SchemaParse(m) && m@ == module_not_found_message(name@, sibling@, dir_module@),
{
    let mut m = to_string("Module '");
    m.append(name.as_str());
    m.append("' not found. Tried:\n  - ");
    m.append(sibling.as_str());
    m.append("\n  - ");
    m.append(dir_module.as_str());
    LumosError::SchemaParse(m)
}

/// The types an item list declares (structs, enums and aliases), as name
/// and whether public, in order.
pub open spec fn declared_of(items: Seq<Item>) -> Seq<(Seq<char>, bool)> {
    items.map_values(|it: Item| declared_one(it))
}

/// The type an item declares, as name and whether public.
pub open spec fn declared_one(it: Item) -> (Seq<char>, bool) {
    match it {
        Item::Struct(s) => (s.name@, s.public),
        Item::Enum(e) => (e.name@, e.public),
        Item::TypeAlias(a) => (a.name@, a.public),
    }
}

/// The declared types of a module, as name and whether public.
pub open spec fn type_views(ts: Seq<DeclaredType>) -> Seq<(Seq<char>, bool)> {
    ts.map_values(|t: DeclaredType| (t.name@, t.public))
}

/// The paths of a list of `use` statements.
pub open spec fn use_paths(us: Seq<UsePath>) -> Seq<Seq<PathSegment>> {
    us.map_values(|u: UsePath| u.segments@)
}

/// Whether `n` is the module node of file `file`, read from `file_path`,
/// named `name`, under `parent`, before any child is linked.
pub open spec fn node_of_file(
    n: ModuleNode,
    name: Seq<char>,
    file_path: Seq<char>,
    parent: Option<usize>,
    file: LumosFile,
) -> bool {
    &&& n.name@ == name
    &&& n.file_path@ == file_path
    &&& n.parent == parent
    &&& n.children@.len() == 0
    &&& type_views(n.types@) == declared_of(file.items@)
    &&& use_paths(n.uses@) == use_paths(file.uses@)
}

fn declared_types(items: &Vec<Item>) -> (r: Vec<DeclaredType>)
    ensures
        type_views(r@) == declared_of(items@),
{
    let mut r: Vec<DeclaredType> = Vec::new();
    let mut i: usize = 0;
    while i < items.len()
        invariant
            i <= items@.len(),
            type_views(r@) == declared_of(items@.subrange(0, i as int)),
        decreases items@.len() - i,
    {
        let ghost prev = r@;
        let t = match &items[i] {
            Item::Struct(s) => DeclaredType { name: copy_string(&s.name), public: s.public },
            Item::Enum(e) => DeclaredType { name: copy_string(&e.name), public: e.public },
            Item::TypeAlias(a) => DeclaredType { name: copy_string(&a.name), public: a.public },
        };
        assert((t.name@, t.public) == declared_one(items@[i as int]));
        r.push(t);
        assert(type_views(r@) =~= type_views(prev).push((t.name@, t.public)));
        assert(declared_of(items@.subrange(0, i + 1)) =~= declared_of(items@.subrange(0, i as int)).push(
            declared_one(items@[i as int]),
        ));
        i = i + 1;
    }
    assert(items@.subrange(0, items@.len() as int) =~= items@);
    r
}

fn copy_segments(v: &Vec<PathSegment>) -> (r: Vec<PathSegment>)
    ensures
        r@ == v@,
{
    let mut r: Vec<PathSegment> = Vec::new();
    let mut i: usize = 0;
    while i < v.len()
        invariant
            i <= v@.len(),
            r@ == v@.subrange(0, i as int),
        decreases v@.len() - i,
    {
        let seg = match &v[i] {
            PathSegment::Crate => PathSegment::Crate,
            PathSegment::Super => PathSegment::Super,
            PathSegment::SelfPath => PathSegment::SelfPath,
            PathSegment::Ident(n) => PathSegment::Ident(copy_string(n)),
        };
        r.push(seg);
        i = i + 1;
        assert(r@ =~= v@.subrange(0, i as int));
    }
    assert(v@.subrange(0, v@.len() as int) =~= v@);
    r
}

fn copy_uses(us: &Vec<UsePath>) -> (r: Vec<UsePath>)
    ensures
        use_paths(r@) == use_paths(us@),
{
    let mut r: Vec<UsePath> = Vec::new();
    let mut i: usize = 0;
    while i < us.len()
        invariant
            i <= us@.len(),
            use_paths(r@) == use_paths(us@.subrange(0, i as int)),
        decreases us@.len() - i,
    {
        let ghost prev = r@;
        let u = UsePath { segments: copy_segments(&us[i].segments) };
        r.push(u);
        assert(use_paths(r@) =~= use_paths(prev).push(us@[i as int].segments@));
        assert(use_paths(us@.subrange(0, i + 1)) =~= use_paths(us@.subrange(0, i as int)).push(
            us@[i as int].segments@,
        ));
        i = i + 1;
    }
    assert(us@.subrange(0, us@.len() as int) =~= us@);
    r
}

/// The first module, from position `k` on, read from `path`.
pub open spec fn module_index(ms: Seq<ModuleNode>, path: Seq<char>, k: int) -> Option<usize>
    decreases ms.len() - k,
{
    if k < 0 || k >= ms.len() {
        None
    } else if ms[k].file_path@ == path {
        Some(k as usize)
    } else {
        module_index(ms, path, k + 1)
    }
}

impl ModuleResolver {
    /// A tree with no module yet; the first module added is the root.
    pub fn new() -> (r: Self)
        ensures
            r.modules@.len() == 0,
            r.root == 0,
            links_ok(r),
    {
        ModuleResolver { modules: Vec::new(), root: 0 }
    }

    /// Adds the module read from `file_path`, with its parsed file, under
    /// `parent`; its number is returned. Its children are linked
    /// afterwards, with [`ModuleResolver::link_child`].
    pub fn add_module(&mut self, name: String, file_path: String, parent: Option<usize>, file: &LumosFile) -> (r: usize)
        requires
            links_ok(*old(self)),
            parent matches Some(p) ==> p < old(self).modules@.len(),
            old(self).modules@.len() < usize::MAX,
        ensures
            links_ok(*final(self)),
            final(self).root == old(self).root,
            r == old(self).modules@.len(),
            final(self).modules@.len() == old(self).modules@.len() + 1,
            forall|i: int| 0 <= i < old(self).modules@.len() ==> final(self).modules@[i] == old(self).modules@[i],
            node_of_file(final(self).modules@[r as int], name@, file_path@, parent, *file),
    {
        let node = ModuleNode {
            name,
            file_path,
            children: Vec::new(),
            parent,
            types: declared_types(&file.items),
            uses: copy_uses(&file.uses),
        };
        let r = self.modules.len();
        self.modules.push(node);
        r
    }

    /// Links module `child` under `parent` as the child module `name`.
    pub fn link_child(&mut self, parent: usize, name: String, child: usize)
        requires
            links_ok(*old(self)),
            parent < old(self).modules@.len(),
            child < old(self).modules@.len(),
        ensures
            links_ok(*final(self)),
            final(self).root == old(self).root,
            final(self).modules@.len() == old(self).modules@.len(),
            forall|i: int|
                0 <= i < old(self).modules@.len() && i != parent ==> final(self).modules@[i] == old(
                    self,
                ).modules@[i],
            final(self).modules@[parent as int].children@ == old(self).modules@[parent as int].children@.push(
                (name, child),
            ),
            final(self).modules@[parent as int].name == old(self).modules@[parent as int].name,
            final(self).modules@[parent as int].file_path == old(self).modules@[parent as int].file_path,
            final(self).modules@[parent as int].parent == old(self).modules@[parent as int].parent,
            final(self).modules@[parent as int].types == old(self).modules@[parent as int].types,
            final(self).modules@[parent as int].uses == old(self).modules@[parent as int].uses,
    {
        self.modules[parent].children.push((name, child));
    }

    /// The module read from `path`, if one was added.
    pub fn find_module(&self, path: &String) -> (r: Option<usize>)
        ensures
            r == module_index(self.modules@, path@, 0),
    {
        let mut k: usize = 0;
        while k < self.modules.len()
            invariant
                k <= self.modules@.len(),
                module_index(self.modules@, path@, 0) == module_index(self.modules@, path@, k as int),
            decreases self.modules@.len() - k,
        {
            if str_eq(self.modules[k].file_path.as_str(), path.as_str()) {
                return Some(k);
            }
            k = k + 1;
        }
        None
    }

    /// Lowers a loaded module tree: every `use` statement is checked first
    /// (the first failure is reported), then the modules' files, given in
    /// module order, are lowered together as one schema (see
    /// [`files_answer`]).
    pub fn resolve_module_tree(&self, files: &Vec<(String, LumosFile)>) -> (r: Result<
        Vec<TypeDefinition>,
        LumosError,
    >)
        requires
            tree_ok(*self),
            files@.len() == self.modules@.len(),
            forall|i: int| 0 <= i < files@.len() ==> (#[trigger] files@[i]).0@ == self.modules@[i].file_path@,
        ensures
            match uses_check(*self, 0, 0) {
                Err(m) => r matches Err(LumosError::SchemaParse(e)) && e@ == m,
                Ok(_) => files_answer(files@, r),
            },
    {
        match self.validate_use_statements() {
            Err(m) => Err(LumosError::SchemaParse(m)),
            Ok(()) => resolve_files(files),
        }
    }
}

/// The message for a module that depends on itself through `stack`.
pub open spec fn circular_module_message(stack: Seq<Seq<char>>, p: Seq<char>) -> Seq<char> {
    "Circular module dependency detected: "@ + chain_text(stack) + " -> "@ + p
}

/// The last component of a path: what follows its last `/`.
pub open spec fn last_component(p: Seq<char>) -> Seq<char> {
    p.subrange(last_index_of(p, '/') + 1, p.len() as int)
}

/// The stem of a canonical path (as `Path::file_stem` gives it): its last
/// component without the extension after its last `.` (a leading `.` is no
/// extension), empty when there is no file name.
pub open spec fn file_stem_text(p: Seq<char>) -> Seq<char> {
    let name = last_component(p);
    if name.len() == 0 || name == ".."@ {
        Seq::empty()
    } else {
        let d = last_index_of(name, '.');
        if d <= 0 {
            name
        } else {
            name.take(d)
        }
    }
}

/// The name of the module loaded from `path`: empty for the root module,
/// else the stem of its file name.
pub open spec fn module_name_text(path: Seq<char>, root: Seq<char>) -> Seq<char> {
    if path == root {
        Seq::empty()
    } else {
        file_stem_text(path)
    }
}

fn last_index_exec(s: &Vec<char>, c: char) -> (r: Option<usize>)
    ensures
        match r {
            Some(k) => k as int == last_index_of(s@, c) && k < s.len(),
            None => last_index_of(s@, c) == -1,
        },
{
    let mut k: usize = s.len();
    assert(s@.take(k as int) =~= s@);
    while k > 0
        invariant
            k <= s@.len(),
            last_index_of(s@, c) == last_index_of(s@.take(k as int), c),
        decreases k,
    {
        proof {
            assert(s@.take(k as int).drop_last() =~= s@.take(k - 1));
        }
        if s[k - 1] == c {
            return Some(k - 1);
        }
        k = k - 1;
    }
    None
}

/// The name of the module loaded from `path` when the root module was
/// loaded from `root`.
pub fn module_name_for(path: &String, root: &String) -> (r: String)
    ensures
        r@ == module_name_text(path@, root@),
{
    if str_eq(path.as_str(), root.as_str()) {
        return String::new();
    }
    let cs = crate::text::chars_of(path.as_str());
    let start = match last_index_exec(&cs, '/') {
        Some(k) => k + 1,
        None => 0,
    };
    let name = crate::text::slice_range(cs.as_slice(), start, cs.len());
    assert(name@ =~= last_component(path@));
    if name.len() == 0 || (name.len() == 2 && name[0] == '.' && name[1] == '.') {
        proof {
            reveal_strlit("..");
            if name@.len() == 2 && name@[0] == '.' && name@[1] == '.' {
                assert(name@ =~= ".."@);
            }
        }
        return String::new();
    }
    proof {
        reveal_strlit("..");
        if name@ == ".."@ {
            assert(name@.len() == 2 && name@[0] == '.' && name@[1] == '.');
        }
    }
    let stem = match last_index_exec(&name, '.') {
        Some(d) => {
            if d == 0 {
                crate::text::slice_range(name.as_slice(), 0, name.len())
            } else {
                crate::text::slice_range(name.as_slice(), 0, d)
            }
        },
        None => crate::text::slice_range(name.as_slice(), 0, name.len()),
    };
    assert(stem@ =~= file_stem_text(path@));
    crate::text::string_from_chars(stem.as_slice())
}

/// The modules loaded and being loaded, by canonical path.
pub struct ModuleLoadTracker {
    loaded: Vec<String>,
    loading_stack: Vec<String>,
}

impl ModuleLoadTracker {
    /// The paths of the modules loaded, in the order their loading finished.
    pub closed spec fn loaded_paths(&self) -> Seq<Seq<char>> {
        views(self.loaded@)
    }

    /// The paths of the modules being loaded, outermost first.
    pub closed spec fn stack(&self) -> Seq<Seq<char>> {
        views(self.loading_stack@)
    }

    /// Nothing loaded.
    pub fn new() -> (r: Self)
        ensures
            r.loaded_paths().len() == 0,
            r.stack().len() == 0,
    {
        ModuleLoadTracker { loaded: Vec::new(), loading_stack: Vec::new() }
    }

    fn in_list(v: &Vec<String>, path: &String) -> (r: bool)
        ensures
            r == views(v@).contains(path@),
    {
        let mut k: usize = 0;
        while k < v.len()
            invariant
                k <= v@.len(),
                forall|j: int| 0 <= j < k ==> (#[trigger] v@[j])@ != path@,
            decreases v@.len() - k,
        {
            if str_eq(v[k].as_str(), path.as_str()) {
                assert(views(v@)[k as int] == path@);
                return true;
            }
            k = k + 1;
        }
        false
    }

    /// Asks for the module at canonical path `path`: it is loaded already,
    /// or it is being loaded (a circular dependency, with the chain of
    /// modules that leads to it), or it is to be loaded now and goes on the
    /// stack.
    pub fn start_loading(&mut self, path: &String) -> (r: LoadStart)
        ensures
            old(self).loaded_paths().contains(path@) ==> r is Cached && *final(self) == *old(self),
            !old(self).loaded_paths().contains(path@) && old(self).stack().contains(path@)
                ==> *final(self) == *old(self) && (r matches LoadStart::Circular(
                LumosError::SchemaParse(m),
            ) && m@ == circular_module_message(old(self).stack(), path@)),
            !old(self).loaded_paths().contains(path@) && !old(self).stack().contains(path@)
                ==> r is Load && final(self).loaded_paths() == old(self).loaded_paths()
                && final(self).stack() == old(self).stack().push(path@),
    {
        if Self::in_list(&self.loaded, path) {
            return LoadStart::Cached;
        }
        if Self::in_list(&self.loading_stack, path) {
            let mut m = to_string("Circular module dependency detected: ");
            m.append(self.format_loading_chain().as_str());
            m.append(" -> ");
            m.append(path.as_str());
            return LoadStart::Circular(LumosError::SchemaParse(m));
        }
        let ghost before = self.stack();
        self.loading_stack.push(path.clone());
        assert(self.stack() =~= before.push(path@));
        LoadStart::Load
    }

    /// Records that the module at `path` is loaded: it leaves the stack and
    /// joins the loaded modules.
    pub fn finish_loading(&mut self, path: String)
        ensures
            final(self).stack() == if old(self).stack().len() > 0 {
                old(self).stack().drop_last()
            } else {
                old(self).stack()
            },
            final(self).loaded_paths() == if old(self).loaded_paths().contains(path@) {
                old(self).loaded_paths()
            } else {
                old(self).loaded_paths().push(path@)
            },
    {
        let ghost before = self.stack();
        let _ = self.loading_stack.pop();
        assert(self.stack() =~= if before.len() > 0 {
            before.drop_last()
        } else {
            before
        });
        if !Self::in_list(&self.loaded, &path) {
            let ghost prev = self.loaded_paths();
            self.loaded.push(path);
            assert(self.loaded_paths() =~= prev.push(self.loaded@.last()@));
        }
    }

    /// The modules being loaded, by file name, joined with arrows.
    pub fn format_loading_chain(&self) -> (r: String)
        ensures
            r@ == chain_text(self.stack()),
    {
        let mut names: Vec<String> = Vec::new();
        let mut k: usize = 0;
        while k < self.loading_stack.len()
            invariant
                k <= self.loading_stack@.len(),
                views(names@) == self.stack().take(k as int).map_values(
                    |p: Seq<char>| file_name_text(p),
                ),
            decreases self.loading_stack@.len() - k,
        {
            let ghost prev = names@;
            names.push(crate::file_resolver::file_name_of(&self.loading_stack[k]));
            assert(self.stack().take(k + 1) =~= self.stack().take(k as int).push(self.stack()[k as int]));
            assert(views(names@) =~= views(prev).push(file_name_text(self.stack()[k as int])));
            k = k + 1;
            assert(views(names@) =~= self.stack().take(k as int).map_values(
                |p: Seq<char>| file_name_text(p),
            ));
        }
        assert(self.stack().take(k as int) =~= self.stack());
        join_strings(&names, " -> ")
    }
}

} // verus!
