//! Schemas spread over several files that import each other: the record of
//! the files loaded and of those being loaded (which tells a circular import
//! apart), the check that every imported type is defined, and the lowering of
//! all loaded files together. Reading files and canonicalizing their paths is
//! left to the caller, which asks `start_loading` before reading a file and
//! hands the parsed file to `finish_loading` once its imports are loaded.

use vstd::prelude::*;
use crate::ast::{copy_type_spec, item_name, Import, Item, LumosFile};
use crate::error::LumosError;
use crate::ir::{TypeDefinition, TypeInfo};
use crate::transform::{
    alias_entries, circular_message, first_duplicate, first_unresolved, has_cycle, is_alias,
    item_ir, lemma_all_resolved, lemma_duplicate_persists, lookup, lowered, resolved_for,
    transform_enum, transform_struct, transform_type_alias, validate_user_defined_types,
    duplicate_message, TypeAliasResolver,
};
use crate::text::{join, join_strings, to_string, views};

verus! {

/// The last position of `c` in `s`, or -1.
pub open spec fn last_index_of(s: Seq<char>, c: char) -> int
    decreases s.len(),
{
    if s.len() == 0 {
        -1
    } else if s.last() == c {
        s.len() - 1
    } else {
        last_index_of(s.drop_last(), c)
    }
}

proof fn lemma_last_index_of(s: Seq<char>, c: char)
    ensures
        -1 <= last_index_of(s, c) < s.len(),
    decreases s.len(),
{
    if s.len() > 0 && s.last() != c {
        lemma_last_index_of(s.drop_last(), c);
    }
}

/// The last component of a canonical path: what follows its last `/`, or
/// `unknown` where that is empty or `..`.
pub open spec fn file_name_text(p: Seq<char>) -> Seq<char> {
    let name = p.subrange(last_index_of(p, '/') + 1, p.len() as int);
    if name.len() == 0 || name == ".."@ {
        "unknown"@
    } else {
        name
    }
}

/// The chain of files being loaded, by file name, joined with arrows.
pub open spec fn chain_text(stack: Seq<Seq<char>>) -> Seq<char> {
    join(stack.map_values(|p: Seq<char>| file_name_text(p)), " -> "@)
}

/// The message for a file that imports itself through `stack`.
pub open spec fn circular_import_message(stack: Seq<Seq<char>>, p: Seq<char>) -> Seq<char> {
    "Circular import detected: "@ + chain_text(stack) + " -> "@ + p
}

/// What to do about a file asked for.
#[derive(Debug)]
pub enum LoadStart {
    /// It is loaded already.
    Cached,
    /// Read it, load its imports, then finish it.
    Load,
    /// It is being loaded: the imports go round in a circle.
    Circular(LumosError),
}

/// The files of a multi-file schema, loaded and being loaded.
pub struct FileResolver {
    loaded: Vec<(String, LumosFile)>,
    loading_stack: Vec<String>,
}

/// The position of the file loaded from `p`, or -1.
pub open spec fn loaded_index(loaded: Seq<(String, LumosFile)>, p: Seq<char>) -> int
    decreases loaded.len(),
{
    if loaded.len() == 0 {
        -1
    } else if loaded.last().0@ == p {
        loaded.len() - 1
    } else {
        loaded_index(loaded.drop_last(), p)
    }
}

proof fn lemma_loaded_index(loaded: Seq<(String, LumosFile)>, p: Seq<char>)
    ensures
        -1 <= loaded_index(loaded, p) < loaded.len(),
        loaded_index(loaded, p) >= 0 ==> loaded[loaded_index(loaded, p)].0@ == p,
        loaded_index(loaded, p) < 0 ==> forall|k: int| 0 <= k < loaded.len() ==> loaded[k].0@ != p,
    decreases loaded.len(),
{
    if loaded.len() > 0 && loaded.last().0@ != p {
        lemma_loaded_index(loaded.drop_last(), p);
        assert(forall|k: int| 0 <= k < loaded.len() - 1 ==> loaded.drop_last()[k] == loaded[k]);
    }
}

pub(crate) fn file_name_of(p: &String) -> (r: String)
    ensures
        r@ == file_name_text(p@),
{
    let cs = crate::text::chars_of(p.as_str());
    let mut k: usize = cs.len();
    let mut start: usize = 0;
    let mut found = false;
    assert(p@.take(cs@.len() as int) =~= p@);
    while k > 0 && !found
        invariant
            k <= cs@.len(),
            start <= cs@.len(),
            !found ==> start == 0,
            cs@ == p@,
            !found ==> last_index_of(p@, '/') == last_index_of(p@.take(k as int), '/'),
            found ==> start >= 1 && start - 1 == last_index_of(p@, '/'),
        decreases k,
    {
        proof {
            assert(p@.take(k as int).drop_last() =~= p@.take(k - 1));
        }
        if cs[k - 1] == '/' {
            start = k;
            found = true;
        }
        k = k - 1;
    }
    proof {
        lemma_last_index_of(p@, '/');
        if !found {
            assert(p@.take(0) =~= Seq::<char>::empty());
        }
    }
    assert(start as int == last_index_of(p@, '/') + 1);
    let tail = crate::text::slice_range(&cs, start, cs.len());
    let name = crate::text::string_from_chars(tail.as_slice());
    assert(tail@ == p@.subrange(start as int, p@.len() as int));
    assert(name@ =~= p@.subrange(last_index_of(p@, '/') + 1, p@.len() as int));
    if name.as_str().unicode_len() == 0 || crate::text::str_eq(name.as_str(), "..") {
        to_string("unknown")
    } else {
        name
    }
}

/// The items of the loaded files, file after file.
pub open spec fn loaded_items(loaded: Seq<(String, LumosFile)>) -> Seq<Item>
    decreases loaded.len(),
{
    if loaded.len() == 0 {
        Seq::empty()
    } else {
        loaded_items(loaded.drop_last()) + loaded.last().1.items@
    }
}

proof fn lemma_loaded_items_step(loaded: Seq<(String, LumosFile)>, fi: int)
    requires
        0 <= fi < loaded.len(),
    ensures
        loaded_items(loaded.take(fi + 1)) == loaded_items(loaded.take(fi)) + loaded[fi].1.items@,
{
    assert(loaded.take(fi + 1).drop_last() =~= loaded.take(fi));
}

proof fn lemma_loaded_items_prefix(loaded: Seq<(String, LumosFile)>, j: int)
    requires
        0 <= j <= loaded.len(),
    ensures
        loaded_items(loaded.take(j)).len() <= loaded_items(loaded).len(),
        loaded_items(loaded).take(loaded_items(loaded.take(j)).len() as int) == loaded_items(
            loaded.take(j),
        ),
    decreases loaded.len(),
{
    if j == loaded.len() {
        assert(loaded.take(j) =~= loaded);
        assert(loaded_items(loaded).take(loaded_items(loaded).len() as int) =~= loaded_items(
            loaded,
        ));
    } else {
        let dl = loaded.drop_last();
        assert(loaded.take(j) =~= dl.take(j));
        lemma_loaded_items_prefix(dl, j);
        let p = loaded_items(dl.take(j));
        assert(loaded_items(loaded).take(p.len() as int) =~= loaded_items(dl).take(p.len() as int));
    }
}

proof fn lemma_item_at(loaded: Seq<(String, LumosFile)>, fi: int, k: int)
    requires
        0 <= fi < loaded.len(),
        0 <= k < loaded[fi].1.items@.len(),
    ensures
        loaded_items(loaded.take(fi)).len() + k < loaded_items(loaded).len(),
        loaded_items(loaded)[loaded_items(loaded.take(fi)).len() + k] == loaded[fi].1.items@[k],
{
    lemma_loaded_items_step(loaded, fi);
    lemma_loaded_items_prefix(loaded, fi + 1);
    let whole = loaded_items(loaded);
    let upto = loaded_items(loaded.take(fi + 1));
    assert(whole.take(upto.len() as int)[loaded_items(loaded.take(fi)).len() + k] == upto[loaded_items(
        loaded.take(fi),
    ).len() + k]);
}

proof fn lemma_resolved_at(res: Seq<(String, TypeInfo)>, items: Seq<Item>, i: int, j: int)
    requires
        0 <= i <= j < items.len(),
        first_unresolved(res, items, i) is None,
        items[j] is TypeAlias,
    ensures
        lookup(res, items[j]->TypeAlias_0.name@) is Some,
    decreases j - i,
{
    if i < j {
        lemma_resolved_at(res, items, i + 1, j);
    }
}

/// Whether some item of `all` defines `n`.
pub open spec fn defines(all: Seq<Item>, n: Seq<char>) -> bool {
    exists|j: int| 0 <= j < all.len() && item_name(#[trigger] all[j]) == n
}

/// The first name of import `imp` (from position `k` on) that `all` does
/// not define, with the file it is imported into and the path imported.
pub open spec fn missing_in_import(all: Seq<Item>, file: Seq<char>, imp: Import, k: int) -> Option<
    (Seq<char>, Seq<char>, Seq<char>),
>
    decreases imp.items@.len() - k,
{
    if 0 <= k < imp.items@.len() {
        if !defines(all, imp.items@[k]@) {
            Some((file, imp.items@[k]@, imp.path@))
        } else {
            missing_in_import(all, file, imp, k + 1)
        }
    } else {
        None
    }
}

/// The first undefined imported name of imports `imps` from position `i`
/// on.
pub open spec fn missing_in_imports(all: Seq<Item>, file: Seq<char>, imps: Seq<Import>, i: int) -> Option<
    (Seq<char>, Seq<char>, Seq<char>),
>
    decreases imps.len() - i,
{
    if 0 <= i < imps.len() {
        match missing_in_import(all, file, imps[i], 0) {
            Some(t) => Some(t),
            None => missing_in_imports(all, file, imps, i + 1),
        }
    } else {
        None
    }
}

/// The first undefined imported name of the loaded files from position
/// `f` on.
pub open spec fn missing_in_files(all: Seq<Item>, loaded: Seq<(String, LumosFile)>, f: int) -> Option<
    (Seq<char>, Seq<char>, Seq<char>),
>
    decreases loaded.len() - f,
{
    if 0 <= f < loaded.len() {
        match missing_in_imports(all, loaded[f].0@, loaded[f].1.imports@, 0) {
            Some(t) => Some(t),
            None => missing_in_files(all, loaded, f + 1),
        }
    } else {
        None
    }
}

/// The message for an imported name that no file defines.
pub open spec fn import_error_message(t: (Seq<char>, Seq<char>, Seq<char>)) -> Seq<char> {
    "Import error in '"@ + t.0 + "': type '"@ + t.1 + "' not found in '"@ + t.2 + "'"@
}

fn item_name_of(it: &Item) -> (r: String)
    ensures
        r@ == item_name(*it),
{
    match it {
        Item::Struct(s) => s.name.clone(),
        Item::Enum(e) => e.name.clone(),
        Item::TypeAlias(a) => a.name.clone(),
    }
}

fn names_contain(names: &Vec<String>, n: &String) -> (r: bool)
    ensures
        r == exists|j: int| 0 <= j < names@.len() && (#[trigger] names@[j])@ == n@,
{
    let mut k: usize = 0;
    while k < names.len()
        invariant
            k <= names@.len(),
            forall|j: int| 0 <= j < k ==> (#[trigger] names@[j])@ != n@,
        decreases names@.len() - k,
    {
        if crate::text::str_eq(names[k].as_str(), n.as_str()) {
            return true;
        }
        k = k + 1;
    }
    false
}

impl FileResolver {
    /// The files loaded, with the paths they were loaded from, in the order
    /// their loading finished.
    pub closed spec fn loaded_list(&self) -> Seq<(String, LumosFile)> {
        self.loaded@
    }

    /// The paths of the files being loaded, outermost first.
    pub closed spec fn stack(&self) -> Seq<Seq<char>> {
        views(self.loading_stack@)
    }

    /// A resolver with nothing loaded.
    pub fn new() -> (r: Self)
        ensures
            r.loaded_list().len() == 0,
            r.stack().len() == 0,
    {
        FileResolver { loaded: Vec::new(), loading_stack: Vec::new() }
    }

    fn find_loaded(&self, path: &String) -> (r: Option<usize>)
        ensures
            match r {
                Some(k) => k as int == loaded_index(self.loaded@, path@),
                None => loaded_index(self.loaded@, path@) < 0,
            },
    {
        let mut found: Option<usize> = None;
        let mut k: usize = 0;
        while k < self.loaded.len()
            invariant
                k <= self.loaded@.len(),
                match found {
                    Some(j) => j as int == loaded_index(self.loaded@.take(k as int), path@),
                    None => loaded_index(self.loaded@.take(k as int), path@) < 0,
                },
            decreases self.loaded@.len() - k,
        {
            proof {
                assert(self.loaded@.take(k + 1).drop_last() =~= self.loaded@.take(k as int));
            }
            if crate::text::str_eq(self.loaded[k].0.as_str(), path.as_str()) {
                found = Some(k);
            }
            k = k + 1;
        }
        assert(self.loaded@.take(k as int) =~= self.loaded@);
        found
    }

    /// Asks for the file at canonical path `path`: it is loaded already,
    /// or it is being loaded (a circular import, with the chain of files
    /// that leads to it), or it is to be loaded now and goes on the stack.
    pub fn start_loading(&mut self, path: &String) -> (r: LoadStart)
        ensures
            loaded_index(old(self).loaded_list(), path@) >= 0 ==> r is Cached && *final(self)
                == *old(self),
            loaded_index(old(self).loaded_list(), path@) < 0 && old(self).stack().contains(path@)
                ==> *final(self) == *old(self) && (r matches LoadStart::Circular(
                LumosError::SchemaParse(m),
            ) && m@ == circular_import_message(old(self).stack(), path@)),
            loaded_index(old(self).loaded_list(), path@) < 0 && !old(self).stack().contains(path@)
                ==> r is Load && final(self).loaded_list() == old(self).loaded_list()
                && final(self).stack() == old(self).stack().push(path@),
    {
        if self.find_loaded(path).is_some() {
            return LoadStart::Cached;
        }
        let mut k: usize = 0;
        while k < self.loading_stack.len()
            invariant
                k <= self.loading_stack@.len(),
                *self == *old(self),
                loaded_index(self.loaded@, path@) < 0,
                forall|j: int| 0 <= j < k ==> (#[trigger] self.loading_stack@[j])@ != path@,
            decreases self.loading_stack@.len() - k,
        {
            if crate::text::str_eq(self.loading_stack[k].as_str(), path.as_str()) {
                assert(self.stack()[k as int] == path@);
                let mut m = to_string("Circular import detected: ");
                m.append(self.format_import_chain().as_str());
                m.append(" -> ");
                m.append(path.as_str());
                return LoadStart::Circular(LumosError::SchemaParse(m));
            }
            k = k + 1;
        }
        assert(!self.stack().contains(path@));
        let ghost before = self.stack();
        self.loading_stack.push(path.clone());
        assert(self.stack() =~= before.push(path@));
        LoadStart::Load
    }

    /// Records the file loaded from `path` once its imports are loaded: it
    /// leaves the stack and joins the loaded files (replacing one loaded
    /// from the same path).
    pub fn finish_loading(&mut self, path: String, file: LumosFile)
        ensures
            final(self).stack() == if old(self).stack().len() > 0 {
                old(self).stack().drop_last()
            } else {
                old(self).stack()
            },
            loaded_index(old(self).loaded_list(), path@) >= 0 ==> final(self).loaded_list()
                == old(self).loaded_list().update(
                loaded_index(old(self).loaded_list(), path@),
                (path, file),
            ),
            loaded_index(old(self).loaded_list(), path@) < 0 ==> final(self).loaded_list()
                == old(self).loaded_list().push((path, file)),
    {
        let ghost before = self.stack();
        let _ = self.loading_stack.pop();
        assert(self.stack() =~= if before.len() > 0 {
            before.drop_last()
        } else {
            before
        });
        proof {
            lemma_loaded_index(self.loaded@, path@);
        }
        match self.find_loaded(&path) {
            Some(k) => {
                self.loaded.set(k, (path, file));
            },
            None => {
                self.loaded.push((path, file));
            },
        }
    }

    /// The paths of the loaded files, in the order their loading finished.
    pub fn loaded_files(&self) -> (r: Vec<String>)
        ensures
            views(r@) == self.loaded_list().map_values(|e: (String, LumosFile)| e.0@),
    {
        let mut r: Vec<String> = Vec::new();
        let mut k: usize = 0;
        while k < self.loaded.len()
            invariant
                k <= self.loaded@.len(),
                views(r@) == self.loaded@.take(k as int).map_values(|e: (String, LumosFile)| e.0@),
            decreases self.loaded@.len() - k,
        {
            let ghost prev = r@;
            r.push(self.loaded[k].0.clone());
            assert(self.loaded@.take(k + 1) =~= self.loaded@.take(k as int).push(self.loaded@[k as int]));
            assert(views(r@) =~= views(prev).push(self.loaded@[k as int].0@));
            k = k + 1;
            assert(views(r@) =~= self.loaded@.take(k as int).map_values(
                |e: (String, LumosFile)| e.0@,
            ));
        }
        assert(self.loaded@.take(k as int) =~= self.loaded@);
        r
    }

    /// Lowers all loaded files together, as one schema (see
    /// [`files_answer`]).
    pub fn resolve_loaded_files(&self) -> (r: Result<Vec<TypeDefinition>, LumosError>)
        ensures
            files_answer(self.loaded_list(), r),
    {
        resolve_files(&self.loaded)
    }

    fn defined_names(&self) -> (r: Vec<String>)
        ensures
            r@.len() == loaded_items(self.loaded@).len(),
            forall|j: int| 0 <= j < r@.len() ==> (#[trigger] r@[j])@ == item_name(
                loaded_items(self.loaded@)[j],
            ),
    {
        let ghost loaded = self.loaded@;
        let ghost all = loaded_items(loaded);
        let mut names: Vec<String> = Vec::new();
        let mut fi: usize = 0;
        let ghost mut pos: int = 0;
        while fi < self.loaded.len()
            invariant
                loaded == self.loaded@,
                all == loaded_items(loaded),
                fi <= loaded.len(),
                pos == loaded_items(loaded.take(fi as int)).len(),
                names@.len() == pos,
                forall|j: int| 0 <= j < pos ==> (#[trigger] names@[j])@ == item_name(all[j]),
            decreases loaded.len() - fi,
        {
            let items = &self.loaded[fi].1.items;
            let mut k: usize = 0;
            while k < items.len()
                invariant
                    loaded == self.loaded@,
                    all == loaded_items(loaded),
                    fi < loaded.len(),
                    *items == loaded[fi as int].1.items,
                    k <= items@.len(),
                    pos == loaded_items(loaded.take(fi as int)).len(),
                    names@.len() == pos + k,
                    forall|j: int| 0 <= j < pos + k ==> (#[trigger] names@[j])@ == item_name(all[j]),
                decreases items@.len() - k,
            {
                proof {
                    lemma_item_at(loaded, fi as int, k as int);
                }
                names.push(item_name_of(&items[k]));
                k = k + 1;
            }
            proof {
                lemma_loaded_items_step(loaded, fi as int);
                pos = pos + items@.len();
            }
            fi = fi + 1;
        }
        proof {
            assert(loaded.take(fi as int) =~= loaded);
        }
        names
    }

    /// Checks that every name imported by a loaded file is defined in one
    /// of the loaded files; the first that is not, file after file and
    /// import after import, is reported.
    pub fn validate_imports(&self) -> (r: Result<(), LumosError>)
        ensures
            match missing_in_files(loaded_items(self.loaded_list()), self.loaded_list(), 0) {
                None => r is Ok,
                Some(t) => r matches Err(LumosError::SchemaParse(m)) && m@ == import_error_message(t),
            },
    {
        let ghost loaded = self.loaded@;
        let ghost all = loaded_items(loaded);
        let names = self.defined_names();
        let mut fi: usize = 0;
        while fi < self.loaded.len()
            invariant
                loaded == self.loaded@,
                all == loaded_items(loaded),
                names@.len() == all.len(),
                forall|j: int| 0 <= j < names@.len() ==> (#[trigger] names@[j])@ == item_name(all[j]),
                fi <= loaded.len(),
                missing_in_files(all, loaded, 0) == missing_in_files(all, loaded, fi as int),
            decreases loaded.len() - fi,
        {
            let path = &self.loaded[fi].0;
            let imports = &self.loaded[fi].1.imports;
            let mut ii: usize = 0;
            while ii < imports.len()
                invariant
                    loaded == self.loaded@,
                    all == loaded_items(loaded),
                    names@.len() == all.len(),
                    forall|j: int| 0 <= j < names@.len() ==> (#[trigger] names@[j])@ == item_name(all[j]),
                    fi < loaded.len(),
                    *path == loaded[fi as int].0,
                    *imports == loaded[fi as int].1.imports,
                    ii <= imports@.len(),
                    missing_in_files(all, loaded, 0) == missing_in_files(all, loaded, fi as int),
                    missing_in_imports(all, path@, imports@, 0) == missing_in_imports(
                        all,
                        path@,
                        imports@,
                        ii as int,
                    ),
                decreases imports@.len() - ii,
            {
                let imp = &imports[ii];
                let mut k: usize = 0;
                while k < imp.items.len()
                    invariant
                        loaded == self.loaded@,
                        all == loaded_items(loaded),
                        names@.len() == all.len(),
                        forall|j: int|
                            0 <= j < names@.len() ==> (#[trigger] names@[j])@ == item_name(all[j]),
                        fi < loaded.len(),
                        *path == loaded[fi as int].0,
                        *imports == loaded[fi as int].1.imports,
                        ii < imports@.len(),
                        *imp == imports@[ii as int],
                        k <= imp.items@.len(),
                        missing_in_files(all, loaded, 0) == missing_in_files(all, loaded, fi as int),
                        missing_in_imports(all, path@, imports@, 0) == missing_in_imports(
                            all,
                            path@,
                            imports@,
                            ii as int,
                        ),
                        missing_in_import(all, path@, *imp, 0) == missing_in_import(
                            all,
                            path@,
                            *imp,
                            k as int,
                        ),
                    decreases imp.items@.len() - k,
                {
                    let found = names_contain(&names, &imp.items[k]);
                    proof {
                        if found {
                            let j = choose|j: int|
                                0 <= j < names@.len() && (#[trigger] names@[j])@ == imp.items@[k as int]@;
                            assert(item_name(all[j]) == imp.items@[k as int]@);
                        } else {
                            assert forall|j: int| 0 <= j < all.len() implies item_name(
                                #[trigger] all[j],
                            ) != imp.items@[k as int]@ by {
                                assert(names@[j]@ == item_name(all[j]));
                            }
                        }
                    }
                    if !found {
                        let mut m = to_string("Import error in '");
                        m.append(path.as_str());
                        m.append("': type '");
                        m.append(imp.items[k].as_str());
                        m.append("' not found in '");
                        m.append(imp.path.as_str());
                        m.append("'");
                        return Err(LumosError::SchemaParse(m));
                    }
                    k = k + 1;
                }
                ii = ii + 1;
            }
            fi = fi + 1;
        }
        Ok(())
    }

    /// The files being loaded, by file name, joined with arrows.
    pub fn format_import_chain(&self) -> (r: String)
        ensures
            r@ == chain_text(self.stack()),
    {
        let mut names: Vec<String> = Vec::new();
        let mut k: usize = 0;
        while k < self.loading_stack.len()
            invariant
                k <= self.loading_stack@.len(),
                views(names@) == self.stack().take(k as int).map_values(
                    |p: Seq<char>| file_name_text(p),
                ),
            decreases self.loading_stack@.len() - k,
        {
            let ghost prev = names@;
            names.push(file_name_of(&self.loading_stack[k]));
            assert(self.stack().take(k + 1) =~= self.stack().take(k as int).push(self.stack()[k as int]));
            assert(views(names@) =~= views(prev).push(file_name_text(self.stack()[k as int])));
            k = k + 1;
            assert(views(names@) =~= self.stack().take(k as int).map_values(
                |p: Seq<char>| file_name_text(p),
            ));
        }
        assert(self.stack().take(k as int) =~= self.stack());
        join_strings(&names, " -> ")
    }
}

impl Default for FileResolver {
    fn default() -> (r: Self)
        ensures
            r.loaded_list().len() == 0,
            r.stack().len() == 0,
    {
        FileResolver::new()
    }
}

/// What lowering a list of loaded files together gives: their aliases are
/// collected file after file (an alias defined twice, in any files, fails)
/// and resolved (a cycle fails), their items lowered in order, and every
/// type they refer to must be defined in one of them.
pub open spec fn files_answer(loaded: Seq<(String, LumosFile)>, r: Result<Vec<TypeDefinition>, LumosError>) -> bool {
    let items = loaded_items(loaded);
    let als = alias_entries(items);
    match first_duplicate(als) {
        Some(n) => r matches Err(LumosError::Transform(m)) && m@ == duplicate_message(n),
        None => if has_cycle(als) {
            r matches Err(LumosError::Transform(m)) && exists|n: Seq<char>|
                is_alias(als, n) && m@ == #[trigger] circular_message(n)
        } else {
            exists|res: Seq<(String, TypeInfo)>|
                resolved_for(als, res) && #[trigger] lowered(res, items, true, r)
        },
    }
}

/// Lowers all loaded files together, as one schema: their aliases are
/// collected file after file (an alias defined twice, in any files,
/// fails) and resolved (a cycle fails), their items lowered in order,
/// and every type they refer to must be defined in one of them.
#[verifier::rlimit(40)]
#[verifier::spinoff_prover]
pub fn resolve_files(loaded_files: &Vec<(String, LumosFile)>) -> (r: Result<Vec<TypeDefinition>, LumosError>)
    ensures
        files_answer(loaded_files@, r),
{
    let ghost loaded = loaded_files@;
    let ghost all = loaded_items(loaded);
    let mut resolver = TypeAliasResolver::new();
    let mut fi: usize = 0;
    let ghost mut pos: int = 0;
    while fi < loaded_files.len()
        invariant
            loaded == loaded_files@,
            all == loaded_items(loaded),
            fi <= loaded.len(),
            pos == loaded_items(loaded.take(fi as int)).len(),
            resolver.alias_list() == alias_entries(all.take(pos)),
            first_duplicate(resolver.alias_list()) is None,
            resolver.resolved_list().len() == 0,
            resolver.wf(),
        decreases loaded.len() - fi,
    {
        let items = &loaded_files[fi].1.items;
        let mut k: usize = 0;
        while k < items.len()
            invariant
                loaded == loaded_files@,
                all == loaded_items(loaded),
                fi < loaded.len(),
                *items == loaded[fi as int].1.items,
                k <= items@.len(),
                pos == loaded_items(loaded.take(fi as int)).len(),
                resolver.alias_list() == alias_entries(all.take(pos + k)),
                first_duplicate(resolver.alias_list()) is None,
                resolver.resolved_list().len() == 0,
                resolver.wf(),
            decreases items@.len() - k,
        {
            proof {
                lemma_item_at(loaded, fi as int, k as int);
                lemma_loaded_items_prefix(loaded, fi as int);
                assert(all.take(pos + k + 1).drop_last() =~= all.take(pos + k));
            }
            let ghost before = resolver.alias_list();
            match &items[k] {
                Item::TypeAlias(a) => {
                    match resolver.add_alias(a.name.clone(), copy_type_spec(&a.target)) {
                        Ok(()) => {
                            proof {
                                assert(resolver.alias_list().drop_last() =~= before);
                            }
                        },
                        Err(e) => {
                            proof {
                                let after = alias_entries(all.take(pos + k + 1));
                                assert(after.drop_last() =~= before);
                                lemma_duplicate_persists(all, pos + k + 1);
                            }
                            return Err(e);
                        },
                    }
                },
                _ => {},
            }
            k = k + 1;
        }
        proof {
            lemma_loaded_items_step(loaded, fi as int);
            pos = pos + items@.len();
        }
        fi = fi + 1;
    }
    proof {
        assert(loaded.take(fi as int) =~= loaded);
        assert(all.take(pos) =~= all);
    }
    match resolver.resolve_all_aliases() {
        Ok(()) => {},
        Err(e) => {
            return Err(e);
        },
    }
    let ghost res = resolver.resolved_list();
    proof {
        lemma_all_resolved(res, all, 0);
    }
    let mut out: Vec<TypeDefinition> = Vec::new();
    let mut fi: usize = 0;
    let ghost mut pos: int = 0;
    while fi < loaded_files.len()
        invariant
            loaded == loaded_files@,
            all == loaded_items(loaded),
            res == resolver.resolved_list(),
            first_unresolved(res, all, 0) is None,
            fi <= loaded.len(),
            pos == loaded_items(loaded.take(fi as int)).len(),
            out@.len() == pos,
            forall|j: int| 0 <= j < pos ==> #[trigger] item_ir(res, all[j], out@[j]),
        decreases loaded.len() - fi,
    {
        let items = &loaded_files[fi].1.items;
        let mut k: usize = 0;
        while k < items.len()
            invariant
                loaded == loaded_files@,
                all == loaded_items(loaded),
                res == resolver.resolved_list(),
                first_unresolved(res, all, 0) is None,
                fi < loaded.len(),
                *items == loaded[fi as int].1.items,
                k <= items@.len(),
                pos == loaded_items(loaded.take(fi as int)).len(),
                out@.len() == pos + k,
                forall|j: int| 0 <= j < pos + k ==> #[trigger] item_ir(res, all[j], out@[j]),
            decreases items@.len() - k,
        {
            proof {
                lemma_item_at(loaded, fi as int, k as int);
            }
            match &items[k] {
                Item::Struct(s) => match transform_struct(s, &resolver) {
                    Ok(d) => out.push(TypeDefinition::Struct(d)),
                    Err(e) => {
                        return Err(e);
                    },
                },
                Item::Enum(e) => match transform_enum(e, &resolver) {
                    Ok(d) => out.push(TypeDefinition::Enum(d)),
                    Err(e) => {
                        return Err(e);
                    },
                },
                Item::TypeAlias(a) => {
                    proof {
                        lemma_resolved_at(res, all, 0, pos + k);
                    }
                    match transform_type_alias(a, &resolver) {
                        Ok(d) => out.push(TypeDefinition::TypeAlias(d)),
                        Err(e) => {
                            return Err(e);
                        },
                    }
                },
            }
            k = k + 1;
        }
        proof {
            lemma_loaded_items_step(loaded, fi as int);
            pos = pos + items@.len();
        }
        fi = fi + 1;
    }
    proof {
        assert(loaded.take(fi as int) =~= loaded);
    }
    match validate_user_defined_types(&out) {
        Ok(()) => {},
        Err(e) => {
            assert(lowered(res, all, true, Err(e)));
            return Err(e);
        },
    }
    assert(lowered(res, all, true, Ok(out)));
    Ok(out)
}

} // verus!
