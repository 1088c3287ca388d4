//! The decisions of the schema commands that compare two versions of a
//! schema: which definitions the two share, the compatibility report of
//! each, the exit status that follows, and the migration of each shared
//! definition (stopping at the first unsafe one unless forced).

use vstd::prelude::*;
use crate::compat::{check_definitions, checked, count_level, CompatibilityReport, IssueLevel};
use crate::diff::{
    def_name_list, def_names, first_at, last_pos, last_pos_exec, lemma_last_pos,
    lemma_last_pos_ge, lookup_pos, named_in,
};
use crate::ir::{def_name, TypeDefinition};
use crate::migrate_code::{generate_rust_migration, generate_typescript_migration, rust_migration, ts_migration};
use crate::migration::{all_safe, compute_error, def_version, diff_changes, SchemaDiff};
use crate::text::{str_eq, views};

verus! {

/// The positions of the definitions that the two schemas share, one pair
/// per name of the first (at its first occurrence, from position `i` on)
/// that the second has; each position is the one a lookup of the name finds.
pub open spec fn common_indices(d1: Seq<TypeDefinition>, d2: Seq<TypeDefinition>, i: int) -> Seq<
    (int, int),
>
    decreases d1.len() - i,
{
    if 0 <= i < d1.len() {
        let n = def_name(d1[i]);
        let here = if first_at(def_names(d1), i) && named_in(def_names(d2), n) {
            seq![(last_pos(def_names(d1), n), last_pos(def_names(d2), n))]
        } else {
            Seq::empty()
        };
        here + common_indices(d1, d2, i + 1)
    } else {
        Seq::empty()
    }
}

/// The positions of the definitions two schemas share (see
/// [`common_indices`]).
pub fn common_definitions(ir1: &Vec<TypeDefinition>, ir2: &Vec<TypeDefinition>) -> (r: Vec<
    (usize, usize),
>)
    ensures
        r@.len() == common_indices(ir1@, ir2@, 0).len(),
        forall|k: int|
            0 <= k < r@.len() ==> (#[trigger] r@[k]).0 as int == common_indices(ir1@, ir2@, 0)[k].0
                && r@[k].1 as int == common_indices(ir1@, ir2@, 0)[k].1 && r@[k].0 < ir1@.len()
                && r@[k].1 < ir2@.len(),
{
    let names1 = def_name_list(ir1);
    let names2 = def_name_list(ir2);
    let ghost d1 = ir1@;
    let ghost d2 = ir2@;
    let ghost base = Seq::<(int, int)>::empty();
    let mut out: Vec<(usize, usize)> = Vec::new();
    let mut i: usize = 0;
    while i < ir1.len()
        invariant
            d1 == ir1@,
            d2 == ir2@,
            views(names1@) == def_names(d1),
            views(names2@) == def_names(d2),
            names1@.len() == d1.len(),
            names2@.len() == d2.len(),
            i <= d1.len(),
            out@.map_values(|p: (usize, usize)| (p.0 as int, p.1 as int)) + common_indices(
                d1,
                d2,
                i as int,
            ) == common_indices(d1, d2, 0),
            forall|k: int| 0 <= k < out@.len() ==> (#[trigger] out@[k]).0 < d1.len() && out@[k].1 < d2.len(),
        decreases d1.len() - i,
    {
        let n = &names1[i];
        assert(def_names(d1)[i as int] == n@);
        let first = last_pos_exec(&names1, n, i).is_none();
        let other = lookup_pos(&names2, n);
        proof {
            lemma_last_pos_ge(def_names(d1), n@, i as int);
            lemma_last_pos(def_names(d1), n@);
        }
        let ghost before = out@.map_values(|p: (usize, usize)| (p.0 as int, p.1 as int));
        if first {
            match other {
                Some(k2) => {
                    let k1 = lookup_pos(&names1, n).unwrap();
                    out.push((k1, k2));
                    assert(out@.map_values(|p: (usize, usize)| (p.0 as int, p.1 as int)) =~= before.push(
                        (k1 as int, k2 as int),
                    ));
                },
                None => {},
            }
        }
        let ghost here = if first_at(def_names(d1), i as int) && named_in(def_names(d2), n@) {
            seq![(last_pos(def_names(d1), n@), last_pos(def_names(d2), n@))]
        } else {
            Seq::<(int, int)>::empty()
        };
        assert(common_indices(d1, d2, i as int) == here + common_indices(d1, d2, i + 1));
        i = i + 1;
    }
    assert(out@.map_values(|p: (usize, usize)| (p.0 as int, p.1 as int)) =~= common_indices(d1, d2, 0));
    proof {
        assert forall|k: int| 0 <= k < out@.len() implies (#[trigger] out@[k]).0 as int
            == common_indices(d1, d2, 0)[k].0 && out@[k].1 as int == common_indices(d1, d2, 0)[k].1 by {
            assert(out@.map_values(|p: (usize, usize)| (p.0 as int, p.1 as int))[k] == (
                out@[k].0 as int,
                out@[k].1 as int,
            ));
        }
    }
    out
}

/// The compatibility report of each definition that two versions of a
/// schema share, with its name, in the order of [`common_indices`].
pub fn check_schemas(from_ir: &Vec<TypeDefinition>, to_ir: &Vec<TypeDefinition>) -> (r: Vec<
    (String, Result<CompatibilityReport, String>),
>)
    ensures
        r@.len() == common_indices(from_ir@, to_ir@, 0).len(),
        forall|k: int|
            0 <= k < r@.len() ==> {
                let p = common_indices(from_ir@, to_ir@, 0)[k];
                &&& (#[trigger] r@[k]).0@ == def_name(from_ir@[p.0])
                &&& checked(from_ir@[p.0], to_ir@[p.1], r@[k].1)
            },
{
    let pairs = common_definitions(from_ir, to_ir);
    let ghost cs = common_indices(from_ir@, to_ir@, 0);
    let mut out: Vec<(String, Result<CompatibilityReport, String>)> = Vec::new();
    let mut k: usize = 0;
    while k < pairs.len()
        invariant
            cs == common_indices(from_ir@, to_ir@, 0),
            pairs@.len() == cs.len(),
            forall|j: int|
                0 <= j < pairs@.len() ==> (#[trigger] pairs@[j]).0 as int == cs[j].0
                    && pairs@[j].1 as int == cs[j].1 && pairs@[j].0 < from_ir@.len()
                    && pairs@[j].1 < to_ir@.len(),
            k <= pairs@.len(),
            out@.len() == k,
            forall|j: int|
                0 <= j < k ==> {
                    let p = cs[j];
                    &&& (#[trigger] out@[j]).0@ == def_name(from_ir@[p.0])
                    &&& checked(from_ir@[p.0], to_ir@[p.1], out@[j].1)
                },
        decreases pairs@.len() - k,
    {
        let (a, b) = pairs[k];
        let name = crate::text::to_string(from_ir[a].name());
        let result = check_definitions(&from_ir[a], &to_ir[b]);
        out.push((name, result));
        k = k + 1;
    }
    out
}

/// The total number of issues of a level over the reports that were made.
pub open spec fn level_total(rs: Seq<(String, Result<CompatibilityReport, String>)>, l: IssueLevel) -> nat
    decreases rs.len(),
{
    if rs.len() == 0 {
        0
    } else {
        level_total(rs.drop_last(), l) + match rs.last().1 {
            Ok(rep) => count_level(rep.issues@, l),
            Err(_) => 0,
        }
    }
}

/// The number of issues of a level over the reports that were made; it
/// stops growing at `usize::MAX`.
pub fn count_issues(results: &Vec<(String, Result<CompatibilityReport, String>)>, level: IssueLevel) -> (r: usize)
    ensures
        r == if level_total(results@, level) <= usize::MAX {
            level_total(results@, level)
        } else {
            usize::MAX as nat
        },
{
    let mut total: usize = 0;
    let mut k: usize = 0;
    while k < results.len()
        invariant
            k <= results@.len(),
            total == if level_total(results@.take(k as int), level) <= usize::MAX {
                level_total(results@.take(k as int), level)
            } else {
                usize::MAX as nat
            },
        decreases results@.len() - k,
    {
        proof {
            assert(results@.take(k + 1).drop_last() =~= results@.take(k as int));
        }
        match &results[k].1 {
            Ok(rep) => {
                let c = rep.count_by_level(level);
                total = total.saturating_add(c);
            },
            Err(_) => {},
        }
        k = k + 1;
    }
    assert(results@.take(k as int) =~= results@);
    total
}

/// Whether every report that was made found the version bump valid.
pub open spec fn bumps_valid(rs: Seq<(String, Result<CompatibilityReport, String>)>) -> bool {
    forall|k: int|
        0 <= k < rs.len() ==> match (#[trigger] rs[k]).1 {
            Ok(rep) => rep.version_bump_valid,
            Err(_) => true,
        }
}

/// Whether every report that was made found the version bump valid.
pub fn all_bumps_valid(results: &Vec<(String, Result<CompatibilityReport, String>)>) -> (r: bool)
    ensures
        r == bumps_valid(results@),
{
    let mut k: usize = 0;
    while k < results.len()
        invariant
            k <= results@.len(),
            forall|j: int|
                0 <= j < k ==> match (#[trigger] results@[j]).1 {
                    Ok(rep) => rep.version_bump_valid,
                    Err(_) => true,
                },
        decreases results@.len() - k,
    {
        match &results[k].1 {
            Ok(rep) => {
                if !rep.version_bump_valid {
                    return false;
                }
            },
            Err(_) => {},
        }
        k = k + 1;
    }
    true
}

/// The exit status of a compatibility check: 1 with breaking changes, 2
/// with warnings in strict mode, 0 otherwise.
pub fn compat_exit_code(breaking: usize, warnings: usize, strict: bool) -> (r: i32)
    ensures
        r == if breaking > 0 {
            1i32
        } else if strict && warnings > 0 {
            2i32
        } else {
            0i32
        },
{
    if breaking > 0 {
        1
    } else if strict && warnings > 0 {
        2
    } else {
        0
    }
}

/// Whether migration code in Rust is asked for.
pub open spec fn wants_rust(language: Seq<char>) -> bool {
    language == "rust"@ || language == "both"@
}

/// Whether migration code in TypeScript is asked for.
pub open spec fn wants_typescript(language: Seq<char>) -> bool {
    language == "typescript"@ || language == "both"@
}

/// Whether `d` is the diff of `old` and `new`.
pub open spec fn diff_for(d: SchemaDiff, old: TypeDefinition, new: TypeDefinition) -> bool {
    &&& diff_changes(old, new) == Some(d.changes@)
    &&& d.type_ident@ == def_name(old)
    &&& d.from_version == def_version(old)
    &&& d.to_version == def_version(new)
    &&& d.is_safe == all_safe(d.changes@)
}

/// The migration of one shared definition.
pub enum MigrationStep {
    /// The two versions could not be compared.
    Failed { type_ident: String, error: String },
    /// The diff of the two versions and the code generated for it (none
    /// when it has no changes, when it is refused, or in a language not
    /// asked for).
    Compared { diff: SchemaDiff, rust: Option<String>, typescript: Option<String> },
}

/// Whether a step stops the migration: an unsafe diff, not forced.
pub open spec fn refuses(s: MigrationStep, force: bool) -> bool {
    s matches MigrationStep::Compared { diff, .. } && !diff.is_safe && !force
}

/// Whether a step migrates: a diff with changes that is not refused.
pub open spec fn migrates(s: MigrationStep, force: bool) -> bool {
    s matches MigrationStep::Compared { diff, .. } && diff.changes@.len() > 0 && !refuses(s, force)
}

/// Whether `s` is the migration step of `old` to `new`.
pub open spec fn step_for(
    old: TypeDefinition,
    new: TypeDefinition,
    language: Seq<char>,
    force: bool,
    s: MigrationStep,
) -> bool {
    match s {
        MigrationStep::Failed { type_ident, error } => diff_changes(old, new) is None
            && type_ident@ == def_name(old) && error@ == compute_error(old, new),
        MigrationStep::Compared { diff, rust, typescript } => diff_for(diff, old, new) && if !migrates(
            s,
            force,
        ) {
            rust is None && typescript is None
        } else {
            &&& if wants_rust(language) {
                rust matches Some(c) && c@ == rust_migration(diff, old)
            } else {
                rust is None
            }
            &&& if wants_typescript(language) {
                typescript matches Some(c) && c@ == ts_migration(diff, old)
            } else {
                typescript is None
            }
        },
    }
}

/// The migration of two versions of a schema: one step per shared
/// definition, in order, up to and including the first one refused.
pub struct MigrationPlan {
    /// The steps taken.
    pub steps: Vec<MigrationStep>,
    /// Whether the last step was refused.
    pub refused: bool,
}

fn language_is(language: &str, name: &str) -> (r: bool)
    ensures
        r == (language@ == name@),
{
    str_eq(language, name)
}

/// Plans the migration of each definition two versions of a schema share:
/// its diff, then, unless it is unsafe and not forced (which stops the
/// plan), the migration code asked for when it has changes.
pub fn plan_migrations(
    from_ir: &Vec<TypeDefinition>,
    to_ir: &Vec<TypeDefinition>,
    language: &str,
    force: bool,
) -> (r: MigrationPlan)
    ensures
        ({
            let cs = common_indices(from_ir@, to_ir@, 0);
            &&& r.steps@.len() <= cs.len()
            &&& forall|k: int|
                0 <= k < r.steps@.len() ==> step_for(
                    from_ir@[cs[k].0],
                    to_ir@[cs[k].1],
                    language@,
                    force,
                    #[trigger] r.steps@[k],
                )
            &&& forall|k: int| 0 <= k < r.steps@.len() - 1 ==> !refuses(#[trigger] r.steps@[k], force)
            &&& r.refused == (r.steps@.len() > 0 && refuses(r.steps@.last(), force))
            &&& !r.refused ==> r.steps@.len() == cs.len()
        }),
{
    let rust = language_is(language, "rust") || language_is(language, "both");
    let ts = language_is(language, "typescript") || language_is(language, "both");
    let pairs = common_definitions(from_ir, to_ir);
    let ghost cs = common_indices(from_ir@, to_ir@, 0);
    let mut steps: Vec<MigrationStep> = Vec::new();
    let mut k: usize = 0;
    while k < pairs.len()
        invariant
            cs == common_indices(from_ir@, to_ir@, 0),
            rust == wants_rust(language@),
            ts == wants_typescript(language@),
            pairs@.len() == cs.len(),
            forall|j: int|
                0 <= j < pairs@.len() ==> (#[trigger] pairs@[j]).0 as int == cs[j].0
                    && pairs@[j].1 as int == cs[j].1 && pairs@[j].0 < from_ir@.len()
                    && pairs@[j].1 < to_ir@.len(),
            k <= pairs@.len(),
            steps@.len() == k,
            forall|j: int|
                0 <= j < k ==> step_for(
                    from_ir@[cs[j].0],
                    to_ir@[cs[j].1],
                    language@,
                    force,
                    #[trigger] steps@[j],
                ),
            forall|j: int| 0 <= j < k ==> !refuses(#[trigger] steps@[j], force),
        decreases pairs@.len() - k,
    {
        let (a, b) = pairs[k];
        let old = &from_ir[a];
        match SchemaDiff::compute(old, &to_ir[b]) {
            Err(e) => {
                steps.push(
                    MigrationStep::Failed { type_ident: crate::text::to_string(old.name()), error: e },
                );
            },
            Ok(diff) => {
                let refused = !diff.is_safe && !force;
                let has_changes = diff.changes.len() > 0;
                let rust_code = if !refused && has_changes && rust {
                    Some(generate_rust_migration(&diff, old))
                } else {
                    None
                };
                let ts_code = if !refused && has_changes && ts {
                    Some(generate_typescript_migration(&diff, old))
                } else {
                    None
                };
                steps.push(MigrationStep::Compared { diff, rust: rust_code, typescript: ts_code });
                if refused {
                    return MigrationPlan { steps, refused: true };
                }
            },
        }
        k = k + 1;
    }
    MigrationPlan { steps, refused: false }
}

/// The code of the steps in one language: each piece followed by a line
/// break.
pub open spec fn step_code(s: MigrationStep, rust: bool) -> Seq<char> {
    match s {
        MigrationStep::Compared { rust: r, typescript: t, .. } => match (if rust { r } else { t }) {
            Some(c) => c@ + "\n"@,
            None => Seq::empty(),
        },
        _ => Seq::empty(),
    }
}

/// The number of steps that migrate.
pub open spec fn migrating_steps(steps: Seq<MigrationStep>, force: bool) -> nat
    decreases steps.len(),
{
    if steps.len() == 0 {
        0
    } else {
        migrating_steps(steps.drop_last(), force) + if migrates(steps.last(), force) {
            1nat
        } else {
            0nat
        }
    }
}

impl MigrationPlan {
    /// The Rust migration code of all steps.
    pub fn rust_code(&self) -> (r: String)
        ensures
            r@ == crate::text::concat_map(self.steps@, |s: MigrationStep| step_code(s, true)),
    {
        self.code(true)
    }

    /// The TypeScript migration code of all steps.
    pub fn typescript_code(&self) -> (r: String)
        ensures
            r@ == crate::text::concat_map(self.steps@, |s: MigrationStep| step_code(s, false)),
    {
        self.code(false)
    }

    fn code(&self, rust: bool) -> (r: String)
        ensures
            r@ == crate::text::concat_map(self.steps@, |s: MigrationStep| step_code(s, rust)),
    {
        let ghost f = |s: MigrationStep| step_code(s, rust);
        let mut out = String::new();
        let mut k: usize = 0;
        while k < self.steps.len()
            invariant
                f == (|s: MigrationStep| step_code(s, rust)),
                k <= self.steps@.len(),
                out@ == crate::text::concat_map(self.steps@.subrange(0, k as int), f),
            decreases self.steps@.len() - k,
        {
            proof {
                crate::text::lemma_concat_map_step(self.steps@, k as int, f);
            }
            let ghost before = out@;
            match &self.steps[k] {
                MigrationStep::Compared { rust: r, typescript: t, .. } => {
                    let piece = if rust { r } else { t };
                    match piece {
                        Some(c) => {
                            out.append(c.as_str());
                            out.append("\n");
                        },
                        None => {},
                    }
                },
                _ => {},
            }
            assert(out@ =~= before + f(self.steps@[k as int]));
            k = k + 1;
        }
        assert(self.steps@.subrange(0, k as int) =~= self.steps@);
        out
    }

    /// The number of steps that migrate: diffs with changes, not refused.
    pub fn generated_count(&self, force: bool) -> (r: usize)
        ensures
            r == migrating_steps(self.steps@, force),
    {
        let mut n: usize = 0;
        let mut k: usize = 0;
        while k < self.steps.len()
            invariant
                k <= self.steps@.len(),
                n == migrating_steps(self.steps@.take(k as int), force),
                n <= k,
            decreases self.steps@.len() - k,
        {
            proof {
                assert(self.steps@.take(k + 1).drop_last() =~= self.steps@.take(k as int));
            }
            match &self.steps[k] {
                MigrationStep::Compared { diff, .. } => {
                    if diff.changes.len() > 0 && !(!diff.is_safe && !force) {
                        n = n + 1;
                    }
                },
                _ => {},
            }
            k = k + 1;
        }
        assert(self.steps@.take(k as int) =~= self.steps@);
        n
    }
}

} // verus!
