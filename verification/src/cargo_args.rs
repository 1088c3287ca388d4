//! The `cargo lumos` subcommand: turning its command line and the
//! `[package.metadata.lumos]` configuration into the arguments of `lumos`.

use vstd::prelude::*;
use crate::text::{copy_string, to_string};

verus! {

/// A `cargo lumos` subcommand, with paths as strings.
#[derive(Debug, Clone)]
pub enum LumosCommand {
    /// Generate code from a schema.
    Generate {
        schema: Option<String>,
        output: Option<String>,
        watch: bool,
        dry_run: bool,
        backup: bool,
    },
    /// Validate a schema.
    Validate { schema: Option<String> },
    /// Start a new project.
    Init { name: Option<String> },
    /// Check that generated code is current.
    Check { schema: Option<String>, output: Option<String> },
    /// Any other `lumos` command, passed through.
    External(Vec<String>),
}

/// The `[package.metadata.lumos]` configuration.
#[derive(Debug, Clone)]
pub struct LumosConfig {
    /// Schema path.
    pub schema: Option<String>,
    /// Rust output path (read, not used yet).
    pub output_rust: Option<String>,
    /// TypeScript output path (read, not used yet).
    pub output_ts: Option<String>,
    /// Whether watch mode is on by default.
    pub watch: Option<bool>,
}

impl Default for LumosConfig {
    fn default() -> (r: Self)
        ensures
            r.schema is None,
            r.output_rust is None,
            r.output_ts is None,
            r.watch is None,
    {
        LumosConfig { schema: None, output_rust: None, output_ts: None, watch: None }
    }
}

/// Why no `lumos` command line could be built.
#[derive(Debug, Clone, Copy, PartialEq, Eq, Structural)]
pub enum ArgsError {
    /// `generate` was given no schema and none is configured.
    NoSchemaForGenerate,
    /// `validate` or `check` was given no schema and none is configured.
    NoSchema,
}

/// The schema path: the one given on the command line, else the configured
/// one.
pub open spec fn chosen_schema(given: Option<String>, config: LumosConfig) -> Option<Seq<char>> {
    match given {
        Some(s) => Some(s@),
        None => match config.schema {
            Some(c) => Some(c@),
            None => None,
        },
    }
}

/// `xs` followed by `--output <out>` when there is an output.
pub open spec fn with_output(xs: Seq<Seq<char>>, output: Option<String>) -> Seq<Seq<char>> {
    match output {
        Some(o) => xs + seq!["--output"@, o@],
        None => xs,
    }
}

/// `xs` followed by `flag` when `on`.
pub open spec fn with_flag(xs: Seq<Seq<char>>, on: bool, flag: Seq<char>) -> Seq<Seq<char>> {
    if on {
        xs.push(flag)
    } else {
        xs
    }
}

/// The `lumos` arguments for a subcommand, or why there are none.
pub open spec fn lumos_args(cmd: Option<LumosCommand>, config: LumosConfig) -> Result<
    Seq<Seq<char>>,
    ArgsError,
> {
    match cmd {
        Some(LumosCommand::Generate { schema, output, watch, dry_run, backup }) => match chosen_schema(
            schema,
            config,
        ) {
            Some(s) => Ok(
                with_flag(
                    with_flag(
                        with_flag(
                            with_output(seq!["generate"@, s], output),
                            watch || config.watch == Some(true),
                            "--watch"@,
                        ),
                        dry_run,
                        "--dry-run"@,
                    ),
                    backup,
                    "--backup"@,
                ),
            ),
            None => Err(ArgsError::NoSchemaForGenerate),
        },
        Some(LumosCommand::Validate { schema }) => match chosen_schema(schema, config) {
            Some(s) => Ok(seq!["validate"@, s]),
            None => Err(ArgsError::NoSchema),
        },
        Some(LumosCommand::Init { name }) => match name {
            Some(n) => Ok(seq!["init"@, n@]),
            None => Ok(seq!["init"@]),
        },
        Some(LumosCommand::Check { schema, output }) => match chosen_schema(schema, config) {
            Some(s) => Ok(with_output(seq!["check"@, s], output)),
            None => Err(ArgsError::NoSchema),
        },
        Some(LumosCommand::External(args)) => Ok(crate::text::views(args@)),
        None => Ok(seq!["--help"@]),
    }
}

fn choose_schema(given: &Option<String>, config: &LumosConfig) -> (r: Option<String>)
    ensures
        match r {
            Some(s) => chosen_schema(*given, *config) == Some(s@),
            None => chosen_schema(*given, *config) is None,
        },
{
    match given {
        Some(s) => Some(copy_string(s)),
        None => match &config.schema {
            Some(c) => Some(copy_string(c)),
            None => None,
        },
    }
}

fn push_output(v: &mut Vec<String>, output: &Option<String>)
    ensures
        crate::text::views(final(v)@) == with_output(crate::text::views(old(v)@), *output),
{
    let ghost before = crate::text::views(v@);
    match output {
        Some(o) => {
            v.push(to_string("--output"));
            v.push(copy_string(o));
            assert(crate::text::views(v@) =~= before + seq!["--output"@, o@]);
        },
        None => {},
    }
}

fn push_flag(v: &mut Vec<String>, on: bool, flag: &str)
    ensures
        crate::text::views(final(v)@) == with_flag(crate::text::views(old(v)@), on, flag@),
{
    let ghost before = crate::text::views(v@);
    if on {
        v.push(to_string(flag));
        assert(crate::text::views(v@) =~= before.push(flag@));
    }
}

/// The `lumos` command line for a `cargo lumos` subcommand: the schema
/// given on the command line wins over the configured one, and a
/// configured `watch = true` turns on watching.
pub fn build_lumos_args(command: &Option<LumosCommand>, config: &LumosConfig) -> (r: Result<
    Vec<String>,
    ArgsError,
>)
    ensures
        match r {
            Ok(v) => lumos_args(*command, *config) == Ok::<Seq<Seq<char>>, ArgsError>(
                crate::text::views(v@),
            ),
            Err(e) => lumos_args(*command, *config) == Err::<Seq<Seq<char>>, ArgsError>(e),
        },
{
    let mut v: Vec<String> = Vec::new();
    match command {
        Some(LumosCommand::Generate { schema, output, watch, dry_run, backup }) => {
            v.push(to_string("generate"));
            match choose_schema(schema, config) {
                Some(s) => {
                    v.push(s);
                },
                None => {
                    return Err(ArgsError::NoSchemaForGenerate);
                },
            }
            assert(crate::text::views(v@) =~= seq![
                "generate"@,
                chosen_schema(*schema, *config)->0,
            ]);
            push_output(&mut v, output);
            let configured_watch = match config.watch {
                Some(w) => w,
                None => false,
            };
            push_flag(&mut v, *watch || configured_watch, "--watch");
            push_flag(&mut v, *dry_run, "--dry-run");
            push_flag(&mut v, *backup, "--backup");
        },
        Some(LumosCommand::Validate { schema }) => {
            v.push(to_string("validate"));
            match choose_schema(schema, config) {
                Some(s) => {
                    v.push(s);
                },
                None => {
                    return Err(ArgsError::NoSchema);
                },
            }
            assert(crate::text::views(v@) =~= seq![
                "validate"@,
                chosen_schema(*schema, *config)->0,
            ]);
        },
        Some(LumosCommand::Init { name }) => {
            v.push(to_string("init"));
            match name {
                Some(n) => {
                    v.push(copy_string(n));
                    assert(crate::text::views(v@) =~= seq!["init"@, n@]);
                },
                None => {
                    assert(crate::text::views(v@) =~= seq!["init"@]);
                },
            }
        },
        Some(LumosCommand::Check { schema, output }) => {
            v.push(to_string("check"));
            match choose_schema(schema, config) {
                Some(s) => {
                    v.push(s);
                },
                None => {
                    return Err(ArgsError::NoSchema);
                },
            }
            assert(crate::text::views(v@) =~= seq![
                "check"@,
                chosen_schema(*schema, *config)->0,
            ]);
            push_output(&mut v, output);
        },
        Some(LumosCommand::External(args)) => {
            v = crate::ir::copy_strings(args);
        },
        None => {
            v.push(to_string("--help"));
            assert(crate::text::views(v@) =~= seq!["--help"@]);
        },
    }
    Ok(v)
}

} // verus!
