# lumos_core

LUMOS is a schema language for Solana data types. This crate is its core
library, written in Verus: the functions in `src/` carry contracts that the
verifier proves. The exceptions are the trusted items marked
`#[verifier::external_body]` or `#[verifier::external_type_specification]`:
small wrappers around std, `regex`, `semver` and `syn` (and the functions
that turn `syn`'s syntax tree into plain values), whose contracts are
taken as given; each one's doc comment says what it claims.

## Layout

- `src/` — the verified library.
  - `parser` reads a schema file: its JavaScript-style `import` lines, and
    the rest as Rust syntax (read with `syn`).
  - `transform` lowers a schema to its intermediate form, resolving type
    aliases and checking that every referenced type is defined.
  - `file_resolver`, `module_resolver` combine several schema files: those
    a file imports, and the module tree that `mod name;` declarations
    build (`name.lumos` or `name/mod.lumos`), whose `use` paths are
    checked.
  - `compat`, `diff`, `migration`, `migrate_code`, `commands` compare two
    versions of a schema and write migration code.
  - `anchor`, `metaplex` hold the Anchor account attributes and IDL, and the
    Metaplex Token Metadata rules.
  - `lsp` computes what the language server answers: diagnostics,
    completions, hover text and formatting.
  - `generation`, `generators`, `cargo_args`, `cli_helpers` hold the
    decisions of the command-line tools.
  - `text` holds the string operations the rest is written with.
- `tests/` — tests run against the compiled library.
- `app/` — the `lumos` program: reading and writing files, printing,
  watching files. Installed as `cargo-lumos` it is the
  `cargo lumos` subcommand; installed as `lumos-lsp` it is the language
  server.

Laws that relate several functions are public proof functions whose names
begin with `law_`.
