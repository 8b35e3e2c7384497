# trusted_publishing

A verified audit of CI workflow steps that publish packages: it recognises
publishing commands in `run:` scripts (`cargo publish`, `twine upload`,
`npm publish`, ...) and known publishing actions configured with a manual
credential, and decides which of them to report as candidates for Trusted
Publishing.

- `src/text.rs`: string primitives (equality, prefixes, trimming) with
  contracts over `Seq<char>`.
- `src/publish.rs`: the rules that classify a command and its arguments, and
  the laws they obey.
- `src/registry.rs`: the registry that a JavaScript publishing command
  targets.
- `src/candidates.rs`: publishing commands found among the commands of a
  script.
- `src/shell.rs`: parsing scripts with tree-sitter and reading their
  commands out of the query matches.
- `src/audit.rs`: the table of known publishing actions, the findings and
  their locations, the decisions on `run:` commands and their laws.

Everything in `src/` is verified with Verus except the five wrappers in
`src/shell.rs` marked `#[verifier::external_body]`: they make the
tree-sitter calls, and their contracts (that each result is a fixed function
of the texts it is given, named by an uninterpreted spec function) are
trusted. `tests/` holds the executable tests.
