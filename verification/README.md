# docs_auditor

A language server that holds Markdown specification documents against the
source code they describe: every declared variable and function must exist in
the code with the declared kind, parameter types, return type and line range,
and must be used somewhere in the workspace.

The library under `src/` is verified with Verus; `app/` is the server around
it (the editor protocol, the file system, locks, configuration).

## Layout of `src/`

- `spec_doc`, `headings` — the grammar of the documents: bullet declarations
  and level-3 headings with their `(L<first>-<last>)` line numbers, and
  Mermaid dependency edges.
- `grammars`, `syntax`, `parser`, `langs/*`, `extract` — tree-sitter syntax
  trees as plain values, and the rules that read definitions out of the trees
  of Rust, TypeScript, Python, Go, C, C++, C#, Ruby, Swift, Kotlin and Java.
- `auditor` — the audit itself, with the laws it obeys.
- `fixes` — writing line numbers back into a document, and the quick fix.
- `report` — diagnostics and the Markdown report.
- `workspace`, `identifiers` — which document goes with which source, and
  the identifiers the sources use.
- `i18n` — message templates in ten languages.
- `hfsm` — the server's state machine, and the events that each stage of
  handling a change reports to it.
- `text`, `scan`, `symbols` — characters, lines and symbol values.

## Trusted code

Calls into outside crates (tree-sitter and its grammars, `regex`,
`serde_json`, `url`) and two methods of `String`/`str` sit
behind `#[verifier::external_body]` wrappers whose doc comments say what their
contracts assume.

The message templates of the ten languages are built in (`src/locales.rs`).
