# geo_loop

A toolkit for writing documents that generative answer engines can quote: it builds the
writing, revision and judging prompts, runs deterministic structural checks on a markdown
draft (direct-answer opening paragraph, sourced statistics, FAQ `Q:`/`A:` pairs, JSON-LD
`@type`s and Google's required fields, heading hierarchy, `llms.txt` snippet), decides each
round of the generate → score → revise loop, and writes the reports.

Layout:

- `src/` — the library, verified with Verus. Every public function states its result in
  its `ensures` clause over spec functions on character sequences; `regex` and
  `serde_json` are called through a few wrappers whose contracts state what the call
  returns.
  - `text`, `patterns` — character-level helpers (trimming, lines, decimal text) and the
    fixed regular expressions.
  - `checks`, `json`, `schema` — the structural checks, JSON-LD traversal and builders.
  - `spec`, `generate`, `score`, `loop_run`, `report`, `probe` — spec validation, prompts,
    judging rules, loop decisions, report sections and probe overlap counts.
- `tests/` — tests run against the compiled library.
- `app/` — the parts around it: spec files (`toml`), model calls behind an `Llm` trait,
  floating-point score aggregation, the loop driver and report files.
