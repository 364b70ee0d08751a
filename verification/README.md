# dioxus_lints

Static checks, scaffolds and summaries for Dioxus projects. The library is
written in Verus: a function says in its contract what it returns, and the
contracts are proved. What comes from another crate is trusted: a call whose result
takes pages to state has a name for that result, and the small functions that walk
the values of `syn`, `proc_macro2`, `serde_json` and `minijinja` have no contract of
their own.

## Layout

- `src/lower.rs`, `src/layout.rs`, `src/tape.rs`, `src/tokens.rs`: source text as a
  flat sequence of nodes. `syn` and `proc_macro2` parse; what they return is walked
  once, and each value leaves marks where it begins and ends. That walk is trusted.
  `layout` turns any marks into nodes that make up a tree, and what the lints find
  in the nodes is proved.
- `src/scan.rs`, `src/order.rs`, `src/paths.rs`, `src/text.rs`, `src/literal.rs`:
  what most lints ask of a file, stable sorting, paths, and strings.
- `src/lints/`: one module for each lint. `lint_project` runs those that are
  wanted and rolls their findings up; `findings` and `headline` say how.
- `src/scaffold/`: drafts of components, server functions and routes, and the
  edits of `mod.rs`, the crate root and the router that go with them.
- `src/prop_drill.rs`, `src/project_tour.rs`, `src/server_fn_summary.rs`: props
  handed on unchanged, an overview of a project, and latencies out of a log.
- `app/`: files, parameters and reports with their `serde` and `schemars` derives,
  and the asynchronous entry points.

## Reading a contract

A report is stated over views: `report(..)` of a module is what its entry point
returns. Most of these are built with `gather`, which runs a rule over a range and
puts what it gives one after the other, and with `sorted`, a stable sort by the
order that `Ranked` gives a type. Proof functions whose names begin with `law_`
state what holds of the library as a whole.
