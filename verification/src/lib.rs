//! Lints, scaffolds and summaries for Dioxus projects, each with what it returns
//! stated and proved.
//!
//! `lower`, `layout` and `tape` turn source text into flat trees, `scan` holds what
//! most lints ask of a file, `order`, `paths` and `text` hold sequences, paths and
//! strings. Each lint of `lints` is a function from parsed files to a report.
//! `scaffold` drafts new components, server functions and routes; `project_tour`
//! and `server_fn_summary` condense what other tools report and log.
//!
//! The modules whose names end in `laws` state what the functions do in words of
//! their own, over the nodes and characters that they are given; `plain` holds the
//! words that several laws share.
pub mod index;
pub mod layout;
pub mod lints;
pub mod literal;
pub mod lower;
pub mod order;
pub mod paths;
pub mod plain;
pub mod project_tour;
pub mod prop_drill;
pub mod scaffold;
pub mod scan;
pub mod server_fn_summary;
pub mod summary_laws;
pub mod tape;
pub mod text;
pub mod text_laws;
pub mod tokens;
