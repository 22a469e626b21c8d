//! Lints a monorepo's dependency manifests against a central version catalog.
//!
//! The crate holds the rule-evaluation core: the typed model of package
//! manifests and workspace catalogs, the classifier of version strings, and
//! the single cross-referencing pass that produces an ordered, deduplicated
//! issue list. Discovery of manifest files, deserialization, and console
//! output are left to the surrounding program, which feeds plain values in
//! and renders the issue list.

pub mod collect;
pub mod packages;
pub mod rules;
pub mod strutil;
pub mod workspace;
