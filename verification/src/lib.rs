//! Detection of export names that a module both declares itself and receives
//! again through `export * from "..."`.
//!
//! ```javascript
//! let foo;
//! export { foo };              // Multiple exports of name 'foo'.
//! export * from "./export-all" // export-all.js exports foo as well
//! ```
//!
//! A [`ModuleGraph`] holds the [`ModuleRecord`]s of one analysis, each named
//! by its index. [`Export::run_once`] follows the `export *` directives of one
//! module, gathers with [`collect_exported_recursive`] every name that they
//! make visible, and reports each local export whose name is among them, once
//! for each place of declaration.
//!
//! ```
//! use export_collision::{Export, ModuleGraph, ModuleRecord, Span};
//!
//! let mut index = ModuleRecord::new();
//! index.add_export("foo", Span::new(18, 21));
//! index.add_star_export(Some("./export-all"));
//! index.load_module("./export-all", 1);
//! let mut export_all = ModuleRecord::new();
//! export_all.add_export("foo", Span::new(13, 16));
//!
//! let mut graph = ModuleGraph::new();
//! let module = graph.add_module(index);
//! graph.add_module(export_all);
//!
//! let diagnostics = Export.run_once(&graph, module);
//! assert_eq!(diagnostics.len(), 1);
//! assert_eq!(diagnostics[0].message(), "Multiple exports of name 'foo'.");
//! ```
//!
//! The modules:
//! - [`span`], [`module_record`]: the data;
//! - [`reach`]: where re-exports lead, as mathematics;
//! - [`collect`]: the traversal, proved against [`reach`];
//! - [`export`]: the rule and its diagnostics;
//! - [`laws`]: what holds of every report;
//! - [`fx`]: the hash collections, and what is assumed of them.

pub mod collect;
pub mod export;
pub mod fx;
pub mod laws;
pub mod module_record;
pub mod reach;
pub mod span;

pub use collect::collect_exported_recursive;
pub use export::{Export, ExportDiagnostic, Severity};
pub use module_record::{ExportEntry, LoadedModule, ModuleGraph, ModuleRecord};
pub use span::Span;
