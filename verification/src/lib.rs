//! Verified core of an editor assistant that refactors Elm code as the
//! programmer edits it.

pub mod editors;
pub mod elm_json;
pub mod error;
pub mod exports;
pub mod free_names;
pub mod idat;
pub mod import_edits;
pub mod imports;
pub mod intersperse;
pub mod kinds;
pub mod licensing;
pub mod module_name;
pub mod module_model;
pub mod module_reader;
pub mod msgpack;
pub mod names;
pub mod neovim;
pub mod paths;
pub mod analysis;
pub mod bytes;
pub mod change;
pub mod compilation;
pub mod changed_name;
pub mod compiler;
pub mod project;
pub mod qualify;
pub mod project_directory;
pub mod range;
pub mod refactor;
pub mod renaming;
pub mod respond;
pub mod simulation;
pub mod sized_stack;
pub mod syntax;
pub mod source_code;
pub mod text;
pub mod tree_diff;
pub mod vscode;
