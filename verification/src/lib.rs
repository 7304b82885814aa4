//! Builds the dependency graph of a tree of Python source files from the
//! import lines of each file.

pub mod text;
pub mod py_std_libs;
pub mod discover;
pub mod imports;
pub mod resolver;
pub mod resolver_laws;
pub mod graph;
pub mod scan;
pub mod graph_laws;
pub mod viewer;
