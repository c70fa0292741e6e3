//! Static import graph of a JavaScript/TypeScript project.
//!
//! A scan starts at an entry file and follows its resolved imports depth
//! first. Reading, parsing and resolving files is left to the caller: the
//! scanner is a state machine that names the next file to read and takes back
//! the imports found in it. What a scan collected is held in a [`Container`],
//! which can be filtered by inclusion patterns and exported.
pub mod pattern;
pub mod container;
pub mod scanner;
pub mod js;
pub mod laws;
pub mod graph;
pub mod dot;

pub use container::{Container, ContainerView, ExportGraph};
pub use scanner::{ScanState, Scanner, ScannerOptions, ScannerView, WalkView};
pub use js::{find_project_root, RootSearch};

pub use pattern::{GlobError, GlobPattern};
