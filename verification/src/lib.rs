//! A typed configuration and invocation layer for an external command-line
//! statistical engine.
//!
//! The crate models the engine's argument grammar as a tree of option
//! groups.  Every option has a canonical default; serialization walks the
//! tree and emits only the tokens whose values differ from those defaults.
//! The dual direction, ingesting the engine's CSV result stream back into
//! typed tables, lives in [`result_analyzer`].

use vstd::prelude::*;

pub mod arg_paths;
pub mod data_entries;
pub mod error;
pub mod fixed;
pub mod prelude;
pub mod render;
pub mod result_analyzer;
pub mod stan_command;
pub mod stan_model;

verus! {

/// The failure taxonomy of the crate's top-level operations.
///
/// I/O causes are carried as plain message strings: the filesystem and
/// process work itself happens outside this library, which only records
/// what went wrong.
#[derive(Debug, Clone, PartialEq, Eq)]
pub enum StanError {
    DataError(String),
    CompileIOError(String),
    IoError(String),
    CompileError(String),
    ModelIsNotReady,
    BadParameter(String),
}

/// A value that can be rendered as a data file for the external engine.
/// `spec_stan_data` pins the exact text that `write_as_stan_data`
/// produces.
pub trait StanData {
    /// The exact text of the rendered data file.
    spec fn spec_stan_data(&self) -> Seq<char>;

    /// Renders the value as the engine's JSON data format.
    fn write_as_stan_data(&self) -> (r: String)
        ensures
            r@ == self.spec_stan_data(),
    ;
}

} // verus!
