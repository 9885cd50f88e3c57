//! A module bundling task, verified with Verus.
//!
//! A task resolves its entry points, starts a bundler engine on them, accepts
//! the bundles that the engine links and renders each into an artifact. The
//! engine and the printing service are the caller's: the task is handed them as
//! functions and is verified for whatever they answer.
//!
//! - [`config`]: the configuration of a task and its minify flag.
//! - [`entries`]: entry resolution.
//! - [`bundles`]: bundle kinds and their acceptance.
//! - [`output`]: artifacts and the output renderer.
//! - [`task`]: the task itself, [`task::execute`], and the laws of its outcome.
//! - [`error`]: failures and their messages.
//! - [`keyed`]: the model of a map filled pair by pair.
//! - [`maps`]: the two hash maps of a task and the trusted calls that fill them.
//! - [`paths`]: joining a path onto a directory.

pub mod bundles;
pub mod config;
pub mod entries;
pub mod error;
pub mod keyed;
pub mod maps;
pub mod output;
pub mod paths;
pub mod task;
