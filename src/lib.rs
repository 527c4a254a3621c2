//! Merging of partial configuration values ("modules") into one final value.
//!
//! The [`merge::Merge`] trait states how two values of one shape combine; the
//! types under [`types`] are reusable merge policies; [`cell::MergeCell`] folds
//! many values into one; [`file::File`] holds the decisions of the module
//! import evaluator.
pub mod error;
pub mod merge;
pub mod impls;
pub mod keymap;
pub mod types;
pub mod cell;
pub mod file;
pub mod walk;

pub use crate::error::{Context, Error, ErrorKind};
pub use crate::merge::{merge, Merge};
