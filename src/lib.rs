//! Keeps per-language project skeletons in step with one API contract.
//!
//! The contract is extracted into a canonical `Project` (data models and
//! requests); each adaptor's live state is then reconciled against it.

pub mod collect;
pub mod config;
pub mod document;
pub mod error;
pub mod extract;
pub mod filesystem;
pub mod model;
pub mod schema;
pub mod service;
pub mod sync;
pub mod text;
pub mod wire;

pub use model::{Info, Method, Model, Project, Request, Variable, VariableType};
