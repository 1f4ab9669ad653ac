//! A task list: an ordered collection of to-do entries with stable,
//! never-reused identifiers, the commands that work on it, and the
//! conversion between a collection and the document kept in storage.
//!
//! - [`model`]: tasks, the collection and its operations.
//! - [`command`]: the commands, what each does and reports.
//! - [`store`]: the stored document, loading and saving.
//! - [`laws`]: what holds of the operations, whatever the collection.
//! - [`sequences`]: facts about filtered sequences that the proofs use.
//!
//! Every function is verified against its contract. The contracts speak of
//! the mathematical values of the types: [`model::TaskView`] for a task and
//! [`model::ListView`] for a collection.

pub mod command;
pub mod laws;
pub mod model;
pub mod sequences;
pub mod store;
