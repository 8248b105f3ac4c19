//! Named groups of shell commands: the store that holds them, the decisions of
//! the process runner, and the bookkeeping of a batch run.
//!
//! Nothing here starts a process or waits for one. The host performs the steps
//! that the library plans and reports what it observed; the library decides what
//! the caller gets back.

pub mod batch;
pub mod ident;
pub mod model;
pub mod runner;
pub mod store;
pub mod text;
