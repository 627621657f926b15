//! Picks the build command for a project directory.
//!
//! The caller tells which well-known marker files, folders and local
//! scripts exist; the library walks a fixed, ordered rule table over those
//! facts and answers with the steps to perform: what to say on the
//! diagnostic stream, which program to run with which arguments, and
//! whether to leave with a given exit code.

pub mod model;
pub mod rules;
pub mod plan;
pub mod table;
pub mod laws;
