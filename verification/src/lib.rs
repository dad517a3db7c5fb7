//! Import-resolution core for a process-model toolkit.
//!
//! Given an unlabeled byte stream and a requested capability, a requested
//! concrete object kind, or no constraint at all, the library walks an
//! ordered catalog of format handlers and returns the first successfully
//! imported value together with the winning handler, with strict
//! rewind/at-most-one-success semantics.

pub mod ebi_command;
pub mod ebi_error;
pub mod ebi_file_handler;
pub mod ebi_input;
pub mod ebi_object;
pub mod ebi_trait;
pub mod fraction;
pub mod importable;
pub mod importer;
pub mod multiple_reader;
pub mod prom_link;
pub mod resolution;
pub mod text;
