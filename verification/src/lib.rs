//! Core of a small file-synchronization tool: it reconciles files in a local
//! directory with rows of a database table keyed by file name, under named
//! update modes that map to semicolon-delimited glob patterns.
//!
//! This crate holds the decision logic only: resolving a mode name to a
//! pattern set, matching names against patterns, planning which files to
//! insert or update on upload, and filtering stored records for download and
//! listing. All I/O (the database client, the filesystem, the console) lives
//! in the surrounding binary, which feeds this crate plain values.

pub mod command;
pub mod config;
pub mod datetime;
pub mod errors;
pub mod pattern;
pub mod reconcile;
pub mod records;
pub mod text;
pub mod updater;
