use vstd::prelude::*;

verus! {

/// The failures that the synchronization core itself decides.
///
/// Connection, filesystem and statement-execution failures are raised by the
/// surrounding I/O layer; the core only ever reports these four.
#[derive(Clone, Copy, Debug, PartialEq, Eq, Structural)]
pub enum SyncError {
    /// A mode's file mask holds an empty segment or a segment that is not a
    /// well-formed glob pattern.
    InvalidPattern,
    /// No update mode of the configuration carries the requested name.
    ModeNotFound,
    /// A record with the requested name does not exist in the store at all
    /// (distinct from a record whose content column is null).
    FileNotFound,
    /// A required, non-nullable field was absent from a result row.
    DataIntegrity,
}

} // verus!
