//! Error kinds surfaced by the replication core.

use vstd::prelude::*;

verus! {

/// Every failure the replication core can report.
///
/// `NoLogsAvailable` is fatal at startup: the server reported no binary
/// logs to stream from. `TransportError` stands for a network or protocol
/// framing failure and is fatal to the stream. The remaining kinds are
/// per-event: a row event referencing a table identifier never described
/// (`UnknownTable`), a row missing a value where the schema requires one
/// (`MissingColumnValue`), and an identifier column whose payload is not
/// exactly 16 bytes long (`MalformedIdentifier`). Per-event failures are
/// isolated to their event; the caller may continue with the next one.
#[derive(Clone, Copy, Debug, PartialEq, Eq, Structural)]
pub enum ReplicationError {
    NoLogsAvailable,
    TransportError,
    UnknownTable { table_id: u64 },
    MissingColumnValue { ordinal: usize },
    MalformedIdentifier { ordinal: usize, length: usize },
}

} // verus!
