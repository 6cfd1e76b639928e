//! Position Resolver: picks the binlog position at which streaming starts.

use vstd::prelude::*;

use crate::errors::ReplicationError;

verus! {

/// One entry of the server-reported list of binary logs: an exact
/// resumable point in the replication history.
#[derive(Clone, Debug, PartialEq, Eq)]
pub struct BinLogPosition {
    pub filename: String,
    pub position: u64,
    pub encrypted: String,
}

/// The request handed to the replication transport to open the stream:
/// the chosen log file and the byte offset to start at.
#[derive(Clone, Debug, PartialEq, Eq)]
pub struct StreamRequest {
    pub filename: String,
    pub start_position: u64,
}

/// Selects the position at which streaming should begin: the last entry
/// of the server-reported list, the server being trusted to report its
/// logs in append order. An empty list is a failed startup precondition.
pub fn resolve_position(logs: Vec<BinLogPosition>) -> (r: Result<
    BinLogPosition,
    ReplicationError,
>)
    ensures
        logs@.len() > 0 ==> (r matches Ok(p) && p == logs@.last()),
        logs@.len() == 0 ==> (r matches Err(e) && e == ReplicationError::NoLogsAvailable),
{
    let mut logs = logs;
    match logs.pop() {
        Some(p) => Ok(p),
        None => Err(ReplicationError::NoLogsAvailable),
    }
}

/// Builds the transport request that resumes streaming at `pos`.
pub fn stream_request(pos: BinLogPosition) -> (r: StreamRequest)
    ensures
        r.filename == pos.filename,
        r.start_position == pos.position,
{
    StreamRequest { filename: pos.filename, start_position: pos.position }
}

} // verus!
