//! Verified core of a MySQL binary-log (binlog) replication client.
//!
//! The library covers the logic of a read-only replication consumer:
//! choosing the log position to start streaming from, tracking the most
//! recent schema description announced for each table identifier,
//! decoding raw row payloads against those descriptions, and dispatching
//! each incoming event to the right action. Network transport and the
//! surrounding async plumbing live outside the library; it exchanges only
//! plain values with them.

mod decoder;
mod dispatch;
mod errors;
mod ident;
mod position;
mod registry;
mod schema;
mod session;

pub use decoder::DecodedRecord;
pub use decoder::DecodedValue;
pub use decoder::decode;
pub use decoder::decode_column;
pub use decoder::decode_prefix;
pub use decoder::decode_spec;
pub use decoder::lemma_decode_deterministic;
pub use decoder::record_result_view;
pub use dispatch::DispatchOutcome;
pub use dispatch::Dispatcher;
pub use dispatch::dispatch_post;
pub use dispatch::lemma_described_row_is_resolved;
pub use dispatch::lemma_undescribed_row_is_unknown;
pub use dispatch::registry_after;
pub use dispatch::registry_step;
pub use dispatch::row_results_view;
pub use errors::ReplicationError;
pub use ident::be_bytes;
pub use ident::be_value;
pub use ident::identifier_from_bytes;
pub use ident::identifier_to_bytes;
pub use ident::lemma_be_bytes_of_value;
pub use ident::lemma_be_value_of_bytes;
pub use ident::pow256;
pub use position::BinLogPosition;
pub use position::StreamRequest;
pub use position::resolve_position;
pub use position::stream_request;
pub use registry::TableRegistry;
pub use registry::lemma_observe_overwrites;
pub use registry::map_of;
pub use schema::ColumnRole;
pub use schema::ColumnSpec;
pub use schema::Event;
pub use schema::RawRow;
pub use schema::RowEvent;
pub use schema::TableDescriptor;
pub use session::SessionInput;
pub use session::SessionPhase;
pub use session::is_terminal;
pub use session::lemma_terminal_is_absorbing;
pub use session::next_phase;
pub use session::next_phase_spec;
