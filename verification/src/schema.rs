//! Schema metadata announced on the stream: table descriptions, and the
//! raw row payloads that are decoded against them.

use vstd::prelude::*;

verus! {

/// The semantic role of one column, sufficient to select its decoding
/// rule. Only `Identifier` (a fixed-length binary payload holding a
/// 128-bit unique identifier) has a specific rule; every other role is
/// left as an opaque raw value, the forward-compatible default.
#[derive(Clone, Copy, Debug, PartialEq, Eq, Structural)]
pub enum ColumnRole {
    Identifier,
    VariableText,
    Integer,
    Opaque,
}

/// One column of a table description: its declared name and its role.
/// The column's ordinal is its position in the owning descriptor's list.
#[derive(Clone, Debug, PartialEq, Eq)]
pub struct ColumnSpec {
    pub name: String,
    pub role: ColumnRole,
}

/// The most recent schema announced for a table identifier: the event a
/// row mutation must be matched against before it can be decoded.
#[derive(Clone, Debug, PartialEq, Eq)]
pub struct TableDescriptor {
    pub table_id: u64,
    pub table_name: String,
    pub columns: Vec<ColumnSpec>,
}

/// One row mutation's payload: an optional raw byte payload per column,
/// aligned positionally with the owning descriptor's column list. An
/// entry holding `None` is a present-but-NULL value; a missing entry
/// (the row being shorter than the schema) is a distinct state.
#[derive(Clone, Debug, PartialEq, Eq)]
pub struct RawRow {
    pub values: Vec<Option<Vec<u8>>>,
}

/// A row-mutation event: one or more row payloads for one table.
#[derive(Clone, Debug, PartialEq, Eq)]
pub struct RowEvent {
    pub table_id: u64,
    pub rows: Vec<RawRow>,
}

/// One fully-parsed event of the replication stream, as the dispatcher
/// classifies it. Event kinds other than table descriptions and row
/// mutations carry nothing this core interprets.
#[derive(Clone, Debug, PartialEq, Eq)]
pub enum Event {
    TableDescription(TableDescriptor),
    RowMutation(RowEvent),
    Other,
}

} // verus!
