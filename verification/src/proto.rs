//! The messages of the SQL gateway, as plain values, and the metadata keys that
//! servers and clients agree on.
use vstd::prelude::*;

verus! {

/// Metadata key of a machine-readable code on error responses.
pub const HEADER_RSQLITE_CODE: &'static str = "x-rsqlite-code";

/// Metadata key of the node id of the current writer, where it is known.
pub const HEADER_RSQLITE_LEADER_ID: &'static str = "x-rsqlite-leader-id";

/// Metadata key of the local generation of the responding node.
pub const HEADER_RSQLITE_GENERATION: &'static str = "x-rsqlite-generation";

/// Metadata key of the endpoint of the current writer, where it is known.
pub const HEADER_RSQLITE_LEADER_ENDPOINT: &'static str = "x-rsqlite-leader-endpoint";

/// The code that says that the responding node is not the active writer.
pub const CODE_NOT_LEADER: &'static str = "NOT_LEADER";

/// A value of a request or response. A float is kept as its IEEE 754 bits.
#[derive(Debug, PartialEq, Eq)]
pub enum ValueKind {
    NullValue(bool),
    IntValue(i64),
    FloatValue(u64),
    TextValue(String),
    BlobValue(Vec<u8>),
}

/// A value of a request or response; without a kind it stands for NULL.
#[derive(Debug, PartialEq, Eq)]
pub struct Value {
    pub value: Option<ValueKind>,
}

/// A named parameter of a statement.
#[derive(Debug, PartialEq, Eq)]
pub struct NamedParameter {
    pub name: String,
    pub value: Option<Value>,
}

/// The parameters of a statement.
#[derive(Debug, PartialEq, Eq)]
pub struct Parameters {
    pub positional: Vec<Value>,
    pub named: Vec<NamedParameter>,
}

/// An SQL statement with its parameters.
#[derive(Debug, PartialEq, Eq)]
pub struct Statement {
    pub sql: String,
    pub parameters: Option<Parameters>,
}

/// How the statements of a batch are put into a transaction.
#[derive(Debug, Clone, Copy, PartialEq, Eq, Structural)]
pub enum BatchTransactionMode {
    Deferred,
    Immediate,
    Exclusive,
    NoTransaction,
}

/// How fresh the data of a read has to be.
#[derive(Debug, Clone, Copy, PartialEq, Eq, Structural)]
pub enum ConsistencyLevel {
    Strong,
    Eventual,
}

/// The affinity of a column.
#[derive(Debug, Clone, Copy, PartialEq, Eq, Structural)]
pub enum ColumnType {
    Unspecified,
    Integer,
    Float,
    Text,
    Blob,
}

/// The role of a node in a status report.
#[derive(Debug, Clone, Copy, PartialEq, Eq, Structural)]
pub enum ReportedRole {
    Unspecified,
    Writer,
    Replica,
}

/// A column of a result.
#[derive(Debug, PartialEq, Eq)]
pub struct ColumnHeader {
    pub name: String,
    pub column_type: ColumnType,
    pub declared_type: String,
}

/// A row of a result.
#[derive(Debug, PartialEq, Eq)]
pub struct Row {
    pub values: Vec<Value>,
}

/// The result of a write.
#[derive(Debug, Clone, Copy, PartialEq, Eq)]
pub struct ExecuteResponse {
    pub rows_affected: u64,
    pub last_insert_rowid: i64,
    pub execution_time_us: u64,
    pub generation: u64,
}

/// The result of a read.
#[derive(Debug, PartialEq, Eq)]
pub struct QueryResponse {
    pub columns: Vec<ColumnHeader>,
    pub rows: Vec<Row>,
    pub total_rows: u64,
    pub execution_time_us: u64,
    pub generation: u64,
    pub is_replica_read: bool,
}

/// A part of the result of a read.
#[derive(Debug, PartialEq, Eq)]
pub struct QueryChunk {
    pub columns: Vec<ColumnHeader>,
    pub rows: Vec<Row>,
    pub is_last: bool,
    pub total_rows: u64,
    pub execution_time_us: u64,
}

/// What a statement of a batch gave.
#[derive(Debug, PartialEq, Eq)]
pub enum StatementOutcome {
    QueryResult(QueryResponse),
    ExecuteResult(ExecuteResponse),
}

/// The result of a statement of a batch: an outcome, or an error text.
#[derive(Debug, PartialEq, Eq)]
pub struct StatementResult {
    pub result: Option<StatementOutcome>,
    pub error: String,
}

/// The result of a batch.
#[derive(Debug, PartialEq, Eq)]
pub struct BatchResponse {
    pub results: Vec<StatementResult>,
    pub total_execution_time_us: u64,
    pub generation: u64,
    pub committed: bool,
}

/// A database of a node.
#[derive(Debug, PartialEq, Eq)]
pub struct DatabaseInfo {
    pub name: String,
    pub page_size: u32,
    pub page_count: u32,
    pub file_size_bytes: u64,
    pub journal_mode: String,
}

/// The result of dropping a database.
#[derive(Debug, Clone, Copy, PartialEq, Eq)]
pub struct DropDatabaseResponse {
    pub existed: bool,
    pub generation: u64,
}

/// The lease as a node sees it.
#[derive(Debug, PartialEq, Eq)]
pub struct LeaseStatus {
    pub is_held: bool,
    pub holder_node_id: String,
    pub generation: u64,
    pub renewed_at_secs: u64,
    pub ttl_secs: u64,
    pub is_expired: bool,
}

/// The status of a node.
#[derive(Debug, PartialEq, Eq)]
pub struct ClusterStatusResponse {
    pub node_id: String,
    pub role: ReportedRole,
    pub local_generation: u64,
    pub lease: Option<LeaseStatus>,
    pub current_leader_id: String,
    pub current_leader_endpoint: String,
    pub databases: Vec<DatabaseInfo>,
    pub uptime_secs: u64,
    pub version: String,
}

} // verus!
