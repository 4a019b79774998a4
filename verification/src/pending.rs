//! The pending-operation log: writes that the local store has taken and the
//! remote store has not yet confirmed, and the rows they are kept in.

use crate::json::{
    document_of, params_from, params_from_json, params_to_json, storable, JsonDocument,
    JsonDocumentView, lemma_params_round_trip,
};
use crate::query_params::{ParameterSet, ParameterSetView};
use crate::text::{copy_str, same_text, views};
use vstd::prelude::*;

verus! {

/// The table that holds the log.
pub const CREATE_PENDING_TABLE: &'static str =
    "CREATE TABLE IF NOT EXISTS libsql_pending_ops (
                            id INTEGER PRIMARY KEY,
                            sql TEXT NOT NULL,
                            params_json TEXT NOT NULL,
                            operation_type TEXT NOT NULL,
                            timestamp INTEGER NOT NULL
                        )";

/// The table that holds what the library notes about the local store.
pub const CREATE_METADATA_TABLE: &'static str =
    "CREATE TABLE IF NOT EXISTS libsql_metadata (
                            key TEXT PRIMARY KEY,
                            value TEXT
                        )";

/// Writes one row of the log; its four parameters are the statement, the
/// text of its parameters, the kind and the time.
pub const INSERT_PENDING: &'static str =
    "INSERT INTO libsql_pending_ops (sql, params_json, operation_type, timestamp) VALUES (?, ?, ?, ?)";

/// Removes the row of the log that has the id given as its one parameter.
pub const DELETE_PENDING: &'static str = "DELETE FROM libsql_pending_ops WHERE id = ?";

/// Reads the log, a row for each operation, in the order of the log.
pub const SELECT_PENDING: &'static str =
    "SELECT id, sql, params_json, operation_type, timestamp FROM libsql_pending_ops";

/// What is written as the id of an operation whose row could not be
/// written.
pub const NOT_PERSISTED: i64 = -1;

/// What kind of call an operation was made by.
#[derive(Debug, Clone, Copy, PartialEq, Eq, Structural)]
pub enum OperationType {
    Execute,
    ExecuteBatch,
}

/// The name that a kind is written to the log under.
pub open spec fn tag_of(kind: OperationType) -> Seq<char> {
    match kind {
        OperationType::Execute => "Execute"@,
        OperationType::ExecuteBatch => "ExecuteBatch"@,
    }
}

/// The kind that a name in the log is read as: a batch for `ExecuteBatch`,
/// a single statement for every other text.
pub open spec fn kind_of(tag: Seq<char>) -> OperationType {
    if tag == "ExecuteBatch"@ {
        OperationType::ExecuteBatch
    } else {
        OperationType::Execute
    }
}

/// A kind is read back from its name.
pub proof fn lemma_kind_round_trip(kind: OperationType)
    ensures
        kind_of(tag_of(kind)) == kind,
{
    reveal_strlit("Execute");
    reveal_strlit("ExecuteBatch");
    assert("Execute"@.len() != "ExecuteBatch"@.len());
}

impl OperationType {
    /// The name that this kind is written to the log under.
    pub fn tag(&self) -> (r: String)
        ensures
            r@ == tag_of(*self),
    {
        match self {
            OperationType::Execute => copy_str("Execute"),
            OperationType::ExecuteBatch => copy_str("ExecuteBatch"),
        }
    }

    /// The kind that a name in the log is read as.
    pub fn from_tag(tag: &str) -> (r: OperationType)
        ensures
            r == kind_of(tag@),
    {
        if same_text(tag, "ExecuteBatch") {
            OperationType::ExecuteBatch
        } else {
            OperationType::Execute
        }
    }
}

/// The signed number with the same 64 bits as `t`.
pub open spec fn as_signed(t: u64) -> i64 {
    if t <= 0x7fff_ffff_ffff_ffff {
        t as i64
    } else {
        (t - 0x1_0000_0000_0000_0000) as i64
    }
}

/// The unsigned number with the same 64 bits as `t`.
pub open spec fn as_unsigned(t: i64) -> u64 {
    if t >= 0 {
        t as u64
    } else {
        (t + 0x1_0000_0000_0000_0000) as u64
    }
}

/// The signed number with the same 64 bits as `t`.
pub fn to_signed(t: u64) -> (r: i64)
    ensures
        r == as_signed(t),
{
    if t <= 0x7fff_ffff_ffff_ffff {
        t as i64
    } else {
        let low: u64 = t - 0x8000_0000_0000_0000;
        (low as i64) + i64::MIN
    }
}

/// The unsigned number with the same 64 bits as `t`.
pub fn to_unsigned(t: i64) -> (r: u64)
    ensures
        r == as_unsigned(t),
{
    if t >= 0 {
        t as u64
    } else {
        let low: i64 = t - i64::MIN;
        (low as u64) + 0x8000_0000_0000_0000
    }
}

/// A write that waits to be replayed on the remote store. `id` is the id of
/// its row in the log; an operation without one has not been written there.
/// `timestamp` counts the seconds since 1970 at which it was made.
#[derive(Debug, Clone, PartialEq)]
pub struct PendingOperation {
    pub id: Option<i64>,
    pub sql: String,
    pub params: ParameterSet,
    pub operation_type: OperationType,
    pub timestamp: u64,
}

/// What a `PendingOperation` stands for.
pub struct PendingOperationView {
    pub id: Option<i64>,
    pub sql: Seq<char>,
    pub params: ParameterSetView,
    pub operation_type: OperationType,
    pub timestamp: u64,
}

impl View for PendingOperation {
    type V = PendingOperationView;

    open spec fn view(&self) -> PendingOperationView {
        PendingOperationView {
            id: self.id,
            sql: self.sql@,
            params: self.params@,
            operation_type: self.operation_type,
            timestamp: self.timestamp,
        }
    }
}

/// The row that is written for an operation.
#[derive(Debug, Clone, PartialEq)]
pub struct NewLogRow {
    pub sql: String,
    pub params_json: JsonDocument,
    pub operation_type: String,
    pub timestamp: i64,
}

/// What a `NewLogRow` stands for.
pub struct NewLogRowView {
    pub sql: Seq<char>,
    pub params_json: JsonDocumentView,
    pub operation_type: Seq<char>,
    pub timestamp: i64,
}

impl View for NewLogRow {
    type V = NewLogRowView;

    open spec fn view(&self) -> NewLogRowView {
        NewLogRowView {
            sql: self.sql@,
            params_json: self.params_json@,
            operation_type: self.operation_type@,
            timestamp: self.timestamp,
        }
    }
}

/// A row as it is read from the log. `params_json` is the document that
/// the text of the parameters describes, and nothing where that text
/// describes none.
#[derive(Debug, Clone, PartialEq)]
pub struct LogRow {
    pub id: i64,
    pub sql: String,
    pub params_json: Option<JsonDocument>,
    pub operation_type: String,
    pub timestamp: i64,
}

/// What a `LogRow` stands for.
pub struct LogRowView {
    pub id: i64,
    pub sql: Seq<char>,
    pub params_json: Option<JsonDocumentView>,
    pub operation_type: Seq<char>,
    pub timestamp: i64,
}

impl View for LogRow {
    type V = LogRowView;

    open spec fn view(&self) -> LogRowView {
        LogRowView {
            id: self.id,
            sql: self.sql@,
            params_json: match self.params_json {
                Some(d) => Some(d@),
                None => None,
            },
            operation_type: self.operation_type@,
            timestamp: self.timestamp,
        }
    }
}

/// The row that an operation is written as.
pub open spec fn row_of(op: PendingOperationView) -> NewLogRowView {
    NewLogRowView {
        sql: op.sql,
        params_json: document_of(op.params),
        operation_type: tag_of(op.operation_type),
        timestamp: as_signed(op.timestamp),
    }
}

/// The operation that a row is read as. Parameters whose text describes no
/// document are read as none.
pub open spec fn operation_of(row: LogRowView) -> PendingOperationView {
    PendingOperationView {
        id: Some(row.id),
        sql: row.sql,
        params: match row.params_json {
            Some(d) => params_from(d),
            None => ParameterSetView::Absent,
        },
        operation_type: kind_of(row.operation_type),
        timestamp: as_unsigned(row.timestamp),
    }
}

/// The operations that rows are read as, in order.
pub open spec fn operations_of(rows: Seq<LogRowView>) -> Seq<PendingOperationView> {
    Seq::new(rows.len(), |i: int| operation_of(rows[i]))
}

/// What the log gives back for an operation written under `id`: the
/// operation itself, with that id.
pub proof fn lemma_row_round_trip(op: PendingOperationView, id: i64)
    requires
        storable(op.params),
    ensures
        operation_of(
            LogRowView {
                id,
                sql: row_of(op).sql,
                params_json: Some(row_of(op).params_json),
                operation_type: row_of(op).operation_type,
                timestamp: row_of(op).timestamp,
            },
        ) == (PendingOperationView { id: Some(id), ..op }),
{
    lemma_params_round_trip(op.params);
    lemma_kind_round_trip(op.operation_type);
}

impl PendingOperation {
    /// An operation that stands for the same as this one.
    pub fn copy(&self) -> (r: PendingOperation)
        ensures
            r@ == self@,
    {
        PendingOperation {
            id: self.id,
            sql: self.sql.clone(),
            params: self.params.copy(),
            operation_type: self.operation_type,
            timestamp: self.timestamp,
        }
    }

    /// The row to write for this operation.
    pub fn to_row(&self) -> (r: NewLogRow)
        ensures
            r@ == row_of(self@),
    {
        NewLogRow {
            sql: self.sql.clone(),
            params_json: params_to_json(&self.params),
            operation_type: self.operation_type.tag(),
            timestamp: to_signed(self.timestamp),
        }
    }

    /// The operation that `row` holds.
    pub fn from_row(row: &LogRow) -> (r: PendingOperation)
        ensures
            r@ == operation_of(row@),
    {
        let params = match &row.params_json {
            Some(d) => params_from_json(d),
            None => ParameterSet::Absent,
        };
        PendingOperation {
            id: Some(row.id),
            sql: row.sql.clone(),
            params,
            operation_type: OperationType::from_tag(row.operation_type.as_str()),
            timestamp: to_unsigned(row.timestamp),
        }
    }
}

/// The operations that `rows` hold, in the order of the rows.
pub fn load_pending_operations(rows: &Vec<LogRow>) -> (r: Vec<PendingOperation>)
    ensures
        views(r@) == operations_of(views(rows@)),
{
    let mut ops: Vec<PendingOperation> = Vec::new();
    let mut i: usize = 0;
    while i < rows.len()
        invariant
            i <= rows.len(),
            ops@.len() == i,
            forall|j: int| 0 <= j < i ==> ops@[j]@ == operation_of(rows@[j]@),
        decreases rows.len() - i,
    {
        ops.push(PendingOperation::from_row(&rows[i]));
        i += 1;
    }
    assert(views(ops@) =~= operations_of(views(rows@)));
    ops
}

} // verus!
