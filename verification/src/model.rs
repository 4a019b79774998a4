//! The offline-write connection as a transition system. A call is a flow
//! of steps; each step takes the reply to the last request and gives the
//! state after it, from which the next request follows. Everything here is
//! stated over views; `offline_write` holds the code that does it.

use crate::bootstrap::{
    all_guarded, insert_or_ignore, says_done, select_all, table_info, FLAG_QUERY, MARK_DONE,
    SCHEMA_QUERY, TABLES_QUERY,
};
use crate::connectivity::{probe_address, ConnectivityCache, EndpointCaches};
use crate::pending::{
    operations_of, row_of, OperationType, PendingOperationView, CREATE_METADATA_TABLE,
    CREATE_PENDING_TABLE, NOT_PERSISTED,
};
use crate::protocol::{failure_of, Clock, OutcomeView, ReplyView, RequestView, Store};
use crate::query_params::{ParameterSetView, QueryValueView};
use crate::text::decimal;
use vstd::prelude::*;

verus! {

/// Which call a flow carries out.
#[derive(Debug, Clone, Copy, PartialEq, Eq, Structural)]
pub enum Call {
    Construct,
    Execute,
    ExecuteBatch,
    Query,
    SyncPending,
    ManualSync,
    InitialSync,
    IsOnline,
    CheckConnectivity,
    Metadata,
    Reset,
}

/// Where a flow stands: what the last request was for.
#[derive(Debug, Clone, Copy, PartialEq, Eq, Structural)]
pub enum Stage {
    OpenLocal,
    CreatePendingTable,
    CreateMetadataTable,
    OpenRemote,
    FirstProbe,
    LoadPending,
    WriteLocal,
    Persist,
    Probe,
    Replay,
    Remove,
    ReadFlag,
    FetchSchemas,
    ApplySchema,
    FetchTables,
    FetchRows,
    FetchColumns,
    InsertRow,
    MarkDone,
    Finished,
}

/// What a connection stands for.
pub struct ConnectionView {
    pub db_path: Seq<char>,
    pub auth_token: Seq<char>,
    pub remote_url: Seq<char>,
    pub flags: i32,
    pub encryption_key: Seq<char>,
    pub is_online: bool,
    /// The cache of the remote store at `remote_url`, which the connection
    /// shares with every other connection to it.
    pub cache: ConnectivityCache,
    pub pending: Seq<PendingOperationView>,
}

/// What a flow stands for.
pub struct FlowView {
    pub call: Call,
    pub stage: Stage,
    /// The caller's statement and its parameters.
    pub sql: Seq<char>,
    pub params: ParameterSetView,
    /// What executing it on the local store gave, and when.
    pub affected: u64,
    pub timestamp: u64,
    /// The operations taken from the queue to be replayed, how many of them
    /// have been dealt with, which of these failed and how many succeeded.
    pub drained: Seq<PendingOperationView>,
    pub cursor: nat,
    pub failed: Seq<PendingOperationView>,
    pub synced: nat,
    /// The statements and tables of the remote store, the one at hand; the
    /// rows of that table, the one at hand, and the statement that writes
    /// one.
    pub schemas: Seq<Seq<char>>,
    pub tables: Seq<Seq<char>>,
    pub item: nat,
    pub rows: Seq<Seq<QueryValueView>>,
    pub row: nat,
    pub insert_sql: Seq<char>,
    /// The address that is probed.
    pub target: Seq<char>,
    /// Why the bootstrap failed, where one did while a connection was set
    /// up.
    pub bootstrap_error: Option<Seq<char>>,
    /// What the call came to, once it is over.
    pub outcome: OutcomeView,
}

/// Said where a sync is asked for and the remote store is out of reach.
pub const OFFLINE: &'static str = "Cannot sync: no internet connection";

/// Said where the table of the log cannot be made.
pub const NO_PENDING_TABLE: &'static str = "Failed to create pending_ops table";

/// Said where the table of notes cannot be made.
pub const NO_METADATA_TABLE: &'static str = "Failed to create metadata table";

/// The flags that a local store is opened with where none are given.
pub const DEFAULT_FLAGS: i32 = 6;

/// The flow of a call before its first step.
pub open spec fn blank(call: Call) -> FlowView {
    FlowView {
        call,
        stage: Stage::Finished,
        sql: Seq::empty(),
        params: ParameterSetView::Absent,
        affected: 0,
        timestamp: 0,
        drained: Seq::empty(),
        cursor: 0,
        failed: Seq::empty(),
        synced: 0,
        schemas: Seq::empty(),
        tables: Seq::empty(),
        item: 0,
        rows: Seq::empty(),
        row: 0,
        insert_sql: Seq::empty(),
        target: Seq::empty(),
        bootstrap_error: None,
        outcome: OutcomeView::Ready { bootstrap_error: None },
    }
}

/// What has to hold of a flow for its next request to make sense.
pub open spec fn wf(f: FlowView) -> bool {
    &&& (f.stage == Stage::Replay || f.stage == Stage::Remove) ==> f.cursor < f.drained.len()
        && f.synced + f.failed.len() == f.cursor
    &&& f.stage == Stage::Remove ==> f.drained[f.cursor as int].id is Some
    &&& f.stage == Stage::ApplySchema ==> f.item < f.schemas.len()
    &&& (f.stage == Stage::FetchRows || f.stage == Stage::FetchColumns || f.stage
        == Stage::InsertRow) ==> f.item < f.tables.len()
    &&& f.stage == Stage::InsertRow ==> f.row < f.rows.len()
}

/// The flow at its end, with what the call came to.
pub open spec fn finished(f: FlowView, outcome: OutcomeView) -> FlowView {
    FlowView { stage: Stage::Finished, outcome, ..f }
}

/// What a write comes to once the local store has taken it.
pub open spec fn write_outcome(f: FlowView) -> OutcomeView {
    if f.call == Call::ExecuteBatch {
        OutcomeView::Executed(true)
    } else {
        OutcomeView::Affected(f.affected)
    }
}

/// The operation that a write is queued as, under the id of its row.
pub open spec fn queued(f: FlowView, id: Option<i64>) -> PendingOperationView {
    PendingOperationView {
        id,
        sql: f.sql,
        params: f.params,
        operation_type: if f.call == Call::ExecuteBatch {
            OperationType::ExecuteBatch
        } else {
            OperationType::Execute
        },
        timestamp: f.timestamp,
    }
}

/// The report of a sync made by hand.
pub open spec fn sync_message(synced: nat, remaining: nat) -> Seq<char> {
    "Synced "@ + decimal(synced) + " operations, "@ + decimal(remaining) + " remaining"@
}

/// The request that replays an operation on the remote store: a statement
/// with the parameters it had, a batch as the text it was.
pub open spec fn replay_request(op: PendingOperationView) -> RequestView {
    match op.operation_type {
        OperationType::Execute => RequestView::Execute {
            store: Store::Remote,
            sql: op.sql,
            params: op.params,
        },
        OperationType::ExecuteBatch => RequestView::ExecuteBatch {
            store: Store::Remote,
            sql: op.sql,
        },
    }
}

/// Whether a reply says that an operation was replayed.
pub open spec fn replayed(op: PendingOperationView, reply: ReplyView) -> bool {
    match op.operation_type {
        OperationType::Execute => reply is Affected,
        OperationType::ExecuteBatch => reply is Done,
    }
}

/// The end of a replay: what failed goes back to the end of the queue,
/// behind what was queued in the meantime.
pub open spec fn end_replay(f: FlowView, c: ConnectionView) -> (FlowView, ConnectionView) {
    let c2 = ConnectionView { pending: c.pending + f.failed, ..c };
    let outcome = match f.call {
        Call::SyncPending => OutcomeView::Synced(f.synced),
        Call::ManualSync => OutcomeView::Message(
            sync_message(f.synced, c2.pending.len()),
        ),
        _ => write_outcome(f),
    };
    (
        finished(FlowView { drained: Seq::empty(), cursor: 0, failed: Seq::empty(), ..f }, outcome),
        c2,
    )
}

/// On to the next operation to replay, or to the end where none is left.
pub open spec fn next_replay(f: FlowView, c: ConnectionView) -> (FlowView, ConnectionView) {
    if f.cursor < f.drained.len() {
        (FlowView { stage: Stage::Replay, ..f }, c)
    } else {
        end_replay(f, c)
    }
}

/// The start of a replay: the whole queue is taken, to be replayed in its
/// order.
pub open spec fn begin_replay(f: FlowView, c: ConnectionView) -> (FlowView, ConnectionView) {
    next_replay(
        FlowView { drained: c.pending, cursor: 0, failed: Seq::empty(), synced: 0, ..f },
        ConnectionView { pending: Seq::empty(), ..c },
    )
}

/// What a call does once it is known whether the remote store is in reach.
pub open spec fn once_known(f: FlowView, c: ConnectionView, online: bool) -> (
    FlowView,
    ConnectionView,
) {
    match f.call {
        Call::Execute | Call::ExecuteBatch => if online {
            begin_replay(f, c)
        } else {
            (finished(f, write_outcome(f)), c)
        },
        Call::SyncPending | Call::ManualSync => if online {
            begin_replay(f, c)
        } else {
            (finished(f, OutcomeView::Error(OFFLINE@)), c)
        },
        Call::Query => (
            finished(
                f,
                OutcomeView::Query {
                    store: if online {
                        Store::Remote
                    } else {
                        Store::Local
                    },
                    sql: f.sql,
                    params: f.params,
                },
            ),
            c,
        ),
        Call::Metadata => (
            finished(
                f,
                OutcomeView::Route(
                    if online {
                        Store::Remote
                    } else {
                        Store::Local
                    },
                ),
            ),
            c,
        ),
        Call::Reset => (finished(f, OutcomeView::Reset { remote: online }), c),
        Call::CheckConnectivity => (
            finished(f, OutcomeView::Online(online)),
            ConnectionView { is_online: online, ..c },
        ),
        _ => (finished(f, OutcomeView::Online(online)), c),
    }
}

/// The connection as a call finds it: with the cache that the process
/// holds for the address of its remote store.
pub open spec fn at_endpoint(c: ConnectionView, caches: EndpointCaches) -> ConnectionView {
    ConnectionView { cache: caches.cache_of(c.remote_url), ..c }
}

/// The connection with the answer of a probe noted.
pub open spec fn noted(c: ConnectionView, now: u64, online: bool) -> ConnectionView {
    ConnectionView { cache: ConnectivityCache { last_check: Some((now, online)) }, ..c }
}

/// A probe of the remote store, or the answer where it is known without
/// one: an address that cannot be probed is out of reach.
pub open spec fn probe(f: FlowView, c: ConnectionView, now: u64) -> (FlowView, ConnectionView) {
    match probe_address(c.remote_url) {
        Ok(target) => (FlowView { stage: Stage::Probe, target, ..f }, c),
        Err(_) => once_known(f, noted(c, now, false), false),
    }
}

/// Whether the remote store is in reach, by the cache where it holds an
/// answer and by a probe where it does not.
pub open spec fn reach(f: FlowView, c: ConnectionView, now: u64) -> (FlowView, ConnectionView) {
    match c.cache.fresh(now) {
        Some(online) => once_known(f, c, online),
        None => probe(f, c, now),
    }
}

/// The first look at the remote store, when a connection is set up.
pub open spec fn first_probe(f: FlowView, c: ConnectionView) -> (FlowView, ConnectionView) {
    match probe_address(c.remote_url) {
        Ok(target) => (FlowView { stage: Stage::FirstProbe, target, ..f }, c),
        Err(_) => (FlowView { stage: Stage::LoadPending, ..f }, ConnectionView {
            is_online: false,
            ..c
        }),
    }
}

/// The end of the bootstrap. A call for the bootstrap itself reports how it
/// went. Setting up the connection goes on to read the log and keeps the
/// error to report it at its end. A sync made by hand goes on to sync.
pub open spec fn end_bootstrap(
    f: FlowView,
    c: ConnectionView,
    error: Option<Seq<char>>,
    now: u64,
) -> (FlowView, ConnectionView) {
    match f.call {
        Call::Construct => (
            FlowView { stage: Stage::LoadPending, bootstrap_error: error, ..f },
            c,
        ),
        Call::ManualSync => reach(f, c, now),
        _ => (
            finished(
                f,
                match error {
                    Some(m) => OutcomeView::Error(m),
                    None => OutcomeView::Bootstrapped,
                },
            ),
            c,
        ),
    }
}

/// On to the next statement of the schema, or to the tables.
pub open spec fn next_schema(f: FlowView) -> FlowView {
    if f.item < f.schemas.len() {
        FlowView { stage: Stage::ApplySchema, ..f }
    } else {
        FlowView { stage: Stage::FetchTables, item: 0, ..f }
    }
}

/// On to the next table, or to the note that ends the bootstrap.
pub open spec fn next_table(f: FlowView) -> FlowView {
    if f.item < f.tables.len() {
        FlowView { stage: Stage::FetchRows, ..f }
    } else {
        FlowView { stage: Stage::MarkDone, ..f }
    }
}

/// The state after the reply to the request of `f`.
pub open spec fn step(f: FlowView, c: ConnectionView, reply: ReplyView, clock: Clock) -> (
    FlowView,
    ConnectionView,
) {
    let now = clock.monotonic_ms;
    let failure = failure_of(reply);
    match f.stage {
        Stage::Finished => (f, c),
        Stage::OpenLocal => match reply {
            ReplyView::Done => (FlowView { stage: Stage::CreatePendingTable, ..f }, c),
            _ => (finished(f, OutcomeView::Fatal(failure)), c),
        },
        Stage::CreatePendingTable => match reply {
            ReplyView::Affected(_) => (FlowView { stage: Stage::CreateMetadataTable, ..f }, c),
            _ => (finished(f, OutcomeView::Fatal(NO_PENDING_TABLE@)), c),
        },
        Stage::CreateMetadataTable => match reply {
            ReplyView::Affected(_) => (FlowView { stage: Stage::OpenRemote, ..f }, c),
            _ => (finished(f, OutcomeView::Fatal(NO_METADATA_TABLE@)), c),
        },
        Stage::OpenRemote => match reply {
            ReplyView::Done => first_probe(f, c),
            _ => (finished(f, OutcomeView::Fatal(failure)), c),
        },
        Stage::FirstProbe => {
            let online = reply == ReplyView::Reachable(true);
            let c2 = ConnectionView { is_online: online, ..c };
            if online {
                (FlowView { stage: Stage::ReadFlag, ..f }, c2)
            } else {
                (FlowView { stage: Stage::LoadPending, ..f }, c2)
            }
        },
        Stage::LoadPending => {
            let pending = match reply {
                ReplyView::Pending(rows) => operations_of(rows),
                _ => Seq::empty(),
            };
            (
                finished(f, OutcomeView::Ready { bootstrap_error: f.bootstrap_error }),
                ConnectionView { pending, ..c },
            )
        },
        Stage::WriteLocal => match reply {
            ReplyView::Affected(n) => if f.call == Call::ExecuteBatch {
                (finished(f, OutcomeView::Error(failure)), c)
            } else {
                (
                    FlowView {
                        stage: Stage::Persist,
                        affected: n,
                        timestamp: clock.unix_secs,
                        ..f
                    },
                    c,
                )
            },
            ReplyView::Done => if f.call == Call::ExecuteBatch {
                (FlowView { stage: Stage::Persist, timestamp: clock.unix_secs, ..f }, c)
            } else {
                (finished(f, OutcomeView::Error(failure)), c)
            },
            _ => (finished(f, OutcomeView::Error(failure)), c),
        },
        Stage::Persist => {
            let id = match reply {
                ReplyView::RowId(id) => id,
                _ => NOT_PERSISTED,
            };
            reach(f, ConnectionView { pending: c.pending.push(queued(f, Some(id))), ..c }, now)
        },
        Stage::Probe => {
            let online = reply == ReplyView::Reachable(true);
            once_known(f, noted(c, now, online), online)
        },
        Stage::Replay => {
            let op = f.drained[f.cursor as int];
            if replayed(op, reply) {
                if op.id is Some {
                    (FlowView { stage: Stage::Remove, ..f }, c)
                } else {
                    next_replay(
                        FlowView {
                            cursor: f.cursor + 1,
                            synced: f.synced + 1,
                            ..f
                        },
                        c,
                    )
                }
            } else {
                next_replay(
                    FlowView { cursor: f.cursor + 1, failed: f.failed.push(op), ..f },
                    c,
                )
            }
        },
        Stage::Remove => next_replay(
            FlowView { cursor: f.cursor + 1, synced: f.synced + 1, ..f },
            c,
        ),
        Stage::ReadFlag => match reply {
            ReplyView::Texts(values) => if says_done(values) {
                end_bootstrap(f, c, None, now)
            } else {
                (FlowView { stage: Stage::FetchSchemas, ..f }, c)
            },
            _ => end_bootstrap(f, c, Some(failure), now),
        },
        Stage::FetchSchemas => match reply {
            ReplyView::Texts(sqls) => (
                next_schema(FlowView { schemas: all_guarded(sqls), item: 0, ..f }),
                c,
            ),
            _ => end_bootstrap(f, c, Some(failure), now),
        },
        Stage::ApplySchema => match reply {
            ReplyView::Affected(_) => (
                next_schema(FlowView { item: f.item + 1, ..f }),
                c,
            ),
            _ => end_bootstrap(f, c, Some(failure), now),
        },
        Stage::FetchTables => match reply {
            ReplyView::Texts(names) => (next_table(FlowView { tables: names, item: 0, ..f }), c),
            _ => end_bootstrap(f, c, Some(failure), now),
        },
        Stage::FetchRows => match reply {
            ReplyView::Rows(rows) => if rows.len() > 0 {
                (FlowView { stage: Stage::FetchColumns, rows, ..f }, c)
            } else {
                (next_table(FlowView { item: f.item + 1, ..f }), c)
            },
            _ => end_bootstrap(f, c, Some(failure), now),
        },
        Stage::FetchColumns => match reply {
            ReplyView::Texts(columns) => if f.rows.len() > 0 {
                (
                    FlowView {
                        stage: Stage::InsertRow,
                        insert_sql: insert_or_ignore(f.tables[f.item as int], columns),
                        row: 0,
                        ..f
                    },
                    c,
                )
            } else {
                (next_table(FlowView { item: f.item + 1, ..f }), c)
            },
            _ => end_bootstrap(f, c, Some(failure), now),
        },
        Stage::InsertRow => match reply {
            ReplyView::Affected(_) => if f.row + 1 < f.rows.len() {
                (FlowView { row: f.row + 1, ..f }, c)
            } else {
                (next_table(FlowView { item: f.item + 1, ..f }), c)
            },
            _ => end_bootstrap(f, c, Some(failure), now),
        },
        Stage::MarkDone => match reply {
            ReplyView::Affected(_) => end_bootstrap(f, c, None, now),
            _ => end_bootstrap(f, c, Some(failure), now),
        },
    }
}

/// What the host is asked to do in the state `f`.
pub open spec fn request_of(f: FlowView, c: ConnectionView) -> RequestView {
    match f.stage {
        Stage::OpenLocal => RequestView::OpenLocal {
            path: c.db_path,
            flags: c.flags,
            encryption_key: c.encryption_key,
        },
        Stage::CreatePendingTable => RequestView::Execute {
            store: Store::Local,
            sql: CREATE_PENDING_TABLE@,
            params: ParameterSetView::Absent,
        },
        Stage::CreateMetadataTable => RequestView::Execute {
            store: Store::Local,
            sql: CREATE_METADATA_TABLE@,
            params: ParameterSetView::Absent,
        },
        Stage::OpenRemote => RequestView::OpenRemote {
            url: c.remote_url,
            auth_token: c.auth_token,
        },
        Stage::FirstProbe | Stage::Probe => RequestView::Probe { target: f.target },
        Stage::LoadPending => RequestView::LoadPending,
        Stage::WriteLocal => if f.call == Call::ExecuteBatch {
            RequestView::ExecuteBatch { store: Store::Local, sql: f.sql }
        } else {
            RequestView::Execute { store: Store::Local, sql: f.sql, params: f.params }
        },
        Stage::Persist => RequestView::Persist { row: row_of(queued(f, None)) },
        Stage::Replay => replay_request(f.drained[f.cursor as int]),
        Stage::Remove => RequestView::Remove { id: f.drained[f.cursor as int].id->0 },
        Stage::ReadFlag => RequestView::QueryTexts {
            store: Store::Local,
            sql: FLAG_QUERY@,
            column: 0,
        },
        Stage::FetchSchemas => RequestView::QueryTexts {
            store: Store::Remote,
            sql: SCHEMA_QUERY@,
            column: 0,
        },
        Stage::ApplySchema => RequestView::Execute {
            store: Store::Local,
            sql: f.schemas[f.item as int],
            params: ParameterSetView::Absent,
        },
        Stage::FetchTables => RequestView::QueryTexts {
            store: Store::Remote,
            sql: TABLES_QUERY@,
            column: 0,
        },
        Stage::FetchRows => RequestView::QueryRows {
            store: Store::Remote,
            sql: select_all(f.tables[f.item as int]),
        },
        Stage::FetchColumns => RequestView::QueryTexts {
            store: Store::Remote,
            sql: table_info(f.tables[f.item as int]),
            column: 1,
        },
        Stage::InsertRow => RequestView::Execute {
            store: Store::Local,
            sql: f.insert_sql,
            params: ParameterSetView::Positional(f.rows[f.row as int]),
        },
        Stage::MarkDone => RequestView::Execute {
            store: Store::Local,
            sql: MARK_DONE@,
            params: ParameterSetView::Absent,
        },
        Stage::Finished => RequestView::Return(f.outcome),
    }
}

/// The first state of setting a connection up.
pub open spec fn start_construct() -> FlowView {
    FlowView { stage: Stage::OpenLocal, ..blank(Call::Construct) }
}

/// The first state of a write, `Call::Execute` or `Call::ExecuteBatch`: the
/// statement goes to the local store.
pub open spec fn start_write(call: Call, sql: Seq<char>, params: ParameterSetView) -> FlowView {
    FlowView { stage: Stage::WriteLocal, sql, params, ..blank(call) }
}

/// The first state of a query. Only one that asks for the remote store
/// looks whether it is in reach; every other goes to the local store.
pub open spec fn start_query(
    c: ConnectionView,
    sql: Seq<char>,
    params: ParameterSetView,
    force_remote: Option<bool>,
    now: u64,
) -> (FlowView, ConnectionView) {
    let f = FlowView { sql, params, ..blank(Call::Query) };
    if force_remote == Some(true) {
        reach(f, c, now)
    } else {
        once_known(f, c, false)
    }
}

/// The first state of a call that begins by looking whether the remote
/// store is in reach.
pub open spec fn start_asking(call: Call, c: ConnectionView, now: u64) -> (
    FlowView,
    ConnectionView,
) {
    reach(blank(call), c, now)
}

/// The first state of a call that begins with the bootstrap,
/// `Call::InitialSync` or `Call::ManualSync`.
pub open spec fn start_bootstrap(call: Call) -> FlowView {
    FlowView { stage: Stage::ReadFlag, ..blank(call) }
}

/// The first state of an explicit check of the remote store, which asks no
/// cache.
pub open spec fn start_check(c: ConnectionView, now: u64) -> (FlowView, ConnectionView) {
    probe(blank(Call::CheckConnectivity), c, now)
}

/// Whether the remote store is in reach or not, the state after that is
/// known is well formed.
pub proof fn lemma_known_wf(f: FlowView, c: ConnectionView, now: u64, online: bool)
    ensures
        wf(once_known(f, c, online).0),
        wf(probe(f, c, now).0),
        wf(reach(f, c, now).0),
{
    assert(wf(begin_replay(f, c).0));
    assert(wf(once_known(f, c, online).0));
    assert(wf(once_known(f, noted(c, now, false), false).0));
    assert(wf(probe(f, c, now).0));
    match c.cache.fresh(now) {
        Some(b) => {
            assert(wf(begin_replay(f, c).0));
            assert(wf(once_known(f, c, b).0));
        },
        None => {},
    }
}

/// However the bootstrap ends, the state after it is well formed.
pub proof fn lemma_end_bootstrap_wf(
    f: FlowView,
    c: ConnectionView,
    error: Option<Seq<char>>,
    now: u64,
)
    ensures
        wf(end_bootstrap(f, c, error, now).0),
{
    lemma_known_wf(f, c, now, false);
}

/// Every step leaves a flow in a state whose next request makes sense.
pub proof fn lemma_step_wf(f: FlowView, c: ConnectionView, reply: ReplyView, clock: Clock)
    requires
        wf(f),
    ensures
        wf(step(f, c, reply, clock).0),
{
    let now = clock.monotonic_ms;
    match f.stage {
        Stage::Persist => {
            let id = match reply {
                ReplyView::RowId(id) => id,
                _ => NOT_PERSISTED,
            };
            lemma_known_wf(
                f,
                ConnectionView { pending: c.pending.push(queued(f, Some(id))), ..c },
                now,
                false,
            );
        },
        Stage::Probe => {
            let online = reply == ReplyView::Reachable(true);
            lemma_known_wf(f, noted(c, now, online), now, online);
        },
        Stage::ReadFlag
        | Stage::FetchSchemas
        | Stage::ApplySchema
        | Stage::FetchTables
        | Stage::FetchRows
        | Stage::FetchColumns
        | Stage::InsertRow
        | Stage::MarkDone => {
            lemma_end_bootstrap_wf(f, c, None, now);
            lemma_end_bootstrap_wf(f, c, Some(failure_of(reply)), now);
        },
        _ => {},
    }
}

} // verus!
