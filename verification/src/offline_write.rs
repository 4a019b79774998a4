//! The offline-write connection: writes go to the local store and into a
//! queue, and from the queue to the remote store whenever that is in reach.
//!
//! The connection holds no store. Each of its calls gives a `Flow`; the host
//! does what `Flow::request` says and hands the reply to `Flow::resume`,
//! until the request is to return. What probes found is kept by remote
//! store, not by connection: the host holds one `EndpointCaches` for the
//! whole process and hands it to every call that asks whether the remote
//! store is in reach.

use crate::bootstrap::{
    guard_all, insert_statement, select_all_statement, sync_done, table_info_statement,
    FLAG_QUERY, MARK_DONE, SCHEMA_QUERY, TABLES_QUERY,
};
use crate::connectivity::{probe_target, ConnectivityCache, EndpointCaches};
use crate::model::{
    at_endpoint, begin_replay, blank, end_bootstrap, end_replay, finished, first_probe,
    lemma_step_wf, next_replay, next_schema, next_table, once_known, probe, queued, reach,
    request_of,
    start_asking, start_bootstrap, start_check, start_construct, start_query, start_write, step,
    sync_message, wf, write_outcome, Call, ConnectionView, FlowView, Stage, DEFAULT_FLAGS,
    NO_METADATA_TABLE, NO_PENDING_TABLE, OFFLINE,
};
use crate::pending::{
    load_pending_operations, OperationType, PendingOperation, CREATE_METADATA_TABLE,
    CREATE_PENDING_TABLE, NOT_PERSISTED,
};
use crate::protocol::{failure_text, rows_view, Clock, Outcome, Reply, Request, Store};
use crate::query_params::{
    copy_values, optional_params, optional_view, params_of_optional, ParameterSet,
    ParameterSetView, QueryParameters, QueryValue,
};
use crate::text::{append, append_str, copy_str, decimal_of, string_of, views};
use vstd::prelude::*;

verus! {

/// A connection that writes locally and replays remotely.
#[derive(Debug)]
pub struct OfflineWriteConnection {
    pub db_path: String,
    pub auth_token: String,
    pub remote_url: String,
    pub flags: i32,
    pub encryption_key: String,
    /// What the last explicit check of the remote store found.
    pub is_online: bool,
    /// The cache of the remote store as the last step of a call left it.
    /// Every step begins by taking it from the caches of the process and
    /// ends by putting it back there.
    pub cache: ConnectivityCache,
    /// The queue: what waits to be replayed, oldest first.
    pub pending_operations: Vec<PendingOperation>,
}

impl View for OfflineWriteConnection {
    type V = ConnectionView;

    open spec fn view(&self) -> ConnectionView {
        ConnectionView {
            db_path: self.db_path@,
            auth_token: self.auth_token@,
            remote_url: self.remote_url@,
            flags: self.flags,
            encryption_key: self.encryption_key@,
            is_online: self.is_online,
            cache: self.cache,
            pending: views(self.pending_operations@),
        }
    }
}

/// A call under way.
#[derive(Debug)]
pub struct Flow {
    call: Call,
    stage: Stage,
    sql: String,
    params: ParameterSet,
    affected: u64,
    timestamp: u64,
    drained: Vec<PendingOperation>,
    cursor: usize,
    failed: Vec<PendingOperation>,
    synced: usize,
    schemas: Vec<String>,
    tables: Vec<String>,
    item: usize,
    rows: Vec<Vec<QueryValue>>,
    row: usize,
    insert_sql: String,
    target: String,
    bootstrap_error: Option<String>,
    outcome: Outcome,
}

impl View for Flow {
    type V = FlowView;

    closed spec fn view(&self) -> FlowView {
        FlowView {
            call: self.call,
            stage: self.stage,
            sql: self.sql@,
            params: self.params@,
            affected: self.affected,
            timestamp: self.timestamp,
            drained: views(self.drained@),
            cursor: self.cursor as nat,
            failed: views(self.failed@),
            synced: self.synced as nat,
            schemas: views(self.schemas@),
            tables: views(self.tables@),
            item: self.item as nat,
            rows: rows_view(self.rows@),
            row: self.row as nat,
            insert_sql: self.insert_sql@,
            target: self.target@,
            bootstrap_error: match self.bootstrap_error {
                Some(m) => Some(m@),
                None => None,
            },
            outcome: self.outcome@,
        }
    }
}

fn sync_message_text(synced: usize, remaining: usize) -> (r: String)
    ensures
        r@ == sync_message(synced as nat, remaining as nat),
{
    let mut out: Vec<char> = Vec::new();
    append_str(&mut out, "Synced ");
    append(&mut out, &decimal_of(synced as u64));
    append_str(&mut out, " operations, ");
    append(&mut out, &decimal_of(remaining as u64));
    append_str(&mut out, " remaining");
    assert(out@ =~= sync_message(synced as nat, remaining as nat));
    string_of(&out)
}

impl Flow {
    fn blank(call: Call) -> (r: Flow)
        ensures
            r@ == blank(call),
    {
        let r = Flow {
            call,
            stage: Stage::Finished,
            sql: String::new(),
            params: ParameterSet::Absent,
            affected: 0,
            timestamp: 0,
            drained: Vec::new(),
            cursor: 0,
            failed: Vec::new(),
            synced: 0,
            schemas: Vec::new(),
            tables: Vec::new(),
            item: 0,
            rows: Vec::new(),
            row: 0,
            insert_sql: String::new(),
            target: String::new(),
            bootstrap_error: None,
            outcome: Outcome::Ready { bootstrap_error: None },
        };
        assert(r@.drained =~= Seq::empty());
        assert(r@.failed =~= Seq::empty());
        assert(r@.schemas =~= Seq::empty());
        assert(r@.tables =~= Seq::empty());
        assert(r@.rows =~= Seq::empty());
        r
    }

    fn finish(&mut self, outcome: Outcome)
        ensures
            final(self)@ == finished(old(self)@, outcome@),
    {
        self.stage = Stage::Finished;
        self.outcome = outcome;
    }

    fn write_outcome(&self) -> (r: Outcome)
        ensures
            r@ == write_outcome(self@),
    {
        match self.call {
            Call::ExecuteBatch => Outcome::Executed(true),
            _ => Outcome::Affected(self.affected),
        }
    }

    fn queued(&self, id: Option<i64>) -> (r: PendingOperation)
        ensures
            r@ == queued(self@, id),
    {
        PendingOperation {
            id,
            sql: self.sql.clone(),
            params: self.params.copy(),
            operation_type: match self.call {
                Call::ExecuteBatch => OperationType::ExecuteBatch,
                _ => OperationType::Execute,
            },
            timestamp: self.timestamp,
        }
    }

    fn end_replay(&mut self, conn: &mut OfflineWriteConnection)
        ensures
            (final(self)@, final(conn)@) == end_replay(old(self)@, old(conn)@),
    {
        let ghost pending = conn.pending_operations@;
        let ghost failed = self.failed@;
        conn.pending_operations.append(&mut self.failed);
        self.drained = Vec::new();
        self.cursor = 0;
        proof {
            assert(views(pending + failed) =~= views(pending) + views(failed));
            assert(views(self.drained@) =~= Seq::empty());
            assert(views(self.failed@) =~= Seq::empty());
        }
        let outcome = match self.call {
            Call::SyncPending => Outcome::Synced(self.synced),
            Call::ManualSync => Outcome::Message(
                sync_message_text(self.synced, conn.pending_operations.len()),
            ),
            _ => self.write_outcome(),
        };
        self.finish(outcome);
    }

    fn next_replay(&mut self, conn: &mut OfflineWriteConnection)
        ensures
            (final(self)@, final(conn)@) == next_replay(old(self)@, old(conn)@),
    {
        if self.cursor < self.drained.len() {
            self.stage = Stage::Replay;
        } else {
            self.end_replay(conn);
        }
    }

    fn begin_replay(&mut self, conn: &mut OfflineWriteConnection)
        ensures
            (final(self)@, final(conn)@) == begin_replay(old(self)@, old(conn)@),
    {
        self.drained = Vec::new();
        std::mem::swap(&mut self.drained, &mut conn.pending_operations);
        self.cursor = 0;
        self.failed = Vec::new();
        self.synced = 0;
        proof {
            assert(views(conn.pending_operations@) =~= Seq::empty());
            assert(views(self.failed@) =~= Seq::empty());
        }
        self.next_replay(conn);
    }

    fn once_known(&mut self, conn: &mut OfflineWriteConnection, online: bool)
        ensures
            (final(self)@, final(conn)@) == once_known(old(self)@, old(conn)@, online),
    {
        let store = if online {
            Store::Remote
        } else {
            Store::Local
        };
        match self.call {
            Call::Execute | Call::ExecuteBatch => {
                if online {
                    self.begin_replay(conn);
                } else {
                    let outcome = self.write_outcome();
                    self.finish(outcome);
                }
            },
            Call::SyncPending | Call::ManualSync => {
                if online {
                    self.begin_replay(conn);
                } else {
                    self.finish(Outcome::Error(copy_str(OFFLINE)));
                }
            },
            Call::Query => {
                let outcome = Outcome::Query {
                    store,
                    sql: self.sql.clone(),
                    params: self.params.copy(),
                };
                self.finish(outcome);
            },
            Call::Metadata => {
                self.finish(Outcome::Route(store));
            },
            Call::Reset => {
                self.finish(Outcome::Reset { remote: online });
            },
            Call::CheckConnectivity => {
                conn.is_online = online;
                self.finish(Outcome::Online(online));
            },
            _ => {
                self.finish(Outcome::Online(online));
            },
        }
    }

    fn probe(&mut self, conn: &mut OfflineWriteConnection, now: u64)
        ensures
            (final(self)@, final(conn)@) == probe(old(self)@, old(conn)@, now),
    {
        match probe_target(conn.remote_url.as_str()) {
            Some(target) => {
                self.stage = Stage::Probe;
                self.target = target;
            },
            None => {
                conn.cache.record(now, false);
                self.once_known(conn, false);
            },
        }
    }

    fn reach(&mut self, conn: &mut OfflineWriteConnection, now: u64)
        ensures
            (final(self)@, final(conn)@) == reach(old(self)@, old(conn)@, now),
    {
        match conn.cache.lookup(now) {
            Some(online) => self.once_known(conn, online),
            None => self.probe(conn, now),
        }
    }

    fn first_probe(&mut self, conn: &mut OfflineWriteConnection)
        ensures
            (final(self)@, final(conn)@) == first_probe(old(self)@, old(conn)@),
    {
        match probe_target(conn.remote_url.as_str()) {
            Some(target) => {
                self.stage = Stage::FirstProbe;
                self.target = target;
            },
            None => {
                self.stage = Stage::LoadPending;
                conn.is_online = false;
            },
        }
    }

    fn end_bootstrap(
        &mut self,
        conn: &mut OfflineWriteConnection,
        error: Option<String>,
        now: u64,
    )
        ensures
            (final(self)@, final(conn)@) == end_bootstrap(
                old(self)@,
                old(conn)@,
                match error {
                    Some(m) => Some(m@),
                    None => None,
                },
                now,
            ),
    {
        match self.call {
            Call::Construct => {
                self.stage = Stage::LoadPending;
                self.bootstrap_error = error;
            },
            Call::ManualSync => {
                self.reach(conn, now);
            },
            _ => {
                let outcome = match error {
                    Some(m) => Outcome::Error(m),
                    None => Outcome::Bootstrapped,
                };
                self.finish(outcome);
            },
        }
    }

    fn next_schema(&mut self)
        ensures
            final(self)@ == next_schema(old(self)@),
    {
        if self.item < self.schemas.len() {
            self.stage = Stage::ApplySchema;
        } else {
            self.stage = Stage::FetchTables;
            self.item = 0;
        }
    }

    fn next_table(&mut self)
        ensures
            final(self)@ == next_table(old(self)@),
    {
        if self.item < self.tables.len() {
            self.stage = Stage::FetchRows;
        } else {
            self.stage = Stage::MarkDone;
        }
    }

    /// What this flow stands for is a state whose next request makes sense.
    pub open spec fn well_formed(&self) -> bool {
        wf(self@)
    }

    /// Whether this flow is well formed. Every flow that a call of the
    /// connection gives is, and `resume` keeps it so.
    pub fn is_well_formed(&self) -> (r: bool)
        ensures
            r == self.well_formed(),
    {
        assert(self.drained@.len() == self.drained.len());
        assert(self.failed@.len() == self.failed.len());
        match self.stage {
            Stage::Replay => self.cursor < self.drained.len() && self.synced <= self.cursor
                && self.failed.len() == self.cursor - self.synced,
            Stage::Remove => self.cursor < self.drained.len() && self.synced <= self.cursor
                && self.failed.len() == self.cursor - self.synced
                && self.drained[self.cursor].id.is_some(),
            Stage::ApplySchema => self.item < self.schemas.len(),
            Stage::FetchRows | Stage::FetchColumns => self.item < self.tables.len(),
            Stage::InsertRow => self.item < self.tables.len() && self.row < self.rows.len(),
            _ => true,
        }
    }

    /// What the host is to do next.
    pub fn request(&self, conn: &OfflineWriteConnection) -> (r: Request)
        requires
            self.well_formed(),
        ensures
            r@ == request_of(self@, conn@),
    {
        match self.stage {
            Stage::OpenLocal => Request::OpenLocal {
                path: conn.db_path.clone(),
                flags: conn.flags,
                encryption_key: conn.encryption_key.clone(),
            },
            Stage::CreatePendingTable => Request::Execute {
                store: Store::Local,
                sql: copy_str(CREATE_PENDING_TABLE),
                params: ParameterSet::Absent,
            },
            Stage::CreateMetadataTable => Request::Execute {
                store: Store::Local,
                sql: copy_str(CREATE_METADATA_TABLE),
                params: ParameterSet::Absent,
            },
            Stage::OpenRemote => Request::OpenRemote {
                url: conn.remote_url.clone(),
                auth_token: conn.auth_token.clone(),
            },
            Stage::FirstProbe | Stage::Probe => Request::Probe { target: self.target.clone() },
            Stage::LoadPending => Request::LoadPending,
            Stage::WriteLocal => match self.call {
                Call::ExecuteBatch => Request::ExecuteBatch {
                    store: Store::Local,
                    sql: self.sql.clone(),
                },
                _ => Request::Execute {
                    store: Store::Local,
                    sql: self.sql.clone(),
                    params: self.params.copy(),
                },
            },
            Stage::Persist => Request::Persist { row: self.queued(None).to_row() },
            Stage::Replay => {
                let op = &self.drained[self.cursor];
                match op.operation_type {
                    OperationType::Execute => Request::Execute {
                        store: Store::Remote,
                        sql: op.sql.clone(),
                        params: op.params.copy(),
                    },
                    OperationType::ExecuteBatch => Request::ExecuteBatch {
                        store: Store::Remote,
                        sql: op.sql.clone(),
                    },
                }
            },
            Stage::Remove => match self.drained[self.cursor].id {
                Some(id) => Request::Remove { id },
                None => Request::Remove { id: NOT_PERSISTED },
            },
            Stage::ReadFlag => Request::QueryTexts {
                store: Store::Local,
                sql: copy_str(FLAG_QUERY),
                column: 0,
            },
            Stage::FetchSchemas => Request::QueryTexts {
                store: Store::Remote,
                sql: copy_str(SCHEMA_QUERY),
                column: 0,
            },
            Stage::ApplySchema => Request::Execute {
                store: Store::Local,
                sql: self.schemas[self.item].clone(),
                params: ParameterSet::Absent,
            },
            Stage::FetchTables => Request::QueryTexts {
                store: Store::Remote,
                sql: copy_str(TABLES_QUERY),
                column: 0,
            },
            Stage::FetchRows => Request::QueryRows {
                store: Store::Remote,
                sql: select_all_statement(self.tables[self.item].as_str()),
            },
            Stage::FetchColumns => Request::QueryTexts {
                store: Store::Remote,
                sql: table_info_statement(self.tables[self.item].as_str()),
                column: 1,
            },
            Stage::InsertRow => Request::Execute {
                store: Store::Local,
                sql: self.insert_sql.clone(),
                params: ParameterSet::Positional(copy_values(&self.rows[self.row])),
            },
            Stage::MarkDone => Request::Execute {
                store: Store::Local,
                sql: copy_str(MARK_DONE),
                params: ParameterSet::Absent,
            },
            Stage::Finished => Request::Return(self.outcome.copy()),
        }
    }

    fn resume_construct(&mut self, conn: &mut OfflineWriteConnection, reply: Reply, clock: Clock)
        requires
            old(self).stage == Stage::OpenLocal || old(self).stage == Stage::CreatePendingTable
                || old(self).stage == Stage::CreateMetadataTable || old(self).stage
                == Stage::OpenRemote || old(self).stage == Stage::FirstProbe || old(self).stage
                == Stage::LoadPending,
        ensures
            (final(self)@, final(conn)@) == step(old(self)@, old(conn)@, reply@, clock),
    {
        match self.stage {
            Stage::OpenLocal => match reply {
                Reply::Done => {
                    self.stage = Stage::CreatePendingTable;
                },
                other => {
                    self.finish(Outcome::Fatal(failure_text(&other)));
                },
            },
            Stage::CreatePendingTable => match reply {
                Reply::Affected(_) => {
                    self.stage = Stage::CreateMetadataTable;
                },
                _ => {
                    self.finish(Outcome::Fatal(copy_str(NO_PENDING_TABLE)));
                },
            },
            Stage::CreateMetadataTable => match reply {
                Reply::Affected(_) => {
                    self.stage = Stage::OpenRemote;
                },
                _ => {
                    self.finish(Outcome::Fatal(copy_str(NO_METADATA_TABLE)));
                },
            },
            Stage::OpenRemote => match reply {
                Reply::Done => {
                    self.first_probe(conn);
                },
                other => {
                    self.finish(Outcome::Fatal(failure_text(&other)));
                },
            },
            Stage::FirstProbe => {
                let online = match reply {
                    Reply::Reachable(b) => b,
                    _ => false,
                };
                conn.is_online = online;
                if online {
                    self.stage = Stage::ReadFlag;
                } else {
                    self.stage = Stage::LoadPending;
                }
            },
            _ => {
                match reply {
                    Reply::Pending(rows) => {
                        conn.pending_operations = load_pending_operations(&rows);
                    },
                    _ => {
                        conn.pending_operations = Vec::new();
                        assert(views(conn.pending_operations@) =~= Seq::empty());
                    },
                }
                let bootstrap_error = match &self.bootstrap_error {
                    Some(m) => Some(m.clone()),
                    None => None,
                };
                self.finish(Outcome::Ready { bootstrap_error });
            },
        }
    }

    fn resume_write(&mut self, conn: &mut OfflineWriteConnection, reply: Reply, clock: Clock)
        requires
            old(self).stage == Stage::WriteLocal || old(self).stage == Stage::Persist || old(
                self,
            ).stage == Stage::Probe,
        ensures
            (final(self)@, final(conn)@) == step(old(self)@, old(conn)@, reply@, clock),
    {
        let now = clock.monotonic_ms;
        match self.stage {
            Stage::WriteLocal => {
                let batch = match self.call {
                    Call::ExecuteBatch => true,
                    _ => false,
                };
                match reply {
                    Reply::Affected(n) => {
                        if batch {
                            self.finish(Outcome::Error(failure_text(&Reply::Affected(n))));
                        } else {
                            self.stage = Stage::Persist;
                            self.affected = n;
                            self.timestamp = clock.unix_secs;
                        }
                    },
                    Reply::Done => {
                        if batch {
                            self.stage = Stage::Persist;
                            self.timestamp = clock.unix_secs;
                        } else {
                            self.finish(Outcome::Error(failure_text(&Reply::Done)));
                        }
                    },
                    other => {
                        self.finish(Outcome::Error(failure_text(&other)));
                    },
                }
            },
            Stage::Persist => {
                let id = match reply {
                    Reply::RowId(id) => id,
                    _ => NOT_PERSISTED,
                };
                let op = self.queued(Some(id));
                let ghost before = conn.pending_operations@;
                conn.pending_operations.push(op);
                assert(views(before.push(op)) =~= views(before).push(op@));
                self.reach(conn, now);
            },
            _ => {
                let online = match reply {
                    Reply::Reachable(b) => b,
                    _ => false,
                };
                conn.cache.record(now, online);
                self.once_known(conn, online);
            },
        }
    }

    fn resume_replay(&mut self, conn: &mut OfflineWriteConnection, reply: Reply, clock: Clock)
        requires
            old(self).well_formed(),
            old(self).stage == Stage::Replay || old(self).stage == Stage::Remove,
        ensures
            (final(self)@, final(conn)@) == step(old(self)@, old(conn)@, reply@, clock),
    {
        assert(self.drained@.len() == self.drained.len());
        match self.stage {
            Stage::Replay => {
                let ok = match self.drained[self.cursor].operation_type {
                    OperationType::Execute => match reply {
                        Reply::Affected(_) => true,
                        _ => false,
                    },
                    OperationType::ExecuteBatch => match reply {
                        Reply::Done => true,
                        _ => false,
                    },
                };
                if ok {
                    if self.drained[self.cursor].id.is_some() {
                        self.stage = Stage::Remove;
                    } else {
                        self.cursor = self.cursor + 1;
                        self.synced = self.synced + 1;
                        self.next_replay(conn);
                    }
                } else {
                    let op = self.drained[self.cursor].copy();
                    let ghost before = self.failed@;
                    self.failed.push(op);
                    assert(views(before.push(op)) =~= views(before).push(op@));
                    self.cursor = self.cursor + 1;
                    self.next_replay(conn);
                }
            },
            _ => {
                self.cursor = self.cursor + 1;
                self.synced = self.synced + 1;
                self.next_replay(conn);
            },
        }
    }

    fn resume_bootstrap(&mut self, conn: &mut OfflineWriteConnection, reply: Reply, clock: Clock)
        requires
            old(self).well_formed(),
            old(self).stage == Stage::ReadFlag || old(self).stage == Stage::FetchSchemas || old(
                self,
            ).stage == Stage::ApplySchema || old(self).stage == Stage::FetchTables || old(
                self,
            ).stage == Stage::FetchRows || old(self).stage == Stage::FetchColumns || old(
                self,
            ).stage == Stage::InsertRow || old(self).stage == Stage::MarkDone,
        ensures
            (final(self)@, final(conn)@) == step(old(self)@, old(conn)@, reply@, clock),
    {
        let now = clock.monotonic_ms;
        assert(self.schemas@.len() == self.schemas.len());
        assert(self.tables@.len() == self.tables.len());
        assert(self.rows@.len() == self.rows.len());
        match self.stage {
            Stage::ReadFlag => match reply {
                Reply::Texts(values) => {
                    if sync_done(&values) {
                        self.end_bootstrap(conn, None, now);
                    } else {
                        self.stage = Stage::FetchSchemas;
                    }
                },
                other => {
                    self.end_bootstrap(conn, Some(failure_text(&other)), now);
                },
            },
            Stage::FetchSchemas => match reply {
                Reply::Texts(sqls) => {
                    self.schemas = guard_all(&sqls);
                    self.item = 0;
                    self.next_schema();
                },
                other => {
                    self.end_bootstrap(conn, Some(failure_text(&other)), now);
                },
            },
            Stage::ApplySchema => match reply {
                Reply::Affected(_) => {
                    self.item = self.item + 1;
                    self.next_schema();
                },
                other => {
                    self.end_bootstrap(conn, Some(failure_text(&other)), now);
                },
            },
            Stage::FetchTables => match reply {
                Reply::Texts(names) => {
                    self.tables = names;
                    self.item = 0;
                    self.next_table();
                },
                other => {
                    self.end_bootstrap(conn, Some(failure_text(&other)), now);
                },
            },
            Stage::FetchRows => match reply {
                Reply::Rows(rows) => {
                    if rows.len() > 0 {
                        self.rows = rows;
                        self.stage = Stage::FetchColumns;
                    } else {
                        self.item = self.item + 1;
                        self.next_table();
                    }
                },
                other => {
                    self.end_bootstrap(conn, Some(failure_text(&other)), now);
                },
            },
            Stage::FetchColumns => match reply {
                Reply::Texts(columns) => {
                    if self.rows.len() > 0 {
                        self.insert_sql = insert_statement(
                            self.tables[self.item].as_str(),
                            &columns,
                        );
                        self.row = 0;
                        self.stage = Stage::InsertRow;
                    } else {
                        self.item = self.item + 1;
                        self.next_table();
                    }
                },
                other => {
                    self.end_bootstrap(conn, Some(failure_text(&other)), now);
                },
            },
            Stage::InsertRow => match reply {
                Reply::Affected(_) => {
                    if self.row + 1 < self.rows.len() {
                        self.row = self.row + 1;
                    } else {
                        self.item = self.item + 1;
                        self.next_table();
                    }
                },
                other => {
                    self.end_bootstrap(conn, Some(failure_text(&other)), now);
                },
            },
            _ => match reply {
                Reply::Affected(_) => {
                    self.end_bootstrap(conn, None, now);
                },
                other => {
                    self.end_bootstrap(conn, Some(failure_text(&other)), now);
                },
            },
        }
    }

    fn resume_here(&mut self, conn: &mut OfflineWriteConnection, reply: Reply, clock: Clock)
        requires
            old(self).well_formed(),
        ensures
            (final(self)@, final(conn)@) == step(old(self)@, old(conn)@, reply@, clock),
            final(self).well_formed(),
    {
        match self.stage {
            Stage::Finished => {},
            Stage::OpenLocal
            | Stage::CreatePendingTable
            | Stage::CreateMetadataTable
            | Stage::OpenRemote
            | Stage::FirstProbe
            | Stage::LoadPending => {
                self.resume_construct(conn, reply, clock);
            },
            Stage::WriteLocal | Stage::Persist | Stage::Probe => {
                self.resume_write(conn, reply, clock);
            },
            Stage::Replay | Stage::Remove => {
                self.resume_replay(conn, reply, clock);
            },
            _ => {
                self.resume_bootstrap(conn, reply, clock);
            },
        }
        proof {
            lemma_step_wf(old(self)@, old(conn)@, reply@, clock);
        }
    }

    /// Takes the reply to the last request; the next request follows from
    /// the state it leaves. The step is made with the cache that `caches`
    /// hold for the remote store of the connection, and leaves them the
    /// cache as it is after the step.
    pub fn resume(
        &mut self,
        conn: &mut OfflineWriteConnection,
        caches: &mut EndpointCaches,
        reply: Reply,
        clock: Clock,
    )
        requires
            old(self).well_formed(),
        ensures
            (final(self)@, final(conn)@) == step(
                old(self)@,
                at_endpoint(old(conn)@, *old(caches)),
                reply@,
                clock,
            ),
            final(caches).follows(*old(caches), old(conn)@.remote_url, final(conn)@.cache),
            final(self).well_formed(),
    {
        let endpoint = conn.remote_url.clone();
        conn.cache = caches.get(endpoint.as_str());
        self.resume_here(conn, reply, clock);
        caches.put(endpoint.as_str(), conn.cache);
    }

    /// Whether the call is over.
    pub fn is_finished(&self) -> (r: bool)
        ensures
            r == (self@.stage == Stage::Finished),
    {
        match self.stage {
            Stage::Finished => true,
            _ => false,
        }
    }
}

impl OfflineWriteConnection {
    /// The connection for a local store at `db_path` and a remote store at
    /// `sync_url`, before anything is opened: out of reach as far as is
    /// known, with an empty queue. Flags that are not given are
    /// `DEFAULT_FLAGS`, a key that is not given is empty.
    pub fn new(
        db_path: String,
        auth_token: String,
        sync_url: String,
        flags: Option<i32>,
        encryption_key: Option<String>,
    ) -> (r: Self)
        ensures
            r@ == (ConnectionView {
                db_path: db_path@,
                auth_token: auth_token@,
                remote_url: sync_url@,
                flags: match flags {
                    Some(x) => x,
                    None => DEFAULT_FLAGS,
                },
                encryption_key: match encryption_key {
                    Some(k) => k@,
                    None => Seq::empty(),
                },
                is_online: false,
                cache: ConnectivityCache { last_check: None },
                pending: Seq::empty(),
            }),
    {
        let r = OfflineWriteConnection {
            db_path,
            auth_token,
            remote_url: sync_url,
            flags: match flags {
                Some(x) => x,
                None => DEFAULT_FLAGS,
            },
            encryption_key: match encryption_key {
                Some(k) => k,
                None => String::new(),
            },
            is_online: false,
            cache: ConnectivityCache::new(),
            pending_operations: Vec::new(),
        };
        assert(r@.pending =~= Seq::empty());
        r
    }

    /// Sets the connection up: opens the local store and makes its two
    /// tables, opens the remote store and looks whether it is in reach,
    /// makes the local store a copy of it where it is, and reads the log
    /// into the queue.
    pub fn connect(&self) -> (r: Flow)
        ensures
            r@ == start_construct(),
            r.well_formed(),
    {
        let mut f = Flow::blank(Call::Construct);
        f.stage = Stage::OpenLocal;
        f
    }

    /// Executes a statement on the local store and queues it for the remote
    /// one.
    pub fn execute(&self, sql: &str, parameters: Option<QueryParameters>) -> (r: Flow)
        ensures
            r@ == start_write(Call::Execute, sql@, params_of_optional(optional_view(parameters))),
            r.well_formed(),
    {
        let mut f = Flow::blank(Call::Execute);
        f.stage = Stage::WriteLocal;
        f.sql = copy_str(sql);
        f.params = optional_params(&parameters);
        f
    }

    /// Executes a batch on the local store and queues its text for the
    /// remote one.
    pub fn execute_batch(&self, sql: &str) -> (r: Flow)
        ensures
            r@ == start_write(Call::ExecuteBatch, sql@, ParameterSetView::Absent),
            r.well_formed(),
    {
        let mut f = Flow::blank(Call::ExecuteBatch);
        f.stage = Stage::WriteLocal;
        f.sql = copy_str(sql);
        f
    }

    fn query_here(
        &mut self,
        sql: &str,
        parameters: Option<QueryParameters>,
        force_remote: Option<bool>,
        clock: Clock,
    ) -> (r: Flow)
        ensures
            (r@, final(self)@) == start_query(
                old(self)@,
                sql@,
                params_of_optional(optional_view(parameters)),
                force_remote,
                clock.monotonic_ms,
            ),
            r.well_formed(),
    {
        let mut f = Flow::blank(Call::Query);
        f.sql = copy_str(sql);
        f.params = optional_params(&parameters);
        let forced = match force_remote {
            Some(b) => b,
            None => false,
        };
        if forced {
            f.reach(self, clock.monotonic_ms);
        } else {
            f.once_known(self, false);
        }
        f
    }

    /// Chooses the store for a query: the remote one where the caller asks
    /// for it and it is in reach, the local one in every other case.
    pub fn query(
        &mut self,
        sql: &str,
        parameters: Option<QueryParameters>,
        force_remote: Option<bool>,
        caches: &mut EndpointCaches,
        clock: Clock,
    ) -> (r: Flow)
        ensures
            (r@, final(self)@) == start_query(
                at_endpoint(old(self)@, *old(caches)),
                sql@,
                params_of_optional(optional_view(parameters)),
                force_remote,
                clock.monotonic_ms,
            ),
            final(caches).follows(*old(caches), old(self)@.remote_url, final(self)@.cache),
            r.well_formed(),
    {
        let endpoint = self.remote_url.clone();
        self.cache = caches.get(endpoint.as_str());
        let flow = self.query_here(sql, parameters, force_remote, clock);
        caches.put(endpoint.as_str(), self.cache);
        flow
    }

    fn asking_here(&mut self, call: Call, clock: Clock) -> (r: Flow)
        ensures
            (r@, final(self)@) == start_asking(call, old(self)@, clock.monotonic_ms),
            r.well_formed(),
    {
        let mut f = Flow::blank(call);
        f.reach(self, clock.monotonic_ms);
        f
    }

    fn asking(&mut self, call: Call, caches: &mut EndpointCaches, clock: Clock) -> (r: Flow)
        ensures
            (r@, final(self)@) == start_asking(
                call,
                at_endpoint(old(self)@, *old(caches)),
                clock.monotonic_ms,
            ),
            final(caches).follows(*old(caches), old(self)@.remote_url, final(self)@.cache),
            r.well_formed(),
    {
        let endpoint = self.remote_url.clone();
        self.cache = caches.get(endpoint.as_str());
        let flow = self.asking_here(call, clock);
        caches.put(endpoint.as_str(), self.cache);
        flow
    }

    /// Replays the queue on the remote store, if that is in reach.
    pub fn sync_pending_operations(&mut self, caches: &mut EndpointCaches, clock: Clock) -> (r:
        Flow)
        ensures
            (r@, final(self)@) == start_asking(
                Call::SyncPending,
                at_endpoint(old(self)@, *old(caches)),
                clock.monotonic_ms,
            ),
            final(caches).follows(*old(caches), old(self)@.remote_url, final(self)@.cache),
            r.well_formed(),
    {
        self.asking(Call::SyncPending, caches, clock)
    }

    /// Makes the local store a copy of the remote one if it is none yet,
    /// then replays the queue and reports.
    pub fn manual_sync(&self) -> (r: Flow)
        ensures
            r@ == start_bootstrap(Call::ManualSync),
            r.well_formed(),
    {
        let mut f = Flow::blank(Call::ManualSync);
        f.stage = Stage::ReadFlag;
        f
    }

    /// Makes the local store a copy of the remote one if it is none yet.
    pub fn initial_sync_if_needed(&self) -> (r: Flow)
        ensures
            r@ == start_bootstrap(Call::InitialSync),
            r.well_formed(),
    {
        let mut f = Flow::blank(Call::InitialSync);
        f.stage = Stage::ReadFlag;
        f
    }

    /// Whether the remote store is in reach, by the cache where it holds an
    /// answer.
    pub fn is_online(&mut self, caches: &mut EndpointCaches, clock: Clock) -> (r: Flow)
        ensures
            (r@, final(self)@) == start_asking(
                Call::IsOnline,
                at_endpoint(old(self)@, *old(caches)),
                clock.monotonic_ms,
            ),
            final(caches).follows(*old(caches), old(self)@.remote_url, final(self)@.cache),
            r.well_formed(),
    {
        self.asking(Call::IsOnline, caches, clock)
    }

    fn check_here(&mut self, clock: Clock) -> (r: Flow)
        ensures
            (r@, final(self)@) == start_check(old(self)@, clock.monotonic_ms),
            r.well_formed(),
    {
        let mut f = Flow::blank(Call::CheckConnectivity);
        f.probe(self, clock.monotonic_ms);
        f
    }

    /// Whether the remote store is in reach, by a probe whatever the cache
    /// holds.
    pub fn check_connectivity(&mut self, caches: &mut EndpointCaches, clock: Clock) -> (r: Flow)
        ensures
            (r@, final(self)@) == start_check(
                at_endpoint(old(self)@, *old(caches)),
                clock.monotonic_ms,
            ),
            final(caches).follows(*old(caches), old(self)@.remote_url, final(self)@.cache),
            r.well_formed(),
    {
        let endpoint = self.remote_url.clone();
        self.cache = caches.get(endpoint.as_str());
        let flow = self.check_here(clock);
        caches.put(endpoint.as_str(), self.cache);
        flow
    }

    /// How many operations wait in the queue.
    pub fn get_pending_operations_count(&self) -> (r: usize)
        ensures
            r == self@.pending.len(),
    {
        self.pending_operations.len()
    }

    /// Chooses the store that tells how many rows the last statement
    /// changed: the remote one where it is in reach, else the local one.
    pub fn changes(&mut self, caches: &mut EndpointCaches, clock: Clock) -> (r: Flow)
        ensures
            (r@, final(self)@) == start_asking(
                Call::Metadata,
                at_endpoint(old(self)@, *old(caches)),
                clock.monotonic_ms,
            ),
            final(caches).follows(*old(caches), old(self)@.remote_url, final(self)@.cache),
            r.well_formed(),
    {
        self.asking(Call::Metadata, caches, clock)
    }

    /// Chooses the store that tells how many rows were changed in all.
    pub fn total_changes(&mut self, caches: &mut EndpointCaches, clock: Clock) -> (r: Flow)
        ensures
            (r@, final(self)@) == start_asking(
                Call::Metadata,
                at_endpoint(old(self)@, *old(caches)),
                clock.monotonic_ms,
            ),
            final(caches).follows(*old(caches), old(self)@.remote_url, final(self)@.cache),
            r.well_formed(),
    {
        self.asking(Call::Metadata, caches, clock)
    }

    /// Chooses the store that tells the id of the row written last.
    pub fn last_insert_rowid(&mut self, caches: &mut EndpointCaches, clock: Clock) -> (r: Flow)
        ensures
            (r@, final(self)@) == start_asking(
                Call::Metadata,
                at_endpoint(old(self)@, *old(caches)),
                clock.monotonic_ms,
            ),
            final(caches).follows(*old(caches), old(self)@.remote_url, final(self)@.cache),
            r.well_formed(),
    {
        self.asking(Call::Metadata, caches, clock)
    }

    /// Chooses the store that tells whether it commits by itself.
    pub fn is_autocommit(&mut self, caches: &mut EndpointCaches, clock: Clock) -> (r: Flow)
        ensures
            (r@, final(self)@) == start_asking(
                Call::Metadata,
                at_endpoint(old(self)@, *old(caches)),
                clock.monotonic_ms,
            ),
            final(caches).follows(*old(caches), old(self)@.remote_url, final(self)@.cache),
            r.well_formed(),
    {
        self.asking(Call::Metadata, caches, clock)
    }

    /// Resets the local store, and before it the remote one where that is
    /// in reach.
    pub fn reset(&mut self, caches: &mut EndpointCaches, clock: Clock) -> (r: Flow)
        ensures
            (r@, final(self)@) == start_asking(
                Call::Reset,
                at_endpoint(old(self)@, *old(caches)),
                clock.monotonic_ms,
            ),
            final(caches).follows(*old(caches), old(self)@.remote_url, final(self)@.cache),
            r.well_formed(),
    {
        self.asking(Call::Reset, caches, clock)
    }
}

/// The connection for a local store at `db_path` and a remote store at
/// `sync_url`, before anything is opened.
pub fn create_sqld_offline_write_connection(
    db_path: String,
    auth_token: String,
    sync_url: String,
    flags: Option<i32>,
    encryption_key: Option<String>,
) -> (r: OfflineWriteConnection)
    ensures
        r@ == (ConnectionView {
            db_path: db_path@,
            auth_token: auth_token@,
            remote_url: sync_url@,
            flags: match flags {
                Some(x) => x,
                None => DEFAULT_FLAGS,
            },
            encryption_key: match encryption_key {
                Some(k) => k@,
                None => Seq::empty(),
            },
            is_online: false,
            cache: ConnectivityCache { last_check: None },
            pending: Seq::empty(),
        }),
{
    OfflineWriteConnection::new(db_path, auth_token, sync_url, flags, encryption_key)
}

} // verus!
