use libsql_php::connectivity::EndpointCaches;
use libsql_php::json::{JsonDocument, JsonEntry};
use libsql_php::offline_write::{Flow, OfflineWriteConnection};
use libsql_php::pending::{LogRow, DELETE_PENDING, INSERT_PENDING, SELECT_PENDING};
use libsql_php::protocol::{Clock, Outcome, Reply, Request, Store};
use libsql_php::query_params::{ParameterSet, QueryParameters, QueryValue};

fn to_value(v: &QueryValue) -> libsql::Value {
    match v {
        QueryValue::Integer(i) => libsql::Value::Integer(*i),
        QueryValue::Real(bits) => libsql::Value::Real(f64::from_bits(*bits)),
        QueryValue::Text(t) => libsql::Value::Text(t.clone()),
        QueryValue::Blob(b) => libsql::Value::Blob(b.clone()),
        QueryValue::Null => libsql::Value::Null,
    }
}

fn from_value(v: libsql::Value) -> QueryValue {
    match v {
        libsql::Value::Integer(i) => QueryValue::Integer(i),
        libsql::Value::Real(f) => QueryValue::Real(f.to_bits()),
        libsql::Value::Text(t) => QueryValue::Text(t),
        libsql::Value::Blob(b) => QueryValue::Blob(b),
        libsql::Value::Null => QueryValue::Null,
    }
}

fn to_params(p: &ParameterSet) -> libsql::params::Params {
    match p {
        ParameterSet::Absent => libsql::params::Params::None,
        ParameterSet::Positional(v) => {
            libsql::params::Params::Positional(v.iter().map(to_value).collect())
        }
        ParameterSet::Named(v) => libsql::params::Params::Named(
            v.iter().map(|(k, x)| (k.clone(), to_value(x))).collect(),
        ),
    }
}

fn entry_to_json(e: &JsonEntry) -> serde_json::Value {
    match e {
        JsonEntry::Null | JsonEntry::Other => serde_json::Value::Null,
        JsonEntry::Integer(i) => serde_json::Value::from(*i),
        JsonEntry::Real(bits) => serde_json::Number::from_f64(f64::from_bits(*bits))
            .map(serde_json::Value::Number)
            .unwrap_or(serde_json::Value::Null),
        JsonEntry::Text(s) => serde_json::Value::String(s.clone()),
        JsonEntry::Array(items) => serde_json::Value::Array(
            items
                .iter()
                .map(|x| match x {
                    Some(n) => serde_json::Value::from(*n),
                    None => serde_json::Value::Null,
                })
                .collect(),
        ),
    }
}

fn document_to_text(d: &JsonDocument) -> String {
    let value = match d {
        JsonDocument::Null | JsonDocument::Other => serde_json::Value::Null,
        JsonDocument::Array(items) => {
            serde_json::Value::Array(items.iter().map(entry_to_json).collect())
        }
        JsonDocument::Object(entries) => {
            let mut map = serde_json::Map::new();
            for (k, v) in entries {
                map.insert(k.clone(), entry_to_json(v));
            }
            serde_json::Value::Object(map)
        }
    };
    serde_json::to_string(&value).unwrap()
}

fn entry_from_json(v: &serde_json::Value) -> JsonEntry {
    match v {
        serde_json::Value::Null => JsonEntry::Null,
        serde_json::Value::Number(n) => {
            if let Some(i) = n.as_i64() {
                JsonEntry::Integer(i)
            } else if n.is_f64() {
                JsonEntry::Real(n.as_f64().unwrap().to_bits())
            } else {
                JsonEntry::Other
            }
        }
        serde_json::Value::String(s) => JsonEntry::Text(s.clone()),
        serde_json::Value::Array(a) => JsonEntry::Array(a.iter().map(|x| x.as_u64()).collect()),
        _ => JsonEntry::Other,
    }
}

fn document_from_text(text: &str) -> Option<JsonDocument> {
    let value: serde_json::Value = serde_json::from_str(text).ok()?;
    Some(match &value {
        serde_json::Value::Null => JsonDocument::Null,
        serde_json::Value::Array(a) => JsonDocument::Array(a.iter().map(entry_from_json).collect()),
        serde_json::Value::Object(m) => JsonDocument::Object(
            m.iter().map(|(k, v)| (k.clone(), entry_from_json(v))).collect(),
        ),
        _ => JsonDocument::Other,
    })
}

struct Host {
    rt: tokio::runtime::Runtime,
    local: libsql::Connection,
    remote: libsql::Connection,
    reachable: bool,
    probes: usize,
    now_ms: u64,
    caches: EndpointCaches,
}

fn open_memory(rt: &tokio::runtime::Runtime) -> libsql::Connection {
    let db = rt
        .block_on(libsql::Builder::new_local(":memory:").build())
        .unwrap();
    db.connect().unwrap()
}

impl Host {
    fn new() -> Host {
        let rt = tokio::runtime::Runtime::new().unwrap();
        let local = open_memory(&rt);
        let remote = open_memory(&rt);
        Host {
            rt,
            local,
            remote,
            reachable: true,
            probes: 0,
            now_ms: 1_000_000,
            caches: EndpointCaches::new(),
        }
    }

    fn clock(&self) -> Clock {
        Clock { monotonic_ms: self.now_ms, unix_secs: 1_700_000_000 }
    }

    fn store(&self, store: Store) -> Result<&libsql::Connection, String> {
        match store {
            Store::Local => Ok(&self.local),
            Store::Remote => {
                if self.reachable {
                    Ok(&self.remote)
                } else {
                    Err("connection refused".to_string())
                }
            }
        }
    }

    fn rows(&self, store: Store, sql: &str) -> Result<Vec<Vec<libsql::Value>>, String> {
        let conn = self.store(store)?;
        self.rt.block_on(async {
            let mut rows = conn
                .query(sql, libsql::params::Params::None)
                .await
                .map_err(|e| e.to_string())?;
            let mut out = Vec::new();
            while let Some(row) = rows.next().await.map_err(|e| e.to_string())? {
                let mut values = Vec::new();
                for i in 0..row.column_count() {
                    values.push(row.get_value(i).map_err(|e| e.to_string())?);
                }
                out.push(values);
            }
            Ok(out)
        })
    }

    fn perform(&mut self, request: Request) -> Reply {
        match request {
            Request::OpenLocal { .. } | Request::OpenRemote { .. } => Reply::Done,
            Request::Execute { store, sql, params } => {
                let done = self.store(store).and_then(|conn| {
                    self.rt
                        .block_on(conn.execute(&sql, to_params(&params)))
                        .map_err(|e| e.to_string())
                });
                match done {
                    Ok(n) => Reply::Affected(n),
                    Err(e) => Reply::Failed(e),
                }
            }
            Request::ExecuteBatch { store, sql } => {
                let done = self.store(store).and_then(|conn| {
                    self.rt
                        .block_on(conn.execute_batch(&sql))
                        .map(|_| ())
                        .map_err(|e| e.to_string())
                });
                match done {
                    Ok(()) => Reply::Done,
                    Err(e) => Reply::Failed(e),
                }
            }
            Request::QueryTexts { store, sql, column } => match self.rows(store, &sql) {
                Ok(rows) => {
                    let mut texts = Vec::new();
                    for row in rows {
                        match row.into_iter().nth(column as usize) {
                            Some(libsql::Value::Text(t)) => texts.push(t),
                            _ => return Reply::Failed("invalid column type".to_string()),
                        }
                    }
                    Reply::Texts(texts)
                }
                Err(e) => Reply::Failed(e),
            },
            Request::QueryRows { store, sql } => match self.rows(store, &sql) {
                Ok(rows) => Reply::Rows(
                    rows.into_iter()
                        .map(|r| r.into_iter().map(from_value).collect())
                        .collect(),
                ),
                Err(e) => Reply::Failed(e),
            },
            Request::Persist { row } => {
                let params = libsql::params::Params::Positional(vec![
                    libsql::Value::Text(row.sql.clone()),
                    libsql::Value::Text(document_to_text(&row.params_json)),
                    libsql::Value::Text(row.operation_type.clone()),
                    libsql::Value::Integer(row.timestamp),
                ]);
                match self.rt.block_on(self.local.execute(INSERT_PENDING, params)) {
                    Ok(_) => Reply::RowId(self.local.last_insert_rowid()),
                    Err(e) => Reply::Failed(e.to_string()),
                }
            }
            Request::Remove { id } => {
                let params = libsql::params::Params::Positional(vec![libsql::Value::Integer(id)]);
                let _ = self.rt.block_on(self.local.execute(DELETE_PENDING, params));
                Reply::Done
            }
            Request::LoadPending => match self.rows(Store::Local, SELECT_PENDING) {
                Ok(rows) => Reply::Pending(
                    rows.into_iter()
                        .map(|r| match (&r[0], &r[1], &r[2], &r[3], &r[4]) {
                            (
                                libsql::Value::Integer(id),
                                libsql::Value::Text(sql),
                                libsql::Value::Text(json),
                                libsql::Value::Text(kind),
                                libsql::Value::Integer(timestamp),
                            ) => LogRow {
                                id: *id,
                                sql: sql.clone(),
                                params_json: document_from_text(json),
                                operation_type: kind.clone(),
                                timestamp: *timestamp,
                            },
                            _ => panic!("a row of the log has another shape"),
                        })
                        .collect(),
                ),
                Err(e) => Reply::Failed(e),
            },
            Request::Probe { .. } => {
                self.probes += 1;
                Reply::Reachable(self.reachable)
            }
            Request::Return(_) => unreachable!(),
        }
    }

    fn drive(&mut self, conn: &mut OfflineWriteConnection, mut flow: Flow) -> Outcome {
        loop {
            assert!(flow.is_well_formed());
            match flow.request(conn) {
                Request::Return(outcome) => return outcome,
                request => {
                    let reply = self.perform(request);
                    let clock = self.clock();
                    flow.resume(conn, &mut self.caches, reply, clock);
                }
            }
        }
    }

    fn count(&self, store: Store, sql: &str) -> usize {
        self.rows(store, sql).unwrap().len()
    }
}

fn seeded_host() -> Host {
    let host = Host::new();
    host.rt
        .block_on(host.remote.execute_batch(
            "CREATE TABLE t(id INTEGER PRIMARY KEY, v TEXT); INSERT INTO t VALUES (1, 'a');",
        ))
        .unwrap();
    host
}

fn connected(host: &mut Host) -> OfflineWriteConnection {
    let mut conn = OfflineWriteConnection::new(
        ":memory:".to_string(),
        "token".to_string(),
        "http://db.example.com:8080".to_string(),
        None,
        None,
    );
    let flow = conn.connect();
    assert_eq!(host.drive(&mut conn, flow), Outcome::Ready { bootstrap_error: None });
    conn
}

#[test]
fn construct_copies_the_remote_store() {
    let mut host = seeded_host();
    let conn = connected(&mut host);
    assert!(conn.is_online);
    assert_eq!(conn.get_pending_operations_count(), 0);
    let rows = host.rows(Store::Local, "SELECT id, v FROM t").unwrap();
    assert_eq!(
        rows,
        vec![vec![libsql::Value::Integer(1), libsql::Value::Text("a".to_string())]]
    );
    let flag = host
        .rows(
            Store::Local,
            "SELECT value FROM libsql_metadata WHERE key = 'initial_sync_done'",
        )
        .unwrap();
    assert_eq!(flag, vec![vec![libsql::Value::Text("true".to_string())]]);
}

#[test]
fn offline_write_then_manual_sync() {
    let mut host = seeded_host();
    let mut conn = connected(&mut host);

    host.reachable = false;
    let flow = conn.execute("INSERT INTO t VALUES (2,'b')", None);
    assert_eq!(host.drive(&mut conn, flow), Outcome::Affected(1));
    assert_eq!(conn.get_pending_operations_count(), 1);
    assert_eq!(host.count(Store::Local, "SELECT * FROM t"), 2);
    assert_eq!(host.count(Store::Local, "SELECT * FROM libsql_pending_ops"), 1);

    let clock = host.clock();
    let flow = conn.query("SELECT * FROM t", None, Some(true), &mut host.caches, clock);
    match host.drive(&mut conn, flow) {
        Outcome::Query { store, sql, params } => {
            assert_eq!(store, Store::Local);
            assert_eq!(sql, "SELECT * FROM t");
            assert_eq!(params, ParameterSet::Absent);
        }
        other => panic!("{:?}", other),
    }

    host.reachable = true;
    host.now_ms += 6_000;
    let flow = conn.manual_sync();
    assert_eq!(
        host.drive(&mut conn, flow),
        Outcome::Message("Synced 1 operations, 0 remaining".to_string())
    );
    assert_eq!(conn.get_pending_operations_count(), 0);
    assert_eq!(host.count(Store::Remote, "SELECT * FROM t"), 2);
    assert_eq!(host.count(Store::Local, "SELECT * FROM libsql_pending_ops"), 0);
}

#[test]
fn bootstrap_twice_changes_nothing() {
    let mut host = seeded_host();
    let mut conn = connected(&mut host);
    let tables = host.count(Store::Local, "SELECT name FROM sqlite_master");
    let flow = conn.initial_sync_if_needed();
    assert_eq!(host.drive(&mut conn, flow), Outcome::Bootstrapped);
    assert_eq!(host.count(Store::Local, "SELECT * FROM t"), 1);
    assert_eq!(host.count(Store::Local, "SELECT name FROM sqlite_master"), tables);
}

#[test]
fn bootstrap_retried_after_a_lost_note_adds_nothing() {
    let mut host = seeded_host();
    let mut conn = connected(&mut host);
    host.rt
        .block_on(host.local.execute("DELETE FROM libsql_metadata", libsql::params::Params::None))
        .unwrap();
    let flow = conn.initial_sync_if_needed();
    assert_eq!(host.drive(&mut conn, flow), Outcome::Bootstrapped);
    assert_eq!(host.count(Store::Local, "SELECT * FROM t"), 1);
    assert_eq!(host.count(Store::Local, "SELECT * FROM libsql_metadata"), 1);
}

#[test]
fn replay_keeps_order_and_parameters() {
    let mut host = seeded_host();
    let mut conn = connected(&mut host);
    host.reachable = false;
    for (id, text) in [(10, "x"), (11, "y"), (12, "z")] {
        let parameters = QueryParameters {
            positional: Some(vec![
                QueryValue::Integer(id),
                QueryValue::Text(text.to_string()),
            ]),
            named: None,
        };
        let flow = conn.execute("INSERT INTO t VALUES (?, ?)", Some(parameters));
        assert_eq!(host.drive(&mut conn, flow), Outcome::Affected(1));
    }
    assert_eq!(conn.get_pending_operations_count(), 3);

    host.reachable = true;
    host.now_ms += 6_000;
    let clock = host.clock();
    let flow = conn.sync_pending_operations(&mut host.caches, clock);
    assert_eq!(host.drive(&mut conn, flow), Outcome::Synced(3));
    assert_eq!(conn.get_pending_operations_count(), 0);
    let rows = host.rows(Store::Remote, "SELECT id, v FROM t ORDER BY rowid").unwrap();
    assert_eq!(
        rows,
        vec![
            vec![libsql::Value::Integer(1), libsql::Value::Text("a".to_string())],
            vec![libsql::Value::Integer(10), libsql::Value::Text("x".to_string())],
            vec![libsql::Value::Integer(11), libsql::Value::Text("y".to_string())],
            vec![libsql::Value::Integer(12), libsql::Value::Text("z".to_string())],
        ]
    );
}

#[test]
fn sync_while_offline_is_refused_and_keeps_the_queue() {
    let mut host = seeded_host();
    let mut conn = connected(&mut host);
    host.reachable = false;
    let flow = conn.execute_batch("INSERT INTO t VALUES (5, 'e'); INSERT INTO t VALUES (6, 'f');");
    assert_eq!(host.drive(&mut conn, flow), Outcome::Executed(true));
    assert_eq!(conn.get_pending_operations_count(), 1);
    host.now_ms += 6_000;
    let clock = host.clock();
    let flow = conn.sync_pending_operations(&mut host.caches, clock);
    assert_eq!(
        host.drive(&mut conn, flow),
        Outcome::Error("Cannot sync: no internet connection".to_string())
    );
    assert_eq!(conn.get_pending_operations_count(), 1);
}

#[test]
fn failed_replay_stays_queued() {
    let mut host = seeded_host();
    let mut conn = connected(&mut host);
    host.reachable = false;
    let flow = conn.execute("INSERT INTO t VALUES (1, 'clash')", None);
    match host.drive(&mut conn, flow) {
        Outcome::Error(_) => {}
        other => panic!("{:?}", other),
    }
    assert_eq!(conn.get_pending_operations_count(), 0);

    host.rt
        .block_on(host.remote.execute("INSERT INTO t VALUES (7, 'remote')", libsql::params::Params::None))
        .unwrap();
    let flow = conn.execute("INSERT INTO t VALUES (7, 'local')", None);
    assert_eq!(host.drive(&mut conn, flow), Outcome::Affected(1));
    let flow = conn.execute("INSERT INTO t VALUES (8, 'fine')", None);
    assert_eq!(host.drive(&mut conn, flow), Outcome::Affected(1));
    assert_eq!(conn.get_pending_operations_count(), 2);

    host.reachable = true;
    host.now_ms += 6_000;
    let clock = host.clock();
    let flow = conn.sync_pending_operations(&mut host.caches, clock);
    assert_eq!(host.drive(&mut conn, flow), Outcome::Synced(1));
    assert_eq!(conn.get_pending_operations_count(), 1);
    assert_eq!(conn.pending_operations[0].sql, "INSERT INTO t VALUES (7, 'local')");
    assert_eq!(host.count(Store::Local, "SELECT * FROM libsql_pending_ops"), 1);
}

#[test]
fn queue_is_read_back_from_the_log() {
    let mut host = seeded_host();
    let mut conn = connected(&mut host);
    host.reachable = false;
    let parameters = QueryParameters {
        positional: None,
        named: Some(vec![
            (":id".to_string(), QueryValue::Integer(3)),
            (":v".to_string(), QueryValue::Blob(vec![0, 7, 255])),
        ]),
    };
    let flow = conn.execute("INSERT INTO t VALUES (:id, :v)", Some(parameters));
    assert_eq!(host.drive(&mut conn, flow), Outcome::Affected(1));
    let queued = conn.pending_operations.clone();
    assert_eq!(queued.len(), 1);
    assert_eq!(queued[0].id, Some(1));

    let mut again = OfflineWriteConnection::new(
        ":memory:".to_string(),
        "token".to_string(),
        "http://db.example.com:8080".to_string(),
        None,
        None,
    );
    let flow = again.connect();
    assert_eq!(host.drive(&mut again, flow), Outcome::Ready { bootstrap_error: None });
    assert!(!again.is_online);
    assert_eq!(again.pending_operations, queued);
}

#[test]
fn two_checks_in_the_window_probe_once() {
    let mut host = seeded_host();
    let mut conn = connected(&mut host);
    let before = host.probes;
    let clock = host.clock();
    let flow = conn.is_online(&mut host.caches, clock);
    assert_eq!(host.drive(&mut conn, flow), Outcome::Online(true));
    host.now_ms += 4_999;
    host.reachable = false;
    let clock = host.clock();
    let flow = conn.is_online(&mut host.caches, clock);
    assert_eq!(host.drive(&mut conn, flow), Outcome::Online(true));
    assert_eq!(host.probes, before + 1);
    host.now_ms += 1;
    let clock = host.clock();
    let flow = conn.is_online(&mut host.caches, clock);
    assert_eq!(host.drive(&mut conn, flow), Outcome::Online(false));
    assert_eq!(host.probes, before + 2);
}

#[test]
fn check_connectivity_probes_whatever_the_cache_holds() {
    let mut host = seeded_host();
    let mut conn = connected(&mut host);
    let clock = host.clock();
    let flow = conn.is_online(&mut host.caches, clock);
    assert_eq!(host.drive(&mut conn, flow), Outcome::Online(true));
    let before = host.probes;
    host.reachable = false;
    let clock = host.clock();
    let flow = conn.check_connectivity(&mut host.caches, clock);
    assert_eq!(host.drive(&mut conn, flow), Outcome::Online(false));
    assert_eq!(host.probes, before + 1);
    assert!(!conn.is_online);
    let clock = host.clock();
    let flow = conn.is_online(&mut host.caches, clock);
    assert_eq!(host.drive(&mut conn, flow), Outcome::Online(false));
    assert_eq!(host.probes, before + 1);
}

#[test]
fn metadata_and_reset_follow_reachability() {
    let mut host = seeded_host();
    let mut conn = connected(&mut host);
    let clock = host.clock();
    let flow = conn.changes(&mut host.caches, clock);
    assert_eq!(host.drive(&mut conn, flow), Outcome::Route(Store::Remote));
    let clock = host.clock();
    let flow = conn.reset(&mut host.caches, clock);
    assert_eq!(host.drive(&mut conn, flow), Outcome::Reset { remote: true });
    host.reachable = false;
    host.now_ms += 5_000;
    let clock = host.clock();
    let flow = conn.last_insert_rowid(&mut host.caches, clock);
    assert_eq!(host.drive(&mut conn, flow), Outcome::Route(Store::Local));
    let clock = host.clock();
    let flow = conn.total_changes(&mut host.caches, clock);
    assert_eq!(host.drive(&mut conn, flow), Outcome::Route(Store::Local));
    let clock = host.clock();
    let flow = conn.is_autocommit(&mut host.caches, clock);
    assert_eq!(host.drive(&mut conn, flow), Outcome::Route(Store::Local));
    let clock = host.clock();
    let flow = conn.reset(&mut host.caches, clock);
    assert_eq!(host.drive(&mut conn, flow), Outcome::Reset { remote: false });
}

#[test]
fn bootstrap_retried_over_a_unique_index_succeeds() {
    let mut host = Host::new();
    host.rt
        .block_on(host.remote.execute_batch(
            "CREATE TABLE t(id INTEGER PRIMARY KEY, v TEXT); \
             CREATE UNIQUE INDEX idx_v ON t (v); \
             CREATE VIEW all_t AS SELECT * FROM t; \
             INSERT INTO t VALUES (1, 'a');",
        ))
        .unwrap();
    let mut conn = connected(&mut host);
    let made = host
        .rows(Store::Local, "SELECT sql FROM sqlite_master WHERE name = 'idx_v'")
        .unwrap();
    assert_eq!(
        made,
        vec![vec![libsql::Value::Text(
            "CREATE UNIQUE INDEX idx_v ON t (v)".to_string()
        )]]
    );
    host.rt
        .block_on(host.local.execute("DELETE FROM libsql_metadata", libsql::params::Params::None))
        .unwrap();
    let flow = conn.initial_sync_if_needed();
    assert_eq!(host.drive(&mut conn, flow), Outcome::Bootstrapped);
    assert_eq!(host.count(Store::Local, "SELECT * FROM t"), 1);
    assert_eq!(host.count(Store::Local, "SELECT * FROM libsql_metadata"), 1);
}

#[test]
fn construction_reports_a_failed_bootstrap_and_stays_usable() {
    let mut host = Host::new();
    host.rt
        .block_on(host.remote.execute_batch(
            "CREATE TABLE t(id INTEGER PRIMARY KEY, v TEXT NOT NULL); \
             INSERT INTO t VALUES (1, 'a');",
        ))
        .unwrap();
    host.rt
        .block_on(host.local.execute_batch("CREATE TABLE t(id INTEGER PRIMARY KEY)"))
        .unwrap();
    let mut conn = OfflineWriteConnection::new(
        ":memory:".to_string(),
        "token".to_string(),
        "http://db.example.com:8080".to_string(),
        None,
        None,
    );
    let flow = conn.connect();
    match host.drive(&mut conn, flow) {
        Outcome::Ready { bootstrap_error: Some(message) } => assert!(!message.is_empty()),
        other => panic!("{:?}", other),
    }
    assert_eq!(host.count(Store::Local, "SELECT * FROM libsql_metadata"), 0);
    let flow = conn.execute("INSERT INTO t VALUES (2)", None);
    assert_eq!(host.drive(&mut conn, flow), Outcome::Affected(1));
}
