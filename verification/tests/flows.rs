use libsql_php::bootstrap::{FLAG_QUERY, MARK_DONE, SCHEMA_QUERY, TABLES_QUERY};
use libsql_php::connectivity::{ConnectivityCache, EndpointCaches};
use libsql_php::json::{JsonDocument, JsonEntry};
use libsql_php::offline_write::{
    create_sqld_offline_write_connection, Flow, OfflineWriteConnection,
};
use libsql_php::pending::{
    LogRow, NewLogRow, OperationType, PendingOperation, CREATE_METADATA_TABLE,
    CREATE_PENDING_TABLE,
};
use libsql_php::protocol::{Clock, Outcome, Reply, Request, Store};
use libsql_php::query_params::{ParameterSet, QueryParameters, QueryValue};
use libsql_php::statement::{positional_keys, ParamKey};

fn s(text: &str) -> String {
    text.to_string()
}

fn at(ms: u64) -> Clock {
    Clock { monotonic_ms: ms, unix_secs: 1_700_000_000 + ms / 1000 }
}

fn connection() -> OfflineWriteConnection {
    OfflineWriteConnection::new(
        s("local.db"),
        s("token"),
        s("https://db.tenant.example.com/some/path?x=1"),
        None,
        None,
    )
}

fn execute(store: Store, sql: &str, params: ParameterSet) -> Request {
    Request::Execute { store, sql: s(sql), params }
}

fn texts(store: Store, sql: &str, column: u32) -> Request {
    Request::QueryTexts { store, sql: s(sql), column }
}

/// Hands the replies to the flow one after another and gives the requests
/// that it made, the first one included.
fn play(
    conn: &mut OfflineWriteConnection,
    flow: &mut Flow,
    caches: &mut EndpointCaches,
    replies: Vec<Reply>,
    start_ms: u64,
) -> Vec<Request> {
    let mut requests = vec![flow.request(conn)];
    for (i, reply) in replies.into_iter().enumerate() {
        flow.resume(conn, caches, reply, at(start_ms + i as u64));
        assert!(flow.is_well_formed());
        requests.push(flow.request(conn));
    }
    requests
}

fn operation(id: i64, sql: &str, kind: OperationType) -> PendingOperation {
    PendingOperation {
        id: Some(id),
        sql: s(sql),
        params: ParameterSet::Absent,
        operation_type: kind,
        timestamp: 7,
    }
}

#[test]
fn new_sets_the_defaults() {
    let mut caches = EndpointCaches::new();
    let conn = connection();
    assert_eq!(conn.flags, 6);
    assert_eq!(conn.encryption_key, "");
    assert_eq!(conn.remote_url, "https://db.tenant.example.com/some/path?x=1");
    assert!(!conn.is_online);
    assert_eq!(caches.get(&conn.remote_url).last_check, None);
    assert_eq!(conn.get_pending_operations_count(), 0);
    let chosen = create_sqld_offline_write_connection(
        s("a.db"),
        s("t"),
        s("http://h"),
        Some(1),
        Some(s("key")),
    );
    assert_eq!(chosen.flags, 1);
    assert_eq!(chosen.encryption_key, "key");
    assert_eq!(chosen.db_path, "a.db");
    assert_eq!(chosen.auth_token, "t");
}

#[test]
fn connect_when_offline_only_reads_the_log() {
    let mut caches = EndpointCaches::new();
    let mut conn = connection();
    let mut flow = conn.connect();
    let row = LogRow {
        id: 4,
        sql: s("INSERT INTO t VALUES (?)"),
        params_json: Some(JsonDocument::Array(vec![JsonEntry::Integer(9)])),
        operation_type: s("Execute"),
        timestamp: 12,
    };
    let requests = play(
        &mut conn,
        &mut flow, &mut caches,
        vec![
            Reply::Done,
            Reply::Affected(0),
            Reply::Affected(0),
            Reply::Done,
            Reply::Reachable(false),
            Reply::Pending(vec![row]),
        ],
        0,
    );
    assert_eq!(
        requests,
        vec![
            Request::OpenLocal { path: s("local.db"), flags: 6, encryption_key: s("") },
            execute(Store::Local, CREATE_PENDING_TABLE, ParameterSet::Absent),
            execute(Store::Local, CREATE_METADATA_TABLE, ParameterSet::Absent),
            Request::OpenRemote {
                url: s("https://db.tenant.example.com/some/path?x=1"),
                auth_token: s("token"),
            },
            Request::Probe { target: s("https://example.com/v2") },
            Request::LoadPending,
            Request::Return(Outcome::Ready { bootstrap_error: None }),
        ]
    );
    assert!(flow.is_finished());
    assert!(!conn.is_online);
    assert_eq!(
        conn.pending_operations,
        vec![PendingOperation {
            id: Some(4),
            sql: s("INSERT INTO t VALUES (?)"),
            params: ParameterSet::Positional(vec![QueryValue::Integer(9)]),
            operation_type: OperationType::Execute,
            timestamp: 12,
        }]
    );
}

#[test]
fn connect_fails_where_a_table_cannot_be_made() {
    let mut caches = EndpointCaches::new();
    let mut conn = connection();
    let mut flow = conn.connect();
    let requests = play(&mut conn, &mut flow, &mut caches, vec![Reply::Done, Reply::Failed(s("disk"))], 0);
    assert_eq!(
        requests[2],
        Request::Return(Outcome::Fatal(s("Failed to create pending_ops table")))
    );
    let mut flow = conn.connect();
    let requests = play(
        &mut conn,
        &mut flow, &mut caches,
        vec![Reply::Done, Reply::Affected(0), Reply::Failed(s("disk"))],
        0,
    );
    assert_eq!(
        requests[3],
        Request::Return(Outcome::Fatal(s("Failed to create metadata table")))
    );
    let mut flow = conn.connect();
    let requests = play(&mut conn, &mut flow, &mut caches, vec![Reply::Failed(s("no such directory"))], 0);
    assert_eq!(requests[1], Request::Return(Outcome::Fatal(s("no such directory"))));
}

#[test]
fn connect_without_a_probe_for_an_address_that_is_none() {
    let mut caches = EndpointCaches::new();
    let mut conn =
        OfflineWriteConnection::new(s("local.db"), s("token"), s("not a url"), None, None);
    let mut flow = conn.connect();
    let requests = play(
        &mut conn,
        &mut flow, &mut caches,
        vec![Reply::Done, Reply::Affected(0), Reply::Affected(0), Reply::Done],
        0,
    );
    assert_eq!(requests[4], Request::LoadPending);
    let mut flow = conn.is_online(&mut caches, at(0));
    assert_eq!(flow.request(&conn), Request::Return(Outcome::Online(false)));
    flow.resume(&mut conn, &mut caches, Reply::Reachable(true), at(1));
    assert_eq!(flow.request(&conn), Request::Return(Outcome::Online(false)));
    assert_eq!(caches.get(&conn.remote_url).last_check, Some((0, false)));
}

#[test]
fn bootstrap_copies_schema_then_rows_then_notes_it() {
    let mut caches = EndpointCaches::new();
    let mut conn = connection();
    let mut flow = conn.initial_sync_if_needed();
    let row_one = vec![QueryValue::Integer(1), QueryValue::Text(s("a"))];
    let row_two = vec![QueryValue::Integer(2), QueryValue::Null];
    let requests = play(
        &mut conn,
        &mut flow, &mut caches,
        vec![
            Reply::Texts(vec![]),
            Reply::Texts(vec![s("CREATE TABLE t(id INTEGER PRIMARY KEY, v TEXT)"), s("CREATE INDEX i ON t(v)")]),
            Reply::Affected(0),
            Reply::Affected(0),
            Reply::Texts(vec![s("empty"), s("t")]),
            Reply::Rows(vec![]),
            Reply::Rows(vec![row_one.clone(), row_two.clone()]),
            Reply::Texts(vec![s("id"), s("v")]),
            Reply::Affected(1),
            Reply::Affected(1),
            Reply::Affected(1),
        ],
        0,
    );
    let insert = "INSERT OR IGNORE INTO \"t\" (id,v) VALUES (?,?)";
    assert_eq!(
        requests,
        vec![
            texts(Store::Local, FLAG_QUERY, 0),
            texts(Store::Remote, SCHEMA_QUERY, 0),
            execute(
                Store::Local,
                "CREATE TABLE IF NOT EXISTS t(id INTEGER PRIMARY KEY, v TEXT)",
                ParameterSet::Absent
            ),
            execute(Store::Local, "CREATE INDEX IF NOT EXISTS i ON t(v)", ParameterSet::Absent),
            texts(Store::Remote, TABLES_QUERY, 0),
            Request::QueryRows { store: Store::Remote, sql: s("SELECT * FROM \"empty\"") },
            Request::QueryRows { store: Store::Remote, sql: s("SELECT * FROM \"t\"") },
            texts(Store::Remote, "PRAGMA table_info(\"t\")", 1),
            execute(Store::Local, insert, ParameterSet::Positional(row_one)),
            execute(Store::Local, insert, ParameterSet::Positional(row_two)),
            execute(Store::Local, MARK_DONE, ParameterSet::Absent),
            Request::Return(Outcome::Bootstrapped),
        ]
    );
}

#[test]
fn bootstrap_is_skipped_where_the_note_is_there() {
    let mut caches = EndpointCaches::new();
    let mut conn = connection();
    let mut flow = conn.initial_sync_if_needed();
    let requests = play(&mut conn, &mut flow, &mut caches, vec![Reply::Texts(vec![s("true")])], 0);
    assert_eq!(
        requests,
        vec![texts(Store::Local, FLAG_QUERY, 0), Request::Return(Outcome::Bootstrapped)]
    );
}

#[test]
fn bootstrap_that_fails_writes_no_note() {
    let mut caches = EndpointCaches::new();
    let failures: Vec<Vec<Reply>> = vec![
        vec![Reply::Failed(s("boom"))],
        vec![Reply::Texts(vec![s("false")]), Reply::Failed(s("boom"))],
        vec![
            Reply::Texts(vec![]),
            Reply::Texts(vec![s("CREATE TABLE t(x)")]),
            Reply::Failed(s("boom")),
        ],
        vec![
            Reply::Texts(vec![]),
            Reply::Texts(vec![]),
            Reply::Texts(vec![s("t")]),
            Reply::Rows(vec![vec![QueryValue::Integer(1)]]),
            Reply::Texts(vec![s("x")]),
            Reply::Failed(s("boom")),
        ],
        vec![
            Reply::Texts(vec![]),
            Reply::Texts(vec![]),
            Reply::Texts(vec![]),
            Reply::Failed(s("boom")),
        ],
    ];
    for replies in failures {
        let mut conn = connection();
        let mut flow = conn.initial_sync_if_needed();
        let requests = play(&mut conn, &mut flow, &mut caches, replies, 0);
        assert_eq!(requests.last(), Some(&Request::Return(Outcome::Error(s("boom")))));
        let marks = requests
            .iter()
            .filter(|r| **r == execute(Store::Local, MARK_DONE, ParameterSet::Absent))
            .count();
        let failed_at_the_note = requests.len() == 5;
        assert_eq!(marks, if failed_at_the_note { 1 } else { 0 });
    }
}

#[test]
fn a_write_survives_a_failing_log_and_a_remote_out_of_reach() {
    let mut caches = EndpointCaches::new();
    let mut conn = connection();
    let parameters = QueryParameters {
        positional: Some(vec![QueryValue::Integer(2), QueryValue::Real(0.5f64.to_bits())]),
        named: None,
    };
    let params =
        ParameterSet::Positional(vec![QueryValue::Integer(2), QueryValue::Real(0.5f64.to_bits())]);
    let mut flow = conn.execute("INSERT INTO t VALUES (?, ?)", Some(parameters));
    let requests = play(
        &mut conn,
        &mut flow, &mut caches,
        vec![Reply::Affected(3), Reply::Failed(s("disk full")), Reply::Reachable(false)],
        2_000,
    );
    assert_eq!(
        requests,
        vec![
            execute(Store::Local, "INSERT INTO t VALUES (?, ?)", params.clone()),
            Request::Persist {
                row: NewLogRow {
                    sql: s("INSERT INTO t VALUES (?, ?)"),
                    params_json: JsonDocument::Array(vec![
                        JsonEntry::Integer(2),
                        JsonEntry::Real(0.5f64.to_bits()),
                    ]),
                    operation_type: s("Execute"),
                    timestamp: 1_700_000_002,
                },
            },
            Request::Probe { target: s("https://example.com/v2") },
            Request::Return(Outcome::Affected(3)),
        ]
    );
    assert_eq!(
        conn.pending_operations,
        vec![PendingOperation {
            id: Some(-1),
            sql: s("INSERT INTO t VALUES (?, ?)"),
            params,
            operation_type: OperationType::Execute,
            timestamp: 1_700_000_002,
        }]
    );
    assert_eq!(caches.get(&conn.remote_url).last_check, Some((2_002, false)));
}

#[test]
fn a_refused_write_queues_nothing() {
    let mut caches = EndpointCaches::new();
    let mut conn = connection();
    let mut flow = conn.execute("INSERT INTO t VALUES (1)", None);
    let requests = play(&mut conn, &mut flow, &mut caches, vec![Reply::Failed(s("constraint"))], 0);
    assert_eq!(requests[1], Request::Return(Outcome::Error(s("constraint"))));
    assert_eq!(conn.get_pending_operations_count(), 0);
    let mut flow = conn.execute_batch("nonsense");
    let requests = play(&mut conn, &mut flow, &mut caches, vec![Reply::Affected(1)], 0);
    assert_eq!(
        requests,
        vec![
            Request::ExecuteBatch { store: Store::Local, sql: s("nonsense") },
            Request::Return(Outcome::Error(s("unexpected reply"))),
        ]
    );
    assert_eq!(conn.get_pending_operations_count(), 0);
}

#[test]
fn a_write_while_online_replays_the_queue_in_order() {
    let mut caches = EndpointCaches::new();
    let mut conn = connection();
    conn.pending_operations = vec![
        operation(1, "UPDATE t SET v = 1", OperationType::Execute),
        operation(2, "DELETE FROM t; VACUUM", OperationType::ExecuteBatch),
    ];
    conn.pending_operations[0].id = None;
    caches.put(&conn.remote_url, ConnectivityCache { last_check: Some((0, true)) });
    let mut flow = conn.execute_batch("CREATE TABLE u(x)");
    let requests = play(
        &mut conn,
        &mut flow, &mut caches,
        vec![
            Reply::Done,
            Reply::RowId(3),
            Reply::Affected(1),
            Reply::Failed(s("locked")),
            Reply::Done,
            Reply::Failed(s("cannot delete")),
        ],
        1_000,
    );
    assert_eq!(
        requests,
        vec![
            Request::ExecuteBatch { store: Store::Local, sql: s("CREATE TABLE u(x)") },
            Request::Persist {
                row: NewLogRow {
                    sql: s("CREATE TABLE u(x)"),
                    params_json: JsonDocument::Null,
                    operation_type: s("ExecuteBatch"),
                    timestamp: 1_700_000_001,
                },
            },
            execute(Store::Remote, "UPDATE t SET v = 1", ParameterSet::Absent),
            Request::ExecuteBatch { store: Store::Remote, sql: s("DELETE FROM t; VACUUM") },
            Request::ExecuteBatch { store: Store::Remote, sql: s("CREATE TABLE u(x)") },
            Request::Remove { id: 3 },
            Request::Return(Outcome::Executed(true)),
        ]
    );
    assert_eq!(
        conn.pending_operations,
        vec![operation(2, "DELETE FROM t; VACUUM", OperationType::ExecuteBatch)]
    );
}

#[test]
fn what_is_queued_during_a_replay_stays_ahead_of_what_failed() {
    let mut caches = EndpointCaches::new();
    let mut conn = connection();
    conn.pending_operations = vec![operation(1, "A", OperationType::Execute)];
    caches.put(&conn.remote_url, ConnectivityCache { last_check: Some((0, true)) });
    let mut flow = conn.sync_pending_operations(&mut caches, at(10));
    assert_eq!(flow.request(&conn), execute(Store::Remote, "A", ParameterSet::Absent));
    assert_eq!(conn.get_pending_operations_count(), 0);
    conn.pending_operations.push(operation(2, "B", OperationType::Execute));
    flow.resume(&mut conn, &mut caches, Reply::Failed(s("remote refused")), at(11));
    assert_eq!(flow.request(&conn), Request::Return(Outcome::Synced(0)));
    assert_eq!(
        conn.pending_operations,
        vec![operation(2, "B", OperationType::Execute), operation(1, "A", OperationType::Execute)]
    );
}

#[test]
fn manual_sync_reports_what_is_left() {
    let mut caches = EndpointCaches::new();
    let mut conn = connection();
    conn.pending_operations = (1..=12)
        .map(|i| operation(i, "INSERT INTO t DEFAULT VALUES", OperationType::Execute))
        .collect();
    let mut flow = conn.manual_sync();
    let mut replies = vec![Reply::Texts(vec![s("true")]), Reply::Reachable(true)];
    for i in 0..12 {
        if i % 4 == 0 {
            replies.push(Reply::Failed(s("busy")));
        } else {
            replies.push(Reply::Affected(1));
            replies.push(Reply::Done);
        }
    }
    let requests = play(&mut conn, &mut flow, &mut caches, replies, 0);
    assert_eq!(
        requests.last(),
        Some(&Request::Return(Outcome::Message(s("Synced 9 operations, 3 remaining"))))
    );
    assert_eq!(conn.get_pending_operations_count(), 3);
    let left: Vec<Option<i64>> = conn.pending_operations.iter().map(|op| op.id).collect();
    assert_eq!(left, vec![Some(1), Some(5), Some(9)]);

    let mut caches = EndpointCaches::new();
    let mut conn = connection();
    let mut flow = conn.manual_sync();
    let requests = play(
        &mut conn,
        &mut flow, &mut caches,
        vec![Reply::Failed(s("no such table")), Reply::Reachable(false)],
        0,
    );
    assert_eq!(
        requests.last(),
        Some(&Request::Return(Outcome::Error(s("Cannot sync: no internet connection"))))
    );
}

#[test]
fn a_query_asks_for_reachability_only_when_forced() {
    let mut caches = EndpointCaches::new();
    let mut conn = connection();
    let named = QueryParameters {
        positional: None,
        named: Some(vec![(s(":id"), QueryValue::Integer(1))]),
    };
    let params = ParameterSet::Named(vec![(s(":id"), QueryValue::Integer(1))]);
    let local = Outcome::Query {
        store: Store::Local,
        sql: s("SELECT 1"),
        params: params.clone(),
    };
    let remote = Outcome::Query { store: Store::Remote, sql: s("SELECT 1"), params };
    for force in [None, Some(false)] {
        let flow = conn.query("SELECT 1", Some(named.clone()), force, &mut caches, at(0));
        assert_eq!(flow.request(&conn), Request::Return(local.clone()));
    }
    assert_eq!(caches.get(&conn.remote_url).last_check, None);
    let mut flow = conn.query("SELECT 1", Some(named.clone()), Some(true), &mut caches, at(0));
    assert_eq!(flow.request(&conn), Request::Probe { target: s("https://example.com/v2") });
    flow.resume(&mut conn, &mut caches, Reply::Failed(s("timed out")), at(20_000));
    assert_eq!(flow.request(&conn), Request::Return(local.clone()));
    assert_eq!(caches.get(&conn.remote_url).last_check, Some((20_000, false)));
    let flow = conn.query("SELECT 1", Some(named.clone()), Some(true), &mut caches, at(24_999));
    assert_eq!(flow.request(&conn), Request::Return(local));
    let mut flow = conn.query("SELECT 1", Some(named), Some(true), &mut caches, at(25_000));
    flow.resume(&mut conn, &mut caches, Reply::Reachable(true), at(25_001));
    assert_eq!(flow.request(&conn), Request::Return(remote));
}

#[test]
fn entries_of_a_host_array_become_parameters() {
    let mut caches = EndpointCaches::new();
    let parameters = QueryParameters::from_entries(vec![
        (ParamKey::Index(2), QueryValue::Integer(30)),
        (ParamKey::Name(s(":a")), QueryValue::Text(s("first"))),
        (ParamKey::Index(0), QueryValue::Integer(10)),
        (ParamKey::Name(s(":b")), QueryValue::Null),
        (ParamKey::Name(s(":a")), QueryValue::Text(s("second"))),
        (ParamKey::Index(2), QueryValue::Integer(31)),
    ]);
    assert_eq!(
        parameters,
        QueryParameters {
            positional: Some(vec![
                QueryValue::Integer(10),
                QueryValue::Null,
                QueryValue::Integer(31)
            ]),
            named: Some(vec![
                (s(":a"), QueryValue::Text(s("second"))),
                (s(":b"), QueryValue::Null)
            ]),
        }
    );
    assert_eq!(
        QueryParameters::from_entries(vec![]),
        QueryParameters { positional: None, named: None }
    );
    assert_eq!(
        QueryParameters::from_entries(vec![(ParamKey::Index(0), QueryValue::Null)]),
        QueryParameters { positional: Some(vec![QueryValue::Null]), named: None }
    );
}

#[test]
fn placeholders_follow_the_statement() {
    let mut caches = EndpointCaches::new();
    assert_eq!(positional_keys("SELECT $1, $2", 2), vec![s("$1"), s("$2")]);
    assert_eq!(positional_keys("SELECT ?, ?", 3), vec![s("?1"), s("?2"), s("?3")]);
    assert_eq!(positional_keys("SELECT @1", 1), vec![s("@1")]);
    assert_eq!(positional_keys("SELECT ? WHERE a = $1", 1), vec![s("$1")]);
    assert_eq!(positional_keys("SELECT @1, ?", 1), vec![s("?1")]);
    assert_eq!(positional_keys("SELECT 1", 1), vec![s("$1")]);
    assert_eq!(positional_keys("SELECT $2", 11).last(), Some(&s("$11")));
    assert!(positional_keys("SELECT ?", 0).is_empty());
}

#[test]
fn connect_reports_a_bootstrap_that_failed() {
    let mut caches = EndpointCaches::new();
    let mut conn = connection();
    let mut flow = conn.connect();
    let requests = play(
        &mut conn,
        &mut flow,
        &mut caches,
        vec![
            Reply::Done,
            Reply::Affected(0),
            Reply::Affected(0),
            Reply::Done,
            Reply::Reachable(true),
            Reply::Texts(vec![]),
            Reply::Failed(s("remote catalog out of order")),
            Reply::Pending(vec![]),
        ],
        0,
    );
    assert_eq!(requests[6], texts(Store::Remote, SCHEMA_QUERY, 0));
    assert_eq!(requests[7], Request::LoadPending);
    assert_eq!(
        requests[8],
        Request::Return(Outcome::Ready {
            bootstrap_error: Some(s("remote catalog out of order"))
        })
    );
    assert!(conn.is_online);
    assert!(!requests.contains(&execute(Store::Local, MARK_DONE, ParameterSet::Absent)));
    let mut flow = conn.execute("INSERT INTO t VALUES (1)", None);
    assert_eq!(
        flow.request(&conn),
        execute(Store::Local, "INSERT INTO t VALUES (1)", ParameterSet::Absent)
    );
    flow.resume(&mut conn, &mut caches, Reply::Affected(1), at(10));
    assert!(!flow.is_finished());
}

#[test]
fn connections_to_one_remote_store_share_its_cache() {
    let mut caches = EndpointCaches::new();
    let mut one = connection();
    let mut two = connection();
    let mut elsewhere =
        OfflineWriteConnection::new(s("b.db"), s("t"), s("https://other.example.org"), None, None);
    let mut flow = one.is_online(&mut caches, at(1_000));
    assert_eq!(flow.request(&one), Request::Probe { target: s("https://example.com/v2") });
    flow.resume(&mut one, &mut caches, Reply::Reachable(true), at(1_500));
    assert_eq!(flow.request(&one), Request::Return(Outcome::Online(true)));
    let flow = two.is_online(&mut caches, at(2_000));
    assert_eq!(flow.request(&two), Request::Return(Outcome::Online(true)));
    let flow = elsewhere.is_online(&mut caches, at(2_000));
    assert_eq!(flow.request(&elsewhere), Request::Probe { target: s("https://example.org/v2") });
    let flow = two.is_online(&mut caches, at(6_500));
    assert_eq!(flow.request(&two), Request::Probe { target: s("https://example.com/v2") });
    assert_eq!(caches.entries.len(), 2);
}
