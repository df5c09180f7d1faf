use rsqlite_rsync::client::{ClientConfig, ClientTarget, DiscoveryMode, SqlGatewayClient};
use rsqlite_rsync::db::SqlValue;
use rsqlite_rsync::error::{Result, SyncError};
use rsqlite_rsync::gateway::engine::{
    database_info, execute_response, is_sidecar, setup_statements, sort_databases,
};
use rsqlite_rsync::gateway::rows::{ChunkCollector, RowCollector};
use rsqlite_rsync::gateway::server::{
    admit_batch, admit_execute, admit_query, admit_stream_query, check_write_access,
    cluster_status, drop_response, effective_chunk_size, failed_status, lost_status,
    standalone_status,
};
use rsqlite_rsync::gateway::transaction::{BatchAction, BatchRun, StatementEvent};
use rsqlite_rsync::gateway::values::{
    bind_parameters, column_headers, map_decltype_to_proto, named_parameter_index,
    proto_value_to_sql, row_of, sql_value_to_proto, BindTarget, ColumnInfo,
};
use rsqlite_rsync::gateway::{AuthConfig, Client, ClientBackend, DatabaseEngine};
use rsqlite_rsync::ha::{HaSharedState, LeaseRecord, NodeRole};
use rsqlite_rsync::proto::{
    BatchResponse, BatchTransactionMode, ColumnType, ConsistencyLevel, DatabaseInfo,
    NamedParameter, Parameters, ReportedRole, Statement, StatementOutcome, Value, ValueKind,
    CODE_NOT_LEADER, HEADER_RSQLITE_CODE, HEADER_RSQLITE_GENERATION,
    HEADER_RSQLITE_LEADER_ENDPOINT, HEADER_RSQLITE_LEADER_ID,
};
use rsqlite_rsync::rpc::{constant_time_eq, Code, Status};

// Authorization.

#[test]
fn disabled_accepts_requests_without_any_header() {
    let auth = AuthConfig::disabled();
    assert!(auth.is_disabled());
    assert!(auth.check(None).is_ok());
}

#[test]
fn required_rejects_missing_header() {
    let auth = AuthConfig::required("secret".into());
    assert!(!auth.is_disabled());
    let err = auth.check(None).unwrap_err();
    assert_eq!(err.code, Code::Unauthenticated);
}

#[test]
fn required_rejects_wrong_scheme() {
    let auth = AuthConfig::required("secret".into());
    let err = auth.check(Some(b"Basic secret")).unwrap_err();
    assert_eq!(err.code, Code::Unauthenticated);
}

#[test]
fn required_rejects_wrong_token() {
    let auth = AuthConfig::required("secret".into());
    let err = auth.check(Some(b"Bearer wrong")).unwrap_err();
    assert_eq!(err.code, Code::Unauthenticated);
}

#[test]
fn required_accepts_matching_token() {
    let auth = AuthConfig::required("secret".into());
    assert!(auth.check(Some(b"Bearer secret")).is_ok());
}

#[test]
fn each_refusal_says_why() {
    let auth = AuthConfig::required("secret".into());
    let message = |header: Option<&[u8]>| auth.check(header).unwrap_err().message;
    assert_eq!(message(None), "missing authorization header");
    assert_eq!(
        message(Some(&[0xff, 0xfe])),
        "authorization header is not valid UTF-8"
    );
    assert_eq!(
        message(Some(b"secret")),
        "authorization header must use the Bearer scheme"
    );
    assert_eq!(message(Some(b"Bearer x")), "invalid bearer token");
}

#[test]
fn constant_time_eq_matches_partial_eq_semantics() {
    assert!(constant_time_eq(b"abc", b"abc"));
    assert!(!constant_time_eq(b"abc", b"abd"));
    assert!(!constant_time_eq(b"abc", b"ab"));
    assert!(constant_time_eq(b"", b""));
}

// Databases and their files.

#[test]
fn test_lock_normalization() {
    let engine = DatabaseEngine::new("/data");
    let lock1 = engine.lock_key("test.db");
    let lock2 = engine.lock_key("  test.db  \n");
    assert_eq!(lock1, lock2);
}

fn info(name: &str) -> DatabaseInfo {
    database_info(name.to_string(), 4096, 2, 8192)
}

#[test]
fn test_recursive_list_and_drop_databases() {
    let engine = DatabaseEngine::new("/data");
    let dbs = sort_databases(vec![info("tenants/tenant1.db"), info("root.db")]);
    let db_names: Vec<&str> = dbs.iter().map(|d| d.name.as_str()).collect();
    assert_eq!(db_names, vec!["root.db", "tenants/tenant1.db"]);

    // Drop nested database with whitespace in name
    let files = engine.database_files("  tenants/tenant1.db  ").unwrap();
    assert_eq!(files[0], "/data/tenants/tenant1.db");
}

#[test]
fn databases_are_listed_with_their_sizes() {
    let db = info("a.db");
    assert_eq!(db.page_size, 4096);
    assert_eq!(db.page_count, 2);
    assert_eq!(db.file_size_bytes, 8192);
    assert_eq!(db.journal_mode, "wal");
}

#[test]
fn test_resolve_db_path_rejects_empty_name() {
    let engine = DatabaseEngine::new("/data");
    let err = engine.resolve_db_path("   ").unwrap_err();
    assert!(err.display().contains("cannot be empty"));
}

#[test]
fn test_resolve_db_path_rejects_path_traversal_and_absolute() {
    let engine = DatabaseEngine::new("/data");

    let err = engine.resolve_db_path("../escape.db").unwrap_err();
    assert!(err.display().contains("path traversal not permitted"));

    let err = engine.resolve_db_path("./current.db").unwrap_err();
    assert!(err.display().contains("path traversal not permitted"));

    let err = engine.resolve_db_path("/etc/evil.db").unwrap_err();
    assert!(err.display().contains("path traversal not permitted"));
}

#[test]
fn test_resolve_db_path_creates_nested_parent_dirs() {
    let engine = DatabaseEngine::new("/data");
    let resolved = engine.resolve_db_path("a/b/c.db").unwrap();
    assert_eq!(resolved, "/data/a/b/c.db");
}

#[test]
fn database_is_dropped_with_its_sidecars() {
    let engine = DatabaseEngine::new("/data");
    assert_eq!(
        engine.database_files("app.db").unwrap(),
        vec![
            "/data/app.db",
            "/data/app.db-wal",
            "/data/app.db-shm",
            "/data/app.db-journal"
        ]
    );
    assert!(engine.database_files("..").is_err());
    for sidecar in ["app.db-wal", "app.db-shm", "app.db-journal"] {
        assert!(is_sidecar(sidecar));
    }
    assert!(!is_sidecar("app.db"));
}

#[test]
fn writers_set_up_the_write_ahead_log() {
    assert!(setup_statements(true).len() < setup_statements(false).len());
    assert!(setup_statements(false)
        .iter()
        .any(|s| s.contains("journal_mode")));
}

// Values.

fn value(kind: ValueKind) -> Value {
    Value { value: Some(kind) }
}

#[test]
fn test_map_decltype_to_proto_all_branches() {
    assert_eq!(map_decltype_to_proto("INTEGER"), ColumnType::Integer);
    assert_eq!(map_decltype_to_proto("VARCHAR(32)"), ColumnType::Text);
    assert_eq!(map_decltype_to_proto("TEXT"), ColumnType::Text);
    assert_eq!(map_decltype_to_proto("CLOB"), ColumnType::Text);
    assert_eq!(map_decltype_to_proto("BLOB"), ColumnType::Blob);
    assert_eq!(map_decltype_to_proto("REAL"), ColumnType::Float);
    assert_eq!(map_decltype_to_proto("FLOAT"), ColumnType::Float);
    assert_eq!(map_decltype_to_proto("DOUBLE"), ColumnType::Float);
    assert_eq!(map_decltype_to_proto(""), ColumnType::Unspecified);
}

#[test]
fn declared_types_are_read_without_regard_to_case() {
    assert_eq!(map_decltype_to_proto("varchar"), ColumnType::Text);
    // The earlier rule wins.
    assert_eq!(map_decltype_to_proto("FLOATING POINT"), ColumnType::Integer);
    assert_eq!(map_decltype_to_proto("CHARBLOB"), ColumnType::Text);
}

#[test]
fn test_sql_value_to_proto_all_variants() {
    assert_eq!(
        sql_value_to_proto(SqlValue::Null).value,
        Some(ValueKind::NullValue(true))
    );
    assert_eq!(
        sql_value_to_proto(SqlValue::Integer(42)).value,
        Some(ValueKind::IntValue(42))
    );
    assert_eq!(
        sql_value_to_proto(SqlValue::Float(1.5f64.to_bits())).value,
        Some(ValueKind::FloatValue(1.5f64.to_bits()))
    );
    assert_eq!(
        sql_value_to_proto(SqlValue::Text("hi".to_string())).value,
        Some(ValueKind::TextValue("hi".to_string()))
    );
    assert_eq!(
        sql_value_to_proto(SqlValue::Blob(vec![1, 2, 3])).value,
        Some(ValueKind::BlobValue(vec![1, 2, 3]))
    );
}

#[test]
fn test_proto_value_to_sql_all_variants() {
    assert_eq!(proto_value_to_sql(&Value { value: None }), SqlValue::Null);
    assert_eq!(
        proto_value_to_sql(&value(ValueKind::NullValue(true))),
        SqlValue::Null
    );
    assert_eq!(
        proto_value_to_sql(&value(ValueKind::IntValue(7))),
        SqlValue::Integer(7)
    );
    assert_eq!(
        proto_value_to_sql(&value(ValueKind::FloatValue(2.5f64.to_bits()))),
        SqlValue::Float(2.5f64.to_bits())
    );
    assert_eq!(
        proto_value_to_sql(&value(ValueKind::TextValue("x".to_string()))),
        SqlValue::Text("x".to_string())
    );
    assert_eq!(
        proto_value_to_sql(&value(ValueKind::BlobValue(vec![9, 8]))),
        SqlValue::Blob(vec![9, 8])
    );
}

#[test]
fn values_survive_the_wire() {
    for v in [
        SqlValue::Null,
        SqlValue::Integer(i64::MIN),
        SqlValue::Float(f64::NAN.to_bits()),
        SqlValue::Text("\u{1f600}".to_string()),
        SqlValue::Blob(vec![]),
    ] {
        let shown = format!("{v:?}");
        let back = proto_value_to_sql(&sql_value_to_proto(v));
        assert_eq!(format!("{back:?}"), shown);
    }
}

fn column(name: &str, declared_type: Option<&str>) -> ColumnInfo {
    ColumnInfo {
        name: name.to_string(),
        declared_type: declared_type.map(|t| t.to_string()),
    }
}

#[test]
fn test_execute_and_query_with_positional_and_named_parameters() {
    // Positional parameters, including a blob and a null.
    let bindings = bind_parameters(&Some(Parameters {
        positional: vec![
            value(ValueKind::TextValue("widget".to_string())),
            value(ValueKind::FloatValue(9.99f64.to_bits())),
            value(ValueKind::BlobValue(vec![1, 2, 3])),
            Value { value: None },
        ],
        named: vec![],
    }));
    let targets: Vec<_> = bindings.iter().map(|b| &b.target).collect();
    assert_eq!(
        targets,
        vec![
            &BindTarget::Index(1),
            &BindTarget::Index(2),
            &BindTarget::Index(3),
            &BindTarget::Index(4)
        ]
    );
    assert_eq!(bindings[2].value, SqlValue::Blob(vec![1, 2, 3]));
    assert_eq!(bindings[3].value, SqlValue::Null);
    let resp = execute_response(1, 1, 10, 7);
    assert_eq!(resp.rows_affected, 1);
    assert_eq!(resp.last_insert_rowid, 1);
    assert_eq!(resp.generation, 7);

    // Named parameters.
    let bindings = bind_parameters(&Some(Parameters {
        positional: vec![],
        named: vec![
            NamedParameter {
                name: ":name".to_string(),
                value: Some(value(ValueKind::TextValue("gadget".to_string()))),
            },
            NamedParameter {
                name: ":price".to_string(),
                value: Some(value(ValueKind::IntValue(5))),
            },
            NamedParameter {
                name: ":blob".to_string(),
                value: Some(value(ValueKind::NullValue(true))),
            },
            NamedParameter {
                name: ":note".to_string(),
                value: Some(Value { value: None }),
            },
        ],
    }));
    assert_eq!(bindings.len(), 4);
    assert_eq!(bindings[1].target, BindTarget::Name(":price".to_string()));
    assert_eq!(bindings[1].value, SqlValue::Integer(5));
    assert_eq!(bindings[3].value, SqlValue::Null);

    let columns = vec![
        column("id", Some("INTEGER")),
        column("name", Some("TEXT")),
        column("price", Some("REAL")),
        column("blob_col", Some("BLOB")),
        column("note", None),
    ];
    let mut rows = RowCollector::new(0);
    for id in 1..=2 {
        assert!(rows.push(vec![
            SqlValue::Integer(id),
            SqlValue::Text("widget".to_string()),
            SqlValue::Float(9.99f64.to_bits()),
            SqlValue::Blob(vec![1, 2, 3]),
            SqlValue::Null,
        ]));
    }
    let resp = rows.into_response(&columns, 10, 3, true);
    assert_eq!(resp.total_rows, 2);
    assert!(resp.is_replica_read);
    assert_eq!(resp.generation, 3);
    assert_eq!(resp.columns[0].column_type, ColumnType::Integer);
    assert_eq!(resp.columns[1].column_type, ColumnType::Text);
    assert_eq!(resp.columns[2].column_type, ColumnType::Float);
    assert_eq!(resp.columns[3].column_type, ColumnType::Blob);
    assert_eq!(resp.columns[4].declared_type, "");

    let first_row = &resp.rows[0];
    assert!(matches!(
        first_row.values[3].value,
        Some(ValueKind::BlobValue(_))
    ));
    assert!(matches!(
        first_row.values[4].value,
        Some(ValueKind::NullValue(_))
    ));
}

#[test]
fn test_execute_named_parameter_not_found_errors() {
    let err = named_parameter_index(":missing", None).unwrap_err();
    assert!(err.display().contains("not found in prepared statement"));
    assert_eq!(named_parameter_index(":v", Some(2)).unwrap(), 2);
}

// Rows and chunks.

#[test]
fn test_query_respects_max_rows_limit() {
    let mut rows = RowCollector::new(2);
    assert!(rows.push(vec![SqlValue::Integer(1)]));
    assert!(!rows.push(vec![SqlValue::Integer(2)]));
    let resp = rows.into_response(&vec![column("id", None)], 0, 1, false);
    assert_eq!(resp.total_rows, 2);
    assert_eq!(resp.rows.len(), 2);
}

#[test]
fn test_stream_query_chunks_splits_into_multiple_chunks() {
    let headers = column_headers(&vec![column("id", Some("INTEGER"))]);
    let mut collector = ChunkCollector::new(headers, 2, 0);
    for id in 1..=5 {
        assert!(collector.push(vec![SqlValue::Integer(id)], 7));
    }
    let chunks = collector.finish(9);

    // 5 rows with chunk_size 2 -> [2, 2, 1] rows across 3 chunks.
    assert_eq!(chunks.len(), 3);
    assert!(
        !chunks[0].columns.is_empty(),
        "first chunk should carry column headers"
    );
    assert!(
        chunks[1].columns.is_empty(),
        "later chunks should not repeat column headers"
    );
    assert!(chunks[2].columns.is_empty());
    assert!(!chunks[0].is_last);
    assert!(!chunks[1].is_last);
    assert!(chunks[2].is_last);
    assert_eq!(chunks[2].rows.len(), 1);
    assert_eq!(chunks[0].total_rows, 2);
    assert_eq!(chunks[1].total_rows, 4);
    assert_eq!(chunks[2].total_rows, 5);
}

#[test]
fn test_stream_query_chunks_respects_max_rows() {
    let headers = column_headers(&vec![column("id", Some("INTEGER"))]);
    let mut collector = ChunkCollector::new(headers, 10, 3);
    assert!(collector.push(vec![SqlValue::Integer(1)], 0));
    assert!(collector.push(vec![SqlValue::Integer(2)], 0));
    assert!(!collector.push(vec![SqlValue::Integer(3)], 0));
    let chunks = collector.finish(0);

    assert_eq!(chunks.len(), 1);
    assert!(chunks[0].is_last);
    assert_eq!(chunks[0].total_rows, 3);
    assert_eq!(chunks[0].rows.len(), 3);
    assert!(!chunks[0].columns.is_empty());
}

#[test]
fn no_rows_make_one_chunk_with_the_headers() {
    let headers = column_headers(&vec![column("id", None)]);
    let chunks = ChunkCollector::new(headers, 2, 0).finish(3);
    assert_eq!(chunks.len(), 1);
    assert!(chunks[0].is_last);
    assert_eq!(chunks[0].columns.len(), 1);
    assert_eq!(chunks[0].total_rows, 0);
}

#[test]
fn rows_of_the_chunks_are_the_rows_in_order() {
    let mut collector = ChunkCollector::new(vec![], 3, 0);
    for id in 0..10 {
        collector.push(vec![SqlValue::Integer(id)], 0);
    }
    let all: Vec<_> = collector
        .finish(0)
        .into_iter()
        .flat_map(|c| c.rows)
        .collect();
    let expected: Vec<_> = (0..10).map(|id| row_of(vec![SqlValue::Integer(id)])).collect();
    assert_eq!(all, expected);
}

// Batches.

/// A table of texts, with the statements that a batch may run on it.
#[derive(Clone)]
struct Table {
    texts: Vec<String>,
    unique: bool,
}

/// What a statement of a batch does.
enum Work {
    Insert(&'static str),
    Select,
    Invalid,
    MissingParameter,
}

impl Table {
    fn new() -> Table {
        Table {
            texts: vec![],
            unique: false,
        }
    }

    fn run(&mut self, work: &Work) -> StatementEvent {
        match work {
            Work::Insert(text) if self.unique && self.texts.iter().any(|t| t == text) => {
                StatementEvent::Failed(SyncError::sqlite(19, "UNIQUE constraint failed: t.v"))
            }
            Work::Insert(text) => {
                self.texts.push(text.to_string());
                StatementEvent::Written {
                    rows_affected: 1,
                    last_insert_rowid: self.texts.len() as i64,
                    execution_time_us: 5,
                }
            }
            Work::Select => {
                let mut rows = RowCollector::new(0);
                for text in &self.texts {
                    rows.push(vec![SqlValue::Text(text.clone())]);
                }
                StatementEvent::Read {
                    columns: vec![column("v", Some("TEXT"))],
                    rows,
                    execution_time_us: 5,
                }
            }
            Work::Invalid => {
                StatementEvent::Failed(SyncError::sqlite(1, "near \"NOT\": syntax error"))
            }
            Work::MissingParameter => {
                StatementEvent::Failed(named_parameter_index(":missing", None).unwrap_err())
            }
        }
    }

    fn batch(
        &mut self,
        works: &[Work],
        mode: BatchTransactionMode,
        stop_on_error: bool,
        generation: u64,
    ) -> Result<BatchResponse> {
        let mut run = BatchRun::new(works.len(), mode, stop_on_error, generation);
        let mut saved = self.clone();
        loop {
            match run.action() {
                BatchAction::Begin(sql) => {
                    assert!(sql.starts_with("BEGIN "));
                    saved = self.clone();
                    run.on_begin(Ok(()))?;
                }
                BatchAction::Run(index) => {
                    let event = self.run(&works[index]);
                    run.on_statement(event);
                }
                BatchAction::Commit => run.on_end(true),
                BatchAction::Rollback => {
                    *self = saved.clone();
                    run.on_end(true);
                }
                BatchAction::Respond => return Ok(run.respond(40)),
            }
        }
    }
}

#[test]
fn test_batch_commits_across_transaction_modes() {
    let mut table = Table::new();
    for (mode, val) in [
        (BatchTransactionMode::NoTransaction, "none"),
        (BatchTransactionMode::Deferred, "deferred"),
        (BatchTransactionMode::Immediate, "immediate"),
        (BatchTransactionMode::Exclusive, "exclusive"),
    ] {
        let resp = table.batch(&[Work::Insert(val)], mode, true, 9).unwrap();
        assert!(resp.committed, "mode {mode:?} should commit");
        assert_eq!(resp.results.len(), 1);
        assert_eq!(resp.generation, 9);
    }
    assert_eq!(table.texts.len(), 4);
}

#[test]
fn test_batch_stop_on_error_true_halts_on_prepare_error() {
    let mut table = Table::new();
    let works = [Work::Invalid, Work::Insert("after")];
    let resp = table
        .batch(&works, BatchTransactionMode::Deferred, true, 1)
        .unwrap();
    assert_eq!(resp.results.len(), 1);
    assert!(!resp.results[0].error.is_empty());
    assert!(!resp.committed);
    assert_eq!(table.texts.len(), 0);
}

#[test]
fn test_batch_continues_past_prepare_error_when_stop_on_error_false() {
    let mut table = Table::new();
    let works = [Work::Insert("first"), Work::Invalid, Work::Insert("third")];
    let resp = table
        .batch(&works, BatchTransactionMode::NoTransaction, false, 1)
        .unwrap();
    assert_eq!(resp.results.len(), 3);
    assert!(resp.results[0].error.is_empty());
    assert!(!resp.results[1].error.is_empty());
    assert!(resp.results[2].error.is_empty());
    // Without a transaction, `committed` just reflects whether any statement
    // failed.
    assert!(!resp.committed);
    assert_eq!(table.texts.len(), 2);
}

#[test]
fn test_batch_bind_error_stop_on_error_variants() {
    let works = [Work::MissingParameter, Work::Insert("after")];

    let resp = Table::new()
        .batch(&works, BatchTransactionMode::Deferred, true, 1)
        .unwrap();
    assert_eq!(resp.results.len(), 1);
    assert!(resp.results[0]
        .error
        .contains("not found in prepared statement"));
    assert!(!resp.committed);

    let resp2 = Table::new()
        .batch(&works, BatchTransactionMode::Deferred, false, 1)
        .unwrap();
    assert_eq!(resp2.results.len(), 2);
    assert!(resp2.results[0]
        .error
        .contains("not found in prepared statement"));
    assert!(resp2.results[1].error.is_empty());
}

#[test]
fn test_batch_write_step_error_stop_on_error_variants() {
    let mut table = Table::new();
    table.unique = true;
    table.run(&Work::Insert("dup"));
    let works = [Work::Insert("dup"), Work::Insert("unique-2")];

    let resp = table
        .batch(&works, BatchTransactionMode::Immediate, true, 1)
        .unwrap();
    assert_eq!(resp.results.len(), 1);
    assert!(!resp.results[0].error.is_empty());
    assert!(!resp.committed);

    let resp2 = table
        .batch(&works, BatchTransactionMode::Immediate, false, 1)
        .unwrap();
    assert_eq!(resp2.results.len(), 2);
    assert!(!resp2.results[0].error.is_empty());
    assert!(resp2.results[1].error.is_empty());
}

#[test]
fn stopping_batch_keeps_nothing_of_what_ran_before() {
    let mut table = Table::new();
    let works = [Work::Insert("first"), Work::Invalid, Work::Insert("third")];
    let resp = table
        .batch(&works, BatchTransactionMode::Exclusive, true, 1)
        .unwrap();
    assert_eq!(resp.results.len(), 2);
    assert!(!resp.committed);
    assert_eq!(table.texts.len(), 0);
}

#[test]
fn transaction_begins_as_its_mode_says() {
    for (mode, sql) in [
        (BatchTransactionMode::Deferred, "BEGIN DEFERRED"),
        (BatchTransactionMode::Immediate, "BEGIN IMMEDIATE"),
        (BatchTransactionMode::Exclusive, "BEGIN EXCLUSIVE"),
    ] {
        let run = BatchRun::new(1, mode, true, 1);
        assert_eq!(run.action(), BatchAction::Begin(sql.to_string()));
    }
    let run = BatchRun::new(1, BatchTransactionMode::NoTransaction, true, 1);
    assert_eq!(run.action(), BatchAction::Run(0));
}

#[test]
fn transaction_that_does_not_begin_fails_the_batch() {
    let mut run = BatchRun::new(1, BatchTransactionMode::Immediate, true, 1);
    let err = run
        .on_begin(Err(SyncError::Busy("locked".to_string())))
        .unwrap_err();
    assert_eq!(err, SyncError::Busy("locked".to_string()));
}

#[test]
fn commit_that_fails_keeps_nothing() {
    let mut run = BatchRun::new(0, BatchTransactionMode::Deferred, true, 1);
    run.on_begin(Ok(())).unwrap();
    assert_eq!(run.action(), BatchAction::Commit);
    run.on_end(false);
    assert!(!run.respond(0).committed);
}

#[test]
fn results_of_reads_carry_their_rows() {
    let mut table = Table::new();
    table.run(&Work::Insert("a"));
    let resp = table
        .batch(&[Work::Select], BatchTransactionMode::Deferred, true, 6)
        .unwrap();
    match &resp.results[0].result {
        Some(StatementOutcome::QueryResult(q)) => {
            assert_eq!(q.total_rows, 1);
            assert_eq!(q.generation, 6);
            assert!(!q.is_replica_read);
        }
        other => panic!("expected rows, got {other:?}"),
    }
}

// The service.

const NOW: u64 = 1_000;

fn state(is_writer: bool, allow_replica_reads: bool) -> HaSharedState {
    let mut state = HaSharedState::new("node-1", allow_replica_reads);
    state.generation = 42;
    if is_writer {
        state.role = NodeRole::Writer;
        state.lease_record = Some(LeaseRecord {
            holder_node_id: "node-1".to_string(),
            generation: 42,
            renewed_at_secs: NOW,
            ttl_secs: 60,
        });
    } else {
        state.role = NodeRole::Replica;
        state.active_leader_id = Some("node-writer".to_string());
        state.active_leader_endpoint = Some("http://127.0.0.1:9090".to_string());
    }
    state
}

fn statement(sql: &str) -> Option<Statement> {
    Some(Statement {
        sql: sql.to_string(),
        parameters: None,
    })
}

#[test]
fn execute_on_writer_succeeds() {
    let (generation, stmt) = admit_execute(
        &state(true, false),
        NOW,
        statement("CREATE TABLE kv (k TEXT PRIMARY KEY, v TEXT);"),
    )
    .unwrap();
    assert_eq!(generation, 42);
    assert_eq!(stmt.sql, "CREATE TABLE kv (k TEXT PRIMARY KEY, v TEXT);");
    let insert_resp = execute_response(1, 1, 0, generation);
    assert_eq!(insert_resp.rows_affected, 1);
    assert_eq!(insert_resp.last_insert_rowid, 1);
}

fn entry<'a>(status: &'a Status, name: &str) -> &'a [u8] {
    status.header(name).unwrap().as_slice()
}

#[test]
fn execute_on_replica_fails_precondition_with_leader_metadata() {
    let err = admit_execute(
        &state(false, false),
        NOW,
        statement("CREATE TABLE t (id INT);"),
    )
    .unwrap_err();
    assert_eq!(err.code, Code::FailedPrecondition);
    assert_eq!(entry(&err, HEADER_RSQLITE_CODE), CODE_NOT_LEADER.as_bytes());
    assert_eq!(entry(&err, HEADER_RSQLITE_LEADER_ID), b"node-writer");
    assert_eq!(
        entry(&err, HEADER_RSQLITE_LEADER_ENDPOINT),
        b"http://127.0.0.1:9090"
    );
    assert_eq!(entry(&err, HEADER_RSQLITE_GENERATION), b"42");
}

#[test]
fn leader_that_is_no_header_value_is_left_out() {
    let mut state = state(false, false);
    state.active_leader_id = Some("line\nbreak".to_string());
    let err = check_write_access(&state, NOW).unwrap_err();
    assert!(err.header(HEADER_RSQLITE_LEADER_ID).is_none());
    assert!(err.header(HEADER_RSQLITE_LEADER_ENDPOINT).is_some());
}

#[test]
fn execute_missing_statement_returns_invalid_argument() {
    let err = admit_execute(&state(true, false), NOW, None).unwrap_err();
    assert_eq!(err.code, Code::InvalidArgument);
}

#[test]
fn execute_invalid_sql_returns_internal() {
    let err = failed_status(&SyncError::sqlite(1, "near \"INVALID\": syntax error"));
    assert_eq!(err.code, Code::Internal);
    assert_eq!(
        err.message,
        "SQLite error (code 1): near \"INVALID\": syntax error"
    );
    let lost = lost_status("panicked");
    assert_eq!(lost.code, Code::Internal);
    assert_eq!(lost.message, "task join error: panicked");
}

#[test]
fn query_strong_consistency_on_writer_succeeds() {
    let query = admit_query(
        &state(true, false),
        NOW,
        Some(ConsistencyLevel::Strong),
        statement("SELECT id, name FROM items;"),
    )
    .unwrap();
    assert!(!query.is_replica_read);
    assert_eq!(query.generation, 42);
}

#[test]
fn query_strong_consistency_on_replica_fails() {
    let err = admit_query(
        &state(false, true),
        NOW,
        Some(ConsistencyLevel::Strong),
        statement("SELECT 1;"),
    )
    .err()
    .unwrap();
    assert_eq!(err.code, Code::FailedPrecondition);
}

#[test]
fn query_eventual_consistency_on_replica_with_reads_allowed() {
    let query = admit_query(
        &state(false, true),
        NOW,
        Some(ConsistencyLevel::Eventual),
        statement("SELECT 42 as num;"),
    )
    .unwrap();
    assert!(query.is_replica_read);
}

#[test]
fn query_eventual_consistency_on_replica_disallowed_fails() {
    let err = admit_query(
        &state(false, false),
        NOW,
        Some(ConsistencyLevel::Eventual),
        statement("SELECT 42 as num;"),
    )
    .err()
    .unwrap();
    assert_eq!(err.code, Code::FailedPrecondition);
}

#[test]
fn query_missing_statement_and_invalid_sql() {
    let err = admit_query(
        &state(true, false),
        NOW,
        Some(ConsistencyLevel::Strong),
        None,
    )
    .err()
    .unwrap();
    assert_eq!(err.code, Code::InvalidArgument);
    assert_eq!(err.message, "missing statement in query request");
}

#[test]
fn stream_query_on_writer_and_replica() {
    let strong = Some(ConsistencyLevel::Strong);
    let query = admit_stream_query(
        &state(true, false),
        NOW,
        strong,
        statement("SELECT n FROM nums ORDER BY n;"),
    );
    assert!(query.is_ok());

    let missing_err = admit_stream_query(&state(true, false), NOW, strong, None)
        .err()
        .unwrap();
    assert_eq!(missing_err.code, Code::InvalidArgument);
    assert_eq!(
        missing_err.message,
        "missing statement in stream query request"
    );

    let replica_err =
        admit_stream_query(&state(false, false), NOW, strong, statement("SELECT 1;"))
            .err()
            .unwrap();
    assert_eq!(replica_err.code, Code::FailedPrecondition);

    assert_eq!(effective_chunk_size(0), 100);
    assert_eq!(effective_chunk_size(2), 2);
}

#[test]
fn batch_on_writer_and_replica() {
    let (mode, generation) = admit_batch(
        &state(true, false),
        NOW,
        Some(BatchTransactionMode::Immediate),
    )
    .unwrap();
    assert_eq!(mode, BatchTransactionMode::Immediate);
    assert_eq!(generation, 42);
    let works = [Work::Insert("a"), Work::Insert("b"), Work::Select];
    let resp = Table::new().batch(&works, mode, true, generation).unwrap();
    assert_eq!(resp.results.len(), 3);
    assert!(resp.committed);
    assert_eq!(resp.generation, 42);

    // Replica rejects batch
    let err = admit_batch(
        &state(false, false),
        NOW,
        Some(BatchTransactionMode::NoTransaction),
    )
    .unwrap_err();
    assert_eq!(err.code, Code::FailedPrecondition);
}

#[test]
fn drop_database_on_writer_and_replica() {
    let generation = check_write_access(&state(true, false), NOW).unwrap();
    let resp = drop_response(true, generation);
    assert!(resp.existed);
    assert_eq!(resp.generation, 42);

    // Replica rejects drop
    let err = check_write_access(&state(false, false), NOW).unwrap_err();
    assert_eq!(err.code, Code::FailedPrecondition);
}

#[test]
fn get_cluster_status_writer_and_replica() {
    let resp = cluster_status(&state(true, false), NOW, vec![info("stat.db")], 5, "0.1.0");
    assert_eq!(resp.node_id, "node-1");
    assert_eq!(resp.role, ReportedRole::Writer);
    assert_eq!(resp.local_generation, 42);
    assert!(resp.lease.is_some());
    let lease = resp.lease.unwrap();
    assert!(lease.is_held);
    assert_eq!(lease.holder_node_id, "node-1");
    assert!(!resp.databases.is_empty());
    assert!(!resp.version.is_empty());

    let rep_resp = cluster_status(&state(false, false), NOW, vec![], 5, "0.1.0");
    assert_eq!(rep_resp.role, ReportedRole::Replica);
    assert_eq!(rep_resp.current_leader_id, "node-writer");
    assert_eq!(rep_resp.current_leader_endpoint, "http://127.0.0.1:9090");
}

#[test]
fn writer_whose_lease_ran_out_is_reported_as_replica() {
    let resp = cluster_status(&state(true, false), NOW + 61, vec![], 5, "0.1.0");
    assert_eq!(resp.role, ReportedRole::Replica);
    assert!(resp.lease.unwrap().is_expired);
    assert!(check_write_access(&state(true, false), NOW + 61).is_err());
    assert!(check_write_access(&state(true, false), NOW + 60).is_ok());
}

#[test]
fn query_eventual_consistency_on_writer_uses_writer_generation() {
    let query = admit_query(
        &state(true, false),
        NOW,
        Some(ConsistencyLevel::Eventual),
        statement("SELECT 1;"),
    )
    .unwrap();
    assert_eq!(query.generation, 42);
    assert!(!query.is_replica_read);
}

#[test]
fn query_out_of_range_consistency_falls_back_to_strong() {
    // Falls back to `Strong`, which succeeds on the writer.
    let query = admit_query(&state(true, false), NOW, None, statement("SELECT 1;")).unwrap();
    assert!(!query.is_replica_read);

    // On a replica, it fails exactly like an explicit `Strong` request would.
    let err = admit_query(&state(false, true), NOW, None, statement("SELECT 1;"))
        .err()
        .unwrap();
    assert_eq!(err.code, Code::FailedPrecondition);
}

#[test]
fn batch_out_of_range_transaction_mode_falls_back_to_deferred() {
    let (mode, generation) = admit_batch(&state(true, false), NOW, None).unwrap();
    assert_eq!(mode, BatchTransactionMode::Deferred);
    let resp = Table::new()
        .batch(&[Work::Insert("a")], mode, true, generation)
        .unwrap();
    assert_eq!(resp.results.len(), 1);
    assert!(resp.committed);
}

// The client of both backends.

#[test]
fn test_from_remote_constructs_remote_backend() {
    let remote = SqlGatewayClient::new(ClientConfig::new(DiscoveryMode::Direct(
        "http://127.0.0.1:1".to_string(),
    )));
    let client = Client::from_remote(remote);
    assert!(client.is_remote());
    assert!(!client.is_local());
    assert!(matches!(client.backend(), ClientBackend::Remote(_)));
}

#[test]
fn local_client_reports_a_standalone_node() {
    let client = Client::new(ClientTarget::Local {
        data_dir: "/data".to_string(),
    });
    assert!(client.is_local());
    match client.into_backend() {
        ClientBackend::Local(engine) => assert_eq!(engine.data_dir(), "/data"),
        ClientBackend::Remote(_) => panic!("expected a local backend"),
    }
    let status = standalone_status(vec![info("a.db")], "0.1.0");
    assert_eq!(status.node_id, "standalone-edge");
    assert_eq!(status.role, ReportedRole::Writer);
    assert_eq!(status.current_leader_endpoint, "local://in-process");
    assert_eq!(status.databases.len(), 1);
    assert!(Client::from_local_dir("/data").is_local());
}
