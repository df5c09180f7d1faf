use rsqlite_rsync::cli::args::{
    confirms, drop_question, drop_report, script_read_error, script_source, CliConsistency,
    CliRuntimeMode, CliTxMode, ClientConnectionArgs, ConnectionEnv, OutputFormat, ScriptSource,
};
use rsqlite_rsync::cli::output::{
    batch_failures, batch_summary, column_title, database_cells, delimited_field,
    delimited_header, delimited_line, delimiter_of, execute_summary, format_sql_value, json_key,
    lease_summary, node_role_str, rows_summary, status_lines,
};
use rsqlite_rsync::cli::repl::{
    history_path, read_line, schema_lines, script_announcement, LineKind, MetaAction, Repl,
    SCHEMA_SQL, TABLES_SQL, TABLE_SCHEMA_SQL,
};
use rsqlite_rsync::cli::sql::{
    hex_encode, is_query_sql, parameter_value_text, parse_cli_parameters, parse_string_to_value,
    split_sql_statements,
};
use rsqlite_rsync::client::{ClientTarget, DiscoveryMode};
use rsqlite_rsync::db::SqlValue;
use rsqlite_rsync::error::{Result, SyncError};
use rsqlite_rsync::ha::LeaseRecord;
use rsqlite_rsync::proto::{
    BatchResponse, BatchTransactionMode, ClusterStatusResponse, ColumnHeader, ColumnType,
    ConsistencyLevel, DatabaseInfo, ExecuteResponse, LeaseStatus, Parameters, ReportedRole, Row,
    StatementOutcome, StatementResult, Value, ValueKind,
};
use rsqlite_rsync::time::Duration;

fn default_test_args() -> ClientConnectionArgs {
    ClientConnectionArgs {
        mode: CliRuntimeMode::Auto,
        data_dir: None,
        endpoint: None,
        endpoints: vec![],
        kube_lease: None,
        kube_namespace: "default".to_string(),
        kube_service: "sqlite-ha".to_string(),
        kube_context: None,
        kubeconfig: None,
        kubectl_path: "kubectl".to_string(),
        grpc_port: 50051,
        max_retries: 5,
        timeout: 15,
        token: None,
    }
}

fn no_env() -> ConnectionEnv {
    ConnectionEnv {
        data_dir: None,
        endpoint: None,
        endpoints: None,
        kube_lease: None,
    }
}

fn env_dir(dir: &str) -> ConnectionEnv {
    ConnectionEnv {
        data_dir: Some(dir.to_string()),
        ..no_env()
    }
}

#[test]
fn test_client_target_resolution_modes() {
    let env = no_env();

    // Explicit Local Mode with data_dir
    let mut args = default_test_args();
    args.mode = CliRuntimeMode::Local;
    args.data_dir = Some("/tmp/edge-data".to_string());
    let target = args.to_client_target(&env).unwrap();
    assert!(matches!(target, ClientTarget::Local { data_dir } if data_dir == "/tmp/edge-data"));

    // Explicit Local Mode without data_dir should fail
    let mut args_no_dir = default_test_args();
    args_no_dir.mode = CliRuntimeMode::Local;
    args_no_dir.data_dir = None;
    assert!(args_no_dir.to_client_target(&env).is_err());

    // Auto Mode with data_dir -> Local
    let mut args_auto_local = default_test_args();
    args_auto_local.mode = CliRuntimeMode::Auto;
    args_auto_local.data_dir = Some("/var/data".to_string());
    let target = args_auto_local.to_client_target(&env).unwrap();
    assert!(matches!(target, ClientTarget::Local { data_dir } if data_dir == "/var/data"));

    // Auto Mode with both endpoint and data_dir -> Remote takes precedence
    let mut args_auto_both = default_test_args();
    args_auto_both.mode = CliRuntimeMode::Auto;
    args_auto_both.endpoint = Some("http://127.0.0.1:50051".to_string());
    args_auto_both.data_dir = Some("/var/data".to_string());
    let target = args_auto_both.to_client_target(&env).unwrap();
    assert!(matches!(target, ClientTarget::Remote { .. }));

    // Explicit Cluster Mode with endpoint -> Remote
    let mut args_cluster = default_test_args();
    args_cluster.mode = CliRuntimeMode::Cluster;
    args_cluster.endpoint = Some("http://10.0.0.1:50051".to_string());
    args_cluster.token = Some("secret".to_string());
    args_cluster.timeout = 10;
    args_cluster.max_retries = 3;
    let target = args_cluster.to_client_target(&env).unwrap();
    match target {
        ClientTarget::Remote { config } => {
            assert!(
                matches!(config.discovery, DiscoveryMode::Direct(ref ep) if ep == "http://10.0.0.1:50051")
            );
            assert_eq!(config.auth_token.as_deref(), Some("secret"));
            assert_eq!(config.max_retries, 3);
        }
        ClientTarget::Local { .. } => panic!("expected Remote target"),
    }

    // Auto Mode with defaults -> Remote (default direct discovery)
    let args_default = default_test_args();
    let target = args_default.to_client_target(&env).unwrap();
    assert!(matches!(target, ClientTarget::Remote { .. }));
}

#[test]
fn test_client_target_resolution_env_vars() {
    let mut args = default_test_args();
    args.mode = CliRuntimeMode::Local;
    args.kube_service = "".into();
    args.timeout = 5;
    args.max_retries = 0;
    let env = env_dir("/tmp/rsqlite-test-env");
    match args.to_client_target(&env).unwrap() {
        ClientTarget::Local { data_dir } => assert_eq!(data_dir, "/tmp/rsqlite-test-env"),
        _ => panic!("expected Local target"),
    }

    // Auto mode with data dir env var and no remote env vars
    let mut args_auto = args.clone();
    args_auto.mode = CliRuntimeMode::Auto;
    match args_auto.to_client_target(&env).unwrap() {
        ClientTarget::Local { data_dir } => assert_eq!(data_dir, "/tmp/rsqlite-test-env"),
        _ => panic!("expected Local target"),
    }

    // Local mode with empty / whitespace data dir
    assert!(args.to_client_target(&env_dir("   ")).is_err());

    // Local mode with no env var
    assert!(args.to_client_target(&no_env()).is_err());
}

#[test]
fn environment_of_a_cluster_keeps_auto_mode_remote() {
    let args = default_test_args();
    let mut env = env_dir("/tmp/data");
    env.kube_lease = Some("lease".to_string());
    assert!(matches!(
        args.to_client_target(&env),
        Ok(ClientTarget::Remote { .. })
    ));
    env.kube_lease = Some("  ".to_string());
    assert!(args.to_client(&env).unwrap().is_local());
    assert!(args.to_client(&no_env()).unwrap().is_remote());
}

#[test]
fn local_mode_without_directory_says_what_is_missing() {
    let mut args = default_test_args();
    args.mode = CliRuntimeMode::Local;
    assert_eq!(
        args.to_client_target(&no_env()).unwrap_err().display(),
        "Protocol error: local mode requires a data directory via --data-dir (-D) or RSQLITE_DATA_DIR"
    );
}

#[test]
fn test_tx_mode_and_consistency_conversions() {
    assert_eq!(
        BatchTransactionMode::from(CliTxMode::Deferred),
        BatchTransactionMode::Deferred
    );
    assert_eq!(
        BatchTransactionMode::from(CliTxMode::Immediate),
        BatchTransactionMode::Immediate
    );
    assert_eq!(
        BatchTransactionMode::from(CliTxMode::Exclusive),
        BatchTransactionMode::Exclusive
    );
    assert_eq!(
        BatchTransactionMode::from(CliTxMode::NoTransaction),
        BatchTransactionMode::NoTransaction
    );

    assert_eq!(
        ConsistencyLevel::from(CliConsistency::Strong),
        ConsistencyLevel::Strong
    );
    assert_eq!(
        ConsistencyLevel::from(CliConsistency::Eventual),
        ConsistencyLevel::Eventual
    );
}

/// The text of a value, its floating-point number written as the program does it.
fn shown(value: &SqlValue) -> String {
    let float = match value {
        SqlValue::Float(bits) => f64::from_bits(*bits).to_string(),
        _ => String::new(),
    };
    format_sql_value(value, &float)
}

#[test]
fn test_formatting_helpers() {
    assert_eq!(shown(&SqlValue::Null), "NULL");
    assert_eq!(shown(&SqlValue::Integer(42)), "42");
    assert_eq!(shown(&SqlValue::Float(3.5f64.to_bits())), "3.5");
    assert_eq!(shown(&SqlValue::Text("hello".into())), "hello");
    assert_eq!(
        shown(&SqlValue::Blob(vec![0xde, 0xad, 0xbe, 0xef])),
        "x'deadbeef'"
    );

    assert_eq!(hex_encode(&[]), "");
    assert_eq!(hex_encode(&[0x0a, 0xff]), "0aff");
}

fn parsed(s: &str) -> Result<Value> {
    parse_string_to_value(s, s.parse::<f64>().ok().map(f64::to_bits))
}

#[test]
fn test_parse_string_to_value() {
    assert!(matches!(
        parsed("null").unwrap().value,
        Some(ValueKind::NullValue(true))
    ));
    assert!(matches!(
        parsed("NULL").unwrap().value,
        Some(ValueKind::NullValue(true))
    ));
    assert!(matches!(
        parsed("12345").unwrap().value,
        Some(ValueKind::IntValue(12345))
    ));
    assert!(matches!(
        parsed("12.34").unwrap().value,
        Some(ValueKind::FloatValue(f)) if (f64::from_bits(f) - 12.34).abs() < 1e-6
    ));
    assert!(matches!(
        parsed("x'cafebabe'").unwrap().value,
        Some(ValueKind::BlobValue(ref b)) if b == &[0xca, 0xfe, 0xba, 0xbe]
    ));
    assert!(matches!(
        parsed("x''").unwrap().value,
        Some(ValueKind::BlobValue(ref b)) if b.is_empty()
    ));
    assert!(matches!(
        parsed("plain string").unwrap().value,
        Some(ValueKind::TextValue(ref s)) if s == "plain string"
    ));
}

#[test]
fn numbers_beyond_64_bits_are_floating_point() {
    assert!(matches!(
        parsed("-9223372036854775808").unwrap().value,
        Some(ValueKind::IntValue(i64::MIN))
    ));
    assert!(matches!(
        parsed("9223372036854775808").unwrap().value,
        Some(ValueKind::FloatValue(f)) if f64::from_bits(f) == 9223372036854775808.0
    ));
}

#[test]
fn blob_literal_of_encoded_bytes_is_read_back() {
    let bytes: Vec<u8> = (0..=255).collect();
    let literal = format!("x'{}'", hex_encode(&bytes));
    assert_eq!(
        parsed(&literal).unwrap().value,
        Some(ValueKind::BlobValue(bytes))
    );
}

#[test]
fn test_parse_string_to_value_rejects_malformed_hex_blob() {
    let err = parsed("x'abc'").unwrap_err();
    assert!(err.display().contains("odd number of hex digits"));

    let err = parsed("x'zz'").unwrap_err();
    assert!(err.display().contains("non-hex characters"));

    let err = parsed("x'ca0g'").unwrap_err();
    assert!(err.display().contains("non-hex characters"));
}

fn parameters(raw: &[&str]) -> Result<Option<Parameters>> {
    let raw: Vec<String> = raw.iter().map(|s| s.to_string()).collect();
    let floats = raw
        .iter()
        .map(|p| parameter_value_text(p).parse::<f64>().ok().map(f64::to_bits))
        .collect();
    parse_cli_parameters(&raw, &floats)
}

#[test]
fn test_parse_cli_parameters() {
    assert!(parameters(&[]).unwrap().is_none());

    let parsed = parameters(&["123", "name=alice", "null"]).unwrap().unwrap();
    assert_eq!(parsed.positional.len(), 2);
    assert_eq!(parsed.named.len(), 1);
    assert_eq!(parsed.named[0].name, "name");
}

#[test]
fn parameters_are_trimmed_and_split_at_the_first_equals() {
    let parsed = parameters(&[" k = a=b ", " 7 "]).unwrap().unwrap();
    assert_eq!(parsed.named[0].name, "k");
    assert_eq!(
        parsed.named[0].value,
        Some(Value {
            value: Some(ValueKind::TextValue("a=b".into()))
        })
    );
    assert_eq!(
        parsed.positional[0],
        Value {
            value: Some(ValueKind::IntValue(7))
        }
    );
}

#[test]
fn test_parse_cli_parameters_propagates_malformed_hex_error() {
    let err = parameters(&["x'zz'"]).unwrap_err().display();
    assert!(err.contains("non-hex characters"));

    let err = parameters(&["k=x'abc'"]).unwrap_err().display();
    assert!(err.contains("odd number of hex digits"));
}

#[test]
fn test_split_sql_statements() {
    let sql = "CREATE TABLE t (id INT); INSERT INTO t VALUES ('semi;colon', \"quoted;col\"); ;";
    let stmts = split_sql_statements(sql);
    assert_eq!(stmts.len(), 2);
    assert_eq!(stmts[0].sql, "CREATE TABLE t (id INT)");
    assert_eq!(
        stmts[1].sql,
        "INSERT INTO t VALUES ('semi;colon', \"quoted;col\")"
    );

    // Trailing statement without semicolon
    let trailing_sql = "SELECT 1; SELECT 2";
    let trailing_stmts = split_sql_statements(trailing_sql);
    assert_eq!(trailing_stmts.len(), 2);
    assert_eq!(trailing_stmts[0].sql, "SELECT 1");
    assert_eq!(trailing_stmts[1].sql, "SELECT 2");
}

#[test]
fn quote_of_the_other_kind_does_not_end_quotes() {
    let stmts = split_sql_statements("SELECT \"it's;\"; SELECT '\";'");
    let texts: Vec<&str> = stmts.iter().map(|s| s.sql.as_str()).collect();
    assert_eq!(texts, vec!["SELECT \"it's;\"", "SELECT '\";'"]);
    assert!(stmts.iter().all(|s| s.parameters.is_none()));
}

#[test]
fn test_is_query_sql() {
    assert!(is_query_sql("SELECT 1;"));
    assert!(is_query_sql("  select * from t"));
    assert!(is_query_sql("PRAGMA table_info(t);"));
    assert!(is_query_sql("EXPLAIN SELECT 1;"));
    assert!(is_query_sql("WITH cte AS (SELECT 1) SELECT * FROM cte;"));
    assert!(!is_query_sql("INSERT INTO t VALUES (1);"));
    assert!(!is_query_sql("UPDATE t SET id = 2;"));
    assert!(!is_query_sql("DELETE FROM t;"));
    assert!(!is_query_sql("CREATE TABLE t (id INT);"));
}

#[test]
fn test_node_role_str() {
    assert_eq!(node_role_str(ReportedRole::Writer), "writer");
    assert_eq!(node_role_str(ReportedRole::Replica), "replica");
    assert_eq!(node_role_str(ReportedRole::Unspecified), "unspecified");
}

fn column(name: &str, declared_type: &str) -> ColumnHeader {
    ColumnHeader {
        name: name.to_string(),
        column_type: ColumnType::Unspecified,
        declared_type: declared_type.to_string(),
    }
}

fn value(kind: ValueKind) -> Value {
    Value { value: Some(kind) }
}

fn line(row: &Vec<Value>, delimiter: char) -> String {
    let floats = row
        .iter()
        .map(|v| match v.value {
            Some(ValueKind::FloatValue(bits)) => f64::from_bits(bits).to_string(),
            _ => String::new(),
        })
        .collect();
    delimited_line(row, &floats, delimiter)
}

#[test]
fn test_print_functions() {
    let exec_resp = ExecuteResponse {
        rows_affected: 1,
        last_insert_rowid: 42,
        execution_time_us: 1500,
        generation: 1,
    };
    assert_eq!(
        execute_summary(&exec_resp, "1.50"),
        "Query executed in 1.50 ms. Rows affected: 1, Last Insert RowID: 42 (Generation: 1)"
    );

    let batch_resp_ok = BatchResponse {
        committed: true,
        results: vec![StatementResult {
            result: Some(StatementOutcome::ExecuteResult(ExecuteResponse {
                rows_affected: 1,
                last_insert_rowid: 1,
                execution_time_us: 500,
                generation: 1,
            })),
            error: String::new(),
        }],
        total_execution_time_us: 1000,
        generation: 1,
    };
    assert_eq!(
        batch_summary(&batch_resp_ok, "1.00"),
        "Batch transaction COMMITTED in 1.00 ms. Statements executed: 1 (Generation: 1)"
    );
    assert!(batch_failures(&batch_resp_ok).is_empty());

    let batch_resp_err = BatchResponse {
        committed: false,
        results: vec![StatementResult {
            result: None,
            error: "syntax error".to_string(),
        }],
        total_execution_time_us: 500,
        generation: 1,
    };
    assert_eq!(
        batch_summary(&batch_resp_err, "0.50"),
        "Batch transaction FAILED in 0.50 ms. Statements executed: 1 (Generation: 1)"
    );
    assert_eq!(
        batch_failures(&batch_resp_err),
        vec!["Statement 1: syntax error".to_string()]
    );

    let columns = vec![column("id", "INTEGER"), column("notes", "")];
    assert_eq!(column_title(&columns[0]), "id\n(INTEGER)");
    assert_eq!(column_title(&columns[1]), "notes");
    let rows = vec![
        vec![
            value(ValueKind::IntValue(1)),
            value(ValueKind::TextValue(
                "val,with\"comma\nand newline".to_string(),
            )),
        ],
        vec![
            value(ValueKind::NullValue(true)),
            value(ValueKind::NullValue(true)),
        ],
    ];
    assert_eq!(delimited_header(&columns, ','), "id,notes");
    assert_eq!(
        line(&rows[0], ','),
        "1,\"val,with\"\"comma\nand newline\""
    );
    assert_eq!(line(&rows[1], ','), ",");
    assert_eq!(
        line(&rows[0], '\t'),
        "1\tval,with\"comma\nand newline"
    );
    assert_eq!(line(&rows[1], ' '), " ");
    assert_eq!(rows_summary(2, "2.00"), "(2 rows in 2.00 ms)");
    assert_eq!(rows_summary(1, "2.00"), "(1 row in 2.00 ms)");
}

#[test]
fn delimiters_of_the_formats() {
    assert_eq!(delimiter_of(OutputFormat::Csv), Some(','));
    assert_eq!(delimiter_of(OutputFormat::Tsv), Some('\t'));
    assert_eq!(delimiter_of(OutputFormat::Raw), Some(' '));
    assert_eq!(delimiter_of(OutputFormat::Table), None);
    assert_eq!(delimiter_of(OutputFormat::Json), None);
}

#[test]
fn plain_fields_have_no_quotes() {
    assert_eq!(delimited_field("plain", ','), "plain");
    assert_eq!(delimited_field("a,b", '\t'), "a,b");
    assert_eq!(delimited_field("say \"x\"", ','), "\"say \"\"x\"\"\"");
}

#[test]
fn test_print_json_with_missing_column_names() {
    let columns = vec![column("id", "")];
    assert_eq!(json_key(&columns, 0), "id");
    assert_eq!(json_key(&vec![], 0), "col_0");
    assert_eq!(json_key(&vec![], 1), "col_1");
}

fn lease(renewed_at_secs: u64, ttl_secs: u64, is_expired: bool) -> Option<LeaseStatus> {
    Some(LeaseStatus {
        is_held: !is_expired,
        holder_node_id: "node-1".into(),
        generation: 1,
        renewed_at_secs,
        ttl_secs,
        is_expired,
    })
}

#[test]
fn test_print_cluster_status_formats() {
    let db = DatabaseInfo {
        name: "app.db".into(),
        file_size_bytes: 4096,
        page_size: 4096,
        page_count: 1,
        journal_mode: "wal".into(),
    };
    assert_eq!(
        database_cells(&db, "4.0 KB"),
        vec!["app.db", "4.0 KB", "1", "4096 B", "wal"]
    );
    let status = ClusterStatusResponse {
        node_id: "node-1".into(),
        role: ReportedRole::Writer,
        current_leader_id: "node-1".into(),
        current_leader_endpoint: "http://127.0.0.1:50051".into(),
        local_generation: 1,
        lease: lease(100, 60, false),
        uptime_secs: 120,
        version: "0.1.0".into(),
        databases: vec![db],
    };
    assert_eq!(
        status_lines(&status, 110),
        vec![
            "Cluster Node: node-1",
            "Role:         writer",
            "Generation:   1",
            "Version:      0.1.0",
            "Uptime:       120s",
            "Active Leader:node-1",
            "Leader URL:   http://127.0.0.1:50051",
            "Lease Holder: node-1 (remaining: 50s)",
        ]
    );

    // No databases and no leader
    let empty_status = ClusterStatusResponse {
        node_id: "node-2".into(),
        role: ReportedRole::Replica,
        current_leader_id: String::new(),
        current_leader_endpoint: String::new(),
        local_generation: 1,
        lease: None,
        uptime_secs: 50,
        version: "0.1.0".into(),
        databases: vec![],
    };
    assert_eq!(
        status_lines(&empty_status, 110)[5..],
        ["Active Leader:none".to_string()]
    );

    // Expired lease
    let expired_status = ClusterStatusResponse {
        node_id: "node-3".into(),
        role: ReportedRole::Unspecified,
        current_leader_id: "node-1".into(),
        current_leader_endpoint: "http://127.0.0.1:50051".into(),
        local_generation: 1,
        lease: lease(0, 10, true),
        uptime_secs: 10,
        version: "0.1.0".into(),
        databases: vec![],
    };
    assert_eq!(
        status_lines(&expired_status, 110).last().unwrap(),
        "Lease Holder: node-1 (remaining: 0s, EXPIRED)"
    );
}

#[test]
fn lease_that_never_ends_does_not_overflow() {
    let summary = lease_summary(&lease(u64::MAX, 10, false), 5);
    assert_eq!(summary.remaining_secs, u64::MAX - 5);
    let none = lease_summary(&None, 5);
    assert_eq!((none.holder.as_str(), none.remaining_secs, none.expired), ("", 0, false));
}

#[test]
fn test_discovery_config_branches() {
    let mut args = default_test_args();
    args.endpoint = None;
    args.kube_lease = Some("sqlite-lease".to_string());
    args.kube_context = Some("ctx".to_string());
    args.kubeconfig = Some("/path/to/config".to_string());
    let cfg = args.to_client_config();
    assert!(matches!(cfg.discovery, DiscoveryMode::Custom));
    let resolver = args.to_kube_resolver().unwrap();
    assert_eq!(resolver.reader().lease_name(), "sqlite-lease");
    assert!(resolver
        .reader()
        .command_args()
        .join(" ")
        .contains("--context ctx --kubeconfig /path/to/config"));

    let mut args_candidates = default_test_args();
    args_candidates.endpoints = vec!["http://10.0.0.1:50051".to_string()];
    let cfg2 = args_candidates.to_client_config();
    assert!(matches!(cfg2.discovery, DiscoveryMode::Candidates(_)));
    assert!(args_candidates.to_kube_resolver().is_none());
}

#[test]
fn kubernetes_lease_names_the_endpoint() {
    let mut args = default_test_args();
    args.kube_lease = Some("lease".to_string());
    let held = Some(LeaseRecord {
        holder_node_id: "sqlite-ha-0".into(),
        generation: 1,
        renewed_at_secs: 0,
        ttl_secs: 10,
    });
    let resolver = args.to_kube_resolver().unwrap();
    assert_eq!(
        resolver.endpoint_of(&held),
        Ok("http://sqlite-ha-0.sqlite-ha:50051".to_string())
    );
    assert_eq!(
        resolver.endpoint_of(&None),
        Err("k8s lease has no active holder".to_string())
    );
    args.kube_service = String::new();
    assert_eq!(
        args.to_kube_resolver().unwrap().endpoint_of(&held),
        Ok("http://sqlite-ha-0:50051".to_string())
    );
}

#[test]
fn test_single_endpoint_discovery_config() {
    let mut args = default_test_args();
    args.mode = CliRuntimeMode::Cluster;
    args.endpoint = Some("http://sqlite-ha-writer:50051".into());
    args.kube_service = "".into();
    args.token = Some("secret-token".into());
    args.timeout = 10;
    args.max_retries = 3;

    let config = args.to_client_config();
    match config.discovery {
        DiscoveryMode::Direct(ep) => {
            assert_eq!(ep, "http://sqlite-ha-writer:50051");
        }
        _ => panic!("expected DiscoveryMode::Direct"),
    }
    assert_eq!(config.auth_token, Some("secret-token".into()));
    assert_eq!(config.timeout, Duration::from_secs(10));
    assert_eq!(config.max_retries, 3);
}

#[test]
fn test_empty_and_whitespace_args_fallback() {
    let mut args_empty_strings = default_test_args();
    args_empty_strings.endpoint = Some("   ".into());
    args_empty_strings.endpoints = vec!["".into(), "   ".into()];
    args_empty_strings.kube_lease = Some("".into());
    args_empty_strings.token = Some("   ".into());

    let config = args_empty_strings.to_client_config();
    match config.discovery {
        DiscoveryMode::Direct(ref ep) => {
            assert_eq!(ep, "http://127.0.0.1:50051");
        }
        _ => panic!("expected fallback to DiscoveryMode::Direct(http://127.0.0.1:50051)"),
    }
    assert_eq!(config.auth_token, None);

    // When endpoint is empty but valid endpoints exist, candidates discovery should be selected
    let mut args_candidates = default_test_args();
    args_candidates.endpoint = Some("".into());
    args_candidates.endpoints = vec!["http://node1:50051".into(), " http://node2:50051 ".into()];

    let config_candidates = args_candidates.to_client_config();
    match config_candidates.discovery {
        DiscoveryMode::Candidates(ref list) => {
            assert_eq!(list, &["http://node1:50051", "http://node2:50051"]);
        }
        _ => panic!("expected DiscoveryMode::Candidates"),
    }
}

#[test]
fn test_dirs_next_history_path() {
    assert_eq!(
        history_path(Some("/tmp/mockhome")),
        Some("/tmp/mockhome/.rsqlite_history".to_string())
    );
    assert_eq!(history_path(None), None);
}

#[test]
fn test_local_client_commands_and_metacommands() {
    let mut repl = Repl::new("app.db", OutputFormat::Table);
    for quit in [".quit", ".exit", ".q"] {
        assert_eq!(repl.handle_metacommand(quit).action, MetaAction::Quit);
    }
    assert_eq!(repl.handle_metacommand(".help").lines.len(), 9);
    assert_eq!(
        repl.handle_metacommand(".tables").action,
        MetaAction::ShowRows {
            sql: TABLES_SQL.to_string()
        }
    );
    assert_eq!(
        repl.handle_metacommand(".schema").action,
        MetaAction::ShowSchema {
            sql: SCHEMA_SQL.to_string(),
            parameters: None
        }
    );
    assert_eq!(
        repl.handle_metacommand(".schema users").action,
        MetaAction::ShowSchema {
            sql: TABLE_SCHEMA_SQL.to_string(),
            parameters: Some(Parameters {
                positional: vec![value(ValueKind::TextValue("users".into()))],
                named: vec![],
            }),
        }
    );
    assert_eq!(
        repl.handle_metacommand(".database").lines,
        vec!["Active database: 'app.db'"]
    );
    assert_eq!(
        repl.handle_metacommand(".database new.db").lines,
        vec!["Switched active database to 'new.db'"]
    );
    assert_eq!(repl.database(), "new.db");
    assert_eq!(repl.prompt(), "rsqlite [new.db]> ");

    assert_eq!(
        repl.handle_metacommand(".mode").lines,
        vec!["Current output mode: Table"]
    );
    for (word, format) in [
        ("json", OutputFormat::Json),
        ("csv", OutputFormat::Csv),
        ("tsv", OutputFormat::Tsv),
        ("raw", OutputFormat::Raw),
        ("table", OutputFormat::Table),
    ] {
        let outcome = repl.handle_metacommand(&format!(".mode {word}"));
        assert!(outcome.warning.is_none());
        assert_eq!(repl.format(), format);
    }
    let outcome = repl.handle_metacommand(".mode Invalid");
    assert_eq!(
        outcome.warning.as_deref(),
        Some("Unknown output format: 'invalid'. Available: table, json, csv, tsv, raw")
    );
    assert_eq!(outcome.lines, vec!["Output mode: Table"]);

    assert_eq!(
        repl.handle_metacommand(".status").action,
        MetaAction::ShowStatus
    );
    assert_eq!(
        repl.handle_metacommand(".read batch.sql").action,
        MetaAction::RunFile("batch.sql".into())
    );
    assert_eq!(
        repl.handle_metacommand(".read").warning.as_deref(),
        Some("Usage: .read <PATH_TO_SQL_FILE>")
    );
    assert_eq!(
        repl.handle_metacommand(".unknown").warning.as_deref(),
        Some("Unknown metacommand: '.unknown'. Type .help for available commands.")
    );
}

#[test]
fn mode_is_chosen_without_regard_to_case() {
    let mut repl = Repl::new("app.db", OutputFormat::Table);
    let outcome = repl.handle_metacommand("  .mode   JSON  ");
    assert_eq!(outcome.lines, vec!["Output mode: Json"]);
    assert_eq!(repl.format(), OutputFormat::Json);
}

#[test]
fn lines_are_told_apart() {
    assert_eq!(read_line("   "), LineKind::Blank);
    assert_eq!(read_line(" .help "), LineKind::Meta(".help".into()));
    assert_eq!(read_line("select 1 "), LineKind::Query("select 1".into()));
    assert_eq!(
        read_line("INSERT INTO t VALUES (1)"),
        LineKind::Write("INSERT INTO t VALUES (1)".into())
    );
}

#[test]
fn schemas_are_shown_with_a_semicolon() {
    let rows = vec![
        Row {
            values: vec![value(ValueKind::TextValue("CREATE TABLE t (id)".into()))],
        },
        Row { values: vec![] },
        Row {
            values: vec![value(ValueKind::IntValue(1))],
        },
    ];
    assert_eq!(schema_lines(&rows), vec!["CREATE TABLE t (id);\n"]);
    assert_eq!(
        script_announcement(2, "a.sql"),
        "Executing 2 statements from a.sql..."
    );
}

#[test]
fn script_of_a_batch_comes_from_file_or_text() {
    let file = Some("a.sql".to_string());
    let text = Some("SELECT 1".to_string());
    assert!(matches!(script_source(&file, &text), Ok(ScriptSource::File(p)) if p == "a.sql"));
    assert!(matches!(script_source(&None, &text), Ok(ScriptSource::Text(t)) if t == "SELECT 1"));
    assert_eq!(
        script_source(&None, &None).unwrap_err(),
        SyncError::Protocol(
            "either --file or --sql must be provided for batch execution".to_string()
        )
    );
    assert_eq!(
        script_read_error("a.sql", "gone").display(),
        "Protocol error: failed to read SQL file a.sql: gone"
    );
}

#[test]
fn only_a_yes_confirms() {
    for yes in ["y\n", " YES \n", "Yes"] {
        assert!(confirms(yes));
    }
    for no in ["", "n", "yep", "y e s"] {
        assert!(!confirms(no));
    }
    assert_eq!(
        drop_question("app.db"),
        "This will permanently delete database 'app.db'. Continue? [y/N] "
    );
    assert_eq!(
        drop_report("app.db", true, 3),
        "Dropped database 'app.db' (generation 3)."
    );
    assert_eq!(
        drop_report("app.db", false, 3),
        "Database 'app.db' did not exist."
    );
}
