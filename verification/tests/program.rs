use rsqlite_rsync::batch::{BatchItemResult, BatchRunReport};
use rsqlite_rsync::endpoint::SyncRoute;
use rsqlite_rsync::error::SyncError;
use rsqlite_rsync::ha::freshness::{
    freshness_read_error, parse_freshness_ledger, read_freshness_ledger,
};
use rsqlite_rsync::ha::node::{
    check_startup_fence, current_lease, readiness_response, readiness_text, ready_after,
    start_node, AnyLeaseReader, HaArgs, HaLeaseSource,
};
use rsqlite_rsync::ha::{
    ControllerTickOutcome, DemotionReason, FreshnessLedger, HaAction, HaActionExecutor,
    HaController, HaSharedState, LeaseReader, LeaseRecord, NodeRole,
    PromotionViolation,
};
use rsqlite_rsync::run::{
    batch_summary, choose_mode, dry_run_report, item_failure, plan_batch, BatchArgs, Mode,
    ModeArgs,
};
use rsqlite_rsync::ssh::SshAuthMode;
use rsqlite_rsync::time::Duration;
use rsqlite_rsync::SyncTuning;

fn no_args() -> ModeArgs {
    ModeArgs {
        origin: None,
        replica: None,
        batch_manifest: None,
        ha: false,
        server: false,
        server_origin: false,
        server_replica: false,
    }
}

#[test]
fn no_mode_and_no_origin_is_rejected() {
    let err = choose_mode(&no_args());
    assert!(matches!(
        err,
        Err(SyncError::Protocol(message))
            if message.contains("ORIGIN is required")
    ));
}

#[test]
fn normal_mode_requires_replica() {
    let mut args = no_args();
    args.origin = Some("/tmp/origin.db".to_string());
    let err = choose_mode(&args);
    assert!(matches!(
        err,
        Err(SyncError::Protocol(message))
            if message.contains("REPLICA is required")
    ));
}

#[test]
fn modes_follow_the_flags() {
    let mut args = no_args();
    args.origin = Some("/tmp/origin.db".to_string());
    args.server = true;
    assert!(matches!(choose_mode(&args), Ok(Mode::ServeOrigin(p)) if p == "/tmp/origin.db"));
    args.server_replica = true;
    assert!(matches!(choose_mode(&args), Ok(Mode::ServeReplica(p)) if p == "/tmp/origin.db"));
    args.ha = true;
    assert!(matches!(choose_mode(&args), Ok(Mode::Ha)));
    args.batch_manifest = Some("batch.yaml".to_string());
    assert!(matches!(choose_mode(&args), Ok(Mode::Batch)));

    let mut args = no_args();
    args.origin = Some("/tmp/origin.db".to_string());
    args.replica = Some("host.example:/tmp/replica.db".to_string());
    assert!(matches!(
        choose_mode(&args),
        Ok(Mode::Sync(SyncRoute::Push { .. }))
    ));
    args.origin = Some("user@other:/tmp/origin.db".to_string());
    assert!(matches!(
        choose_mode(&args),
        Err(SyncError::Protocol(m)) if m == "at least one of ORIGIN or REPLICA must be local"
    ));
}

#[test]
fn main_parse_freshness_ledger_accepts_valid_input() {
    let parsed = parse_freshness_ledger(
        "source_node_id=node-a\nsource_generation=9\nsynced_at_secs=123\n",
    )
    .expect("freshness should parse");

    assert_eq!(parsed.source_node_id, "node-a");
    assert_eq!(parsed.source_generation, 9);
    assert_eq!(parsed.synced_at_secs, 123);
}

#[test]
fn main_parse_freshness_ledger_rejects_missing_fields() {
    let err = parse_freshness_ledger("source_node_id=node-a\nsynced_at_secs=123\n")
        .expect_err("freshness should fail");
    assert!(err.contains("missing source_generation"));
}

#[test]
fn read_freshness_ledger_returns_none_for_missing_empty_and_none() {
    let path = "/var/lib/freshness.txt";
    assert_eq!(read_freshness_ledger(path, None).unwrap(), None);
    assert_eq!(read_freshness_ledger(path, Some("\n")).unwrap(), None);
    assert_eq!(read_freshness_ledger(path, Some("none\n")).unwrap(), None);
}

#[test]
fn read_freshness_ledger_rejects_invalid_content() {
    let err = read_freshness_ledger(
        "/var/lib/freshness.txt",
        Some("source_node_id=node-a\nsource_generation=abc\n"),
    )
    .expect_err("invalid freshness should fail");
    assert!(
        matches!(err, SyncError::Protocol(message) if message.contains("invalid freshness file"))
    );
    assert_eq!(
        freshness_read_error("f", "denied").display(),
        "Protocol error: failed reading freshness file f: denied"
    );
}

fn ha_args() -> HaArgs {
    HaArgs {
        node_id: Some("node-a".to_string()),
        role_state_file: Some("/tmp/role.txt".to_string()),
        audit_log_file: Some("/tmp/audit.log".to_string()),
        lease_source: HaLeaseSource::File,
        lease_file: Some("/tmp/lease.txt".to_string()),
        kube_lease_name: None,
        kube_namespace: "default".to_string(),
        kube_context: None,
        kubeconfig: None,
        kubectl_path: "kubectl".to_string(),
        allow_replica_reads: false,
        tick_interval_ms: 1,
        min_source_generation: 0,
        max_freshness_age_secs: 30,
        max_future_skew_secs: 5,
        continue_on_error: false,
    }
}

#[test]
fn ha_mode_requires_node_id() {
    let mut args = ha_args();
    args.node_id = None;
    assert!(matches!(
        start_node(&args),
        Err(SyncError::Protocol(message)) if message.contains("--ha-node-id is required")
    ));
}

#[test]
fn ha_mode_file_source_requires_lease_file() {
    let mut args = ha_args();
    args.lease_file = None;
    assert!(matches!(
        start_node(&args),
        Err(SyncError::Protocol(message)) if message.contains("--ha-lease-file is required")
    ));
}

#[test]
fn ha_mode_kubernetes_source_requires_lease_name() {
    let mut args = ha_args();
    args.lease_source = HaLeaseSource::Kubernetes;
    args.lease_file = None;
    assert!(matches!(
        start_node(&args),
        Err(SyncError::Protocol(message)) if message.contains("--ha-kube-lease-name is required")
    ));
}

#[test]
fn ha_mode_requires_its_files() {
    let mut args = ha_args();
    args.audit_log_file = None;
    assert!(matches!(
        start_node(&args),
        Err(SyncError::Protocol(m)) if m == "--ha-audit-log-file is required with --ha"
    ));
    args.role_state_file = None;
    assert!(matches!(
        start_node(&args),
        Err(SyncError::Protocol(m)) if m == "--ha-role-state-file is required with --ha"
    ));
}

#[test]
fn node_starts_as_replica_and_ticks_no_faster_than_allowed() {
    let node = start_node(&ha_args()).unwrap();
    assert_eq!(node.tick_interval_ms, 50);
    assert_eq!(node.state.role, NodeRole::Replica);
    assert!(matches!(node.reader, AnyLeaseReader::File(f) if f.lease_path() == "/tmp/lease.txt"));
    let mut args = ha_args();
    args.lease_source = HaLeaseSource::Kubernetes;
    args.kube_lease_name = Some("lease".to_string());
    args.tick_interval_ms = 1000;
    let node = start_node(&args).unwrap();
    assert_eq!(node.tick_interval_ms, 1000);
    assert!(
        matches!(node.reader, AnyLeaseReader::Kubernetes(k) if k.lease_name() == "lease")
    );
}

/// An executor whose writer actions may fail.
struct Quiet {
    fails: bool,
}

impl HaActionExecutor for Quiet {
    type Error = String;

    fn ensure_replica(&mut self) -> Result<(), String> {
        Ok(())
    }

    fn enable_writer(&mut self, _generation: u64) -> Result<(), String> {
        if self.fails {
            Err("no".to_string())
        } else {
            Ok(())
        }
    }

    fn disable_writer(&mut self, _reason: &DemotionReason) -> Result<(), String> {
        Ok(())
    }

    fn keep_writer(&mut self) -> Result<(), String> {
        Ok(())
    }

    fn record_promotion_denied(&mut self, _violation: &PromotionViolation) -> Result<(), String> {
        Ok(())
    }
}

struct Fixed(Result<Option<LeaseRecord>, String>);

impl LeaseReader for Fixed {
    type Error = String;

    fn read_lease(&mut self) -> Result<Option<LeaseRecord>, String> {
        self.0.clone()
    }
}

fn held_lease() -> LeaseRecord {
    LeaseRecord {
        holder_node_id: "node-a".to_string(),
        generation: 4,
        renewed_at_secs: 100,
        ttl_secs: 10,
    }
}

fn first_tick(
    lease: Result<Option<LeaseRecord>, String>,
    fails: bool,
) -> ControllerTickOutcome<String, String> {
    let mut controller = HaController::new("node-a");
    let freshness = FreshnessLedger {
        source_node_id: "node-b".to_string(),
        source_generation: 3,
        synced_at_secs: 99,
    };
    controller.update_freshness(freshness);
    controller.tick_with_reader(101, &mut Fixed(lease), &mut Quiet { fails })
}

#[test]
fn fenced_start_needs_the_lease() {
    assert!(check_startup_fence(&first_tick(Ok(Some(held_lease())), false)).is_ok());
    let refusal = |outcome| match check_startup_fence(&outcome) {
        Err(SyncError::Protocol(m)) => m,
        other => panic!("expected a refusal, got {other:?}"),
    };
    assert_eq!(
        refusal(first_tick(Ok(None), false)),
        "startup fence blocked writer startup: decision=KeepReplica"
    );
    assert_eq!(
        refusal(first_tick(Err("gone".to_string()), false)),
        "startup fence lease read failed: gone"
    );
    assert_eq!(
        refusal(first_tick(Ok(Some(held_lease())), true)),
        "startup fence writer actions failed: 1 failures"
    );
}

#[test]
fn lease_after_a_tick_names_the_leader() {
    let mut state = HaSharedState::new("node-b", false);
    let lease = current_lease(&first_tick(Ok(Some(held_lease())), false));
    assert_eq!(lease, Some(held_lease()));
    state.observe_lease(lease, "sqlite-ha", 50051);
    assert_eq!(state.active_leader_id.as_deref(), Some("node-a"));
    assert_eq!(
        state.active_leader_endpoint.as_deref(),
        Some("http://node-a.sqlite-ha:50051")
    );
    let lease = current_lease(&first_tick(Err("gone".to_string()), false));
    state.observe_lease(lease, "sqlite-ha", 50051);
    assert_eq!(state.active_leader_id, None);
    assert_eq!(state.active_leader_endpoint, None);
}

#[test]
fn actions_make_the_node_ready_or_not() {
    let mut state = HaSharedState::new("node-a", false);
    let enable = HaAction::EnableWriter { generation: 4 };
    state.record_action(&enable);
    assert_eq!((state.role, state.generation), (NodeRole::Writer, 4));
    assert!(ready_after(&enable));
    assert!(ready_after(&HaAction::KeepWriter));
    assert!(!ready_after(&HaAction::EnsureReplica));
    state.record_action(&HaAction::EnsureReplica);
    assert_eq!((state.role, state.generation), (NodeRole::Replica, 4));
    assert_eq!(readiness_text(true), "ready\n");
    assert_eq!(readiness_text(false), "not-ready\n");
}

#[test]
fn gateway_follows_controller() {
    let mut controller = HaController::new("node-a");
    let mut state = HaSharedState::new("node-a", false);
    controller.update_freshness(FreshnessLedger {
        source_node_id: "node-b".to_string(),
        source_generation: 3,
        synced_at_secs: 99,
    });
    let mine = LeaseRecord {
        holder_node_id: "node-a".to_string(),
        generation: 4,
        renewed_at_secs: 99,
        ttl_secs: 10,
    };
    let theirs = LeaseRecord {
        holder_node_id: "node-b".to_string(),
        generation: 5,
        renewed_at_secs: 101,
        ttl_secs: 10,
    };
    let ticks = [
        (98, None, false),
        (100, Some(mine.clone()), true),
        (101, Some(mine), true),
        (102, Some(theirs), false),
    ];
    for (now, lease, writes) in ticks {
        let plan = controller.plan_tick(now, lease.clone());
        for action in &plan.actions {
            state.record_action(action);
        }
        state.observe_lease(lease, "", 50051);
        assert_eq!(state.role, controller.runtime().role());
        assert_eq!(state.generation, controller.runtime().local_generation());
        assert_eq!(state.is_writer(now), writes);
    }
}

#[test]
fn probes_are_answered() {
    assert_eq!(
        readiness_response("GET /ready HTTP/1.1\r\nhost: x\r\n\r\n", true),
        "HTTP/1.1 200 OK\r\ncontent-type: text/plain; charset=utf-8\r\ncontent-length: 6\r\nconnection: close\r\n\r\nready\n"
    );
    assert!(readiness_response("GET /ready HTTP/1.1\r\n", false)
        .starts_with("HTTP/1.1 503 Service Unavailable\r\n"));
    assert!(readiness_response("GET /live HTTP/1.1\r\n", false).ends_with("\r\n\r\nlive\n"));
    assert!(readiness_response("", true).starts_with("HTTP/1.1 404 Not Found\r\n"));
}

fn batch_args() -> BatchArgs {
    BatchArgs {
        jobs: 2,
        dry_run: false,
        retries: 1,
        timeout_secs: 30,
        retry_backoff_ms: 100,
        retry_backoff_max_ms: 0,
        retry_jitter_pct: 10,
        exe: "rsqlite-rsync".to_string(),
        ssh_opts: vec![],
        ssh_auth: SshAuthMode::NonInteractive,
        ssh_connect_timeout: 0,
    }
}

fn batch_mode() -> ModeArgs {
    ModeArgs {
        batch_manifest: Some("batch.yaml".to_string()),
        ..no_args()
    }
}

fn tuning() -> SyncTuning {
    SyncTuning::from_env(None, None, None)
}

#[test]
fn batch_runs_are_planned() {
    let (path, options) = plan_batch(&batch_mode(), batch_args(), tuning()).unwrap();
    assert_eq!(path, "batch.yaml");
    assert_eq!(options.default_timeout, Some(Duration::from_secs(30)));
    assert_eq!(options.retry_backoff_base, Some(Duration::from_millis(100)));
    assert_eq!(options.retry_backoff_max, None);
    assert_eq!(options.ssh_options.connect_timeout_secs, 1);
}

#[test]
fn batch_runs_are_refused_with_the_reason() {
    let refusal = |mode: ModeArgs, args: BatchArgs| match plan_batch(&mode, args, tuning()) {
        Err(SyncError::Protocol(m)) => m,
        _ => panic!("expected a refusal"),
    };
    assert_eq!(
        refusal(ModeArgs { ha: true, ..batch_mode() }, batch_args()),
        "--batch-manifest cannot be used with --ha"
    );
    assert_eq!(
        refusal(ModeArgs { server: true, ..batch_mode() }, batch_args()),
        "--batch-manifest cannot be used with --server flags"
    );
    assert_eq!(
        refusal(
            ModeArgs { origin: Some("a".to_string()), ..batch_mode() },
            batch_args()
        ),
        "batch mode does not accept ORIGIN/REPLICA positional arguments"
    );
    assert_eq!(
        refusal(batch_mode(), BatchArgs { jobs: 0, ..batch_args() }),
        "--batch-jobs must be greater than 0"
    );
    assert_eq!(
        refusal(batch_mode(), BatchArgs { retry_jitter_pct: 101, ..batch_args() }),
        "--batch-retry-jitter-pct must be between 0 and 100"
    );
    assert_eq!(
        refusal(batch_mode(), BatchArgs { retry_backoff_max_ms: 99, ..batch_args() }),
        "--batch-retry-backoff-max-ms must be >= --batch-retry-backoff-ms"
    );
}

#[test]
fn batch_runs_are_reported() {
    let failed = BatchItemResult {
        index: 1,
        id: "b".to_string(),
        error: Some("broken".to_string()),
    };
    assert_eq!(
        item_failure(&failed),
        Some("batch failed [b]: broken".to_string())
    );
    let report = BatchRunReport {
        total: 2,
        succeeded: 1,
        failed: 1,
        results: vec![failed],
    };
    assert_eq!(
        batch_summary(&report),
        "batch summary: total=2, succeeded=1, failed=1"
    );
    assert_eq!(
        dry_run_report(u32::MAX, 65536),
        "dry-run: origin has 4294967295 pages (281474976645120 bytes)"
    );
}
