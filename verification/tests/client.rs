use rsqlite_rsync::client::discovery::{discover_leader, normalize_endpoint, on_resolved, SearchStep};
use rsqlite_rsync::client::session::{
    authorization_value, next_backoff, CallKind, CallStep, NextConnection,
};
use rsqlite_rsync::client::{
    ClientConfig, ClientError, DiscoveryMode, SqlGatewayClient, SqlGatewayManager,
};
use rsqlite_rsync::error::SyncError;
use rsqlite_rsync::gateway::AuthConfig;
use rsqlite_rsync::proto::{ReportedRole, CODE_NOT_LEADER, HEADER_RSQLITE_CODE, HEADER_RSQLITE_LEADER_ENDPOINT};
use rsqlite_rsync::rpc::{Code, Header, Status};
use rsqlite_rsync::time::Duration;
use std::collections::HashMap;

const A: &str = "http://127.0.0.1:1001";
const B: &str = "http://127.0.0.1:1002";

fn direct(endpoint: &str) -> DiscoveryMode {
    DiscoveryMode::Direct(endpoint.to_string())
}

fn header(name: &str, value: &str) -> Header {
    Header {
        name: name.to_string(),
        value: value.as_bytes().to_vec(),
    }
}

fn with_metadata(code: Code, message: &str, metadata: Vec<Header>) -> Status {
    let mut status = Status::new(code, message);
    status.metadata = metadata;
    status
}

fn not_leader(leader_endpoint: Option<&str>) -> Status {
    let mut metadata = vec![header(HEADER_RSQLITE_CODE, CODE_NOT_LEADER)];
    if let Some(endpoint) = leader_endpoint {
        metadata.push(header(HEADER_RSQLITE_LEADER_ENDPOINT, endpoint));
    }
    with_metadata(
        Code::FailedPrecondition,
        "node is not the active writer",
        metadata,
    )
}

/// How a node answers a call.
enum Answer {
    Done,
    NotLeader(Option<&'static str>),
    Fail(Code, &'static str),
}

impl Answer {
    fn status(&self) -> Option<Status> {
        match self {
            Answer::Done => None,
            Answer::NotLeader(endpoint) => Some(not_leader(*endpoint)),
            Answer::Fail(code, message) => Some(Status::new(*code, message)),
        }
    }
}

/// A node that can be reached.
struct Node {
    role: ReportedRole,
    script: Vec<Answer>,
    otherwise: Answer,
    calls: usize,
}

fn node(role: ReportedRole) -> Node {
    Node {
        role,
        script: vec![],
        otherwise: Answer::Done,
        calls: 0,
    }
}

impl Node {
    fn script(mut self, answers: Vec<Answer>) -> Node {
        self.script = answers;
        self
    }

    fn otherwise(mut self, answer: Answer) -> Node {
        self.otherwise = answer;
        self
    }

    fn answer(&mut self) -> Option<Status> {
        let nth = self.calls;
        self.calls += 1;
        self.script.get(nth).unwrap_or(&self.otherwise).status()
    }
}

/// The nodes by endpoint, and what the caller's own resolver answers.
struct Net {
    nodes: HashMap<&'static str, Node>,
    resolutions: Vec<&'static str>,
    resolved: usize,
    waits: Vec<u64>,
}

fn net(nodes: Vec<(&'static str, Node)>) -> Net {
    Net {
        nodes: nodes.into_iter().collect(),
        resolutions: vec![],
        resolved: 0,
        waits: vec![],
    }
}

impl Net {
    fn resolving(mut self, resolutions: Vec<&'static str>) -> Net {
        self.resolutions = resolutions;
        self
    }

    fn calls(&self, endpoint: &str) -> usize {
        self.nodes[endpoint].calls
    }

    fn role(&self, endpoint: &str) -> Option<ReportedRole> {
        self.nodes.get(endpoint).map(|n| n.role)
    }

    fn discover(&mut self, mode: &DiscoveryMode) -> Result<String, ClientError> {
        let (mut search, mut step) = discover_leader(mode);
        loop {
            step = match step {
                SearchStep::Probe(endpoint) => search.on_probe(self.role(&endpoint)),
                SearchStep::Resolve => {
                    let last = self.resolutions.len() - 1;
                    let endpoint = self.resolutions[self.resolved.min(last)];
                    self.resolved += 1;
                    on_resolved(Ok(endpoint.to_string()))
                }
                SearchStep::Leader(endpoint) => return Ok(endpoint),
                SearchStep::Failed(e) => return Err(e),
            };
        }
    }

    fn call(&mut self, client: &mut SqlGatewayClient, kind: CallKind) -> Result<(), ClientError> {
        let mut call = client.begin(kind);
        loop {
            let mut step = match client.next_attempt(&mut call) {
                NextConnection::Ready => CallStep::Send,
                NextConnection::Known(endpoint) => client.connect_to(&mut call, endpoint),
                NextConnection::Unknown => {
                    let mode = client.config().discovery.clone();
                    match self.discover(&mode) {
                        Ok(endpoint) => client.connect_to(&mut call, endpoint),
                        Err(e) => client.on_connect_error(&mut call, e),
                    }
                }
            };
            loop {
                step = match step {
                    CallStep::Connect(endpoint) => {
                        let outcome = match self.role(&endpoint) {
                            Some(_) => Ok(()),
                            None => Err("connection refused".to_string()),
                        };
                        client.on_connected(&mut call, endpoint, outcome)
                    }
                    CallStep::Send => {
                        let endpoint = client.current_endpoint().clone().unwrap();
                        match self.nodes.get_mut(endpoint.as_str()).unwrap().answer() {
                            None => return Ok(()),
                            Some(status) => client.on_error_reply(&mut call, status),
                        }
                    }
                    CallStep::Wait(ms) => {
                        self.waits.push(ms);
                        break;
                    }
                    CallStep::Fail(e) => return Err(e),
                };
            }
        }
    }
}

fn fast_client(discovery: DiscoveryMode, max_retries: usize) -> SqlGatewayClient {
    let mut config = ClientConfig::new(discovery).with_max_retries(max_retries);
    config.initial_backoff_ms = 10;
    config.max_backoff_ms = 40;
    SqlGatewayClient::new(config)
}

#[test]
fn next_backoff_doubles_until_clamped_at_max() {
    assert_eq!(next_backoff(100, 2000), 200);
    assert_eq!(next_backoff(200, 2000), 400);
    assert_eq!(next_backoff(400, 2000), 800);
    assert_eq!(next_backoff(800, 2000), 1600);
    assert_eq!(next_backoff(1600, 2000), 2000);
    assert_eq!(next_backoff(2000, 2000), 2000);
}

#[test]
fn next_backoff_saturates_instead_of_overflowing() {
    assert_eq!(next_backoff(u64::MAX, 2000), 2000);
    assert_eq!(next_backoff(u64::MAX / 2 + 1, 2000), 2000);
}

#[test]
fn test_sql_gateway_client_clone() {
    let client = SqlGatewayClient::new(ClientConfig::new(direct("http://127.0.0.1:50051")));
    let cloned = client.clone();
    assert_eq!(*cloned.current_endpoint(), None);
}

#[test]
fn test_client_discover_leader_direct() {
    let ep = net(vec![]).discover(&direct("127.0.0.1:50051")).unwrap();
    assert_eq!(ep, "http://127.0.0.1:50051");
}

#[test]
fn test_authorized_request() {
    assert!(authorization_value(&None).is_none());

    assert_eq!(
        authorization_value(&Some("token123".to_string())).unwrap(),
        b"Bearer token123"
    );

    assert!(authorization_value(&Some("token\nwith\ninvalid\x00chars".to_string())).is_none());
}

#[test]
fn request_of_a_client_with_the_token_is_admitted() {
    let auth = AuthConfig::required("s3cret token".to_string());
    let value = authorization_value(&Some("s3cret token".to_string())).unwrap();
    assert!(auth.check(Some(value.as_slice())).is_ok());
    let value = authorization_value(&Some("s3cret tokem".to_string())).unwrap();
    assert_eq!(
        auth.check(Some(value.as_slice())).unwrap_err().code,
        Code::Unauthenticated
    );
}

/// A client that is connected to `http://old.endpoint`.
fn connected_client() -> SqlGatewayClient {
    let mut client = SqlGatewayClient::new(ClientConfig::new(direct("http://127.0.0.1:50051")));
    let mut call = client.begin(CallKind::Execute);
    client.next_attempt(&mut call);
    client.on_connected(&mut call, "http://old.endpoint".to_string(), Ok(()));
    assert!(client.is_connected());
    client
}

#[test]
fn test_process_leader_header_present_and_non_empty() {
    let mut client = connected_client();
    let status = with_metadata(
        Code::Unknown,
        "test",
        vec![header(HEADER_RSQLITE_LEADER_ENDPOINT, "http://new.endpoint")],
    );
    client.process_leader_header(&status);
    assert_eq!(
        *client.current_endpoint(),
        Some("http://new.endpoint".to_string())
    );
    assert!(!client.is_connected());
}

#[test]
fn test_process_leader_header_present_but_empty() {
    let mut client = connected_client();
    let status = with_metadata(
        Code::Unknown,
        "test",
        vec![header(HEADER_RSQLITE_LEADER_ENDPOINT, "")],
    );
    client.process_leader_header(&status);
    assert!(client.current_endpoint().is_none());
    assert!(!client.is_connected());
}

#[test]
fn test_process_leader_header_absent() {
    let mut client = connected_client();
    let status = Status::new(Code::Unknown, "test");
    client.process_leader_header(&status);
    assert!(client.current_endpoint().is_none());
    assert!(!client.is_connected());
}

#[test]
fn leader_header_that_is_no_text_is_passed_over() {
    let mut client = connected_client();
    let mut leader = header(HEADER_RSQLITE_LEADER_ENDPOINT, "");
    leader.value = vec![b'h', 0xff];
    client.process_leader_header(&with_metadata(Code::Unknown, "test", vec![leader]));
    assert!(client.current_endpoint().is_none());
}

#[test]
fn client_config_default_matches_documented_values() {
    let config = ClientConfig::default();
    assert!(
        matches!(config.discovery, DiscoveryMode::Direct(ref ep) if ep == "http://127.0.0.1:50051")
    );
    assert_eq!(config.max_retries, 5);
    assert_eq!(config.initial_backoff_ms, 100);
    assert_eq!(config.max_backoff_ms, 2000);
    assert_eq!(config.timeout, Duration::from_secs(15));
}

#[test]
fn new_and_builder_setters_override_only_requested_fields() {
    let config = ClientConfig::new(direct("http://x:1"))
        .with_max_retries(9)
        .with_timeout(Duration::from_secs(3));
    assert_eq!(config.max_retries, 9);
    assert_eq!(config.timeout, Duration::from_secs(3));
    assert_eq!(
        config.initial_backoff_ms, 100,
        "unset fields keep Default's values"
    );
}

#[test]
fn backoff_setters_take_whole_milliseconds() {
    let config = ClientConfig::new(direct("http://x:1"))
        .with_initial_backoff(Duration::from_millis(1500))
        .with_max_backoff(Duration::from_secs(9));
    assert_eq!(config.initial_backoff_ms, 1500);
    assert_eq!(config.max_backoff_ms, 9000);
}

#[test]
fn normalize_endpoint_adds_http_scheme_when_missing() {
    assert_eq!(
        normalize_endpoint("127.0.0.1:50051"),
        "http://127.0.0.1:50051"
    );
}

#[test]
fn normalize_endpoint_preserves_http_and_https_schemes() {
    assert_eq!(normalize_endpoint("http://host:1"), "http://host:1");
    assert_eq!(normalize_endpoint("https://host:1"), "https://host:1");
}

#[test]
fn normalize_endpoint_trims_whitespace() {
    assert_eq!(normalize_endpoint("  127.0.0.1:1  "), "http://127.0.0.1:1");
}

#[test]
fn normalize_endpoint_prefixes_non_http_schemes() {
    // Any string without an http(s) prefix is treated as schemeless and gets
    // `http://` prepended verbatim.
    assert_eq!(normalize_endpoint("unix:/run/x"), "http://unix:/run/x");
}

#[test]
fn normalizing_an_endpoint_twice_changes_nothing() {
    for ep in ["127.0.0.1:1", " https://h ", "", "  "] {
        let once = normalize_endpoint(ep);
        assert_eq!(normalize_endpoint(&once), once);
    }
}

#[test]
fn discovery_mode_debug_is_stable_for_custom_resolver() {
    assert_eq!(DiscoveryMode::Custom.debug_text(), "Custom(<resolver>)");
    assert_eq!(direct("x").debug_text(), "Direct(\"x\")");
    assert_eq!(
        DiscoveryMode::Candidates(vec!["http://a".to_string()]).debug_text(),
        "Candidates([\"http://a\"])"
    );
    assert_eq!(
        DiscoveryMode::Candidates(vec!["a\"\n".to_string(), "b".to_string()]).debug_text(),
        "Candidates([\"a\\\"\\n\", \"b\"])"
    );
}

fn candidates(endpoints: &[&str]) -> DiscoveryMode {
    DiscoveryMode::Candidates(endpoints.iter().map(|e| e.to_string()).collect())
}

#[test]
fn test_discover_leader_invalid_candidate_url_skips_and_falls_back_to_valid() {
    // A candidate with invalid endpoint syntax is skipped; the first
    // syntactically valid candidate is used as the fallback instead.
    let mode = candidates(&["://invalid url without scheme/host", "127.0.0.1:50051"]);
    let res = net(vec![]).discover(&mode);
    assert_eq!(res.unwrap(), "http://127.0.0.1:50051");
}

#[test]
fn test_discover_leader_all_invalid_candidates_returns_error() {
    let mode = candidates(&["://invalid url 1", "://invalid url 2"]);
    let err_msg = net(vec![]).discover(&mode).unwrap_err().display();
    assert!(err_msg.contains("no syntactically valid candidates"));
}

#[test]
fn test_discover_leader_custom_resolver() {
    let res = net(vec![])
        .resolving(vec!["127.0.0.1:60000"])
        .discover(&DiscoveryMode::Custom)
        .unwrap();
    assert_eq!(res, "http://127.0.0.1:60000");
}

#[test]
fn direct_mode_returns_normalized_endpoint_without_network() {
    let endpoint = net(vec![]).discover(&direct("127.0.0.1:9999")).unwrap();
    assert_eq!(endpoint, "http://127.0.0.1:9999");
}

#[test]
fn candidates_empty_returns_discovery_error() {
    let err = net(vec![]).discover(&candidates(&[])).unwrap_err();
    assert!(matches!(err, ClientError::Discovery { .. }));
}

#[test]
fn candidates_picks_writer_not_first_candidate() {
    let mut net = net(vec![
        (A, node(ReportedRole::Replica)),
        (B, node(ReportedRole::Writer)),
    ]);
    assert_eq!(net.discover(&candidates(&[A, B])).unwrap(), B);
}

#[test]
fn candidates_skips_unreachable_candidate() {
    let mut net = net(vec![(B, node(ReportedRole::Writer))]);
    assert_eq!(net.discover(&candidates(&[A, B])).unwrap(), B);
}

#[test]
fn candidates_falls_back_to_first_when_no_writer_found() {
    let mut net = net(vec![
        (A, node(ReportedRole::Replica)),
        (B, node(ReportedRole::Replica)),
    ]);
    assert_eq!(
        net.discover(&candidates(&[A, B])).unwrap(),
        A,
        "documented fallback: first candidate wins when nobody is writer"
    );
}

#[test]
fn candidates_falls_back_to_first_when_all_unreachable() {
    assert_eq!(net(vec![]).discover(&candidates(&[A, B])).unwrap(), A);
}

#[test]
fn custom_resolver_endpoint_is_used_and_normalized() {
    let mut net = net(vec![(A, node(ReportedRole::Writer))]).resolving(vec!["127.0.0.1:1001"]);
    assert_eq!(net.discover(&DiscoveryMode::Custom).unwrap(), A);
}

#[test]
fn custom_resolver_error_maps_to_discovery_error_with_source() {
    match on_resolved(Err("boom".to_string())) {
        SearchStep::Failed(ClientError::Discovery { message, source }) => {
            assert!(message.contains("custom resolver"));
            assert!(source.is_some());
            assert!(source.unwrap().contains("boom"));
        }
        other => panic!("expected Discovery error, got: {other:?}"),
    }
}

#[test]
fn custom_resolver_is_invoked_via_closure_blanket_impl() {
    let mut net = net(vec![(A, node(ReportedRole::Writer))]).resolving(vec![A]);
    assert_eq!(net.discover(&DiscoveryMode::Custom).unwrap(), A);
    assert_eq!(net.resolved, 1);
}

#[test]
fn client_error_display_contains_grpc_code_through_retry_wrapper() {
    let err = ClientError::RetriesExhausted {
        attempts: 1,
        source: Box::new(ClientError::Rpc(Box::new(not_leader(None)))),
    };
    assert!(err.display().contains("FailedPrecondition"));
}

#[test]
fn client_error_accessors_expose_code_and_not_leader_through_wrapper() {
    let err = ClientError::RetriesExhausted {
        attempts: 3,
        source: Box::new(ClientError::Rpc(Box::new(not_leader(None)))),
    };
    assert_eq!(err.code(), Some(Code::FailedPrecondition));
    assert!(err.is_not_leader());
    assert!(err.is_retryable());
}

#[test]
fn non_rpc_errors_have_no_status_or_code() {
    let err = ClientError::discovery("no candidates configured for discovery");
    assert!(err.status().is_none());
    assert!(err.code().is_none());
    assert!(!err.is_not_leader());
    assert!(!err.is_retryable());
}

fn assert_send_sync<T: Send + Sync + 'static>() {}

#[test]
fn client_is_send_sync_and_spawnable() {
    assert_send_sync::<SqlGatewayClient>();
    assert_send_sync::<ClientError>();
}

#[test]
fn client_rpc_error_maps_to_protocol() {
    let status = Status::new(Code::FailedPrecondition, "node is not the active writer");
    let sync_err = ClientError::Rpc(Box::new(status)).into_sync_error();
    match sync_err {
        SyncError::Protocol(msg) => assert!(msg.contains("FailedPrecondition")),
        other => panic!("expected Protocol error, got: {other:?}"),
    }
}

#[test]
fn client_connect_error_maps_to_network() {
    let connect = || ClientError::Connect {
        endpoint: "http://127.0.0.1:1".to_string(),
        source: "transport error".to_string(),
    };
    let sync_err = connect().into_sync_error();
    assert!(matches!(sync_err, SyncError::Network(_)));
    let exhausted = ClientError::RetriesExhausted {
        attempts: 2,
        source: Box::new(connect()),
    };
    assert!(matches!(exhausted.into_sync_error(), SyncError::Network(_)));
}

#[test]
fn manager_debug_output_is_stable() {
    let manager = SqlGatewayManager::new(
        ClientConfig::new(direct("http://127.0.0.1:50051")).with_auth_token("secret-token-12345"),
    );
    let dbg = manager.debug_text();
    assert_eq!(dbg, "SqlGatewayManager");
    assert!(!dbg.contains("secret-token-12345"));
}

fn assert_send_sync_clone<T: Send + Sync + Clone + 'static>() {}

#[test]
fn manager_is_send_sync_clone() {
    assert_send_sync_clone::<SqlGatewayManager>();
}

#[test]
fn successful_call_makes_exactly_one_rpc() {
    let mut net = net(vec![(A, node(ReportedRole::Writer))]);
    let mut client = fast_client(direct(A), 5);
    net.call(&mut client, CallKind::Execute).unwrap();
    assert_eq!(net.calls(A), 1);
}

fn stale_and_writer() -> Net {
    net(vec![
        (A, node(ReportedRole::Replica).script(vec![Answer::NotLeader(Some(B))])),
        (B, node(ReportedRole::Writer)),
    ])
}

fn follows_redirect(kind: CallKind) {
    let mut net = stale_and_writer();
    let mut client = fast_client(direct(A), 5);
    net.call(&mut client, kind).unwrap();
    assert_eq!(net.calls(A), 1);
    assert_eq!(net.calls(B), 1);
}

#[test]
fn redirect_header_is_followed_to_new_leader() {
    follows_redirect(CallKind::Execute);
}

#[test]
fn batch_follows_not_leader_redirect() {
    follows_redirect(CallKind::Batch);
}

#[test]
fn get_cluster_status_follows_not_leader_redirect() {
    follows_redirect(CallKind::ClusterStatus);
}

#[test]
fn drop_database_follows_not_leader_redirect() {
    follows_redirect(CallKind::DropDatabase);
}

#[test]
fn stream_query_follows_not_leader_redirect() {
    follows_redirect(CallKind::StreamQuery);
}

#[test]
fn redirect_pins_subsequent_calls_to_new_leader() {
    let mut net = stale_and_writer();
    let mut client = fast_client(direct(A), 5);
    net.call(&mut client, CallKind::Execute).unwrap();
    net.call(&mut client, CallKind::Execute).unwrap();
    assert_eq!(
        net.calls(A),
        1,
        "second call should stay pinned to the discovered writer"
    );
    assert_eq!(net.calls(B), 2);
}

#[test]
fn not_leader_without_header_triggers_rediscovery() {
    let mut net = net(vec![(
        A,
        node(ReportedRole::Writer).script(vec![Answer::NotLeader(None)]),
    )])
    .resolving(vec![A]);
    let mut client = fast_client(DiscoveryMode::Custom, 5);
    net.call(&mut client, CallKind::Execute).unwrap();
    assert_eq!(
        net.resolved, 2,
        "resolver should run again after a headerless NOT_LEADER"
    );
    assert_eq!(net.calls(A), 2);
}

#[test]
fn not_leader_with_empty_header_falls_back_to_rediscovery() {
    let mut net = net(vec![(
        A,
        node(ReportedRole::Writer).script(vec![Answer::NotLeader(Some(""))]),
    )]);
    let mut client = fast_client(direct(A), 5);
    net.call(&mut client, CallKind::Execute).unwrap();
    assert_eq!(
        net.calls(A),
        2,
        "empty header should fall back to reset+rediscover, then succeed"
    );
}

fn always_refusing() -> Net {
    net(vec![(
        A,
        node(ReportedRole::Replica).otherwise(Answer::NotLeader(None)),
    )])
}

#[test]
fn not_leader_in_direct_mode_retries_same_endpoint_then_exhausts() {
    let mut net = always_refusing();
    let mut client = fast_client(direct(A), 3);
    let err = net.call(&mut client, CallKind::Execute).unwrap_err();
    assert_eq!(net.calls(A), 3);
    match err {
        ClientError::RetriesExhausted { attempts, .. } => assert_eq!(attempts, 3),
        other => panic!("expected RetriesExhausted, got: {other:?}"),
    }
}

#[test]
fn retries_exhausted_preserves_last_status_code() {
    let mut client = fast_client(direct(A), 2);
    let err = always_refusing()
        .call(&mut client, CallKind::Execute)
        .unwrap_err();
    assert_eq!(err.code(), Some(Code::FailedPrecondition));
    assert!(err.display().contains("FailedPrecondition"));
}

fn calls_after_one_failure(code: Code, kind: CallKind) -> usize {
    let mut net = net(vec![(
        A,
        node(ReportedRole::Writer).script(vec![Answer::Fail(code, "transient")]),
    )]);
    let mut client = fast_client(direct(A), 5);
    net.call(&mut client, kind).unwrap();
    net.calls(A)
}

#[test]
fn unavailable_status_is_retried_then_succeeds_for_reads() {
    assert_eq!(calls_after_one_failure(Code::Unavailable, CallKind::Query), 2);
}

#[test]
fn deadline_exceeded_status_is_retried_then_succeeds_for_reads() {
    assert_eq!(
        calls_after_one_failure(Code::DeadlineExceeded, CallKind::ClusterStatus),
        2
    );
}

#[test]
fn drop_database_is_retried_on_unavailable() {
    // Deleting an already-absent file is a no-op, so dropping a database may be
    // repeated, unlike a write of which it is not known what came of it.
    assert_eq!(
        calls_after_one_failure(Code::Unavailable, CallKind::DropDatabase),
        2
    );
}

#[test]
fn write_does_not_retry_on_unavailable() {
    let mut net = net(vec![(
        A,
        node(ReportedRole::Writer).otherwise(Answer::Fail(Code::Unavailable, "transient")),
    )]);
    let mut client = fast_client(direct(A), 5);
    let err = net.call(&mut client, CallKind::Execute).unwrap_err();
    assert_eq!(net.calls(A), 1, "execute must not retry on Unavailable");
    assert_eq!(err.code(), Some(Code::Unavailable));
}

#[test]
fn non_transient_status_returns_immediately() {
    let mut net = net(vec![(
        A,
        node(ReportedRole::Writer).otherwise(Answer::Fail(Code::InvalidArgument, "bad sql")),
    )]);
    let mut client = fast_client(direct(A), 5);
    let err = net.call(&mut client, CallKind::Execute).unwrap_err();
    assert_eq!(net.calls(A), 1);
    assert_eq!(err.code(), Some(Code::InvalidArgument));
    assert!(!matches!(err, ClientError::RetriesExhausted { .. }));
}

#[test]
fn connect_failure_to_closed_port_exhausts_retries() {
    let mut client = fast_client(direct(A), 3);
    let err = net(vec![])
        .call(&mut client, CallKind::Execute)
        .unwrap_err();
    match err {
        ClientError::RetriesExhausted { attempts, source } => {
            assert_eq!(attempts, 3);
            assert!(matches!(*source, ClientError::Connect { .. }));
        }
        other => panic!("expected RetriesExhausted(Connect), got: {other:?}"),
    }
}

#[test]
fn connect_failure_then_resolver_switch_recovers() {
    let mut net = net(vec![(B, node(ReportedRole::Writer))]).resolving(vec![A, B]);
    let mut client = fast_client(DiscoveryMode::Custom, 5);
    net.call(&mut client, CallKind::Execute).unwrap();
    assert_eq!(net.calls(B), 1);
}

#[test]
fn invalid_endpoint_string_fails_fast_without_retry() {
    let mut client = fast_client(direct("::: not a url"), 5);
    let mut net = net(vec![]);
    let err = net.call(&mut client, CallKind::Execute).unwrap_err();
    assert!(matches!(err, ClientError::InvalidEndpoint { .. }));
    assert!(
        net.waits.is_empty(),
        "invalid endpoint must fail immediately, not after backoff"
    );
}

#[test]
fn max_retries_one_makes_exactly_one_attempt() {
    let mut net = always_refusing();
    let mut client = fast_client(direct(A), 1);
    let _ = net.call(&mut client, CallKind::Execute);
    assert_eq!(net.calls(A), 1);
}

#[test]
fn reset_connection_forces_reconnect_and_rediscovery() {
    let mut net = net(vec![
        (A, node(ReportedRole::Writer)),
        (B, node(ReportedRole::Writer)),
    ])
    .resolving(vec![A, B]);
    let mut client = fast_client(DiscoveryMode::Custom, 5);
    net.call(&mut client, CallKind::ClusterStatus).unwrap();
    assert_eq!(net.resolved, 1);

    client.reset_connection();
    net.call(&mut client, CallKind::ClusterStatus).unwrap();
    assert_eq!(
        net.resolved, 2,
        "reset_connection should force the resolver to run again"
    );
}

#[test]
fn cached_connection_is_reused_across_calls() {
    let mut net = net(vec![(A, node(ReportedRole::Writer))]).resolving(vec![A]);
    let mut client = fast_client(DiscoveryMode::Custom, 5);
    for _ in 0..5 {
        net.call(&mut client, CallKind::ClusterStatus).unwrap();
    }
    assert_eq!(
        net.resolved, 1,
        "resolver should only run once; connection is cached"
    );
    assert_eq!(net.calls(A), 5);
}

#[test]
fn backoff_delays_grow_between_attempts() {
    let mut net = always_refusing();
    let mut config = ClientConfig::new(direct(A)).with_max_retries(4);
    config.initial_backoff_ms = 40;
    config.max_backoff_ms = 500;
    let mut client = SqlGatewayClient::new(config);
    let _ = net.call(&mut client, CallKind::Execute);
    assert_eq!(net.waits, vec![40, 80, 160]);
    assert!(net.waits.iter().sum::<u64>() >= 250);
}

#[test]
fn client_errors_are_shown_with_their_sources() {
    let invalid = ClientError::InvalidEndpoint {
        endpoint: "x".to_string(),
        source: "bad".to_string(),
    };
    assert_eq!(invalid.display(), "invalid endpoint 'x': bad");
    let connect = ClientError::Connect {
        endpoint: "x".to_string(),
        source: "refused".to_string(),
    };
    assert_eq!(connect.display(), "failed to connect to 'x': refused");
    assert_eq!(
        ClientError::discovery("m").display(),
        "leader discovery failed: m"
    );
    assert_eq!(
        ClientError::Rpc(Box::new(Status::new(Code::NotFound, "gone"))).display(),
        "gRPC call failed (code: NotFound): gone"
    );
    let exhausted = ClientError::RetriesExhausted {
        attempts: 2,
        source: Box::new(ClientError::discovery("m")),
    };
    assert_eq!(
        exhausted.display(),
        "gave up after 2 attempt(s): leader discovery failed: m"
    );
    let sourced = ClientError::discovery_with_source("m", "s".to_string());
    assert!(matches!(sourced, ClientError::Discovery { source: Some(ref s), .. } if s == "s"));
}
