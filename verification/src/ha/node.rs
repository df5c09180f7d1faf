//! A node in service: what it is started with, what it shares with its gateway
//! and what it answers to probes.
use vstd::prelude::*;

use crate::error::{Result, SyncError};
use crate::ha::controller::{ControllerTickOutcome, ControllerView, HaController};
use crate::ha::file_executor::FileActionExecutor;
use crate::ha::kube::{KubectlLeaseReader, KubectlView};
use crate::ha::policy::{LeaseRecord, NodeRole, PromotionConfig};
use crate::ha::records;
use crate::ha::records::{endpoint_of_holder, FileLeaseReader};
use crate::ha::runtime;
use crate::ha::runtime::{
    HaAction, HaSharedState, LeaseObservation, ReconcileDecision, RuntimeView,
};
use crate::text;

verus! {

/// The shortest time between two ticks, in milliseconds.
pub const MIN_TICK_INTERVAL_MS: u64 = 50;

/// Where the lease is read.
#[derive(Debug, Clone, Copy, PartialEq, Eq, Structural)]
pub enum HaLeaseSource {
    File,
    Kubernetes,
}

/// Whether a node may start without being the writer.
#[derive(Debug, Clone, Copy, PartialEq, Eq, Structural)]
pub enum HaStartupFenceMode {
    Permissive,
    RequireWriter,
}

/// What a node is started with.
#[derive(Debug, Clone)]
pub struct HaArgs {
    pub node_id: Option<String>,
    pub role_state_file: Option<String>,
    pub audit_log_file: Option<String>,
    pub lease_source: HaLeaseSource,
    pub lease_file: Option<String>,
    pub kube_lease_name: Option<String>,
    pub kube_namespace: String,
    pub kube_context: Option<String>,
    pub kubeconfig: Option<String>,
    pub kubectl_path: String,
    pub allow_replica_reads: bool,
    pub tick_interval_ms: u64,
    pub min_source_generation: u64,
    pub max_freshness_age_secs: u64,
    pub max_future_skew_secs: u64,
    pub continue_on_error: bool,
}

/// The reader of the lease.
#[derive(Debug)]
pub enum AnyLeaseReader {
    File(FileLeaseReader),
    Kubernetes(KubectlLeaseReader),
}

/// A node that is ready to start.
#[derive(Debug)]
pub struct HaNode {
    pub controller: HaController,
    pub reader: AnyLeaseReader,
    pub executor: FileActionExecutor,
    pub state: HaSharedState,
    pub tick_interval_ms: u64,
}

/// What a node lacks to be started.
pub open spec fn start_refusal(args: HaArgs) -> Option<Seq<char>> {
    if args.node_id is None {
        Some("--ha-node-id is required with --ha"@)
    } else if args.role_state_file is None {
        Some("--ha-role-state-file is required with --ha"@)
    } else if args.audit_log_file is None {
        Some("--ha-audit-log-file is required with --ha"@)
    } else if args.lease_source == HaLeaseSource::File && args.lease_file is None {
        Some("--ha-lease-file is required when --ha-lease-source=file"@)
    } else if args.lease_source == HaLeaseSource::Kubernetes && args.kube_lease_name is None {
        Some("--ha-kube-lease-name is required when --ha-lease-source=kubernetes"@)
    } else {
        None
    }
}

/// Whether this is the node that is started with these arguments.
pub open spec fn is_node(node: HaNode, args: HaArgs) -> bool {
    &&& node.controller@ == (ControllerView {
        runtime: RuntimeView {
            node_id: args.node_id->0@,
            role: NodeRole::Replica,
            local_generation: 0,
            lease: None,
            freshness: None,
        },
        promotion_config: PromotionConfig {
            max_freshness_age_secs: args.max_freshness_age_secs,
            max_future_skew_secs: args.max_future_skew_secs,
        },
        min_source_generation: args.min_source_generation,
        stop_on_error: !args.continue_on_error,
    })
    &&& match args.lease_source {
        HaLeaseSource::File => node.reader matches AnyLeaseReader::File(f) && f.path()
            == args.lease_file->0@,
        HaLeaseSource::Kubernetes => node.reader matches AnyLeaseReader::Kubernetes(k) && k@ == (
        KubectlView {
            kubectl_path: args.kubectl_path@,
            namespace: args.kube_namespace@,
            lease_name: args.kube_lease_name->0@,
            kube_context: text::opt_view(args.kube_context),
            kubeconfig: text::opt_view(args.kubeconfig),
        }),
    }
    &&& node.executor.role_path() == args.role_state_file->0@
    &&& node.executor.audit_path() == args.audit_log_file->0@
    &&& node.state.node_id@ == args.node_id->0@
    &&& node.state.role == NodeRole::Replica
    &&& node.state.generation == 0
    &&& node.state.active_leader_id is None
    &&& node.state.active_leader_endpoint is None
    &&& node.state.lease_record is None
    &&& node.state.allow_replica_reads == args.allow_replica_reads
    &&& node.tick_interval_ms == if args.tick_interval_ms >= MIN_TICK_INTERVAL_MS {
        args.tick_interval_ms
    } else {
        MIN_TICK_INTERVAL_MS
    }
}

/// The node that is started with these arguments.
pub fn start_node(args: &HaArgs) -> (r: Result<HaNode>)
    ensures
        match r {
            Ok(node) => start_refusal(*args) is None && is_node(node, *args),
            Err(e) => start_refusal(*args) is Some && e.is_protocol(start_refusal(*args)->0),
        },
{
    let node_id: &String = match &args.node_id {
        None => {
            return Err(SyncError::protocol("--ha-node-id is required with --ha"));
        },
        Some(s) => s,
    };
    let role_state_file: &String = match &args.role_state_file {
        None => {
            return Err(SyncError::protocol("--ha-role-state-file is required with --ha"));
        },
        Some(s) => s,
    };
    let audit_log_file: &String = match &args.audit_log_file {
        None => {
            return Err(SyncError::protocol("--ha-audit-log-file is required with --ha"));
        },
        Some(s) => s,
    };
    let mut controller: HaController = HaController::new(node_id.as_str());
    controller.set_min_source_generation(args.min_source_generation);
    controller.set_promotion_config(
        PromotionConfig {
            max_freshness_age_secs: args.max_freshness_age_secs,
            max_future_skew_secs: args.max_future_skew_secs,
        },
    );
    controller.set_stop_on_error(!args.continue_on_error);
    let reader: AnyLeaseReader = match args.lease_source {
        HaLeaseSource::File => match &args.lease_file {
            None => {
                return Err(
                    SyncError::protocol("--ha-lease-file is required when --ha-lease-source=file"),
                );
            },
            Some(path) => AnyLeaseReader::File(FileLeaseReader::new(path.as_str())),
        },
        HaLeaseSource::Kubernetes => match &args.kube_lease_name {
            None => {
                return Err(
                    SyncError::protocol(
                        "--ha-kube-lease-name is required when --ha-lease-source=kubernetes",
                    ),
                );
            },
            Some(name) => {
                let mut reader: KubectlLeaseReader = KubectlLeaseReader::new(
                    args.kubectl_path.as_str(),
                    args.kube_namespace.as_str(),
                    name.as_str(),
                );
                reader.set_kube_context(args.kube_context.clone());
                reader.set_kubeconfig(args.kubeconfig.clone());
                AnyLeaseReader::Kubernetes(reader)
            },
        },
    };
    let tick_interval_ms: u64 = if args.tick_interval_ms >= MIN_TICK_INTERVAL_MS {
        args.tick_interval_ms
    } else {
        MIN_TICK_INTERVAL_MS
    };
    Ok(
        HaNode {
            controller,
            reader,
            executor: FileActionExecutor::new(role_state_file.as_str(), audit_log_file.as_str()),
            state: HaSharedState::new(node_id.as_str(), args.allow_replica_reads),
            tick_interval_ms,
        },
    )
}

// ---------------------------------------------------------------------------
// Starting as the writer
// ---------------------------------------------------------------------------

impl ReconcileDecision {
    /// The debug text of a decision.
    pub open spec fn shown(self) -> Seq<char> {
        match self {
            ReconcileDecision::KeepReplica => "KeepReplica"@,
            ReconcileDecision::PromoteToWriter { generation } => "PromoteToWriter { generation: "@
                + text::decimal(generation as nat) + " }"@,
            ReconcileDecision::KeepWriter => "KeepWriter"@,
            ReconcileDecision::DemoteToReplica { reason } => "DemoteToReplica { reason: "@
                + reason.shown() + " }"@,
        }
    }

    /// The debug text of this decision.
    pub fn debug_text(&self) -> (r: String)
        ensures
            r@ == self.shown(),
    {
        match self {
            ReconcileDecision::KeepReplica => "KeepReplica".to_owned(),
            ReconcileDecision::PromoteToWriter { generation } => {
                let mut s: String = "PromoteToWriter { generation: ".to_owned();
                s.append(text::u64_text(*generation).as_str());
                s.append(" }");
                s
            },
            ReconcileDecision::KeepWriter => "KeepWriter".to_owned(),
            ReconcileDecision::DemoteToReplica { reason } => {
                let mut s: String = "DemoteToReplica { reason: ".to_owned();
                s.append(reason.debug_text().as_str());
                s.append(" }");
                s
            },
        }
    }
}

/// Whether a decision makes or leaves the node the writer.
pub open spec fn makes_writer(decision: ReconcileDecision) -> bool {
    decision is PromoteToWriter || decision is KeepWriter
}

/// Why a node that has to be the writer does not start, from its first tick.
pub open spec fn fence_refusal<E>(outcome: ControllerTickOutcome<String, E>) -> Option<Seq<char>> {
    match outcome {
        ControllerTickOutcome::LeaseReadFailed { error, fallback_report } => Some(
            "startup fence lease read failed: "@ + error@,
        ),
        ControllerTickOutcome::Executed(report) => if !makes_writer(
            report.plan.outcome.decision,
        ) {
            Some(
                "startup fence blocked writer startup: decision="@
                    + report.plan.outcome.decision.shown(),
            )
        } else if report.failures@.len() > 0 {
            Some(
                "startup fence writer actions failed: "@ + text::decimal(report.failures@.len())
                    + " failures"@,
            )
        } else {
            None
        },
    }
}

/// Whether a node that has to be the writer starts, from its first tick.
pub fn check_startup_fence<E>(outcome: &ControllerTickOutcome<String, E>) -> (r: Result<()>)
    ensures
        match r {
            Ok(()) => fence_refusal(*outcome) is None,
            Err(e) => fence_refusal(*outcome) is Some && e.is_protocol(fence_refusal(*outcome)->0),
        },
{
    match outcome {
        ControllerTickOutcome::LeaseReadFailed { error, .. } => {
            let mut m: String = "startup fence lease read failed: ".to_owned();
            m.append(error.as_str());
            Err(SyncError::Protocol(m))
        },
        ControllerTickOutcome::Executed(report) => {
            let writes: bool = match &report.plan.outcome.decision {
                ReconcileDecision::PromoteToWriter { .. } => true,
                ReconcileDecision::KeepWriter => true,
                _ => false,
            };
            if !writes {
                let mut m: String = "startup fence blocked writer startup: decision=".to_owned();
                m.append(report.plan.outcome.decision.debug_text().as_str());
                return Err(SyncError::Protocol(m));
            }
            if report.failures.len() > 0 {
                let mut m: String = "startup fence writer actions failed: ".to_owned();
                m.append(text::u64_text(report.failures.len() as u64).as_str());
                m.append(" failures");
                return Err(SyncError::Protocol(m));
            }
            Ok(())
        },
    }
}

/// A node that has to be the writer starts exactly if its lease was read, the
/// tick made it the writer and every action succeeded.
pub proof fn law_fenced_start_needs_writer<E>(outcome: ControllerTickOutcome<String, E>)
    ensures
        fence_refusal(outcome) is None <==> (outcome matches ControllerTickOutcome::Executed(report)
            && makes_writer(report.plan.outcome.decision) && report.failures@.len() == 0),
{
}

// ---------------------------------------------------------------------------
// The state shared with the gateway
// ---------------------------------------------------------------------------

/// The lease that a tick saw, where it saw one.
pub open spec fn seen_lease(observation: LeaseObservation) -> Option<LeaseRecord> {
    match observation {
        LeaseObservation::Missing => None,
        LeaseObservation::Acquired(lease) => Some(lease),
        LeaseObservation::Renewed(lease) => Some(lease),
        LeaseObservation::Replaced(lease) => Some(lease),
        LeaseObservation::Unchanged(lease) => Some(lease),
        LeaseObservation::Transferred { previous, current } => Some(current),
    }
}

/// The lease that a tick saw, where it saw one.
pub fn lease_from_observation(observation: &LeaseObservation) -> (r: Option<LeaseRecord>)
    ensures
        r == seen_lease(*observation),
{
    match observation {
        LeaseObservation::Missing => None,
        LeaseObservation::Acquired(lease) => Some(lease.clone()),
        LeaseObservation::Renewed(lease) => Some(lease.clone()),
        LeaseObservation::Replaced(lease) => Some(lease.clone()),
        LeaseObservation::Unchanged(lease) => Some(lease.clone()),
        LeaseObservation::Transferred { current, .. } => Some(current.clone()),
    }
}

/// The lease after a tick: the one that it saw, and none where it could not be
/// read.
pub open spec fn lease_after_tick<L, E>(outcome: ControllerTickOutcome<L, E>) -> Option<
    LeaseRecord,
> {
    match outcome {
        ControllerTickOutcome::Executed(report) => seen_lease(
            report.plan.outcome.lease_observation,
        ),
        ControllerTickOutcome::LeaseReadFailed { .. } => None,
    }
}

/// The lease after a tick.
pub fn current_lease<L, E>(outcome: &ControllerTickOutcome<L, E>) -> (r: Option<LeaseRecord>)
    ensures
        r == lease_after_tick(*outcome),
{
    match outcome {
        ControllerTickOutcome::Executed(report) => lease_from_observation(
            &report.plan.outcome.lease_observation,
        ),
        ControllerTickOutcome::LeaseReadFailed { .. } => None,
    }
}

/// The role and the generation that a node shares, after an action.
pub open spec fn shared_after(shared: (NodeRole, u64), action: HaAction) -> (NodeRole, u64) {
    match action {
        HaAction::EnableWriter { generation } => (NodeRole::Writer, generation),
        HaAction::KeepWriter => (NodeRole::Writer, shared.1),
        _ => (NodeRole::Replica, shared.1),
    }
}

/// The role and the generation that a node shares, after these actions.
pub open spec fn shared_after_all(shared: (NodeRole, u64), actions: Seq<HaAction>) -> (
    NodeRole,
    u64,
)
    decreases actions.len(),
{
    if actions.len() == 0 {
        shared
    } else {
        shared_after(shared_after_all(shared, actions.drop_last()), actions.last())
    }
}

impl HaSharedState {
    /// Take in the lease after a tick: its holder is the writer, reached under
    /// its name and that of the service.
    pub fn observe_lease(&mut self, lease: Option<LeaseRecord>, service_name: &str, grpc_port: u16)
        ensures
            final(self).node_id == old(self).node_id,
            final(self).role == old(self).role,
            final(self).generation == old(self).generation,
            final(self).allow_replica_reads == old(self).allow_replica_reads,
            final(self).lease_record == lease,
            match lease {
                Some(l) => text::opt_view(final(self).active_leader_id) == Some(l.holder_node_id@)
                    && text::opt_view(final(self).active_leader_endpoint) == Some(
                    records::holder_endpoint(l.holder_node_id@, service_name@, grpc_port),
                ),
                None => final(self).active_leader_id is None
                    && final(self).active_leader_endpoint is None,
            },
    {
        match &lease {
            Some(l) => {
                self.active_leader_id = Some(l.holder_node_id.clone());
                self.active_leader_endpoint = Some(
                    endpoint_of_holder(l.holder_node_id.as_str(), service_name, grpc_port),
                );
            },
            None => {
                self.active_leader_id = None;
                self.active_leader_endpoint = None;
            },
        }
        self.lease_record = lease;
    }

    /// Take in an action that was carried out.
    pub fn record_action(&mut self, action: &HaAction)
        ensures
            (final(self).role, final(self).generation) == shared_after(
                (old(self).role, old(self).generation),
                *action,
            ),
            final(self).node_id == old(self).node_id,
            final(self).active_leader_id == old(self).active_leader_id,
            final(self).active_leader_endpoint == old(self).active_leader_endpoint,
            final(self).lease_record == old(self).lease_record,
            final(self).allow_replica_reads == old(self).allow_replica_reads,
    {
        match action {
            HaAction::EnableWriter { generation } => {
                self.role = NodeRole::Writer;
                self.generation = *generation;
            },
            HaAction::KeepWriter => {
                self.role = NodeRole::Writer;
            },
            _ => {
                self.role = NodeRole::Replica;
            },
        }
    }
}

/// The lease that a tick saw is the one that it was shown.
pub proof fn law_tick_tells_its_lease(
    state: RuntimeView,
    now_secs: u64,
    lease: Option<LeaseRecord>,
    min_source_generation: u64,
    config: PromotionConfig,
)
    ensures
        seen_lease(
            runtime::reconciled(
                state,
                now_secs,
                lease,
                min_source_generation,
                config,
            ).1.lease_observation,
        ) == lease,
{
}

/// The gateway follows the controller: where the node shared the role and the
/// generation of its controller before a tick, it does so after it, when every
/// planned action was carried out. With the lease of the tick it then writes at
/// that time exactly if the controller is in writer mode.
pub proof fn law_gateway_follows_controller(
    state: RuntimeView,
    now_secs: u64,
    lease: Option<LeaseRecord>,
    min_source_generation: u64,
    config: PromotionConfig,
    shared: HaSharedState,
)
    requires
        ({
            let outcome = runtime::reconciled(
                state,
                now_secs,
                lease,
                min_source_generation,
                config,
            ).1;
            &&& shared.node_id@ == state.node_id
            &&& shared.lease_record == lease
            &&& (shared.role, shared.generation) == shared_after_all(
                (state.role, state.local_generation),
                runtime::actions_for(outcome),
            )
        }),
    ensures
        ({
            let after = runtime::reconciled(
                state,
                now_secs,
                lease,
                min_source_generation,
                config,
            ).0;
            &&& shared.role == after.role
            &&& shared.generation == after.local_generation
            &&& shared.writes_at(now_secs) <==> after.role == NodeRole::Writer
        }),
{
    reveal_with_fuel(shared_after_all, 3);
    let outcome = runtime::reconciled(state, now_secs, lease, min_source_generation, config).1;
    let actions = runtime::actions_for(outcome);
    if actions.len() == 2 {
        assert(actions.drop_last() == seq![actions[0]]);
        assert(actions.drop_last().drop_last() == Seq::<HaAction>::empty());
    } else {
        assert(actions.drop_last() == Seq::<HaAction>::empty());
    }
    runtime::law_writer_holds_the_lease(state, now_secs, lease, min_source_generation, config);
}

// ---------------------------------------------------------------------------
// Readiness
// ---------------------------------------------------------------------------

/// Whether a node is ready after an action: as the writer.
pub open spec fn is_ready(action: HaAction) -> bool {
    action is EnableWriter || action is KeepWriter
}

/// Whether a node is ready after an action.
pub fn ready_after(action: &HaAction) -> (r: bool)
    ensures
        r == is_ready(*action),
{
    match action {
        HaAction::EnableWriter { .. } => true,
        HaAction::KeepWriter => true,
        _ => false,
    }
}

/// What stands in the readiness file.
pub open spec fn readiness_content(ready: bool) -> Seq<char> {
    if ready {
        "ready\n"@
    } else {
        "not-ready\n"@
    }
}

/// What stands in the readiness file.
pub fn readiness_text(ready: bool) -> (r: &'static str)
    ensures
        r@ == readiness_content(ready),
{
    if ready {
        "ready\n"
    } else {
        "not-ready\n"
    }
}

/// The path that a request asks for: the second word of its first line, or else
/// the root.
pub open spec fn requested_path(request: Seq<char>) -> Seq<char> {
    let words = text::words(text::pieces(request, '\n')[0]);
    if words.len() > 1 {
        words[1]
    } else {
        "/"@
    }
}

/// The status line and the body of the answer to a probe.
pub open spec fn probe_answer(path: Seq<char>, ready: bool) -> (Seq<char>, Seq<char>) {
    if path == "/ready"@ {
        if ready {
            ("HTTP/1.1 200 OK"@, "ready\n"@)
        } else {
            ("HTTP/1.1 503 Service Unavailable"@, "not-ready\n"@)
        }
    } else if path == "/live"@ {
        ("HTTP/1.1 200 OK"@, "live\n"@)
    } else {
        ("HTTP/1.1 404 Not Found"@, "not-found\n"@)
    }
}

/// The answer to a probe.
pub open spec fn probe_response(request: Seq<char>, ready: bool) -> Seq<char> {
    let (status, body) = probe_answer(requested_path(request), ready);
    status + "\r\ncontent-type: text/plain; charset=utf-8\r\ncontent-length: "@ + text::decimal(
        body.len(),
    ) + "\r\nconnection: close\r\n\r\n"@ + body
}

/// The answer to a probe.
pub fn readiness_response(request: &str, ready: bool) -> (r: String)
    ensures
        r@ == probe_response(request@, ready),
{
    let lines: Vec<String> = text::split_all(request, '\n');
    assert(text::views(lines@).len() == lines@.len());
    assert(text::pieces(request@, '\n').len() > 0);
    assert(text::views(lines@)[0] == lines@[0]@);
    let words: Vec<String> = text::split_words(lines[0].as_str());
    assert(text::views(words@).len() == words@.len());
    let path: String = if words.len() > 1 {
        assert(text::views(words@)[1] == words@[1]@);
        words[1].clone()
    } else {
        "/".to_owned()
    };
    proof {
        reveal_strlit("ready\n");
        reveal_strlit("not-ready\n");
        reveal_strlit("live\n");
        reveal_strlit("not-found\n");
    }
    let mut r: String = String::new();
    let len: u64;
    let body: &str;
    if path == "/ready".to_owned() {
        if ready {
            r.append("HTTP/1.1 200 OK");
            body = "ready\n";
            len = 6;
        } else {
            r.append("HTTP/1.1 503 Service Unavailable");
            body = "not-ready\n";
            len = 10;
        }
    } else if path == "/live".to_owned() {
        r.append("HTTP/1.1 200 OK");
        body = "live\n";
        len = 5;
    } else {
        r.append("HTTP/1.1 404 Not Found");
        body = "not-found\n";
        len = 10;
    }
    let ghost status = probe_answer(path@, ready).0;
    assert(r@ =~= status);
    assert(body@ == probe_answer(path@, ready).1);
    assert(len == body@.len());
    r.append("\r\ncontent-type: text/plain; charset=utf-8\r\ncontent-length: ");
    r.append(text::u64_text(len).as_str());
    r.append("\r\nconnection: close\r\n\r\n");
    r.append(body);
    r
}

// ---------------------------------------------------------------------------
// What a node starts as and answers
// ---------------------------------------------------------------------------

/// A node starts exactly if it is told its name, its two files and where the lease of
/// the chosen source is.
pub proof fn law_node_needs_name_files_and_lease(args: HaArgs)
    ensures
        start_refusal(args) is None <==> {
            &&& args.node_id is Some
            &&& args.role_state_file is Some
            &&& args.audit_log_file is Some
            &&& match args.lease_source {
                HaLeaseSource::File => args.lease_file is Some,
                HaLeaseSource::Kubernetes => args.kube_lease_name is Some,
            }
        },
{
}

/// What a node lacks is told by the option that gives it: the first one of them.
pub proof fn law_missing_option_is_named(args: HaArgs)
    ensures
        args.node_id is None ==> start_refusal(args) == Some("--ha-node-id is required with --ha"@),
        args.node_id is Some && args.role_state_file is None ==> start_refusal(args) == Some(
            "--ha-role-state-file is required with --ha"@,
        ),
        args.node_id is Some && args.role_state_file is Some && args.audit_log_file is None
            ==> start_refusal(args) == Some("--ha-audit-log-file is required with --ha"@),
        args.node_id is Some && args.role_state_file is Some && args.audit_log_file is Some ==> (
        args.lease_source == HaLeaseSource::File && args.lease_file is None ==> start_refusal(args)
            == Some("--ha-lease-file is required when --ha-lease-source=file"@)) && (
        args.lease_source == HaLeaseSource::Kubernetes && args.kube_lease_name is None
            ==> start_refusal(args) == Some(
            "--ha-kube-lease-name is required when --ha-lease-source=kubernetes"@,
        )),
{
}

/// A node starts as a replica that knows no writer and never writes; it ticks no
/// faster than it was told and than the shortest time, and its controller decides by
/// what it was told.
pub proof fn law_node_starts_as_a_replica(node: HaNode, args: HaArgs, now_secs: u64)
    requires
        is_node(node, args),
    ensures
        !node.state.writes_at(now_secs),
        node.state.active_leader_endpoint is None,
        node.controller@.runtime.role == NodeRole::Replica,
        node.controller@.runtime.node_id == args.node_id->0@,
        node.state.node_id@ == args.node_id->0@,
        node.controller@.promotion_config.max_freshness_age_secs == args.max_freshness_age_secs,
        node.controller@.promotion_config.max_future_skew_secs == args.max_future_skew_secs,
        node.controller@.min_source_generation == args.min_source_generation,
        node.controller@.stop_on_error <==> !args.continue_on_error,
        node.state.allow_replica_reads == args.allow_replica_reads,
        node.tick_interval_ms >= 50,
        node.tick_interval_ms >= args.tick_interval_ms,
        node.tick_interval_ms == 50 || node.tick_interval_ms == args.tick_interval_ms,
        node.reader is File <==> args.lease_source == HaLeaseSource::File,
{
}

/// A node whose lease could not be read has none; else it has the one that was read.
pub proof fn law_unread_lease_is_none<L, E>(outcome: ControllerTickOutcome<L, E>, lease: LeaseRecord)
    ensures
        outcome is LeaseReadFailed ==> lease_after_tick(outcome) is None,
        outcome matches ControllerTickOutcome::Executed(report) ==> {
            let seen = report.plan.outcome.lease_observation;
            &&& seen is Missing <==> lease_after_tick(outcome) is None
            &&& seen == LeaseObservation::Acquired(lease) ==> lease_after_tick(outcome) == Some(
                lease,
            )
            &&& seen == LeaseObservation::Renewed(lease) ==> lease_after_tick(outcome) == Some(
                lease,
            )
            &&& seen == LeaseObservation::Replaced(lease) ==> lease_after_tick(outcome) == Some(
                lease,
            )
            &&& seen == LeaseObservation::Unchanged(lease) ==> lease_after_tick(outcome) == Some(
                lease,
            )
            &&& (seen matches LeaseObservation::Transferred { previous, current }
                ==> lease_after_tick(outcome) == Some(current))
        },
{
}

/// A node is ready exactly after the actions that make or leave it the writer: those
/// after which it shares that role.
pub proof fn law_ready_is_the_writer(action: HaAction, shared: (NodeRole, u64))
    ensures
        is_ready(action) <==> shared_after(shared, action).0 == NodeRole::Writer,
        action matches HaAction::EnableWriter { generation } ==> shared_after(shared, action) == (
            NodeRole::Writer,
            generation,
        ),
        !(action is EnableWriter) ==> shared_after(shared, action).1 == shared.1,
        action is EnsureReplica || action is DisableWriter || action is RecordPromotionDenied
            ==> shared_after(shared, action).0 == NodeRole::Replica,
{
}

/// A request asks for the second word of its first line, whatever follows.
pub proof fn law_request_asks_for_its_path(
    verb: Seq<char>,
    path: Seq<char>,
    version: Seq<char>,
    rest: Seq<char>,
)
    requires
        verb.len() > 0,
        text::no_spaces(verb),
        path.len() > 0,
        text::no_spaces(path),
        !version.contains('\n'),
    ensures
        requested_path(verb + seq![' '] + path + seq![' '] + version + seq!['\n'] + rest) == path,
        requested_path(verb) == "/"@,
{
    let none = Seq::<char>::empty();
    let after = seq![' '] + version;
    let line = verb + seq![' '] + path + seq![' '] + version;
    let request = line + seq!['\n'] + rest;
    assert(request =~= verb + seq![' '] + path + seq![' '] + version + seq!['\n'] + rest);
    assert forall|i: int| 0 <= i < line.len() implies line[i] != '\n' by {
        let n = verb.len() as int;
        let m = path.len() as int;
        if i < n {
            assert(!text::is_space(verb[i]));
        } else if n < i < n + 1 + m {
            assert(line[i] == path[i - n - 1]);
            assert(!text::is_space(path[i - n - 1]));
        } else if i > n + 1 + m {
            assert(line[i] == version[i - n - m - 2]);
        }
    }
    text::lemma_first_index(request, '\n', line.len() as int);
    assert(request.take(line.len() as int) =~= line);
    assert(text::pieces(request, '\n')[0] == line);
    let tail = seq![' '] + path + after;
    assert(line =~= none + verb + tail);
    text::law_words_are_the_runs(none, verb, tail);
    text::law_words_are_the_runs(seq![' '], path, after);
    assert(text::words(line) == seq![verb] + (seq![path] + text::words(after)));
    assert forall|i: int| 0 <= i < verb.len() implies verb[i] != '\n' by {
        assert(!text::is_space(verb[i]));
    }
    text::lemma_first_index(verb, '\n', verb.len() as int);
    assert(text::pieces(verb, '\n')[0] == verb);
    assert(none + verb + none =~= verb);
    text::law_words_are_the_runs(none, verb, none);
}

/// `/ready` tells whether the node is ready, `/live` that it lives, and any other
/// path that there is nothing.
pub proof fn law_probe_is_answered(path: Seq<char>, ready: bool)
    ensures
        "HTTP/1.1 200 OK"@ == probe_answer(path, ready).0 <==> (path == "/ready"@ && ready || path
            == "/live"@),
        path == "/ready"@ && !ready ==> probe_answer(path, ready).0
            == "HTTP/1.1 503 Service Unavailable"@,
        path == "/ready"@ ==> probe_answer(path, ready).1 == readiness_content(ready),
        path == "/live"@ ==> probe_answer(path, ready).1 == "live\n"@,
        path != "/ready"@ && path != "/live"@ ==> probe_answer(path, ready) == (
            "HTTP/1.1 404 Not Found"@,
            "not-found\n"@,
        ),
        readiness_content(true) == "ready\n"@,
        readiness_content(false) == "not-ready\n"@,
{
    reveal_strlit("HTTP/1.1 200 OK");
    reveal_strlit("HTTP/1.1 503 Service Unavailable");
    reveal_strlit("HTTP/1.1 404 Not Found");
    reveal_strlit("/ready");
    reveal_strlit("/live");
    assert("/ready"@.len() != "/live"@.len());
    assert("HTTP/1.1 200 OK"@.len() != "HTTP/1.1 503 Service Unavailable"@.len());
    assert("HTTP/1.1 200 OK"@.len() != "HTTP/1.1 404 Not Found"@.len());
}

/// An answer starts with its status, ends with its body, and says how long that is.
pub proof fn law_probe_response_carries_its_answer(request: Seq<char>, ready: bool)
    ensures
        ({
            let (status, body) = probe_answer(requested_path(request), ready);
            let response = probe_response(request, ready);
            &&& (status + "\r\n"@).is_prefix_of(response)
            &&& ("content-length: "@ + text::decimal(body.len())
                + "\r\nconnection: close\r\n\r\n"@ + body).is_suffix_of(response)
        }),
{
    let (status, body) = probe_answer(requested_path(request), ready);
    let response = probe_response(request, ready);
    let tail = "content-length: "@ + text::decimal(body.len()) + "\r\nconnection: close\r\n\r\n"@
        + body;
    reveal_strlit("\r\n");
    reveal_strlit("content-length: ");
    reveal_strlit("\r\ncontent-type: text/plain; charset=utf-8\r\ncontent-length: ");
    let middle = "\r\ncontent-type: text/plain; charset=utf-8\r\n"@;
    reveal_strlit("\r\ncontent-type: text/plain; charset=utf-8\r\n");
    assert("\r\ncontent-type: text/plain; charset=utf-8\r\ncontent-length: "@ =~= middle
        + "content-length: "@);
    assert(response =~= status + middle + tail);
    assert(middle.take(2) =~= "\r\n"@);
    assert((status + "\r\n"@).is_prefix_of(response));
    assert(tail.is_suffix_of(response)) by {
        assert(response.skip(response.len() - tail.len()) =~= tail);
    }
}

/// A decision makes or leaves a node the writer exactly if it is one afterwards.
pub proof fn law_writer_decisions_leave_a_writer(
    state: RuntimeView,
    now_secs: u64,
    lease: Option<LeaseRecord>,
    min_source_generation: u64,
    config: PromotionConfig,
)
    ensures
        ({
            let (after, outcome) = runtime::reconciled(
                state,
                now_secs,
                lease,
                min_source_generation,
                config,
            );
            makes_writer(outcome.decision) <==> after.role == NodeRole::Writer
        }),
{
}

/// A node that has to be the writer and is not told why: its lease could not be read,
/// the decision was another, or actions failed, as many as they are.
pub proof fn law_refused_start_is_told_why<E>(outcome: ControllerTickOutcome<String, E>)
    ensures
        outcome matches ControllerTickOutcome::LeaseReadFailed { error, .. } ==> fence_refusal(
            outcome,
        ) == Some("startup fence lease read failed: "@ + error@),
        outcome matches ControllerTickOutcome::Executed(report) ==> {
            let decision = report.plan.outcome.decision;
            let writer = decision is PromoteToWriter || decision is KeepWriter;
            let n = report.failures@.len();
            &&& !writer ==> fence_refusal(outcome) == Some(
                "startup fence blocked writer startup: decision="@ + decision.shown(),
            )
            &&& writer && n > 0 ==> fence_refusal(outcome) == Some(
                "startup fence writer actions failed: "@ + text::decimal(n) + " failures"@,
            )
            &&& writer && n == 0 ==> fence_refusal(outcome) is None
        },
{
}

/// The debug text of a decision names it, with its generation or its reason.
pub proof fn law_decisions_are_shown(generation: u64, decision: ReconcileDecision)
    ensures
        ReconcileDecision::KeepReplica.shown() == "KeepReplica"@,
        ReconcileDecision::KeepWriter.shown() == "KeepWriter"@,
        (ReconcileDecision::PromoteToWriter { generation }).shown()
            == "PromoteToWriter { generation: "@ + text::decimal(generation as nat) + " }"@,
        decision matches ReconcileDecision::DemoteToReplica { reason } ==> decision.shown()
            == "DemoteToReplica { reason: "@ + reason.shown() + " }"@,
{
}

/// A node reads its lease, and writes its role and its log, where it was told to.
pub proof fn law_node_uses_its_places(node: HaNode, args: HaArgs)
    requires
        is_node(node, args),
    ensures
        node.reader matches AnyLeaseReader::File(f) ==> f.path() == args.lease_file->0@,
        node.reader matches AnyLeaseReader::Kubernetes(k) ==> k@.namespace == args.kube_namespace@
            && k@.lease_name == args.kube_lease_name->0@ && k@.kubectl_path == args.kubectl_path@
            && k@.kube_context == text::opt_view(args.kube_context) && k@.kubeconfig
            == text::opt_view(args.kubeconfig),
        node.executor.role_path() == args.role_state_file->0@,
        node.executor.audit_path() == args.audit_log_file->0@,
{
}

} // verus!
