//! The HA state of one node: its role, its writer generation, and what it last
//! saw of the lease and of its own freshness.
use vstd::prelude::*;

use crate::ha::policy;
use crate::ha::policy::{
    enforce_write_fence, validate_promotion, FreshnessLedger, LeaseRecord, NodeRole,
    PromotionConfig, PromotionRequest, PromotionViolation, WriteFenceViolation,
};

verus! {

/// Why a node was forced to demote out of writer mode.
#[derive(Debug, PartialEq, Eq)]
pub enum DemotionReason {
    LeaseMissing,
    FenceViolation(WriteFenceViolation),
}

impl Clone for DemotionReason {
    fn clone(&self) -> (r: DemotionReason)
        ensures
            r == *self,
    {
        match self {
            DemotionReason::LeaseMissing => DemotionReason::LeaseMissing,
            DemotionReason::FenceViolation(v) => DemotionReason::FenceViolation(v.clone()),
        }
    }
}

impl DemotionReason {
    /// The debug text of a reason.
    pub open spec fn shown(self) -> Seq<char> {
        match self {
            DemotionReason::LeaseMissing => "LeaseMissing"@,
            DemotionReason::FenceViolation(v) => "FenceViolation("@ + v.shown() + ")"@,
        }
    }

    /// The debug text of this reason.
    pub fn debug_text(&self) -> (r: String)
        ensures
            r@ == self.shown(),
    {
        match self {
            DemotionReason::LeaseMissing => "LeaseMissing".to_owned(),
            DemotionReason::FenceViolation(v) => {
                let mut s: String = "FenceViolation(".to_owned();
                s.append(v.debug_text().as_str());
                s.append(")");
                s
            },
        }
    }
}

/// Reconciliation output from HA state evaluation.
#[derive(Debug, Clone, PartialEq, Eq)]
pub enum ReconcileDecision {
    KeepReplica,
    PromoteToWriter { generation: u64 },
    KeepWriter,
    DemoteToReplica { reason: DemotionReason },
}

/// What changed about lease visibility for this node since last reconcile.
#[derive(Debug, Clone, PartialEq, Eq)]
pub enum LeaseObservation {
    Missing,
    Acquired(LeaseRecord),
    Renewed(LeaseRecord),
    Transferred { previous: LeaseRecord, current: LeaseRecord },
    Replaced(LeaseRecord),
    Unchanged(LeaseRecord),
}

/// Rich reconcile output for control-plane integrations.
#[derive(Debug, Clone, PartialEq, Eq)]
pub struct ReconcileOutcome {
    pub decision: ReconcileDecision,
    pub lease_observation: LeaseObservation,
    pub promotion_violation: Option<PromotionViolation>,
}

/// Concrete actions a controller should apply after a reconcile tick.
#[derive(Debug, PartialEq, Eq)]
pub enum HaAction {
    EnsureReplica,
    EnableWriter { generation: u64 },
    DisableWriter { reason: DemotionReason },
    KeepWriter,
    RecordPromotionDenied { violation: PromotionViolation },
}

impl Clone for HaAction {
    fn clone(&self) -> (r: HaAction)
        ensures
            r == *self,
    {
        match self {
            HaAction::EnsureReplica => HaAction::EnsureReplica,
            HaAction::EnableWriter { generation } => HaAction::EnableWriter {
                generation: *generation,
            },
            HaAction::DisableWriter { reason } => HaAction::DisableWriter {
                reason: reason.clone(),
            },
            HaAction::KeepWriter => HaAction::KeepWriter,
            HaAction::RecordPromotionDenied { violation } => HaAction::RecordPromotionDenied {
                violation: violation.clone(),
            },
        }
    }
}

/// Full controller plan for one reconcile tick.
#[derive(Debug, Clone, PartialEq, Eq)]
pub struct ControllerPlan {
    pub outcome: ReconcileOutcome,
    pub actions: Vec<HaAction>,
}

/// Two leases with the same content.
pub open spec fn same_lease(a: LeaseRecord, b: LeaseRecord) -> bool {
    &&& a.holder_node_id@ == b.holder_node_id@
    &&& a.generation == b.generation
    &&& a.renewed_at_secs == b.renewed_at_secs
    &&& a.ttl_secs == b.ttl_secs
}

/// What changed from one sight of the lease to the next.
pub open spec fn observation(
    previous: Option<LeaseRecord>,
    current: Option<LeaseRecord>,
) -> LeaseObservation {
    match (previous, current) {
        (_, None) => LeaseObservation::Missing,
        (None, Some(cur)) => LeaseObservation::Acquired(cur),
        (Some(prev), Some(cur)) => if same_lease(prev, cur) {
            LeaseObservation::Unchanged(cur)
        } else if prev.holder_node_id@ != cur.holder_node_id@ {
            LeaseObservation::Transferred { previous: prev, current: cur }
        } else if prev.generation == cur.generation {
            LeaseObservation::Renewed(cur)
        } else {
            LeaseObservation::Replaced(cur)
        },
    }
}

/// The state of an [`HaRuntime`].
#[verifier::ext_equal]
pub struct RuntimeView {
    pub node_id: Seq<char>,
    pub role: NodeRole,
    pub local_generation: u64,
    pub lease: Option<LeaseRecord>,
    pub freshness: Option<FreshnessLedger>,
}

/// What one reconciliation makes of a node's state, and what it reports.
///
/// - A writer stays one only where the write fence has no objection to the
///   lease; it is demoted otherwise.
/// - A replica becomes the writer only where the promotion policy has no
///   objection to the lease and the freshness record.
pub open spec fn reconciled(
    state: RuntimeView,
    now_secs: u64,
    lease: Option<LeaseRecord>,
    min_source_generation: u64,
    config: PromotionConfig,
) -> (RuntimeView, ReconcileOutcome) {
    let seen = observation(state.lease, lease);
    let kept = RuntimeView { lease, ..state };
    if state.role == NodeRole::Writer {
        let objection = match lease {
            None => Some(DemotionReason::LeaseMissing),
            Some(l) => match policy::fence_violation(
                now_secs,
                state.node_id,
                state.local_generation,
                l,
            ) {
                None => None,
                Some(v) => Some(DemotionReason::FenceViolation(v)),
            },
        };
        match objection {
            None => (
                kept,
                ReconcileOutcome {
                    decision: ReconcileDecision::KeepWriter,
                    lease_observation: seen,
                    promotion_violation: None,
                },
            ),
            Some(reason) => (
                RuntimeView { role: NodeRole::Replica, ..kept },
                ReconcileOutcome {
                    decision: ReconcileDecision::DemoteToReplica { reason },
                    lease_observation: seen,
                    promotion_violation: None,
                },
            ),
        }
    } else {
        match lease {
            None => (
                kept,
                ReconcileOutcome {
                    decision: ReconcileDecision::KeepReplica,
                    lease_observation: seen,
                    promotion_violation: None,
                },
            ),
            Some(l) => match policy::promotion_violation(
                now_secs,
                l,
                state.node_id,
                l.generation,
                min_source_generation,
                state.freshness,
                config,
            ) {
                None => (
                    RuntimeView {
                        role: NodeRole::Writer,
                        local_generation: l.generation,
                        ..kept
                    },
                    ReconcileOutcome {
                        decision: ReconcileDecision::PromoteToWriter { generation: l.generation },
                        lease_observation: seen,
                        promotion_violation: None,
                    },
                ),
                Some(v) => (
                    kept,
                    ReconcileOutcome {
                        decision: ReconcileDecision::KeepReplica,
                        lease_observation: seen,
                        promotion_violation: Some(v),
                    },
                ),
            },
        }
    }
}

/// The actions that follow from the outcome of a reconciliation.
pub open spec fn actions_for(outcome: ReconcileOutcome) -> Seq<HaAction> {
    match outcome.decision {
        ReconcileDecision::KeepReplica => match outcome.promotion_violation {
            None => seq![HaAction::EnsureReplica],
            Some(violation) => seq![
                HaAction::EnsureReplica,
                HaAction::RecordPromotionDenied { violation },
            ],
        },
        ReconcileDecision::PromoteToWriter { generation } => seq![
            HaAction::EnableWriter { generation },
        ],
        ReconcileDecision::KeepWriter => seq![HaAction::KeepWriter],
        ReconcileDecision::DemoteToReplica { reason } => seq![
            HaAction::DisableWriter { reason },
            HaAction::EnsureReplica,
        ],
    }
}

/// Stateful HA runtime helper used by control-plane integrations.
///
/// This type tracks local role, generation, latest lease, and latest freshness
/// record. Integrations should call [`HaRuntime::reconcile`] whenever lease
/// state changes or on periodic control ticks.
#[derive(Debug, Clone)]
pub struct HaRuntime {
    node_id: String,
    role: NodeRole,
    local_generation: u64,
    lease: Option<LeaseRecord>,
    freshness: Option<FreshnessLedger>,
}

impl View for HaRuntime {
    type V = RuntimeView;

    closed spec fn view(&self) -> RuntimeView {
        RuntimeView {
            node_id: self.node_id@,
            role: self.role,
            local_generation: self.local_generation,
            lease: self.lease,
            freshness: self.freshness,
        }
    }
}

impl HaRuntime {
    /// Create a new runtime for `node_id` starting in replica mode.
    pub fn new(node_id: &str) -> (r: HaRuntime)
        ensures
            r@ == (RuntimeView {
                node_id: node_id@,
                role: NodeRole::Replica,
                local_generation: 0,
                lease: None,
                freshness: None,
            }),
    {
        HaRuntime {
            node_id: node_id.to_owned(),
            role: NodeRole::Replica,
            local_generation: 0,
            lease: None,
            freshness: None,
        }
    }

    /// Return local node identity.
    pub fn node_id(&self) -> (r: &str)
        ensures
            r@ == self@.node_id,
    {
        self.node_id.as_str()
    }

    /// Return the current role.
    pub fn role(&self) -> (r: NodeRole)
        ensures
            r == self@.role,
    {
        self.role
    }

    /// Return local writer generation.
    pub fn local_generation(&self) -> (r: u64)
        ensures
            r == self@.local_generation,
    {
        self.local_generation
    }

    /// Return the last observed lease record, if any.
    pub fn lease(&self) -> (r: Option<&LeaseRecord>)
        ensures
            policy::deref_option(r) == self@.lease,
    {
        self.lease.as_ref()
    }

    /// Return the last observed freshness metadata, if any.
    pub fn freshness(&self) -> (r: Option<&FreshnessLedger>)
        ensures
            policy::deref_option(r) == self@.freshness,
    {
        self.freshness.as_ref()
    }

    /// Replace last observed freshness metadata.
    pub fn update_freshness(&mut self, freshness: FreshnessLedger)
        ensures
            final(self)@ == (RuntimeView { freshness: Some(freshness), ..old(self)@ }),
    {
        self.freshness = Some(freshness);
    }

    /// Clear freshness metadata (for example on local data reset).
    pub fn clear_freshness(&mut self)
        ensures
            final(self)@ == (RuntimeView { freshness: None, ..old(self)@ }),
    {
        self.freshness = None;
    }

    /// What changed from one sight of the lease to the next.
    pub fn observe_lease_change(
        previous: Option<&LeaseRecord>,
        current: Option<&LeaseRecord>,
    ) -> (r: LeaseObservation)
        ensures
            r == observation(policy::deref_option(previous), policy::deref_option(current)),
    {
        let cur: &LeaseRecord = match current {
            None => {
                return LeaseObservation::Missing;
            },
            Some(cur) => cur,
        };
        let prev: &LeaseRecord = match previous {
            None => {
                return LeaseObservation::Acquired(cur.clone());
            },
            Some(prev) => prev,
        };
        if prev.holder_node_id != cur.holder_node_id {
            return LeaseObservation::Transferred { previous: prev.clone(), current: cur.clone() };
        }
        if prev.generation != cur.generation {
            return LeaseObservation::Replaced(cur.clone());
        }
        if prev.renewed_at_secs == cur.renewed_at_secs && prev.ttl_secs == cur.ttl_secs {
            LeaseObservation::Unchanged(cur.clone())
        } else {
            LeaseObservation::Renewed(cur.clone())
        }
    }

    /// Reconcile and also return structured observations for controllers.
    pub fn reconcile_with_outcome(
        &mut self,
        now_secs: u64,
        lease: Option<LeaseRecord>,
        min_source_generation: u64,
        config: &PromotionConfig,
    ) -> (r: ReconcileOutcome)
        ensures
            (final(self)@, r) == reconciled(
                old(self)@,
                now_secs,
                lease,
                min_source_generation,
                *config,
            ),
    {
        let lease_observation: LeaseObservation = HaRuntime::observe_lease_change(
            self.lease.as_ref(),
            lease.as_ref(),
        );
        self.lease = lease;
        if self.role == NodeRole::Writer {
            let violation: Option<DemotionReason> = match &self.lease {
                None => Some(DemotionReason::LeaseMissing),
                Some(current_lease) => match enforce_write_fence(
                    now_secs,
                    self.node_id.as_str(),
                    self.local_generation,
                    current_lease,
                ) {
                    Ok(()) => None,
                    Err(v) => Some(DemotionReason::FenceViolation(v)),
                },
            };
            match violation {
                None => ReconcileOutcome {
                    decision: ReconcileDecision::KeepWriter,
                    lease_observation,
                    promotion_violation: None,
                },
                Some(reason) => {
                    self.role = NodeRole::Replica;
                    ReconcileOutcome {
                        decision: ReconcileDecision::DemoteToReplica { reason },
                        lease_observation,
                        promotion_violation: None,
                    }
                },
            }
        } else {
            let (generation, verdict): (u64, Result<(), PromotionViolation>) = match &self.lease {
                None => {
                    return ReconcileOutcome {
                        decision: ReconcileDecision::KeepReplica,
                        lease_observation,
                        promotion_violation: None,
                    };
                },
                Some(current_lease) => {
                    let request: PromotionRequest = PromotionRequest {
                        candidate_node_id: self.node_id.clone(),
                        target_generation: current_lease.generation,
                        min_source_generation,
                    };
                    (
                        current_lease.generation,
                        validate_promotion(
                            now_secs,
                            current_lease,
                            &request,
                            self.freshness.as_ref(),
                            config,
                        ),
                    )
                },
            };
            match verdict {
                Ok(()) => {
                    self.role = NodeRole::Writer;
                    self.local_generation = generation;
                    ReconcileOutcome {
                        decision: ReconcileDecision::PromoteToWriter { generation },
                        lease_observation,
                        promotion_violation: None,
                    }
                },
                Err(violation) => ReconcileOutcome {
                    decision: ReconcileDecision::KeepReplica,
                    lease_observation,
                    promotion_violation: Some(violation),
                },
            }
        }
    }

    /// Reconcile local state against latest lease and freshness constraints.
    ///
    /// - If currently writer, this enforces fencing and may demote.
    /// - If currently replica, this evaluates whether promotion is allowed.
    pub fn reconcile(
        &mut self,
        now_secs: u64,
        lease: Option<LeaseRecord>,
        min_source_generation: u64,
        config: &PromotionConfig,
    ) -> (r: ReconcileDecision)
        ensures
            final(self)@ == reconciled(
                old(self)@,
                now_secs,
                lease,
                min_source_generation,
                *config,
            ).0,
            r == reconciled(
                old(self)@,
                now_secs,
                lease,
                min_source_generation,
                *config,
            ).1.decision,
    {
        self.reconcile_with_outcome(now_secs, lease, min_source_generation, config).decision
    }

    /// Produce a controller-ready action plan from one reconcile tick.
    pub fn plan_actions(
        &mut self,
        now_secs: u64,
        lease: Option<LeaseRecord>,
        min_source_generation: u64,
        config: &PromotionConfig,
    ) -> (r: ControllerPlan)
        ensures
            (final(self)@, r.outcome) == reconciled(
                old(self)@,
                now_secs,
                lease,
                min_source_generation,
                *config,
            ),
            r.actions@ == actions_for(r.outcome),
    {
        let outcome: ReconcileOutcome = self.reconcile_with_outcome(
            now_secs,
            lease,
            min_source_generation,
            config,
        );
        let mut actions: Vec<HaAction> = Vec::new();
        match &outcome.decision {
            ReconcileDecision::KeepReplica => {
                actions.push(HaAction::EnsureReplica);
                match &outcome.promotion_violation {
                    None => {},
                    Some(violation) => {
                        actions.push(
                            HaAction::RecordPromotionDenied { violation: violation.clone() },
                        );
                    },
                }
            },
            ReconcileDecision::PromoteToWriter { generation } => {
                actions.push(HaAction::EnableWriter { generation: *generation });
            },
            ReconcileDecision::KeepWriter => {
                actions.push(HaAction::KeepWriter);
            },
            ReconcileDecision::DemoteToReplica { reason } => {
                actions.push(HaAction::DisableWriter { reason: reason.clone() });
                actions.push(HaAction::EnsureReplica);
            },
        }
        assert(actions@ == actions_for(outcome));
        ControllerPlan { outcome, actions }
    }
}

/// Shared HA cluster state synchronized between the HA control loop and the
/// gateway.
#[derive(Debug, Clone)]
pub struct HaSharedState {
    pub node_id: String,
    pub role: NodeRole,
    pub generation: u64,
    pub active_leader_id: Option<String>,
    pub active_leader_endpoint: Option<String>,
    pub lease_record: Option<LeaseRecord>,
    pub allow_replica_reads: bool,
}

impl HaSharedState {
    /// The state lets this node write at `now_secs`: it is in writer mode and
    /// its lease passes the write fence.
    pub open spec fn writes_at(self, now_secs: u64) -> bool {
        &&& self.role == NodeRole::Writer
        &&& self.lease_record matches Some(lease) && policy::fence_violation(
            now_secs,
            self.node_id@,
            self.generation,
            lease,
        ) is None
    }

    /// The state of a replica that has not seen a lease yet.
    pub fn new(node_id: &str, allow_replica_reads: bool) -> (r: HaSharedState)
        ensures
            r.node_id@ == node_id@,
            r.role == NodeRole::Replica,
            r.generation == 0,
            r.active_leader_id is None,
            r.active_leader_endpoint is None,
            r.lease_record is None,
            r.allow_replica_reads == allow_replica_reads,
    {
        HaSharedState {
            node_id: node_id.to_owned(),
            role: NodeRole::Replica,
            generation: 0,
            active_leader_id: None,
            active_leader_endpoint: None,
            lease_record: None,
            allow_replica_reads,
        }
    }

    /// Whether this node may write at `now_secs`.
    pub fn is_writer(&self, now_secs: u64) -> (r: bool)
        ensures
            r == self.writes_at(now_secs),
    {
        if self.role != NodeRole::Writer {
            return false;
        }
        match &self.lease_record {
            None => false,
            Some(lease) => enforce_write_fence(
                now_secs,
                self.node_id.as_str(),
                self.generation,
                lease,
            ).is_ok(),
        }
    }
}

// ---------------------------------------------------------------------------
// Laws
// ---------------------------------------------------------------------------

/// A node is in writer mode after a reconciliation only where it holds the
/// lease that it was shown: the lease is valid, names the node, and has the
/// node's generation.
pub proof fn law_writer_holds_the_lease(
    state: RuntimeView,
    now_secs: u64,
    lease: Option<LeaseRecord>,
    min_source_generation: u64,
    config: PromotionConfig,
)
    ensures
        ({
            let after = reconciled(state, now_secs, lease, min_source_generation, config).0;
            after.role == NodeRole::Writer ==> lease is Some && policy::fence_violation(
                now_secs,
                after.node_id,
                after.local_generation,
                lease->0,
            ) is None
        }),
{
}

/// Single writer: of two nodes with different identities that reconcile with
/// the same lease, at most one is in writer mode afterwards.
pub proof fn law_single_writer(
    a: RuntimeView,
    b: RuntimeView,
    now_a: u64,
    now_b: u64,
    lease: Option<LeaseRecord>,
    min_a: u64,
    min_b: u64,
    config_a: PromotionConfig,
    config_b: PromotionConfig,
)
    requires
        a.node_id != b.node_id,
    ensures
        !(reconciled(a, now_a, lease, min_a, config_a).0.role == NodeRole::Writer && reconciled(
            b,
            now_b,
            lease,
            min_b,
            config_b,
        ).0.role == NodeRole::Writer),
{
}

/// A node that is shown no lease is a replica afterwards, whatever it was.
pub proof fn law_no_lease_no_writer(
    state: RuntimeView,
    now_secs: u64,
    min_source_generation: u64,
    config: PromotionConfig,
)
    ensures
        reconciled(state, now_secs, None, min_source_generation, config).0.role
            == NodeRole::Replica,
{
}

/// The decision and the role agree: a node is in writer mode after a
/// reconciliation exactly where the decision was to promote it or to keep it as
/// the writer, and only a promotion changes its generation.
pub proof fn law_decision_matches_role(
    state: RuntimeView,
    now_secs: u64,
    lease: Option<LeaseRecord>,
    min_source_generation: u64,
    config: PromotionConfig,
)
    ensures
        ({
            let (after, outcome) = reconciled(
                state,
                now_secs,
                lease,
                min_source_generation,
                config,
            );
            &&& after.role == NodeRole::Writer <==> (outcome.decision is PromoteToWriter
                || outcome.decision is KeepWriter)
            &&& outcome.decision is PromoteToWriter ==> state.role == NodeRole::Replica
            &&& outcome.decision is KeepWriter ==> state.role == NodeRole::Writer
            &&& outcome.decision is DemoteToReplica ==> state.role == NodeRole::Writer
            &&& outcome.decision is KeepReplica ==> state.role == NodeRole::Replica
            &&& match outcome.decision {
                ReconcileDecision::PromoteToWriter { generation } => after.local_generation
                    == generation && lease is Some && lease->0.generation == generation,
                _ => after.local_generation == state.local_generation,
            }
            &&& after.node_id == state.node_id
            &&& after.freshness == state.freshness
            &&& after.lease == lease
        }),
{
}

/// A replica is promoted only with fresh data: it was synchronized within the
/// allowed age, not from beyond the allowed clock skew, and from a generation
/// that is recent enough.
pub proof fn law_promotion_needs_fresh_data(
    state: RuntimeView,
    now_secs: u64,
    lease: Option<LeaseRecord>,
    min_source_generation: u64,
    config: PromotionConfig,
)
    requires
        reconciled(
            state,
            now_secs,
            lease,
            min_source_generation,
            config,
        ).1.decision is PromoteToWriter,
    ensures
        state.freshness matches Some(f) && f.source_generation >= min_source_generation
            && f.synced_at_secs <= now_secs + config.max_future_skew_secs && now_secs
            - f.synced_at_secs <= config.max_freshness_age_secs,
{
}

/// Showing a writer the same valid lease again changes nothing.
pub proof fn law_reconcile_is_stable(
    state: RuntimeView,
    now_secs: u64,
    lease: Option<LeaseRecord>,
    min_source_generation: u64,
    config: PromotionConfig,
)
    ensures
        ({
            let once = reconciled(state, now_secs, lease, min_source_generation, config).0;
            once.role == NodeRole::Writer ==> ({
                let (twice, outcome) = reconciled(
                    once,
                    now_secs,
                    lease,
                    min_source_generation,
                    config,
                );
                twice == once && outcome.decision is KeepWriter
                    && outcome.lease_observation is Unchanged
            })
        }),
{
}

/// The plan follows the role: it enables or keeps the writer exactly where the
/// node is in writer mode afterwards, and ensures replica mode exactly where it
/// is not.
pub proof fn law_plan_matches_role(
    state: RuntimeView,
    now_secs: u64,
    lease: Option<LeaseRecord>,
    min_source_generation: u64,
    config: PromotionConfig,
)
    ensures
        ({
            let (after, outcome) = reconciled(
                state,
                now_secs,
                lease,
                min_source_generation,
                config,
            );
            let actions = actions_for(outcome);
            &&& after.role == NodeRole::Writer <==> (actions.len() == 1 && (actions[0] is EnableWriter
                || actions[0] is KeepWriter))
            &&& after.role == NodeRole::Replica <==> actions.contains(HaAction::EnsureReplica)
        }),
{
    let (after, outcome) = reconciled(state, now_secs, lease, min_source_generation, config);
    let actions = actions_for(outcome);
    match outcome.decision {
        ReconcileDecision::KeepReplica => {
            assert(actions[0] == HaAction::EnsureReplica);
        },
        ReconcileDecision::DemoteToReplica { .. } => {
            assert(actions[1] == HaAction::EnsureReplica);
        },
        _ => {},
    }
}

/// Promotion is owed: a replica that holds the lease that it is shown, and has data
/// that is fresh enough, becomes the writer with the generation of the lease,
/// whatever it was before.
pub proof fn law_fresh_holder_is_promoted(
    state: RuntimeView,
    now_secs: u64,
    lease: LeaseRecord,
    freshness: FreshnessLedger,
    min_source_generation: u64,
    config: PromotionConfig,
)
    requires
        state.role == NodeRole::Replica,
        state.freshness == Some(freshness),
        now_secs <= lease.renewed_at_secs + lease.ttl_secs,
        lease.holder_node_id@ == state.node_id,
        freshness.synced_at_secs <= now_secs + config.max_future_skew_secs,
        now_secs - freshness.synced_at_secs <= config.max_freshness_age_secs,
        freshness.source_generation >= min_source_generation,
    ensures
        ({
            let (after, outcome) = reconciled(
                state,
                now_secs,
                Some(lease),
                min_source_generation,
                config,
            );
            &&& outcome.decision == ReconcileDecision::PromoteToWriter {
                generation: lease.generation,
            }
            &&& outcome.promotion_violation is None
            &&& after.role == NodeRole::Writer
            &&& after.local_generation == lease.generation
        }),
{
}

/// A replica that stays one is told why wherever it was shown a lease, and nothing
/// else is ever told a reason.
pub proof fn law_refused_promotion_has_a_reason(
    state: RuntimeView,
    now_secs: u64,
    lease: Option<LeaseRecord>,
    min_source_generation: u64,
    config: PromotionConfig,
)
    ensures
        ({
            let outcome = reconciled(
                state,
                now_secs,
                lease,
                min_source_generation,
                config,
            ).1;
            outcome.promotion_violation is Some <==> (outcome.decision is KeepReplica && lease is Some)
        }),
{
}

/// A writer stays one exactly as long as the lease that it is shown lasts, names it
/// and has its generation; else it is demoted, and told why.
pub proof fn law_writer_stays_exactly_with_its_lease(
    state: RuntimeView,
    now_secs: u64,
    lease: Option<LeaseRecord>,
    min_source_generation: u64,
    config: PromotionConfig,
)
    requires
        state.role == NodeRole::Writer,
    ensures
        ({
            let (after, outcome) = reconciled(
                state,
                now_secs,
                lease,
                min_source_generation,
                config,
            );
            let holds = lease matches Some(l) && now_secs <= l.renewed_at_secs + l.ttl_secs
                && l.holder_node_id@ == state.node_id && l.generation == state.local_generation;
            &&& holds <==> outcome.decision == ReconcileDecision::KeepWriter
            &&& holds <==> after.role == NodeRole::Writer
            &&& match outcome.decision {
                ReconcileDecision::DemoteToReplica { reason } => match reason {
                    DemotionReason::LeaseMissing => lease is None,
                    DemotionReason::FenceViolation(v) => lease matches Some(l) && match v {
                        WriteFenceViolation::LeaseExpired => now_secs > l.renewed_at_secs
                            + l.ttl_secs,
                        WriteFenceViolation::NotLeaseHolder { holder_node_id } => holder_node_id
                            == l.holder_node_id && holder_node_id@ != state.node_id,
                        WriteFenceViolation::GenerationMismatch { local, lease: leased } => local
                            != leased && local == state.local_generation && leased == l.generation,
                    },
                },
                decision => decision == ReconcileDecision::KeepWriter,
            }
        }),
{
}

/// What is observed of the lease tells whether there is one, whether there was one,
/// and what of it changed: the holder before the generation, and that before the
/// times.
pub proof fn law_observation_tells_what_changed(
    previous: Option<LeaseRecord>,
    current: Option<LeaseRecord>,
)
    ensures
        match observation(previous, current) {
            LeaseObservation::Missing => current is None,
            LeaseObservation::Acquired(lease) => previous is None && current == Some(lease),
            LeaseObservation::Transferred { previous: from, current: to } => previous == Some(from)
                && current == Some(to) && from.holder_node_id@ != to.holder_node_id@,
            LeaseObservation::Replaced(lease) => current == Some(lease) && (previous matches Some(
                was,
            ) && was.holder_node_id@ == lease.holder_node_id@ && was.generation
                != lease.generation),
            LeaseObservation::Renewed(lease) => current == Some(lease) && (previous matches Some(
                was,
            ) && was.holder_node_id@ == lease.holder_node_id@ && was.generation
                == lease.generation && (was.renewed_at_secs != lease.renewed_at_secs
                || was.ttl_secs != lease.ttl_secs)),
            LeaseObservation::Unchanged(lease) => current == Some(lease) && (previous matches Some(
                was,
            ) && was.holder_node_id@ == lease.holder_node_id@ && was.generation
                == lease.generation && was.renewed_at_secs == lease.renewed_at_secs && was.ttl_secs
                == lease.ttl_secs),
        },
{
}

/// A reconciliation observes the lease that it is shown against the one of the
/// reconciliation before.
pub proof fn law_observations_follow_each_other(
    state: RuntimeView,
    first: Option<LeaseRecord>,
    second: Option<LeaseRecord>,
    now_first: u64,
    now_second: u64,
    min_source_generation: u64,
    config: PromotionConfig,
)
    ensures
        ({
            let between = reconciled(state, now_first, first, min_source_generation, config).0;
            reconciled(
                between,
                now_second,
                second,
                min_source_generation,
                config,
            ).1.lease_observation == observation(first, second)
        }),
{
}

/// The plan of a reconciliation: to enable the writer with the generation of the
/// lease exactly on a promotion, to disable it first exactly on a demotion, for the
/// reason of that demotion, and to record exactly a refused promotion.
pub proof fn law_plan_carries_out_the_decision(
    state: RuntimeView,
    now_secs: u64,
    lease: Option<LeaseRecord>,
    min_source_generation: u64,
    config: PromotionConfig,
)
    ensures
        ({
            let (after, outcome) = reconciled(
                state,
                now_secs,
                lease,
                min_source_generation,
                config,
            );
            let actions = actions_for(outcome);
            let was_writer = state.role == NodeRole::Writer;
            let is_writer = after.role == NodeRole::Writer;
            &&& !was_writer && is_writer ==> lease is Some && actions == seq![
                HaAction::EnableWriter { generation: lease->0.generation },
            ]
            &&& was_writer && is_writer ==> actions == seq![HaAction::KeepWriter]
            &&& was_writer && !is_writer ==> actions.len() == 2 && actions[1]
                == HaAction::EnsureReplica && outcome.decision is DemoteToReplica && actions[0]
                == (HaAction::DisableWriter { reason: outcome.decision->reason })
            &&& !was_writer && !is_writer ==> match outcome.promotion_violation {
                None => actions == seq![HaAction::EnsureReplica],
                Some(violation) => actions == seq![
                    HaAction::EnsureReplica,
                    HaAction::RecordPromotionDenied { violation },
                ],
            }
        }),
{
}

/// A node may write exactly if it is in writer mode and the lease that it knows of
/// lasts, names it and has its generation.
pub proof fn law_node_writes_with_its_lease(state: HaSharedState, now_secs: u64)
    ensures
        state.writes_at(now_secs) <==> {
            &&& state.role == NodeRole::Writer
            &&& state.lease_record matches Some(lease)
            &&& now_secs <= lease.renewed_at_secs + lease.ttl_secs
            &&& lease.holder_node_id@ == state.node_id@
            &&& lease.generation == state.generation
        },
{
}

/// A reconciliation takes in the lease that it is shown and leaves the name and the
/// freshness of the node as they are; the generation changes only with a promotion.
pub proof fn law_reconciling_leaves_the_rest(
    state: RuntimeView,
    now_secs: u64,
    lease: Option<LeaseRecord>,
    min_source_generation: u64,
    config: PromotionConfig,
)
    ensures
        ({
            let (after, outcome) = reconciled(
                state,
                now_secs,
                lease,
                min_source_generation,
                config,
            );
            &&& after.node_id == state.node_id
            &&& after.freshness == state.freshness
            &&& after.lease == lease
            &&& !(outcome.decision is PromoteToWriter) ==> after.local_generation
                == state.local_generation
            &&& after.role != state.role <==> outcome.decision is PromoteToWriter
                || outcome.decision is DemoteToReplica
        }),
{
}

/// The debug text of a reason for a demotion is that of the objection.
pub proof fn law_demotions_are_shown(v: WriteFenceViolation)
    ensures
        DemotionReason::LeaseMissing.shown() == "LeaseMissing"@,
        DemotionReason::FenceViolation(v).shown() == "FenceViolation("@ + v.shown() + ")"@,
{
}

} // verus!
