use std::collections::VecDeque;

use rsqlite_rsync::ha::{
    enforce_write_fence, execute_controller_plan, parse_freshness_ledger,
    parse_kubernetes_lease_json, parse_lease_record, serialize_lease_record, validate_promotion,
    ControllerPlan, ControllerTickOutcome, DemotionReason, FileActionExecutor, FileLeaseReader,
    FreshnessLedger, HaAction, HaActionExecutor, HaController, HaRuntime, HaSharedState,
    KubectlLeaseReader, KubectlOutput, LeaseObservation, LeaseReader, LeaseRecord, NodeRole,
    PromotionConfig, PromotionRequest, PromotionViolation, ReconcileDecision, ReconcileOutcome,
    TracingExecutor, WriteFenceViolation,
};

#[derive(Default)]
struct MockExecutor {
    calls: Vec<String>,
    fail_on_call: Option<usize>,
}

impl MockExecutor {
    fn with_fail_on_call(fail_on_call: usize) -> Self {
        Self {
            calls: Vec::new(),
            fail_on_call: Some(fail_on_call),
        }
    }

    fn should_fail(&self) -> bool {
        self.fail_on_call
            .is_some_and(|target| self.calls.len() == target)
    }
}

impl HaActionExecutor for MockExecutor {
    type Error = &'static str;

    fn ensure_replica(&mut self) -> Result<(), Self::Error> {
        if self.should_fail() {
            return Err("ensure failed");
        }
        self.calls.push("ensure_replica".to_owned());
        Ok(())
    }

    fn enable_writer(&mut self, generation: u64) -> Result<(), Self::Error> {
        if self.should_fail() {
            return Err("enable failed");
        }
        self.calls.push(format!("enable_writer:{generation}"));
        Ok(())
    }

    fn disable_writer(&mut self, reason: &DemotionReason) -> Result<(), Self::Error> {
        if self.should_fail() {
            return Err("disable failed");
        }
        self.calls.push(format!("disable_writer:{reason:?}"));
        Ok(())
    }

    fn keep_writer(&mut self) -> Result<(), Self::Error> {
        if self.should_fail() {
            return Err("keep failed");
        }
        self.calls.push("keep_writer".to_owned());
        Ok(())
    }

    fn record_promotion_denied(
        &mut self,
        violation: &PromotionViolation,
    ) -> Result<(), Self::Error> {
        if self.should_fail() {
            return Err("record denied failed");
        }
        self.calls.push(format!("record_denied:{violation:?}"));
        Ok(())
    }
}

struct MockLeaseReader {
    replies: VecDeque<Result<Option<LeaseRecord>, &'static str>>,
}

impl MockLeaseReader {
    fn new(replies: Vec<Result<Option<LeaseRecord>, &'static str>>) -> Self {
        Self {
            replies: replies.into(),
        }
    }
}

impl LeaseReader for MockLeaseReader {
    type Error = &'static str;

    fn read_lease(&mut self) -> Result<Option<LeaseRecord>, Self::Error> {
        self.replies.pop_front().unwrap_or(Err("no lease reply"))
    }
}

fn lease(holder: &str, generation: u64, renewed_at_secs: u64, ttl_secs: u64) -> LeaseRecord {
    LeaseRecord {
        holder_node_id: holder.to_owned(),
        generation,
        renewed_at_secs,
        ttl_secs,
    }
}

fn request(
    candidate: &str,
    target_generation: u64,
    min_source_generation: u64,
) -> PromotionRequest {
    PromotionRequest {
        candidate_node_id: candidate.to_owned(),
        target_generation,
        min_source_generation,
    }
}

fn freshness(source_generation: u64, synced_at_secs: u64) -> FreshnessLedger {
    FreshnessLedger {
        source_node_id: "node-a".to_owned(),
        source_generation,
        synced_at_secs,
    }
}

#[test]
fn lease_is_not_expired_at_exact_boundary() {
    let l = lease("node-a", 7, 100, 10);
    assert!(!l.is_expired(110));
}

#[test]
fn lease_expires_after_boundary() {
    let l = lease("node-a", 7, 100, 10);
    assert!(l.is_expired(111));
}

#[test]
fn write_fence_allows_valid_owner_and_generation() {
    let l = lease("node-a", 9, 100, 10);
    let result = enforce_write_fence(108, "node-a", 9, &l);
    assert_eq!(result, Ok(()));
}

#[test]
fn write_fence_rejects_expired_lease() {
    let l = lease("node-a", 9, 100, 10);
    let result = enforce_write_fence(200, "node-a", 9, &l);
    assert_eq!(result, Err(WriteFenceViolation::LeaseExpired));
}

#[test]
fn write_fence_rejects_wrong_holder() {
    let l = lease("node-a", 9, 100, 10);
    let result = enforce_write_fence(108, "node-b", 9, &l);
    assert_eq!(
        result,
        Err(WriteFenceViolation::NotLeaseHolder {
            holder_node_id: "node-a".to_owned(),
        })
    );
}

#[test]
fn write_fence_rejects_generation_mismatch() {
    let l = lease("node-a", 10, 100, 10);
    let result = enforce_write_fence(108, "node-a", 9, &l);
    assert_eq!(
        result,
        Err(WriteFenceViolation::GenerationMismatch {
            local: 9,
            lease: 10,
        })
    );
}

#[test]
fn promotion_allows_when_all_constraints_hold() {
    let l = lease("node-b", 12, 200, 20);
    let req = request("node-b", 12, 11);
    let f = freshness(12, 215);
    let cfg = PromotionConfig {
        max_freshness_age_secs: 10,
        max_future_skew_secs: 2,
    };

    let result = validate_promotion(220, &l, &req, Some(&f), &cfg);
    assert_eq!(result, Ok(()));
}

#[test]
fn promotion_rejects_without_freshness() {
    let l = lease("node-b", 12, 200, 20);
    let req = request("node-b", 12, 11);
    let cfg = PromotionConfig::default();

    let result = validate_promotion(220, &l, &req, None, &cfg);
    assert_eq!(result, Err(PromotionViolation::MissingFreshness));
}

#[test]
fn promotion_rejects_non_holder() {
    let l = lease("node-a", 12, 200, 20);
    let req = request("node-b", 12, 11);
    let f = freshness(12, 218);
    let cfg = PromotionConfig::default();

    let result = validate_promotion(220, &l, &req, Some(&f), &cfg);
    assert_eq!(
        result,
        Err(PromotionViolation::NotLeaseHolder {
            holder_node_id: "node-a".to_owned(),
        })
    );
}

#[test]
fn promotion_rejects_target_generation_mismatch() {
    let l = lease("node-b", 12, 200, 20);
    let req = request("node-b", 13, 11);
    let f = freshness(12, 218);
    let cfg = PromotionConfig::default();

    let result = validate_promotion(220, &l, &req, Some(&f), &cfg);
    assert_eq!(
        result,
        Err(PromotionViolation::TargetGenerationMismatch {
            target: 13,
            lease: 12,
        })
    );
}

#[test]
fn promotion_rejects_expired_lease() {
    let l = lease("node-b", 12, 200, 5);
    let req = request("node-b", 12, 11);
    let f = freshness(12, 203);
    let cfg = PromotionConfig::default();

    let result = validate_promotion(300, &l, &req, Some(&f), &cfg);
    assert_eq!(result, Err(PromotionViolation::LeaseExpired));
}

#[test]
fn promotion_rejects_future_freshness_beyond_skew() {
    let l = lease("node-b", 12, 200, 20);
    let req = request("node-b", 12, 11);
    let f = freshness(12, 230);
    let cfg = PromotionConfig {
        max_freshness_age_secs: 10,
        max_future_skew_secs: 2,
    };

    let result = validate_promotion(220, &l, &req, Some(&f), &cfg);
    assert_eq!(
        result,
        Err(PromotionViolation::FreshnessFromFuture {
            synced_at_secs: 230,
            now_secs: 220,
            max_future_skew_secs: 2,
        })
    );
}

#[test]
fn promotion_rejects_stale_freshness() {
    let l = lease("node-b", 12, 200, 20);
    let req = request("node-b", 12, 11);
    let f = freshness(12, 190);
    let cfg = PromotionConfig {
        max_freshness_age_secs: 10,
        max_future_skew_secs: 2,
    };

    let result = validate_promotion(220, &l, &req, Some(&f), &cfg);
    assert_eq!(
        result,
        Err(PromotionViolation::StaleFreshness {
            age_secs: 30,
            max_freshness_age_secs: 10,
        })
    );
}

#[test]
fn promotion_rejects_lineage_too_old() {
    let l = lease("node-b", 12, 200, 20);
    let req = request("node-b", 12, 15);
    let f = freshness(14, 219);
    let cfg = PromotionConfig::default();

    let result = validate_promotion(220, &l, &req, Some(&f), &cfg);
    assert_eq!(
        result,
        Err(PromotionViolation::LineageTooOld {
            observed: 14,
            min_required: 15,
        })
    );
}

#[test]
fn ha_parse_freshness_ledger_accepts_valid_input() {
    let parsed = parse_freshness_ledger(
        "source_node_id=node-a\nsource_generation=9\nsynced_at_secs=123\n",
    )
    .expect("freshness should parse");

    assert_eq!(parsed.source_node_id, "node-a");
    assert_eq!(parsed.source_generation, 9);
    assert_eq!(parsed.synced_at_secs, 123);
}

#[test]
fn ha_parse_freshness_ledger_rejects_missing_fields() {
    let err = parse_freshness_ledger("source_node_id=node-a\nsynced_at_secs=123\n")
        .expect_err("freshness should fail");
    assert!(err.contains("missing source_generation"));
}

#[test]
fn parse_freshness_ledger_rejects_unknown_key() {
    let err = parse_freshness_ledger("bogus=1\n").expect_err("freshness should fail");
    assert!(err.contains("unknown freshness key: bogus"));
}

#[test]
fn runtime_stays_replica_without_lease() {
    let mut runtime = HaRuntime::new("node-a");
    let cfg = PromotionConfig::default();

    let decision = runtime.reconcile(100, None, 0, &cfg);
    assert_eq!(decision, ReconcileDecision::KeepReplica);
    assert_eq!(runtime.role(), NodeRole::Replica);
}

#[test]
fn runtime_promotes_with_valid_lease_and_freshness() {
    let mut runtime = HaRuntime::new("node-a");
    runtime.update_freshness(freshness(7, 95));
    let cfg = PromotionConfig {
        max_freshness_age_secs: 10,
        max_future_skew_secs: 2,
    };

    let decision = runtime.reconcile(100, Some(lease("node-a", 7, 98, 10)), 7, &cfg);
    assert_eq!(
        decision,
        ReconcileDecision::PromoteToWriter { generation: 7 }
    );
    assert_eq!(runtime.role(), NodeRole::Writer);
    assert_eq!(runtime.local_generation(), 7);
}

#[test]
fn runtime_rejects_promotion_when_freshness_is_stale() {
    let mut runtime = HaRuntime::new("node-a");
    runtime.update_freshness(freshness(7, 70));
    let cfg = PromotionConfig {
        max_freshness_age_secs: 10,
        max_future_skew_secs: 2,
    };

    let decision = runtime.reconcile(100, Some(lease("node-a", 7, 98, 10)), 7, &cfg);
    assert_eq!(decision, ReconcileDecision::KeepReplica);
    assert_eq!(runtime.role(), NodeRole::Replica);
}

#[test]
fn runtime_demotes_writer_on_lease_loss() {
    let mut runtime = HaRuntime::new("node-a");
    runtime.update_freshness(freshness(7, 95));
    let cfg = PromotionConfig::default();

    let promoted = runtime.reconcile(100, Some(lease("node-a", 7, 99, 10)), 7, &cfg);
    assert!(matches!(
        promoted,
        ReconcileDecision::PromoteToWriter { generation: 7 }
    ));

    let demoted = runtime.reconcile(101, None, 7, &cfg);
    assert_eq!(
        demoted,
        ReconcileDecision::DemoteToReplica {
            reason: DemotionReason::LeaseMissing,
        }
    );
    assert_eq!(runtime.role(), NodeRole::Replica);
}

#[test]
fn runtime_demotes_writer_when_lease_stolen() {
    let mut runtime = HaRuntime::new("node-a");
    runtime.update_freshness(freshness(8, 95));
    let cfg = PromotionConfig::default();

    let promoted = runtime.reconcile(100, Some(lease("node-a", 8, 99, 10)), 8, &cfg);
    assert!(matches!(
        promoted,
        ReconcileDecision::PromoteToWriter { generation: 8 }
    ));

    let demoted = runtime.reconcile(101, Some(lease("node-b", 8, 100, 10)), 8, &cfg);
    assert_eq!(
        demoted,
        ReconcileDecision::DemoteToReplica {
            reason: DemotionReason::FenceViolation(WriteFenceViolation::NotLeaseHolder {
                holder_node_id: "node-b".to_owned(),
            }),
        }
    );
    assert_eq!(runtime.role(), NodeRole::Replica);
}

#[test]
fn runtime_keeps_writer_when_fence_still_valid() {
    let mut runtime = HaRuntime::new("node-a");
    runtime.update_freshness(freshness(9, 95));
    let cfg = PromotionConfig::default();

    let promoted = runtime.reconcile(100, Some(lease("node-a", 9, 99, 10)), 9, &cfg);
    assert!(matches!(
        promoted,
        ReconcileDecision::PromoteToWriter { generation: 9 }
    ));

    let keep = runtime.reconcile(104, Some(lease("node-a", 9, 103, 10)), 9, &cfg);
    assert_eq!(keep, ReconcileDecision::KeepWriter);
    assert_eq!(runtime.role(), NodeRole::Writer);
}

#[test]
fn outcome_reports_promotion_violation() {
    let mut runtime = HaRuntime::new("node-a");
    runtime.update_freshness(freshness(7, 70));
    let cfg = PromotionConfig {
        max_freshness_age_secs: 10,
        max_future_skew_secs: 2,
    };

    let outcome =
        runtime.reconcile_with_outcome(100, Some(lease("node-a", 7, 98, 10)), 7, &cfg);

    assert_eq!(outcome.decision, ReconcileDecision::KeepReplica);
    assert_eq!(
        outcome.promotion_violation,
        Some(PromotionViolation::StaleFreshness {
            age_secs: 30,
            max_freshness_age_secs: 10,
        })
    );
}

#[test]
fn outcome_marks_lease_as_acquired() {
    let mut runtime = HaRuntime::new("node-a");
    runtime.update_freshness(freshness(4, 99));
    let cfg = PromotionConfig::default();

    let outcome =
        runtime.reconcile_with_outcome(100, Some(lease("node-a", 4, 99, 10)), 4, &cfg);

    assert!(matches!(
        outcome.lease_observation,
        LeaseObservation::Acquired(_)
    ));
}

#[test]
fn outcome_marks_lease_as_renewed() {
    let mut runtime = HaRuntime::new("node-a");
    runtime.update_freshness(freshness(4, 99));
    let cfg = PromotionConfig::default();

    let _ = runtime.reconcile_with_outcome(100, Some(lease("node-a", 4, 99, 10)), 4, &cfg);
    let outcome =
        runtime.reconcile_with_outcome(101, Some(lease("node-a", 4, 100, 10)), 4, &cfg);

    assert!(matches!(
        outcome.lease_observation,
        LeaseObservation::Renewed(_)
    ));
}

#[test]
fn outcome_marks_lease_as_transferred() {
    let mut runtime = HaRuntime::new("node-a");
    runtime.update_freshness(freshness(4, 99));
    let cfg = PromotionConfig::default();

    let _ = runtime.reconcile_with_outcome(100, Some(lease("node-a", 4, 99, 10)), 4, &cfg);
    let outcome =
        runtime.reconcile_with_outcome(101, Some(lease("node-b", 4, 100, 10)), 4, &cfg);

    assert!(matches!(
        outcome.lease_observation,
        LeaseObservation::Transferred { .. }
    ));
}

#[test]
fn outcome_marks_lease_as_replaced_on_generation_bump() {
    let mut runtime = HaRuntime::new("node-a");
    runtime.update_freshness(freshness(4, 99));
    let cfg = PromotionConfig::default();

    let _ = runtime.reconcile_with_outcome(100, Some(lease("node-a", 4, 99, 10)), 4, &cfg);
    let outcome =
        runtime.reconcile_with_outcome(101, Some(lease("node-a", 5, 100, 10)), 4, &cfg);

    assert!(matches!(
        outcome.lease_observation,
        LeaseObservation::Replaced(_)
    ));
}

#[test]
fn plan_actions_for_successful_promotion_enables_writer() {
    let mut runtime = HaRuntime::new("node-a");
    runtime.update_freshness(freshness(6, 100));
    let cfg = PromotionConfig::default();

    let plan = runtime.plan_actions(101, Some(lease("node-a", 6, 100, 10)), 6, &cfg);

    assert_eq!(
        plan.outcome.decision,
        ReconcileDecision::PromoteToWriter { generation: 6 }
    );
    assert_eq!(plan.actions, vec![HaAction::EnableWriter { generation: 6 }]);
}

#[test]
fn plan_actions_for_demotion_disables_writer_and_ensures_replica() {
    let mut runtime = HaRuntime::new("node-a");
    runtime.update_freshness(freshness(6, 100));
    let cfg = PromotionConfig::default();

    let _ = runtime.plan_actions(101, Some(lease("node-a", 6, 100, 10)), 6, &cfg);
    let plan = runtime.plan_actions(200, None, 6, &cfg);

    assert_eq!(
        plan.outcome.decision,
        ReconcileDecision::DemoteToReplica {
            reason: DemotionReason::LeaseMissing,
        }
    );
    assert_eq!(
        plan.actions,
        vec![
            HaAction::DisableWriter {
                reason: DemotionReason::LeaseMissing,
            },
            HaAction::EnsureReplica,
        ]
    );
}

#[test]
fn plan_actions_for_denied_promotion_records_violation() {
    let mut runtime = HaRuntime::new("node-a");
    runtime.update_freshness(freshness(6, 10));
    let cfg = PromotionConfig {
        max_freshness_age_secs: 10,
        max_future_skew_secs: 2,
    };

    let plan = runtime.plan_actions(100, Some(lease("node-a", 6, 99, 10)), 6, &cfg);

    assert_eq!(plan.outcome.decision, ReconcileDecision::KeepReplica);
    assert_eq!(
        plan.actions,
        vec![
            HaAction::EnsureReplica,
            HaAction::RecordPromotionDenied {
                violation: PromotionViolation::StaleFreshness {
                    age_secs: 90,
                    max_freshness_age_secs: 10,
                },
            },
        ]
    );
}

#[test]
fn execute_controller_plan_runs_actions_in_order() {
    let plan = ControllerPlan {
        outcome: ReconcileOutcome {
            decision: ReconcileDecision::PromoteToWriter { generation: 4 },
            lease_observation: LeaseObservation::Missing,
            promotion_violation: None,
        },
        actions: vec![
            HaAction::EnsureReplica,
            HaAction::EnableWriter { generation: 4 },
            HaAction::KeepWriter,
        ],
    };

    let mut exec = MockExecutor::default();
    let report = execute_controller_plan(plan, &mut exec, true);

    assert!(report.is_success());
    assert_eq!(
        exec.calls,
        vec![
            "ensure_replica".to_owned(),
            "enable_writer:4".to_owned(),
            "keep_writer".to_owned(),
        ]
    );
}

#[test]
fn execute_controller_plan_stops_on_error_when_requested() {
    let plan = ControllerPlan {
        outcome: ReconcileOutcome {
            decision: ReconcileDecision::KeepReplica,
            lease_observation: LeaseObservation::Missing,
            promotion_violation: Some(PromotionViolation::MissingFreshness),
        },
        actions: vec![
            HaAction::EnsureReplica,
            HaAction::RecordPromotionDenied {
                violation: PromotionViolation::MissingFreshness,
            },
            HaAction::KeepWriter,
        ],
    };

    let mut exec = MockExecutor::with_fail_on_call(1);
    let report = execute_controller_plan(plan, &mut exec, true);

    assert!(!report.is_success());
    assert_eq!(report.failures.len(), 1);
    assert_eq!(
        report.failures[0].action,
        HaAction::RecordPromotionDenied {
            violation: PromotionViolation::MissingFreshness,
        }
    );
    assert_eq!(exec.calls, vec!["ensure_replica".to_owned()]);
}

#[test]
fn lenient_execution_keeps_each_error_with_its_action() {
    let plan = ControllerPlan {
        outcome: ReconcileOutcome {
            decision: ReconcileDecision::KeepWriter,
            lease_observation: LeaseObservation::Missing,
            promotion_violation: None,
        },
        actions: vec![
            HaAction::EnsureReplica,
            HaAction::EnableWriter { generation: 2 },
        ],
    };

    // A call that fails is not recorded, so both calls find none before them.
    let mut exec = MockExecutor::with_fail_on_call(0);
    let report = execute_controller_plan(plan, &mut exec, false);

    assert_eq!(report.failures.len(), 2);
    assert_eq!(report.failures[0].action, HaAction::EnsureReplica);
    assert_eq!(report.failures[0].error, "ensure failed");
    assert_eq!(
        report.failures[1].action,
        HaAction::EnableWriter { generation: 2 }
    );
    assert_eq!(report.failures[1].error, "enable failed");
}

#[test]
fn plan_and_execute_uses_runtime_planning_path() {
    let mut runtime = HaRuntime::new("node-a");
    runtime.update_freshness(freshness(5, 99));
    let cfg = PromotionConfig::default();
    let mut exec = MockExecutor::default();

    let report = runtime.plan_and_execute(
        100,
        Some(lease("node-a", 5, 99, 10)),
        5,
        &cfg,
        &mut exec,
        true,
    );

    assert!(report.is_success());
    assert_eq!(
        report.plan.outcome.decision,
        ReconcileDecision::PromoteToWriter { generation: 5 }
    );
    assert_eq!(exec.calls, vec!["enable_writer:5".to_owned()]);
}

#[test]
fn controller_plan_tick_uses_internal_policy() {
    let mut controller = HaController::new("node-a");
    controller.update_freshness(freshness(5, 99));
    controller.set_min_source_generation(5);

    let plan = controller.plan_tick(100, Some(lease("node-a", 5, 99, 10)));
    assert_eq!(
        plan.outcome.decision,
        ReconcileDecision::PromoteToWriter { generation: 5 }
    );
    assert_eq!(plan.actions, vec![HaAction::EnableWriter { generation: 5 }]);
}

#[test]
fn controller_tick_executes_actions() {
    let mut controller = HaController::new("node-a");
    controller.update_freshness(freshness(2, 49));
    controller.set_min_source_generation(2);
    let mut exec = MockExecutor::default();

    let report = controller.tick(50, Some(lease("node-a", 2, 49, 10)), &mut exec);
    assert!(report.is_success());
    assert_eq!(exec.calls, vec!["enable_writer:2".to_owned()]);
}

#[test]
fn controller_tick_continues_when_stop_on_error_disabled() {
    let mut controller = HaController::new("node-a");
    controller.set_stop_on_error(false);
    controller.set_promotion_config(PromotionConfig {
        max_freshness_age_secs: 10,
        max_future_skew_secs: 2,
    });
    controller.update_freshness(freshness(3, 0));
    controller.set_min_source_generation(3);

    // Stale freshness yields two actions: EnsureReplica + RecordPromotionDenied.
    let mut exec = MockExecutor::with_fail_on_call(0);
    let report = controller.tick(100, Some(lease("node-a", 3, 99, 10)), &mut exec);

    assert!(!report.is_success());
    assert_eq!(report.failures.len(), 2);
    assert!(exec.calls.is_empty());
}

#[test]
fn tracing_executor_delegates_successfully() {
    let plan = ControllerPlan {
        outcome: ReconcileOutcome {
            decision: ReconcileDecision::KeepWriter,
            lease_observation: LeaseObservation::Missing,
            promotion_violation: None,
        },
        actions: vec![HaAction::EnsureReplica, HaAction::KeepWriter],
    };

    let mut exec = TracingExecutor::new(MockExecutor::default(), "test-ha");
    let report = execute_controller_plan(plan, &mut exec, true);

    assert!(report.is_success());
    assert_eq!(
        exec.inner().calls,
        vec!["ensure_replica".to_owned(), "keep_writer".to_owned()]
    );
}

#[test]
fn tracing_executor_preserves_failures() {
    let plan = ControllerPlan {
        outcome: ReconcileOutcome {
            decision: ReconcileDecision::KeepReplica,
            lease_observation: LeaseObservation::Missing,
            promotion_violation: Some(PromotionViolation::MissingFreshness),
        },
        actions: vec![
            HaAction::EnsureReplica,
            HaAction::RecordPromotionDenied {
                violation: PromotionViolation::MissingFreshness,
            },
        ],
    };

    let mut exec = TracingExecutor::new(MockExecutor::with_fail_on_call(1), "test-ha");
    let report = execute_controller_plan(plan, &mut exec, true);

    assert!(!report.is_success());
    assert_eq!(report.failures.len(), 1);
    assert_eq!(exec.inner().calls, vec!["ensure_replica".to_owned()]);
}

#[test]
fn tick_with_reader_executes_using_read_lease() {
    let mut controller = HaController::new("node-a");
    controller.update_freshness(freshness(3, 99));
    controller.set_min_source_generation(3);

    let mut reader = MockLeaseReader::new(vec![Ok(Some(lease("node-a", 3, 99, 10)))]);
    let mut exec = MockExecutor::default();

    let outcome = controller.tick_with_reader(100, &mut reader, &mut exec);
    match outcome {
        ControllerTickOutcome::Executed(report) => {
            assert!(report.is_success());
            assert_eq!(
                report.plan.outcome.decision,
                ReconcileDecision::PromoteToWriter { generation: 3 }
            );
        }
        other => panic!("unexpected outcome: {other:?}"),
    }

    assert_eq!(exec.calls, vec!["enable_writer:3".to_owned()]);
}

#[test]
fn tick_asks_the_reader_once() {
    let mut controller = HaController::new("node-a");
    let mut reader = MockLeaseReader::new(vec![Ok(None), Err("second"), Err("third")]);
    let mut exec = MockExecutor::default();
    let outcome = controller.tick_with_reader(100, &mut reader, &mut exec);
    assert!(matches!(outcome, ControllerTickOutcome::Executed(_)));
    assert_eq!(reader.replies.len(), 2);
    let outcome = controller.tick_with_reader(101, &mut reader, &mut exec);
    assert!(matches!(
        outcome,
        ControllerTickOutcome::LeaseReadFailed { error: "second", .. }
    ));
    assert_eq!(reader.replies.len(), 1);
    assert!(controller.runtime().lease().is_none());
}

#[test]
fn records_are_read_from_lines_in_any_order() {
    let expected = lease("node-a", 4, 99, 10);
    let shuffled = "\n ttl_secs=10 \n\ngeneration=4\n   \nholder_node_id=node-a\nrenewed_at_secs=99";
    assert_eq!(parse_lease_record(shuffled).unwrap(), expected);

    let ledger = "synced_at_secs=99\n\nsource_node_id=node-b\n\tsource_generation=3\n";
    assert_eq!(
        parse_freshness_ledger(ledger).unwrap(),
        FreshnessLedger {
            source_node_id: "node-b".to_owned(),
            source_generation: 3,
            synced_at_secs: 99,
        }
    );
}

#[test]
fn tick_with_reader_lease_error_runs_fail_safe_fallback() {
    let mut controller = HaController::new("node-a");
    controller.update_freshness(freshness(4, 99));
    controller.set_min_source_generation(4);

    // Become writer first.
    let mut exec = MockExecutor::default();
    let promote = controller.tick(100, Some(lease("node-a", 4, 99, 10)), &mut exec);
    assert!(promote.is_success());
    assert_eq!(controller.runtime().role(), NodeRole::Writer);

    // Now fail lease reads; fallback tick should demote and ensure replica.
    let mut reader = MockLeaseReader::new(vec![Err("lease api unavailable")]);
    let outcome = controller.tick_with_reader(101, &mut reader, &mut exec);

    match outcome {
        ControllerTickOutcome::LeaseReadFailed {
            error,
            fallback_report,
        } => {
            assert_eq!(error, "lease api unavailable");
            assert_eq!(
                fallback_report.plan.outcome.decision,
                ReconcileDecision::DemoteToReplica {
                    reason: DemotionReason::LeaseMissing,
                }
            );
            assert!(fallback_report.is_success());
        }
        other => panic!("unexpected outcome: {other:?}"),
    }

    assert_eq!(controller.runtime().role(), NodeRole::Replica);
    assert_eq!(
        exec.calls,
        vec![
            "enable_writer:4".to_owned(),
            "disable_writer:LeaseMissing".to_owned(),
            "ensure_replica".to_owned(),
        ]
    );
}

#[test]
fn lease_record_round_trip_serialization() {
    let lease = LeaseRecord {
        holder_node_id: "node-z".to_owned(),
        generation: 42,
        renewed_at_secs: 1000,
        ttl_secs: 15,
    };

    let encoded = serialize_lease_record(&lease);
    let decoded = parse_lease_record(&encoded).unwrap();
    assert_eq!(decoded, lease);
}

#[test]
fn parse_kubernetes_lease_json_accepts_valid_payload() {
    let parsed = parse_kubernetes_lease_json(
        r#"{
"metadata": {
    "annotations": {
        "rsqlite-rsync.dev/generation": "42"
    }
},
"spec": {
    "holderIdentity": "node-a",
    "leaseDurationSeconds": 15,
    "renewTime": "2026-01-01T00:00:30Z"
}
}"#,
    )
    .expect("json should parse")
    .expect("holder exists");

    assert_eq!(parsed.holder_node_id, "node-a");
    assert_eq!(parsed.generation, 42);
    assert_eq!(parsed.renewed_at_secs, 1_767_225_630);
    assert_eq!(parsed.ttl_secs, 15);
}

#[test]
fn parse_kubernetes_lease_json_returns_none_when_unheld() {
    let parsed = parse_kubernetes_lease_json(
        r#"{
"metadata": {
    "annotations": {
        "rsqlite-rsync.dev/generation": "1"
    }
},
"spec": {
    "leaseDurationSeconds": 5,
    "renewTime": "2026-01-01T00:00:30Z"
}
}"#,
    )
    .expect("json should parse");

    assert_eq!(parsed, None);
}

#[test]
fn parse_kubernetes_lease_json_rejects_missing_generation_annotation() {
    let err = parse_kubernetes_lease_json(
        r#"{
"metadata": {"annotations": {}},
"spec": {
    "holderIdentity": "node-a",
    "leaseDurationSeconds": 15,
    "renewTime": "2026-01-01T00:00:30Z"
}
}"#,
    )
    .expect_err("missing annotation should fail");

    assert!(err.contains("metadata.annotations[rsqlite-rsync.dev/generation]"));
}

#[test]
fn parse_kubernetes_lease_json_rejects_invalid_renew_time() {
    let err = parse_kubernetes_lease_json(
        r#"{
"metadata": {
    "annotations": {
        "rsqlite-rsync.dev/generation": "42"
    }
},
"spec": {
    "holderIdentity": "node-a",
    "leaseDurationSeconds": 15,
    "renewTime": "not-a-time"
}
}"#,
    )
    .expect_err("invalid renew time should fail");

    assert!(err.contains("invalid spec.renewTime"));
}

#[test]
fn parse_kubernetes_lease_json_rejects_missing_spec() {
    let err = parse_kubernetes_lease_json(r#"{"metadata": {"annotations": {}}}"#)
        .expect_err("missing spec should fail");
    assert!(err.contains("missing spec"));
}

#[test]
fn parse_kubernetes_lease_json_rejects_invalid_generation_value() {
    let err = parse_kubernetes_lease_json(
        r#"{
"metadata": {
    "annotations": {
        "rsqlite-rsync.dev/generation": "not-a-number"
    }
},
"spec": {
    "holderIdentity": "node-a",
    "leaseDurationSeconds": 15,
    "renewTime": "2026-01-01T00:00:30Z"
}
}"#,
    )
    .expect_err("non-numeric generation should fail");

    assert!(err.contains("invalid metadata.annotations[rsqlite-rsync.dev/generation]"));
}

#[test]
fn parse_lease_record_rejects_missing_field() {
    let err = parse_lease_record("holder_node_id=node-a\ngeneration=1\nttl_secs=10\n")
        .expect_err("missing renewed_at_secs should fail");
    assert!(err.contains("renewed_at_secs"));
}

#[test]
fn tracing_executor_exposes_inner_accessors() {
    let mut executor = TracingExecutor::new(MockExecutor::default(), "test-component");
    executor.inner_mut().calls.push("marker".to_owned());
    assert_eq!(executor.inner().calls, vec!["marker".to_owned()]);
    let inner = executor.into_inner();
    assert_eq!(inner.calls, vec!["marker".to_owned()]);
}

#[test]
fn tracing_executor_delegates_every_action_success_and_failure() {
    let mut ok_executor = TracingExecutor::new(MockExecutor::default(), "test-component");
    ok_executor.enable_writer(3).unwrap();
    ok_executor
        .disable_writer(&DemotionReason::LeaseMissing)
        .unwrap();
    ok_executor.keep_writer().unwrap();
    ok_executor
        .record_promotion_denied(&PromotionViolation::MissingFreshness)
        .unwrap();
    assert_eq!(
        ok_executor.inner().calls,
        vec![
            "enable_writer:3".to_owned(),
            "disable_writer:LeaseMissing".to_owned(),
            "keep_writer".to_owned(),
            "record_denied:MissingFreshness".to_owned(),
        ]
    );

    let mut failing_executor =
        TracingExecutor::new(MockExecutor::with_fail_on_call(0), "test-component");
    assert_eq!(
        failing_executor.enable_writer(1),
        Err("enable failed")
    );
    let mut failing_executor =
        TracingExecutor::new(MockExecutor::with_fail_on_call(0), "test-component");
    assert_eq!(
        failing_executor.disable_writer(&DemotionReason::LeaseMissing),
        Err("disable failed")
    );
    let mut failing_executor =
        TracingExecutor::new(MockExecutor::with_fail_on_call(0), "test-component");
    assert_eq!(failing_executor.keep_writer(), Err("keep failed"));
    let mut failing_executor =
        TracingExecutor::new(MockExecutor::with_fail_on_call(0), "test-component");
    assert_eq!(
        failing_executor.record_promotion_denied(&PromotionViolation::MissingFreshness),
        Err("record denied failed")
    );
}

#[test]
fn controller_tick_outcome_report_returns_inner_report_for_both_variants() {
    let mut controller = HaController::new("node-a");
    controller.update_freshness(freshness(3, 99));
    controller.set_min_source_generation(3);
    let mut exec = MockExecutor::default();

    let mut reader = MockLeaseReader::new(vec![Ok(Some(lease("node-a", 3, 99, 10)))]);
    let executed = controller.tick_with_reader(100, &mut reader, &mut exec);
    assert!(executed.report().is_success());

    // Become writer, then force a lease-read failure to hit the
    // `LeaseReadFailed` branch of `report()`.
    let mut reader = MockLeaseReader::new(vec![Err("lease api unavailable")]);
    let lease_read_failed = controller.tick_with_reader(101, &mut reader, &mut exec);
    assert!(lease_read_failed.report().is_success());
}

#[test]
fn observe_lease_change_reports_unchanged_for_identical_lease() {
    let mut runtime = HaRuntime::new("node-a");
    runtime.update_freshness(freshness(1, 99));
    let cfg = PromotionConfig::default();
    let same_lease = lease("node-a", 1, 99, 10);

    let first = runtime.reconcile_with_outcome(100, Some(same_lease.clone()), 1, &cfg);
    assert_eq!(first.decision, ReconcileDecision::PromoteToWriter { generation: 1 });

    let second = runtime.reconcile_with_outcome(101, Some(same_lease.clone()), 1, &cfg);
    assert_eq!(second.decision, ReconcileDecision::KeepWriter);
    assert_eq!(second.lease_observation, LeaseObservation::Unchanged(same_lease));
}

#[test]
fn plan_actions_keep_writer_after_promotion_when_lease_still_valid() {
    let mut runtime = HaRuntime::new("node-a");
    runtime.update_freshness(freshness(4, 99));
    let cfg = PromotionConfig::default();
    let current_lease = lease("node-a", 4, 99, 10);

    let promote_plan = runtime.plan_actions(100, Some(current_lease.clone()), 4, &cfg);
    assert_eq!(
        promote_plan.outcome.decision,
        ReconcileDecision::PromoteToWriter { generation: 4 }
    );

    let keep_plan = runtime.plan_actions(101, Some(current_lease), 4, &cfg);
    assert_eq!(keep_plan.outcome.decision, ReconcileDecision::KeepWriter);
    assert_eq!(keep_plan.actions, vec![HaAction::KeepWriter]);
}

#[test]
fn ha_shared_state_is_writer_false_when_role_writer_but_no_lease_record() {
    let mut state = HaSharedState::new("node-a", false);
    state.role = NodeRole::Writer;
    state.lease_record = None;
    assert!(!state.is_writer(100));
}

#[test]
fn ha_runtime_accessors_expose_identity_lease_and_freshness() {
    let mut runtime = HaRuntime::new("node-a");
    assert_eq!(runtime.node_id(), "node-a");
    assert_eq!(runtime.lease(), None);
    assert_eq!(runtime.freshness(), None);

    runtime.update_freshness(freshness(1, 42));
    assert_eq!(runtime.freshness(), Some(&freshness(1, 42)));

    let cfg = PromotionConfig::default();
    runtime.reconcile_with_outcome(100, Some(lease("node-a", 1, 42, 10)), 1, &cfg);
    assert_eq!(runtime.lease(), Some(&lease("node-a", 1, 42, 10)));
}

#[test]
fn execute_controller_plan_reports_failure_for_every_action_kind() {
    for action in [
        HaAction::EnableWriter { generation: 1 },
        HaAction::DisableWriter {
            reason: DemotionReason::LeaseMissing,
        },
        HaAction::KeepWriter,
        HaAction::RecordPromotionDenied {
            violation: PromotionViolation::MissingFreshness,
        },
    ] {
        let plan = ControllerPlan {
            outcome: ReconcileOutcome {
                decision: ReconcileDecision::KeepWriter,
                lease_observation: LeaseObservation::Missing,
                promotion_violation: None,
            },
            actions: vec![action.clone()],
        };
        let mut exec = MockExecutor::with_fail_on_call(0);
        let report = execute_controller_plan(plan, &mut exec, true);
        assert!(!report.is_success(), "expected failure for {action:?}");
        assert_eq!(report.failures[0].action, action);
    }
}

/// Keeps the two files of a [`FileActionExecutor`] in memory.
struct MemoryExecutor {
    files: FileActionExecutor,
    role_state: String,
    audit_log: String,
}

impl MemoryExecutor {
    fn new() -> Self {
        Self {
            files: FileActionExecutor::new("role_state.txt", "audit.log"),
            role_state: String::new(),
            audit_log: String::new(),
        }
    }

    fn apply(&mut self, action: HaAction) -> Result<(), &'static str> {
        if let Some(state) = self.files.role_state_for(&action) {
            self.role_state = state;
        }
        self.audit_log.push_str(&self.files.audit_line_for(&action));
        Ok(())
    }
}

impl HaActionExecutor for MemoryExecutor {
    type Error = &'static str;

    fn ensure_replica(&mut self) -> Result<(), Self::Error> {
        self.apply(HaAction::EnsureReplica)
    }

    fn enable_writer(&mut self, generation: u64) -> Result<(), Self::Error> {
        self.apply(HaAction::EnableWriter { generation })
    }

    fn disable_writer(&mut self, reason: &DemotionReason) -> Result<(), Self::Error> {
        self.apply(HaAction::DisableWriter { reason: reason.clone() })
    }

    fn keep_writer(&mut self) -> Result<(), Self::Error> {
        self.apply(HaAction::KeepWriter)
    }

    fn record_promotion_denied(
        &mut self,
        violation: &PromotionViolation,
    ) -> Result<(), Self::Error> {
        self.apply(HaAction::RecordPromotionDenied { violation: violation.clone() })
    }
}

#[test]
fn file_action_executor_writes_expected_state_and_audit() {
    let mut exec = MemoryExecutor::new();
    exec.enable_writer(11).unwrap();
    exec.keep_writer().unwrap();
    exec.disable_writer(&DemotionReason::LeaseMissing).unwrap();
    exec.ensure_replica().unwrap();
    exec.record_promotion_denied(&PromotionViolation::MissingFreshness)
        .unwrap();

    assert_eq!(exec.role_state, "replica\n");

    let audit = exec.audit_log;
    assert!(audit.contains("action=enable_writer generation=11 result=ok"));
    assert!(audit.contains("action=keep_writer result=ok"));
    assert!(audit.contains("action=disable_writer reason=LeaseMissing result=ok"));
    assert!(audit.contains("action=ensure_replica result=ok"));
    assert!(
        audit.contains("action=record_promotion_denied violation=MissingFreshness result=ok")
    );
}

#[test]
fn controller_tick_with_file_executor_updates_files() {
    let mut controller = HaController::new("node-a");
    controller.update_freshness(freshness(9, 99));
    controller.set_min_source_generation(9);

    let mut exec = MemoryExecutor::new();
    let report = controller.tick(100, Some(lease("node-a", 9, 99, 10)), &mut exec);

    assert!(report.is_success());
    assert_eq!(
        report.plan.outcome.decision,
        ReconcileDecision::PromoteToWriter { generation: 9 }
    );
    assert_eq!(exec.role_state, "writer:9\n");
    assert!(exec
        .audit_log
        .contains("action=enable_writer generation=9 result=ok"));
}

#[test]
fn file_lease_reader_returns_none_for_missing_or_empty_file() {
    let reader = FileLeaseReader::new("lease.txt");
    assert_eq!(reader.lease_from_content(None).unwrap(), None);
    assert_eq!(reader.lease_from_content(Some("\n")).unwrap(), None);
    assert_eq!(reader.lease_from_content(Some("none\n")).unwrap(), None);
}

#[test]
fn file_lease_reader_reads_valid_lease() {
    let lease = LeaseRecord {
        holder_node_id: "node-a".to_owned(),
        generation: 7,
        renewed_at_secs: 111,
        ttl_secs: 10,
    };

    let content = serialize_lease_record(&lease);
    let reader = FileLeaseReader::new("lease.txt");
    assert_eq!(reader.lease_from_content(Some(&content)).unwrap(), Some(lease));
}

#[test]
fn file_lease_reader_rejects_invalid_lease_content() {
    let reader = FileLeaseReader::new("lease.txt");
    let error = reader
        .lease_from_content(Some("holder_node_id=node-a\ngeneration=abc\n"))
        .unwrap_err();
    assert!(error.contains("invalid generation"));
}

#[test]
fn file_lease_reader_exposes_lease_path() {
    let reader = FileLeaseReader::new("/tmp/some-lease-file");
    assert_eq!(reader.lease_path(), "/tmp/some-lease-file");
}

#[test]
fn kubectl_lease_reader_exposes_namespace_and_lease_name() {
    let reader = KubectlLeaseReader::new("kubectl", "prod", "sqlite-writer-lease");
    assert_eq!(reader.namespace(), "prod");
    assert_eq!(reader.lease_name(), "sqlite-writer-lease");
}

#[test]
fn kubectl_lease_reader_passes_context_and_kubeconfig_and_parses_output() {
    let lease_json = r#"{
"metadata": {"annotations": {"rsqlite-rsync.dev/generation": "7"}},
"spec": {
    "holderIdentity": "node-a",
    "leaseDurationSeconds": 15,
    "renewTime": "2026-01-01T00:00:30Z"
}
}"#;

    let mut reader = KubectlLeaseReader::new("kubectl", "prod", "sqlite-writer-lease");
    reader.set_kube_context(Some("my-context".to_owned()));
    reader.set_kubeconfig(Some("/etc/kube/config".to_owned()));

    let args = reader.command_args().join(" ");
    assert!(args.contains("--context my-context"));
    assert!(args.contains("--kubeconfig /etc/kube/config"));

    let lease = reader
        .lease_from_output(&KubectlOutput::Succeeded(lease_json.to_owned()))
        .expect("fake kubectl should succeed")
        .expect("lease should be present");
    assert_eq!(lease.holder_node_id, "node-a");
    assert_eq!(lease.generation, 7);
}

#[test]
fn file_action_executor_exposes_paths() {
    let executor = FileActionExecutor::new("/tmp/role-state", "/tmp/audit-log");
    assert_eq!(executor.role_state_path(), "/tmp/role-state");
    assert_eq!(executor.audit_log_path(), "/tmp/audit-log");
}
