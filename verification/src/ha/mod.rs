//! HA policy primitives for single-writer SQLite operation on clustered nodes.
//!
//! This module is transport-agnostic and Kubernetes-agnostic by design. It
//! provides deterministic policy checks that can be reused by any control plane
//! (Kubernetes Lease, external lock service, or custom orchestrator).
pub mod controller;
pub mod file_executor;
pub mod freshness;
pub mod kube;
pub mod node;
pub mod policy;
pub mod records;
pub mod runtime;

pub use controller::{
    execute_controller_plan, ActionExecutionFailure, ActionExecutionReport, ControllerTickOutcome,
    HaActionExecutor, HaController, LeaseReader, TracingExecutor,
};
pub use file_executor::FileActionExecutor;
pub use kube::{
    lease_from_fields, parse_kubernetes_lease_json, KubectlLeaseReader, KubectlOutput, LeaseFields,
};
pub use policy::{
    enforce_write_fence, validate_promotion, FreshnessLedger, LeaseRecord, NodeRole,
    PromotionConfig, PromotionRequest, PromotionViolation, WriteFenceViolation,
};
pub use records::{
    parse_freshness_ledger, parse_lease_record, serialize_lease_record, FileLeaseReader,
};
pub use runtime::{
    ControllerPlan, DemotionReason, HaAction, HaRuntime, HaSharedState, LeaseObservation,
    ReconcileDecision, ReconcileOutcome,
};
