//! Periodic control: reading the lease, planning, and applying the planned
//! actions through an executor.
use vstd::prelude::*;

use crate::ha::policy::{FreshnessLedger, LeaseRecord, NodeRole, PromotionConfig, PromotionViolation};
use crate::ha::runtime;
use crate::ha::runtime::{
    ControllerPlan, DemotionReason, HaAction, HaRuntime, ReconcileOutcome, RuntimeView,
};

verus! {

/// Read the current lease state from an external control plane.
pub trait LeaseReader: Sized {
    type Error;

    /// What the reader answered each time that it was asked so far: a record for
    /// the contracts alone, which a reader that is not verified itself need not
    /// define.
    open spec fn answers(&self) -> Seq<Result<Option<LeaseRecord>, Self::Error>> {
        arbitrary::<spec_fn(Self) -> Seq<Result<Option<LeaseRecord>, Self::Error>>>()(*self)
    }

    fn read_lease(&mut self) -> (r: Result<Option<LeaseRecord>, Self::Error>)
        ensures
            final(self).answers() == old(self).answers().push(r),
    ;
}

/// Callback interface for applying HA actions in a concrete environment.
///
/// Integrations can map these callbacks to process control, readiness gates,
/// metrics emission, and audit logging.
pub trait HaActionExecutor: Sized {
    type Error;

    /// The actions that the executor was asked for so far, each with what it
    /// returned: a record for the contracts alone, which an executor that is not
    /// verified itself need not define.
    open spec fn performed(&self) -> Seq<(HaAction, Result<(), Self::Error>)> {
        arbitrary::<spec_fn(Self) -> Seq<(HaAction, Result<(), Self::Error>)>>()(*self)
    }

    fn ensure_replica(&mut self) -> (r: Result<(), Self::Error>)
        ensures
            final(self).performed() == old(self).performed().push(
                (HaAction::EnsureReplica, r),
            ),
    ;

    fn enable_writer(&mut self, generation: u64) -> (r: Result<(), Self::Error>)
        ensures
            final(self).performed() == old(self).performed().push(
                (HaAction::EnableWriter { generation }, r),
            ),
    ;

    fn disable_writer(&mut self, reason: &DemotionReason) -> (r: Result<(), Self::Error>)
        ensures
            final(self).performed() == old(self).performed().push(
                (HaAction::DisableWriter { reason: *reason }, r),
            ),
    ;

    fn keep_writer(&mut self) -> (r: Result<(), Self::Error>)
        ensures
            final(self).performed() == old(self).performed().push((HaAction::KeepWriter, r)),
    ;

    fn record_promotion_denied(&mut self, violation: &PromotionViolation) -> (r: Result<
        (),
        Self::Error,
    >)
        ensures
            final(self).performed() == old(self).performed().push(
                (HaAction::RecordPromotionDenied { violation: *violation }, r),
            ),
    ;
}

/// Decorator around an action executor that names the component it acts for.
#[derive(Debug, Clone)]
pub struct TracingExecutor<X> {
    inner: X,
    component: &'static str,
}

impl<X> TracingExecutor<X> {
    /// The executor that does the work.
    pub closed spec fn wrapped(self) -> X {
        self.inner
    }

    /// The name of the component.
    pub closed spec fn label(self) -> Seq<char> {
        self.component@
    }

    pub fn new(inner: X, component: &'static str) -> (r: TracingExecutor<X>)
        ensures
            r.wrapped() == inner,
            r.label() == component@,
    {
        TracingExecutor { inner, component }
    }

    pub fn inner(&self) -> (r: &X)
        ensures
            *r == self.wrapped(),
    {
        &self.inner
    }

    pub fn inner_mut(&mut self) -> (r: &mut X)
        ensures
            *r == old(self).wrapped(),
            final(self).wrapped() == *final(r),
            final(self).label() == old(self).label(),
    {
        &mut self.inner
    }

    pub fn into_inner(self) -> (r: X)
        ensures
            r == self.wrapped(),
    {
        self.inner
    }

    /// The name of the component that the executor acts for.
    pub fn component(&self) -> (r: &str)
        ensures
            r@ == self.label(),
    {
        self.component
    }
}

impl<X: HaActionExecutor> HaActionExecutor for TracingExecutor<X> {
    type Error = X::Error;

    closed spec fn performed(&self) -> Seq<(HaAction, Result<(), X::Error>)> {
        self.inner.performed()
    }

    fn ensure_replica(&mut self) -> (r: Result<(), X::Error>) {
        self.inner.ensure_replica()
    }

    fn enable_writer(&mut self, generation: u64) -> (r: Result<(), X::Error>) {
        self.inner.enable_writer(generation)
    }

    fn disable_writer(&mut self, reason: &DemotionReason) -> (r: Result<(), X::Error>) {
        self.inner.disable_writer(reason)
    }

    fn keep_writer(&mut self) -> (r: Result<(), X::Error>) {
        self.inner.keep_writer()
    }

    fn record_promotion_denied(&mut self, violation: &PromotionViolation) -> (r: Result<
        (),
        X::Error,
    >) {
        self.inner.record_promotion_denied(violation)
    }
}

/// One failed action during plan execution.
#[derive(Debug, Clone, PartialEq, Eq)]
pub struct ActionExecutionFailure<E> {
    pub action: HaAction,
    pub error: E,
}

/// Result of executing a controller plan.
#[derive(Debug, Clone, PartialEq, Eq)]
pub struct ActionExecutionReport<E> {
    pub plan: ControllerPlan,
    pub failures: Vec<ActionExecutionFailure<E>>,
}

impl<E> ActionExecutionReport<E> {
    /// Whether no action failed.
    pub fn is_success(&self) -> (r: bool)
        ensures
            r == (self.failures@.len() == 0),
    {
        self.failures.is_empty()
    }
}

/// Result of one controller tick using a lease reader.
#[derive(Debug, Clone, PartialEq, Eq)]
pub enum ControllerTickOutcome<LeaseErr, ExecErr> {
    Executed(ActionExecutionReport<ExecErr>),
    LeaseReadFailed { error: LeaseErr, fallback_report: ActionExecutionReport<ExecErr> },
}

impl<LeaseErr, ExecErr> ControllerTickOutcome<LeaseErr, ExecErr> {
    /// The report of the actions that were applied.
    pub fn report(&self) -> (r: &ActionExecutionReport<ExecErr>)
        ensures
            *r == match *self {
                ControllerTickOutcome::Executed(report) => report,
                ControllerTickOutcome::LeaseReadFailed { fallback_report, .. } => fallback_report,
            },
    {
        match self {
            ControllerTickOutcome::Executed(report) => report,
            ControllerTickOutcome::LeaseReadFailed { fallback_report, .. } => fallback_report,
        }
    }
}

/// The failures of a log, in order.
pub open spec fn failures_of<E>(log: Seq<(HaAction, Result<(), E>)>) -> Seq<
    ActionExecutionFailure<E>,
>
    decreases log.len(),
{
    if log.len() == 0 {
        Seq::empty()
    } else {
        match log.last().1 {
            Ok(_) => failures_of(log.drop_last()),
            Err(error) => failures_of(log.drop_last()).push(
                ActionExecutionFailure { action: log.last().0, error },
            ),
        }
    }
}

/// Whether `log` is what an executor may have been asked for in order to apply
/// `actions`: the actions in order, all of them, unless the last one asked for
/// failed and execution stops on errors; with `stop_on_error` no other failed.
pub open spec fn applied<E>(
    actions: Seq<HaAction>,
    stop_on_error: bool,
    log: Seq<(HaAction, Result<(), E>)>,
) -> bool {
    &&& log.len() <= actions.len()
    &&& forall|i: int| 0 <= i < log.len() ==> (#[trigger] log[i]).0 == actions[i]
    &&& log.len() < actions.len() ==> stop_on_error && log.len() > 0 && log.last().1 is Err
    &&& stop_on_error ==> forall|i: int| 0 <= i < log.len() - 1 ==> (#[trigger] log[i]).1 is Ok
}

/// Whether a report is that of a plan applied through an executor that was
/// asked for `log`.
pub open spec fn reports<E>(
    report: ActionExecutionReport<E>,
    stop_on_error: bool,
    log: Seq<(HaAction, Result<(), E>)>,
) -> bool {
    &&& applied(report.plan.actions@, stop_on_error, log)
    &&& report.failures@ == failures_of(log)
}

/// Execute a prepared controller plan through an action executor.
///
/// When `stop_on_error` is true, execution stops at the first failing action.
pub fn execute_controller_plan<X: HaActionExecutor>(
    plan: ControllerPlan,
    executor: &mut X,
    stop_on_error: bool,
) -> (r: ActionExecutionReport<X::Error>)
    ensures
        r.plan == plan,
        old(executor).performed().is_prefix_of(final(executor).performed()),
        reports(
            r,
            stop_on_error,
            final(executor).performed().skip(old(executor).performed().len() as int),
        ),
{
    let ghost before = executor.performed();
    let mut failures: Vec<ActionExecutionFailure<X::Error>> = Vec::new();
    let mut i: usize = 0;
    assert(executor.performed().skip(before.len() as int) == Seq::<
        (HaAction, Result<(), X::Error>),
    >::empty());
    while i < plan.actions.len()
        invariant
            i <= plan.actions@.len(),
            before == old(executor).performed(),
            before.is_prefix_of(executor.performed()),
            executor.performed().len() == before.len() + i,
            applied(
                plan.actions@.take(i as int),
                stop_on_error,
                executor.performed().skip(before.len() as int),
            ),
            failures@ == failures_of(executor.performed().skip(before.len() as int)),
            stop_on_error ==> forall|j: int|
                before.len() <= j < executor.performed().len() ==> (
                #[trigger] executor.performed()[j]).1 is Ok,
        decreases plan.actions@.len() - i,
    {
        let ghost log = executor.performed();
        let action: &HaAction = &plan.actions[i];
        let result: Result<(), X::Error> = match action {
            HaAction::EnsureReplica => executor.ensure_replica(),
            HaAction::EnableWriter { generation } => executor.enable_writer(*generation),
            HaAction::DisableWriter { reason } => executor.disable_writer(reason),
            HaAction::KeepWriter => executor.keep_writer(),
            HaAction::RecordPromotionDenied { violation } => executor.record_promotion_denied(
                violation,
            ),
        };
        let ghost entry = (*action, result);
        proof {
            assert(executor.performed() == log.push(entry));
            let tail = log.skip(before.len() as int);
            let longer = executor.performed().skip(before.len() as int);
            assert(longer == tail.push(entry));
            assert(longer.drop_last() == tail);
            assert(before.is_prefix_of(executor.performed())) by {
                assert(executor.performed().subrange(0, before.len() as int) == log.subrange(
                    0,
                    before.len() as int,
                ));
            }
            assert(applied(plan.actions@.take(i + 1), stop_on_error, longer)) by {
                assert forall|j: int| 0 <= j < longer.len() implies (#[trigger] longer[j]).0
                    == plan.actions@.take(i + 1)[j] by {
                    if j < tail.len() {
                        assert(longer[j] == tail[j]);
                        assert(tail[j].0 == plan.actions@.take(i as int)[j]);
                    }
                }
                if stop_on_error {
                    assert forall|j: int| 0 <= j < longer.len() - 1 implies (
                    #[trigger] longer[j]).1 is Ok by {
                        assert(longer[j] == log[before.len() + j]);
                    }
                }
            }
        }
        match result {
            Ok(()) => {},
            Err(error) => {
                failures.push(ActionExecutionFailure { action: action.clone(), error });
                if stop_on_error {
                    proof {
                        let longer = executor.performed().skip(before.len() as int);
                        assert(applied(plan.actions@, stop_on_error, longer)) by {
                            assert forall|j: int| 0 <= j < longer.len() implies (
                            #[trigger] longer[j]).0 == plan.actions@[j] by {
                                assert(longer[j].0 == plan.actions@.take(i + 1)[j]);
                            }
                        }
                    }
                    return ActionExecutionReport { plan, failures };
                }
            },
        }
        i = i + 1;
    }
    assert(plan.actions@.take(i as int) == plan.actions@);
    ActionExecutionReport { plan, failures }
}

impl HaRuntime {
    /// Build and execute a plan in one operation.
    pub fn plan_and_execute<X: HaActionExecutor>(
        &mut self,
        now_secs: u64,
        lease: Option<LeaseRecord>,
        min_source_generation: u64,
        config: &PromotionConfig,
        executor: &mut X,
        stop_on_error: bool,
    ) -> (r: ActionExecutionReport<X::Error>)
        ensures
            (final(self)@, r.plan.outcome) == runtime::reconciled(
                old(self)@,
                now_secs,
                lease,
                min_source_generation,
                *config,
            ),
            r.plan.actions@ == runtime::actions_for(r.plan.outcome),
            old(executor).performed().is_prefix_of(final(executor).performed()),
            reports(
                r,
                stop_on_error,
                final(executor).performed().skip(old(executor).performed().len() as int),
            ),
    {
        let plan: ControllerPlan = self.plan_actions(now_secs, lease, min_source_generation, config);
        execute_controller_plan(plan, executor, stop_on_error)
    }
}

/// The state of an [`HaController`].
#[verifier::ext_equal]
pub struct ControllerView {
    pub runtime: RuntimeView,
    pub promotion_config: PromotionConfig,
    pub min_source_generation: u64,
    pub stop_on_error: bool,
}

/// What one tick makes of a controller's state, and what it plans.
pub open spec fn ticked(state: ControllerView, now_secs: u64, lease: Option<LeaseRecord>) -> (
    ControllerView,
    ReconcileOutcome,
) {
    let (after, outcome) = runtime::reconciled(
        state.runtime,
        now_secs,
        lease,
        state.min_source_generation,
        state.promotion_config,
    );
    (ControllerView { runtime: after, ..state }, outcome)
}

/// Convenience wrapper that owns runtime and reconcile configuration.
///
/// This is intended for controllers that run periodic ticks and do not want to
/// pass the same promotion and fencing parameters on every call.
#[derive(Debug, Clone)]
pub struct HaController {
    runtime: HaRuntime,
    promotion_config: PromotionConfig,
    min_source_generation: u64,
    stop_on_error: bool,
}

impl View for HaController {
    type V = ControllerView;

    closed spec fn view(&self) -> ControllerView {
        ControllerView {
            runtime: self.runtime@,
            promotion_config: self.promotion_config,
            min_source_generation: self.min_source_generation,
            stop_on_error: self.stop_on_error,
        }
    }
}

impl HaController {
    /// Create a controller with default promotion policy.
    pub fn new(node_id: &str) -> (r: HaController)
        ensures
            r@ == (ControllerView {
                runtime: RuntimeView {
                    node_id: node_id@,
                    role: NodeRole::Replica,
                    local_generation: 0,
                    lease: None,
                    freshness: None,
                },
                promotion_config: PromotionConfig {
                    max_freshness_age_secs: 10,
                    max_future_skew_secs: 2,
                },
                min_source_generation: 0,
                stop_on_error: true,
            }),
    {
        HaController {
            runtime: HaRuntime::new(node_id),
            promotion_config: PromotionConfig::default(),
            min_source_generation: 0,
            stop_on_error: true,
        }
    }

    /// Borrow the internal runtime state.
    pub fn runtime(&self) -> (r: &HaRuntime)
        ensures
            r@ == self@.runtime,
    {
        &self.runtime
    }

    /// Mutably borrow the internal runtime state.
    pub fn runtime_mut(&mut self) -> (r: &mut HaRuntime)
        ensures
            r@ == old(self)@.runtime,
            final(self)@ == (ControllerView { runtime: final(r)@, ..old(self)@ }),
    {
        &mut self.runtime
    }

    /// Update freshness metadata used by the next tick.
    pub fn update_freshness(&mut self, freshness: FreshnessLedger)
        ensures
            final(self)@ == (ControllerView {
                runtime: RuntimeView { freshness: Some(freshness), ..old(self)@.runtime },
                ..old(self)@
            }),
    {
        self.runtime.update_freshness(freshness);
    }

    /// Set minimum acceptable source generation for promotion.
    pub fn set_min_source_generation(&mut self, generation: u64)
        ensures
            final(self)@ == (ControllerView { min_source_generation: generation, ..old(self)@ }),
    {
        self.min_source_generation = generation;
    }

    /// Replace promotion policy configuration.
    pub fn set_promotion_config(&mut self, config: PromotionConfig)
        ensures
            final(self)@ == (ControllerView { promotion_config: config, ..old(self)@ }),
    {
        self.promotion_config = config;
    }

    /// Control whether execution should stop at first failing action.
    pub fn set_stop_on_error(&mut self, stop_on_error: bool)
        ensures
            final(self)@ == (ControllerView { stop_on_error, ..old(self)@ }),
    {
        self.stop_on_error = stop_on_error;
    }

    /// Build a controller plan for one tick.
    pub fn plan_tick(&mut self, now_secs: u64, lease: Option<LeaseRecord>) -> (r: ControllerPlan)
        ensures
            (final(self)@, r.outcome) == ticked(old(self)@, now_secs, lease),
            r.actions@ == runtime::actions_for(r.outcome),
    {
        self.runtime.plan_actions(
            now_secs,
            lease,
            self.min_source_generation,
            &self.promotion_config,
        )
    }

    /// Execute one reconcile tick through the provided action executor.
    pub fn tick<X: HaActionExecutor>(
        &mut self,
        now_secs: u64,
        lease: Option<LeaseRecord>,
        executor: &mut X,
    ) -> (r: ActionExecutionReport<X::Error>)
        ensures
            (final(self)@, r.plan.outcome) == ticked(old(self)@, now_secs, lease),
            r.plan.actions@ == runtime::actions_for(r.plan.outcome),
            old(executor).performed().is_prefix_of(final(executor).performed()),
            reports(
                r,
                old(self)@.stop_on_error,
                final(executor).performed().skip(old(executor).performed().len() as int),
            ),
    {
        let plan: ControllerPlan = self.plan_tick(now_secs, lease);
        execute_controller_plan(plan, executor, self.stop_on_error)
    }

    /// Execute one tick using a lease reader.
    ///
    /// The reader is asked once. If lease read fails, the controller runs a fail-safe fallback tick with
    /// `None` lease (which demotes a writer and keeps replica mode) and returns
    /// both the lease read error and the fallback execution report.
    pub fn tick_with_reader<R: LeaseReader, X: HaActionExecutor>(
        &mut self,
        now_secs: u64,
        reader: &mut R,
        executor: &mut X,
    ) -> (r: ControllerTickOutcome<R::Error, X::Error>)
        ensures
            final(reader).answers().len() == old(reader).answers().len() + 1,
            final(reader).answers().drop_last() == old(reader).answers(),
            match final(reader).answers().last() {
                Ok(lease) => r matches ControllerTickOutcome::Executed(report) && (
                    final(self)@,
                    report.plan.outcome,
                ) == ticked(old(self)@, now_secs, lease),
                Err(e) => r matches ControllerTickOutcome::LeaseReadFailed {
                    error,
                    fallback_report,
                } && error == e && (final(self)@, fallback_report.plan.outcome) == ticked(
                    old(self)@,
                    now_secs,
                    None,
                ) && final(self)@.runtime.role == NodeRole::Replica
                    && final(self)@.runtime.lease is None,
            },
            ({
                let report = match r {
                    ControllerTickOutcome::Executed(report) => report,
                    ControllerTickOutcome::LeaseReadFailed { fallback_report, .. } =>
                        fallback_report,
                };
                report.plan.actions@ == runtime::actions_for(report.plan.outcome) && reports(
                    report,
                    old(self)@.stop_on_error,
                    final(executor).performed().skip(old(executor).performed().len() as int),
                )
            }),
            old(executor).performed().is_prefix_of(final(executor).performed()),
    {
        match reader.read_lease() {
            Ok(lease) => ControllerTickOutcome::Executed(self.tick(now_secs, lease, executor)),
            Err(error) => {
                let fallback_report: ActionExecutionReport<X::Error> = self.tick(
                    now_secs,
                    None,
                    executor,
                );
                ControllerTickOutcome::LeaseReadFailed { error, fallback_report }
            },
        }
    }
}

proof fn lemma_no_failures<E>(log: Seq<(HaAction, Result<(), E>)>)
    ensures
        failures_of(log).len() == 0 <==> (forall|i: int|
            0 <= i < log.len() ==> (#[trigger] log[i]).1 is Ok),
    decreases log.len(),
{
    if log.len() > 0 {
        let rest = log.drop_last();
        lemma_no_failures(rest);
        if forall|i: int| 0 <= i < log.len() ==> (#[trigger] log[i]).1 is Ok {
            assert forall|i: int| 0 <= i < rest.len() implies (#[trigger] rest[i]).1 is Ok by {
                assert(log[i].1 is Ok);
            }
            assert(log[log.len() - 1].1 is Ok);
        }
        if failures_of(log).len() == 0 {
            assert forall|i: int| 0 <= i < log.len() implies (#[trigger] log[i]).1 is Ok by {
                if i < rest.len() {
                    assert(rest[i].1 is Ok);
                }
            }
        }
    }
}

/// A report without failures means that every planned action was applied and
/// succeeded, in order.
pub proof fn law_success_means_whole_plan<E>(
    report: ActionExecutionReport<E>,
    stop_on_error: bool,
    log: Seq<(HaAction, Result<(), E>)>,
)
    requires
        reports(report, stop_on_error, log),
        report.failures@.len() == 0,
    ensures
        log.len() == report.plan.actions@.len(),
        forall|i: int|
            0 <= i < log.len() ==> (#[trigger] log[i]).0 == report.plan.actions@[i]
                && log[i].1 is Ok,
{
    lemma_no_failures(log);
    assert forall|i: int| 0 <= i < log.len() implies (#[trigger] log[i]).1 is Ok by {}
    if log.len() < report.plan.actions@.len() {
        assert(log[log.len() - 1].1 is Ok);
    }
}

/// Every action of a plan is asked for where errors do not stop it, and where they
/// do, all up to the first that fails.
pub proof fn law_plan_is_applied_in_order<E>(
    report: ActionExecutionReport<E>,
    stop_on_error: bool,
    log: Seq<(HaAction, Result<(), E>)>,
)
    requires
        reports(report, stop_on_error, log),
    ensures
        forall|i: int| 0 <= i < log.len() ==> (#[trigger] log[i]).0 == report.plan.actions@[i],
        !stop_on_error ==> log.len() == report.plan.actions@.len(),
        stop_on_error && log.len() < report.plan.actions@.len() ==> log.len() > 0 && log[log.len()
            - 1].1 is Err,
        stop_on_error ==> forall|i: int|
            0 <= i < log.len() && (#[trigger] log[i]).1 is Err ==> i == log.len() - 1,
        report.plan.actions@.len() > 0 ==> log.len() > 0,
{
}

proof fn lemma_failures<E>(log: Seq<(HaAction, Result<(), E>)>)
    ensures
        forall|i: int|
            0 <= i < log.len() ==> ((#[trigger] log[i]).1 matches Err(error) ==> failures_of(
                log,
            ).contains(ActionExecutionFailure { action: log[i].0, error })),
        forall|k: int|
            0 <= k < failures_of(log).len() ==> exists|i: int|
                0 <= i < log.len() && #[trigger] log[i] == (
                    (#[trigger] failures_of(log)[k]).action,
                    Err::<(), E>(failures_of(log)[k].error),
                ),
    decreases log.len(),
{
    let all = failures_of(log);
    if log.len() > 0 {
        let rest = log.drop_last();
        let before = failures_of(rest);
        lemma_failures(rest);
        let n = log.len() - 1;
        assert forall|i: int| 0 <= i < log.len() implies ((#[trigger] log[i]).1 matches Err(error)
            ==> all.contains(ActionExecutionFailure { action: log[i].0, error })) by {
            if log[i].1 is Err {
                let f = ActionExecutionFailure { action: log[i].0, error: log[i].1->Err_0 };
                if i < n {
                    assert(rest[i] == log[i]);
                    assert(before.contains(f));
                    let k = choose|k: int| 0 <= k < before.len() && before[k] == f;
                    assert(all[k] == f);
                } else {
                    assert(all[all.len() - 1] == f);
                }
            }
        }
        assert forall|k: int| 0 <= k < all.len() implies exists|i: int|
            0 <= i < log.len() && #[trigger] log[i] == (
                (#[trigger] all[k]).action,
                Err::<(), E>(all[k].error),
            ) by {
            if k < before.len() {
                assert(all[k] == before[k]);
                let i = choose|i: int|
                    0 <= i < rest.len() && #[trigger] rest[i] == (
                        before[k].action,
                        Err::<(), E>(before[k].error),
                    );
                assert(log[i] == rest[i]);
            } else {
                assert(log[n] == (all[k].action, Err::<(), E>(all[k].error)));
            }
        }
    }
}

/// A report lists exactly the actions that failed, each with its own error.
pub proof fn law_report_lists_the_failures<E>(
    report: ActionExecutionReport<E>,
    stop_on_error: bool,
    log: Seq<(HaAction, Result<(), E>)>,
)
    requires
        reports(report, stop_on_error, log),
    ensures
        forall|i: int|
            0 <= i < log.len() ==> ((#[trigger] log[i]).1 matches Err(error)
                ==> report.failures@.contains(
                ActionExecutionFailure { action: log[i].0, error },
            )),
        forall|k: int|
            0 <= k < report.failures@.len() ==> exists|i: int|
                0 <= i < log.len() && #[trigger] log[i] == (
                    (#[trigger] report.failures@[k]).action,
                    Err::<(), E>(report.failures@[k].error),
                ),
{
    lemma_failures(log);
}

/// A tick uses the lease that it is shown, the controller's own generation bound and
/// promotion policy, and leaves these as they are.
pub proof fn law_tick_reconciles_with_its_settings(
    state: ControllerView,
    now_secs: u64,
    lease: Option<LeaseRecord>,
)
    ensures
        ({
            let (after, outcome) = ticked(state, now_secs, lease);
            &&& (after.runtime, outcome) == runtime::reconciled(
                state.runtime,
                now_secs,
                lease,
                state.min_source_generation,
                state.promotion_config,
            )
            &&& after.promotion_config == state.promotion_config
            &&& after.min_source_generation == state.min_source_generation
            &&& after.stop_on_error == state.stop_on_error
            &&& after.runtime.lease == lease
        }),
{
}

/// The failures of a log come in the order of the log.
pub proof fn law_failures_come_in_order<E>(
    first: Seq<(HaAction, Result<(), E>)>,
    second: Seq<(HaAction, Result<(), E>)>,
    entry: (HaAction, Result<(), E>),
)
    ensures
        failures_of(first + second) == failures_of(first) + failures_of(second),
        failures_of(seq![entry]) == match entry.1 {
            Ok(_) => Seq::empty(),
            Err(error) => seq![ActionExecutionFailure { action: entry.0, error }],
        },
    decreases second.len(),
{
    reveal_with_fuel(failures_of, 2);
    assert(seq![entry].drop_last() =~= Seq::empty());
    assert(failures_of(seq![entry]) =~= match entry.1 {
        Ok(_) => Seq::empty(),
        Err(error) => seq![ActionExecutionFailure { action: entry.0, error }],
    });
    if second.len() == 0 {
        assert(first + second =~= first);
        assert(failures_of(first) + failures_of(second) =~= failures_of(first));
    } else {
        assert((first + second).drop_last() =~= first + second.drop_last());
        assert((first + second).last() == second.last());
        law_failures_come_in_order(first, second.drop_last(), entry);
        assert(failures_of(first + second) =~= failures_of(first) + failures_of(second));
    }
}

} // verus!
