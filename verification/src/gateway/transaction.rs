//! Running the statements of a batch within an optional transaction.
use vstd::prelude::*;

use crate::error::{Result, SyncError};
use crate::gateway::rows;
use crate::gateway::rows::RowCollector;
use crate::gateway::values;
use crate::gateway::values::ColumnInfo;
use crate::proto::{
    BatchResponse, BatchTransactionMode, ExecuteResponse, StatementOutcome, StatementResult,
};

verus! {

/// What came of a statement of a batch.
#[derive(Debug)]
pub enum StatementEvent {
    /// It could not be prepared, its parameters could not be bound, or a step of
    /// it failed.
    Failed(SyncError),
    /// It read these rows.
    Read { columns: Vec<ColumnInfo>, rows: RowCollector, execution_time_us: u64 },
    /// It wrote.
    Written { rows_affected: u64, last_insert_rowid: i64, execution_time_us: u64 },
}

/// What to do next for a batch.
#[derive(Debug, PartialEq, Eq)]
pub enum BatchAction {
    /// Begin the transaction with this statement.
    Begin(String),
    /// Run the statement with this index.
    Run(usize),
    /// End the transaction with `COMMIT`.
    Commit,
    /// End the transaction with `ROLLBACK`.
    Rollback,
    /// Respond.
    Respond,
}

/// Where a batch stands.
#[derive(Debug, Clone, Copy, PartialEq, Eq, Structural)]
pub enum BatchPhase {
    /// The transaction is to begin.
    Beginning,
    /// The statements run.
    Running,
    /// The transaction is to be committed.
    Committing,
    /// The transaction is to be rolled back.
    RollingBack,
    /// All is done, and the changes are kept or not.
    Done { committed: bool },
}

/// A batch, as plain data.
pub struct BatchView {
    pub mode: BatchTransactionMode,
    pub stop_on_error: bool,
    pub count: nat,
    /// The number of statements that ran.
    pub ran: nat,
    pub has_error: bool,
    pub phase: BatchPhase,
}

/// The phase when no more statements run.
pub open spec fn closing_phase(v: BatchView) -> BatchPhase {
    if v.mode == BatchTransactionMode::NoTransaction {
        BatchPhase::Done { committed: !v.has_error }
    } else if v.has_error && v.stop_on_error {
        BatchPhase::RollingBack
    } else {
        BatchPhase::Committing
    }
}

/// A batch at its start.
pub open spec fn batch_start(
    mode: BatchTransactionMode,
    stop_on_error: bool,
    count: nat,
) -> BatchView {
    let v = BatchView {
        mode,
        stop_on_error,
        count,
        ran: 0,
        has_error: false,
        phase: BatchPhase::Running,
    };
    BatchView {
        phase: if mode != BatchTransactionMode::NoTransaction {
            BatchPhase::Beginning
        } else if count == 0 {
            closing_phase(v)
        } else {
            BatchPhase::Running
        },
        ..v
    }
}

/// A batch whose transaction has begun.
pub open spec fn batch_begun(v: BatchView) -> BatchView {
    BatchView {
        phase: if v.count == 0 {
            closing_phase(v)
        } else {
            BatchPhase::Running
        },
        ..v
    }
}

/// A batch after one more statement ran.
pub open spec fn batch_step(v: BatchView, failed: bool) -> BatchView {
    let w = BatchView { ran: v.ran + 1, has_error: v.has_error || failed, ..v };
    BatchView {
        phase: if (failed && v.stop_on_error) || w.ran >= v.count {
            closing_phase(w)
        } else {
            BatchPhase::Running
        },
        ..w
    }
}

/// What a batch in this phase asks for.
pub open spec fn asks_for(v: BatchView, action: BatchAction) -> bool {
    match v.phase {
        BatchPhase::Beginning => action matches BatchAction::Begin(sql) && sql@ == match v.mode {
            BatchTransactionMode::Immediate => "BEGIN IMMEDIATE"@,
            BatchTransactionMode::Exclusive => "BEGIN EXCLUSIVE"@,
            _ => "BEGIN DEFERRED"@,
        },
        BatchPhase::Running => action matches BatchAction::Run(i) && i == v.ran,
        BatchPhase::Committing => action is Commit,
        BatchPhase::RollingBack => action is Rollback,
        BatchPhase::Done { .. } => action is Respond,
    }
}

/// Whether this is the result of a statement, from what came of it.
pub open spec fn is_result(r: StatementResult, event: StatementEvent, generation: u64) -> bool {
    match event {
        StatementEvent::Failed(e) => r.result is None && r.error@ == e.shown(),
        StatementEvent::Read { columns, rows, execution_time_us } => {
            &&& r.error@.len() == 0
            &&& r.result matches Some(StatementOutcome::QueryResult(q))
            &&& values::headers_of(q.columns@, columns@)
            &&& rows::row_views(q.rows@) == rows.collected()
            &&& q.total_rows == rows.collected().len()
            &&& q.execution_time_us == execution_time_us
            &&& q.generation == generation
            &&& !q.is_replica_read
        },
        StatementEvent::Written { rows_affected, last_insert_rowid, execution_time_us } => {
            &&& r.error@.len() == 0
            &&& r.result == Some(
                StatementOutcome::ExecuteResult(
                    ExecuteResponse {
                        rows_affected,
                        last_insert_rowid,
                        execution_time_us,
                        generation,
                    },
                ),
            )
        },
    }
}

/// The result of a statement, from what came of it.
fn statement_result(event: StatementEvent, generation: u64) -> (r: StatementResult)
    ensures
        is_result(r, event, generation),
{
    match event {
        StatementEvent::Failed(e) => StatementResult { result: None, error: e.display() },
        StatementEvent::Read { columns, rows, execution_time_us } => StatementResult {
            result: Some(
                StatementOutcome::QueryResult(
                    rows.into_response(&columns, execution_time_us, generation, false),
                ),
            ),
            error: String::new(),
        },
        StatementEvent::Written { rows_affected, last_insert_rowid, execution_time_us } =>
        StatementResult {
            result: Some(
                StatementOutcome::ExecuteResult(
                    ExecuteResponse {
                        rows_affected,
                        last_insert_rowid,
                        execution_time_us,
                        generation,
                    },
                ),
            ),
            error: String::new(),
        },
    }
}

/// A batch that is being run.
#[derive(Debug)]
pub struct BatchRun {
    mode: BatchTransactionMode,
    stop_on_error: bool,
    generation: u64,
    count: usize,
    has_error: bool,
    results: Vec<StatementResult>,
    phase: BatchPhase,
}

impl BatchRun {
    /// Where the batch stands.
    pub closed spec fn state(self) -> BatchView {
        BatchView {
            mode: self.mode,
            stop_on_error: self.stop_on_error,
            count: self.count as nat,
            ran: self.results@.len(),
            has_error: self.has_error,
            phase: self.phase,
        }
    }

    /// The results so far.
    pub closed spec fn outcomes(self) -> Seq<StatementResult> {
        self.results@
    }

    /// The generation that the responses carry.
    pub closed spec fn tag(self) -> u64 {
        self.generation
    }

    /// A batch of `count` statements.
    pub fn new(
        count: usize,
        mode: BatchTransactionMode,
        stop_on_error: bool,
        generation: u64,
    ) -> (r: BatchRun)
        ensures
            r.state() == batch_start(mode, stop_on_error, count as nat),
            r.outcomes() == Seq::<StatementResult>::empty(),
            r.tag() == generation,
    {
        let phase: BatchPhase = if mode != BatchTransactionMode::NoTransaction {
            BatchPhase::Beginning
        } else if count == 0 {
            BatchPhase::Done { committed: true }
        } else {
            BatchPhase::Running
        };
        BatchRun {
            mode,
            stop_on_error,
            generation,
            count,
            has_error: false,
            results: Vec::new(),
            phase,
        }
    }

    /// What to do next.
    pub fn action(&self) -> (r: BatchAction)
        ensures
            asks_for(self.state(), r),
    {
        match self.phase {
            BatchPhase::Beginning => {
                let sql: &str = match self.mode {
                    BatchTransactionMode::Immediate => "BEGIN IMMEDIATE",
                    BatchTransactionMode::Exclusive => "BEGIN EXCLUSIVE",
                    _ => "BEGIN DEFERRED",
                };
                BatchAction::Begin(sql.to_owned())
            },
            BatchPhase::Running => BatchAction::Run(self.results.len()),
            BatchPhase::Committing => BatchAction::Commit,
            BatchPhase::RollingBack => BatchAction::Rollback,
            BatchPhase::Done { .. } => BatchAction::Respond,
        }
    }

    fn close(&self) -> (r: BatchPhase)
        ensures
            r == closing_phase(self.state()),
    {
        if self.mode == BatchTransactionMode::NoTransaction {
            BatchPhase::Done { committed: !self.has_error }
        } else if self.has_error && self.stop_on_error {
            BatchPhase::RollingBack
        } else {
            BatchPhase::Committing
        }
    }

    /// The transaction has begun or not; where it has not, the batch fails.
    pub fn on_begin(&mut self, outcome: Result<()>) -> (r: Result<()>)
        requires
            old(self).state().phase == BatchPhase::Beginning,
        ensures
            match outcome {
                Ok(()) => r is Ok,
                Err(e) => r matches Err(f) && f == e,
            },
            final(self).outcomes() == old(self).outcomes(),
            final(self).tag() == old(self).tag(),
            outcome is Ok ==> final(self).state() == batch_begun(old(self).state()),
            outcome is Err ==> final(self).state() == old(self).state(),
    {
        match outcome {
            Err(e) => Err(e),
            Ok(()) => {
                if self.count == 0 {
                    self.phase = self.close();
                } else {
                    self.phase = BatchPhase::Running;
                }
                Ok(())
            },
        }
    }

    /// The next statement ran, and this came of it.
    pub fn on_statement(&mut self, event: StatementEvent)
        requires
            old(self).state().phase == BatchPhase::Running,
        ensures
            final(self).state() == batch_step(old(self).state(), event is Failed),
            final(self).tag() == old(self).tag(),
            final(self).outcomes().len() == old(self).outcomes().len() + 1,
            final(self).outcomes().drop_last() == old(self).outcomes(),
            is_result(final(self).outcomes().last(), event, old(self).tag()),
    {
        let failed: bool = match &event {
            StatementEvent::Failed(_) => true,
            _ => false,
        };
        let ghost before = self.results@;
        self.results.push(statement_result(event, self.generation));
        assert(self.results@.drop_last() == before);
        if failed {
            self.has_error = true;
        }
        if (failed && self.stop_on_error) || self.results.len() >= self.count {
            self.phase = self.close();
        }
    }

    /// The transaction was ended, well or not.
    pub fn on_end(&mut self, ended_well: bool)
        requires
            old(self).state().phase == BatchPhase::Committing || old(self).state().phase
                == BatchPhase::RollingBack,
        ensures
            final(self).state() == (BatchView {
                phase: BatchPhase::Done {
                    committed: old(self).state().phase == BatchPhase::Committing && ended_well,
                },
                ..old(self).state()
            }),
            final(self).outcomes() == old(self).outcomes(),
            final(self).tag() == old(self).tag(),
    {
        let committed: bool = self.phase == BatchPhase::Committing && ended_well;
        self.phase = BatchPhase::Done { committed };
    }

    /// The response to the batch.
    pub fn respond(self, total_execution_time_us: u64) -> (r: BatchResponse)
        requires
            self.state().phase is Done,
        ensures
            r.results@ == self.outcomes(),
            r.total_execution_time_us == total_execution_time_us,
            r.generation == self.tag(),
            r.committed == self.state().phase->committed,
    {
        let committed: bool = match self.phase {
            BatchPhase::Done { committed } => committed,
            _ => false,
        };
        BatchResponse {
            results: self.results,
            total_execution_time_us,
            generation: self.generation,
            committed,
        }
    }
}

/// A batch after statements that failed or not, until no more of them run.
pub open spec fn after_statements(v: BatchView, fails: Seq<bool>) -> BatchView
    decreases fails.len(),
{
    if fails.len() == 0 || v.phase != BatchPhase::Running {
        v
    } else {
        after_statements(batch_step(v, fails[0]), fails.skip(1))
    }
}

/// The number of statements before the first one that fails.
pub open spec fn good_prefix(fails: Seq<bool>) -> nat
    decreases fails.len(),
{
    if fails.len() == 0 || fails[0] {
        0
    } else {
        1 + good_prefix(fails.skip(1))
    }
}

proof fn lemma_stopping(v: BatchView, fails: Seq<bool>)
    requires
        v.phase == BatchPhase::Running,
        v.stop_on_error,
        !v.has_error,
        fails.len() > 0,
        v.ran + fails.len() == v.count,
    ensures
        ({
            let end = after_statements(v, fails);
            if good_prefix(fails) == fails.len() {
                &&& end.ran == v.count
                &&& !end.has_error
                &&& end.phase == closing_phase(BatchView { has_error: false, ..v })
            } else {
                &&& end.ran == v.ran + good_prefix(fails) + 1
                &&& end.has_error
                &&& end.phase == closing_phase(BatchView { has_error: true, ..v })
            }
        }),
    decreases fails.len(),
{
    let w = batch_step(v, fails[0]);
    if !fails[0] && fails.len() > 1 {
        lemma_stopping(w, fails.skip(1));
    } else {
        assert(after_statements(w, fails.skip(1)) == w);
        if !fails[0] {
            assert(good_prefix(fails.skip(1)) == 0);
        }
    }
}

/// A batch that stops on errors is all or nothing: in a transaction, with a
/// statement that fails it runs no further and is rolled back; without one it
/// runs to its end and is committed.
pub proof fn law_stopping_batch_is_atomic(mode: BatchTransactionMode, fails: Seq<bool>)
    requires
        mode != BatchTransactionMode::NoTransaction,
    ensures
        ({
            let end = after_statements(batch_begun(batch_start(mode, true, fails.len())), fails);
            if good_prefix(fails) < fails.len() {
                end.ran == good_prefix(fails) + 1 && end.phase == BatchPhase::RollingBack
            } else {
                end.ran == fails.len() && end.phase == BatchPhase::Committing
            }
        }),
{
    lemma_good_prefix(fails);
    let begun = batch_begun(batch_start(mode, true, fails.len()));
    if fails.len() > 0 {
        lemma_stopping(begun, fails);
    }
}

proof fn lemma_good_prefix(fails: Seq<bool>)
    ensures
        good_prefix(fails) <= fails.len(),
    decreases fails.len(),
{
    if fails.len() > 0 && !fails[0] {
        lemma_good_prefix(fails.skip(1));
    }
}

proof fn lemma_going_on(v: BatchView, fails: Seq<bool>)
    requires
        v.phase == BatchPhase::Running,
        !v.stop_on_error,
        fails.len() > 0,
        v.ran + fails.len() == v.count,
    ensures
        ({
            let end = after_statements(v, fails);
            &&& end.ran == v.count
            &&& end.has_error == (v.has_error || good_prefix(fails) < fails.len())
            &&& end.phase == closing_phase(BatchView { has_error: end.has_error, ..v })
        }),
    decreases fails.len(),
{
    let w = batch_step(v, fails[0]);
    lemma_good_prefix(fails.skip(1));
    if fails.len() > 1 {
        lemma_going_on(w, fails.skip(1));
    } else {
        assert(after_statements(w, fails.skip(1)) == w);
        if !fails[0] {
            assert(good_prefix(fails.skip(1)) == 0);
        }
    }
}

/// A batch that does not stop on errors runs every statement. In a transaction
/// it is committed; without one it counts as committed if no statement failed.
pub proof fn law_lenient_batch_runs_everything(mode: BatchTransactionMode, fails: Seq<bool>)
    ensures
        ({
            let start = batch_start(mode, false, fails.len());
            let begun = if mode != BatchTransactionMode::NoTransaction {
                batch_begun(start)
            } else {
                start
            };
            let end = after_statements(begun, fails);
            &&& end.ran == fails.len()
            &&& end.phase == if mode != BatchTransactionMode::NoTransaction {
                BatchPhase::Committing
            } else {
                BatchPhase::Done { committed: good_prefix(fails) == fails.len() }
            }
        }),
{
    lemma_good_prefix(fails);
    let start = batch_start(mode, false, fails.len());
    if fails.len() > 0 {
        if mode != BatchTransactionMode::NoTransaction {
            lemma_going_on(batch_begun(start), fails);
        } else {
            lemma_going_on(start, fails);
        }
    }
}

/// The good statements are those before the first one that fails.
pub proof fn law_good_statements_come_before_the_first_failure(fails: Seq<bool>)
    ensures
        good_prefix(fails) <= fails.len(),
        forall|i: int| 0 <= i < good_prefix(fails) ==> !(#[trigger] fails[i]),
        good_prefix(fails) < fails.len() ==> fails[good_prefix(fails) as int],
    decreases fails.len(),
{
    if fails.len() > 0 && !fails[0] {
        let rest = fails.skip(1);
        law_good_statements_come_before_the_first_failure(rest);
        assert forall|i: int| 0 <= i < good_prefix(fails) implies !(#[trigger] fails[i]) by {
            if i > 0 {
                assert(rest[i - 1] == fails[i]);
            }
        }
    }
}

/// Without a transaction a batch that stops on errors runs up to the first statement
/// that fails, and counts as committed exactly if none does.
pub proof fn law_stopping_batch_without_transaction(fails: Seq<bool>)
    ensures
        ({
            let start = batch_start(BatchTransactionMode::NoTransaction, true, fails.len());
            let end = after_statements(start, fails);
            &&& end.phase == (BatchPhase::Done { committed: good_prefix(fails) == fails.len() })
            &&& end.ran == if good_prefix(fails) < fails.len() {
                good_prefix(fails) + 1
            } else {
                fails.len()
            }
        }),
{
    lemma_good_prefix(fails);
    let start = batch_start(BatchTransactionMode::NoTransaction, true, fails.len());
    if fails.len() > 0 {
        lemma_stopping(start, fails);
    }
}

/// A transaction is begun as its mode says; a batch without one begins none.
pub proof fn law_transaction_begins_in_its_mode(
    mode: BatchTransactionMode,
    stop_on_error: bool,
    count: nat,
    action: BatchAction,
)
    requires
        asks_for(batch_start(mode, stop_on_error, count), action),
    ensures
        action is Begin <==> mode != BatchTransactionMode::NoTransaction,
        mode == BatchTransactionMode::NoTransaction && count > 0 ==> action == BatchAction::Run(0),
        mode == BatchTransactionMode::NoTransaction && count == 0 ==> action is Respond,
        action matches BatchAction::Begin(sql) ==> {
            &&& mode == BatchTransactionMode::Deferred ==> sql@ == "BEGIN DEFERRED"@
            &&& mode == BatchTransactionMode::Immediate ==> sql@ == "BEGIN IMMEDIATE"@
            &&& mode == BatchTransactionMode::Exclusive ==> sql@ == "BEGIN EXCLUSIVE"@
        },
{
}

/// The statements are asked for one after the other, and the end of the transaction
/// when it is due.
pub proof fn law_batch_asks_for_what_is_due(v: BatchView, action: BatchAction)
    requires
        asks_for(v, action),
    ensures
        action is Run <==> v.phase == BatchPhase::Running,
        action matches BatchAction::Run(i) ==> i == v.ran,
        action is Commit <==> v.phase == BatchPhase::Committing,
        action is Rollback <==> v.phase == BatchPhase::RollingBack,
        action is Respond <==> v.phase is Done,
{
}

/// A statement that failed has its error for a result, and every other one has no
/// error and what it gave.
pub proof fn law_result_tells_what_came_of_the_statement(
    r: StatementResult,
    event: StatementEvent,
    generation: u64,
)
    requires
        is_result(r, event, generation),
    ensures
        event is Failed <==> r.result is None,
        event matches StatementEvent::Failed(e) ==> r.error@ == e.shown(),
        !(event is Failed) ==> r.error@.len() == 0,
        event matches StatementEvent::Written { rows_affected, last_insert_rowid, .. } ==> (
        r.result matches Some(StatementOutcome::ExecuteResult(x)) && x.rows_affected
            == rows_affected && x.last_insert_rowid == last_insert_rowid && x.generation
            == generation),
        event matches StatementEvent::Read { columns, rows, .. } ==> (r.result matches Some(
            StatementOutcome::QueryResult(q),
        ) && q.total_rows == q.rows@.len() && rows::row_views(q.rows@) == rows.collected()
            && q.columns@.len() == columns@.len() && q.generation == generation),
{
    if event is Read {
        let q = r.result->0->QueryResult_0;
        assert(rows::row_views(q.rows@).len() == q.rows@.len());
    }
}

} // verus!
