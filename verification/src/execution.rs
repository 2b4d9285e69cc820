//! Running a script statement by statement against a connection.
//!
//! `ScriptRun` decides what to ask the server next and what becomes of each
//! answer: which statement to prepare, whether to query or execute it,
//! when to stop, and whether a transaction is committed or rolled back.
//! The caller talks to the server and reports each answer back.
use vstd::prelude::*;
use crate::db_types::{QueryColumnMeta, QueryResult};
use crate::text::{
    to_uppercase, unicode_uppercase, starts_with, chars_of, slice_starts_with, str_to_owned, push_str,
    trim, is_blank, trim_string,
};

verus! {

/// How a script is run.
#[derive(Debug, Clone, Copy)]
pub struct ExecOptions {
    /// Run all statements in one transaction, stopping at the first error.
    pub transactional: bool,
    /// Outside a transaction, stop at the first error.
    pub stop_on_error: bool,
    /// Run a script as it is read, with progress by bytes, even where it
    /// is not a file.
    pub streaming: bool,
}

/// Outcome of a statement that returned no rows.
#[derive(Debug)]
pub struct ExecResult {
    pub sql: String,
    pub rows_affected: u64,
    pub elapsed_ms: u128,
    pub message: Option<String>,
}

/// A statement the server refused.
#[derive(Debug)]
pub struct SqlErrorInfo {
    pub sql: String,
    pub message: String,
}

/// Outcome of one statement.
#[derive(Debug)]
pub enum SqlResult {
    Query(QueryResult),
    Exec(ExecResult),
    Error(SqlErrorInfo),
}

impl SqlResult {
    pub open spec fn is_error_spec(&self) -> bool {
        self is Error
    }

    pub fn is_error(&self) -> (r: bool)
        ensures
            r == self.is_error_spec(),
    {
        match self {
            SqlResult::Error(_) => true,
            _ => false,
        }
    }
}

/// Why a whole run failed (as opposed to one statement).
#[derive(Debug, Clone, Copy, PartialEq, Eq, Structural)]
pub enum TransactionError {
    BeginFailed,
    CommitFailed,
    RollbackFailed,
}

/// Where a run stands.
#[derive(Debug, Clone, Copy, PartialEq, Eq, Structural)]
pub enum RunPhase {
    /// The transaction is to be opened.
    Begin,
    /// The current statement is to be prepared (or, for `SET search_path`
    /// outside a transaction, run directly).
    Prepare,
    /// The current statement was prepared; it returns rows or not.
    Run { has_columns: bool },
    /// The transaction is to be committed or rolled back.
    Finish,
    /// Nothing more to do.
    Done,
}

/// What the caller is asked to do next.
#[derive(Debug)]
pub enum RunAction {
    BeginTransaction,
    Prepare(String),
    /// Run a `SET search_path` statement directly.
    SetSearchPath(String),
    Execute(String),
    Query(String),
    Commit,
    Rollback,
    Finished,
}

/// What the server answered.
#[derive(Debug)]
pub enum RunEvent {
    Begun,
    Prepared { has_columns: bool },
    Executed { rows_affected: u64, elapsed_ms: u128, message: Option<String> },
    /// The rows of a query: its columns (with their types) and rows.
    Queried {
        columns: Vec<String>,
        column_meta: Vec<QueryColumnMeta>,
        rows: Vec<Vec<Option<String>>>,
        elapsed_ms: u128,
    },
    Failed(String),
    Committed,
    RolledBack,
}

/// Whether a statement changes the search path (`SET SEARCH_PATH ...` in
/// any case).
pub open spec fn is_search_path(sql: Seq<char>) -> bool {
    starts_with(unicode_uppercase(sql), "SET SEARCH_PATH"@)
}

pub fn is_search_path_statement(sql: &str) -> (r: bool)
    ensures
        r == is_search_path(sql@),
{
    let upper = to_uppercase(sql);
    let u = chars_of(upper.as_str());
    let p = chars_of("SET SEARCH_PATH");
    slice_starts_with(u.as_slice(), p.as_slice())
}

/// The progress of a script run.
pub struct ScriptRun {
    statements: Vec<String>,
    options: ExecOptions,
    index: usize,
    phase: RunPhase,
    results: Vec<SqlResult>,
    /// The run stopped at an error before the last statement.
    stopped: bool,
    /// How the transaction ended badly, if it did.
    failure: Option<TransactionError>,
}

/// The statement a result is for.
pub open spec fn result_sql(r: SqlResult) -> String {
    match r {
        SqlResult::Query(q) => q.sql,
        SqlResult::Exec(e) => e.sql,
        SqlResult::Error(e) => e.sql,
    }
}

/// Each result is for the statement at its position.
pub open spec fn results_follow(rs: Seq<SqlResult>, statements: Seq<String>) -> bool {
    &&& rs.len() <= statements.len()
    &&& forall|i: int| 0 <= i < rs.len() ==> result_sql(#[trigger] rs[i]) == statements[i]
}

/// Whether any result is an error.
pub open spec fn has_error(rs: Seq<SqlResult>) -> bool {
    exists|i: int| 0 <= i < rs.len() && (#[trigger] rs[i]).is_error_spec()
}

impl ScriptRun {
    pub closed spec fn statements_spec(&self) -> Seq<String> {
        self.statements@
    }

    pub closed spec fn options_spec(&self) -> ExecOptions {
        self.options
    }

    pub closed spec fn index_spec(&self) -> int {
        self.index as int
    }

    pub closed spec fn phase_spec(&self) -> RunPhase {
        self.phase
    }

    pub closed spec fn results_spec(&self) -> Seq<SqlResult> {
        self.results@
    }

    pub closed spec fn stopped_spec(&self) -> bool {
        self.stopped
    }

    pub closed spec fn failure_spec(&self) -> Option<TransactionError> {
        self.failure
    }

    /// The run's invariant.
    pub closed spec fn wf(&self) -> bool {
        let n = self.statements@.len();
        let rs = self.results@;
        let tx = self.options.transactional;
        &&& self.index <= n
        &&& results_follow(rs, self.statements@)
        &&& (self.phase is Prepare || self.phase is Run) ==> self.index < n
        &&& self.phase is Begin ==> tx && self.index == 0 && rs.len() == 0
        &&& self.phase is Finish ==> tx
        &&& (self.phase is Begin || self.phase is Prepare || self.phase is Run) ==> {
            &&& rs.len() == self.index
            &&& !self.stopped
            &&& (tx || self.options.stop_on_error) ==> !has_error(rs)
        }
        &&& (self.phase is Finish || self.phase is Done) ==> {
            ||| (!self.stopped && rs.len() == self.index && self.index == n && ((tx
                || self.options.stop_on_error) ==> !has_error(rs)))
            ||| (self.stopped && rs.len() == self.index + 1 && rs.last().is_error_spec() && !has_error(
                rs.drop_last(),
            ) && (tx || self.options.stop_on_error))
            ||| (self.failure is Some && self.failure != Some(TransactionError::RollbackFailed))
        }
        &&& self.failure is Some ==> self.phase is Done && tx
        &&& self.failure == Some(TransactionError::BeginFailed) ==> rs.len() == 0
    }

    /// A run of the given statements.
    pub fn new(statements: Vec<String>, options: ExecOptions) -> (r: ScriptRun)
        ensures
            r.wf(),
            r.statements_spec() == statements@,
            r.options_spec() == options,
            r.index_spec() == 0,
            r.results_spec().len() == 0,
            r.phase_spec() == (if options.transactional {
                RunPhase::Begin
            } else if statements@.len() == 0 {
                RunPhase::Done
            } else {
                RunPhase::Prepare
            }),
    {
        let phase = if options.transactional {
            RunPhase::Begin
        } else if statements.len() == 0 {
            RunPhase::Done
        } else {
            RunPhase::Prepare
        };
        ScriptRun {
            statements,
            options,
            index: 0,
            phase,
            results: Vec::new(),
            stopped: false,
            failure: None,
        }
    }

    /// What to do next.
    pub fn action(&self) -> (r: RunAction)
        requires
            self.wf(),
        ensures
            match self.phase_spec() {
                RunPhase::Begin => r is BeginTransaction,
                RunPhase::Prepare => {
                    let s = self.statements_spec()[self.index_spec()];
                    if !self.options_spec().transactional && is_search_path(s@) {
                        r matches RunAction::SetSearchPath(x) && x@ == s@
                    } else {
                        r matches RunAction::Prepare(x) && x@ == s@
                    }
                },
                RunPhase::Run { has_columns } => {
                    let s = self.statements_spec()[self.index_spec()];
                    if has_columns {
                        r matches RunAction::Query(x) && x@ == s@
                    } else {
                        r matches RunAction::Execute(x) && x@ == s@
                    }
                },
                RunPhase::Finish => if has_error(self.results_spec()) {
                    r is Rollback
                } else {
                    r is Commit
                },
                RunPhase::Done => r is Finished,
            },
    {
        match self.phase {
            RunPhase::Begin => RunAction::BeginTransaction,
            RunPhase::Prepare => {
                let s = self.statements[self.index].clone();
                if !self.options.transactional && is_search_path_statement(s.as_str()) {
                    RunAction::SetSearchPath(s)
                } else {
                    RunAction::Prepare(s)
                }
            },
            RunPhase::Run { has_columns } => {
                let s = self.statements[self.index].clone();
                if has_columns {
                    RunAction::Query(s)
                } else {
                    RunAction::Execute(s)
                }
            },
            RunPhase::Finish => {
                if self.any_error() {
                    RunAction::Rollback
                } else {
                    RunAction::Commit
                }
            },
            RunPhase::Done => RunAction::Finished,
        }
    }

    fn any_error(&self) -> (r: bool)
        ensures
            r == has_error(self.results@),
    {
        let mut i: usize = 0;
        while i < self.results.len()
            invariant
                i <= self.results.len(),
                forall|j: int| 0 <= j < i ==> !(#[trigger] self.results@[j]).is_error_spec(),
            decreases self.results.len() - i,
        {
            if self.results[i].is_error() {
                return true;
            }
            i += 1;
        }
        false
    }

    /// Moves past the current statement after a result that is not an error.
    fn advance(&mut self)
        requires
            old(self).index < old(self).statements.len(),
        ensures
            final(self).index == old(self).index + 1,
            final(self).phase == (if final(self).index < old(self).statements@.len() {
                RunPhase::Prepare
            } else if old(self).options.transactional {
                RunPhase::Finish
            } else {
                RunPhase::Done
            }),
            final(self).statements == old(self).statements,
            final(self).options == old(self).options,
            final(self).results == old(self).results,
            final(self).stopped == old(self).stopped,
            final(self).failure == old(self).failure,
    {
        self.index = self.index + 1;
        self.phase = if self.index < self.statements.len() {
            RunPhase::Prepare
        } else if self.options.transactional {
            RunPhase::Finish
        } else {
            RunPhase::Done
        };
    }

    proof fn lemma_push_error(rs: Seq<SqlResult>, e: SqlResult)
        requires
            !has_error(rs),
            e.is_error_spec(),
        ensures
            has_error(rs.push(e)),
            rs.push(e).drop_last() == rs,
            rs.push(e).last().is_error_spec(),
    {
        assert(rs.push(e)[rs.len() as int].is_error_spec());
        assert(rs.push(e).drop_last() =~= rs);
    }

    proof fn lemma_push_ok(rs: Seq<SqlResult>, e: SqlResult)
        requires
            !e.is_error_spec(),
        ensures
            has_error(rs.push(e)) == has_error(rs),
    {
        if has_error(rs.push(e)) {
            let i = choose|i: int| 0 <= i < rs.push(e).len() && (#[trigger] rs.push(e)[i]).is_error_spec();
            assert(i < rs.len());
            assert(rs[i] == rs.push(e)[i]);
        }
        if has_error(rs) {
            let i = choose|i: int| 0 <= i < rs.len() && (#[trigger] rs[i]).is_error_spec();
            assert(rs.push(e)[i] == rs[i]);
        }
    }

    /// Nothing changes but what the arguments say.
    pub open spec fn same_but(self, f: ScriptRun, index: int, phase: RunPhase, results: Seq<SqlResult>, stopped: bool, failure: Option<TransactionError>) -> bool {
        &&& f.statements_spec() == self.statements_spec()
        &&& f.options_spec() == self.options_spec()
        &&& f.index_spec() == index
        &&& f.phase_spec() == phase
        &&& f.results_spec() == results
        &&& f.stopped_spec() == stopped
        &&& f.failure_spec() == failure
    }

    /// The phase after the current statement is done with.
    pub open spec fn phase_after(self) -> RunPhase {
        if self.index_spec() + 1 < self.statements_spec().len() {
            RunPhase::Prepare
        } else if self.options_spec().transactional {
            RunPhase::Finish
        } else {
            RunPhase::Done
        }
    }

    /// `f` is `self` with `r` recorded and the next statement current.
    pub open spec fn advanced_with(self, f: ScriptRun, results: Seq<SqlResult>) -> bool {
        self.same_but(f, self.index_spec() + 1, self.phase_after(), results, self.stopped_spec(), self.failure_spec())
    }

    /// `f` is `self` after the current statement was refused with `message`:
    /// the refusal is recorded; a transaction goes on to its rollback, a run
    /// that stops on errors ends, any other run goes on with the next
    /// statement.
    pub open spec fn failed_with(self, f: ScriptRun, message: String) -> bool {
        let rs = self.results_spec().push(
            SqlResult::Error(SqlErrorInfo { sql: self.statements_spec()[self.index_spec()], message }),
        );
        if self.options_spec().transactional {
            self.same_but(f, self.index_spec(), RunPhase::Finish, rs, true, self.failure_spec())
        } else if self.options_spec().stop_on_error {
            self.same_but(f, self.index_spec(), RunPhase::Done, rs, true, self.failure_spec())
        } else {
            self.advanced_with(f, rs)
        }
    }

    /// What one answer does to a run.
    pub open spec fn step_effect(self, f: ScriptRun, event: RunEvent) -> bool {
        let i = self.index_spec();
        let rs = self.results_spec();
        let unchanged = self.same_but(f, i, self.phase_spec(), rs, self.stopped_spec(), self.failure_spec());
        let sql = self.statements_spec()[i];
        match self.phase_spec() {
            RunPhase::Begin => match event {
                RunEvent::Begun => self.same_but(
                    f,
                    i,
                    if self.statements_spec().len() == 0 {
                        RunPhase::Finish
                    } else {
                        RunPhase::Prepare
                    },
                    rs,
                    self.stopped_spec(),
                    self.failure_spec(),
                ),
                RunEvent::Failed(_) => self.same_but(
                    f,
                    i,
                    RunPhase::Done,
                    rs,
                    self.stopped_spec(),
                    Some(TransactionError::BeginFailed),
                ),
                _ => unchanged,
            },
            RunPhase::Prepare => {
                let direct = !self.options_spec().transactional && is_search_path(sql@);
                match event {
                    RunEvent::Prepared { has_columns } => if direct {
                        unchanged
                    } else {
                        self.same_but(f, i, RunPhase::Run { has_columns }, rs, self.stopped_spec(), self.failure_spec())
                    },
                    RunEvent::Executed { elapsed_ms, .. } => if direct {
                        &&& f.results_spec().len() == rs.len() + 1
                        &&& self.advanced_with(f, f.results_spec())
                        &&& f.results_spec().drop_last() == rs
                        &&& f.results_spec().last() matches SqlResult::Exec(e)
                        &&& e.sql == sql && e.rows_affected == 0 && e.elapsed_ms == elapsed_ms
                        &&& crate::models::opt_view(e.message) == Some("Search path changed"@)
                    } else {
                        unchanged
                    },
                    RunEvent::Failed(m) => self.failed_with(f, m),
                    _ => unchanged,
                }
            },
            RunPhase::Run { has_columns } => match event {
                RunEvent::Executed { rows_affected, elapsed_ms, message } => if !has_columns {
                    self.advanced_with(
                        f,
                        rs.push(SqlResult::Exec(ExecResult { sql, rows_affected, elapsed_ms, message })),
                    )
                } else {
                    unchanged
                },
                RunEvent::Queried { columns, column_meta, rows, elapsed_ms } => if has_columns {
                    self.advanced_with(
                        f,
                        rs.push(SqlResult::Query(QueryResult { sql, columns, column_meta, rows, elapsed_ms })),
                    )
                } else {
                    unchanged
                },
                RunEvent::Failed(m) => self.failed_with(f, m),
                _ => unchanged,
            },
            RunPhase::Finish => match event {
                RunEvent::Committed | RunEvent::RolledBack => self.same_but(
                    f,
                    i,
                    RunPhase::Done,
                    rs,
                    self.stopped_spec(),
                    self.failure_spec(),
                ),
                RunEvent::Failed(_) => self.same_but(
                    f,
                    i,
                    RunPhase::Done,
                    rs,
                    self.stopped_spec(),
                    Some(
                        if has_error(rs) {
                            TransactionError::RollbackFailed
                        } else {
                            TransactionError::CommitFailed
                        },
                    ),
                ),
                _ => unchanged,
            },
            RunPhase::Done => unchanged,
        }
    }

    /// Records the server's answer to the last action.
    pub fn step(&mut self, event: RunEvent)
        requires
            old(self).wf(),
        ensures
            final(self).wf(),
            old(self).step_effect(*final(self), event),
    {
        let ghost old_rs = self.results@;
        match self.phase {
            RunPhase::Begin => {
                match event {
                    RunEvent::Begun => {
                        self.phase = if self.statements.len() == 0 {
                            RunPhase::Finish
                        } else {
                            RunPhase::Prepare
                        };
                    },
                    RunEvent::Failed(_) => {
                        self.failure = Some(TransactionError::BeginFailed);
                        self.phase = RunPhase::Done;
                    },
                    _ => {},
                }
            },
            RunPhase::Prepare => {
                let sql = self.statements[self.index].clone();
                let direct = !self.options.transactional && is_search_path_statement(sql.as_str());
                match event {
                    RunEvent::Prepared { has_columns } => {
                        if !direct {
                            self.phase = RunPhase::Run { has_columns };
                        }
                    },
                    RunEvent::Executed { elapsed_ms, .. } => {
                        if direct {
                            let r = SqlResult::Exec(ExecResult {
                                sql,
                                rows_affected: 0,
                                elapsed_ms,
                                message: Some(str_to_owned("Search path changed")),
                            });
                            self.results.push(r);
                            proof {
                                Self::lemma_push_ok(old_rs, self.results@.last());
                                assert(self.results@.drop_last() =~= old_rs);
                            }
                            self.advance();
                        }
                    },
                    RunEvent::Failed(message) => {
                        self.fail(sql, message);
                    },
                    _ => {},
                }
            },
            RunPhase::Run { has_columns } => {
                let sql = self.statements[self.index].clone();
                match event {
                    RunEvent::Executed { rows_affected, elapsed_ms, message } => {
                        if !has_columns {
                            let r = SqlResult::Exec(ExecResult { sql, rows_affected, elapsed_ms, message });
                            self.results.push(r);
                            proof {
                                Self::lemma_push_ok(old_rs, self.results@.last());
                                assert(self.results@.drop_last() =~= old_rs);
                            }
                            self.advance();
                        }
                    },
                    RunEvent::Queried { columns, column_meta, rows, elapsed_ms } => {
                        if has_columns {
                            self.results.push(SqlResult::Query(QueryResult { sql, columns, column_meta, rows, elapsed_ms }));
                            proof {
                                Self::lemma_push_ok(old_rs, self.results@.last());
                                assert(self.results@.drop_last() =~= old_rs);
                            }
                            self.advance();
                        }
                    },
                    RunEvent::Failed(message) => {
                        self.fail(sql, message);
                    },
                    _ => {},
                }
            },
            RunPhase::Finish => {
                match event {
                    RunEvent::Committed | RunEvent::RolledBack => {
                        self.phase = RunPhase::Done;
                    },
                    RunEvent::Failed(_) => {
                        let rollback = self.any_error();
                        self.failure = Some(
                            if rollback {
                                TransactionError::RollbackFailed
                            } else {
                                TransactionError::CommitFailed
                            },
                        );
                        self.phase = RunPhase::Done;
                    },
                    _ => {},
                }
            },
            RunPhase::Done => {},
        }
        proof {
            assert(old(self).results@ =~= self.results@.take(old(self).results@.len() as int));
        }
    }

    /// Records a refused statement and decides whether to go on.
    fn fail(&mut self, sql: String, message: String)
        requires
            old(self).wf(),
            old(self).phase is Prepare || old(self).phase is Run,
            sql == old(self).statements@[old(self).index as int],
        ensures
            final(self).wf(),
            final(self).statements == old(self).statements,
            final(self).options == old(self).options,
            final(self).results@ == old(self).results@.push(SqlResult::Error(SqlErrorInfo { sql, message })),
            sql == old(self).statements@[old(self).index as int] ==> old(self).failed_with(*final(self), message),
    {
        let ghost old_rs = self.results@;
        self.results.push(SqlResult::Error(SqlErrorInfo { sql, message }));
        if self.options.transactional {
            proof {
                Self::lemma_push_error(old_rs, self.results@.last());
            }
            self.stopped = true;
            self.phase = RunPhase::Finish;
        } else if self.options.stop_on_error {
            proof {
                Self::lemma_push_error(old_rs, self.results@.last());
            }
            self.stopped = true;
            self.phase = RunPhase::Done;
        } else {
            self.advance();
        }
    }

    /// The results once the run is done, or why the transaction failed.
    pub fn finish(self) -> (r: Result<Vec<SqlResult>, TransactionError>)
        requires
            self.wf(),
            self.phase_spec() is Done,
        ensures
            match r {
                Ok(rs) => self.failure_spec() is None && rs@ == self.results_spec(),
                Err(e) => self.failure_spec() == Some(e),
            },
    {
        match self.failure {
            Some(e) => Err(e),
            None => Ok(self.results),
        }
    }

    pub fn phase(&self) -> (r: RunPhase)
        ensures
            r == self.phase_spec(),
    {
        self.phase
    }

    /// Progress as statements answered out of all statements: after a
    /// statement is answered, its result is the last one and the first
    /// count is its position from 1.
    pub fn progress(&self) -> (r: (usize, usize))
        ensures
            r.0 == self.results_spec().len(),
            r.1 == self.statements_spec().len(),
    {
        (self.results.len(), self.statements.len())
    }
}

/// In a transaction the run commits exactly when no statement failed, and
/// rolls back otherwise; with a transaction or with stop-on-error nothing
/// is sent after a refused statement.
pub proof fn law_transaction_outcome(run: ScriptRun)
    requires
        run.wf(),
    ensures
        run.phase_spec() is Finish ==> run.options_spec().transactional,
        (run.phase_spec() is Prepare || run.phase_spec() is Run) && (run.options_spec().transactional
            || run.options_spec().stop_on_error) ==> !has_error(run.results_spec()),
        run.phase_spec() is Finish && run.stopped_spec() ==> has_error(run.results_spec()),
{
    if run.phase_spec() is Finish && run.stopped_spec() {
        let rs = run.results_spec();
        assert(rs[rs.len() - 1].is_error_spec());
    }
}

/// Every result carries the statement it answers, in the order of the
/// statements: the result at position `i` is for statement `i`.
pub proof fn law_results_carry_statements(run: ScriptRun)
    requires
        run.wf(),
    ensures
        run.results_spec().len() <= run.statements_spec().len(),
        forall|i: int|
            0 <= i < run.results_spec().len() ==> result_sql(#[trigger] run.results_spec()[i])
                == run.statements_spec()[i],
{
}

/// Without a transaction and without stop-on-error, a finished run has one
/// result per statement, in order.
pub proof fn law_every_statement_answered(run: ScriptRun)
    requires
        run.wf(),
        run.phase_spec() is Done,
        !run.options_spec().transactional,
        !run.options_spec().stop_on_error,
    ensures
        run.results_spec().len() == run.statements_spec().len(),
{
}

// ---------------------------------------------------------------------------
// Running a script as it is read, with progress
// ---------------------------------------------------------------------------

/// What a progress record measures progress by.
#[derive(Debug, Clone, Copy, PartialEq, Eq, Structural)]
pub enum ProgressMeasure {
    /// Statements, out of all the statements of the script.
    Statements { total: u64 },
    /// Bytes of input read, out of its size (0 where unknown).
    Bytes { read: u64, total: u64 },
}

/// One progress record: the statement count so far, how far the run is,
/// and the result of the latest statement (or parse error).
#[derive(Debug)]
pub struct StreamProgress {
    pub current: u64,
    pub measure: ProgressMeasure,
    pub result: SqlResult,
}

/// Where a streamed run stands.
#[derive(Debug, Clone, Copy, PartialEq, Eq, Structural)]
pub enum StreamPhase {
    /// The transaction is to be opened.
    Begin,
    /// The next parsed item is wanted.
    NeedItem,
    /// The current statement is to be prepared.
    Prepare,
    /// The current statement was prepared; it returns rows or not.
    Run { has_columns: bool },
    /// The transaction is to be committed or rolled back.
    Finish,
    /// Nothing more to do.
    Done,
}

/// What the caller is asked to do next.
#[derive(Debug)]
pub enum StreamAction {
    BeginTransaction,
    /// Read the next item from the parser (`on_item`), or report that there
    /// is none (`end_of_items`).
    NextItem,
    Prepare(String),
    Execute(String),
    Query(String),
    /// Send this record to the progress receiver, then ask `action`.
    Send(StreamProgress),
    Commit,
    Rollback,
    Finished,
}

/// The message of a parse error.
pub open spec fn parse_error_message(m: Seq<char>) -> Seq<char> {
    "Parse error: "@ + m
}

fn copy_strings(v: &Vec<String>) -> (r: Vec<String>)
    ensures
        r@ == v@,
{
    let mut out: Vec<String> = Vec::new();
    let mut i: usize = 0;
    while i < v.len()
        invariant
            i <= v@.len(),
            out@ == v@.subrange(0, i as int),
        decreases v.len() - i,
    {
        out.push(v[i].clone());
        assert(out@ =~= v@.subrange(0, i + 1));
        i += 1;
    }
    assert(v@.subrange(0, v@.len() as int) =~= v@);
    out
}

fn copy_meta(v: &Vec<QueryColumnMeta>) -> (r: Vec<QueryColumnMeta>)
    ensures
        r@ == v@,
{
    let mut out: Vec<QueryColumnMeta> = Vec::new();
    let mut i: usize = 0;
    while i < v.len()
        invariant
            i <= v@.len(),
            out@ == v@.subrange(0, i as int),
        decreases v.len() - i,
    {
        out.push(QueryColumnMeta { name: v[i].name.clone(), db_type: v[i].db_type.clone() });
        assert(out@ =~= v@.subrange(0, i + 1));
        i += 1;
    }
    assert(v@.subrange(0, v@.len() as int) =~= v@);
    out
}

fn copy_row(v: &Vec<Option<String>>) -> (r: Vec<Option<String>>)
    ensures
        r@ == v@,
{
    let mut out: Vec<Option<String>> = Vec::new();
    let mut i: usize = 0;
    while i < v.len()
        invariant
            i <= v@.len(),
            out@ == v@.subrange(0, i as int),
        decreases v.len() - i,
    {
        let c = match &v[i] {
            Some(x) => Some(x.clone()),
            None => None,
        };
        out.push(c);
        assert(out@ =~= v@.subrange(0, i + 1));
        i += 1;
    }
    assert(v@.subrange(0, v@.len() as int) =~= v@);
    out
}

fn copy_rows(v: &Vec<Vec<Option<String>>>) -> (r: Vec<Vec<Option<String>>>)
    ensures
        r@.len() == v@.len(),
        forall|i: int| 0 <= i < v@.len() ==> (#[trigger] r@[i])@ == v@[i]@,
{
    let mut out: Vec<Vec<Option<String>>> = Vec::new();
    let mut i: usize = 0;
    while i < v.len()
        invariant
            i <= v@.len(),
            out@.len() == i,
            forall|j: int| 0 <= j < i ==> (#[trigger] out@[j])@ == v@[j]@,
        decreases v.len() - i,
    {
        out.push(copy_row(&v[i]));
        i += 1;
    }
    out
}

/// A copy of a result, with the same statement, rows and figures.
pub fn copy_result(x: &SqlResult) -> (r: SqlResult)
    ensures
        same_result(r, *x),
{
    match x {
        SqlResult::Query(q) => SqlResult::Query(
            QueryResult {
                sql: q.sql.clone(),
                columns: copy_strings(&q.columns),
                column_meta: copy_meta(&q.column_meta),
                rows: copy_rows(&q.rows),
                elapsed_ms: q.elapsed_ms,
            },
        ),
        SqlResult::Exec(e) => SqlResult::Exec(
            ExecResult {
                sql: e.sql.clone(),
                rows_affected: e.rows_affected,
                elapsed_ms: e.elapsed_ms,
                message: match &e.message {
                    Some(m) => Some(m.clone()),
                    None => None,
                },
            },
        ),
        SqlResult::Error(e) => SqlResult::Error(SqlErrorInfo { sql: e.sql.clone(), message: e.message.clone() }),
    }
}

/// Two results say the same: same kind, statement, figures and rows.
pub open spec fn same_result(a: SqlResult, b: SqlResult) -> bool {
    match (a, b) {
        (SqlResult::Query(x), SqlResult::Query(y)) => {
            &&& x.sql == y.sql && x.columns@ == y.columns@ && x.column_meta@ == y.column_meta@
            &&& x.rows@.len() == y.rows@.len() && x.elapsed_ms == y.elapsed_ms
            &&& forall|i: int| 0 <= i < x.rows@.len() ==> (#[trigger] x.rows@[i])@ == y.rows@[i]@
        },
        (SqlResult::Exec(x), SqlResult::Exec(y)) => x == y,
        (SqlResult::Error(x), SqlResult::Error(y)) => x == y,
        _ => false,
    }
}

/// The state of a streamed run.
pub ghost struct StreamView {
    pub options: ExecOptions,
    /// Statements are run as they are read (else all are read first).
    pub incremental: bool,
    pub total_size: u64,
    /// Statements started so far.
    pub current: u64,
    /// Bytes read when the current statement was parsed.
    pub item_bytes: u64,
    /// The statement being run.
    pub pending: String,
    /// The statements read so far, where all are read first.
    pub statements: Seq<String>,
    /// Position of the current statement among them.
    pub index: int,
    pub phase: StreamPhase,
    /// The results reported so far, in order.
    pub results: Seq<SqlResult>,
    pub failure: Option<TransactionError>,
}

/// The phase once a run stops: a transaction is closed, else the run ends.
pub open spec fn stop_phase(v: StreamView) -> StreamPhase {
    if v.options.transactional {
        StreamPhase::Finish
    } else {
        StreamPhase::Done
    }
}

/// Where all statements are read first: the state with statement `i` of
/// them current.
pub open spec fn at_statement(v: StreamView, i: int) -> StreamView {
    StreamView {
        index: i,
        pending: v.statements[i],
        current: (i + 1) as u64,
        phase: StreamPhase::Prepare,
        ..v
    }
}

/// Where all statements are read first: the state once they are read (and
/// the transaction, if any, begun): the first is current, or, with none,
/// a transaction is closed and any other run ends.
pub open spec fn start_statements(v: StreamView) -> StreamView {
    if v.statements.len() == 0 {
        StreamView { phase: stop_phase(v), ..v }
    } else {
        at_statement(v, 0)
    }
}

/// The state after a statement that does not stop the run: the next item
/// is read, or, where all statements were read first, the next one is
/// current, and after the last one the run closes as when it stops.
pub open spec fn after_statement(v: StreamView) -> StreamView {
    if v.incremental {
        StreamView { phase: StreamPhase::NeedItem, ..v }
    } else if v.index + 1 < v.statements.len() {
        at_statement(v, v.index + 1)
    } else {
        StreamView { phase: stop_phase(v), ..v }
    }
}

/// What the run in state `v` asks for.
pub open spec fn next_action(v: StreamView, a: StreamAction) -> bool {
    match v.phase {
        StreamPhase::Begin => a is BeginTransaction,
        StreamPhase::NeedItem => a is NextItem,
        StreamPhase::Prepare => a matches StreamAction::Prepare(x) && x == v.pending,
        StreamPhase::Run { has_columns } => if has_columns {
            a matches StreamAction::Query(x) && x == v.pending
        } else {
            a matches StreamAction::Execute(x) && x == v.pending
        },
        StreamPhase::Finish => if has_error(v.results) {
            a is Rollback
        } else {
            a is Commit
        },
        StreamPhase::Done => a is Finished,
    }
}

/// How far a run in state `v` is: by bytes where statements are run as
/// they are read, else by statements.
pub open spec fn measure_of(v: StreamView) -> ProgressMeasure {
    if v.incremental {
        ProgressMeasure::Bytes { read: v.item_bytes, total: v.total_size }
    } else {
        ProgressMeasure::Statements { total: v.statements.len() as u64 }
    }
}

/// `f` and `a` after the current statement of `v` gave `r`: the result is
/// recorded; with the receiver gone the run stops there (closing a
/// transaction), else its record is to be sent, and after an error a
/// transaction (to be rolled back) or a run that stops on errors ends;
/// otherwise the run goes on.
pub open spec fn completed(v: StreamView, f: StreamView, a: StreamAction, r: SqlResult, receiver_open: bool) -> bool {
    let stops = !receiver_open || (r.is_error_spec() && (v.options.transactional || v.options.stop_on_error));
    let base = StreamView { results: v.results.push(r), ..v };
    &&& f == (if stops {
        StreamView { phase: stop_phase(base), ..base }
    } else {
        after_statement(base)
    })
    &&& if receiver_open {
        a matches StreamAction::Send(p) && p.current == v.current && p.measure == measure_of(v) && same_result(
            p.result,
            r,
        )
    } else {
        next_action(f, a)
    }
}

/// What one answer of the server does to a run in state `v`;
/// `receiver_open` says whether the progress receiver still listens.
pub open spec fn step_effect(v: StreamView, f: StreamView, a: StreamAction, event: RunEvent, receiver_open: bool) -> bool {
    let unchanged = f == v && next_action(v, a);
    let sql = v.pending;
    match v.phase {
        StreamPhase::Begin => match event {
            RunEvent::Begun => f == (if v.incremental {
                StreamView { phase: StreamPhase::NeedItem, ..v }
            } else {
                start_statements(v)
            }) && next_action(f, a),
            RunEvent::Failed(_) => f == (StreamView {
                phase: StreamPhase::Done,
                failure: Some(TransactionError::BeginFailed),
                ..v
            }) && a is Finished,
            _ => unchanged,
        },
        StreamPhase::Prepare => match event {
            RunEvent::Prepared { has_columns } => f == (StreamView { phase: StreamPhase::Run { has_columns }, ..v })
                && next_action(f, a),
            RunEvent::Failed(m) => completed(v, f, a, SqlResult::Error(SqlErrorInfo { sql, message: m }), receiver_open),
            _ => unchanged,
        },
        StreamPhase::Run { has_columns } => match event {
            RunEvent::Executed { rows_affected, elapsed_ms, message } => if !has_columns {
                completed(v, f, a, SqlResult::Exec(ExecResult { sql, rows_affected, elapsed_ms, message }), receiver_open)
            } else {
                unchanged
            },
            RunEvent::Queried { columns, column_meta, rows, elapsed_ms } => if has_columns {
                completed(
                    v,
                    f,
                    a,
                    SqlResult::Query(QueryResult { sql, columns, column_meta, rows, elapsed_ms }),
                    receiver_open,
                )
            } else {
                unchanged
            },
            RunEvent::Failed(m) => completed(v, f, a, SqlResult::Error(SqlErrorInfo { sql, message: m }), receiver_open),
            _ => unchanged,
        },
        StreamPhase::Finish => match event {
            RunEvent::Committed | RunEvent::RolledBack | RunEvent::Failed(_) => f == (StreamView {
                phase: StreamPhase::Done,
                ..v
            }) && a is Finished,
            _ => unchanged,
        },
        _ => unchanged,
    }
}

/// A script run as its statements are read, reporting each result.
pub struct StreamRun {
    options: ExecOptions,
    incremental: bool,
    total_size: u64,
    current: u64,
    item_bytes: u64,
    pending: String,
    statements: Vec<String>,
    index: usize,
    phase: StreamPhase,
    results: Vec<SqlResult>,
    error_seen: bool,
    failure: Option<TransactionError>,
}

impl View for StreamRun {
    type V = StreamView;

    closed spec fn view(&self) -> StreamView {
        StreamView {
            options: self.options,
            incremental: self.incremental,
            total_size: self.total_size,
            current: self.current,
            item_bytes: self.item_bytes,
            pending: self.pending,
            statements: self.statements@,
            index: self.index as int,
            phase: self.phase,
            results: self.results@,
            failure: self.failure,
        }
    }
}

impl StreamRun {
    /// The run's invariant.
    pub closed spec fn wf(&self) -> bool {
        let v = self@;
        &&& self.error_seen == has_error(v.results)
        &&& (v.options.transactional || v.options.stop_on_error) && (v.phase is NeedItem || v.phase is Prepare
            || v.phase is Run) ==> !has_error(v.results)
        &&& v.phase is Begin ==> v.options.transactional && v.results.len() == 0
        &&& v.phase is Finish ==> v.options.transactional
        &&& v.failure is Some ==> v.phase is Done && v.failure == Some(TransactionError::BeginFailed)
        &&& !v.incremental && (v.phase is Prepare || v.phase is Run) ==> {
            &&& 0 <= v.index < v.statements.len()
            &&& v.pending == v.statements[v.index]
            &&& v.current == v.index + 1
        }
        &&& !v.incremental && (v.phase is NeedItem || v.phase is Begin) ==> v.results.len() == 0
        &&& v.statements.len() < u64::MAX
    }

    /// A run with these options over input of `total_size` bytes (0 where
    /// unknown). Statements are run as they are read where the options ask
    /// for streaming or the input is a file; otherwise all are read first.
    pub fn new(options: ExecOptions, total_size: u64, is_file: bool) -> (r: StreamRun)
        ensures
            r.wf(),
            r@ == (StreamView {
                options,
                incremental: options.streaming || is_file,
                total_size,
                current: 0,
                item_bytes: 0,
                pending: r@.pending,
                statements: Seq::empty(),
                index: 0,
                phase: if options.transactional && (options.streaming || is_file) {
                    StreamPhase::Begin
                } else {
                    StreamPhase::NeedItem
                },
                results: Seq::empty(),
                failure: None,
            }),
    {
        let incremental = options.streaming || is_file;
        StreamRun {
            options,
            incremental,
            total_size,
            current: 0,
            item_bytes: 0,
            pending: String::new(),
            statements: Vec::new(),
            index: 0,
            phase: if options.transactional && incremental {
                StreamPhase::Begin
            } else {
                StreamPhase::NeedItem
            },
            results: Vec::new(),
            error_seen: false,
            failure: None,
        }
    }

    /// What to do next.
    pub fn action(&self) -> (a: StreamAction)
        requires
            self.wf(),
        ensures
            next_action(self@, a),
    {
        match self.phase {
            StreamPhase::Begin => StreamAction::BeginTransaction,
            StreamPhase::NeedItem => StreamAction::NextItem,
            StreamPhase::Prepare => StreamAction::Prepare(self.pending.clone()),
            StreamPhase::Run { has_columns } => if has_columns {
                StreamAction::Query(self.pending.clone())
            } else {
                StreamAction::Execute(self.pending.clone())
            },
            StreamPhase::Finish => if self.error_seen {
                StreamAction::Rollback
            } else {
                StreamAction::Commit
            },
            StreamPhase::Done => StreamAction::Finished,
        }
    }

    proof fn lemma_push(rs: Seq<SqlResult>, e: SqlResult)
        ensures
            has_error(rs.push(e)) == (has_error(rs) || e.is_error_spec()),
    {
        if has_error(rs.push(e)) {
            let i = choose|i: int| 0 <= i < rs.push(e).len() && (#[trigger] rs.push(e)[i]).is_error_spec();
            if i < rs.len() {
                assert(rs[i] == rs.push(e)[i]);
            }
        }
        if has_error(rs) {
            let i = choose|i: int| 0 <= i < rs.len() && (#[trigger] rs[i]).is_error_spec();
            assert(rs.push(e)[i] == rs[i]);
        }
        if e.is_error_spec() {
            assert(rs.push(e)[rs.len() as int] == e);
        }
    }

    /// Takes the parser's next item and the bytes it has read so far.
    /// Where statements run as they are read: a blank statement is skipped;
    /// a statement becomes the current one and is prepared; a parse error
    /// is reported (with no statement text) and ends a transaction (which
    /// is then rolled back), ends a run that stops on errors, and is passed
    /// over otherwise. Where all are read first: a statement is kept,
    /// trimmed, and blank statements and parse errors are dropped.
    pub fn on_item(&mut self, item: Result<String, String>, bytes_read: u64) -> (a: StreamAction)
        requires
            old(self).wf(),
            old(self)@.phase is NeedItem,
            old(self)@.current < u64::MAX,
            old(self)@.statements.len() + 1 < u64::MAX,
        ensures
            final(self).wf(),
            !old(self)@.incremental ==> a is NextItem && match item {
                Ok(s) => if trim(s@).len() == 0 {
                    final(self)@ == old(self)@
                } else {
                    &&& final(self)@ == (StreamView { statements: final(self)@.statements, ..old(self)@ })
                    &&& final(self)@.statements.len() == old(self)@.statements.len() + 1
                    &&& final(self)@.statements.drop_last() == old(self)@.statements
                    &&& final(self)@.statements.last()@ == trim(s@)
                },
                Err(_) => final(self)@ == old(self)@,
            },
            old(self)@.incremental ==> match item {
                Ok(s) => if trim(s@).len() == 0 {
                    a is NextItem && final(self)@ == old(self)@
                } else {
                    &&& a matches StreamAction::Prepare(x) && x == s
                    &&& final(self)@ == (StreamView {
                        current: (old(self)@.current + 1) as u64,
                        item_bytes: bytes_read,
                        pending: s,
                        phase: StreamPhase::Prepare,
                        ..old(self)@
                    })
                },
                Err(m) => {
                    let o = old(self)@;
                    &&& final(self)@.results.len() == o.results.len() + 1
                    &&& final(self)@.results.drop_last() == o.results
                    &&& final(self)@.results.last() matches SqlResult::Error(e)
                    &&& e.sql@.len() == 0 && e.message@ == parse_error_message(m@)
                    &&& final(self)@ == (StreamView {
                        results: final(self)@.results,
                        phase: if o.options.transactional || o.options.stop_on_error {
                            stop_phase(o)
                        } else {
                            StreamPhase::NeedItem
                        },
                        ..o
                    })
                    &&& a matches StreamAction::Send(p)
                    &&& p.current == o.current
                    &&& p.measure == (ProgressMeasure::Bytes { read: bytes_read, total: o.total_size })
                    &&& same_result(p.result, final(self)@.results.last())
                },
            },
    {
        if !self.incremental {
            match item {
                Ok(s) => {
                    if !is_blank(s.as_str()) {
                        let t = trim_string(s.as_str());
                        self.statements.push(t);
                    }
                },
                Err(_) => {},
            }
            return StreamAction::NextItem;
        }
        match item {
            Ok(s) => {
                if is_blank(s.as_str()) {
                    return StreamAction::NextItem;
                }
                self.current = self.current + 1;
                self.item_bytes = bytes_read;
                self.pending = s.clone();
                self.phase = StreamPhase::Prepare;
                StreamAction::Prepare(s)
            },
            Err(m) => {
                let mut message = str_to_owned("Parse error: ");
                push_str(&mut message, m.as_str());
                let ghost old_rs = self.results@;
                let r = SqlResult::Error(SqlErrorInfo { sql: String::new(), message });
                let record = copy_result(&r);
                self.results.push(r);
                proof {
                    Self::lemma_push(old_rs, self.results@.last());
                }
                self.error_seen = true;
                self.phase = if self.options.transactional || self.options.stop_on_error {
                    if self.options.transactional {
                        StreamPhase::Finish
                    } else {
                        StreamPhase::Done
                    }
                } else {
                    StreamPhase::NeedItem
                };
                StreamAction::Send(
                    StreamProgress {
                        current: self.current,
                        measure: ProgressMeasure::Bytes { read: bytes_read, total: self.total_size },
                        result: record,
                    },
                )
            },
        }
    }

    /// Makes statement `i` of those read first the current one.
    fn load(&mut self, i: usize)
        requires
            i < old(self).statements@.len() < u64::MAX,
        ensures
            final(self)@ == at_statement(old(self)@, i as int),
            final(self).error_seen == old(self).error_seen,
    {
        self.index = i;
        self.pending = self.statements[i].clone();
        self.current = (i as u64) + 1;
        self.phase = StreamPhase::Prepare;
    }

    /// Where all statements were read first, starts on them.
    fn start(&mut self)
        requires
            old(self).wf(),
            !old(self)@.incremental,
            old(self)@.results.len() == 0,
            old(self)@.failure is None,
        ensures
            final(self).wf(),
            final(self)@ == start_statements(old(self)@),
    {
        if self.statements.len() == 0 {
            self.phase = if self.options.transactional {
                StreamPhase::Finish
            } else {
                StreamPhase::Done
            };
        } else {
            self.load(0);
        }
    }

    /// The parser has no more items. Where statements run as they are read,
    /// a transaction is closed and any other run ends; where all are read
    /// first, a transaction is begun, else the first statement is run.
    pub fn end_of_items(&mut self) -> (a: StreamAction)
        requires
            old(self).wf(),
            old(self)@.phase is NeedItem,
        ensures
            final(self).wf(),
            final(self)@ == (if old(self)@.incremental {
                StreamView { phase: stop_phase(old(self)@), ..old(self)@ }
            } else if old(self)@.options.transactional {
                StreamView { phase: StreamPhase::Begin, ..old(self)@ }
            } else {
                start_statements(old(self)@)
            }),
            next_action(final(self)@, a),
    {
        if self.incremental {
            if self.options.transactional {
                self.phase = StreamPhase::Finish;
            } else {
                self.phase = StreamPhase::Done;
            }
        } else if self.options.transactional {
            self.phase = StreamPhase::Begin;
        } else {
            self.start();
        }
        self.action()
    }

    fn complete(&mut self, r: SqlResult, receiver_open: bool) -> (a: StreamAction)
        requires
            old(self).wf(),
            old(self)@.phase is Prepare || old(self)@.phase is Run,
        ensures
            final(self).wf(),
            completed(old(self)@, final(self)@, a, r, receiver_open),
    {
        let is_err = r.is_error();
        let record = copy_result(&r);
        let measure = if self.incremental {
            ProgressMeasure::Bytes { read: self.item_bytes, total: self.total_size }
        } else {
            ProgressMeasure::Statements { total: self.statements.len() as u64 }
        };
        let current = self.current;
        let ghost old_rs = self.results@;
        self.results.push(r);
        proof {
            Self::lemma_push(old_rs, self.results@.last());
        }
        if is_err {
            self.error_seen = true;
        }
        let stops = !receiver_open || (is_err && (self.options.transactional || self.options.stop_on_error));
        if stops {
            self.phase = if self.options.transactional {
                StreamPhase::Finish
            } else {
                StreamPhase::Done
            };
        } else if self.incremental {
            self.phase = StreamPhase::NeedItem;
        } else if self.index + 1 < self.statements.len() {
            let next = self.index + 1;
            self.load(next);
        } else {
            self.phase = if self.options.transactional {
                StreamPhase::Finish
            } else {
                StreamPhase::Done
            };
        }
        if receiver_open {
            StreamAction::Send(StreamProgress { current, measure, result: record })
        } else {
            self.action()
        }
    }

    /// Records the server's answer to the last action.
    pub fn step(&mut self, event: RunEvent, receiver_open: bool) -> (a: StreamAction)
        requires
            old(self).wf(),
        ensures
            final(self).wf(),
            step_effect(old(self)@, final(self)@, a, event, receiver_open),
    {
        match self.phase {
            StreamPhase::Begin => match event {
                RunEvent::Begun => {
                    if self.incremental {
                        self.phase = StreamPhase::NeedItem;
                    } else {
                        self.start();
                    }
                    self.action()
                },
                RunEvent::Failed(_) => {
                    self.phase = StreamPhase::Done;
                    self.failure = Some(TransactionError::BeginFailed);
                    StreamAction::Finished
                },
                _ => self.action(),
            },
            StreamPhase::Prepare => match event {
                RunEvent::Prepared { has_columns } => {
                    self.phase = StreamPhase::Run { has_columns };
                    self.action()
                },
                RunEvent::Failed(message) => {
                    let sql = self.pending.clone();
                    self.complete(SqlResult::Error(SqlErrorInfo { sql, message }), receiver_open)
                },
                _ => self.action(),
            },
            StreamPhase::Run { has_columns } => match event {
                RunEvent::Executed { rows_affected, elapsed_ms, message } => {
                    if !has_columns {
                        let sql = self.pending.clone();
                        self.complete(
                            SqlResult::Exec(ExecResult { sql, rows_affected, elapsed_ms, message }),
                            receiver_open,
                        )
                    } else {
                        self.action()
                    }
                },
                RunEvent::Queried { columns, column_meta, rows, elapsed_ms } => {
                    if has_columns {
                        let sql = self.pending.clone();
                        self.complete(
                            SqlResult::Query(QueryResult { sql, columns, column_meta, rows, elapsed_ms }),
                            receiver_open,
                        )
                    } else {
                        self.action()
                    }
                },
                RunEvent::Failed(message) => {
                    let sql = self.pending.clone();
                    self.complete(SqlResult::Error(SqlErrorInfo { sql, message }), receiver_open)
                },
                _ => self.action(),
            },
            StreamPhase::Finish => match event {
                RunEvent::Committed | RunEvent::RolledBack | RunEvent::Failed(_) => {
                    self.phase = StreamPhase::Done;
                    StreamAction::Finished
                },
                _ => self.action(),
            },
            _ => self.action(),
        }
    }

    /// The results reported, once the run is done, or why it failed.
    pub fn finish(self) -> (r: Result<Vec<SqlResult>, TransactionError>)
        requires
            self.wf(),
            self@.phase is Done,
        ensures
            match r {
                Ok(rs) => self@.failure is None && rs@ == self@.results,
                Err(e) => self@.failure == Some(e),
            },
    {
        match self.failure {
            Some(e) => Err(e),
            None => Ok(self.results),
        }
    }

    pub fn phase(&self) -> (r: StreamPhase)
        ensures
            r == self@.phase,
    {
        self.phase
    }
}

/// In a streamed run that is transactional or stops on errors, no
/// statement is read or run once an error was reported; a transaction is
/// rolled back exactly when an error was reported, and committed otherwise.
pub proof fn law_stream_stops_at_error(run: StreamRun, a: StreamAction)
    requires
        run.wf(),
        next_action(run@, a),
    ensures
        (run@.options.transactional || run@.options.stop_on_error) && (a is NextItem || a is Prepare
            || a is Execute || a is Query) ==> !has_error(run@.results),
        a is Rollback ==> run@.options.transactional && has_error(run@.results),
        a is Commit ==> run@.options.transactional && !has_error(run@.results),
{
}

} // verus!
