//! The task repository kept in a GlueSQL database.
//!
//! Every batch of SQL sent to the engine is recorded, with what came back, in the
//! repository's exchange log (a ghost value). The contracts state which statements are
//! sent and what the repository makes of the replies; what the engine replies depends
//! on the state of the database and is not stated.
use vstd::prelude::*;
use crate::error::{AppError, ErrorView};
use crate::repository::sql::{
    Cell, CellValue, Replies, Reply, replies_to_count, replies_to_tasks, rows_of, select_rows_of,
    tasks_of, tasks_view, count_of, with_id, with_id_spec,
};
use gluesql::prelude::Glue;
use gluesql::prelude::MemoryStorage;
use gluesql::prelude::Payload;
use gluesql::prelude::Value;
use crate::task::{Task, TaskDetail, TaskStats, TaskView};
use crate::command::{opt_string_view, strings_view};
use crate::repository::sql::{metadata_from_rows, rows_to_metadata, has_duplicate_key, valid_priority, has_duplicate_tags};
use crate::repository::{TaskManagementRepository, TaskRepository};
use crate::project::{Project, ProjectStats, ProjectView};
use crate::tag::{Tag, TagView};
use crate::repository::sql::{allocation, allocation_from_rows, project_from_row, projects_from_rows, tag_from_row, tags_from_rows, project_stats_from_rows, rows_to_projects, rows_to_tags, rows_to_project_stats, row_to_project, row_to_tag, stats_view, required_name, required_name_spec, sql_string};
use crate::repository::sql::{engine_error, SqlResult, SqlResultView, payload_to_sql_result, reply_result, push_id, push_literal, sql_literal};
use crate::repository::conditions::{
    condition_sql, count_tasks_sql, delete_sql, holds, project_row, select_sql, tag_row, update_sql, like_matches, lemma_contains_pattern_matches, lemma_exact_pattern_matches, link_row, no_wildcards,
    select_tasks_sql, task_row, Column, Condition, SqlValue,
};
use crate::text::{contains_seq, concat3, padded_decimal, padded_decimal_string, str_eq, concat2, contains_str, decimal, push_str, to_owned_string};

verus! {

#[verifier::external_type_specification]
#[verifier::external_body]
pub struct ExPayload(Payload);

#[verifier::external_type_specification]
#[verifier::external_body]
pub struct ExValue(Value);

#[verifier::external_type_specification]
#[verifier::external_body]
pub struct ExStatement(gluesql::core::ast::Statement);

/// One batch of SQL sent to the engine, and what came back.
pub type Exchange = (Seq<char>, Replies);

/// One SQL text given to the engine to plan, and what came back.
pub type PlanCall = (Seq<char>, Result<Vec<gluesql::core::ast::Statement>, AppError>);

/// One planned statement given to the engine to run, and what came back.
pub type RunCall = (gluesql::core::ast::Statement, Result<Reply, AppError>);

/// The kind of a GlueSQL value, with a boolean, 64-bit integer or string moved out;
/// any other kind comes back as `Other`. Nothing is stated: the value is opaque here.
#[verifier::external_body]
fn value_cell(v: &Value) -> CellValue {
    match v {
        Value::Bool(b) => CellValue::Bool(*b),
        Value::I64(n) => CellValue::I64(*n),
        Value::Str(s) => CellValue::Str(s.clone()),
        Value::Null => CellValue::Null,
        _ => CellValue::Other,
    }
}

/// The decimal text (`ToString::to_string`) of an integer value other than a 64-bit
/// one; none for another value. Nothing is stated: the value is opaque here.
#[verifier::external_body]
fn integer_text(v: &Value) -> Option<String> {
    match v {
        Value::I8(n) => Some(n.to_string()),
        Value::I16(n) => Some(n.to_string()),
        Value::I32(n) => Some(n.to_string()),
        Value::I128(n) => Some(n.to_string()),
        Value::U8(n) => Some(n.to_string()),
        Value::U16(n) => Some(n.to_string()),
        Value::U32(n) => Some(n.to_string()),
        Value::U64(n) => Some(n.to_string()),
        Value::U128(n) => Some(n.to_string()),
        _ => None,
    }
}

/// The decimal text (`ToString::to_string`) of a floating-point value; none for another
/// value. Nothing is stated: the value is opaque here.
#[verifier::external_body]
fn float_text(v: &Value) -> Option<String> {
    match v {
        Value::F32(n) => Some(n.to_string()),
        Value::F64(n) => Some(n.to_string()),
        _ => None,
    }
}

/// The `Debug` text of a value. Nothing is stated: the value is opaque here.
#[verifier::external_body]
fn value_debug(v: &Value) -> String {
    format!("{v:?}")
}

/// A payload taken apart, variant by variant: the reply (with no rows yet for a query)
/// and the rows of a query; another kind of payload keeps its `Debug` text. Nothing is
/// stated: the payload is opaque here.
#[verifier::external_body]
fn payload_parts(p: Payload) -> (Reply, Vec<Vec<Value>>) {
    match p {
        Payload::Select { labels, rows } => (Reply::Select { labels, rows: Vec::new() }, rows),
        Payload::Insert(n) => (Reply::Insert(n), Vec::new()),
        Payload::Update(n) => (Reply::Update(n), Vec::new()),
        Payload::Delete(n) => (Reply::Delete(n), Vec::new()),
        Payload::Create => (Reply::Create, Vec::new()),
        Payload::DropTable(n) => (Reply::DropTable(n), Vec::new()),
        other => (Reply::Other(format!("{other:?}")), Vec::new()),
    }
}

/// A GlueSQL value as a cell: booleans, 64-bit integers, strings and NULL keep their
/// value; other numbers keep their decimal text; every value keeps its `Debug` text.
pub fn cell_of(v: &Value) -> Cell {
    let debug = value_debug(v);
    let value = match integer_text(v) {
        Some(t) => CellValue::Number(t),
        None => match float_text(v) {
            Some(t) => CellValue::Number(t),
            None => value_cell(v),
        },
    };
    Cell { value, debug }
}

/// A GlueSQL payload as a reply, with each value of a query's rows as a cell.
pub fn reply_of(p: Payload) -> Reply {
    let (reply, rows) = payload_parts(p);
    match reply {
        Reply::Select { labels, .. } => {
            let mut out: Vec<Vec<Cell>> = Vec::new();
            let mut i: usize = 0;
            while i < rows.len()
                decreases rows.len() - i,
            {
                let mut row: Vec<Cell> = Vec::new();
                let mut j: usize = 0;
                while j < rows[i].len()
                    invariant
                        i < rows.len(),
                    decreases rows[i as int].len() - j,
                {
                    row.push(cell_of(&rows[i][j]));
                    j = j + 1;
                }
                out.push(row);
                i = i + 1;
            }
            Reply::Select { labels, rows: out }
        },
        other => other,
    }
}

/// A SQL engine: what the repository sends its SQL to.
pub trait SqlEngine {
    /// Runs a batch of SQL and gives back the outcome of each statement, or the engine's
    /// error message.
    fn execute_batch(&mut self, sql: &str) -> Result<Vec<Reply>, String>;

    /// Plans a batch of SQL without running it.
    fn plan_batch(&mut self, sql: &str) -> Result<Vec<gluesql::core::ast::Statement>, String>;

    /// Runs one planned statement.
    fn execute_planned(&mut self, statement: &gluesql::core::ast::Statement) -> Result<Reply, String>;
}

/// A GlueSQL engine over an in-memory storage.
///
/// The engine is held opaquely: Verus refuses a declaration of GlueSQL's `Glue`, whose
/// type parameter is bounded by GlueSQL's storage traits.
#[verifier::external_body]
pub struct MemoryEngine {
    glue: Glue<MemoryStorage>,
}

/// A GlueSQL engine over a new, empty `MemoryStorage` (`Glue::new(MemoryStorage::default())`).
#[verifier::external_body]
fn new_memory_engine() -> MemoryEngine {
    MemoryEngine { glue: Glue::new(MemoryStorage::default()) }
}

/// Runs a batch of SQL with `Glue::execute` (awaited with `futures::executor::block_on`);
/// an error becomes its message. What comes back depends on the database's state: no
/// contract.
#[verifier::external_body]
fn memory_execute(e: &mut MemoryEngine, sql: &str) -> Result<Vec<Payload>, String> {
    futures::executor::block_on(e.glue.execute(sql)).map_err(|error| error.to_string())
}

/// Plans a batch of SQL with `Glue::plan`. No contract.
#[verifier::external_body]
fn memory_plan(e: &mut MemoryEngine, sql: &str) -> Result<Vec<gluesql::core::ast::Statement>, String> {
    futures::executor::block_on(e.glue.plan(sql)).map_err(|error| error.to_string())
}

/// Runs one planned statement with `Glue::execute_stmt`. No contract.
#[verifier::external_body]
fn memory_execute_planned(e: &mut MemoryEngine, st: &gluesql::core::ast::Statement) -> Result<Payload, String> {
    futures::executor::block_on(e.glue.execute_stmt(st)).map_err(|error| error.to_string())
}

/// The payloads of a batch as replies, one for one, in order.
fn replies_of(payloads: Vec<Payload>) -> (out: Vec<Reply>)
    ensures
        out@.len() == payloads@.len(),
{
    let n = payloads.len();
    let mut rest = payloads;
    let mut out: Vec<Reply> = Vec::new();
    while rest.len() > 0
        invariant
            out@.len() + rest@.len() == n,
        decreases rest@.len(),
    {
        let p = rest.remove(0);
        out.push(reply_of(p));
    }
    out
}

impl MemoryEngine {
    /// A GlueSQL engine over a new, empty in-memory storage.
    pub fn new() -> Self {
        new_memory_engine()
    }
}

impl SqlEngine for MemoryEngine {
    fn execute_batch(&mut self, sql: &str) -> Result<Vec<Reply>, String> {
        match memory_execute(self, sql) {
            Ok(payloads) => Ok(replies_of(payloads)),
            Err(message) => Err(message),
        }
    }

    fn plan_batch(&mut self, sql: &str) -> Result<Vec<gluesql::core::ast::Statement>, String> {
        memory_plan(self, sql)
    }

    fn execute_planned(&mut self, statement: &gluesql::core::ast::Statement) -> Result<Reply, String> {
        match memory_execute_planned(self, statement) {
            Ok(payload) => Ok(reply_of(payload)),
            Err(message) => Err(message),
        }
    }
}

/// A repository of projects, tasks and tags in a GlueSQL database.
pub struct GlueSqlTaskRepository<E = MemoryEngine> {
    engine: E,
    transactional: bool,
    in_transaction: bool,
    log: Ghost<Seq<Exchange>>,
    plans: Ghost<Seq<PlanCall>>,
    runs: Ghost<Seq<RunCall>>,
}

/// `new` is `old` followed by some more exchanges.
pub open spec fn extends(old: Seq<Exchange>, new: Seq<Exchange>) -> bool {
    &&& new.len() >= old.len()
    &&& new.take(old.len() as int) == old
}

/// The exchanges of `after` that came after those of `before`.
pub open spec fn since(before: Seq<Exchange>, after: Seq<Exchange>) -> Seq<Exchange> {
    after.skip(before.len() as int)
}

/// Exactly one batch was sent, `sql`.
pub open spec fn sent(x: Seq<Exchange>, sql: Seq<char>) -> bool {
    x.len() == 1 && x[0].0 == sql
}

proof fn lemma_since_concat(a: Seq<Exchange>, b: Seq<Exchange>, c: Seq<Exchange>)
    requires
        extends(a, b),
        extends(b, c),
    ensures
        extends(a, c),
        since(a, c) == since(a, b) + since(b, c),
{
    assert(c.take(a.len() as int) =~= c.take(b.len() as int).take(a.len() as int));
    assert(since(a, c) =~= since(a, b) + since(b, c));
}

proof fn lemma_since_self(a: Seq<Exchange>)
    ensures
        extends(a, a),
        since(a, a) == Seq::<Exchange>::empty(),
{
    assert(a.take(a.len() as int) =~= a);
    assert(since(a, a) =~= Seq::<Exchange>::empty());
}

/// The view of a task result.
pub open spec fn task_result(r: Result<Task, AppError>) -> Result<TaskView, ErrorView> {
    match r {
        Ok(t) => Ok(t@),
        Err(e) => Err(e@),
    }
}

/// The view of a result without value.
pub open spec fn unit_result(r: Result<(), AppError>) -> Result<(), ErrorView> {
    match r {
        Ok(()) => Ok(()),
        Err(e) => Err(e@),
    }
}

/// The view of a result holding tasks.
pub open spec fn tasks_result(r: Result<Vec<Task>, AppError>) -> Result<Seq<TaskView>, ErrorView> {
    match r {
        Ok(v) => Ok(tasks_view(v@)),
        Err(e) => Err(e@),
    }
}

/// The task found by a lookup of `id`: the first task of the reply, or `NotFound`.
pub open spec fn task_lookup(r: Replies, id: i64) -> Result<TaskView, ErrorView> {
    match tasks_of(r) {
        Ok(ts) => if ts.len() > 0 {
            Ok(ts[0])
        } else {
            Err(ErrorView::NotFound(id))
        },
        Err(e) => Err(e),
    }
}

/// The statement that looks up one task.
pub open spec fn select_task_sql(id: i64) -> Seq<char> {
    with_id_spec("SELECT id, project_id, title, done, priority FROM tasks WHERE id = "@, id, ";"@)
}

/// The outcome of a batch whose result is only whether it ran.
pub open spec fn ran(r: Replies) -> Result<(), ErrorView> {
    match r {
        Ok(_) => Ok(()),
        Err(e) => Err(e@),
    }
}

/// A batch of one statement whose outcome is only whether it ran.
pub open spec fn run_spec(x: Seq<Exchange>, sql: Seq<char>, r: Result<(), ErrorView>) -> bool {
    sent(x, sql) && r == ran(x[0].1)
}

/// A lookup of task `id`.
pub open spec fn lookup_spec(x: Seq<Exchange>, id: i64, r: Result<TaskView, ErrorView>) -> bool {
    sent(x, select_task_sql(id)) && r == task_lookup(x[0].1, id)
}

/// Whether the work described by `body` ran in a transaction of its own when `wrap`
/// holds: `BEGIN` first, then the body, then `COMMIT` when the body succeeded (whose
/// failure is the result) or `ROLLBACK` when it failed (whose outcome is ignored). When
/// `BEGIN` fails nothing else is sent.
pub open spec fn in_transaction_spec<T>(
    wrap: bool,
    x: Seq<Exchange>,
    body: spec_fn(Seq<Exchange>, Result<T, ErrorView>) -> bool,
    r: Result<T, ErrorView>,
) -> bool {
    if !wrap {
        body(x, r)
    } else {
        &&& x.len() >= 1
        &&& x[0].0 == "BEGIN;"@
        &&& match ran(x[0].1) {
            Err(e) => x.len() == 1 && r == Err::<T, ErrorView>(e),
            Ok(_) => {
                &&& x.len() >= 2
                &&& exists|b: Result<T, ErrorView>|
                    #[trigger] body(x.subrange(1, x.len() - 1), b) && match b {
                        Ok(v) => x.last().0 == "COMMIT;"@ && r == match ran(x.last().1) {
                            Ok(_) => Ok(v),
                            Err(e) => Err(e),
                        },
                        Err(e) => x.last().0 == "ROLLBACK;"@ && r == Err::<T, ErrorView>(e),
                    }
            },
        }
    }
}

/// Whether the repository wraps work into a transaction of its own.
pub open spec fn wraps<E: SqlEngine>(repo: &GlueSqlTaskRepository<E>) -> bool {
    repo.is_transactional() && !repo.is_in_transaction()
}

impl<E: SqlEngine> GlueSqlTaskRepository<E> {
    /// The batches sent so far, with their replies.
    pub closed spec fn exchanges(&self) -> Seq<Exchange> {
        self.log@
    }

    /// The SQL texts given to the engine to plan so far, with what came back.
    pub closed spec fn plan_calls(&self) -> Seq<PlanCall> {
        self.plans@
    }

    /// The planned statements given to the engine to run so far, with what came back.
    pub closed spec fn run_calls(&self) -> Seq<RunCall> {
        self.runs@
    }

    /// Whether the repository wraps multi-statement work in `BEGIN`/`COMMIT`.
    pub closed spec fn is_transactional(&self) -> bool {
        self.transactional
    }

    /// Whether a transaction of the repository is open.
    pub closed spec fn is_in_transaction(&self) -> bool {
        self.in_transaction
    }

    /// Whether `after` is this repository after more batches, with the same settings,
    /// and with nothing more planned or run statement by statement.
    pub open spec fn continued(&self, after: &Self) -> bool {
        &&& extends(self.exchanges(), after.exchanges())
        &&& after.is_transactional() == self.is_transactional()
        &&& after.is_in_transaction() == self.is_in_transaction()
        &&& after.plan_calls() == self.plan_calls()
        &&& after.run_calls() == self.run_calls()
    }

    /// The batches `after` sent after this repository's.
    pub open spec fn sent_since(&self, after: &Self) -> Seq<Exchange> {
        since(self.exchanges(), after.exchanges())
    }

    /// Runs a batch of SQL.
    fn execute(&mut self, sql: &str) -> (r: Replies)
        ensures
            old(self).continued(&*final(self)),
            old(self).sent_since(&*final(self)) == seq![(sql@, r)],
    {
        let r = match self.engine.execute_batch(sql) {
            Ok(v) => Ok(v),
            Err(message) => Err(AppError::GlueSql(message)),
        };
        self.log = Ghost(self.log@.push((sql@, r)));
        proof {
            assert(self.log@.take(old(self).log@.len() as int) =~= old(self).log@);
            assert(since(old(self).log@, self.log@) =~= seq![(sql@, r)]);
        }
        r
    }

    /// Runs a batch of SQL whose result is only whether it ran.
    fn run(&mut self, sql: &str) -> (r: Result<(), AppError>)
        ensures
            old(self).continued(&*final(self)),
            run_spec(old(self).sent_since(&*final(self)), sql@, unit_result(r)),
    {
        match self.execute(sql) {
            Ok(_) => Ok(()),
            Err(e) => Err(e),
        }
    }

    /// Runs a query and gives back the rows of its (last) result.
    fn select_rows(&mut self, sql: &str) -> (r: Result<Vec<Vec<Cell>>, AppError>)
        ensures
            old(self).continued(&*final(self)),
            sent(old(self).sent_since(&*final(self)), sql@),
            match r {
                Ok(v) => rows_of(old(self).sent_since(&*final(self))[0].1) == Ok::<Seq<Vec<Cell>>, ErrorView>(v@),
                Err(e) => rows_of(old(self).sent_since(&*final(self))[0].1) == Err::<Seq<Vec<Cell>>, ErrorView>(e@),
            },
    {
        let r = self.execute(sql);
        select_rows_of(r)
    }

    /// Runs a `COUNT` query and gives back the count.
    fn select_count(&mut self, sql: &str) -> (r: Result<usize, AppError>)
        ensures
            old(self).continued(&*final(self)),
            sent(old(self).sent_since(&*final(self)), sql@),
            match r {
                Ok(n) => count_of(old(self).sent_since(&*final(self))[0].1) == Ok::<usize, ErrorView>(n),
                Err(e) => count_of(old(self).sent_since(&*final(self))[0].1) == Err::<usize, ErrorView>(e@),
            },
    {
        let r = self.execute(sql);
        replies_to_count(r)
    }

    /// Runs a query for tasks and reads them.
    fn select_tasks(&mut self, sql: &str) -> (r: Result<Vec<Task>, AppError>)
        ensures
            old(self).continued(&*final(self)),
            sent(old(self).sent_since(&*final(self)), sql@),
            tasks_result(r) == tasks_of(old(self).sent_since(&*final(self))[0].1),
    {
        let r = self.execute(sql);
        replies_to_tasks(r)
    }

    /// Looks up one task by id.
    fn find_one(&mut self, id: i64) -> (r: Result<Task, AppError>)
        ensures
            old(self).continued(&*final(self)),
            lookup_spec(old(self).sent_since(&*final(self)), id, task_result(r)),
    {
        let sql = with_id("SELECT id, project_id, title, done, priority FROM tasks WHERE id = ", id, ";");
        let tasks = self.select_tasks(sql.as_str());
        match tasks {
            Ok(v) => {
                let mut v = v;
                if v.len() > 0 {
                    let t = v.remove(0);
                    Ok(t)
                } else {
                    Err(AppError::NotFound(id))
                }
            },
            Err(e) => Err(e),
        }
    }

    /// Opens a transaction when the repository wraps work into one; tells whether it did.
    fn begin(&mut self) -> (r: Result<bool, AppError>)
        ensures
            final(self).plan_calls() == old(self).plan_calls(),
            final(self).run_calls() == old(self).run_calls(),
            final(self).is_transactional() == old(self).is_transactional(),
            extends(old(self).exchanges(), final(self).exchanges()),
            !wraps(old(self)) ==> r == Ok::<bool, AppError>(false) && old(self).sent_since(&*final(self)) == Seq::<Exchange>::empty()
                && final(self).is_in_transaction() == old(self).is_in_transaction(),
            wraps(old(self)) ==> {
                &&& sent(old(self).sent_since(&*final(self)), "BEGIN;"@)
                &&& match ran(old(self).sent_since(&*final(self))[0].1) {
                    Ok(_) => r == Ok::<bool, AppError>(true) && final(self).is_in_transaction(),
                    Err(e) => r matches Err(x) && x@ == e && !final(self).is_in_transaction(),
                }
            },
    {
        if !self.transactional || self.in_transaction {
            proof {
                lemma_since_self(self.log@);
            }
            return Ok(false);
        }
        match self.run("BEGIN;") {
            Ok(()) => {
                self.in_transaction = true;
                Ok(true)
            },
            Err(e) => Err(e),
        }
    }

    /// Closes the transaction opened by `begin` (if it opened one): commits after
    /// success, rolls back after failure.
    fn finish<T>(&mut self, started: bool, result: Result<T, AppError>) -> (r: Result<T, AppError>)
        requires
            started ==> old(self).is_in_transaction(),
        ensures
            final(self).plan_calls() == old(self).plan_calls(),
            final(self).run_calls() == old(self).run_calls(),
            final(self).is_transactional() == old(self).is_transactional(),
            extends(old(self).exchanges(), final(self).exchanges()),
            !started ==> r == result && old(self).sent_since(&*final(self)) == Seq::<Exchange>::empty()
                && final(self).is_in_transaction() == old(self).is_in_transaction(),
            started ==> !final(self).is_in_transaction() && match result {
                Ok(v) => run_spec(old(self).sent_since(&*final(self)), "COMMIT;"@, match r {
                    Ok(_) => Ok(()),
                    Err(e) => Err(e@),
                }) && (r is Ok ==> r == result),
                Err(e) => sent(old(self).sent_since(&*final(self)), "ROLLBACK;"@) && r == result,
            },
    {
        if !started {
            proof {
                lemma_since_self(self.log@);
            }
            return result;
        }
        self.in_transaction = false;
        match result {
            Ok(v) => match self.run("COMMIT;") {
                Ok(()) => Ok(v),
                Err(e) => Err(e),
            },
            Err(e) => {
                let _ = self.run("ROLLBACK;");
                Err(e)
            },
        }
    }
}


proof fn lemma_tx<T>(
    wrap: bool,
    xb: Seq<Exchange>,
    xm: Seq<Exchange>,
    xe: Seq<Exchange>,
    body: spec_fn(Seq<Exchange>, Result<T, ErrorView>) -> bool,
    b: Result<T, ErrorView>,
    r: Result<T, ErrorView>,
)
    requires
        body(xm, b),
        !wrap ==> xb.len() == 0 && xe.len() == 0 && r == b,
        wrap ==> {
            &&& sent(xb, "BEGIN;"@)
            &&& ran(xb[0].1) is Ok
            &&& match b {
                Ok(v) => sent(xe, "COMMIT;"@) && r == match ran(xe[0].1) {
                    Ok(_) => Ok(v),
                    Err(e) => Err(e),
                },
                Err(e) => sent(xe, "ROLLBACK;"@) && r == Err::<T, ErrorView>(e),
            }
        },
    ensures
        in_transaction_spec(wrap, xb + xm + xe, body, r),
{
    let x = xb + xm + xe;
    if !wrap {
        assert(x =~= xm);
    } else {
        assert(x.subrange(1, x.len() - 1) =~= xm);
        assert(x[0] == xb[0]);
        assert(x.last() == xe[0]);
        assert(body(x.subrange(1, x.len() - 1), b));
    }
}

/// The statement that marks a task done.
pub open spec fn done_sql(id: i64) -> Seq<char> {
    with_id_spec("UPDATE tasks SET done = TRUE WHERE id = "@, id, ";"@)
}

/// The statements that delete a task and its tag links.
pub open spec fn delete_task_sql(id: i64) -> Seq<char> {
    "DELETE FROM task_tags WHERE task_id = "@ + decimal(id as int) + "; DELETE FROM tasks WHERE id = "@
        + decimal(id as int) + ";"@
}

/// The query for tasks whose title contains a keyword, ignoring case.
pub open spec fn search_sql(keyword: Seq<char>) -> Seq<char> {
    "SELECT id, project_id, title, done, priority FROM tasks WHERE title ILIKE "@ + sql_literal(
        "%"@ + keyword + "%"@,
    ) + " ORDER BY id;"@
}

/// `list_tasks` for a project and no tag asks for the tasks of that project and no
/// other: a stored task is selected exactly when its project id is `p`; they come by
/// priority, highest first, then by id.
pub proof fn lemma_list_tasks_of_project(p: i64)
    ensures
        list_tasks_sql(Some(p), None) == select_tasks_sql(
            Condition::Equals(Column::ProjectId, SqlValue::Int(p as int)),
            "priority DESC, id ASC"@,
        ),
        forall|t: TaskView|
            #[trigger] holds(Condition::Equals(Column::ProjectId, SqlValue::Int(p as int)), task_row(t))
                <==> t.project_id == Some(p),
{
    reveal_strlit("SELECT id, project_id, title, done, priority FROM tasks WHERE project_id = ");
    reveal_strlit(" ORDER BY priority DESC, id ASC;");
    reveal_strlit("SELECT id, project_id, title, done, priority FROM tasks WHERE ");
    reveal_strlit("project_id");
    reveal_strlit(" = ");
    reveal_strlit(" ORDER BY ");
    reveal_strlit("priority DESC, id ASC");
    reveal_strlit(";");
    assert(list_tasks_sql(Some(p), None) =~= select_tasks_sql(
        Condition::Equals(Column::ProjectId, SqlValue::Int(p as int)),
        "priority DESC, id ASC"@,
    ));
}

/// `project_stats` counts, for project `p`, the stored tasks whose project is `p` and,
/// among them, those that are done: a task is counted as done exactly when its project
/// id is `p` and it is done.
pub proof fn lemma_project_stats_counts(p: i64)
    ensures
        count_project_tasks_sql(p) == count_tasks_sql(Condition::Equals(Column::ProjectId, SqlValue::Int(p as int))),
        count_project_done_sql(p) == count_tasks_sql(
            Condition::And(
                Box::new(Condition::Equals(Column::ProjectId, SqlValue::Int(p as int))),
                Box::new(Condition::Equals(Column::Done, SqlValue::Bool(true))),
            ),
        ),
        forall|t: TaskView|
            #[trigger] holds(Condition::Equals(Column::ProjectId, SqlValue::Int(p as int)), task_row(t))
                <==> t.project_id == Some(p),
        forall|t: TaskView|
            #[trigger] holds(
                Condition::And(
                    Box::new(Condition::Equals(Column::ProjectId, SqlValue::Int(p as int))),
                    Box::new(Condition::Equals(Column::Done, SqlValue::Bool(true))),
                ),
                task_row(t),
            ) <==> (t.project_id == Some(p) && t.done),
{
    reveal_with_fuel(holds, 2);
    reveal_with_fuel(condition_sql, 2);
    reveal_strlit("SELECT COUNT(*) FROM tasks WHERE project_id = ");
    reveal_strlit(";");
    reveal_strlit(" AND done = TRUE;");
    reveal_strlit("SELECT COUNT(*) FROM tasks WHERE ");
    reveal_strlit("project_id");
    reveal_strlit(" = ");
    reveal_strlit(" AND ");
    reveal_strlit("done");
    reveal_strlit("TRUE");
    assert(count_project_tasks_sql(p) =~= count_tasks_sql(Condition::Equals(Column::ProjectId, SqlValue::Int(p as int))));
    assert(count_project_done_sql(p) =~= count_tasks_sql(
        Condition::And(
            Box::new(Condition::Equals(Column::ProjectId, SqlValue::Int(p as int))),
            Box::new(Condition::Equals(Column::Done, SqlValue::Bool(true))),
        ),
    ));
}

/// `search` asks for the tasks whose title matches, ignoring case, the pattern `%`, the
/// keyword, `%`; for a keyword without `LIKE` wildcards that pattern matches exactly the
/// texts that contain the keyword, at any position. The tasks come by id.
pub proof fn lemma_search_contains(k: Seq<char>)
    requires
        no_wildcards(k),
    ensures
        search_sql(k) == select_tasks_sql(Condition::ILike(Column::Title, "%"@ + k + "%"@), "id"@),
        forall|s: Seq<char>| #[trigger] like_matches(s, "%"@ + k + "%"@) <==> contains_seq(s, k),
{
    reveal_strlit("SELECT id, project_id, title, done, priority FROM tasks WHERE title ILIKE ");
    reveal_strlit(" ORDER BY id;");
    reveal_strlit("SELECT id, project_id, title, done, priority FROM tasks WHERE ");
    reveal_strlit("title");
    reveal_strlit(" ILIKE ");
    reveal_strlit(" ORDER BY ");
    reveal_strlit("id");
    reveal_strlit(";");
    assert(search_sql(k) =~= select_tasks_sql(Condition::ILike(Column::Title, "%"@ + k + "%"@), "id"@));
    lemma_contains_pattern_matches(k);
}

/// Deleting task `id` removes the links of that task and the task with that id, and no
/// other row: a link is deleted exactly when its task is `id`, a task exactly when its
/// id is `id`.
pub proof fn lemma_delete_task_only(id: i64)
    ensures
        delete_task_sql(id) == delete_sql("task_tags"@, Condition::Equals(Column::TaskId, SqlValue::Int(id as int)))
            + " "@ + delete_sql("tasks"@, Condition::Equals(Column::Id, SqlValue::Int(id as int))),
        forall|t: TaskView|
            #[trigger] holds(Condition::Equals(Column::Id, SqlValue::Int(id as int)), task_row(t)) <==> t.id == id,
        forall|task_id: i64, tag_id: i64|
            #[trigger] holds(Condition::Equals(Column::TaskId, SqlValue::Int(id as int)), link_row(task_id, tag_id))
                <==> task_id == id,
{
    reveal_strlit("DELETE FROM task_tags WHERE task_id = ");
    reveal_strlit("; DELETE FROM tasks WHERE id = ");
    reveal_strlit(";");
    reveal_strlit("DELETE FROM ");
    reveal_strlit("task_tags");
    reveal_strlit(" WHERE ");
    reveal_strlit("task_id");
    reveal_strlit(" = ");
    reveal_strlit(" ");
    reveal_strlit("tasks");
    reveal_strlit("id");
    assert(delete_task_sql(id) =~= delete_sql("task_tags"@, Condition::Equals(Column::TaskId, SqlValue::Int(id as int)))
        + " "@ + delete_sql("tasks"@, Condition::Equals(Column::Id, SqlValue::Int(id as int))));
}

/// Looking up task `id` asks for the task with that id and no other.
pub proof fn lemma_task_lookup_only(id: i64)
    ensures
        select_task_sql(id) == select_sql(
            "id, project_id, title, done, priority"@,
            "tasks"@,
            Condition::Equals(Column::Id, SqlValue::Int(id as int)),
        ),
        forall|t: TaskView|
            #[trigger] holds(Condition::Equals(Column::Id, SqlValue::Int(id as int)), task_row(t)) <==> t.id == id,
{
    reveal_strlit("SELECT id, project_id, title, done, priority FROM tasks WHERE id = ");
    reveal_strlit(";");
    reveal_strlit("SELECT ");
    reveal_strlit("id, project_id, title, done, priority");
    reveal_strlit(" FROM ");
    reveal_strlit("tasks");
    reveal_strlit(" WHERE ");
    reveal_strlit("id");
    reveal_strlit(" = ");
    assert(select_task_sql(id) =~= select_sql(
        "id, project_id, title, done, priority"@,
        "tasks"@,
        Condition::Equals(Column::Id, SqlValue::Int(id as int)),
    ));
}

/// Marking task `id` done sets `done` to true in the task with that id and in no other.
pub proof fn lemma_mark_done_only(id: i64)
    ensures
        done_sql(id) == update_sql(
            "tasks"@,
            Column::Done,
            SqlValue::Bool(true),
            Condition::Equals(Column::Id, SqlValue::Int(id as int)),
        ),
        forall|t: TaskView|
            #[trigger] holds(Condition::Equals(Column::Id, SqlValue::Int(id as int)), task_row(t)) <==> t.id == id,
{
    reveal_strlit("UPDATE tasks SET done = TRUE WHERE id = ");
    reveal_strlit(";");
    reveal_strlit("UPDATE ");
    reveal_strlit("tasks");
    reveal_strlit(" SET ");
    reveal_strlit("done");
    reveal_strlit(" = ");
    reveal_strlit("TRUE");
    reveal_strlit(" WHERE ");
    reveal_strlit("id");
    assert(done_sql(id) =~= update_sql(
        "tasks"@,
        Column::Done,
        SqlValue::Bool(true),
        Condition::Equals(Column::Id, SqlValue::Int(id as int)),
    ));
}

/// Looking up project `id`, and deleting it, concern the project with that id and no
/// other.
pub proof fn lemma_project_by_id_only(id: i64)
    ensures
        select_project_sql(id) == select_sql(
            "id, name"@,
            "projects"@,
            Condition::Equals(Column::Id, SqlValue::Int(id as int)),
        ),
        delete_project_sql(id) == delete_sql("projects"@, Condition::Equals(Column::Id, SqlValue::Int(id as int))),
        forall|p: ProjectView|
            #[trigger] holds(Condition::Equals(Column::Id, SqlValue::Int(id as int)), project_row(p)) <==> p.id == id,
{
    reveal_strlit("SELECT id, name FROM projects WHERE id = ");
    reveal_strlit("DELETE FROM projects WHERE id = ");
    reveal_strlit(";");
    reveal_strlit("SELECT ");
    reveal_strlit("id, name");
    reveal_strlit(" FROM ");
    reveal_strlit("projects");
    reveal_strlit(" WHERE ");
    reveal_strlit("id");
    reveal_strlit(" = ");
    reveal_strlit("DELETE FROM ");
    assert(select_project_sql(id) =~= select_sql(
        "id, name"@,
        "projects"@,
        Condition::Equals(Column::Id, SqlValue::Int(id as int)),
    ));
    assert(delete_project_sql(id) =~= delete_sql("projects"@, Condition::Equals(Column::Id, SqlValue::Int(id as int))));
}

/// Looking up tag `id` concerns the tag with that id and no other; deleting it removes
/// the links to that tag and the tag, and no other row.
pub proof fn lemma_tag_by_id_only(id: i64)
    ensures
        select_tag_sql(id) == select_sql("id, name"@, "tags"@, Condition::Equals(Column::Id, SqlValue::Int(id as int))),
        delete_tag_sql(id) == delete_sql("task_tags"@, Condition::Equals(Column::TagId, SqlValue::Int(id as int)))
            + " "@ + delete_sql("tags"@, Condition::Equals(Column::Id, SqlValue::Int(id as int))),
        forall|t: TagView|
            #[trigger] holds(Condition::Equals(Column::Id, SqlValue::Int(id as int)), tag_row(t)) <==> t.id == id,
        forall|task_id: i64, tag_id: i64|
            #[trigger] holds(Condition::Equals(Column::TagId, SqlValue::Int(id as int)), link_row(task_id, tag_id))
                <==> tag_id == id,
{
    reveal_strlit("SELECT id, name FROM tags WHERE id = ");
    reveal_strlit("DELETE FROM task_tags WHERE tag_id = ");
    reveal_strlit("; DELETE FROM tags WHERE id = ");
    reveal_strlit(";");
    reveal_strlit("SELECT ");
    reveal_strlit("id, name");
    reveal_strlit(" FROM ");
    reveal_strlit("tags");
    reveal_strlit("task_tags");
    reveal_strlit(" WHERE ");
    reveal_strlit("id");
    reveal_strlit("tag_id");
    reveal_strlit(" = ");
    reveal_strlit(" ");
    reveal_strlit("DELETE FROM ");
    assert(select_tag_sql(id) =~= select_sql("id, name"@, "tags"@, Condition::Equals(Column::Id, SqlValue::Int(id as int))));
    assert(delete_tag_sql(id) =~= delete_sql("task_tags"@, Condition::Equals(Column::TagId, SqlValue::Int(id as int)))
        + " "@ + delete_sql("tags"@, Condition::Equals(Column::Id, SqlValue::Int(id as int))));
}

/// Untagging removes the link of that task to that tag and no other link.
pub proof fn lemma_unlink_only(task: i64, tag: i64)
    ensures
        unlink_sql(task, tag) == delete_sql(
            "task_tags"@,
            Condition::And(
                Box::new(Condition::Equals(Column::TaskId, SqlValue::Int(task as int))),
                Box::new(Condition::Equals(Column::TagId, SqlValue::Int(tag as int))),
            ),
        ),
        forall|a: i64, b: i64|
            #[trigger] holds(
                Condition::And(
                    Box::new(Condition::Equals(Column::TaskId, SqlValue::Int(task as int))),
                    Box::new(Condition::Equals(Column::TagId, SqlValue::Int(tag as int))),
                ),
                link_row(a, b),
            ) <==> (a == task && b == tag),
{
    reveal_with_fuel(holds, 2);
    reveal_with_fuel(condition_sql, 2);
    reveal_strlit("DELETE FROM task_tags WHERE task_id = ");
    reveal_strlit(" AND tag_id = ");
    reveal_strlit(";");
    reveal_strlit("DELETE FROM ");
    reveal_strlit("task_tags");
    reveal_strlit(" WHERE ");
    reveal_strlit("task_id");
    reveal_strlit("tag_id");
    reveal_strlit(" = ");
    reveal_strlit(" AND ");
    assert(unlink_sql(task, tag) =~= delete_sql(
        "task_tags"@,
        Condition::And(
            Box::new(Condition::Equals(Column::TaskId, SqlValue::Int(task as int))),
            Box::new(Condition::Equals(Column::TagId, SqlValue::Int(tag as int))),
        ),
    ));
}

/// Looking up a tag by name asks for the tags whose name matches the name as a `LIKE`
/// pattern, ignoring case; for a name without wildcards that pattern matches exactly that
/// name.
pub proof fn lemma_find_tag_by_name(name: Seq<char>)
    requires
        no_wildcards(name),
    ensures
        find_tag_sql(name) == select_sql("id, name"@, "tags"@, Condition::ILike(Column::Name, name)),
        forall|s: Seq<char>| #[trigger] like_matches(s, name) <==> s == name,
{
    reveal_strlit("SELECT id, name FROM tags WHERE name ILIKE ");
    reveal_strlit(";");
    reveal_strlit("SELECT ");
    reveal_strlit("id, name");
    reveal_strlit(" FROM ");
    reveal_strlit("tags");
    reveal_strlit(" WHERE ");
    reveal_strlit("name");
    reveal_strlit(" ILIKE ");
    assert(find_tag_sql(name) =~= select_sql("id, name"@, "tags"@, Condition::ILike(Column::Name, name)));
    lemma_exact_pattern_matches(name);
}

/// `mark_done`: the task is looked up, then marked done when it exists.
pub open spec fn mark_done_spec(x: Seq<Exchange>, id: i64, r: Result<(), ErrorView>) -> bool {
    &&& x.len() >= 1
    &&& x[0].0 == select_task_sql(id)
    &&& match task_lookup(x[0].1, id) {
        Err(e) => x.len() == 1 && r == Err::<(), ErrorView>(e),
        Ok(_) => x.len() == 2 && x[1].0 == done_sql(id) && r == ran(x[1].1),
    }
}

/// The work of `delete`: the task is looked up, then deleted with its tag links.
pub open spec fn delete_body_spec(x: Seq<Exchange>, id: i64, r: Result<TaskView, ErrorView>) -> bool {
    &&& x.len() >= 1
    &&& x[0].0 == select_task_sql(id)
    &&& match task_lookup(x[0].1, id) {
        Err(e) => x.len() == 1 && r == Err::<TaskView, ErrorView>(e),
        Ok(t) => x.len() == 2 && x[1].0 == delete_task_sql(id) && r == match ran(x[1].1) {
            Ok(_) => Ok(t),
            Err(e) => Err(e),
        },
    }
}

/// The counts of all and of finished tasks as statistics.
pub open spec fn stats_of(total: Result<usize, ErrorView>, done: Result<usize, ErrorView>) -> Result<(usize, usize), ErrorView> {
    match total {
        Err(e) => Err(e),
        Ok(t) => match done {
            Err(e) => Err(e),
            Ok(d) => if d <= t {
                Ok((t, d))
            } else {
                Err(engine_error("finished task count exceeds total"@))
            },
        },
    }
}

/// `stats`: all tasks are counted, then the finished ones.
pub open spec fn stats_spec(x: Seq<Exchange>, r: Result<(usize, usize), ErrorView>) -> bool {
    &&& x.len() >= 1
    &&& x[0].0 == "SELECT COUNT(*) FROM tasks;"@
    &&& match count_of(x[0].1) {
        Err(e) => x.len() == 1 && r == Err::<(usize, usize), ErrorView>(e),
        Ok(_) => x.len() == 2 && x[1].0 == "SELECT COUNT(*) FROM tasks WHERE done = TRUE;"@
            && r == stats_of(count_of(x[0].1), count_of(x[1].1)),
    }
}

/// The view of a statistics result.
pub open spec fn stats_result(r: Result<TaskStats, AppError>) -> Result<(usize, usize), ErrorView> {
    match r {
        Ok(s) => Ok((s.total, s.done)),
        Err(e) => Err(e@),
    }
}

/// The SQL results of a batch.
pub open spec fn sql_results_of(r: Replies) -> Result<Seq<SqlResultView>, ErrorView> {
    match r {
        Ok(v) => Ok(v@.map_values(|p: Reply| reply_result(p))),
        Err(e) => Err(e@),
    }
}

/// The view of a result holding SQL results.
pub open spec fn sql_results_result(r: Result<Vec<SqlResult>, AppError>) -> Result<Seq<SqlResultView>, ErrorView> {
    match r {
        Ok(v) => Ok(v@.map_values(|s: SqlResult| s@)),
        Err(e) => Err(e@),
    }
}

impl<E: SqlEngine> GlueSqlTaskRepository<E> {
    /// Marks a task done; `NotFound` when there is no task with the id.
    fn mark_task_done(&mut self, id: i64) -> (r: Result<(), AppError>)
        ensures
            old(self).continued(&*final(self)),
            mark_done_spec(old(self).sent_since(&*final(self)), id, unit_result(r)),
    {
        let ghost s0 = self.exchanges();
        match self.find_one(id) {
            Ok(_) => {},
            Err(e) => return Err(e),
        }
        let ghost s1 = self.exchanges();
        let sql = with_id("UPDATE tasks SET done = TRUE WHERE id = ", id, ";");
        let r = self.run(sql.as_str());
        proof {
            lemma_since_concat(s0, s1, self.exchanges());
        }
        r
    }

    fn delete_body(&mut self, id: i64) -> (r: Result<Task, AppError>)
        ensures
            old(self).continued(&*final(self)),
            delete_body_spec(old(self).sent_since(&*final(self)), id, task_result(r)),
    {
        let ghost s0 = self.exchanges();
        let task = match self.find_one(id) {
            Ok(t) => t,
            Err(e) => return Err(e),
        };
        let ghost s1 = self.exchanges();
        let mut sql = with_id("DELETE FROM task_tags WHERE task_id = ", id, "; DELETE FROM tasks WHERE id = ");
        push_id(&mut sql, id);
        push_str(&mut sql, ";");
        let done = self.run(sql.as_str());
        proof {
            lemma_since_concat(s0, s1, self.exchanges());
        }
        match done {
            Ok(()) => Ok(task),
            Err(e) => Err(e),
        }
    }

    fn counts(&mut self) -> (r: Result<TaskStats, AppError>)
        ensures
            old(self).continued(&*final(self)),
            stats_spec(old(self).sent_since(&*final(self)), stats_result(r)),
            r matches Ok(s) ==> s.todo == s.total - s.done,
    {
        let ghost s0 = self.exchanges();
        let total = match self.select_count("SELECT COUNT(*) FROM tasks;") {
            Ok(n) => n,
            Err(e) => return Err(e),
        };
        let ghost s1 = self.exchanges();
        let done = self.select_count("SELECT COUNT(*) FROM tasks WHERE done = TRUE;");
        proof {
            lemma_since_concat(s0, s1, self.exchanges());
        }
        match done {
            Ok(d) => if d <= total {
                Ok(TaskStats::new(total, d))
            } else {
                Err(AppError::GlueSql(to_owned_string("finished task count exceeds total")))
            },
            Err(e) => Err(e),
        }
    }
}

impl<E: SqlEngine> TaskRepository for GlueSqlTaskRepository<E> {
    open spec fn add_outcome(&self, after: &Self, title: Seq<char>, r: Result<Task, AppError>) -> bool {
        &&& self.continued(after)
        &&& add_task_spec(self, None, 3, title, Seq::empty(), self.sent_since(after), task_result(r))
    }

    /// Adds an open task with a title, without project and with the default priority:
    /// `add_task(None, 3, title)`.
    fn add(&mut self, title: String) -> (r: Result<Task, AppError>) {
        self.add_task(None, 3, title)
    }

    open spec fn find_all_outcome(&self, after: &Self, r: Result<Vec<Task>, AppError>) -> bool {
        &&& self.continued(after)
        &&& sent(self.sent_since(after), "SELECT id, project_id, title, done, priority FROM tasks ORDER BY id ASC;"@)
        &&& tasks_result(r) == tasks_of(self.sent_since(after)[0].1)
    }

    /// All tasks by id.
    fn find_all(&mut self) -> (r: Result<Vec<Task>, AppError>) {
        self.list_tasks(None, None)
    }

    open spec fn mark_done_outcome(&self, after: &Self, id: i64, r: Result<(), AppError>) -> bool {
        &&& self.continued(after)
        &&& mark_done_spec(self.sent_since(after), id, unit_result(r))
    }

    /// Marks a task done; `NotFound` when there is no task with the id.
    fn mark_done(&mut self, id: i64) -> (r: Result<(), AppError>) {
        self.mark_task_done(id)
    }

    open spec fn delete_outcome(&self, after: &Self, id: i64, r: Result<Task, AppError>) -> bool {
        &&& self.continued(after)
        &&& in_transaction_spec(
            wraps(self),
            self.sent_since(after),
            |x: Seq<Exchange>, b: Result<TaskView, ErrorView>| delete_body_spec(x, id, b),
            task_result(r),
        )
    }

    /// Deletes a task with its tag links and gives it back; `NotFound` when there is no
    /// task with the id.
    fn delete(&mut self, id: i64) -> (r: Result<Task, AppError>) {
        let ghost s0 = self.exchanges();
        let ghost w = wraps(self);
        let started = match self.begin() {
            Ok(b) => b,
            Err(e) => return Err(e),
        };
        let ghost s1 = self.exchanges();
        let body = self.delete_body(id);
        let ghost s2 = self.exchanges();
        let ghost bv = task_result(body);
        let r = self.finish(started, body);
        proof {
            lemma_since_concat(s0, s1, s2);
            lemma_since_concat(s0, s2, self.exchanges());
            lemma_tx(
                w,
                since(s0, s1),
                since(s1, s2),
                since(s2, self.exchanges()),
                |x: Seq<Exchange>, b: Result<TaskView, ErrorView>| delete_body_spec(x, id, b),
                bv,
                task_result(r),
            );
        }
        r
    }

    open spec fn search_outcome(&self, after: &Self, keyword: Seq<char>, r: Result<Vec<Task>, AppError>) -> bool {
        &&& self.continued(after)
        &&& sent(self.sent_since(after), search_sql(keyword))
        &&& tasks_result(r) == tasks_of(self.sent_since(after)[0].1)
    }

    /// The tasks whose title contains the keyword, ignoring case (`ILIKE '%keyword%'`),
    /// by id.
    fn search(&mut self, keyword: &str) -> (r: Result<Vec<Task>, AppError>) {
        let mut pattern = to_owned_string("%");
        push_str(&mut pattern, keyword);
        push_str(&mut pattern, "%");
        let mut sql = to_owned_string("SELECT id, project_id, title, done, priority FROM tasks WHERE title ILIKE ");
        push_literal(&mut sql, pattern.as_str());
        push_str(&mut sql, " ORDER BY id;");
        self.select_tasks(sql.as_str())
    }

    open spec fn stats_outcome(&self, after: &Self, r: Result<TaskStats, AppError>) -> bool {
        &&& self.continued(after)
        &&& stats_spec(self.sent_since(after), stats_result(r))
        &&& r matches Ok(s) ==> s.todo == s.total - s.done
    }

    /// Counts of all, finished and open tasks.
    fn stats(&mut self) -> (r: Result<TaskStats, AppError>) {
        self.counts()
    }

    open spec fn execute_sql_outcome(&self, after: &Self, sql: Seq<char>, r: Result<Vec<SqlResult>, AppError>) -> bool {
        &&& self.continued(after)
        &&& sent(self.sent_since(after), sql)
        &&& sql_results_result(r) == sql_results_of(self.sent_since(after)[0].1)
    }

    /// Runs SQL given by the user and shows the outcome of each statement.
    fn execute_sql(&mut self, sql: String) -> (r: Result<Vec<SqlResult>, AppError>) {
        let replies = self.execute(sql.as_str());
        match replies {
            Err(e) => Err(e),
            Ok(v) => {
                let ghost orig = v@;
                let n = v.len();
                let mut rest = v;
                let mut out: Vec<SqlResult> = Vec::new();
                let mut i: usize = 0;
                while rest.len() > 0
                    invariant
                        rest@.len() + i == n,
                        n == orig.len(),
                        rest@ == orig.subrange(i as int, n as int),
                        out@.map_values(|s: SqlResult| s@) == orig.take(i as int).map_values(|p: Reply| reply_result(p)),
                    decreases rest@.len(),
                {
                    let p = rest.remove(0);
                    assert(p == orig[i as int]);
                    let ghost before = out@;
                    out.push(payload_to_sql_result(p));
                    assert(out@.map_values(|s: SqlResult| s@) =~= before.map_values(|s: SqlResult| s@).push(reply_result(orig[i as int])));
                    assert(orig.take(i + 1).map_values(|p: Reply| reply_result(p)) =~= orig.take(i as int).map_values(|p: Reply| reply_result(p)).push(reply_result(orig[i as int])));
                    i = i + 1;
                    assert(rest@ =~= orig.subrange(i as int, n as int));
                }
                assert(orig.take(n as int) =~= orig);
                Ok(out)
            },
        }
    }
}


/// The query for the largest id of a table.
pub open spec fn max_id_sql(table: Seq<char>) -> Seq<char> {
    "SELECT MAX(id) FROM "@ + table + ";"@
}

/// The query for the stored next id of a table.
pub open spec fn sequence_sql(table: Seq<char>) -> Seq<char> {
    "SELECT next_id FROM id_sequences WHERE entity = "@ + sql_literal(table) + ";"@
}

/// The statement that stores a table's next id over the stored one.
pub open spec fn sequence_update_sql(table: Seq<char>, next: i64) -> Seq<char> {
    "UPDATE id_sequences SET next_id = "@ + decimal(next as int) + " WHERE entity = "@ + sql_literal(table) + ";"@
}

/// The statement that stores a table's first next id.
pub open spec fn sequence_insert_sql(table: Seq<char>, next: i64) -> Seq<char> {
    "INSERT INTO id_sequences VALUES ("@ + sql_literal(table) + ", "@ + decimal(next as int) + ");"@
}

/// Allocation of an id for `table`: the largest id in use and the stored sequence are
/// read, the id is decided from them, and the id after it is stored as the sequence.
pub open spec fn allocate_spec(table: Seq<char>, x: Seq<Exchange>, r: Result<i64, ErrorView>) -> bool {
    &&& x.len() >= 1
    &&& x[0].0 == max_id_sql(table)
    &&& match rows_of(x[0].1) {
        Err(e) => x.len() == 1 && r == Err::<i64, ErrorView>(e),
        Ok(max_rows) => {
            &&& x.len() >= 2
            &&& x[1].0 == sequence_sql(table)
            &&& match rows_of(x[1].1) {
                Err(e) => x.len() == 2 && r == Err::<i64, ErrorView>(e),
                Ok(seq_rows) => match allocation_from_rows(max_rows, seq_rows) {
                    Err(e) => x.len() == 2 && r == Err::<i64, ErrorView>(e),
                    Ok((id, stored)) => {
                        &&& x.len() == 3
                        &&& x[2].0 == (if stored {
                            sequence_update_sql(table, (id + 1) as i64)
                        } else {
                            sequence_insert_sql(table, (id + 1) as i64)
                        })
                        &&& r == match ran(x[2].1) {
                            Ok(_) => Ok(id),
                            Err(e) => Err(e),
                        }
                    },
                },
            }
        },
    }
}

/// The view of an id result.
pub open spec fn id_result(r: Result<i64, AppError>) -> Result<i64, ErrorView> {
    match r {
        Ok(id) => Ok(id),
        Err(e) => Err(e@),
    }
}

/// The statement that adds a project.
pub open spec fn insert_project_sql(id: i64, name: Seq<char>) -> Seq<char> {
    "INSERT INTO projects VALUES ("@ + decimal(id as int) + ", "@ + sql_literal(name) + ");"@
}

/// The view of a project result.
pub open spec fn project_result(r: Result<Project, AppError>) -> Result<ProjectView, ErrorView> {
    match r {
        Ok(p) => Ok(p@),
        Err(e) => Err(e@),
    }
}

/// The work of `add_project` for a checked name: an id is allocated, then the project
/// is inserted.
pub open spec fn add_project_body(name: Seq<char>, x: Seq<Exchange>, r: Result<ProjectView, ErrorView>) -> bool {
    exists|k: int, a: Result<i64, ErrorView>|
        0 <= k <= x.len() && #[trigger] allocate_spec("projects"@, x.take(k), a) && match a {
            Err(e) => k == x.len() && r == Err::<ProjectView, ErrorView>(e),
            Ok(id) => x.len() == k + 1 && x[k].0 == insert_project_sql(id, name) && r == match ran(x[k].1) {
                Ok(_) => Ok(ProjectView { id, name }),
                Err(e) => Err(e),
            },
        }
}

/// The query for one project.
pub open spec fn select_project_sql(id: i64) -> Seq<char> {
    with_id_spec("SELECT id, name FROM projects WHERE id = "@, id, ";"@)
}

/// The project found by a lookup of `id`.
pub open spec fn project_lookup(rows: Result<Seq<Vec<Cell>>, ErrorView>, id: i64) -> Result<ProjectView, ErrorView> {
    match rows {
        Err(e) => Err(e),
        Ok(rs) => if rs.len() == 0 {
            Err(ErrorView::Domain("Project not found: "@ + decimal(id as int)))
        } else {
            project_from_row(rs[0]@)
        },
    }
}

/// A lookup of project `id`.
pub open spec fn show_project_spec(x: Seq<Exchange>, id: i64, r: Result<ProjectView, ErrorView>) -> bool {
    sent(x, select_project_sql(id)) && r == project_lookup(rows_of(x[0].1), id)
}

/// The query that counts a project's tasks.
pub open spec fn count_project_tasks_sql(id: i64) -> Seq<char> {
    with_id_spec("SELECT COUNT(*) FROM tasks WHERE project_id = "@, id, ";"@)
}

/// The query that counts a project's finished tasks.
pub open spec fn count_project_done_sql(id: i64) -> Seq<char> {
    with_id_spec("SELECT COUNT(*) FROM tasks WHERE project_id = "@, id, " AND done = TRUE;"@)
}

/// The statement that deletes a project.
pub open spec fn delete_project_sql(id: i64) -> Seq<char> {
    with_id_spec("DELETE FROM projects WHERE id = "@, id, ";"@)
}

/// The work of `delete_project`: the project is looked up, its tasks are counted, and
/// it is deleted only when it has none.
pub open spec fn delete_project_body(x: Seq<Exchange>, id: i64, r: Result<ProjectView, ErrorView>) -> bool {
    &&& x.len() >= 1
    &&& x[0].0 == select_project_sql(id)
    &&& match project_lookup(rows_of(x[0].1), id) {
        Err(e) => x.len() == 1 && r == Err::<ProjectView, ErrorView>(e),
        Ok(p) => {
            &&& x.len() >= 2
            &&& x[1].0 == count_project_tasks_sql(id)
            &&& match count_of(x[1].1) {
                Err(e) => x.len() == 2 && r == Err::<ProjectView, ErrorView>(e),
                Ok(n) => if n > 0 {
                    x.len() == 2 && r == Err::<ProjectView, ErrorView>(ErrorView::Domain("project has tasks"@))
                } else {
                    x.len() == 3 && x[2].0 == delete_project_sql(id) && r == match ran(x[2].1) {
                        Ok(_) => Ok(p),
                        Err(e) => Err(e),
                    }
                },
            }
        },
    }
}

/// `project_stats`: the project is looked up, then its tasks and finished tasks counted.
pub open spec fn project_stats_spec(x: Seq<Exchange>, id: i64, r: Result<(ProjectView, usize, usize), ErrorView>) -> bool {
    &&& x.len() >= 1
    &&& x[0].0 == select_project_sql(id)
    &&& match project_lookup(rows_of(x[0].1), id) {
        Err(e) => x.len() == 1 && r == Err::<(ProjectView, usize, usize), ErrorView>(e),
        Ok(p) => {
            &&& x.len() >= 2
            &&& x[1].0 == count_project_tasks_sql(id)
            &&& match count_of(x[1].1) {
                Err(e) => x.len() == 2 && r == Err::<(ProjectView, usize, usize), ErrorView>(e),
                Ok(total) => {
                    &&& x.len() == 3
                    &&& x[2].0 == count_project_done_sql(id)
                    &&& r == match stats_of(count_of(x[1].1), count_of(x[2].1)) {
                        Ok((t, d)) => Ok((p, t, d)),
                        Err(e) => Err(e),
                    }
                },
            }
        },
    }
}

/// The query for the statistics of every project.
pub open spec fn all_project_stats_sql() -> Seq<char> {
    "SELECT p.id, p.name, COUNT(t.id), COUNT(CASE WHEN t.done = TRUE THEN 1 END) FROM projects p LEFT JOIN tasks t ON t.project_id = p.id GROUP BY p.id, p.name ORDER BY p.id;"@
}

/// The view of a project statistics result.
pub open spec fn project_stats_result(r: Result<ProjectStats, AppError>) -> Result<(ProjectView, usize, usize), ErrorView> {
    match r {
        Ok(s) => Ok(stats_view(s)),
        Err(e) => Err(e@),
    }
}

impl<E: SqlEngine> GlueSqlTaskRepository<E> {
    /// Allocates the next id of a table (`projects`, `tasks` or `tags`).
    fn allocate_id(&mut self, table: &str) -> (r: Result<i64, AppError>)
        ensures
            old(self).continued(&*final(self)),
            allocate_spec(table@, old(self).sent_since(&*final(self)), id_result(r)),
    {
        let ghost s0 = self.exchanges();
        let mut sql = to_owned_string("SELECT MAX(id) FROM ");
        push_str(&mut sql, table);
        push_str(&mut sql, ";");
        let max_rows = match self.select_rows(sql.as_str()) {
            Ok(rows) => rows,
            Err(e) => return Err(e),
        };
        let ghost s1 = self.exchanges();
        let mut sql = to_owned_string("SELECT next_id FROM id_sequences WHERE entity = ");
        push_literal(&mut sql, table);
        push_str(&mut sql, ";");
        let seq_rows = self.select_rows(sql.as_str());
        let ghost s2 = self.exchanges();
        proof {
            lemma_since_concat(s0, s1, s2);
        }
        let seq_rows = match seq_rows {
            Ok(rows) => rows,
            Err(e) => return Err(e),
        };
        let (id, stored) = match allocation(&max_rows, &seq_rows) {
            Ok(a) => a,
            Err(e) => return Err(e),
        };
        let sql = if stored {
            let mut sql = with_id("UPDATE id_sequences SET next_id = ", id + 1, " WHERE entity = ");
            push_literal(&mut sql, table);
            push_str(&mut sql, ";");
            sql
        } else {
            let mut sql = to_owned_string("INSERT INTO id_sequences VALUES (");
            push_literal(&mut sql, table);
            push_str(&mut sql, ", ");
            push_id(&mut sql, id + 1);
            push_str(&mut sql, ");");
            sql
        };
        let done = self.run(sql.as_str());
        proof {
            lemma_since_concat(s0, s2, self.exchanges());
        }
        match done {
            Ok(()) => Ok(id),
            Err(e) => Err(e),
        }
    }

    fn add_project_body(&mut self, name: String) -> (r: Result<Project, AppError>)
        ensures
            old(self).continued(&*final(self)),
            add_project_body(name@, old(self).sent_since(&*final(self)), project_result(r)),
    {
        let ghost s0 = self.exchanges();
        let allocated = self.allocate_id("projects");
        let ghost s1 = self.exchanges();
        let ghost a = id_result(allocated);
        proof {
            reveal_strlit("projects");
        }
        let id = match allocated {
            Ok(id) => id,
            Err(e) => {
                assert(since(s0, s1).take(since(s0, s1).len() as int) =~= since(s0, s1));
                assert(allocate_spec("projects"@, since(s0, s1).take(since(s0, s1).len() as int), a));
                return Err(e);
            },
        };
        let mut sql = with_id("INSERT INTO projects VALUES (", id, ", ");
        push_literal(&mut sql, name.as_str());
        push_str(&mut sql, ");");
        let done = self.run(sql.as_str());
        proof {
            lemma_since_concat(s0, s1, self.exchanges());
            let x = since(s0, self.exchanges());
            let k = since(s0, s1).len() as int;
            assert(x.take(k) =~= since(s0, s1));
            assert(allocate_spec("projects"@, x.take(k), a));
        }
        match done {
            Ok(()) => Ok(Project { id, name }),
            Err(e) => Err(e),
        }
    }

    fn delete_project_body(&mut self, id: i64) -> (r: Result<Project, AppError>)
        ensures
            old(self).continued(&*final(self)),
            delete_project_body(old(self).sent_since(&*final(self)), id, project_result(r)),
    {
        let ghost s0 = self.exchanges();
        let project = match self.show_project(id) {
            Ok(p) => p,
            Err(e) => return Err(e),
        };
        let ghost s1 = self.exchanges();
        let sql = with_id("SELECT COUNT(*) FROM tasks WHERE project_id = ", id, ";");
        let count = self.select_count(sql.as_str());
        let ghost s2 = self.exchanges();
        proof {
            lemma_since_concat(s0, s1, s2);
        }
        let count = match count {
            Ok(n) => n,
            Err(e) => return Err(e),
        };
        if count > 0 {
            return Err(AppError::Domain(to_owned_string("project has tasks")));
        }
        let sql = with_id("DELETE FROM projects WHERE id = ", id, ";");
        let done = self.run(sql.as_str());
        proof {
            lemma_since_concat(s0, s2, self.exchanges());
        }
        match done {
            Ok(()) => Ok(project),
            Err(e) => Err(e),
        }
    }
}

/// The work `first` describes, then, when it succeeds with `v`, the work `rest(v)`
/// describes; a failure of `first` is the result and ends the work.
pub open spec fn then_spec<A, B>(
    x: Seq<Exchange>,
    first: spec_fn(Seq<Exchange>, Result<A, ErrorView>) -> bool,
    rest: spec_fn(A, Seq<Exchange>, Result<B, ErrorView>) -> bool,
    r: Result<B, ErrorView>,
) -> bool {
    exists|k: int, a: Result<A, ErrorView>|
        0 <= k <= x.len() && #[trigger] first(x.take(k), a) && match a {
            Err(e) => k == x.len() && r == Err::<B, ErrorView>(e),
            Ok(v) => rest(v, x.skip(k), r),
        }
}

proof fn lemma_then<A, B>(
    x1: Seq<Exchange>,
    x2: Seq<Exchange>,
    first: spec_fn(Seq<Exchange>, Result<A, ErrorView>) -> bool,
    rest: spec_fn(A, Seq<Exchange>, Result<B, ErrorView>) -> bool,
    a: Result<A, ErrorView>,
    r: Result<B, ErrorView>,
)
    requires
        first(x1, a),
        match a {
            Err(e) => x2.len() == 0 && r == Err::<B, ErrorView>(e),
            Ok(v) => rest(v, x2, r),
        },
    ensures
        then_spec(x1 + x2, first, rest, r),
{
    let x = x1 + x2;
    assert(x.take(x1.len() as int) =~= x1);
    assert(x.skip(x1.len() as int) =~= x2);
    assert(first(x.take(x1.len() as int), a));
}

proof fn lemma_then_fail<A, B>(
    x: Seq<Exchange>,
    first: spec_fn(Seq<Exchange>, Result<A, ErrorView>) -> bool,
    rest: spec_fn(A, Seq<Exchange>, Result<B, ErrorView>) -> bool,
    e: ErrorView,
)
    requires
        first(x, Err(e)),
    ensures
        then_spec(x, first, rest, Err::<B, ErrorView>(e)),
{
    lemma_then(x, Seq::empty(), first, rest, Err(e), Err::<B, ErrorView>(e));
    assert(x + Seq::<Exchange>::empty() =~= x);
}

/// The allocation of an id for `table`, as a step of work.
pub open spec fn allocate_step(table: Seq<char>) -> spec_fn(Seq<Exchange>, Result<i64, ErrorView>) -> bool {
    |x: Seq<Exchange>, a: Result<i64, ErrorView>| allocate_spec(table, x, a)
}

/// The query for a tag by name, ignoring case.
pub open spec fn find_tag_sql(name: Seq<char>) -> Seq<char> {
    "SELECT id, name FROM tags WHERE name ILIKE "@ + sql_literal(name) + ";"@
}

/// The tag of the first row, if there is a row.
pub open spec fn tag_lookup(rows: Result<Seq<Vec<Cell>>, ErrorView>) -> Result<Option<TagView>, ErrorView> {
    match rows {
        Err(e) => Err(e),
        Ok(rs) => if rs.len() == 0 {
            Ok(None)
        } else {
            match tag_from_row(rs[0]@) {
                Ok(t) => Ok(Some(t)),
                Err(e) => Err(e),
            }
        },
    }
}

/// A lookup of a tag by name.
pub open spec fn find_tag_spec(name: Seq<char>, x: Seq<Exchange>, r: Result<Option<TagView>, ErrorView>) -> bool {
    sent(x, find_tag_sql(name)) && r == tag_lookup(rows_of(x[0].1))
}

/// The tag named `name`, which must exist.
pub open spec fn tag_named(rows: Result<Seq<Vec<Cell>>, ErrorView>, name: Seq<char>) -> Result<TagView, ErrorView> {
    match tag_lookup(rows) {
        Err(e) => Err(e),
        Ok(None) => Err(ErrorView::Domain("Tag not found: "@ + name)),
        Ok(Some(t)) => Ok(t),
    }
}

/// The view of an optional tag result.
pub open spec fn opt_tag_result(r: Result<Option<Tag>, AppError>) -> Result<Option<TagView>, ErrorView> {
    match r {
        Ok(Some(t)) => Ok(Some(t@)),
        Ok(None) => Ok(None),
        Err(e) => Err(e@),
    }
}

/// The view of a tag result.
pub open spec fn tag_result(r: Result<Tag, AppError>) -> Result<TagView, ErrorView> {
    match r {
        Ok(t) => Ok(t@),
        Err(e) => Err(e@),
    }
}

/// The view of a result holding tags.
pub open spec fn tags_result(r: Result<Vec<Tag>, AppError>) -> Result<Seq<TagView>, ErrorView> {
    match r {
        Ok(v) => Ok(v@.map_values(|t: Tag| t@)),
        Err(e) => Err(e@),
    }
}

/// The tags read from a reply.
pub open spec fn tags_of(r: Replies) -> Result<Seq<TagView>, ErrorView> {
    match rows_of(r) {
        Err(e) => Err(e),
        Ok(rows) => tags_from_rows(rows),
    }
}

/// The statement that adds a tag.
pub open spec fn insert_tag_sql(id: i64, name: Seq<char>) -> Seq<char> {
    "INSERT INTO tags VALUES ("@ + decimal(id as int) + ", "@ + sql_literal(name) + ");"@
}

/// The insertion of tag `name` under an allocated id, as a step of work.
pub open spec fn insert_tag_step(name: Seq<char>) -> spec_fn(i64, Seq<Exchange>, Result<TagView, ErrorView>) -> bool {
    |id: i64, y: Seq<Exchange>, b: Result<TagView, ErrorView>|
        sent(y, insert_tag_sql(id, name)) && b == match ran(y[0].1) {
            Ok(_) => Ok(TagView { id, name }),
            Err(e) => Err(e),
        }
}

/// The work of `add_tag` for a checked name: the name is looked up, ignoring case, and
/// refused when taken; otherwise an id is allocated and the tag inserted.
pub open spec fn add_tag_body(name: Seq<char>, x: Seq<Exchange>, r: Result<TagView, ErrorView>) -> bool {
    &&& x.len() >= 1
    &&& x[0].0 == find_tag_sql(name)
    &&& match tag_lookup(rows_of(x[0].1)) {
        Err(e) => x.len() == 1 && r == Err::<TagView, ErrorView>(e),
        Ok(Some(_)) => x.len() == 1 && r == Err::<TagView, ErrorView>(ErrorView::Domain("tag name already exists"@)),
        Ok(None) => then_spec(x.skip(1), allocate_step("tags"@), insert_tag_step(name), r),
    }
}

/// The query for one tag by id.
pub open spec fn select_tag_sql(id: i64) -> Seq<char> {
    with_id_spec("SELECT id, name FROM tags WHERE id = "@, id, ";"@)
}

/// The statements that delete a tag and its links to tasks.
pub open spec fn delete_tag_sql(id: i64) -> Seq<char> {
    "DELETE FROM task_tags WHERE tag_id = "@ + decimal(id as int) + "; DELETE FROM tags WHERE id = "@
        + decimal(id as int) + ";"@
}

/// The tag with id `id`, which must exist.
pub open spec fn tag_by_id(rows: Result<Seq<Vec<Cell>>, ErrorView>, id: i64) -> Result<TagView, ErrorView> {
    match tag_lookup(rows) {
        Err(e) => Err(e),
        Ok(None) => Err(ErrorView::Domain("Tag not found: "@ + decimal(id as int))),
        Ok(Some(t)) => Ok(t),
    }
}

/// The work of `delete_tag`: the tag is looked up, then deleted with its links.
pub open spec fn delete_tag_body(x: Seq<Exchange>, id: i64, r: Result<TagView, ErrorView>) -> bool {
    &&& x.len() >= 1
    &&& x[0].0 == select_tag_sql(id)
    &&& match tag_by_id(rows_of(x[0].1), id) {
        Err(e) => x.len() == 1 && r == Err::<TagView, ErrorView>(e),
        Ok(t) => x.len() == 2 && x[1].0 == delete_tag_sql(id) && r == match ran(x[1].1) {
            Ok(_) => Ok(t),
            Err(e) => Err(e),
        },
    }
}

/// The query that counts the links between a task and a tag.
pub open spec fn count_link_sql(task_id: i64, tag_id: i64) -> Seq<char> {
    "SELECT COUNT(*) FROM task_tags WHERE task_id = "@ + decimal(task_id as int) + " AND tag_id = "@
        + decimal(tag_id as int) + ";"@
}

/// The statement that links a task to a tag.
pub open spec fn link_sql(task_id: i64, tag_id: i64) -> Seq<char> {
    "INSERT INTO task_tags VALUES ("@ + decimal(task_id as int) + ", "@ + decimal(tag_id as int) + ");"@
}

/// The statement that unlinks a task from a tag.
pub open spec fn unlink_sql(task_id: i64, tag_id: i64) -> Seq<char> {
    "DELETE FROM task_tags WHERE task_id = "@ + decimal(task_id as int) + " AND tag_id = "@
        + decimal(tag_id as int) + ";"@
}

/// The work of `tag_task`: the task and the tag are looked up, the link is refused
/// when it exists, and inserted otherwise.
pub open spec fn tag_task_body(x: Seq<Exchange>, task_id: i64, name: Seq<char>, r: Result<(), ErrorView>) -> bool {
    &&& x.len() >= 1
    &&& x[0].0 == select_task_sql(task_id)
    &&& match task_lookup(x[0].1, task_id) {
        Err(e) => x.len() == 1 && r == Err::<(), ErrorView>(e),
        Ok(_) => {
            &&& x.len() >= 2
            &&& x[1].0 == find_tag_sql(name)
            &&& match tag_named(rows_of(x[1].1), name) {
                Err(e) => x.len() == 2 && r == Err::<(), ErrorView>(e),
                Ok(t) => {
                    &&& x.len() >= 3
                    &&& x[2].0 == count_link_sql(task_id, t.id)
                    &&& match count_of(x[2].1) {
                        Err(e) => x.len() == 3 && r == Err::<(), ErrorView>(e),
                        Ok(n) => if n > 0 {
                            x.len() == 3 && r == Err::<(), ErrorView>(ErrorView::Domain("task already has tag"@))
                        } else {
                            x.len() == 4 && x[3].0 == link_sql(task_id, t.id) && r == ran(x[3].1)
                        },
                    }
                },
            }
        },
    }
}

/// `untag_task`: the task and the tag are looked up, then the link is deleted.
pub open spec fn untag_task_spec(x: Seq<Exchange>, task_id: i64, name: Seq<char>, r: Result<(), ErrorView>) -> bool {
    &&& x.len() >= 1
    &&& x[0].0 == select_task_sql(task_id)
    &&& match task_lookup(x[0].1, task_id) {
        Err(e) => x.len() == 1 && r == Err::<(), ErrorView>(e),
        Ok(_) => {
            &&& x.len() >= 2
            &&& x[1].0 == find_tag_sql(name)
            &&& match tag_named(rows_of(x[1].1), name) {
                Err(e) => x.len() == 2 && r == Err::<(), ErrorView>(e),
                Ok(t) => x.len() == 3 && x[2].0 == unlink_sql(task_id, t.id) && r == ran(x[2].1),
            }
        },
    }
}

/// The query for the tags of a task.
pub open spec fn task_tags_sql(task_id: i64) -> Seq<char> {
    "SELECT tag.id, tag.name FROM tags tag JOIN task_tags tt ON tt.tag_id = tag.id WHERE tt.task_id = "@
        + decimal(task_id as int) + " ORDER BY tag.id;"@
}

/// `task_tags`: the task is looked up, then its tags are read, by id.
pub open spec fn task_tags_spec(x: Seq<Exchange>, task_id: i64, r: Result<Seq<TagView>, ErrorView>) -> bool {
    &&& x.len() >= 1
    &&& x[0].0 == select_task_sql(task_id)
    &&& match task_lookup(x[0].1, task_id) {
        Err(e) => x.len() == 1 && r == Err::<Seq<TagView>, ErrorView>(e),
        Ok(_) => x.len() == 2 && x[1].0 == task_tags_sql(task_id) && r == tags_of(x[1].1),
    }
}

impl<E: SqlEngine> GlueSqlTaskRepository<E> {
    /// Looks up a tag by name, ignoring case.
    fn find_tag(&mut self, name: &str) -> (r: Result<Option<Tag>, AppError>)
        ensures
            old(self).continued(&*final(self)),
            find_tag_spec(name@, old(self).sent_since(&*final(self)), opt_tag_result(r)),
    {
        let mut sql = to_owned_string("SELECT id, name FROM tags WHERE name ILIKE ");
        push_literal(&mut sql, name);
        push_str(&mut sql, ";");
        match self.select_rows(sql.as_str()) {
            Ok(rows) => if rows.len() == 0 {
                Ok(None)
            } else {
                match row_to_tag(&rows[0]) {
                    Ok(t) => Ok(Some(t)),
                    Err(e) => Err(e),
                }
            },
            Err(e) => Err(e),
        }
    }

    /// Looks up a tag by name; `Tag not found` when there is none.
    fn named_tag(&mut self, name: &str) -> (r: Result<Tag, AppError>)
        ensures
            old(self).continued(&*final(self)),
            sent(old(self).sent_since(&*final(self)), find_tag_sql(name@)),
            tag_result(r) == tag_named(rows_of(old(self).sent_since(&*final(self))[0].1), name@),
    {
        match self.find_tag(name) {
            Ok(Some(t)) => Ok(t),
            Ok(None) => Err(AppError::Domain(concat2("Tag not found: ", name))),
            Err(e) => Err(e),
        }
    }

    fn add_tag_body(&mut self, name: String) -> (r: Result<Tag, AppError>)
        ensures
            old(self).continued(&*final(self)),
            add_tag_body(name@, old(self).sent_since(&*final(self)), tag_result(r)),
    {
        let ghost s0 = self.exchanges();
        let found = self.find_tag(name.as_str());
        let ghost s1 = self.exchanges();
        match found {
            Err(e) => return Err(e),
            Ok(Some(_)) => return Err(AppError::Domain(to_owned_string("tag name already exists"))),
            Ok(None) => {},
        }
        let allocated = self.allocate_id("tags");
        let ghost s2 = self.exchanges();
        let ghost a = id_result(allocated);
        proof {
            reveal_strlit("tags");
            lemma_since_concat(s0, s1, s2);
            assert(since(s0, s2).skip(1) =~= since(s1, s2));
            assert(since(s0, s2)[0] == since(s0, s1)[0]);
        }
        let id = match allocated {
            Ok(id) => id,
            Err(e) => {
                proof {
                    lemma_then_fail(since(s1, s2), allocate_step("tags"@), insert_tag_step(name@), e@);
                }
                return Err(e);
            },
        };
        let mut sql = with_id("INSERT INTO tags VALUES (", id, ", ");
        push_literal(&mut sql, name.as_str());
        push_str(&mut sql, ");");
        let done = self.run(sql.as_str());
        let r = match done {
            Ok(()) => Ok(Tag { id, name }),
            Err(e) => Err(e),
        };
        proof {
            let s3 = self.exchanges();
            lemma_since_concat(s1, s2, s3);
            lemma_since_concat(s0, s1, s3);
            lemma_then(since(s1, s2), since(s2, s3), allocate_step("tags"@), insert_tag_step(name@), a, tag_result(r));
            assert(since(s0, s3).skip(1) =~= since(s1, s3));
            assert(since(s0, s3)[0] == since(s0, s1)[0]);
        }
        r
    }

    fn delete_tag_body(&mut self, id: i64) -> (r: Result<Tag, AppError>)
        ensures
            old(self).continued(&*final(self)),
            delete_tag_body(old(self).sent_since(&*final(self)), id, tag_result(r)),
    {
        let ghost s0 = self.exchanges();
        let sql = with_id("SELECT id, name FROM tags WHERE id = ", id, ";");
        let rows = match self.select_rows(sql.as_str()) {
            Ok(rows) => rows,
            Err(e) => return Err(e),
        };
        let tag = if rows.len() == 0 {
            let d = crate::text::i64_to_decimal(id);
            return Err(AppError::Domain(concat2("Tag not found: ", d.as_str())));
        } else {
            match row_to_tag(&rows[0]) {
                Ok(t) => t,
                Err(e) => return Err(e),
            }
        };
        let ghost s1 = self.exchanges();
        let mut sql = with_id("DELETE FROM task_tags WHERE tag_id = ", id, "; DELETE FROM tags WHERE id = ");
        push_id(&mut sql, id);
        push_str(&mut sql, ";");
        let done = self.run(sql.as_str());
        proof {
            lemma_since_concat(s0, s1, self.exchanges());
        }
        match done {
            Ok(()) => Ok(tag),
            Err(e) => Err(e),
        }
    }

    fn tag_task_body(&mut self, task_id: i64, tag_name: &str) -> (r: Result<(), AppError>)
        ensures
            old(self).continued(&*final(self)),
            tag_task_body(old(self).sent_since(&*final(self)), task_id, tag_name@, unit_result(r)),
    {
        let ghost s0 = self.exchanges();
        match self.find_one(task_id) {
            Ok(_) => {},
            Err(e) => return Err(e),
        }
        let ghost s1 = self.exchanges();
        let tag = self.named_tag(tag_name);
        let ghost s2 = self.exchanges();
        proof {
            lemma_since_concat(s0, s1, s2);
        }
        let tag = match tag {
            Ok(t) => t,
            Err(e) => return Err(e),
        };
        let mut sql = with_id("SELECT COUNT(*) FROM task_tags WHERE task_id = ", task_id, " AND tag_id = ");
        push_id(&mut sql, tag.id);
        push_str(&mut sql, ";");
        let count = self.select_count(sql.as_str());
        let ghost s3 = self.exchanges();
        proof {
            lemma_since_concat(s0, s2, s3);
        }
        let count = match count {
            Ok(n) => n,
            Err(e) => return Err(e),
        };
        if count > 0 {
            return Err(AppError::Domain(to_owned_string("task already has tag")));
        }
        let mut sql = with_id("INSERT INTO task_tags VALUES (", task_id, ", ");
        push_id(&mut sql, tag.id);
        push_str(&mut sql, ");");
        let r = self.run(sql.as_str());
        proof {
            lemma_since_concat(s0, s3, self.exchanges());
        }
        r
    }
}

/// The view of an optional text.
pub open spec fn opt_str_view(o: Option<&str>) -> Option<Seq<char>> {
    match o {
        Some(s) => Some(s@),
        None => None,
    }
}

/// The query of `list_tasks`: the tasks of a tag (by name, ignoring case) when a tag is
/// given, else those of a project when one is given, both by priority (highest first)
/// then id; else all tasks by id.
pub open spec fn list_tasks_sql(project_id: Option<i64>, tag: Option<Seq<char>>) -> Seq<char> {
    match tag {
        Some(t) => "SELECT t.id, t.project_id, t.title, t.done, t.priority FROM tasks t JOIN task_tags tt ON tt.task_id = t.id JOIN tags tag ON tag.id = tt.tag_id WHERE tag.name ILIKE "@
            + sql_literal(t) + " ORDER BY t.priority DESC, t.id ASC;"@,
        None => match project_id {
            Some(id) => with_id_spec(
                "SELECT id, project_id, title, done, priority FROM tasks WHERE project_id = "@,
                id,
                " ORDER BY priority DESC, id ASC;"@,
            ),
            None => "SELECT id, project_id, title, done, priority FROM tasks ORDER BY id ASC;"@,
        },
    }
}

/// The lookup of the project, when one is given, as a step of work.
pub open spec fn project_check_step(project_id: Option<i64>) -> spec_fn(Seq<Exchange>, Result<(), ErrorView>) -> bool {
    |x: Seq<Exchange>, a: Result<(), ErrorView>|
        match project_id {
            None => x.len() == 0 && a == Ok::<(), ErrorView>(()),
            Some(id) => sent(x, select_project_sql(id)) && a == match project_lookup(rows_of(x[0].1), id) {
                Ok(_) => Ok(()),
                Err(e) => Err(e),
            },
        }
}

/// The tag named `name` read from the reply to its lookup.
pub open spec fn tag_found(r: Replies, name: Seq<char>) -> Result<TagView, ErrorView> {
    tag_named(rows_of(r), name)
}

/// The lookup of each named tag in turn, up to the first that fails.
pub open spec fn resolve_spec(names: Seq<Seq<char>>, x: Seq<Exchange>, a: Result<Seq<TagView>, ErrorView>) -> bool {
    &&& x.len() <= names.len()
    &&& forall|i: int| 0 <= i < x.len() ==> #[trigger] x[i].0 == find_tag_sql(names[i])
    &&& forall|i: int| 0 <= i < x.len() - 1 ==> #[trigger] tag_found(x[i].1, names[i]) is Ok
    &&& match a {
        Ok(ts) => {
            &&& x.len() == names.len()
            &&& ts.len() == x.len()
            &&& forall|i: int| 0 <= i < x.len() ==> tag_found(x[i].1, names[i]) == Ok::<TagView, ErrorView>(#[trigger] ts[i])
        },
        Err(e) => x.len() >= 1 && tag_found(x[x.len() - 1].1, names[x.len() - 1]) == Err::<TagView, ErrorView>(e),
    }
}

/// The lookup of the named tags, as a step of work.
pub open spec fn resolve_step(names: Seq<Seq<char>>) -> spec_fn(Seq<Exchange>, Result<Seq<TagView>, ErrorView>) -> bool {
    |x: Seq<Exchange>, a: Result<Seq<TagView>, ErrorView>| resolve_spec(names, x, a)
}

/// A batch of one statement whose outcome is only whether it ran, as a step of work.
pub open spec fn run_step(sql: Seq<char>) -> spec_fn(Seq<Exchange>, Result<(), ErrorView>) -> bool {
    |x: Seq<Exchange>, a: Result<(), ErrorView>| run_spec(x, sql, a)
}

/// The statement that adds an open task.
pub open spec fn insert_task_sql(id: i64, project_id: Option<i64>, title: Seq<char>, priority: i64) -> Seq<char> {
    "INSERT INTO tasks (id, project_id, title, done, priority) VALUES ("@ + decimal(id as int) + ", "@
        + (match project_id {
            Some(p) => decimal(p as int),
            None => "NULL"@,
        }) + ", "@ + sql_literal(title) + ", FALSE, "@ + decimal(priority as int) + ");"@
}

/// The links of a task to each tag in turn, up to the first that fails.
pub open spec fn links_spec(task_id: i64, tags: Seq<TagView>, x: Seq<Exchange>) -> bool {
    &&& x.len() <= tags.len()
    &&& forall|i: int| 0 <= i < x.len() ==> #[trigger] x[i].0 == link_sql(task_id, tags[i].id)
    &&& forall|i: int| 0 <= i < x.len() - 1 ==> #[trigger] ran(x[i].1) is Ok
    &&& x.len() < tags.len() ==> x.len() >= 1 && ran(x[x.len() - 1].1) is Err
}

/// The outcome of linking: that of the last link sent.
pub open spec fn links_outcome(x: Seq<Exchange>) -> Result<(), ErrorView> {
    if x.len() == 0 {
        Ok(())
    } else {
        ran(x[x.len() - 1].1)
    }
}

/// The links of the new task `t` to its tags, as the last step of adding it.
pub open spec fn after_insert(t: TaskView, tags: Seq<TagView>) -> spec_fn((), Seq<Exchange>, Result<TaskView, ErrorView>) -> bool {
    |u: (), x: Seq<Exchange>, r: Result<TaskView, ErrorView>|
        links_spec(t.id, tags, x) && r == match links_outcome(x) {
            Ok(_) => Ok(t),
            Err(e) => Err(e),
        }
}

/// The insertion of the task under its allocated id, then its links.
pub open spec fn after_allocate(
    project_id: Option<i64>,
    priority: i64,
    title: Seq<char>,
    tags: Seq<TagView>,
) -> spec_fn(i64, Seq<Exchange>, Result<TaskView, ErrorView>) -> bool {
    |id: i64, x: Seq<Exchange>, r: Result<TaskView, ErrorView>|
        then_spec(
            x,
            run_step(insert_task_sql(id, project_id, title, priority)),
            after_insert(TaskView { id, project_id, title, done: false, priority }, tags),
            r,
        )
}

/// The allocation of the task's id once its tags are found, then the rest.
pub open spec fn after_resolve(project_id: Option<i64>, priority: i64, title: Seq<char>) -> spec_fn(
    Seq<TagView>,
    Seq<Exchange>,
    Result<TaskView, ErrorView>,
) -> bool {
    |tags: Seq<TagView>, x: Seq<Exchange>, r: Result<TaskView, ErrorView>|
        then_spec(x, allocate_step("tasks"@), after_allocate(project_id, priority, title, tags), r)
}

/// The lookup of the tags once the project is known to exist, then the rest.
pub open spec fn after_project(project_id: Option<i64>, priority: i64, title: Seq<char>, names: Seq<Seq<char>>) -> spec_fn(
    (),
    Seq<Exchange>,
    Result<TaskView, ErrorView>,
) -> bool {
    |u: (), x: Seq<Exchange>, r: Result<TaskView, ErrorView>|
        then_spec(x, resolve_step(names), after_resolve(project_id, priority, title), r)
}

/// The work of `add_task_with_tags` for checked input: the project (if any) must exist,
/// every tag must exist, an id is allocated, the task is inserted, then linked to its
/// tags in order.
pub open spec fn add_task_body(
    project_id: Option<i64>,
    priority: i64,
    title: Seq<char>,
    names: Seq<Seq<char>>,
    x: Seq<Exchange>,
    r: Result<TaskView, ErrorView>,
) -> bool {
    then_spec(x, project_check_step(project_id), after_project(project_id, priority, title, names), r)
}

/// The conditions tested before anything is sent: the title must not be blank, the priority
/// must be one of 1 to 5, and no two tag names may be the same once trimmed and
/// lower-cased. Gives back the trimmed title.
pub open spec fn task_input_check(title: Seq<char>, priority: i64, names: Seq<Seq<char>>) -> Result<Seq<char>, ErrorView> {
    match required_name_spec(title, "task title"@) {
        Err(e) => Err(e),
        Ok(t) => if !valid_priority(priority) {
            Err(ErrorView::Domain("priority must be between 1 and 5"@))
        } else if has_duplicate_key(names) {
            Err(ErrorView::Domain("duplicate tag option"@))
        } else {
            Ok(t)
        },
    }
}

/// `add_task_with_tags` as a whole: those conditions, then the work in a transaction of its
/// own when the repository wraps work into one.
pub open spec fn add_task_spec<E: SqlEngine>(
    before: &GlueSqlTaskRepository<E>,
    project_id: Option<i64>,
    priority: i64,
    title: Seq<char>,
    names: Seq<Seq<char>>,
    x: Seq<Exchange>,
    r: Result<TaskView, ErrorView>,
) -> bool {
    match task_input_check(title, priority, names) {
        Err(e) => x == Seq::<Exchange>::empty() && r == Err::<TaskView, ErrorView>(e),
        Ok(t) => in_transaction_spec(
            wraps(before),
            x,
            |y: Seq<Exchange>, b: Result<TaskView, ErrorView>| add_task_body(project_id, priority, t, names, y, b),
            r,
        ),
    }
}

/// The view of a task detail: the task, its project's name and its tags.
pub open spec fn detail_view(d: TaskDetail) -> (TaskView, Option<Seq<char>>, Seq<TagView>) {
    (d.task@, opt_string_view(d.project_name), d.tags@.map_values(|t: Tag| t@))
}

/// The view of a task detail result.
pub open spec fn detail_result(r: Result<TaskDetail, AppError>) -> Result<(TaskView, Option<Seq<char>>, Seq<TagView>), ErrorView> {
    match r {
        Ok(d) => Ok(detail_view(d)),
        Err(e) => Err(e@),
    }
}

/// A lookup of task `id`, as a step of work.
pub open spec fn lookup_step(id: i64) -> spec_fn(Seq<Exchange>, Result<TaskView, ErrorView>) -> bool {
    |x: Seq<Exchange>, a: Result<TaskView, ErrorView>| lookup_spec(x, id, a)
}

/// The view of a result holding an optional name.
pub open spec fn name_result(r: Result<Option<String>, AppError>) -> Result<Option<Seq<char>>, ErrorView> {
    match r {
        Ok(o) => Ok(opt_string_view(o)),
        Err(e) => Err(e@),
    }
}

/// The lookup of the name of a task's project, when it has one, as a step of work.
pub open spec fn project_name_step(project_id: Option<i64>) -> spec_fn(Seq<Exchange>, Result<Option<Seq<char>>, ErrorView>) -> bool {
    |x: Seq<Exchange>, a: Result<Option<Seq<char>>, ErrorView>|
        match project_id {
            None => x.len() == 0 && a == Ok::<Option<Seq<char>>, ErrorView>(None),
            Some(id) => sent(x, select_project_sql(id)) && a == match project_lookup(rows_of(x[0].1), id) {
                Ok(p) => Ok(Some(p.name)),
                Err(e) => Err(e),
            },
        }
}

/// The reading of the task's tags once its project's name is known.
pub open spec fn detail_tags_step(id: i64, t: TaskView) -> spec_fn(
    Option<Seq<char>>,
    Seq<Exchange>,
    Result<(TaskView, Option<Seq<char>>, Seq<TagView>), ErrorView>,
) -> bool {
    |name: Option<Seq<char>>, x: Seq<Exchange>, r: Result<(TaskView, Option<Seq<char>>, Seq<TagView>), ErrorView>|
        exists|ts: Result<Seq<TagView>, ErrorView>|
            #[trigger] task_tags_spec(x, id, ts) && r == match ts {
                Ok(tags) => Ok((t, name, tags)),
                Err(e) => Err(e),
            }
}

/// The reading of a found task's project name and tags.
pub open spec fn detail_rest(id: i64) -> spec_fn(
    TaskView,
    Seq<Exchange>,
    Result<(TaskView, Option<Seq<char>>, Seq<TagView>), ErrorView>,
) -> bool {
    |t: TaskView, x: Seq<Exchange>, r: Result<(TaskView, Option<Seq<char>>, Seq<TagView>), ErrorView>|
        then_spec(x, project_name_step(t.project_id), detail_tags_step(id, t), r)
}

impl<E: SqlEngine> GlueSqlTaskRepository<E> {
    /// Looks up each named tag in turn; `Tag not found` for the first that is missing.
    fn resolve_tags(&mut self, names: &Vec<String>) -> (r: Result<Vec<Tag>, AppError>)
        ensures
            old(self).continued(&*final(self)),
            resolve_spec(strings_view(names@), old(self).sent_since(&*final(self)), tags_result(r)),
    {
        let ghost s0 = self.exchanges();
        let ghost t0 = self.is_transactional();
        let ghost i0 = self.is_in_transaction();
        let ghost ns = strings_view(names@);
        let mut out: Vec<Tag> = Vec::new();
        let mut i: usize = 0;
        proof {
            lemma_since_self(s0);
        }
        while i < names.len()
            invariant
                i <= names@.len(),
                ns == strings_view(names@),
                self.is_transactional() == t0,
                self.is_in_transaction() == i0,
                self.plan_calls() == old(self).plan_calls(),
                self.run_calls() == old(self).run_calls(),
                s0 == old(self).exchanges(),
                t0 == old(self).is_transactional(),
                i0 == old(self).is_in_transaction(),
                extends(s0, self.exchanges()),
                since(s0, self.exchanges()).len() == i,
                out@.len() == i,
                forall|k: int| 0 <= k < i ==> #[trigger] since(s0, self.exchanges())[k].0 == find_tag_sql(ns[k]),
                forall|k: int| 0 <= k < i ==> tag_found(since(s0, self.exchanges())[k].1, ns[k]) == Ok::<TagView, ErrorView>(#[trigger] out@[k]@),
            decreases names@.len() - i,
        {
            let ghost sb = self.exchanges();
            let t = self.named_tag(names[i].as_str());
            let ghost sa = self.exchanges();
            proof {
                lemma_since_concat(s0, sb, sa);
                let x = since(s0, sa);
                assert(x[i as int] == since(sb, sa)[0]);
                assert(forall|k: int| 0 <= k < i ==> x[k] == #[trigger] since(s0, sb)[k]);
            }
            match t {
                Ok(t) => {
                    let ghost before = out@;
                    out.push(t);
                    proof {
                        assert(forall|k: int| 0 <= k < i ==> out@[k] == #[trigger] before[k]);
                    }
                },
                Err(e) => {
                    proof {
                        let x = since(s0, sa);
                        assert(ns[i as int] == names@[i as int]@);
                        assert(x.len() == i + 1);
                        assert(forall|k: int| 0 <= k < x.len() - 1 ==> tag_found(x[k].1, ns[k]) == Ok::<TagView, ErrorView>(#[trigger] out@[k]@));
                        assert forall|k: int| 0 <= k < x.len() - 1 implies #[trigger] tag_found(x[k].1, ns[k]) is Ok by {
                assert(tag_found(x[k].1, ns[k]) == Ok::<TagView, ErrorView>(out@[k]@));
            }
                        assert(tag_found(x[x.len() - 1].1, ns[x.len() - 1]) == Err::<TagView, ErrorView>(e@));
                    }
                    return Err(e);
                },
            }
            i = i + 1;
        }
        proof {
            let x = since(s0, self.exchanges());
            let ts = out@.map_values(|t: Tag| t@);
            assert(forall|k: int| 0 <= k < x.len() ==> #[trigger] ts[k] == out@[k]@);
            assert(forall|k: int| 0 <= k < x.len() ==> tag_found(x[k].1, ns[k]) == Ok::<TagView, ErrorView>(#[trigger] ts[k]));
            assert forall|k: int| 0 <= k < x.len() - 1 implies #[trigger] tag_found(x[k].1, ns[k]) is Ok by {
                assert(tag_found(x[k].1, ns[k]) == Ok::<TagView, ErrorView>(out@[k]@));
            }
            assert(tags_result(Ok::<Vec<Tag>, AppError>(out)) == Ok::<Seq<TagView>, ErrorView>(ts));
        }
        Ok(out)
    }

    /// Links a task to each tag in turn, up to the first link that fails.
    fn insert_links(&mut self, task_id: i64, tags: &Vec<Tag>) -> (r: Result<(), AppError>)
        ensures
            old(self).continued(&*final(self)),
            links_spec(task_id, tags@.map_values(|t: Tag| t@), old(self).sent_since(&*final(self))),
            unit_result(r) == links_outcome(old(self).sent_since(&*final(self))),
    {
        let ghost s0 = self.exchanges();
        let ghost t0 = self.is_transactional();
        let ghost i0 = self.is_in_transaction();
        let ghost tv = tags@.map_values(|t: Tag| t@);
        let mut i: usize = 0;
        proof {
            lemma_since_self(s0);
        }
        while i < tags.len()
            invariant
                i <= tags@.len(),
                tv == tags@.map_values(|t: Tag| t@),
                self.is_transactional() == t0,
                self.is_in_transaction() == i0,
                self.plan_calls() == old(self).plan_calls(),
                self.run_calls() == old(self).run_calls(),
                s0 == old(self).exchanges(),
                t0 == old(self).is_transactional(),
                i0 == old(self).is_in_transaction(),
                extends(s0, self.exchanges()),
                since(s0, self.exchanges()).len() == i,
                forall|k: int| 0 <= k < i ==> #[trigger] since(s0, self.exchanges())[k].0 == link_sql(task_id, tv[k].id),
                forall|k: int| 0 <= k < i ==> #[trigger] ran(since(s0, self.exchanges())[k].1) is Ok,
            decreases tags@.len() - i,
        {
            let ghost sb = self.exchanges();
            let mut sql = with_id("INSERT INTO task_tags VALUES (", task_id, ", ");
            push_id(&mut sql, tags[i].id);
            push_str(&mut sql, ");");
            let done = self.run(sql.as_str());
            let ghost sa = self.exchanges();
            proof {
                lemma_since_concat(s0, sb, sa);
                let x = since(s0, sa);
                assert(x[i as int] == since(sb, sa)[0]);
                assert(forall|k: int| 0 <= k < i ==> x[k] == #[trigger] since(s0, sb)[k]);
                assert(tv[i as int].id == tags@[i as int].id);
            }
            match done {
                Ok(()) => {},
                Err(e) => {
                    return Err(e);
                },
            }
            i = i + 1;
        }
        Ok(())
    }

    /// Inserts the task under its allocated id, then links it to its tags.
    fn insert_task(&mut self, id: i64, project_id: Option<i64>, priority: i64, title: String, tags: &Vec<Tag>) -> (r: Result<Task, AppError>)
        ensures
            old(self).continued(&*final(self)),
            (after_allocate(project_id, priority, title@, tags@.map_values(|t: Tag| t@)))(id, old(self).sent_since(&*final(self)), task_result(r)),
    {
        let ghost s0 = self.exchanges();
        let ghost tv = tags@.map_values(|t: Tag| t@);
        let ghost tview = TaskView { id, project_id, title: title@, done: false, priority };
        let mut sql = with_id("INSERT INTO tasks (id, project_id, title, done, priority) VALUES (", id, ", ");
        match project_id {
            Some(p) => push_id(&mut sql, p),
            None => push_str(&mut sql, "NULL"),
        }
        push_str(&mut sql, ", ");
        push_literal(&mut sql, title.as_str());
        push_str(&mut sql, ", FALSE, ");
        push_id(&mut sql, priority);
        push_str(&mut sql, ");");
        let inserted = self.run(sql.as_str());
        let ghost s1 = self.exchanges();
        if let Err(e) = inserted {
            proof {
                lemma_then_fail(since(s0, s1), run_step(insert_task_sql(id, project_id, title@, priority)), after_insert(tview, tv), e@);
            }
            return Err(e);
        }
        let task = Task::with_project(id, project_id, title, priority);
        let linked = self.insert_links(id, tags);
        let r = match linked {
            Ok(()) => Ok(task),
            Err(e) => Err(e),
        };
        proof {
            let s2 = self.exchanges();
            lemma_since_concat(s0, s1, s2);
            lemma_then(since(s0, s1), since(s1, s2), run_step(insert_task_sql(id, project_id, title@, priority)), after_insert(tview, tv), Ok(()), task_result(r));
        }
        r
    }

    /// Allocates the task's id, then inserts and links it.
    fn add_task_resolved(&mut self, project_id: Option<i64>, priority: i64, title: String, tags: &Vec<Tag>) -> (r: Result<Task, AppError>)
        ensures
            old(self).continued(&*final(self)),
            (after_resolve(project_id, priority, title@))(tags@.map_values(|t: Tag| t@), old(self).sent_since(&*final(self)), task_result(r)),
    {
        let ghost s0 = self.exchanges();
        let ghost tv = tags@.map_values(|t: Tag| t@);
        let allocated = self.allocate_id("tasks");
        let ghost s1 = self.exchanges();
        let ghost a = id_result(allocated);
        proof {
            reveal_strlit("tasks");
        }
        let id = match allocated {
            Ok(id) => id,
            Err(e) => {
                proof {
                    lemma_then_fail(since(s0, s1), allocate_step("tasks"@), after_allocate(project_id, priority, title@, tv), e@);
                }
                return Err(e);
            },
        };
        let r = self.insert_task(id, project_id, priority, title, tags);
        proof {
            let s2 = self.exchanges();
            lemma_since_concat(s0, s1, s2);
            lemma_then(since(s0, s1), since(s1, s2), allocate_step("tasks"@), after_allocate(project_id, priority, title@, tv), a, task_result(r));
        }
        r
    }

    /// Looks up the tags, then adds the task.
    fn add_task_tagged(&mut self, project_id: Option<i64>, priority: i64, title: String, tags: &Vec<String>) -> (r: Result<Task, AppError>)
        ensures
            old(self).continued(&*final(self)),
            (after_project(project_id, priority, title@, strings_view(tags@)))((), old(self).sent_since(&*final(self)), task_result(r)),
    {
        let ghost s0 = self.exchanges();
        let ghost names = strings_view(tags@);
        let resolved = self.resolve_tags(tags);
        let ghost s1 = self.exchanges();
        let resolved = match resolved {
            Ok(v) => v,
            Err(e) => {
                proof {
                    lemma_then_fail(since(s0, s1), resolve_step(names), after_resolve(project_id, priority, title@), e@);
                }
                return Err(e);
            },
        };
        let ghost tv = resolved@.map_values(|t: Tag| t@);
        let r = self.add_task_resolved(project_id, priority, title, &resolved);
        proof {
            let s2 = self.exchanges();
            lemma_since_concat(s0, s1, s2);
            lemma_then(since(s0, s1), since(s1, s2), resolve_step(names), after_resolve(project_id, priority, title@), Ok(tv), task_result(r));
        }
        r
    }

    fn add_task_body(&mut self, project_id: Option<i64>, priority: i64, title: String, tags: &Vec<String>) -> (r: Result<Task, AppError>)
        ensures
            old(self).continued(&*final(self)),
            add_task_body(project_id, priority, title@, strings_view(tags@), old(self).sent_since(&*final(self)), task_result(r)),
    {
        let ghost s0 = self.exchanges();
        let ghost names = strings_view(tags@);
        let checked: Result<(), AppError> = match project_id {
            Some(id) => match self.show_project(id) {
                Ok(_) => Ok(()),
                Err(e) => Err(e),
            },
            None => {
                proof {
                    lemma_since_self(s0);
                }
                Ok(())
            },
        };
        let ghost s1 = self.exchanges();
        assert((project_check_step(project_id))(since(s0, s1), unit_result(checked)));
        if let Err(e) = checked {
            proof {
                lemma_then_fail(since(s0, s1), project_check_step(project_id), after_project(project_id, priority, title@, names), e@);
            }
            return Err(e);
        }
        let r = self.add_task_tagged(project_id, priority, title, tags);
        proof {
            let s2 = self.exchanges();
            lemma_since_concat(s0, s1, s2);
            lemma_then(since(s0, s1), since(s1, s2), project_check_step(project_id), after_project(project_id, priority, title@, names), Ok(()), task_result(r));
        }
        r
    }
}

/// The query for a stored setting.
pub open spec fn metadata_sql(key: Seq<char>) -> Seq<char> {
    "SELECT value FROM app_metadata WHERE key = "@ + sql_literal(key) + ";"@
}

/// The statements that store a setting over any earlier value.
pub open spec fn set_metadata_sql(key: Seq<char>, value: Seq<char>) -> Seq<char> {
    "DELETE FROM app_metadata WHERE key = "@ + sql_literal(key) + "; INSERT INTO app_metadata VALUES ("@
        + sql_literal(key) + ", "@ + sql_literal(value) + ");"@
}

/// The stored setting read from the reply to its query.
pub open spec fn metadata_of(r: Replies) -> Result<Option<Seq<char>>, ErrorView> {
    match rows_of(r) {
        Err(e) => Err(e),
        Ok(rows) => metadata_from_rows(rows),
    }
}

/// The query that finds the tasks of an earlier, unfinished sample fill.
pub open spec fn seed_cleanup_sql() -> Seq<char> {
    "SELECT id FROM tasks WHERE title ILIKE 'Seed task %';"@
}

/// `seed`: the marker of a complete fill is read first; when it says `1` nothing more
/// is done; otherwise the fill runs, in a transaction of its own when the repository
/// wraps work into one.
pub open spec fn seed_spec(wrap: bool, x: Seq<Exchange>, r: Result<(), ErrorView>) -> bool {
    &&& x.len() >= 1
    &&& x[0].0 == metadata_sql("seed_version"@)
    &&& match metadata_of(x[0].1) {
        Err(e) => x.len() == 1 && r == Err::<(), ErrorView>(e),
        Ok(m) => if m == Some("1"@) {
            x.len() == 1 && r == Ok::<(), ErrorView>(())
        } else {
            in_transaction_spec(wrap, x.skip(1), |y: Seq<Exchange>, b: Result<(), ErrorView>| seed_body_spec(y, b), r)
        },
    }
}

/// The id of a row made of one 64-bit integer.
pub open spec fn single_id_spec(row: Seq<Cell>) -> Option<i64> {
    if row.len() == 1 {
        match row[0].value {
            CellValue::I64(id) => Some(id),
            _ => None,
        }
    } else {
        None
    }
}

/// The id of a row made of one 64-bit integer, if it is one.
fn single_id(row: &Vec<Cell>) -> (r: Option<i64>)
    ensures
        r == single_id_spec(row@),
{
    if row.len() == 1 {
        match &row[0].value {
            CellValue::I64(id) => Some(*id),
            _ => None,
        }
    } else {
        None
    }
}

/// The ids of the rows that are one id each, in order.
pub open spec fn single_ids(rows: Seq<Vec<Cell>>) -> Seq<i64>
    decreases rows.len(),
{
    if rows.len() == 0 {
        Seq::empty()
    } else {
        let rest = single_ids(rows.drop_last());
        match single_id_spec(rows.last()@) {
            Some(id) => rest.push(id),
            None => rest,
        }
    }
}

/// The statement `prefix id middle id suffix`.
pub open spec fn twice_id_sql(prefix: Seq<char>, id: i64, middle: Seq<char>, suffix: Seq<char>) -> Seq<char> {
    with_id_spec(prefix, id, middle) + decimal(id as int) + suffix
}

/// One statement `prefix id middle id suffix` per id in turn, up to the first that
/// fails, whose failure is the result.
pub open spec fn per_id_spec(
    ids: Seq<i64>,
    prefix: Seq<char>,
    middle: Seq<char>,
    suffix: Seq<char>,
    x: Seq<Exchange>,
    r: Result<(), ErrorView>,
) -> bool {
    &&& x.len() <= ids.len()
    &&& forall|i: int| 0 <= i < x.len() ==> #[trigger] x[i].0 == twice_id_sql(prefix, ids[i], middle, suffix)
    &&& forall|i: int| 0 <= i < x.len() - 1 ==> #[trigger] ran(x[i].1) is Ok
    &&& x.len() < ids.len() ==> x.len() >= 1 && ran(x[x.len() - 1].1) is Err
    &&& r == links_outcome(x)
}

/// The removal of one project left by an unfinished fill: its tasks are counted, and
/// it is deleted only when it has none.
pub open spec fn remove_seed_project_spec(id: i64, x: Seq<Exchange>, r: Result<(), ErrorView>) -> bool {
    &&& x.len() >= 1
    &&& x[0].0 == count_project_tasks_sql(id)
    &&& match count_of(x[0].1) {
        Err(e) => x.len() == 1 && r == Err::<(), ErrorView>(e),
        Ok(n) => if n > 0 {
            x.len() == 1 && r == Err::<(), ErrorView>(ErrorView::Domain("seed project contains non-seed tasks"@))
        } else {
            x.len() == 2 && x[1].0 == delete_project_sql(id) && r == ran(x[1].1)
        },
    }
}

/// A sequence of `n` units.
pub open spec fn units(n: nat) -> Seq<()> {
    Seq::new(n, |i: int| ())
}

/// A result without value as the result of `n` steps without value.
pub open spec fn as_steps(n: nat, r: Result<(), ErrorView>) -> Result<Seq<()>, ErrorView> {
    match r {
        Ok(_) => Ok(units(n)),
        Err(e) => Err(e),
    }
}

/// The removal of project `ids[i]`, as step `i` of work.
pub open spec fn remove_step(ids: Seq<i64>) -> spec_fn(int, Seq<Exchange>, Result<(), ErrorView>) -> bool {
    |i: int, y: Seq<Exchange>, a: Result<(), ErrorView>| remove_seed_project_spec(ids[i], y, a)
}

/// The removal of the projects with the given ids in turn, up to the first failure.
pub open spec fn remove_seed_projects_spec(ids: Seq<i64>, x: Seq<Exchange>, r: Result<(), ErrorView>) -> bool {
    steps_spec(ids.len(), remove_step(ids), x, as_steps(ids.len(), r))
}

/// The run of exchanges of step `i`, between cut points `i` and `i + 1`.
pub open spec fn seg(x: Seq<Exchange>, cuts: Seq<int>, i: int) -> Seq<Exchange> {
    x.subrange(cuts[i], cuts[i + 1])
}

/// Whether `cuts` are cut points of `n` exchanges: from 0 to `n`, in order.
pub open spec fn cuts_valid(cuts: Seq<int>, n: int) -> bool {
    &&& cuts.len() >= 1
    &&& cuts[0] == 0
    &&& cuts[cuts.len() - 1] == n
    &&& forall|i: int, j: int| 0 <= i <= j < cuts.len() ==> #[trigger] cuts[i] <= #[trigger] cuts[j]
}

/// Whether step `i` of the steps shown by `cuts` and `outs` did what `step` says: it
/// succeeded with `outs[i]`, or, being the last of failed work, failed as `r` did.
pub open spec fn step_done<T>(
    step: spec_fn(int, Seq<Exchange>, Result<T, ErrorView>) -> bool,
    x: Seq<Exchange>,
    cuts: Seq<int>,
    outs: Seq<T>,
    i: int,
    r: Result<Seq<T>, ErrorView>,
) -> bool {
    match r {
        Err(e) => if i == cuts.len() - 2 {
            step(i, seg(x, cuts, i), Err(e))
        } else {
            step(i, seg(x, cuts, i), Ok(outs[i]))
        },
        Ok(_) => step(i, seg(x, cuts, i), Ok(outs[i])),
    }
}

/// Whether `cuts` and `outs` show `x` to be steps of work done in turn, each on its own
/// run of exchanges: all `count` of them succeeding with `outs`, or the steps up to one
/// that failed, whose failure is the result.
pub open spec fn steps_shown<T>(
    count: nat,
    step: spec_fn(int, Seq<Exchange>, Result<T, ErrorView>) -> bool,
    x: Seq<Exchange>,
    r: Result<Seq<T>, ErrorView>,
    cuts: Seq<int>,
    outs: Seq<T>,
) -> bool {
    &&& cuts_valid(cuts, x.len() as int)
    &&& cuts.len() - 1 <= count
    &&& forall|i: int| 0 <= i < cuts.len() - 1 ==> #[trigger] step_done(step, x, cuts, outs, i, r)
    &&& match r {
        Ok(ts) => cuts.len() - 1 == count && outs.len() == count && ts == outs,
        Err(_) => cuts.len() >= 2 && outs.len() == cuts.len() - 2,
    }
}

/// `count` steps of work done in turn, each on its own run of exchanges, up to the
/// first that fails, whose failure is the result; on success, what each step gave.
pub open spec fn steps_spec<T>(
    count: nat,
    step: spec_fn(int, Seq<Exchange>, Result<T, ErrorView>) -> bool,
    x: Seq<Exchange>,
    r: Result<Seq<T>, ErrorView>,
) -> bool {
    exists|cuts: Seq<int>, outs: Seq<T>| #[trigger] steps_shown(count, step, x, r, cuts, outs)
}

/// Steps done so far, all of them succeeding.
pub open spec fn prefix_shown<T>(
    step: spec_fn(int, Seq<Exchange>, Result<T, ErrorView>) -> bool,
    x: Seq<Exchange>,
    cuts: Seq<int>,
    outs: Seq<T>,
) -> bool {
    &&& cuts_valid(cuts, x.len() as int)
    &&& outs.len() == cuts.len() - 1
    &&& forall|i: int| 0 <= i < cuts.len() - 1 ==> #[trigger] step(i, seg(x, cuts, i), Ok(outs[i]))
}

proof fn lemma_prefix_start<T>(step: spec_fn(int, Seq<Exchange>, Result<T, ErrorView>) -> bool)
    ensures
        prefix_shown(step, Seq::empty(), seq![0int], Seq::<T>::empty()),
{
}

proof fn lemma_cuts_push(cuts: Seq<int>, n: int, m: int)
    requires
        cuts_valid(cuts, n),
        n <= m,
    ensures
        cuts_valid(cuts.push(m), m),
{
    let c2 = cuts.push(m);
    assert forall|i: int, j: int| 0 <= i <= j < c2.len() implies #[trigger] c2[i] <= #[trigger] c2[j] by {
        if j < cuts.len() {
            assert(c2[i] == cuts[i] && c2[j] == cuts[j]);
            assert(cuts[i] <= cuts[j]);
        } else if i < cuts.len() {
            assert(cuts[i] <= cuts[cuts.len() - 1]);
        }
    }
}

proof fn lemma_prefix_next<T>(
    step: spec_fn(int, Seq<Exchange>, Result<T, ErrorView>) -> bool,
    x: Seq<Exchange>,
    cuts: Seq<int>,
    outs: Seq<T>,
    y: Seq<Exchange>,
    v: T,
)
    requires
        prefix_shown(step, x, cuts, outs),
        step(cuts.len() - 1, y, Ok(v)),
    ensures
        prefix_shown(step, x + y, cuts.push((x + y).len() as int), outs.push(v)),
{
    let x2 = x + y;
    let c2 = cuts.push(x2.len() as int);
    let o2 = outs.push(v);
    let m = cuts.len() - 1;
    lemma_cuts_push(cuts, x.len() as int, x2.len() as int);
    assert forall|i: int| 0 <= i < c2.len() - 1 implies #[trigger] step(i, seg(x2, c2, i), Ok(o2[i])) by {
        if i < m {
            assert(step(i, seg(x, cuts, i), Ok(outs[i])));
            assert(cuts[i] <= cuts[i + 1] && cuts[i + 1] <= cuts[m]);
            assert(seg(x2, c2, i) =~= seg(x, cuts, i));
        } else {
            assert(seg(x2, c2, i) =~= y);
        }
    }
}

proof fn lemma_prefix_done<T>(
    count: nat,
    step: spec_fn(int, Seq<Exchange>, Result<T, ErrorView>) -> bool,
    x: Seq<Exchange>,
    cuts: Seq<int>,
    outs: Seq<T>,
)
    requires
        prefix_shown(step, x, cuts, outs),
        cuts.len() - 1 == count,
    ensures
        steps_spec(count, step, x, Ok(outs)),
{
    assert forall|i: int| 0 <= i < cuts.len() - 1 implies #[trigger] step_done(step, x, cuts, outs, i, Ok(outs)) by {
        assert(step(i, seg(x, cuts, i), Ok(outs[i])));
    }
    assert(steps_shown(count, step, x, Ok(outs), cuts, outs));
}

proof fn lemma_prefix_fail<T>(
    count: nat,
    step: spec_fn(int, Seq<Exchange>, Result<T, ErrorView>) -> bool,
    x: Seq<Exchange>,
    cuts: Seq<int>,
    outs: Seq<T>,
    y: Seq<Exchange>,
    e: ErrorView,
)
    requires
        prefix_shown(step, x, cuts, outs),
        cuts.len() - 1 < count,
        step(cuts.len() - 1, y, Err(e)),
    ensures
        steps_spec(count, step, x + y, Err(e)),
{
    let x2 = x + y;
    let c2 = cuts.push(x2.len() as int);
    let m = cuts.len() - 1;
    let r = Err::<Seq<T>, ErrorView>(e);
    lemma_cuts_push(cuts, x.len() as int, x2.len() as int);
    assert forall|i: int| 0 <= i < c2.len() - 1 implies #[trigger] step_done(step, x2, c2, outs, i, r) by {
        if i < m {
            assert(step(i, seg(x, cuts, i), Ok(outs[i])));
            assert(cuts[i] <= cuts[i + 1] && cuts[i + 1] <= cuts[m]);
            assert(seg(x2, c2, i) =~= seg(x, cuts, i));
        } else {
            assert(seg(x2, c2, i) =~= y);
        }
    }
    assert(steps_shown(count, step, x2, r, c2, outs));
}

/// The query that finds the tags of an earlier, unfinished sample fill.
pub open spec fn seed_tags_cleanup_sql() -> Seq<char> {
    "SELECT id FROM tags WHERE name ILIKE 'tag-%';"@
}

/// The query that finds the projects of an earlier, unfinished sample fill.
pub open spec fn seed_projects_cleanup_sql() -> Seq<char> {
    "SELECT id FROM projects WHERE name ILIKE 'Query Lab %';"@
}

/// The removal of the projects of an unfinished fill: they are looked up, then removed
/// in turn.
pub open spec fn after_tag_cleanup() -> spec_fn((), Seq<Exchange>, Result<(), ErrorView>) -> bool {
    |u: (), x: Seq<Exchange>, r: Result<(), ErrorView>|
        x.len() >= 1 && x[0].0 == seed_projects_cleanup_sql() && match rows_of(x[0].1) {
            Err(e) => x.len() == 1 && r == Err::<(), ErrorView>(e),
            Ok(rows) => remove_seed_projects_spec(single_ids(rows), x.skip(1), r),
        }
}

/// The statements of one id in turn, as a step of work.
pub open spec fn per_id_step(ids: Seq<i64>, prefix: Seq<char>, middle: Seq<char>, suffix: Seq<char>) -> spec_fn(
    Seq<Exchange>,
    Result<(), ErrorView>,
) -> bool {
    |x: Seq<Exchange>, a: Result<(), ErrorView>| per_id_spec(ids, prefix, middle, suffix, x, a)
}

/// The removal of the tags of an unfinished fill with their links, then of its projects.
pub open spec fn after_task_cleanup() -> spec_fn((), Seq<Exchange>, Result<(), ErrorView>) -> bool {
    |u: (), x: Seq<Exchange>, r: Result<(), ErrorView>|
        x.len() >= 1 && x[0].0 == seed_tags_cleanup_sql() && match rows_of(x[0].1) {
            Err(e) => x.len() == 1 && r == Err::<(), ErrorView>(e),
            Ok(rows) => then_spec(
                x.skip(1),
                per_id_step(single_ids(rows), "DELETE FROM task_tags WHERE tag_id = "@, "; DELETE FROM tags WHERE id = "@, ";"@),
                after_tag_cleanup(),
                r,
            ),
        }
}

/// The removal of what an unfinished fill left: its tasks with their links, its tags
/// with their links, then its projects, which must hold no other task.
pub open spec fn cleanup_spec(x: Seq<Exchange>, r: Result<(), ErrorView>) -> bool {
    &&& x.len() >= 1
    &&& x[0].0 == seed_cleanup_sql()
    &&& match rows_of(x[0].1) {
        Err(e) => x.len() == 1 && r == Err::<(), ErrorView>(e),
        Ok(rows) => then_spec(
            x.skip(1),
            per_id_step(single_ids(rows), "DELETE FROM task_tags WHERE task_id = "@, "; DELETE FROM tasks WHERE id = "@, ";"@),
            after_task_cleanup(),
            r,
        ),
    }
}

proof fn lemma_single_ids_prefix(rows: Seq<Vec<Cell>>, k: int)
    requires
        0 <= k <= rows.len(),
    ensures
        single_ids(rows.take(k)).len() <= single_ids(rows).len(),
        forall|i: int| 0 <= i < single_ids(rows.take(k)).len() ==> #[trigger] single_ids(rows)[i] == single_ids(rows.take(k))[i],
    decreases rows.len() - k,
{
    if k < rows.len() {
        lemma_single_ids_prefix(rows, k + 1);
        assert(rows.take(k + 1).drop_last() =~= rows.take(k));
        let a = single_ids(rows.take(k));
        let b = single_ids(rows.take(k + 1));
        assert(b.len() >= a.len());
        assert forall|i: int| 0 <= i < a.len() implies #[trigger] single_ids(rows)[i] == a[i] by {
            assert(b[i] == a[i]);
        }
    } else {
        assert(rows.take(k) =~= rows);
    }
}

/// The name of sample project `n`: `Query Lab` and `n` in two digits.
pub open spec fn seed_project_name(n: nat) -> Seq<char> {
    "Query Lab "@ + padded_decimal(n, 2)
}

/// The name of sample tag `n`: `tag-` and `n` in two digits.
pub open spec fn seed_tag_name(n: nat) -> Seq<char> {
    "tag-"@ + padded_decimal(n, 2)
}

/// The title of sample task `n`: `Seed task` and `n` in four digits.
pub open spec fn seed_task_title(n: nat) -> Seq<char> {
    "Seed task "@ + padded_decimal(n, 4)
}

/// `add_project` when the repository does not wrap work into a transaction of its own.
pub open spec fn add_project_unwrapped(name: Seq<char>, x: Seq<Exchange>, r: Result<ProjectView, ErrorView>) -> bool {
    match required_name_spec(name, "project"@) {
        Err(e) => x.len() == 0 && r == Err::<ProjectView, ErrorView>(e),
        Ok(n) => add_project_body(n, x, r),
    }
}

/// `add_tag` when the repository does not wrap work into a transaction of its own.
pub open spec fn add_tag_unwrapped(name: Seq<char>, x: Seq<Exchange>, r: Result<TagView, ErrorView>) -> bool {
    match required_name_spec(name, "tag"@) {
        Err(e) => x.len() == 0 && r == Err::<TagView, ErrorView>(e),
        Ok(n) => add_tag_body(n, x, r),
    }
}

/// `add_task_with_tags` when the repository does not wrap work into a transaction of
/// its own.
pub open spec fn add_task_unwrapped(
    project_id: Option<i64>,
    priority: i64,
    title: Seq<char>,
    names: Seq<Seq<char>>,
    x: Seq<Exchange>,
    r: Result<TaskView, ErrorView>,
) -> bool {
    match task_input_check(title, priority, names) {
        Err(e) => x.len() == 0 && r == Err::<TaskView, ErrorView>(e),
        Ok(t) => add_task_body(project_id, priority, t, names, x, r),
    }
}

/// Adding sample project `i + 1`, as step `i`.
pub open spec fn seed_project_step() -> spec_fn(int, Seq<Exchange>, Result<ProjectView, ErrorView>) -> bool {
    |i: int, y: Seq<Exchange>, a: Result<ProjectView, ErrorView>| add_project_unwrapped(seed_project_name((i + 1) as nat), y, a)
}

/// Adding sample tag `i + 1`, as step `i`.
pub open spec fn seed_tag_step() -> spec_fn(int, Seq<Exchange>, Result<TagView, ErrorView>) -> bool {
    |i: int, y: Seq<Exchange>, a: Result<TagView, ErrorView>| add_tag_unwrapped(seed_tag_name((i + 1) as nat), y, a)
}

/// Adding sample task `number`: in project `(number - 1) % 10` of the sample projects,
/// with priority `number % 5 + 1`.
pub open spec fn seed_add_step(number: nat, projects: Seq<ProjectView>) -> spec_fn(Seq<Exchange>, Result<TaskView, ErrorView>) -> bool {
    |y: Seq<Exchange>, a: Result<TaskView, ErrorView>|
        add_task_unwrapped(
            Some(projects[((number - 1) % 10) as int].id),
            (number % 5 + 1) as i64,
            seed_task_title(number),
            Seq::empty(),
            y,
            a,
        )
}

/// Marking sample task `number` done when `number` is a multiple of 3.
pub open spec fn seed_done_step(number: nat, id: i64) -> spec_fn(Seq<Exchange>, Result<(), ErrorView>) -> bool {
    |y: Seq<Exchange>, a: Result<(), ErrorView>|
        if number % 3 == 0 {
            mark_done_spec(y, id, a)
        } else {
            y.len() == 0 && a == Ok::<(), ErrorView>(())
        }
}

/// Tagging a task, as a step of work.
pub open spec fn tag_task_step(id: i64, name: Seq<char>) -> spec_fn(Seq<Exchange>, Result<(), ErrorView>) -> bool {
    |y: Seq<Exchange>, a: Result<(), ErrorView>| tag_task_body(y, id, name, a)
}

/// Tagging sample task `number` with `tag-((number + 7) % 20 + 1)` when `number` is a
/// multiple of 4.
pub open spec fn seed_second_tag(number: nat, id: i64) -> spec_fn((), Seq<Exchange>, Result<(), ErrorView>) -> bool {
    |u: (), y: Seq<Exchange>, b: Result<(), ErrorView>|
        if number % 4 == 0 {
            tag_task_body(y, id, seed_tag_name(((number + 7) % 20 + 1) as nat), b)
        } else {
            y.len() == 0 && b == Ok::<(), ErrorView>(())
        }
}

/// The tags of sample task `number`: `tag-(number % 20 + 1)`, then the second one.
pub open spec fn seed_tags_after(number: nat, id: i64) -> spec_fn((), Seq<Exchange>, Result<(), ErrorView>) -> bool {
    |u: (), y: Seq<Exchange>, b: Result<(), ErrorView>|
        then_spec(y, tag_task_step(id, seed_tag_name((number % 20 + 1) as nat)), seed_second_tag(number, id), b)
}

/// What follows the adding of sample task `number`: marking it done, then tagging it.
pub open spec fn seed_task_rest_spec(number: nat, id: i64, x: Seq<Exchange>, r: Result<(), ErrorView>) -> bool {
    then_spec(x, seed_done_step(number, id), seed_tags_after(number, id), r)
}

/// What follows the adding of a sample task, as the rest of its work.
pub open spec fn seed_after_add(number: nat) -> spec_fn(TaskView, Seq<Exchange>, Result<(), ErrorView>) -> bool {
    |t: TaskView, y: Seq<Exchange>, b: Result<(), ErrorView>| seed_task_rest_spec(number, t.id, y, b)
}

/// Sample task `number`: added, marked done when `number` is a multiple of 3, tagged.
pub open spec fn seed_task_spec(number: nat, projects: Seq<ProjectView>, x: Seq<Exchange>, r: Result<(), ErrorView>) -> bool {
    then_spec(x, seed_add_step(number, projects), seed_after_add(number), r)
}

/// Sample task `i + 1`, as step `i`.
pub open spec fn seed_task_step(projects: Seq<ProjectView>) -> spec_fn(int, Seq<Exchange>, Result<(), ErrorView>) -> bool {
    |i: int, y: Seq<Exchange>, a: Result<(), ErrorView>| seed_task_spec((i + 1) as nat, projects, y, a)
}

/// The 10 sample projects, as a step of work.
pub open spec fn seed_projects_all() -> spec_fn(Seq<Exchange>, Result<Seq<ProjectView>, ErrorView>) -> bool {
    |y: Seq<Exchange>, a: Result<Seq<ProjectView>, ErrorView>| steps_spec(10, seed_project_step(), y, a)
}

/// The 20 sample tags, as a step of work.
pub open spec fn seed_tags_all() -> spec_fn(Seq<Exchange>, Result<Seq<TagView>, ErrorView>) -> bool {
    |y: Seq<Exchange>, a: Result<Seq<TagView>, ErrorView>| steps_spec(20, seed_tag_step(), y, a)
}

/// The 1000 sample tasks once the tags are added.
pub open spec fn seed_after_tags(projects: Seq<ProjectView>) -> spec_fn(Seq<TagView>, Seq<Exchange>, Result<(), ErrorView>) -> bool {
    |ts: Seq<TagView>, y: Seq<Exchange>, b: Result<(), ErrorView>| steps_spec(1000, seed_task_step(projects), y, as_steps(1000, b))
}

/// The sample tags, then the sample tasks, once the projects are added.
pub open spec fn seed_after_projects() -> spec_fn(Seq<ProjectView>, Seq<Exchange>, Result<(), ErrorView>) -> bool {
    |ps: Seq<ProjectView>, y: Seq<Exchange>, b: Result<(), ErrorView>| then_spec(y, seed_tags_all(), seed_after_tags(ps), b)
}

/// The sample records: 10 projects, 20 tags, then 1000 tasks, each added in turn.
pub open spec fn seed_records_spec(x: Seq<Exchange>, r: Result<(), ErrorView>) -> bool {
    then_spec(x, seed_projects_all(), seed_after_projects(), r)
}

/// The removal of what an unfinished fill left, as a step of work.
pub open spec fn cleanup_step() -> spec_fn(Seq<Exchange>, Result<(), ErrorView>) -> bool {
    |y: Seq<Exchange>, a: Result<(), ErrorView>| cleanup_spec(y, a)
}

/// The sample records, as a step of work.
pub open spec fn seed_records_step() -> spec_fn(Seq<Exchange>, Result<(), ErrorView>) -> bool {
    |y: Seq<Exchange>, a: Result<(), ErrorView>| seed_records_spec(y, a)
}

/// The record that the fill is complete, once the records are added.
pub open spec fn seed_after_records() -> spec_fn((), Seq<Exchange>, Result<(), ErrorView>) -> bool {
    |u: (), y: Seq<Exchange>, b: Result<(), ErrorView>| run_spec(y, set_metadata_sql("seed_version"@, "1"@), b)
}

/// The records, then the completion record, once the leftovers are removed.
pub open spec fn seed_after_cleanup() -> spec_fn((), Seq<Exchange>, Result<(), ErrorView>) -> bool {
    |u: (), y: Seq<Exchange>, b: Result<(), ErrorView>| then_spec(y, seed_records_step(), seed_after_records(), b)
}

/// The work of `seed`: the leftovers of an unfinished fill are removed, the sample
/// records added, and the fill recorded as complete (`seed_version` = `1`).
pub open spec fn seed_body_spec(x: Seq<Exchange>, r: Result<(), ErrorView>) -> bool {
    then_spec(x, cleanup_step(), seed_after_cleanup(), r)
}

/// The view of a result holding projects.
pub open spec fn projects_result(r: Result<Vec<Project>, AppError>) -> Result<Seq<ProjectView>, ErrorView> {
    match r {
        Ok(v) => Ok(v@.map_values(|p: Project| p@)),
        Err(e) => Err(e@),
    }
}

/// `prefix` followed by `number` padded with zeros to `width` digits.
pub fn numbered_name(prefix: &str, number: u64, width: usize) -> (s: String)
    ensures
        s@ == prefix@ + padded_decimal(number as nat, width as nat),
{
    let mut s = to_owned_string(prefix);
    let d = padded_decimal_string(number, width);
    push_str(&mut s, d.as_str());
    s
}

impl<E: SqlEngine> GlueSqlTaskRepository<E> {
    /// Reads a stored setting.
    fn metadata_value(&mut self, key: &str) -> (r: Result<Option<String>, AppError>)
        ensures
            old(self).continued(&*final(self)),
            sent(old(self).sent_since(&*final(self)), metadata_sql(key@)),
            name_result(r) == metadata_of(old(self).sent_since(&*final(self))[0].1),
    {
        let mut sql = to_owned_string("SELECT value FROM app_metadata WHERE key = ");
        push_literal(&mut sql, key);
        push_str(&mut sql, ";");
        match self.select_rows(sql.as_str()) {
            Ok(rows) => rows_to_metadata(&rows),
            Err(e) => Err(e),
        }
    }

    /// Stores a setting over any earlier value.
    fn set_metadata(&mut self, key: &str, value: &str) -> (r: Result<(), AppError>)
        ensures
            old(self).continued(&*final(self)),
            run_spec(old(self).sent_since(&*final(self)), set_metadata_sql(key@, value@), unit_result(r)),
    {
        let mut sql = to_owned_string("DELETE FROM app_metadata WHERE key = ");
        push_literal(&mut sql, key);
        push_str(&mut sql, "; INSERT INTO app_metadata VALUES (");
        push_literal(&mut sql, key);
        push_str(&mut sql, ", ");
        push_literal(&mut sql, value);
        push_str(&mut sql, ");");
        self.run(sql.as_str())
    }

    /// Runs `prefix id middle id suffix` for each row that is one id, in turn, up to the
    /// first failure.
    fn for_each_id(&mut self, rows: &Vec<Vec<Cell>>, prefix: &str, middle: &str, suffix: &str) -> (r: Result<(), AppError>)
        ensures
            old(self).continued(&*final(self)),
            per_id_spec(single_ids(rows@), prefix@, middle@, suffix@, old(self).sent_since(&*final(self)), unit_result(r)),
    {
        let ghost s0 = self.exchanges();
        let mut i: usize = 0;
        proof {
            lemma_since_self(s0);
            assert(rows@.take(0) =~= Seq::<Vec<Cell>>::empty());
        }
        while i < rows.len()
            invariant
                i <= rows@.len(),
                s0 == old(self).exchanges(),
                self.is_transactional() == old(self).is_transactional(),
                self.is_in_transaction() == old(self).is_in_transaction(),
                self.plan_calls() == old(self).plan_calls(),
                self.run_calls() == old(self).run_calls(),
                extends(s0, self.exchanges()),
                since(s0, self.exchanges()).len() == single_ids(rows@.take(i as int)).len(),
                forall|k: int| 0 <= k < since(s0, self.exchanges()).len() ==> #[trigger] since(s0, self.exchanges())[k].0
                    == twice_id_sql(prefix@, single_ids(rows@.take(i as int))[k], middle@, suffix@),
                forall|k: int| 0 <= k < since(s0, self.exchanges()).len() ==> #[trigger] ran(since(s0, self.exchanges())[k].1) is Ok,
            decreases rows@.len() - i,
        {
            let ghost ids = single_ids(rows@.take(i as int));
            proof {
                assert(rows@.take(i + 1).drop_last() =~= rows@.take(i as int));
                assert(rows@.take(i + 1).last() == rows@[i as int]);
            }
            if let Some(id) = single_id(&rows[i]) {
                let ghost sb = self.exchanges();
                let mut sql = with_id(prefix, id, middle);
                push_id(&mut sql, id);
                push_str(&mut sql, suffix);
                let done = self.run(sql.as_str());
                let ghost sa = self.exchanges();
                proof {
                    lemma_since_concat(s0, sb, sa);
                    let x = since(s0, sa);
                    let nids = single_ids(rows@.take(i + 1));
                    assert(nids == ids.push(id));
                    assert(x[ids.len() as int] == since(sb, sa)[0]);
                    assert forall|k: int| 0 <= k < ids.len() implies #[trigger] x[k] == since(s0, sb)[k] && nids[k] == ids[k] by {}
                }
                if let Err(e) = done {
                    proof {
                        let x = since(s0, sa);
                        let full = single_ids(rows@);
                        lemma_single_ids_prefix(rows@, i + 1);
                        assert forall|k: int| 0 <= k < x.len() implies #[trigger] x[k].0 == twice_id_sql(prefix@, full[k], middle@, suffix@) by {
                            assert(full[k] == single_ids(rows@.take(i + 1))[k]);
                        }
                    }
                    return Err(e);
                }
            }
            i = i + 1;
        }
        proof {
            assert(rows@.take(i as int) =~= rows@);
        }
        Ok(())
    }

    /// Removes the projects with the ids of the rows in turn; a project that holds a
    /// task is refused.
    fn remove_seed_projects(&mut self, rows: &Vec<Vec<Cell>>) -> (r: Result<(), AppError>)
        ensures
            old(self).continued(&*final(self)),
            remove_seed_projects_spec(single_ids(rows@), old(self).sent_since(&*final(self)), unit_result(r)),
    {
        let ghost s0 = self.exchanges();
        let ghost full = single_ids(rows@);
        let ghost step = remove_step(full);
        let ghost mut cuts: Seq<int> = seq![0int];
        let ghost mut outs: Seq<()> = Seq::empty();
        let mut i: usize = 0;
        proof {
            lemma_since_self(s0);
            lemma_prefix_start(step);
            assert(since(s0, s0) =~= Seq::<Exchange>::empty());
            assert(rows@.take(0) =~= Seq::<Vec<Cell>>::empty());
        }
        while i < rows.len()
            invariant
                i <= rows@.len(),
                s0 == old(self).exchanges(),
                full == single_ids(rows@),
                step == remove_step(full),
                self.is_transactional() == old(self).is_transactional(),
                self.is_in_transaction() == old(self).is_in_transaction(),
                self.plan_calls() == old(self).plan_calls(),
                self.run_calls() == old(self).run_calls(),
                extends(s0, self.exchanges()),
                prefix_shown(step, since(s0, self.exchanges()), cuts, outs),
                cuts.len() - 1 == single_ids(rows@.take(i as int)).len(),
            decreases rows@.len() - i,
        {
            proof {
                assert(rows@.take(i + 1).drop_last() =~= rows@.take(i as int));
                assert(rows@.take(i + 1).last() == rows@[i as int]);
            }
            if let Some(id) = single_id(&rows[i]) {
                let ghost sb = self.exchanges();
                let r = self.remove_seed_project(id);
                let ghost sa = self.exchanges();
                proof {
                    lemma_since_concat(s0, sb, sa);
                    lemma_single_ids_prefix(rows@, i + 1);
                    let m = cuts.len() - 1;
                    assert(single_ids(rows@.take(i + 1)) == single_ids(rows@.take(i as int)).push(id));
                    assert(full[m] == id);
                }
                match r {
                    Ok(()) => {
                        proof {
                            lemma_prefix_next(step, since(s0, sb), cuts, outs, since(sb, sa), ());
                            cuts = cuts.push(since(s0, sa).len() as int);
                            outs = outs.push(());
                        }
                    },
                    Err(e) => {
                        proof {
                            lemma_prefix_fail(full.len(), step, since(s0, sb), cuts, outs, since(sb, sa), e@);
                        }
                        return Err(e);
                    },
                }
            }
            i = i + 1;
        }
        proof {
            assert(rows@.take(i as int) =~= rows@);
            lemma_prefix_done(full.len(), step, since(s0, self.exchanges()), cuts, outs);
            assert(outs =~= units(full.len()));
        }
        Ok(())
    }

    fn remove_seed_project(&mut self, id: i64) -> (r: Result<(), AppError>)
        ensures
            old(self).continued(&*final(self)),
            remove_seed_project_spec(id, old(self).sent_since(&*final(self)), unit_result(r)),
    {
        let ghost s0 = self.exchanges();
        let sql = with_id("SELECT COUNT(*) FROM tasks WHERE project_id = ", id, ";");
        let count = self.select_count(sql.as_str());
        let ghost s1 = self.exchanges();
        match count {
            Ok(n) => if n > 0 {
                return Err(AppError::Domain(to_owned_string("seed project contains non-seed tasks")));
            },
            Err(e) => return Err(e),
        }
        let sql = with_id("DELETE FROM projects WHERE id = ", id, ";");
        let r = self.run(sql.as_str());
        proof {
            lemma_since_concat(s0, s1, self.exchanges());
        }
        r
    }

    fn cleanup_after_tags(&mut self) -> (r: Result<(), AppError>)
        ensures
            old(self).continued(&*final(self)),
            (after_tag_cleanup())((), old(self).sent_since(&*final(self)), unit_result(r)),
    {
        let ghost s0 = self.exchanges();
        let rows = self.select_rows("SELECT id FROM projects WHERE name ILIKE 'Query Lab %';");
        let ghost s1 = self.exchanges();
        let rows = match rows {
            Ok(rows) => rows,
            Err(e) => return Err(e),
        };
        let r = self.remove_seed_projects(&rows);
        proof {
            lemma_since_concat(s0, s1, self.exchanges());
            assert(since(s0, self.exchanges()).skip(1) =~= since(s1, self.exchanges()));
        }
        r
    }

    fn cleanup_after_tasks(&mut self) -> (r: Result<(), AppError>)
        ensures
            old(self).continued(&*final(self)),
            (after_task_cleanup())((), old(self).sent_since(&*final(self)), unit_result(r)),
    {
        let ghost s0 = self.exchanges();
        let rows = self.select_rows("SELECT id FROM tags WHERE name ILIKE 'tag-%';");
        let ghost s1 = self.exchanges();
        let rows = match rows {
            Ok(rows) => rows,
            Err(e) => return Err(e),
        };
        let ghost ids = single_ids(rows@);
        let removed = self.for_each_id(&rows, "DELETE FROM task_tags WHERE tag_id = ", "; DELETE FROM tags WHERE id = ", ";");
        let ghost s2 = self.exchanges();
        proof {
            lemma_since_concat(s0, s1, s2);
        }
        if let Err(e) = removed {
            proof {
                lemma_then_fail(since(s1, s2), per_id_step(ids, "DELETE FROM task_tags WHERE tag_id = "@, "; DELETE FROM tags WHERE id = "@, ";"@), after_tag_cleanup(), e@);
                assert(since(s0, s2).skip(1) =~= since(s1, s2));
            }
            return Err(e);
        }
        let r = self.cleanup_after_tags();
        proof {
            let s3 = self.exchanges();
            lemma_since_concat(s1, s2, s3);
            lemma_since_concat(s0, s1, s3);
            lemma_then(since(s1, s2), since(s2, s3), per_id_step(ids, "DELETE FROM task_tags WHERE tag_id = "@, "; DELETE FROM tags WHERE id = "@, ";"@), after_tag_cleanup(), Ok(()), unit_result(r));
            assert(since(s0, s3).skip(1) =~= since(s1, s3));
        }
        r
    }

    /// Removes what an earlier, unfinished sample fill left: its tasks and tags with
    /// their links, then its projects, which must hold no other task.
    fn cleanup_partial_seed(&mut self) -> (r: Result<(), AppError>)
        ensures
            old(self).continued(&*final(self)),
            cleanup_spec(old(self).sent_since(&*final(self)), unit_result(r)),
    {
        let ghost s0 = self.exchanges();
        let rows = self.select_rows("SELECT id FROM tasks WHERE title ILIKE 'Seed task %';");
        let ghost s1 = self.exchanges();
        let rows = match rows {
            Ok(rows) => rows,
            Err(e) => return Err(e),
        };
        let ghost ids = single_ids(rows@);
        let removed = self.for_each_id(&rows, "DELETE FROM task_tags WHERE task_id = ", "; DELETE FROM tasks WHERE id = ", ";");
        let ghost s2 = self.exchanges();
        proof {
            lemma_since_concat(s0, s1, s2);
        }
        if let Err(e) = removed {
            proof {
                lemma_then_fail(since(s1, s2), per_id_step(ids, "DELETE FROM task_tags WHERE task_id = "@, "; DELETE FROM tasks WHERE id = "@, ";"@), after_task_cleanup(), e@);
                assert(since(s0, s2).skip(1) =~= since(s1, s2));
            }
            return Err(e);
        }
        let r = self.cleanup_after_tasks();
        proof {
            let s3 = self.exchanges();
            lemma_since_concat(s1, s2, s3);
            lemma_since_concat(s0, s1, s3);
            lemma_then(since(s1, s2), since(s2, s3), per_id_step(ids, "DELETE FROM task_tags WHERE task_id = "@, "; DELETE FROM tasks WHERE id = "@, ";"@), after_task_cleanup(), Ok(()), unit_result(r));
            assert(since(s0, s3).skip(1) =~= since(s1, s3));
        }
        r
    }

    /// Adds the 10 sample projects in turn.
    fn seed_projects(&mut self) -> (r: Result<Vec<Project>, AppError>)
        requires
            !wraps(old(self)),
        ensures
            old(self).continued(&*final(self)),
            steps_spec(10, seed_project_step(), old(self).sent_since(&*final(self)), projects_result(r)),
    {
        let ghost s0 = self.exchanges();
        let ghost step = seed_project_step();
        let ghost mut cuts: Seq<int> = seq![0int];
        let ghost mut outs: Seq<ProjectView> = Seq::empty();
        let mut projects: Vec<Project> = Vec::new();
        let mut number: u64 = 1;
        proof {
            lemma_since_self(s0);
            lemma_prefix_start(step);
            assert(since(s0, s0) =~= Seq::<Exchange>::empty());
        }
        while number <= 10
            invariant
                1 <= number <= 11,
                s0 == old(self).exchanges(),
                step == seed_project_step(),
                self.is_transactional() == old(self).is_transactional(),
                self.is_in_transaction() == old(self).is_in_transaction(),
                self.plan_calls() == old(self).plan_calls(),
                self.run_calls() == old(self).run_calls(),
                !wraps(self),
                extends(s0, self.exchanges()),
                prefix_shown(step, since(s0, self.exchanges()), cuts, outs),
                cuts.len() - 1 == number - 1,
                outs == projects@.map_values(|p: Project| p@),
            decreases 11 - number,
        {
            let ghost sb = self.exchanges();
            let name = numbered_name("Query Lab ", number, 2);
            let added = self.add_project(name);
            let ghost sa = self.exchanges();
            proof {
                lemma_since_concat(s0, sb, sa);
                assert(step(cuts.len() - 1, since(sb, sa), project_result(added)));
            }
            match added {
                Ok(p) => {
                    proof {
                        lemma_prefix_next(step, since(s0, sb), cuts, outs, since(sb, sa), p@);
                        cuts = cuts.push(since(s0, sa).len() as int);
                        outs = outs.push(p@);
                    }
                    let ghost before = projects@;
                    projects.push(p);
                    proof {
                        assert(projects@.map_values(|p: Project| p@) =~= before.map_values(|p: Project| p@).push(p@));
                    }
                },
                Err(e) => {
                    proof {
                        lemma_prefix_fail(10, step, since(s0, sb), cuts, outs, since(sb, sa), e@);
                    }
                    return Err(e);
                },
            }
            number = number + 1;
        }
        proof {
            lemma_prefix_done(10, step, since(s0, self.exchanges()), cuts, outs);
        }
        Ok(projects)
    }

    /// Adds the 20 sample tags in turn.
    fn seed_tags(&mut self) -> (r: Result<Vec<Tag>, AppError>)
        requires
            !wraps(old(self)),
        ensures
            old(self).continued(&*final(self)),
            steps_spec(20, seed_tag_step(), old(self).sent_since(&*final(self)), tags_result(r)),
    {
        let ghost s0 = self.exchanges();
        let ghost step = seed_tag_step();
        let ghost mut cuts: Seq<int> = seq![0int];
        let ghost mut outs: Seq<TagView> = Seq::empty();
        let mut tags: Vec<Tag> = Vec::new();
        let mut number: u64 = 1;
        proof {
            lemma_since_self(s0);
            lemma_prefix_start(step);
            assert(since(s0, s0) =~= Seq::<Exchange>::empty());
        }
        while number <= 20
            invariant
                1 <= number <= 21,
                s0 == old(self).exchanges(),
                step == seed_tag_step(),
                self.is_transactional() == old(self).is_transactional(),
                self.is_in_transaction() == old(self).is_in_transaction(),
                self.plan_calls() == old(self).plan_calls(),
                self.run_calls() == old(self).run_calls(),
                !wraps(self),
                extends(s0, self.exchanges()),
                prefix_shown(step, since(s0, self.exchanges()), cuts, outs),
                cuts.len() - 1 == number - 1,
                outs == tags@.map_values(|t: Tag| t@),
            decreases 21 - number,
        {
            let ghost sb = self.exchanges();
            let name = numbered_name("tag-", number, 2);
            let added = self.add_tag(name);
            let ghost sa = self.exchanges();
            proof {
                lemma_since_concat(s0, sb, sa);
                assert(step(cuts.len() - 1, since(sb, sa), tag_result(added)));
            }
            match added {
                Ok(t) => {
                    proof {
                        lemma_prefix_next(step, since(s0, sb), cuts, outs, since(sb, sa), t@);
                        cuts = cuts.push(since(s0, sa).len() as int);
                        outs = outs.push(t@);
                    }
                    let ghost before = tags@;
                    tags.push(t);
                    proof {
                        assert(tags@.map_values(|t: Tag| t@) =~= before.map_values(|t: Tag| t@).push(t@));
                    }
                },
                Err(e) => {
                    proof {
                        lemma_prefix_fail(20, step, since(s0, sb), cuts, outs, since(sb, sa), e@);
                    }
                    return Err(e);
                },
            }
            number = number + 1;
        }
        proof {
            lemma_prefix_done(20, step, since(s0, self.exchanges()), cuts, outs);
        }
        Ok(tags)
    }

    /// Tags sample task `number`.
    fn seed_task_tags(&mut self, number: u64, id: i64) -> (r: Result<(), AppError>)
        requires
            1 <= number <= 1000,
            !wraps(old(self)),
        ensures
            old(self).continued(&*final(self)),
            (seed_tags_after(number as nat, id))((), old(self).sent_since(&*final(self)), unit_result(r)),
    {
        let ghost s0 = self.exchanges();
        let ghost n = number as nat;
        let name = numbered_name("tag-", (number % 20) + 1, 2);
        let first = self.tag_task(id, name.as_str());
        let ghost s1 = self.exchanges();
        proof {
            assert((tag_task_step(id, seed_tag_name((n % 20 + 1) as nat)))(since(s0, s1), unit_result(first)));
        }
        if let Err(e) = first {
            proof {
                lemma_then_fail(since(s0, s1), tag_task_step(id, seed_tag_name((n % 20 + 1) as nat)), seed_second_tag(n, id), e@);
            }
            return Err(e);
        }
        let r = if number % 4 == 0 {
            let name = numbered_name("tag-", ((number + 7) % 20) + 1, 2);
            self.tag_task(id, name.as_str())
        } else {
            proof {
                lemma_since_self(s1);
            }
            Ok(())
        };
        proof {
            let s2 = self.exchanges();
            lemma_since_concat(s0, s1, s2);
            assert((seed_second_tag(n, id))((), since(s1, s2), unit_result(r)));
            lemma_then(since(s0, s1), since(s1, s2), tag_task_step(id, seed_tag_name((n % 20 + 1) as nat)), seed_second_tag(n, id), Ok(()), unit_result(r));
        }
        r
    }

    /// Marks sample task `number` done when `number` is a multiple of 3, then tags it.
    fn seed_task_rest(&mut self, number: u64, id: i64) -> (r: Result<(), AppError>)
        requires
            1 <= number <= 1000,
            !wraps(old(self)),
        ensures
            old(self).continued(&*final(self)),
            seed_task_rest_spec(number as nat, id, old(self).sent_since(&*final(self)), unit_result(r)),
    {
        let ghost s0 = self.exchanges();
        let ghost n = number as nat;
        let done = if number % 3 == 0 {
            self.mark_task_done(id)
        } else {
            proof {
                lemma_since_self(s0);
            }
            Ok(())
        };
        let ghost s1 = self.exchanges();
        proof {
            assert((seed_done_step(n, id))(since(s0, s1), unit_result(done)));
        }
        if let Err(e) = done {
            proof {
                lemma_then_fail(since(s0, s1), seed_done_step(n, id), seed_tags_after(n, id), e@);
            }
            return Err(e);
        }
        let r = self.seed_task_tags(number, id);
        proof {
            let s2 = self.exchanges();
            lemma_since_concat(s0, s1, s2);
            lemma_then(since(s0, s1), since(s1, s2), seed_done_step(n, id), seed_tags_after(n, id), Ok(()), unit_result(r));
        }
        r
    }

    /// Adds sample task `number`, then marks it done and tags it as `seed_task_spec` says.
    fn seed_task(&mut self, number: u64, projects: &Vec<Project>) -> (r: Result<(), AppError>)
        requires
            1 <= number <= 1000,
            projects@.len() == 10,
            !wraps(old(self)),
        ensures
            old(self).continued(&*final(self)),
            seed_task_spec(number as nat, projects@.map_values(|p: Project| p@), old(self).sent_since(&*final(self)), unit_result(r)),
    {
        let ghost s0 = self.exchanges();
        let ghost n = number as nat;
        let ghost ps = projects@.map_values(|p: Project| p@);
        let project_id = projects[((number - 1) % 10) as usize].id;
        let priority: i64 = (number % 5) as i64 + 1;
        let title = numbered_name("Seed task ", number, 4);
        let added = self.add_task(Some(project_id), priority, title);
        let ghost s1 = self.exchanges();
        proof {
            assert(ps[((n - 1) % 10) as int].id == project_id);
            assert((seed_add_step(n, ps))(since(s0, s1), task_result(added)));
        }
        let task = match added {
            Ok(t) => t,
            Err(e) => {
                proof {
                    lemma_then_fail(since(s0, s1), seed_add_step(n, ps), seed_after_add(n), e@);
                }
                return Err(e);
            },
        };
        let r = self.seed_task_rest(number, task.id);
        proof {
            let s2 = self.exchanges();
            lemma_since_concat(s0, s1, s2);
            lemma_then(since(s0, s1), since(s1, s2), seed_add_step(n, ps), seed_after_add(n), Ok(task@), unit_result(r));
        }
        r
    }

    /// Adds the 1000 sample tasks in turn.
    fn seed_tasks(&mut self, projects: &Vec<Project>) -> (r: Result<(), AppError>)
        requires
            projects@.len() == 10,
            !wraps(old(self)),
        ensures
            old(self).continued(&*final(self)),
            steps_spec(1000, seed_task_step(projects@.map_values(|p: Project| p@)), old(self).sent_since(&*final(self)), as_steps(1000, unit_result(r))),
    {
        let ghost s0 = self.exchanges();
        let ghost step = seed_task_step(projects@.map_values(|p: Project| p@));
        let ghost mut cuts: Seq<int> = seq![0int];
        let ghost mut outs: Seq<()> = Seq::empty();
        let mut number: u64 = 1;
        proof {
            lemma_since_self(s0);
            lemma_prefix_start(step);
            assert(since(s0, s0) =~= Seq::<Exchange>::empty());
        }
        while number <= 1000
            invariant
                1 <= number <= 1001,
                projects@.len() == 10,
                s0 == old(self).exchanges(),
                step == seed_task_step(projects@.map_values(|p: Project| p@)),
                self.is_transactional() == old(self).is_transactional(),
                self.is_in_transaction() == old(self).is_in_transaction(),
                self.plan_calls() == old(self).plan_calls(),
                self.run_calls() == old(self).run_calls(),
                !wraps(self),
                extends(s0, self.exchanges()),
                prefix_shown(step, since(s0, self.exchanges()), cuts, outs),
                cuts.len() - 1 == number - 1,
            decreases 1001 - number,
        {
            let ghost sb = self.exchanges();
            let done = self.seed_task(number, projects);
            let ghost sa = self.exchanges();
            proof {
                lemma_since_concat(s0, sb, sa);
                assert(step(cuts.len() - 1, since(sb, sa), unit_result(done)));
            }
            match done {
                Ok(()) => {
                    proof {
                        lemma_prefix_next(step, since(s0, sb), cuts, outs, since(sb, sa), ());
                        cuts = cuts.push(since(s0, sa).len() as int);
                        outs = outs.push(());
                    }
                },
                Err(e) => {
                    proof {
                        lemma_prefix_fail(1000, step, since(s0, sb), cuts, outs, since(sb, sa), e@);
                    }
                    return Err(e);
                },
            }
            number = number + 1;
        }
        proof {
            lemma_prefix_done(1000, step, since(s0, self.exchanges()), cuts, outs);
            assert(outs =~= units(1000));
        }
        Ok(())
    }

    /// Adds the sample tags, then the sample tasks.
    fn seed_tags_and_tasks(&mut self, projects: &Vec<Project>) -> (r: Result<(), AppError>)
        requires
            projects@.len() == 10,
            !wraps(old(self)),
        ensures
            old(self).continued(&*final(self)),
            (seed_after_projects())(projects@.map_values(|p: Project| p@), old(self).sent_since(&*final(self)), unit_result(r)),
    {
        let ghost s0 = self.exchanges();
        let ghost ps = projects@.map_values(|p: Project| p@);
        let tags = self.seed_tags();
        let ghost s1 = self.exchanges();
        let ghost tv = tags_result(tags);
        let tags = match tags {
            Ok(t) => t,
            Err(e) => {
                proof {
                    lemma_then_fail(since(s0, s1), seed_tags_all(), seed_after_tags(ps), e@);
                }
                return Err(e);
            },
        };
        let r = self.seed_tasks(projects);
        proof {
            let s2 = self.exchanges();
            lemma_since_concat(s0, s1, s2);
            lemma_then(since(s0, s1), since(s1, s2), seed_tags_all(), seed_after_tags(ps), tv, unit_result(r));
        }
        r
    }

    /// Adds the sample projects, tags and tasks.
    fn seed_records(&mut self) -> (r: Result<(), AppError>)
        requires
            !wraps(old(self)),
        ensures
            old(self).continued(&*final(self)),
            seed_records_spec(old(self).sent_since(&*final(self)), unit_result(r)),
    {
        let ghost s0 = self.exchanges();
        let projects = self.seed_projects();
        let ghost s1 = self.exchanges();
        let ghost pv = projects_result(projects);
        let projects = match projects {
            Ok(p) => p,
            Err(e) => {
                proof {
                    lemma_then_fail(since(s0, s1), seed_projects_all(), seed_after_projects(), e@);
                }
                return Err(e);
            },
        };
        proof {
            assert(steps_spec(10, seed_project_step(), since(s0, s1), pv));
            assert(projects@.map_values(|p: Project| p@).len() == 10);
        }
        let r = self.seed_tags_and_tasks(&projects);
        proof {
            let s2 = self.exchanges();
            lemma_since_concat(s0, s1, s2);
            lemma_then(since(s0, s1), since(s1, s2), seed_projects_all(), seed_after_projects(), pv, unit_result(r));
        }
        r
    }

    fn seed_body(&mut self) -> (r: Result<(), AppError>)
        requires
            !wraps(old(self)),
        ensures
            old(self).continued(&*final(self)),
            seed_body_spec(old(self).sent_since(&*final(self)), unit_result(r)),
    {
        let ghost s0 = self.exchanges();
        let cleaned = self.cleanup_partial_seed();
        let ghost s1 = self.exchanges();
        if let Err(e) = cleaned {
            proof {
                lemma_then_fail(since(s0, s1), cleanup_step(), seed_after_cleanup(), e@);
            }
            return Err(e);
        }
        let records = self.seed_records();
        let ghost s2 = self.exchanges();
        if let Err(e) = records {
            proof {
                lemma_then_fail(since(s1, s2), seed_records_step(), seed_after_records(), e@);
                lemma_since_concat(s0, s1, s2);
                lemma_then(since(s0, s1), since(s1, s2), cleanup_step(), seed_after_cleanup(), Ok(()), Err(e@));
            }
            return Err(e);
        }
        let r = self.set_metadata("seed_version", "1");
        proof {
            let s3 = self.exchanges();
            lemma_then(since(s1, s2), since(s2, s3), seed_records_step(), seed_after_records(), Ok(()), unit_result(r));
            lemma_since_concat(s1, s2, s3);
            lemma_since_concat(s0, s1, s3);
            lemma_then(since(s0, s1), since(s1, s3), cleanup_step(), seed_after_cleanup(), Ok(()), unit_result(r));
        }
        r
    }

}

/// The statements that create the tables when they are missing.
pub open spec fn create_tables_sql() -> Seq<char> {
    "CREATE TABLE IF NOT EXISTS projects (id INTEGER PRIMARY KEY, name TEXT NOT NULL); CREATE TABLE IF NOT EXISTS tasks (id INTEGER PRIMARY KEY, project_id INTEGER, title TEXT NOT NULL, done BOOLEAN NOT NULL, priority INTEGER NOT NULL, FOREIGN KEY (project_id) REFERENCES projects(id)); CREATE TABLE IF NOT EXISTS tags (id INTEGER PRIMARY KEY, name TEXT NOT NULL); CREATE TABLE IF NOT EXISTS task_tags (task_id INTEGER, tag_id INTEGER); CREATE TABLE IF NOT EXISTS id_sequences (entity TEXT PRIMARY KEY, next_id INTEGER NOT NULL); CREATE TABLE IF NOT EXISTS app_metadata (key TEXT PRIMARY KEY, value TEXT NOT NULL);"@
}

/// The query that tells whether the tasks table has its project and priority columns.
pub open spec fn columns_probe_sql() -> Seq<char> {
    "SELECT project_id, priority FROM tasks LIMIT 1;"@
}

/// The statements that add the project and priority columns to an older tasks table.
pub open spec fn migrate_sql() -> Seq<char> {
    "ALTER TABLE tasks ADD COLUMN project_id INTEGER; ALTER TABLE tasks ADD COLUMN priority INTEGER DEFAULT 3;"@
}

/// The index statements of a transactional (on-disk) database, in order.
pub open spec fn index_sqls() -> Seq<Seq<char>> {
    seq![
        "CREATE INDEX idx_tasks_project_id ON tasks(project_id);"@,
        "CREATE INDEX idx_tasks_done ON tasks(done);"@,
        "CREATE INDEX idx_task_tags_tag_id ON task_tags(tag_id);"@,
    ]
}

/// Whether the outcome of an index statement is acceptable: it ran, or the index exists.
pub open spec fn index_ok(r: Replies) -> bool {
    match r {
        Ok(_) => true,
        Err(e) => contains_seq(e@.message(), "index name already exists"@),
    }
}

/// The index statements in turn, up to the first unacceptable outcome, which is the
/// result.
pub open spec fn indexes_spec(x: Seq<Exchange>, r: Result<(), ErrorView>) -> bool {
    &&& x.len() <= 3
    &&& forall|i: int| 0 <= i < x.len() ==> #[trigger] x[i].0 == index_sqls()[i]
    &&& forall|i: int| 0 <= i < x.len() - 1 ==> index_ok(#[trigger] x[i].1)
    &&& match r {
        Ok(_) => x.len() == 3 && index_ok(x[2].1),
        Err(e) => x.len() >= 1 && !index_ok(x[x.len() - 1].1) && ran(x[x.len() - 1].1) == Err::<(), ErrorView>(e),
    }
}

/// The setup of a database: the tables are created when missing; when the tasks table
/// lacks the project or priority column (the probe fails) the columns are added; a
/// transactional database then gets its indexes, an index that exists being no error.
pub open spec fn create_tables_spec(transactional: bool, x: Seq<Exchange>, r: Result<(), ErrorView>) -> bool {
    &&& x.len() >= 1
    &&& x[0].0 == create_tables_sql()
    &&& match ran(x[0].1) {
        Err(e) => x.len() == 1 && r == Err::<(), ErrorView>(e),
        Ok(_) => {
            &&& x.len() >= 2
            &&& x[1].0 == columns_probe_sql()
            &&& exists|k: int| {
                &&& (k == 2 || k == 3)
                &&& (k == 3 <==> x[1].1 is Err)
                &&& x.len() >= k
                &&& (k == 3 ==> x[2].0 == migrate_sql())
                &&& if k == 3 && ran(x[2].1) is Err {
                    x.len() == 3 && r == ran(x[2].1)
                } else if transactional {
                    indexes_spec(#[trigger] x.skip(k), r)
                } else {
                    x.len() == k && r == Ok::<(), ErrorView>(())
                }
            }
        },
    }
}

impl<E: SqlEngine> GlueSqlTaskRepository<E> {
    /// The engine the repository sends its SQL to.
    pub closed spec fn engine_spec(&self) -> E {
        self.engine
    }

    /// The engine the repository sends its SQL to.
    pub fn engine(&self) -> (r: &E)
        ensures
            *r == self.engine_spec(),
    {
        &self.engine
    }

    /// The engine, to adjust its settings; what is done through it is not recorded.
    pub fn engine_mut(&mut self) -> (r: &mut E)
        ensures
            *r == old(self).engine_spec(),
            final(self).engine_spec() == *final(r),
            final(self).exchanges() == old(self).exchanges(),
            final(self).is_transactional() == old(self).is_transactional(),
            final(self).is_in_transaction() == old(self).is_in_transaction(),
            final(self).plan_calls() == old(self).plan_calls(),
            final(self).run_calls() == old(self).run_calls(),
    {
        &mut self.engine
    }

    /// Runs the index statements in turn; an index that exists already is no error.
    fn create_indexes(&mut self) -> (r: Result<(), AppError>)
        ensures
            old(self).continued(&*final(self)),
            indexes_spec(old(self).sent_since(&*final(self)), unit_result(r)),
    {
        let ghost s0 = self.exchanges();
        let mut i: usize = 0;
        proof {
            lemma_since_self(s0);
        }
        while i < 3
            invariant
                i <= 3,
                s0 == old(self).exchanges(),
                self.is_transactional() == old(self).is_transactional(),
                self.is_in_transaction() == old(self).is_in_transaction(),
                self.plan_calls() == old(self).plan_calls(),
                self.run_calls() == old(self).run_calls(),
                extends(s0, self.exchanges()),
                since(s0, self.exchanges()).len() == i,
                forall|k: int| 0 <= k < i ==> #[trigger] since(s0, self.exchanges())[k].0 == index_sqls()[k],
                forall|k: int| 0 <= k < i ==> index_ok(#[trigger] since(s0, self.exchanges())[k].1),
            decreases 3 - i,
        {
            let ghost sb = self.exchanges();
            let sql = if i == 0 {
                "CREATE INDEX idx_tasks_project_id ON tasks(project_id);"
            } else if i == 1 {
                "CREATE INDEX idx_tasks_done ON tasks(done);"
            } else {
                "CREATE INDEX idx_task_tags_tag_id ON task_tags(tag_id);"
            };
            let outcome = self.execute(sql);
            let ghost sa = self.exchanges();
            proof {
                lemma_since_concat(s0, sb, sa);
                let x = since(s0, sa);
                assert(x[i as int] == since(sb, sa)[0]);
                assert(forall|k: int| 0 <= k < i ==> x[k] == #[trigger] since(s0, sb)[k]);
                assert(sql@ == index_sqls()[i as int]);
            }
            if let Err(e) = outcome {
                let m = e.message();
                if !contains_str(m.as_str(), "index name already exists") {
                    return Err(e);
                }
            }
            i = i + 1;
        }
        Ok(())
    }

    /// Creates the tables when missing, adds the project and priority columns to an
    /// older tasks table, and gives a transactional database its indexes.
    fn create_tables(&mut self) -> (r: Result<(), AppError>)
        ensures
            old(self).continued(&*final(self)),
            create_tables_spec(old(self).is_transactional(), old(self).sent_since(&*final(self)), unit_result(r)),
    {
        let ghost s0 = self.exchanges();
        let created = self.run("CREATE TABLE IF NOT EXISTS projects (id INTEGER PRIMARY KEY, name TEXT NOT NULL); CREATE TABLE IF NOT EXISTS tasks (id INTEGER PRIMARY KEY, project_id INTEGER, title TEXT NOT NULL, done BOOLEAN NOT NULL, priority INTEGER NOT NULL, FOREIGN KEY (project_id) REFERENCES projects(id)); CREATE TABLE IF NOT EXISTS tags (id INTEGER PRIMARY KEY, name TEXT NOT NULL); CREATE TABLE IF NOT EXISTS task_tags (task_id INTEGER, tag_id INTEGER); CREATE TABLE IF NOT EXISTS id_sequences (entity TEXT PRIMARY KEY, next_id INTEGER NOT NULL); CREATE TABLE IF NOT EXISTS app_metadata (key TEXT PRIMARY KEY, value TEXT NOT NULL);");
        if let Err(e) = created {
            return Err(e);
        }
        let ghost s1 = self.exchanges();
        let probe = self.execute("SELECT project_id, priority FROM tasks LIMIT 1;");
        let ghost s2 = self.exchanges();
        proof {
            lemma_since_concat(s0, s1, s2);
        }
        let migrate = probe.is_err();
        proof {
            lemma_since_self(s2);
        }
        if migrate {
            let altered = self.run("ALTER TABLE tasks ADD COLUMN project_id INTEGER; ALTER TABLE tasks ADD COLUMN priority INTEGER DEFAULT 3;");
            proof {
                lemma_since_concat(s0, s2, self.exchanges());
            }
            if let Err(e) = altered {
                proof {
                    let x = since(s0, self.exchanges());
                    assert(x.len() >= 3);
                    assert(x.skip(3) =~= Seq::<Exchange>::empty());
                }
                return Err(e);
            }
        }
        let ghost s3 = self.exchanges();
        let ghost k: int = if migrate { 3 } else { 2 };
        proof {
            lemma_since_concat(s0, s2, s3);
            assert(since(s0, s3).len() == k);
        }
        if !self.transactional {
            proof {
                let x = since(s0, s3);
                assert(x.skip(k) =~= Seq::<Exchange>::empty());
            }
            return Ok(());
        }
        let r = self.create_indexes();
        proof {
            let s4 = self.exchanges();
            lemma_since_concat(s0, s3, s4);
            assert(since(s0, s4).skip(k) =~= since(s3, s4));
        }
        r
    }

    /// A repository over `engine`, which wraps multi-statement work into transactions
    /// when `transactional` holds; the tables are set up first. When the set-up fails,
    /// its failure (over the batches it sent) is the result.
    pub fn from_engine(engine: E, transactional: bool) -> (r: Result<Self, AppError>)
        ensures
            r matches Ok(repo) ==> {
                &&& repo.is_transactional() == transactional
                &&& !repo.is_in_transaction()
                &&& create_tables_spec(transactional, repo.exchanges(), Ok(()))
            },
            r matches Err(e) ==> exists|x: Seq<Exchange>| #[trigger] create_tables_spec(transactional, x, Err(e@)),
    {
        let mut repository = GlueSqlTaskRepository {
            engine,
            transactional,
            in_transaction: false,
            log: Ghost(Seq::empty()),
            plans: Ghost(Seq::empty()),
            runs: Ghost(Seq::empty()),
        };
        let created = repository.create_tables();
        proof {
            assert(repository.exchanges().skip(0) =~= repository.exchanges());
        }
        match created {
            Ok(()) => Ok(repository),
            Err(e) => {
                proof {
                    assert(create_tables_spec(transactional, repository.exchanges(), Err(e@)));
                }
                Err(e)
            },
        }
    }

    /// Plans a batch of SQL without running it; a failure is the engine's, as a GlueSQL
    /// error with its message. The call is recorded among the plan calls.
    pub fn plan_sql(&mut self, sql: &str) -> (r: Result<Vec<gluesql::core::ast::Statement>, AppError>)
        ensures
            final(self).exchanges() == old(self).exchanges(),
            r matches Err(e) ==> e is GlueSql,
            final(self).is_transactional() == old(self).is_transactional(),
            final(self).is_in_transaction() == old(self).is_in_transaction(),
            final(self).plan_calls() == old(self).plan_calls().push((sql@, r)),
            final(self).run_calls() == old(self).run_calls(),
    {
        let r = match self.engine.plan_batch(sql) {
            Ok(v) => Ok(v),
            Err(message) => Err(AppError::GlueSql(message)),
        };
        self.plans = Ghost(self.plans@.push((sql@, r)));
        r
    }

    /// Runs one planned statement; a failure is the engine's, as a GlueSQL error with its
    /// message. The call is recorded among the run calls, not among the exchanges (a
    /// planned statement is not a batch of SQL text).
    pub fn execute_statement(&mut self, statement: &gluesql::core::ast::Statement) -> (r: Result<Reply, AppError>)
        ensures
            final(self).exchanges() == old(self).exchanges(),
            r matches Err(e) ==> e is GlueSql,
            final(self).is_transactional() == old(self).is_transactional(),
            final(self).is_in_transaction() == old(self).is_in_transaction(),
            final(self).plan_calls() == old(self).plan_calls(),
            final(self).run_calls() == old(self).run_calls().push((*statement, r)),
    {
        let r = match self.engine.execute_planned(statement) {
            Ok(p) => Ok(p),
            Err(message) => Err(AppError::GlueSql(message)),
        };
        self.runs = Ghost(self.runs@.push((*statement, r)));
        r
    }
}

impl GlueSqlTaskRepository<MemoryEngine> {
    /// A repository over a new in-memory GlueSQL database, without transactions (the
    /// in-memory storage has none); the tables are set up first.
    pub fn new() -> (r: Result<Self, AppError>)
        ensures
            r matches Ok(repo) ==> {
                &&& !repo.is_transactional()
                &&& !repo.is_in_transaction()
                &&& create_tables_spec(false, repo.exchanges(), Ok(()))
            },
            r matches Err(e) ==> exists|x: Seq<Exchange>| #[trigger] create_tables_spec(false, x, Err(e@)),
    {
        Self::from_engine(new_memory_engine(), false)
    }
}

/// The sizes of a lab profile: projects, tasks, tags, and whether the data is skewed
/// (most tasks in one project and under one tag).
pub open spec fn lab_profile_spec(profile: Seq<char>) -> Option<(usize, usize, usize, bool)> {
    if profile == "medium"@ {
        Some((100, 100000, 100, false))
    } else if profile == "large"@ {
        Some((250, 250000, 200, false))
    } else if profile == "skewed"@ {
        Some((10, 10000, 20, true))
    } else {
        None
    }
}

/// The sizes of a lab profile, if it is one.
pub fn lab_profile(profile: &str) -> (r: Option<(usize, usize, usize, bool)>)
    ensures
        r == lab_profile_spec(profile@),
{
    if str_eq(profile, "medium") {
        Some((100, 100000, 100, false))
    } else if str_eq(profile, "large") {
        Some((250, 250000, 200, false))
    } else if str_eq(profile, "skewed") {
        Some((10, 10000, 20, true))
    } else {
        None
    }
}

/// The text of a boolean in SQL and in Rust's `Display`.
pub open spec fn bool_text(b: bool) -> Seq<char> {
    if b {
        "true"@
    } else {
        "false"@
    }
}

/// The statement that adds lab project `n` (counted from 0) under `id`.
pub open spec fn lab_project_sql(profile: Seq<char>, id: i64, n: nat) -> Seq<char> {
    "INSERT INTO projects VALUES ("@ + decimal(id as int) + ", 'Lab "@ + profile + " Project "@
        + padded_decimal(n + 1, 4) + "');"@
}

/// The statement that adds lab tag `n` (counted from 0) under `id`.
pub open spec fn lab_tag_sql(profile: Seq<char>, id: i64, n: nat) -> Seq<char> {
    "INSERT INTO tags VALUES ("@ + decimal(id as int) + ", 'lab-"@ + profile + "-tag-"@
        + padded_decimal(n + 1, 4) + "');"@
}

/// The statement that adds lab task `n` (counted from 0).
pub open spec fn lab_task_sql(profile: Seq<char>, id: i64, project_id: i64, n: nat, done: bool, priority: nat) -> Seq<char> {
    "INSERT INTO tasks (id, project_id, title, done, priority) VALUES ("@ + decimal(id as int) + ", "@
        + decimal(project_id as int) + ", 'Lab "@ + profile + " Task "@ + padded_decimal(n + 1, 7) + "', "@
        + bool_text(done) + ", "@ + decimal(priority as int) + ");"@
}

/// Which of `count` projects or tags lab task `n` of `tasks` goes to: the first for
/// the first 80% of the tasks of a skewed profile, else `n % count`.
pub open spec fn lab_offset(n: nat, tasks: nat, count: nat, skewed: bool) -> nat {
    if skewed && n < tasks * 8 / 10 {
        0
    } else {
        n % count
    }
}

/// Whether lab task `n` is done: all but every tenth of a skewed profile, else every
/// third.
pub open spec fn lab_done(n: nat, skewed: bool) -> bool {
    if skewed {
        n % 10 != 0
    } else {
        n % 3 == 0
    }
}

/// The statement that adds lab project `n` under `id`.
pub fn lab_project_statement(profile: &str, id: i64, n: u64) -> (s: String)
    requires
        n < u64::MAX,
    ensures
        s@ == lab_project_sql(profile@, id, n as nat),
{
    let mut s = with_id("INSERT INTO projects VALUES (", id, ", 'Lab ");
    push_str(&mut s, profile);
    push_str(&mut s, " Project ");
    let d = padded_decimal_string(n + 1, 4);
    push_str(&mut s, d.as_str());
    push_str(&mut s, "');");
    s
}

/// The statement that adds lab tag `n` under `id`.
pub fn lab_tag_statement(profile: &str, id: i64, n: u64) -> (s: String)
    requires
        n < u64::MAX,
    ensures
        s@ == lab_tag_sql(profile@, id, n as nat),
{
    let mut s = with_id("INSERT INTO tags VALUES (", id, ", 'lab-");
    push_str(&mut s, profile);
    push_str(&mut s, "-tag-");
    let d = padded_decimal_string(n + 1, 4);
    push_str(&mut s, d.as_str());
    push_str(&mut s, "');");
    s
}

/// The statement that adds lab task `n`.
pub fn lab_task_statement(profile: &str, id: i64, project_id: i64, n: u64, done: bool, priority: u64) -> (s: String)
    requires
        n < u64::MAX,
    ensures
        s@ == lab_task_sql(profile@, id, project_id, n as nat, done, priority as nat),
{
    let mut s = with_id("INSERT INTO tasks (id, project_id, title, done, priority) VALUES (", id, ", ");
    push_id(&mut s, project_id);
    push_str(&mut s, ", 'Lab ");
    push_str(&mut s, profile);
    push_str(&mut s, " Task ");
    let d = padded_decimal_string(n + 1, 7);
    push_str(&mut s, d.as_str());
    push_str(&mut s, "', ");
    if done {
        push_str(&mut s, "true");
    } else {
        push_str(&mut s, "false");
    }
    push_str(&mut s, ", ");
    let p = crate::text::u64_to_decimal(priority);
    push_str(&mut s, p.as_str());
    push_str(&mut s, ");");
    s
}

/// The error of a lab fill that failed at `stage`.
pub open spec fn lab_error(profile: Seq<char>, stage: Seq<char>, e: ErrorView) -> ErrorView {
    ErrorView::GlueSql("lab seed "@ + profile + " failed during "@ + stage + ": "@ + e.message())
}

/// The error of a lab fill that failed at `stage`.
pub fn seed_profile_error(profile: &str, stage: &str, error: AppError) -> (r: AppError)
    ensures
        r@ == lab_error(profile@, stage@, error@),
{
    let mut m = concat3("lab seed ", profile, " failed during ");
    push_str(&mut m, stage);
    push_str(&mut m, ": ");
    let t = error.message();
    push_str(&mut m, t.as_str());
    AppError::GlueSql(m)
}

/// The concatenation of texts, in order.
pub open spec fn flat(ss: Seq<Seq<char>>) -> Seq<char>
    decreases ss.len(),
{
    if ss.len() == 0 {
        Seq::empty()
    } else {
        flat(ss.drop_last()) + ss.last()
    }
}

/// The number of batches of at most 500 statements that `n` statements make.
pub open spec fn batch_count(n: nat) -> nat {
    (n + 499) / 500
}

/// Batch `i` of a list of statements: statements `500 i` to `500 i + 499` (or to the
/// last), one after the other.
pub open spec fn batch_text(stmts: Seq<Seq<char>>, i: int) -> Seq<char> {
    flat(stmts.subrange(500 * i, if 500 * i + 500 <= stmts.len() { 500 * i + 500 } else { stmts.len() as int }))
}

/// Sending batch `i`, as step `i` of work.
pub open spec fn batch_step(stmts: Seq<Seq<char>>) -> spec_fn(int, Seq<Exchange>, Result<(), ErrorView>) -> bool {
    |i: int, y: Seq<Exchange>, a: Result<(), ErrorView>| run_spec(y, batch_text(stmts, i), a)
}

/// Statements sent in batches of 500 in turn, up to the first batch that fails.
pub open spec fn batches_spec(stmts: Seq<Seq<char>>, x: Seq<Exchange>, r: Result<(), ErrorView>) -> bool {
    steps_spec(batch_count(stmts.len()), batch_step(stmts), x, as_steps(batch_count(stmts.len()), r))
}

/// The statements sent in batches, as a step of work.
pub open spec fn batches_step(stmts: Seq<Seq<char>>) -> spec_fn(Seq<Exchange>, Result<(), ErrorView>) -> bool {
    |y: Seq<Exchange>, a: Result<(), ErrorView>| batches_spec(stmts, y, a)
}

/// The batches of a list of statements, in order.
pub open spec fn batch_texts(stmts: Seq<Seq<char>>) -> Seq<Seq<char>> {
    Seq::new(batch_count(stmts.len()), |i: int| batch_text(stmts, i))
}

proof fn lemma_flat_concat(a: Seq<Seq<char>>, b: Seq<Seq<char>>)
    ensures
        flat(a + b) == flat(a) + flat(b),
    decreases b.len(),
{
    if b.len() == 0 {
        assert(a + b =~= a);
        assert(flat(a) + flat(b) =~= flat(a));
    } else {
        lemma_flat_concat(a, b.drop_last());
        assert((a + b).drop_last() =~= a + b.drop_last());
        assert((a + b).last() == b.last());
        assert(flat(a) + flat(b) =~= flat(a) + flat(b.drop_last()) + b.last());
    }
}

proof fn lemma_batch_index(k: nat, n: nat)
    ensures
        k < batch_count(n) <==> 500 * k < n,
{
    assert(k < (n + 499) / 500 <==> 500 * k < n) by (nonlinear_arith);
}

proof fn lemma_batches_prefix(stmts: Seq<Seq<char>>, k: nat)
    requires
        k <= batch_count(stmts.len()),
    ensures
        flat(batch_texts(stmts).take(k as int)) == flat(
            stmts.subrange(0, if 500 * k <= stmts.len() { 500 * k as int } else { stmts.len() as int }),
        ),
    decreases k,
{
    let all = batch_texts(stmts);
    if k == 0 {
        assert(all.take(0) =~= Seq::<Seq<char>>::empty());
        assert(stmts.subrange(0, 0) =~= Seq::<Seq<char>>::empty());
    } else {
        let j = (k - 1) as nat;
        let n = stmts.len();
        lemma_batches_prefix(stmts, j);
        lemma_batch_index(j, n);
        let end: int = if 500 * k <= n { 500 * k as int } else { n as int };
        assert(all.take(k as int).drop_last() =~= all.take(j as int));
        assert(all.take(k as int).last() == batch_text(stmts, j as int));
        let mid: int = 500 * j as int;
        lemma_flat_concat(stmts.subrange(0, mid), stmts.subrange(mid, end));
        assert(stmts.subrange(0, mid) + stmts.subrange(mid, end) =~= stmts.subrange(0, end));
    }
}

/// Sending statements in batches loses, repeats and reorders none of them: the
/// batches, one after the other, are the statements one after the other.
pub proof fn lemma_batches_cover(stmts: Seq<Seq<char>>)
    ensures
        flat(batch_texts(stmts)) == flat(stmts),
{
    let c = batch_count(stmts.len());
    lemma_batches_prefix(stmts, c);
    lemma_batch_index(c, stmts.len());
    assert(batch_texts(stmts).take(c as int) =~= batch_texts(stmts));
    assert(stmts.subrange(0, stmts.len() as int) =~= stmts);
}

proof fn lemma_batch_count(b: nat, c: nat)
    requires
        c < 500,
    ensures
        batch_count(500 * b + c) == if c == 0 { b } else { b + 1 },
{
    assert((500 * b + c + 499) / 500 == if c == 0 { b } else { b + 1 }) by (nonlinear_arith)
        requires
            c < 500,
    ;
}

proof fn lemma_batch_before_last(b: nat, total: nat)
    requires
        500 * b + 500 <= total,
    ensures
        b < batch_count(total),
{
    assert(b < (total + 499) / 500) by (nonlinear_arith)
        requires
            500 * b + 500 <= total,
    ;
}

/// A lab fill: the profile, its sizes (projects, tasks, tags, skew), and the first id
/// reserved for the projects, the tags and the tasks.
pub struct LabFillView {
    pub profile: Seq<char>,
    pub projects: nat,
    pub tasks: nat,
    pub tags: nat,
    pub skewed: bool,
    pub project_start: i64,
    pub tag_start: i64,
    pub task_start: i64,
}

/// The fill of a profile with the given sizes and first reserved ids.
pub open spec fn lab_fill_view(profile: Seq<char>, sizes: (usize, usize, usize, bool), starts: (i64, i64, i64)) -> LabFillView {
    LabFillView {
        profile,
        projects: sizes.0 as nat,
        tasks: sizes.1 as nat,
        tags: sizes.2 as nat,
        skewed: sizes.3,
        project_start: starts.0,
        tag_start: starts.1,
        task_start: starts.2,
    }
}

/// Whether the sizes of a fill are within what a lab profile asks for.
pub open spec fn lab_sizes_ok(sizes: (usize, usize, usize, bool)) -> bool {
    &&& 0 < sizes.0 <= 1000000
    &&& sizes.1 <= 1000000
    &&& 0 < sizes.2 <= 1000000
}

/// Whether the sizes of a fill are within bounds and its reserved ids fit.
pub open spec fn lab_fill_ok(sizes: (usize, usize, usize, bool), starts: (i64, i64, i64)) -> bool {
    &&& lab_sizes_ok(sizes)
    &&& starts.0 + sizes.0 <= i64::MAX
    &&& starts.1 + sizes.2 <= i64::MAX
    &&& starts.2 + sizes.1 <= i64::MAX
}

/// The phases of a lab fill.
#[derive(Clone, Copy)]
pub enum LabPhase {
    Projects,
    Tags,
    Tasks,
    Links,
}

/// The statements of one phase of a fill, in order: each project; each tag; each task,
/// in its project and done as `lab_offset` and `lab_done` say, with priority
/// `n % 5 + 1`; each task's link to its tag.
pub open spec fn lab_statements(f: LabFillView, phase: LabPhase) -> Seq<Seq<char>> {
    match phase {
        LabPhase::Projects => Seq::new(
            f.projects,
            |n: int| lab_project_sql(f.profile, (f.project_start + n) as i64, n as nat),
        ),
        LabPhase::Tags => Seq::new(f.tags, |n: int| lab_tag_sql(f.profile, (f.tag_start + n) as i64, n as nat)),
        LabPhase::Tasks => Seq::new(
            f.tasks,
            |n: int|
                lab_task_sql(
                    f.profile,
                    (f.task_start + n) as i64,
                    (f.project_start + lab_offset(n as nat, f.tasks, f.projects, f.skewed)) as i64,
                    n as nat,
                    lab_done(n as nat, f.skewed),
                    (n % 5 + 1) as nat,
                ),
        ),
        LabPhase::Links => Seq::new(
            f.tasks,
            |n: int| link_sql((f.task_start + n) as i64, (f.tag_start + lab_offset(n as nat, f.tasks, f.tags, f.skewed)) as i64),
        ),
    }
}

/// A step of work whose failure is named after the stage of the fill it happened at.
pub open spec fn staged<T>(profile: Seq<char>, stage: Seq<char>, step: spec_fn(Seq<Exchange>, Result<T, ErrorView>) -> bool) -> spec_fn(
    Seq<Exchange>,
    Result<T, ErrorView>,
) -> bool {
    |y: Seq<Exchange>, a: Result<T, ErrorView>|
        exists|b: Result<T, ErrorView>|
            #[trigger] step(y, b) && a == match b {
                Ok(v) => Ok(v),
                Err(e) => Err(lab_error(profile, stage, e)),
            }
}

proof fn lemma_staged<T>(
    profile: Seq<char>,
    stage: Seq<char>,
    step: spec_fn(Seq<Exchange>, Result<T, ErrorView>) -> bool,
    y: Seq<Exchange>,
    b: Result<T, ErrorView>,
)
    requires
        step(y, b),
    ensures
        (staged(profile, stage, step))(
            y,
            match b {
                Ok(v) => Ok(v),
                Err(e) => Err(lab_error(profile, stage, e)),
            },
        ),
{
}

/// The statement that moves a table's next id to `next`.
pub open spec fn reserve_sql(table: Seq<char>, next: i64) -> Seq<char> {
    with_id_spec("UPDATE id_sequences SET next_id = "@, next, " WHERE entity = "@) + sql_literal(table) + ";"@
}

/// Moving the next id past `count` ids from `start`, once `start` is allocated; when
/// the last of them would not fit in an id, nothing is sent.
pub open spec fn after_reserve_allocate(table: Seq<char>, count: nat) -> spec_fn(i64, Seq<Exchange>, Result<i64, ErrorView>) -> bool {
    |start: i64, y: Seq<Exchange>, b: Result<i64, ErrorView>|
        if start + count > i64::MAX {
            y.len() == 0 && b == Err::<i64, ErrorView>(engine_error("id sequence is exhausted"@))
        } else {
            sent(y, reserve_sql(table, (start + count) as i64)) && b == match ran(y[0].1) {
                Ok(_) => Ok(start),
                Err(e) => Err(e),
            }
        }
}

/// The reservation of `count` consecutive ids of a table: the first is allocated, and
/// the stored next id moved past the last; the first is the result.
pub open spec fn reserve_spec(table: Seq<char>, count: nat, x: Seq<Exchange>, r: Result<i64, ErrorView>) -> bool {
    then_spec(x, allocate_step(table), after_reserve_allocate(table, count), r)
}

/// The reservation of ids, as a step of work.
pub open spec fn reserve_step(table: Seq<char>, count: nat) -> spec_fn(Seq<Exchange>, Result<i64, ErrorView>) -> bool {
    |y: Seq<Exchange>, a: Result<i64, ErrorView>| reserve_spec(table, count, y, a)
}

/// The completion record of a fill, as its last stage.
pub open spec fn lab_after_links(f: LabFillView) -> spec_fn((), Seq<Exchange>, Result<(), ErrorView>) -> bool {
    |u: (), y: Seq<Exchange>, b: Result<(), ErrorView>|
        (staged(f.profile, "write completion metadata"@, run_step(set_metadata_sql("query_lab_seed_"@ + f.profile, "1"@))))(y, b)
}

/// The links of a fill's tasks, then the rest.
pub open spec fn lab_after_tasks(f: LabFillView) -> spec_fn((), Seq<Exchange>, Result<(), ErrorView>) -> bool {
    |u: (), y: Seq<Exchange>, b: Result<(), ErrorView>|
        then_spec(
            y,
            staged(f.profile, "insert task-tag links"@, batches_step(lab_statements(f, LabPhase::Links))),
            lab_after_links(f),
            b,
        )
}

/// The tasks of a fill, then the rest.
pub open spec fn lab_after_tags(f: LabFillView) -> spec_fn((), Seq<Exchange>, Result<(), ErrorView>) -> bool {
    |u: (), y: Seq<Exchange>, b: Result<(), ErrorView>|
        then_spec(y, staged(f.profile, "insert tasks"@, batches_step(lab_statements(f, LabPhase::Tasks))), lab_after_tasks(f), b)
}

/// The tags of a fill, then the rest.
pub open spec fn lab_after_projects(f: LabFillView) -> spec_fn((), Seq<Exchange>, Result<(), ErrorView>) -> bool {
    |u: (), y: Seq<Exchange>, b: Result<(), ErrorView>|
        then_spec(y, staged(f.profile, "insert tags"@, batches_step(lab_statements(f, LabPhase::Tags))), lab_after_tags(f), b)
}

/// The inserts of a fill once its ids are reserved: projects, tags, tasks and links in
/// batches, then the completion record.
pub open spec fn lab_inserts_spec(f: LabFillView, x: Seq<Exchange>, r: Result<(), ErrorView>) -> bool {
    then_spec(x, staged(f.profile, "insert projects"@, batches_step(lab_statements(f, LabPhase::Projects))), lab_after_projects(f), r)
}

/// The inserts once every id is reserved.
pub open spec fn after_task_reserve(profile: Seq<char>, sizes: (usize, usize, usize, bool), project_start: i64, tag_start: i64) -> spec_fn(
    i64,
    Seq<Exchange>,
    Result<(), ErrorView>,
) -> bool {
    |task_start: i64, y: Seq<Exchange>, b: Result<(), ErrorView>|
        lab_inserts_spec(lab_fill_view(profile, sizes, (project_start, tag_start, task_start)), y, b)
}

/// The reservation of the task ids, then the inserts.
pub open spec fn after_tag_reserve(profile: Seq<char>, sizes: (usize, usize, usize, bool), project_start: i64) -> spec_fn(
    i64,
    Seq<Exchange>,
    Result<(), ErrorView>,
) -> bool {
    |tag_start: i64, y: Seq<Exchange>, b: Result<(), ErrorView>|
        then_spec(
            y,
            staged(profile, "reserve task IDs"@, reserve_step("tasks"@, sizes.1 as nat)),
            after_task_reserve(profile, sizes, project_start, tag_start),
            b,
        )
}

/// The reservation of the tag ids, then the rest.
pub open spec fn after_project_reserve(profile: Seq<char>, sizes: (usize, usize, usize, bool)) -> spec_fn(
    i64,
    Seq<Exchange>,
    Result<(), ErrorView>,
) -> bool {
    |project_start: i64, y: Seq<Exchange>, b: Result<(), ErrorView>|
        then_spec(
            y,
            staged(profile, "reserve tag IDs"@, reserve_step("tags"@, sizes.2 as nat)),
            after_tag_reserve(profile, sizes, project_start),
            b,
        )
}

/// The work of a lab fill: ids are reserved for the projects, tags and tasks of the
/// profile; its projects, tags, tasks and links are inserted in batches of 500; the fill
/// is recorded as complete (`query_lab_seed_<profile>` = `1`). A failure names the
/// stage it happened at.
pub open spec fn lab_body_spec(profile: Seq<char>, x: Seq<Exchange>, r: Result<(), ErrorView>) -> bool {
    match lab_profile_spec(profile) {
        Some(sizes) => then_spec(
            x,
            staged(profile, "reserve project IDs"@, reserve_step("projects"@, sizes.0 as nat)),
            after_project_reserve(profile, sizes),
            r,
        ),
        None => false,
    }
}

/// `seed_lab_profile`: `small` is `seed`; another profile than `medium`, `large` or
/// `skewed` is refused before anything is sent; otherwise the profile's marker is read,
/// and when it says `1` nothing more is done, else the fill runs, in a transaction of
/// its own when the repository wraps work into one.
pub open spec fn seed_lab_spec(wrap: bool, profile: Seq<char>, x: Seq<Exchange>, r: Result<(), ErrorView>) -> bool {
    if profile == "small"@ {
        seed_spec(wrap, x, r)
    } else if lab_profile_spec(profile) is None {
        x.len() == 0 && r == Err::<(), ErrorView>(ErrorView::Domain("Unknown lab seed profile: "@ + profile))
    } else {
        let key = "query_lab_seed_"@ + profile;
        &&& x.len() >= 1
        &&& x[0].0 == metadata_sql(key)
        &&& match metadata_of(x[0].1) {
            Err(e) => x.len() == 1 && r == Err::<(), ErrorView>(e),
            Ok(m) => if m == Some("1"@) {
                x.len() == 1 && r == Ok::<(), ErrorView>(())
            } else {
                in_transaction_spec(wrap, x.skip(1), |y: Seq<Exchange>, b: Result<(), ErrorView>| lab_body_spec(profile, y, b), r)
            },
        }
    }
}

/// The statement number `n` of one phase of a fill.
fn lab_statement(profile: &str, sizes: (usize, usize, usize, bool), starts: (i64, i64, i64), phase: LabPhase, n: usize) -> (s: String)
    requires
        lab_fill_ok(sizes, starts),
        n < lab_statements(lab_fill_view(profile@, sizes, starts), phase).len(),
    ensures
        s@ == lab_statements(lab_fill_view(profile@, sizes, starts), phase)[n as int],
{
    let (projects, tasks, tags, skewed) = sizes;
    let (project_start, tag_start, task_start) = starts;
    match phase {
        LabPhase::Projects => lab_project_statement(profile, project_start + n as i64, n as u64),
        LabPhase::Tags => lab_tag_statement(profile, tag_start + n as i64, n as u64),
        LabPhase::Tasks => {
            let offset: usize = if skewed && n < tasks * 8 / 10 {
                0
            } else {
                n % projects
            };
            let done = if skewed {
                n % 10 != 0
            } else {
                n % 3 == 0
            };
            let priority: u64 = (n % 5) as u64 + 1;
            lab_task_statement(profile, task_start + n as i64, project_start + offset as i64, n as u64, done, priority)
        },
        LabPhase::Links => {
            let offset: usize = if skewed && n < tasks * 8 / 10 {
                0
            } else {
                n % tags
            };
            let mut s = with_id("INSERT INTO task_tags VALUES (", task_start + n as i64, ", ");
            push_id(&mut s, tag_start + offset as i64);
            push_str(&mut s, ");");
            s
        },
    }
}

impl<E: SqlEngine> GlueSqlTaskRepository<E> {
    /// Reserves `count` consecutive ids of a table and gives back the first.
    fn reserve_ids(&mut self, table: &str, count: usize) -> (r: Result<i64, AppError>)
        requires
            count <= 1000000,
        ensures
            old(self).continued(&*final(self)),
            reserve_spec(table@, count as nat, old(self).sent_since(&*final(self)), id_result(r)),
            r matches Ok(start) ==> start + count <= i64::MAX,
    {
        let ghost s0 = self.exchanges();
        let allocated = self.allocate_id(table);
        let ghost s1 = self.exchanges();
        let ghost a = id_result(allocated);
        let start = match allocated {
            Ok(id) => id,
            Err(e) => {
                proof {
                    lemma_then_fail(since(s0, s1), allocate_step(table@), after_reserve_allocate(table@, count as nat), e@);
                }
                return Err(e);
            },
        };
        if count as i128 + start as i128 > i64::MAX as i128 {
            let r = Err(AppError::GlueSql(to_owned_string("id sequence is exhausted")));
            proof {
                lemma_since_self(s1);
                lemma_then(since(s0, s1), since(s1, s1), allocate_step(table@), after_reserve_allocate(table@, count as nat), a, id_result(r));
                assert(since(s0, s1) + since(s1, s1) =~= since(s0, s1));
            }
            return r;
        }
        let next: i64 = start + count as i64;
        let mut sql = with_id("UPDATE id_sequences SET next_id = ", next, " WHERE entity = ");
        push_literal(&mut sql, table);
        push_str(&mut sql, ";");
        let done = self.run(sql.as_str());
        let r = match done {
            Ok(()) => Ok(start),
            Err(e) => Err(e),
        };
        proof {
            let s2 = self.exchanges();
            lemma_since_concat(s0, s1, s2);
            lemma_then(since(s0, s1), since(s1, s2), allocate_step(table@), after_reserve_allocate(table@, count as nat), a, id_result(r));
        }
        r
    }

    /// Sends the statements of one phase of a fill in batches of 500, then what is left;
    /// the first batch that fails ends the work.
    fn send_in_batches(&mut self, profile: &str, sizes: (usize, usize, usize, bool), starts: (i64, i64, i64), phase: LabPhase) -> (r: Result<(), AppError>)
        requires
            lab_fill_ok(sizes, starts),
        ensures
            old(self).continued(&*final(self)),
            batches_spec(lab_statements(lab_fill_view(profile@, sizes, starts), phase), old(self).sent_since(&*final(self)), unit_result(r)),
    {
        let ghost f = lab_fill_view(profile@, sizes, starts);
        let ghost stmts = lab_statements(f, phase);
        let ghost step = batch_step(stmts);
        let ghost s0 = self.exchanges();
        let ghost mut cuts: Seq<int> = seq![0int];
        let ghost mut outs: Seq<()> = Seq::empty();
        let total: usize = match phase {
            LabPhase::Projects => sizes.0,
            LabPhase::Tags => sizes.2,
            LabPhase::Tasks => sizes.1,
            LabPhase::Links => sizes.1,
        };
        let mut batch = String::new();
        let mut count: usize = 0;
        let mut n: usize = 0;
        proof {
            lemma_since_self(s0);
            lemma_prefix_start(step);
            assert(stmts.subrange(0, 0) =~= Seq::<Seq<char>>::empty());
        }
        while n < total
            invariant
                f == lab_fill_view(profile@, sizes, starts),
                lab_fill_ok(sizes, starts),
                stmts == lab_statements(f, phase),
                step == batch_step(stmts),
                total == stmts.len(),
                total <= 1000000,
                n <= total,
                count < 500,
                n == 500 * (cuts.len() - 1) + count,
                batch@ == flat(stmts.subrange(500 * (cuts.len() - 1), n as int)),
                s0 == old(self).exchanges(),
                self.is_transactional() == old(self).is_transactional(),
                self.is_in_transaction() == old(self).is_in_transaction(),
                self.plan_calls() == old(self).plan_calls(),
                self.run_calls() == old(self).run_calls(),
                extends(s0, self.exchanges()),
                prefix_shown(step, since(s0, self.exchanges()), cuts, outs),
            decreases total - n,
        {
            let statement = lab_statement(profile, sizes, starts, phase, n);
            proof {
                let a = 500 * (cuts.len() - 1);
                assert(stmts.subrange(a, n + 1).drop_last() =~= stmts.subrange(a, n as int));
                assert(stmts.subrange(a, n + 1).last() == stmts[n as int]);
            }
            push_str(&mut batch, statement.as_str());
            count = count + 1;
            n = n + 1;
            if count == 500 {
                let ghost sb = self.exchanges();
                let done = self.run(batch.as_str());
                let ghost sa = self.exchanges();
                proof {
                    lemma_since_concat(s0, sb, sa);
                    assert(step(cuts.len() - 1, since(sb, sa), unit_result(done)));
                }
                match done {
                    Ok(()) => {
                        proof {
                            lemma_prefix_next(step, since(s0, sb), cuts, outs, since(sb, sa), ());
                            cuts = cuts.push(since(s0, sa).len() as int);
                            outs = outs.push(());
                        }
                    },
                    Err(e) => {
                        proof {
                            lemma_batch_before_last((cuts.len() - 1) as nat, total as nat);
                            lemma_prefix_fail(batch_count(total as nat), step, since(s0, sb), cuts, outs, since(sb, sa), e@);
                        }
                        return Err(e);
                    },
                }
                batch = String::new();
                count = 0;
                proof {
                    assert(stmts.subrange(n as int, n as int) =~= Seq::<Seq<char>>::empty());
                }
            }
        }
        let ghost b = (cuts.len() - 1) as nat;
        proof {
            lemma_batch_count(b, count as nat);
        }
        if count > 0 {
            let ghost sb = self.exchanges();
            let done = self.run(batch.as_str());
            let ghost sa = self.exchanges();
            proof {
                lemma_since_concat(s0, sb, sa);
                assert(step(cuts.len() - 1, since(sb, sa), unit_result(done)));
            }
            match done {
                Ok(()) => {
                    proof {
                        lemma_prefix_next(step, since(s0, sb), cuts, outs, since(sb, sa), ());
                        lemma_prefix_done(batch_count(total as nat), step, since(s0, sa), cuts.push(since(s0, sa).len() as int), outs.push(()));
                        assert(outs.push(()) =~= units(batch_count(total as nat)));
                    }
                    Ok(())
                },
                Err(e) => {
                    proof {
                        lemma_prefix_fail(batch_count(total as nat), step, since(s0, sb), cuts, outs, since(sb, sa), e@);
                    }
                    Err(e)
                },
            }
        } else {
            proof {
                lemma_prefix_done(batch_count(total as nat), step, since(s0, self.exchanges()), cuts, outs);
                assert(outs =~= units(batch_count(total as nat)));
            }
            Ok(())
        }
    }

    /// Records that the fill of the profile is complete.
    fn lab_finish(&mut self, profile: &str, sizes: (usize, usize, usize, bool), starts: (i64, i64, i64)) -> (r: Result<(), AppError>)
        ensures
            old(self).continued(&*final(self)),
            (lab_after_links(lab_fill_view(profile@, sizes, starts)))((), old(self).sent_since(&*final(self)), unit_result(r)),
    {
        let ghost s0 = self.exchanges();
        let key = concat2("query_lab_seed_", profile);
        let done = self.set_metadata(key.as_str(), "1");
        let ghost step = run_step(set_metadata_sql(key@, "1"@));
        proof {
            lemma_staged(profile@, "write completion metadata"@, step, since(s0, self.exchanges()), unit_result(done));
        }
        match done {
            Ok(()) => Ok(()),
            Err(e) => Err(seed_profile_error(profile, "write completion metadata", e)),
        }
    }

    /// Links the tasks of a fill to their tags, then records the fill as complete.
    fn lab_links(&mut self, profile: &str, sizes: (usize, usize, usize, bool), starts: (i64, i64, i64)) -> (r: Result<(), AppError>)
        requires
            lab_fill_ok(sizes, starts),
        ensures
            old(self).continued(&*final(self)),
            (lab_after_tasks(lab_fill_view(profile@, sizes, starts)))((), old(self).sent_since(&*final(self)), unit_result(r)),
    {
        let ghost f = lab_fill_view(profile@, sizes, starts);
        let ghost first = staged(profile@, "insert task-tag links"@, batches_step(lab_statements(f, LabPhase::Links)));
        let ghost s0 = self.exchanges();
        let sent = self.send_in_batches(profile, sizes, starts, LabPhase::Links);
        let ghost s1 = self.exchanges();
        if let Err(e) = sent {
            let r = seed_profile_error(profile, "insert task-tag links", e);
            proof {
                lemma_staged(profile@, "insert task-tag links"@, batches_step(lab_statements(f, LabPhase::Links)), since(s0, s1), Err(e@));
                lemma_then_fail(since(s0, s1), first, lab_after_links(f), r@);
            }
            return Err(r);
        }
        let r = self.lab_finish(profile, sizes, starts);
        proof {
            let s2 = self.exchanges();
            lemma_since_concat(s0, s1, s2);
            lemma_staged(profile@, "insert task-tag links"@, batches_step(lab_statements(f, LabPhase::Links)), since(s0, s1), Ok(()));
            lemma_then(since(s0, s1), since(s1, s2), first, lab_after_links(f), Ok(()), unit_result(r));
        }
        r
    }

    /// Inserts the tasks of a fill, then the rest.
    fn lab_tasks(&mut self, profile: &str, sizes: (usize, usize, usize, bool), starts: (i64, i64, i64)) -> (r: Result<(), AppError>)
        requires
            lab_fill_ok(sizes, starts),
        ensures
            old(self).continued(&*final(self)),
            (lab_after_tags(lab_fill_view(profile@, sizes, starts)))((), old(self).sent_since(&*final(self)), unit_result(r)),
    {
        let ghost f = lab_fill_view(profile@, sizes, starts);
        let ghost first = staged(profile@, "insert tasks"@, batches_step(lab_statements(f, LabPhase::Tasks)));
        let ghost s0 = self.exchanges();
        let sent = self.send_in_batches(profile, sizes, starts, LabPhase::Tasks);
        let ghost s1 = self.exchanges();
        if let Err(e) = sent {
            let r = seed_profile_error(profile, "insert tasks", e);
            proof {
                lemma_staged(profile@, "insert tasks"@, batches_step(lab_statements(f, LabPhase::Tasks)), since(s0, s1), Err(e@));
                lemma_then_fail(since(s0, s1), first, lab_after_tasks(f), r@);
            }
            return Err(r);
        }
        let r = self.lab_links(profile, sizes, starts);
        proof {
            let s2 = self.exchanges();
            lemma_since_concat(s0, s1, s2);
            lemma_staged(profile@, "insert tasks"@, batches_step(lab_statements(f, LabPhase::Tasks)), since(s0, s1), Ok(()));
            lemma_then(since(s0, s1), since(s1, s2), first, lab_after_tasks(f), Ok(()), unit_result(r));
        }
        r
    }

    /// Inserts the tags of a fill, then the rest.
    fn lab_tags(&mut self, profile: &str, sizes: (usize, usize, usize, bool), starts: (i64, i64, i64)) -> (r: Result<(), AppError>)
        requires
            lab_fill_ok(sizes, starts),
        ensures
            old(self).continued(&*final(self)),
            (lab_after_projects(lab_fill_view(profile@, sizes, starts)))((), old(self).sent_since(&*final(self)), unit_result(r)),
    {
        let ghost f = lab_fill_view(profile@, sizes, starts);
        let ghost first = staged(profile@, "insert tags"@, batches_step(lab_statements(f, LabPhase::Tags)));
        let ghost s0 = self.exchanges();
        let sent = self.send_in_batches(profile, sizes, starts, LabPhase::Tags);
        let ghost s1 = self.exchanges();
        if let Err(e) = sent {
            let r = seed_profile_error(profile, "insert tags", e);
            proof {
                lemma_staged(profile@, "insert tags"@, batches_step(lab_statements(f, LabPhase::Tags)), since(s0, s1), Err(e@));
                lemma_then_fail(since(s0, s1), first, lab_after_tags(f), r@);
            }
            return Err(r);
        }
        let r = self.lab_tasks(profile, sizes, starts);
        proof {
            let s2 = self.exchanges();
            lemma_since_concat(s0, s1, s2);
            lemma_staged(profile@, "insert tags"@, batches_step(lab_statements(f, LabPhase::Tags)), since(s0, s1), Ok(()));
            lemma_then(since(s0, s1), since(s1, s2), first, lab_after_tags(f), Ok(()), unit_result(r));
        }
        r
    }

    /// Inserts the projects of a fill, then the rest.
    fn lab_inserts(&mut self, profile: &str, sizes: (usize, usize, usize, bool), starts: (i64, i64, i64)) -> (r: Result<(), AppError>)
        requires
            lab_fill_ok(sizes, starts),
        ensures
            old(self).continued(&*final(self)),
            lab_inserts_spec(lab_fill_view(profile@, sizes, starts), old(self).sent_since(&*final(self)), unit_result(r)),
    {
        let ghost f = lab_fill_view(profile@, sizes, starts);
        let ghost first = staged(profile@, "insert projects"@, batches_step(lab_statements(f, LabPhase::Projects)));
        let ghost s0 = self.exchanges();
        let sent = self.send_in_batches(profile, sizes, starts, LabPhase::Projects);
        let ghost s1 = self.exchanges();
        if let Err(e) = sent {
            let r = seed_profile_error(profile, "insert projects", e);
            proof {
                lemma_staged(profile@, "insert projects"@, batches_step(lab_statements(f, LabPhase::Projects)), since(s0, s1), Err(e@));
                lemma_then_fail(since(s0, s1), first, lab_after_projects(f), r@);
            }
            return Err(r);
        }
        let r = self.lab_tags(profile, sizes, starts);
        proof {
            let s2 = self.exchanges();
            lemma_since_concat(s0, s1, s2);
            lemma_staged(profile@, "insert projects"@, batches_step(lab_statements(f, LabPhase::Projects)), since(s0, s1), Ok(()));
            lemma_then(since(s0, s1), since(s1, s2), first, lab_after_projects(f), Ok(()), unit_result(r));
        }
        r
    }

    /// Reserves the task ids of a fill, then inserts its data.
    fn lab_reserve_tasks(&mut self, profile: &str, sizes: (usize, usize, usize, bool), project_start: i64, tag_start: i64) -> (r: Result<(), AppError>)
        requires
            lab_sizes_ok(sizes),
            project_start + sizes.0 <= i64::MAX,
            tag_start + sizes.2 <= i64::MAX,
        ensures
            old(self).continued(&*final(self)),
            (after_tag_reserve(profile@, sizes, project_start))(tag_start, old(self).sent_since(&*final(self)), unit_result(r)),
    {
        let ghost step = reserve_step("tasks"@, sizes.1 as nat);
        let ghost first = staged(profile@, "reserve task IDs"@, step);
        let ghost rest = after_task_reserve(profile@, sizes, project_start, tag_start);
        let ghost s0 = self.exchanges();
        let reserved = self.reserve_ids("tasks", sizes.1);
        let ghost s1 = self.exchanges();
        let task_start = match reserved {
            Ok(s) => s,
            Err(e) => {
                let r = seed_profile_error(profile, "reserve task IDs", e);
                proof {
                    lemma_staged(profile@, "reserve task IDs"@, step, since(s0, s1), Err(e@));
                    lemma_then_fail(since(s0, s1), first, rest, r@);
                }
                return Err(r);
            },
        };
        let r = self.lab_inserts(profile, sizes, (project_start, tag_start, task_start));
        proof {
            let s2 = self.exchanges();
            lemma_since_concat(s0, s1, s2);
            lemma_staged(profile@, "reserve task IDs"@, step, since(s0, s1), Ok(task_start));
            lemma_then(since(s0, s1), since(s1, s2), first, rest, Ok(task_start), unit_result(r));
        }
        r
    }

    /// Reserves the tag ids of a fill, then the rest.
    fn lab_reserve_tags(&mut self, profile: &str, sizes: (usize, usize, usize, bool), project_start: i64) -> (r: Result<(), AppError>)
        requires
            lab_sizes_ok(sizes),
            project_start + sizes.0 <= i64::MAX,
        ensures
            old(self).continued(&*final(self)),
            (after_project_reserve(profile@, sizes))(project_start, old(self).sent_since(&*final(self)), unit_result(r)),
    {
        let ghost step = reserve_step("tags"@, sizes.2 as nat);
        let ghost first = staged(profile@, "reserve tag IDs"@, step);
        let ghost rest = after_tag_reserve(profile@, sizes, project_start);
        let ghost s0 = self.exchanges();
        let reserved = self.reserve_ids("tags", sizes.2);
        let ghost s1 = self.exchanges();
        let tag_start = match reserved {
            Ok(s) => s,
            Err(e) => {
                let r = seed_profile_error(profile, "reserve tag IDs", e);
                proof {
                    lemma_staged(profile@, "reserve tag IDs"@, step, since(s0, s1), Err(e@));
                    lemma_then_fail(since(s0, s1), first, rest, r@);
                }
                return Err(r);
            },
        };
        let r = self.lab_reserve_tasks(profile, sizes, project_start, tag_start);
        proof {
            let s2 = self.exchanges();
            lemma_since_concat(s0, s1, s2);
            lemma_staged(profile@, "reserve tag IDs"@, step, since(s0, s1), Ok(tag_start));
            lemma_then(since(s0, s1), since(s1, s2), first, rest, Ok(tag_start), unit_result(r));
        }
        r
    }

    /// Reserves ids, inserts the lab data, and records that the fill is complete; each
    /// failure names the stage it happened at.
    fn lab_body(&mut self, profile: &str, sizes: (usize, usize, usize, bool)) -> (r: Result<(), AppError>)
        requires
            lab_profile_spec(profile@) == Some(sizes),
        ensures
            old(self).continued(&*final(self)),
            lab_body_spec(profile@, old(self).sent_since(&*final(self)), unit_result(r)),
    {
        let ghost step = reserve_step("projects"@, sizes.0 as nat);
        let ghost first = staged(profile@, "reserve project IDs"@, step);
        let ghost rest = after_project_reserve(profile@, sizes);
        let ghost s0 = self.exchanges();
        let reserved = self.reserve_ids("projects", sizes.0);
        let ghost s1 = self.exchanges();
        let project_start = match reserved {
            Ok(s) => s,
            Err(e) => {
                let r = seed_profile_error(profile, "reserve project IDs", e);
                proof {
                    lemma_staged(profile@, "reserve project IDs"@, step, since(s0, s1), Err(e@));
                    lemma_then_fail(since(s0, s1), first, rest, r@);
                }
                return Err(r);
            },
        };
        let r = self.lab_reserve_tags(profile, sizes, project_start);
        proof {
            let s2 = self.exchanges();
            lemma_since_concat(s0, s1, s2);
            lemma_staged(profile@, "reserve project IDs"@, step, since(s0, s1), Ok(project_start));
            lemma_then(since(s0, s1), since(s1, s2), first, rest, Ok(project_start), unit_result(r));
        }
        r
    }

    /// Fills the database with the data of a lab profile once: `small` is the sample
    /// data of `seed`; `medium`, `large` and `skewed` have their own sizes (see
    /// `lab_profile_spec`); any other profile is refused.
    pub fn seed_lab_profile(&mut self, profile: &str) -> (r: Result<(), AppError>)
        ensures
            old(self).continued(&*final(self)),
            seed_lab_spec(wraps(old(self)), profile@, old(self).sent_since(&*final(self)), unit_result(r)),
    {
        let ghost s0 = self.exchanges();
        if str_eq(profile, "small") {
            return self.seed();
        }
        let sizes = match lab_profile(profile) {
            Some(s) => s,
            None => {
                proof {
                    lemma_since_self(s0);
                }
                return Err(AppError::Domain(concat2("Unknown lab seed profile: ", profile)));
            },
        };
        proof {
            reveal_strlit("medium");
            reveal_strlit("large");
            reveal_strlit("skewed");
        }
        let key = concat2("query_lab_seed_", profile);
        let marker = self.metadata_value(key.as_str());
        let ghost s1 = self.exchanges();
        let complete = match &marker {
            Ok(Some(v)) => str_eq(v.as_str(), "1"),
            Ok(None) => false,
            Err(_) => false,
        };
        match marker {
            Err(e) => return Err(e),
            Ok(_) => {},
        }
        if complete {
            return Ok(());
        }
        let ghost w = wraps(self);
        let ghost p = profile@;
        let started = match self.begin() {
            Ok(b) => b,
            Err(e) => {
                proof {
                    lemma_since_concat(s0, s1, self.exchanges());
                    assert(since(s0, self.exchanges()).skip(1) =~= since(s1, self.exchanges()));
                }
                return Err(e);
            },
        };
        let ghost s2 = self.exchanges();
        let body = self.lab_body(profile, sizes);
        let ghost s3 = self.exchanges();
        let ghost bv = unit_result(body);
        let r = self.finish(started, body);
        proof {
            let s4 = self.exchanges();
            lemma_since_concat(s1, s2, s3);
            lemma_since_concat(s1, s3, s4);
            lemma_since_concat(s0, s1, s4);
            lemma_tx(
                w,
                since(s1, s2),
                since(s2, s3),
                since(s3, s4),
                |y: Seq<Exchange>, b: Result<(), ErrorView>| lab_body_spec(p, y, b),
                bv,
                unit_result(r),
            );
            assert(since(s0, s4).skip(1) =~= since(s1, s4));
        }
        r
    }
}

impl<E: SqlEngine> TaskManagementRepository for GlueSqlTaskRepository<E> {
    open spec fn add_project_outcome(&self, after: &Self, name: Seq<char>, r: Result<Project, AppError>) -> bool {
        &&& self.continued(after)
        &&& match required_name_spec(name, "project"@) {
            Err(e) => self.sent_since(after) == Seq::<Exchange>::empty() && project_result(r) == Err::<ProjectView, ErrorView>(e),
            Ok(n) => in_transaction_spec(
                wraps(self),
                self.sent_since(after),
                |x: Seq<Exchange>, b: Result<ProjectView, ErrorView>| add_project_body(n, x, b),
                project_result(r),
            ),
        }
    }

    /// Adds a project named `name` without surrounding white space; a blank name is
    /// refused before anything is sent.
    fn add_project(&mut self, name: String) -> (r: Result<Project, AppError>) {
        let ghost s0 = self.exchanges();
        let name = match required_name(name, "project") {
            Ok(n) => n,
            Err(e) => {
                proof {
                    lemma_since_self(s0);
                }
                return Err(e);
            },
        };
        let ghost n = name@;
        let ghost w = wraps(self);
        let started = match self.begin() {
            Ok(b) => b,
            Err(e) => return Err(e),
        };
        let ghost s1 = self.exchanges();
        let body = self.add_project_body(name);
        let ghost s2 = self.exchanges();
        let ghost bv = project_result(body);
        let r = self.finish(started, body);
        proof {
            lemma_since_concat(s0, s1, s2);
            lemma_since_concat(s0, s2, self.exchanges());
            lemma_tx(
                w,
                since(s0, s1),
                since(s1, s2),
                since(s2, self.exchanges()),
                |x: Seq<Exchange>, b: Result<ProjectView, ErrorView>| add_project_body(n, x, b),
                bv,
                project_result(r),
            );
        }
        r
    }

    open spec fn list_projects_outcome(&self, after: &Self, r: Result<Vec<Project>, AppError>) -> bool {
        &&& self.continued(after)
        &&& sent(self.sent_since(after), "SELECT id, name FROM projects ORDER BY id;"@)
        &&& match r {
            Ok(v) => match rows_of(self.sent_since(after)[0].1) {
                Ok(rows) => projects_from_rows(rows) == Ok::<Seq<ProjectView>, ErrorView>(v@.map_values(|p: Project| p@)),
                Err(_) => false,
            },
            Err(e) => match rows_of(self.sent_since(after)[0].1) {
                Ok(rows) => projects_from_rows(rows) == Err::<Seq<ProjectView>, ErrorView>(e@),
                Err(e2) => e2 == e@,
            },
        }
    }

    /// All projects by id.
    fn list_projects(&mut self) -> (r: Result<Vec<Project>, AppError>) {
        match self.select_rows("SELECT id, name FROM projects ORDER BY id;") {
            Ok(rows) => rows_to_projects(&rows),
            Err(e) => Err(e),
        }
    }

    open spec fn show_project_outcome(&self, after: &Self, id: i64, r: Result<Project, AppError>) -> bool {
        &&& self.continued(after)
        &&& show_project_spec(self.sent_since(after), id, project_result(r))
    }

    /// One project; `Project not found` when there is none with the id.
    fn show_project(&mut self, id: i64) -> (r: Result<Project, AppError>) {
        let sql = with_id("SELECT id, name FROM projects WHERE id = ", id, ";");
        match self.select_rows(sql.as_str()) {
            Ok(rows) => if rows.len() == 0 {
                let d = crate::text::i64_to_decimal(id);
                Err(AppError::Domain(concat2("Project not found: ", d.as_str())))
            } else {
                row_to_project(&rows[0])
            },
            Err(e) => Err(e),
        }
    }

    open spec fn delete_project_outcome(&self, after: &Self, id: i64, r: Result<Project, AppError>) -> bool {
        &&& self.continued(after)
        &&& in_transaction_spec(
            wraps(self),
            self.sent_since(after),
            |x: Seq<Exchange>, b: Result<ProjectView, ErrorView>| delete_project_body(x, id, b),
            project_result(r),
        )
    }

    /// Deletes a project that has no tasks and gives it back; `project has tasks`
    /// otherwise.
    fn delete_project(&mut self, id: i64) -> (r: Result<Project, AppError>) {
        let ghost s0 = self.exchanges();
        let ghost w = wraps(self);
        let started = match self.begin() {
            Ok(b) => b,
            Err(e) => return Err(e),
        };
        let ghost s1 = self.exchanges();
        let body = self.delete_project_body(id);
        let ghost s2 = self.exchanges();
        let ghost bv = project_result(body);
        let r = self.finish(started, body);
        proof {
            lemma_since_concat(s0, s1, s2);
            lemma_since_concat(s0, s2, self.exchanges());
            lemma_tx(
                w,
                since(s0, s1),
                since(s1, s2),
                since(s2, self.exchanges()),
                |x: Seq<Exchange>, b: Result<ProjectView, ErrorView>| delete_project_body(x, id, b),
                bv,
                project_result(r),
            );
        }
        r
    }

    open spec fn project_stats_outcome(&self, after: &Self, id: i64, r: Result<ProjectStats, AppError>) -> bool {
        &&& self.continued(after)
        &&& project_stats_spec(self.sent_since(after), id, project_stats_result(r))
        &&& r matches Ok(s) ==> s.todo == s.total - s.done
    }

    /// Task counts of one project.
    fn project_stats(&mut self, id: i64) -> (r: Result<ProjectStats, AppError>) {
        let ghost s0 = self.exchanges();
        let project = match self.show_project(id) {
            Ok(p) => p,
            Err(e) => return Err(e),
        };
        let ghost s1 = self.exchanges();
        let sql = with_id("SELECT COUNT(*) FROM tasks WHERE project_id = ", id, ";");
        let total = self.select_count(sql.as_str());
        let ghost s2 = self.exchanges();
        proof {
            lemma_since_concat(s0, s1, s2);
        }
        let total = match total {
            Ok(n) => n,
            Err(e) => return Err(e),
        };
        let sql = with_id("SELECT COUNT(*) FROM tasks WHERE project_id = ", id, " AND done = TRUE;");
        let done = self.select_count(sql.as_str());
        proof {
            lemma_since_concat(s0, s2, self.exchanges());
        }
        match done {
            Ok(d) => if d <= total {
                Ok(ProjectStats::new(project, total, d))
            } else {
                Err(AppError::GlueSql(to_owned_string("finished task count exceeds total")))
            },
            Err(e) => Err(e),
        }
    }

    open spec fn all_project_stats_outcome(&self, after: &Self, r: Result<Vec<ProjectStats>, AppError>) -> bool {
        &&& self.continued(after)
        &&& sent(self.sent_since(after), all_project_stats_sql())
        &&& match r {
            Ok(v) => match rows_of(self.sent_since(after)[0].1) {
                Ok(rows) => project_stats_from_rows(rows) == Ok::<Seq<(ProjectView, usize, usize)>, ErrorView>(v@.map_values(|s: ProjectStats| stats_view(s))),
                Err(_) => false,
            },
            Err(e) => match rows_of(self.sent_since(after)[0].1) {
                Ok(rows) => project_stats_from_rows(rows) == Err::<Seq<(ProjectView, usize, usize)>, ErrorView>(e@),
                Err(e2) => e2 == e@,
            },
        }
        &&& r matches Ok(v) ==> forall|k: int| 0 <= k < v@.len() ==> #[trigger] v@[k].todo == v@[k].total - v@[k].done
    }

    /// Task counts of every project, by project id, projects without tasks included.
    fn all_project_stats(&mut self) -> (r: Result<Vec<ProjectStats>, AppError>) {
        match self.select_rows("SELECT p.id, p.name, COUNT(t.id), COUNT(CASE WHEN t.done = TRUE THEN 1 END) FROM projects p LEFT JOIN tasks t ON t.project_id = p.id GROUP BY p.id, p.name ORDER BY p.id;") {
            Ok(rows) => rows_to_project_stats(&rows),
            Err(e) => Err(e),
        }
    }

    open spec fn add_task_outcome(&self, after: &Self, project_id: Option<i64>, priority: i64, title: Seq<char>, r: Result<Task, AppError>) -> bool {
        &&& self.continued(after)
        &&& add_task_spec(self, project_id, priority, title, Seq::empty(), self.sent_since(after), task_result(r))
    }

    /// Adds an open task with a title, in a project (or none) and with a priority; it
    /// is `add_task_with_tags` without tags.
    fn add_task(&mut self, project_id: Option<i64>, priority: i64, title: String) -> (r: Result<Task, AppError>) {
        let tags: Vec<String> = Vec::new();
        proof {
            assert(strings_view(tags@) =~= Seq::<Seq<char>>::empty());
        }
        self.add_task_with_tags(project_id, priority, title, tags)
    }

    open spec fn add_task_with_tags_outcome(&self, after: &Self, project_id: Option<i64>, priority: i64, title: Seq<char>, tags: Seq<Seq<char>>, r: Result<Task, AppError>) -> bool {
        &&& self.continued(after)
        &&& add_task_spec(self, project_id, priority, title, tags, self.sent_since(after), task_result(r))
    }

    /// Adds an open task with tags. Refused before anything is sent: a blank title
    /// (`task title must not be empty`), a priority outside 1 to 5, two tag names that
    /// are the same once trimmed and lower-cased (`duplicate tag option`). Then, in a
    /// transaction when the repository wraps work into one: a missing project (`Project
    /// not found`) or tag (`Tag not found`) is refused, an id is allocated, and the task
    /// is inserted and linked to its tags. The task has the trimmed title.
    fn add_task_with_tags(
        &mut self,
        project_id: Option<i64>,
        priority: i64,
        title: String,
        tags: Vec<String>,
    ) -> (r: Result<Task, AppError>) {
        let ghost s0 = self.exchanges();
        let ghost names = strings_view(tags@);
        let title = match required_name(title, "task title") {
            Ok(t) => t,
            Err(e) => {
                proof {
                    lemma_since_self(s0);
                }
                return Err(e);
            },
        };
        if !(1 <= priority && priority <= 5) {
            proof {
                lemma_since_self(s0);
            }
            return Err(AppError::Domain(to_owned_string("priority must be between 1 and 5")));
        }
        if has_duplicate_tags(&tags) {
            proof {
                lemma_since_self(s0);
            }
            return Err(AppError::Domain(to_owned_string("duplicate tag option")));
        }
        let ghost t = title@;
        let ghost w = wraps(self);
        let started = match self.begin() {
            Ok(b) => b,
            Err(e) => return Err(e),
        };
        let ghost s1 = self.exchanges();
        let body = self.add_task_body(project_id, priority, title, &tags);
        let ghost s2 = self.exchanges();
        let ghost bv = task_result(body);
        let r = self.finish(started, body);
        proof {
            lemma_since_concat(s0, s1, s2);
            lemma_since_concat(s0, s2, self.exchanges());
            lemma_tx(
                w,
                since(s0, s1),
                since(s1, s2),
                since(s2, self.exchanges()),
                |y: Seq<Exchange>, b: Result<TaskView, ErrorView>| add_task_body(project_id, priority, t, names, y, b),
                bv,
                task_result(r),
            );
        }
        r
    }

    open spec fn list_tasks_outcome(&self, after: &Self, project_id: Option<i64>, tag: Option<Seq<char>>, r: Result<Vec<Task>, AppError>) -> bool {
        &&& self.continued(after)
        &&& sent(self.sent_since(after), list_tasks_sql(project_id, tag))
        &&& tasks_result(r) == tasks_of(self.sent_since(after)[0].1)
    }

    /// The tasks of a tag (by name, ignoring case) when a tag is given, else those of a
    /// project when one is given, both by priority (highest first) then id; else all
    /// tasks by id.
    fn list_tasks(&mut self, project_id: Option<i64>, tag: Option<&str>) -> (r: Result<Vec<Task>, AppError>) {
        let sql = match tag {
            Some(t) => {
                let mut sql = to_owned_string("SELECT t.id, t.project_id, t.title, t.done, t.priority FROM tasks t JOIN task_tags tt ON tt.task_id = t.id JOIN tags tag ON tag.id = tt.tag_id WHERE tag.name ILIKE ");
                push_literal(&mut sql, t);
                push_str(&mut sql, " ORDER BY t.priority DESC, t.id ASC;");
                sql
            },
            None => match project_id {
                Some(id) => with_id(
                    "SELECT id, project_id, title, done, priority FROM tasks WHERE project_id = ",
                    id,
                    " ORDER BY priority DESC, id ASC;",
                ),
                None => to_owned_string("SELECT id, project_id, title, done, priority FROM tasks ORDER BY id ASC;"),
            },
        };
        self.select_tasks(sql.as_str())
    }

    open spec fn show_task_outcome(&self, after: &Self, id: i64, r: Result<TaskDetail, AppError>) -> bool {
        &&& self.continued(after)
        &&& then_spec(self.sent_since(after), lookup_step(id), detail_rest(id), detail_result(r))
    }

    /// A task with the name of its project (when it has one) and its tags;
    /// `NotFound` when there is no task with the id.
    fn show_task(&mut self, id: i64) -> (r: Result<TaskDetail, AppError>) {
        let ghost s0 = self.exchanges();
        let task = self.find_one(id);
        let ghost s1 = self.exchanges();
        let task = match task {
            Ok(t) => t,
            Err(e) => {
                proof {
                    lemma_then_fail(since(s0, s1), lookup_step(id), detail_rest(id), e@);
                }
                return Err(e);
            },
        };
        let ghost tv = task@;
        let project_name: Result<Option<String>, AppError> = match task.project_id {
            Some(project_id) => match self.show_project(project_id) {
                Ok(p) => Ok(Some(p.name)),
                Err(e) => Err(e),
            },
            None => {
                proof {
                    lemma_since_self(s1);
                }
                Ok(None)
            },
        };
        let ghost s2 = self.exchanges();
        let ghost pn = name_result(project_name);
        assert((project_name_step(tv.project_id))(since(s1, s2), pn));
        let project_name = match project_name {
            Ok(n) => n,
            Err(e) => {
                proof {
                    lemma_then_fail(since(s1, s2), project_name_step(tv.project_id), detail_tags_step(id, tv), e@);
                    lemma_since_concat(s0, s1, s2);
                    lemma_then(since(s0, s1), since(s1, s2), lookup_step(id), detail_rest(id), Ok(tv), Err(e@));
                }
                return Err(e);
            },
        };
        let tags = self.task_tags(id);
        let ghost s3 = self.exchanges();
        let r = match tags {
            Ok(tags) => Ok(TaskDetail { task, project_name, tags }),
            Err(e) => Err(e),
        };
        proof {
            let ts = tags_result(tags);
            assert(task_tags_spec(since(s2, s3), id, ts));
            lemma_then(since(s1, s2), since(s2, s3), project_name_step(tv.project_id), detail_tags_step(id, tv), pn, detail_result(r));
            lemma_since_concat(s1, s2, s3);
            lemma_since_concat(s0, s1, s3);
            lemma_then(since(s0, s1), since(s1, s3), lookup_step(id), detail_rest(id), Ok(tv), detail_result(r));
        }
        r
    }

    open spec fn add_tag_outcome(&self, after: &Self, name: Seq<char>, r: Result<Tag, AppError>) -> bool {
        &&& self.continued(after)
        &&& match required_name_spec(name, "tag"@) {
            Err(e) => self.sent_since(after) == Seq::<Exchange>::empty() && tag_result(r) == Err::<TagView, ErrorView>(e),
            Ok(n) => in_transaction_spec(
                wraps(self),
                self.sent_since(after),
                |x: Seq<Exchange>, b: Result<TagView, ErrorView>| add_tag_body(n, x, b),
                tag_result(r),
            ),
        }
    }

    /// Adds a tag named `name` without surrounding white space. A blank name is refused
    /// before anything is sent; then, in a transaction when the repository wraps work
    /// into one, a name already taken (ignoring case) is refused (`tag name already
    /// exists`).
    fn add_tag(&mut self, name: String) -> (r: Result<Tag, AppError>) {
        let ghost s0 = self.exchanges();
        let name = match required_name(name, "tag") {
            Ok(n) => n,
            Err(e) => {
                proof {
                    lemma_since_self(s0);
                }
                return Err(e);
            },
        };
        let ghost n = name@;
        let ghost w = wraps(self);
        let started = match self.begin() {
            Ok(b) => b,
            Err(e) => return Err(e),
        };
        let ghost s1 = self.exchanges();
        let body = self.add_tag_body(name);
        let ghost s2 = self.exchanges();
        let ghost bv = tag_result(body);
        let r = self.finish(started, body);
        proof {
            lemma_since_concat(s0, s1, s2);
            lemma_since_concat(s0, s2, self.exchanges());
            lemma_tx(
                w,
                since(s0, s1),
                since(s1, s2),
                since(s2, self.exchanges()),
                |x: Seq<Exchange>, b: Result<TagView, ErrorView>| add_tag_body(n, x, b),
                bv,
                tag_result(r),
            );
        }
        r
    }

    open spec fn list_tags_outcome(&self, after: &Self, r: Result<Vec<Tag>, AppError>) -> bool {
        &&& self.continued(after)
        &&& sent(self.sent_since(after), "SELECT id, name FROM tags ORDER BY id;"@)
        &&& tags_result(r) == tags_of(self.sent_since(after)[0].1)
    }

    /// All tags by id.
    fn list_tags(&mut self) -> (r: Result<Vec<Tag>, AppError>) {
        match self.select_rows("SELECT id, name FROM tags ORDER BY id;") {
            Ok(rows) => rows_to_tags(&rows),
            Err(e) => Err(e),
        }
    }

    open spec fn delete_tag_outcome(&self, after: &Self, id: i64, r: Result<Tag, AppError>) -> bool {
        &&& self.continued(after)
        &&& in_transaction_spec(
            wraps(self),
            self.sent_since(after),
            |x: Seq<Exchange>, b: Result<TagView, ErrorView>| delete_tag_body(x, id, b),
            tag_result(r),
        )
    }

    /// Deletes a tag with its links to tasks and gives it back; `Tag not found` when
    /// there is no tag with the id.
    fn delete_tag(&mut self, id: i64) -> (r: Result<Tag, AppError>) {
        let ghost s0 = self.exchanges();
        let ghost w = wraps(self);
        let started = match self.begin() {
            Ok(b) => b,
            Err(e) => return Err(e),
        };
        let ghost s1 = self.exchanges();
        let body = self.delete_tag_body(id);
        let ghost s2 = self.exchanges();
        let ghost bv = tag_result(body);
        let r = self.finish(started, body);
        proof {
            lemma_since_concat(s0, s1, s2);
            lemma_since_concat(s0, s2, self.exchanges());
            lemma_tx(
                w,
                since(s0, s1),
                since(s1, s2),
                since(s2, self.exchanges()),
                |x: Seq<Exchange>, b: Result<TagView, ErrorView>| delete_tag_body(x, id, b),
                bv,
                tag_result(r),
            );
        }
        r
    }

    open spec fn tag_task_outcome(&self, after: &Self, task_id: i64, tag_name: Seq<char>, r: Result<(), AppError>) -> bool {
        &&& self.continued(after)
        &&& in_transaction_spec(
            wraps(self),
            self.sent_since(after),
            |x: Seq<Exchange>, b: Result<(), ErrorView>| tag_task_body(x, task_id, tag_name, b),
            unit_result(r),
        )
    }

    /// Attaches a tag (by name, ignoring case) to a task: `NotFound` for a missing task,
    /// `Tag not found` for a missing tag, `task already has tag` when linked already.
    fn tag_task(&mut self, task_id: i64, tag_name: &str) -> (r: Result<(), AppError>) {
        let ghost s0 = self.exchanges();
        let ghost w = wraps(self);
        let started = match self.begin() {
            Ok(b) => b,
            Err(e) => return Err(e),
        };
        let ghost s1 = self.exchanges();
        let body = self.tag_task_body(task_id, tag_name);
        let ghost s2 = self.exchanges();
        let ghost bv = unit_result(body);
        let r = self.finish(started, body);
        proof {
            lemma_since_concat(s0, s1, s2);
            lemma_since_concat(s0, s2, self.exchanges());
            lemma_tx(
                w,
                since(s0, s1),
                since(s1, s2),
                since(s2, self.exchanges()),
                |x: Seq<Exchange>, b: Result<(), ErrorView>| tag_task_body(x, task_id, tag_name@, b),
                bv,
                unit_result(r),
            );
        }
        r
    }

    open spec fn untag_task_outcome(&self, after: &Self, task_id: i64, tag_name: Seq<char>, r: Result<(), AppError>) -> bool {
        &&& self.continued(after)
        &&& untag_task_spec(self.sent_since(after), task_id, tag_name, unit_result(r))
    }

    /// Removes a tag (by name, ignoring case) from a task: `NotFound` for a missing
    /// task, `Tag not found` for a missing tag.
    fn untag_task(&mut self, task_id: i64, tag_name: &str) -> (r: Result<(), AppError>) {
        let ghost s0 = self.exchanges();
        match self.find_one(task_id) {
            Ok(_) => {},
            Err(e) => return Err(e),
        }
        let ghost s1 = self.exchanges();
        let tag = self.named_tag(tag_name);
        let ghost s2 = self.exchanges();
        proof {
            lemma_since_concat(s0, s1, s2);
        }
        let tag = match tag {
            Ok(t) => t,
            Err(e) => return Err(e),
        };
        let mut sql = with_id("DELETE FROM task_tags WHERE task_id = ", task_id, " AND tag_id = ");
        push_id(&mut sql, tag.id);
        push_str(&mut sql, ";");
        let r = self.run(sql.as_str());
        proof {
            lemma_since_concat(s0, s2, self.exchanges());
        }
        r
    }

    open spec fn task_tags_outcome(&self, after: &Self, task_id: i64, r: Result<Vec<Tag>, AppError>) -> bool {
        &&& self.continued(after)
        &&& task_tags_spec(self.sent_since(after), task_id, tags_result(r))
    }

    /// The tags of a task, by id; `NotFound` when there is no task with the id.
    fn task_tags(&mut self, task_id: i64) -> (r: Result<Vec<Tag>, AppError>) {
        let ghost s0 = self.exchanges();
        match self.find_one(task_id) {
            Ok(_) => {},
            Err(e) => return Err(e),
        }
        let ghost s1 = self.exchanges();
        let sql = with_id(
            "SELECT tag.id, tag.name FROM tags tag JOIN task_tags tt ON tt.tag_id = tag.id WHERE tt.task_id = ",
            task_id,
            " ORDER BY tag.id;",
        );
        let rows = self.select_rows(sql.as_str());
        proof {
            lemma_since_concat(s0, s1, self.exchanges());
        }
        match rows {
            Ok(rows) => rows_to_tags(&rows),
            Err(e) => Err(e),
        }
    }

    open spec fn seed_outcome(&self, after: &Self, r: Result<(), AppError>) -> bool {
        &&& self.continued(after)
        &&& seed_spec(wraps(self), self.sent_since(after), unit_result(r))
    }

    /// Fills the database with sample data once: 10 projects `Query Lab 01`..`10`, 20
    /// tags `tag-01`..`20` and 1000 tasks `Seed task 0001`..`1000`, then records that the
    /// fill is complete (`seed_version` = `1`). A complete fill is not repeated; the
    /// leftovers of an unfinished one are removed first.
    fn seed(&mut self) -> (r: Result<(), AppError>) {
        let ghost s0 = self.exchanges();
        let marker = self.metadata_value("seed_version");
        let ghost s1 = self.exchanges();
        let complete = match &marker {
            Ok(Some(v)) => str_eq(v.as_str(), "1"),
            Ok(None) => false,
            Err(_) => false,
        };
        proof {
            reveal_strlit("1");
        }
        match marker {
            Err(e) => return Err(e),
            Ok(_) => {},
        }
        if complete {
            return Ok(());
        }
        let ghost w = wraps(self);
        let started = match self.begin() {
            Ok(b) => b,
            Err(e) => {
                proof {
                    lemma_since_concat(s0, s1, self.exchanges());
                    assert(since(s0, self.exchanges()).skip(1) =~= since(s1, self.exchanges()));
                }
                return Err(e);
            },
        };
        let ghost s2 = self.exchanges();
        let body = self.seed_body();
        let ghost s3 = self.exchanges();
        let ghost bv = unit_result(body);
        let r = self.finish(started, body);
        proof {
            let s4 = self.exchanges();
            lemma_since_concat(s1, s2, s3);
            lemma_since_concat(s1, s3, s4);
            lemma_since_concat(s0, s1, s4);
            lemma_tx(
                w,
                since(s1, s2),
                since(s2, s3),
                since(s3, s4),
                |y: Seq<Exchange>, b: Result<(), ErrorView>| seed_body_spec(y, b),
                bv,
                unit_result(r),
            );
            assert(since(s0, s4).skip(1) =~= since(s1, s4));
        }
        r
    }
}

} // verus!
