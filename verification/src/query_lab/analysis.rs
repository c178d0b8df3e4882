//! Analysis of a SQL text: its query plans, the access paths they use, and, when the
//! statements are run, what they returned and the storage calls they made.
use vstd::prelude::*;
use crate::command::strings_view;
use crate::error::AppError;
use crate::query_lab::ast::{statement_shape, statement_within, SUBQUERY_DEPTH};
use crate::query_lab::plan::{access_paths, node_view, nodes_view, paths_of_all, statement_spec, statement_to_node, PlanNode, StatementShape};
use crate::query_lab::report::AnalysisReport;
use crate::query_lab::runtime::MetricSource;
use crate::repository::gluesql_repository::{GlueSqlTaskRepository, PlanCall, RunCall, SqlEngine};
use crate::repository::sql::Reply;
use crate::text::to_owned_string;

verus! {

#[verifier::external_type_specification]
#[verifier::external_body]
pub struct ExInstant(std::time::Instant);

/// The current instant (`Instant::now`). Nothing is stated: it is the machine's clock.
#[verifier::external_body]
fn now() -> std::time::Instant {
    std::time::Instant::now()
}

/// The microseconds since `start` (`Instant::elapsed`, then `Duration::as_micros`).
/// Nothing is stated: it is the machine's clock.
#[verifier::external_body]
fn micros_since(start: &std::time::Instant) -> u128 {
    start.elapsed().as_micros()
}

/// The pretty `Debug` text of the planned statements (`format!("{:#?}")`). Nothing is
/// stated: the statements are opaque here.
#[verifier::external_body]
fn debug_statements(statements: &Vec<gluesql::core::ast::Statement>) -> String {
    format!("{statements:#?}")
}

/// The rows returned by the queries among the outcomes.
pub open spec fn rows_returned(rs: Seq<Reply>) -> nat
    decreases rs.len(),
{
    if rs.len() == 0 {
        0
    } else {
        rows_returned(rs.drop_last()) + match rs.last() {
            Reply::Select { rows, .. } => rows@.len(),
            _ => 0,
        }
    }
}

/// The rows inserted, updated or deleted by the changes among the outcomes.
pub open spec fn rows_changed(rs: Seq<Reply>) -> nat
    decreases rs.len(),
{
    if rs.len() == 0 {
        0
    } else {
        rows_changed(rs.drop_last()) + match rs.last() {
            Reply::Insert(n) => n as nat,
            Reply::Update(n) => n as nat,
            Reply::Delete(n) => n as nat,
            _ => 0,
        }
    }
}

/// A count, or the largest `usize` when it does not fit.
pub open spec fn capped(n: nat) -> usize {
    if n > usize::MAX {
        usize::MAX
    } else {
        n as usize
    }
}

/// The rows returned by queries and the rows changed, over the outcomes of the
/// statements run; a count that would not fit stays at the largest `usize`.
pub fn tally(replies: &Vec<Reply>) -> (r: (usize, usize))
    ensures
        r.0 == capped(rows_returned(replies@)),
        r.1 == capped(rows_changed(replies@)),
{
    let mut returned: usize = 0;
    let mut changed: usize = 0;
    let mut i: usize = 0;
    while i < replies.len()
        invariant
            i <= replies@.len(),
            returned == capped(rows_returned(replies@.take(i as int))),
            changed == capped(rows_changed(replies@.take(i as int))),
        decreases replies@.len() - i,
    {
        proof {
            assert(replies@.take(i + 1).drop_last() =~= replies@.take(i as int));
        }
        match &replies[i] {
            Reply::Select { rows, .. } => {
                returned = returned.saturating_add(rows.len());
            },
            Reply::Insert(n) => {
                changed = changed.saturating_add(*n);
            },
            Reply::Update(n) => {
                changed = changed.saturating_add(*n);
            },
            Reply::Delete(n) => {
                changed = changed.saturating_add(*n);
            },
            _ => {},
        }
        i = i + 1;
    }
    proof {
        assert(replies@.take(i as int) =~= replies@);
    }
    (returned, changed)
}

/// The note every report carries on what GlueSQL does not expose.
pub open spec fn limitations_spec() -> Seq<Seq<char>> {
    seq!["Public GlueSQL APIs do not expose per-operator input/output row counts."@]
}

/// Whether a node is the plan tree of the shape of a planned statement, read with
/// derived subqueries nested at most `SUBQUERY_DEPTH` deep.
pub open spec fn planned_node(n: PlanNode) -> bool {
    exists|st: StatementShape|
        statement_within(st, SUBQUERY_DEPTH as nat) && #[trigger] statement_spec(st) == node_view(n)
}

/// The replies of statements that ran.
pub open spec fn run_replies(runs: Seq<RunCall>) -> Seq<Reply> {
    Seq::new(
        runs.len(),
        |i: int|
            match runs[i].1 {
                Ok(p) => p,
                Err(_) => Reply::Create,
            },
    )
}

/// What the report of `analyze` holds for the SQL text `sql`, `n` planned statements, and
/// the replies of the statements that ran: the text; one plan tree per planned statement;
/// the access paths of those trees; the rows the queries returned and the rows the
/// changes affected, over those replies; the note on what GlueSQL does not expose.
pub open spec fn report_spec(report: AnalysisReport, sql: Seq<char>, n: nat, replies: Seq<Reply>) -> bool {
    &&& report.sql@ == sql
    &&& report.plans@.len() == n
    &&& forall|i: int| 0 <= i < n ==> planned_node(#[trigger] report.plans@[i])
    &&& strings_view(report.access_paths@) == paths_of_all(nodes_view(report.plans@))
    &&& report.result_rows == capped(rows_returned(replies))
    &&& report.affected_rows == capped(rows_changed(replies))
    &&& strings_view(report.limitations@) == limitations_spec()
}

/// `analyze`: `sql` is given to the engine to plan, once; a failure of the planning is the
/// result. Without `execute_runtime` no planned statement is run, and the report counts
/// nothing and takes no time. With it, the planned statements are run once each, in
/// order, up to the first that fails, whose failure is the result; when all ran, the
/// report counts over their replies.
pub open spec fn analysis_spec(
    sql: Seq<char>,
    execute_runtime: bool,
    plans: Seq<PlanCall>,
    runs: Seq<RunCall>,
    r: Result<AnalysisReport, AppError>,
) -> bool {
    &&& plans.len() == 1
    &&& plans[0].0 == sql
    &&& match plans[0].1 {
        Err(e) => runs.len() == 0 && r == Err::<AnalysisReport, AppError>(e),
        Ok(stmts) => if !execute_runtime {
            &&& runs.len() == 0
            &&& r matches Ok(report)
            &&& report_spec(report, sql, stmts@.len(), Seq::empty())
            &&& report.elapsed_micros == 0
        } else {
            &&& runs.len() <= stmts@.len()
            &&& forall|i: int| 0 <= i < runs.len() ==> (#[trigger] runs[i]).0 == stmts@[i]
            &&& forall|i: int| 0 <= i < runs.len() - 1 ==> (#[trigger] runs[i]).1 is Ok
            &&& if runs.len() == stmts@.len() && (runs.len() == 0 || runs.last().1 is Ok) {
                r matches Ok(report) && report_spec(report, sql, stmts@.len(), run_replies(runs))
            } else {
                &&& runs.len() >= 1
                &&& match runs.last().1 {
                    Err(e) => r == Err::<AnalysisReport, AppError>(e),
                    Ok(_) => false,
                }
            }
        },
    }
}

/// Plans the SQL, reads each planned statement into its plan tree and lists the access
/// paths; when `execute_runtime` holds, also runs each planned statement in turn (the
/// first failure is the result) and counts what they returned and changed, with the
/// engine's storage counters set to zero before and read after, and the time taken.
/// Without running, the counts and the time are zero. See `analysis_spec`.
pub fn analyze<E: SqlEngine + MetricSource>(
    repository: &mut GlueSqlTaskRepository<E>,
    sql: &str,
    execute_runtime: bool,
) -> (r: Result<AnalysisReport, AppError>)
    ensures
        final(repository).exchanges() == old(repository).exchanges(),
        final(repository).is_transactional() == old(repository).is_transactional(),
        final(repository).is_in_transaction() == old(repository).is_in_transaction(),
        final(repository).plan_calls().len() >= old(repository).plan_calls().len(),
        final(repository).run_calls().len() >= old(repository).run_calls().len(),
        final(repository).plan_calls().take(old(repository).plan_calls().len() as int) == old(repository).plan_calls(),
        final(repository).run_calls().take(old(repository).run_calls().len() as int) == old(repository).run_calls(),
        analysis_spec(
            sql@,
            execute_runtime,
            final(repository).plan_calls().skip(old(repository).plan_calls().len() as int),
            final(repository).run_calls().skip(old(repository).run_calls().len() as int),
            r,
        ),
{
    let ghost p0 = repository.plan_calls();
    let ghost q0 = repository.run_calls();
    let planned = repository.plan_sql(sql);
    let ghost pr = planned;
    proof {
        assert(repository.plan_calls().take(p0.len() as int) =~= p0);
        assert(repository.plan_calls().skip(p0.len() as int) =~= seq![(sql@, pr)]);
        assert(repository.run_calls().take(q0.len() as int) =~= q0);
        assert(repository.run_calls().skip(q0.len() as int) =~= Seq::<RunCall>::empty());
    }
    let statements = match planned {
        Ok(v) => v,
        Err(e) => return Err(e),
    };
    let raw_plan = debug_statements(&statements);
    let mut plans: Vec<PlanNode> = Vec::new();
    let mut i: usize = 0;
    while i < statements.len()
        invariant
            i <= statements@.len(),
            plans@.len() == i,
            forall|k: int| 0 <= k < i ==> planned_node(#[trigger] plans@[k]),
        decreases statements.len() - i,
    {
        let shape = statement_shape(&statements[i]);
        let node = statement_to_node(&shape);
        proof {
            assert(statement_spec(shape) == node_view(node));
        }
        plans.push(node);
        i = i + 1;
    }
    let paths = access_paths(plans.as_slice());
    repository.engine().reset_metrics();
    let started = now();
    let mut replies: Vec<Reply> = Vec::new();
    let ghost mut runs: Seq<RunCall> = Seq::empty();
    if execute_runtime {
        let mut k: usize = 0;
        while k < statements.len()
            invariant
                k <= statements@.len(),
                execute_runtime,
                p0 == old(repository).plan_calls(),
                q0 == old(repository).run_calls(),
                pr == Ok::<Vec<gluesql::core::ast::Statement>, AppError>(statements),
                repository.exchanges() == old(repository).exchanges(),
                repository.is_transactional() == old(repository).is_transactional(),
                repository.is_in_transaction() == old(repository).is_in_transaction(),
                repository.plan_calls() == p0.push((sql@, pr)),
                repository.run_calls() == q0 + runs,
                runs.len() == k,
                replies@.len() == k,
                forall|j: int| 0 <= j < k ==> #[trigger] runs[j] == (statements@[j], Ok::<Reply, AppError>(replies@[j])),
            decreases statements@.len() - k,
        {
            let done = repository.execute_statement(&statements[k]);
            proof {
                runs = runs.push((statements@[k as int], done));
                assert(repository.run_calls() =~= q0 + runs);
            }
            match done {
                Ok(p) => replies.push(p),
                Err(e) => {
                    proof {
                        assert(repository.plan_calls().take(p0.len() as int) =~= p0);
                        assert(repository.plan_calls().skip(p0.len() as int) =~= seq![(sql@, pr)]);
                        assert(repository.run_calls().take(q0.len() as int) =~= q0);
                        assert(repository.run_calls().skip(q0.len() as int) =~= runs);
                    }
                    return Err(e);
                },
            }
            k = k + 1;
        }
    }
    proof {
        assert(replies@.len() == 0 ==> rows_returned(replies@) == 0 && rows_changed(replies@) == 0);
        assert(run_replies(runs) =~= replies@);
        assert(repository.plan_calls().take(p0.len() as int) =~= p0);
        assert(repository.plan_calls().skip(p0.len() as int) =~= seq![(sql@, pr)]);
        assert(repository.run_calls().take(q0.len() as int) =~= q0);
        assert(repository.run_calls().skip(q0.len() as int) =~= runs);
    }
    let (result_rows, affected_rows) = tally(&replies);
    let metrics = repository.engine().snapshot_metrics();
    let elapsed_micros: u128 = if execute_runtime {
        micros_since(&started)
    } else {
        0
    };
    let limitations = vec![to_owned_string("Public GlueSQL APIs do not expose per-operator input/output row counts.")];
    proof {
        assert(strings_view(limitations@) =~= limitations_spec());
    }
    Ok(AnalysisReport {
        sql: to_owned_string(sql),
        plans,
        access_paths: paths,
        raw_plan,
        result_rows,
        affected_rows,
        elapsed_micros,
        metrics,
        limitations,
    })
}

} // verus!
