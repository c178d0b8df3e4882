use rust_task_db::query_lab::analysis::{analyze, tally};
use rust_task_db::query_lab::plan::{
    access_paths, statement_to_node, Evidence, IndexShape, JoinExecutorShape, JoinKind, JoinShape, PlanNode,
    QueryShape, RelationShape, SelectShape, StatementKind, StatementShape,
};
use rust_task_db::query_lab::report::render_tree;
use rust_task_db::query_lab::runtime::{MetricSource, MetricsSnapshot, TraceMetrics, TracingStorage};
use rust_task_db::query_lab::scenarios::{scenario_names, scenario_sql};
use rust_task_db::repository::gluesql_repository::{GlueSqlTaskRepository, MemoryEngine, SqlEngine};
use rust_task_db::repository::sql::Reply;
use rust_task_db::repository::TaskRepository;

/// An in-memory engine whose storage counters are never incremented: the counting
/// storage needs GlueSQL's storage traits, which only the program implements.
struct UncountedEngine {
    inner: MemoryEngine,
    metrics: TraceMetrics,
}

impl SqlEngine for UncountedEngine {
    fn execute_batch(&mut self, sql: &str) -> Result<Vec<Reply>, String> {
        self.inner.execute_batch(sql)
    }

    fn plan_batch(&mut self, sql: &str) -> Result<Vec<gluesql::core::ast::Statement>, String> {
        self.inner.plan_batch(sql)
    }

    fn execute_planned(&mut self, statement: &gluesql::core::ast::Statement) -> Result<Reply, String> {
        self.inner.execute_planned(statement)
    }
}

impl MetricSource for UncountedEngine {
    fn reset_metrics(&self) {
        self.metrics.reset();
    }

    fn snapshot_metrics(&self) -> MetricsSnapshot {
        self.metrics.snapshot()
    }
}

/// An in-memory engine that counts, for each planned statement it runs, a table scan and
/// the rows a query hands out, or a storage write for a change: the counts the program's
/// counting storage makes for these statements.
struct CountingEngine {
    inner: MemoryEngine,
    metrics: TraceMetrics,
}

impl SqlEngine for CountingEngine {
    fn execute_batch(&mut self, sql: &str) -> Result<Vec<Reply>, String> {
        self.inner.execute_batch(sql)
    }

    fn plan_batch(&mut self, sql: &str) -> Result<Vec<gluesql::core::ast::Statement>, String> {
        self.inner.plan_batch(sql)
    }

    fn execute_planned(&mut self, statement: &gluesql::core::ast::Statement) -> Result<Reply, String> {
        let reply = self.inner.execute_planned(statement)?;
        match &reply {
            Reply::Select { rows, .. } => {
                self.metrics.record_scan_data();
                for _ in rows {
                    self.metrics.record_row();
                }
            },
            Reply::Insert(_) => self.metrics.record_append_data(),
            Reply::Update(_) | Reply::Delete(_) => self.metrics.record_insert_data(),
            _ => {},
        }
        Ok(reply)
    }
}

impl MetricSource for CountingEngine {
    fn reset_metrics(&self) {
        self.metrics.reset();
    }

    fn snapshot_metrics(&self) -> MetricsSnapshot {
        self.metrics.snapshot()
    }
}

fn counting_repository() -> GlueSqlTaskRepository<CountingEngine> {
    GlueSqlTaskRepository::from_engine(CountingEngine { inner: MemoryEngine::new(), metrics: TraceMetrics::new() }, false)
        .unwrap()
}

#[test]
fn runtime_counts_scan_and_iterator_rows() {
    let mut repository = counting_repository();
    repository.add("one".into()).unwrap();
    repository.add("two".into()).unwrap();
    let report = analyze(&mut repository, "SELECT * FROM tasks;", true).unwrap();
    assert_eq!(report.metrics.scan_data_calls, 1);
    assert_eq!(report.metrics.rows_consumed, 2);
    assert_eq!(report.result_rows, 2);
}

#[test]
fn metrics_reset_for_each_query() {
    let mut repository = counting_repository();
    repository.add("one".into()).unwrap();
    let _ = analyze(&mut repository, "SELECT * FROM tasks;", true).unwrap();
    let second = analyze(&mut repository, "SELECT * FROM tasks;", true).unwrap();
    assert_eq!(second.metrics.scan_data_calls, 1);
    assert_eq!(second.metrics.rows_consumed, 1);
}

#[test]
fn mutation_reports_affected_rows_and_storage_writes() {
    let mut repository = counting_repository();
    repository.add("one".into()).unwrap();
    let report = analyze(&mut repository, "UPDATE tasks SET done = TRUE WHERE id = 1;", true).unwrap();
    assert_eq!(report.affected_rows, 1);
    assert!(report.metrics.insert_data_calls + report.metrics.append_data_calls > 0);
}

#[test]
fn plan_only_counts_and_changes_nothing() {
    let mut repository = counting_repository();
    let report = analyze(&mut repository, "INSERT INTO tasks VALUES (1, NULL, 'planned', FALSE, 3);", false).unwrap();
    assert_eq!(report.affected_rows, 0);
    assert_eq!(report.result_rows, 0);
    assert_eq!(report.elapsed_micros, 0);
    assert!(!report.limitations.is_empty());
    assert_eq!(report.metrics, MetricsSnapshot::default());
    assert!(repository.find_all().unwrap().is_empty());
}

fn repository() -> GlueSqlTaskRepository<UncountedEngine> {
    GlueSqlTaskRepository::from_engine(UncountedEngine { inner: MemoryEngine::new(), metrics: TraceMetrics::new() }, false)
        .unwrap()
}

fn contains_label(node: &PlanNode, label: &str) -> bool {
    node.label.contains(label) || node.children.iter().any(|child| contains_label(child, label))
}

fn table(name: &str, index: IndexShape) -> RelationShape {
    RelationShape::Table { name: name.into(), index }
}

fn select_from(from: RelationShape) -> SelectShape {
    SelectShape {
        from,
        joins: Vec::new(),
        selection: None,
        group_by: Vec::new(),
        having: None,
        distinct: false,
        projection: vec!["Wildcard".into()],
    }
}

fn query(body: SelectShape) -> StatementShape {
    StatementShape::Query(QueryShape { body: Some(body), order_by: Vec::new(), limit: None })
}

/// The leaf under the projection of a plain `SELECT`.
fn relation_leaf(node: &PlanNode) -> &PlanNode {
    &node.children[0]
}

#[test]
fn scenario_list_and_scan_queries_are_available() {
    assert!(scenario_names().contains(&"join"));
    assert_eq!(scenario_sql("scan").unwrap().len(), 2);
    assert!(scenario_sql("missing").is_err());
}

#[test]
fn renders_primary_key_access_path() {
    let node = statement_to_node(&query(select_from(table("tasks", IndexShape::PrimaryKey { key: "10".into() }))));
    assert!(relation_leaf(&node).label.contains("Primary Key Lookup"));
}

#[test]
fn renders_non_clustered_index_access_path() {
    let node = statement_to_node(&query(select_from(table(
        "tasks",
        IndexShape::NonClustered { name: "idx_tasks_project_id".into(), asc: Some(true), condition: "None".into() },
    ))));
    let leaf = relation_leaf(&node);
    assert!(leaf.label.contains("Index Scan"));
    assert!(leaf.label.contains("idx_tasks_project_id"));
}

#[test]
fn renders_full_scan_access_path() {
    let node = statement_to_node(&query(select_from(table("tasks", IndexShape::Full))));
    assert_eq!(relation_leaf(&node).label, "Table Scan [tasks]");
}

#[test]
fn plan_labels_are_exact() {
    let node = statement_to_node(&query(select_from(table("tasks", IndexShape::Full))));
    assert_eq!(node.label, "Projection [Wildcard]");
    assert_eq!(node.evidence, Evidence::SafeInterpretation);
    assert_eq!(relation_leaf(&node).evidence, Evidence::Direct);
    let update = statement_to_node(&StatementShape::Update { table: "tasks".into(), selection: Some("id = 1".into()) });
    assert_eq!(update.label, "Update [tasks] filter=id = 1");
    let delete = statement_to_node(&StatementShape::Delete { table: "tasks".into(), selection: None });
    assert_eq!(delete.label, "Delete [tasks] filter=none");
    let begin = statement_to_node(&StatementShape::Other(StatementKind::StartTransaction));
    assert_eq!(begin.label, "Statement [BEGIN]");
}

#[test]
fn join_filter_sort_and_limit_nest_in_order() {
    let mut body = select_from(table("projects", IndexShape::Full));
    body.joins.push(JoinShape {
        kind: JoinKind::LeftOuter,
        executor: JoinExecutorShape::Hash { key: "t.project_id".into(), value: "p.id".into() },
        relation: table("tasks", IndexShape::Full),
    });
    body.selection = Some("t.done = TRUE".into());
    let st = StatementShape::Query(QueryShape { body: Some(body), order_by: vec!["p.id".into()], limit: Some("5".into()) });
    let node = statement_to_node(&st);
    assert_eq!(node.label, "Limit [5]");
    assert_eq!(node.children[0].label, "Sort [p.id]");
    let projection = &node.children[0].children[0];
    let filter = &projection.children[0];
    assert_eq!(filter.label, "Filter [t.done = TRUE]");
    assert_eq!(filter.children[0].label, "Join [LEFT, Hash key=t.project_id value=p.id]");
    let paths = access_paths(&[node]);
    assert_eq!(paths, vec!["Table Scan [projects]".to_string(), "Table Scan [tasks]".to_string()]);
}

#[test]
fn tally_counts_returned_and_changed_rows() {
    let replies = vec![
        Reply::Select { labels: vec!["id".into()], rows: vec![Vec::new(), Vec::new()] },
        Reply::Insert(3),
        Reply::Update(2),
        Reply::Delete(1),
        Reply::Create,
    ];
    assert_eq!(tally(&replies), (2, 6));
}

#[test]
fn renders_join_plan_from_planned_statement() {
    let mut repository = repository();
    let report = analyze(
        &mut repository,
        "SELECT p.name, t.title FROM projects p JOIN tasks t ON t.project_id = p.id;",
        true,
    )
    .unwrap();
    assert!(contains_label(&report.plans[0], "Join [INNER"));
}

#[test]
fn renders_aggregate_sort_and_limit() {
    let mut repository = repository();
    let report = analyze(
        &mut repository,
        "SELECT project_id, COUNT(*) FROM tasks GROUP BY project_id ORDER BY project_id LIMIT 10;",
        true,
    )
    .unwrap();
    for label in ["Aggregate", "Sort", "Limit"] {
        assert!(contains_label(&report.plans[0], label), "missing {label}");
    }
}

#[test]
fn plan_only_does_not_execute_mutation() {
    let mut repository = repository();
    let report = analyze(&mut repository, "INSERT INTO tasks VALUES (1, NULL, 'planned', FALSE, 3);", false).unwrap();
    assert_eq!(report.affected_rows, 0);
    assert!(repository.find_all().unwrap().is_empty());
}

#[test]
fn tree_report_contains_required_sections() {
    let mut repository = repository();
    let report = analyze(&mut repository, "SELECT * FROM tasks;", true).unwrap();
    let output = render_tree(&report, false, false, false);
    for section in ["SQL", "QUERY PLAN", "ACCESS PATH", "RUNTIME STATISTICS", "LIMITATIONS"] {
        assert!(output.contains(section));
    }
}

#[test]
fn scan_scenario_executes_all_queries() {
    let mut repository = repository();
    for sql in scenario_sql("scan").unwrap() {
        analyze(&mut repository, sql, true).unwrap();
    }
}

#[test]
fn runtime_counts_result_and_affected_rows() {
    let mut repository = repository();
    repository.add("one".into()).unwrap();
    repository.add("two".into()).unwrap();
    let report = analyze(&mut repository, "SELECT * FROM tasks;", true).unwrap();
    assert_eq!(report.result_rows, 2);
    assert_eq!(report.sql, "SELECT * FROM tasks;");
    let update = analyze(&mut repository, "UPDATE tasks SET done = TRUE WHERE id = 1;", true).unwrap();
    assert_eq!(update.affected_rows, 1);
    assert!(contains_label(&update.plans[0], "Update [tasks]"));
}

#[test]
fn primary_key_query_is_planned_as_lookup() {
    let mut repository = repository();
    repository.add("one".into()).unwrap();
    let report = analyze(&mut repository, "SELECT * FROM tasks WHERE id = 1;", true).unwrap();
    assert!(contains_label(&report.plans[0], "Primary Key Lookup"));
    assert_eq!(report.result_rows, 1);
}

#[test]
fn metrics_start_at_zero_and_tracing_storage_keeps_inner() {
    let storage = TracingStorage::new(7u32);
    assert_eq!(*storage.inner(), 7);
    assert_eq!(storage.snapshot_metrics(), MetricsSnapshot::default());
    storage.metrics().record_scan_data();
    storage.metrics().record_row();
    assert_eq!(storage.snapshot_metrics().scan_data_calls, 1);
    assert_eq!(storage.snapshot_metrics().rows_consumed, 1);
    storage.reset_metrics();
    assert_eq!(storage.snapshot_metrics(), MetricsSnapshot::default());
}

#[test]
fn invalid_sql_is_not_analyzed() {
    let mut repository = repository();
    assert!(analyze(&mut repository, "SELEC nonsense", true).is_err());
}
