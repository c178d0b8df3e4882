use rust_task_db::error::AppError;
use rust_task_db::project::ProjectStats;
use rust_task_db::repository::gluesql_repository::{GlueSqlTaskRepository, MemoryEngine, SqlEngine};
use rust_task_db::repository::sql::SqlResult;
use rust_task_db::repository::{TaskManagementRepository, TaskRepository};
use rust_task_db::task::{Task, TaskStats};

/// The first value of the last result of a query, as text, if there is a row.
fn first_value<E: SqlEngine>(repository: &mut GlueSqlTaskRepository<E>, sql: &str) -> Option<String> {
    match repository.execute_sql(sql.to_string()).unwrap().pop() {
        Some(SqlResult::Select { rows, .. }) => rows.first().map(|row| row[0].clone()),
        other => panic!("expected a query result, got {other:?}"),
    }
}

/// The number a `COUNT(*)` query gives back; GlueSQL gives no row for no match.
fn count<E: SqlEngine>(repository: &mut GlueSqlTaskRepository<E>, sql: &str) -> usize {
    first_value(repository, sql).map_or(0, |v| v.parse().unwrap())
}

#[test]
fn adds_and_lists_tasks_with_gluesql() {
    let mut repository = GlueSqlTaskRepository::new().unwrap();

    let task = repository.add("Rust".to_string()).unwrap();

    assert_eq!(task, Task::new(1, "Rust".to_string()));
    assert_eq!(repository.find_all(), Ok(vec![task]));
}

#[test]
fn inserts_task_after_migrating_step_18_column_order() {
    let mut legacy = MemoryEngine::new();
    legacy
        .execute_batch(
            "CREATE TABLE tasks (
                id INTEGER PRIMARY KEY,
                title TEXT NOT NULL,
                done BOOLEAN NOT NULL
            );
            ALTER TABLE tasks ADD COLUMN project_id INTEGER;
            ALTER TABLE tasks ADD COLUMN priority INTEGER DEFAULT 3;
            CREATE TABLE projects (id INTEGER PRIMARY KEY, name TEXT NOT NULL);
            CREATE TABLE tags (id INTEGER PRIMARY KEY, name TEXT NOT NULL);
            CREATE TABLE task_tags (task_id INTEGER, tag_id INTEGER);
            CREATE TABLE id_sequences (entity TEXT PRIMARY KEY, next_id INTEGER NOT NULL);
            CREATE TABLE app_metadata (key TEXT PRIMARY KEY, value TEXT NOT NULL);",
        )
        .unwrap();
    let mut repository = GlueSqlTaskRepository::from_engine(legacy, false).unwrap();
    let project = repository.add_project("Migrated".into()).unwrap();
    let task = repository.add_task(Some(project.id), 4, "column-safe insert".into()).unwrap();

    assert_eq!(task.project_id, Some(project.id));
    assert_eq!(task.title, "column-safe insert");
    assert_eq!(task.priority, 4);
}

#[test]
fn migrates_three_column_tasks_table() {
    let mut legacy = MemoryEngine::new();
    legacy
        .execute_batch("CREATE TABLE tasks (id INTEGER PRIMARY KEY, title TEXT NOT NULL, done BOOLEAN NOT NULL);")
        .unwrap();
    let mut repository = GlueSqlTaskRepository::from_engine(legacy, false).unwrap();
    assert_eq!(count(&mut repository, "SELECT COUNT(*) FROM tasks;"), 0);
    let result = repository.execute_sql("SELECT project_id, priority FROM tasks;".to_string());
    assert!(result.is_ok());
}

#[test]
fn marks_task_done_with_gluesql() {
    let mut repository = GlueSqlTaskRepository::new().unwrap();
    repository.add("Rust".to_string()).unwrap();

    repository.mark_done(1).unwrap();
    let tasks = repository.find_all().unwrap();

    assert_eq!(tasks[0].done, true);
}

#[test]
fn deletes_task_with_gluesql() {
    let mut repository = GlueSqlTaskRepository::new().unwrap();
    repository.add("Rust".to_string()).unwrap();

    let deleted = repository.delete(1).unwrap();

    assert_eq!(deleted, Task::new(1, "Rust".to_string()));
    assert_eq!(repository.find_all(), Ok(Vec::new()));
}

#[test]
fn searches_tasks_case_insensitively_with_gluesql() {
    let mut repository = GlueSqlTaskRepository::new().unwrap();
    let rust = repository.add("Rust 공부".to_string()).unwrap();
    repository.add("GlueSQL 붙이기".to_string()).unwrap();

    let result = repository.search("rust");

    assert_eq!(result, Ok(vec![rust]));
}

#[test]
fn calculates_stats_with_gluesql_count() {
    let mut repository = GlueSqlTaskRepository::new().unwrap();
    repository.add("Rust 공부".to_string()).unwrap();
    repository.add("GlueSQL 붙이기".to_string()).unwrap();
    repository.mark_done(1).unwrap();

    assert_eq!(repository.stats(), Ok(TaskStats::new(2, 1)));
}

#[test]
fn calculates_empty_stats_with_gluesql_count() {
    let mut repository = GlueSqlTaskRepository::new().unwrap();

    assert_eq!(repository.stats(), Ok(TaskStats::new(0, 0)));
}

#[test]
fn manages_projects_and_rejects_delete_when_tasks_exist() {
    let mut repository = GlueSqlTaskRepository::new().unwrap();
    let project = repository.add_project("GlueSQL 분석".into()).unwrap();
    assert_eq!(repository.show_project(project.id), Ok(project.clone()));
    repository.add_task(Some(project.id), 3, "Planner".into()).unwrap();
    assert_eq!(repository.delete_project(project.id), Err(AppError::Domain("project has tasks".into())));
}

#[test]
fn validates_project_and_task_fields() {
    let mut repository = GlueSqlTaskRepository::new().unwrap();
    assert!(repository.add_project("   ".into()).is_err());
    assert!(repository.add_task(None, 0, "bad".into()).is_err());
    assert!(repository.add_task(Some(404), 3, "bad".into()).is_err());
}

#[test]
fn field_errors_have_exact_messages() {
    let mut repository = GlueSqlTaskRepository::new().unwrap();
    assert_eq!(repository.add_project("   ".into()), Err(AppError::Domain("project must not be empty".into())));
    assert_eq!(repository.add_task(None, 6, "bad".into()), Err(AppError::Domain("priority must be between 1 and 5".into())));
    assert_eq!(repository.add_task(None, 3, " ".into()), Err(AppError::Domain("task title must not be empty".into())));
    assert_eq!(repository.add_task(Some(404), 3, "bad".into()), Err(AppError::Domain("Project not found: 404".into())));
    assert_eq!(
        repository.add_task_with_tags(None, 3, "bad".into(), vec!["missing".into()]),
        Err(AppError::Domain("Tag not found: missing".into()))
    );
    assert_eq!(repository.add_tag("\t".into()), Err(AppError::Domain("tag must not be empty".into())));
    assert_eq!(repository.delete_tag(9), Err(AppError::Domain("Tag not found: 9".into())));
    assert_eq!(repository.show_project(-2), Err(AppError::Domain("Project not found: -2".into())));
}

#[test]
fn lists_project_tasks_by_priority_then_id_and_calculates_stats() {
    let mut repository = GlueSqlTaskRepository::new().unwrap();
    let project = repository.add_project("Lab".into()).unwrap();
    repository.add_task(Some(project.id), 1, "low".into()).unwrap();
    let high = repository.add_task(Some(project.id), 5, "high".into()).unwrap();
    repository.mark_done(high.id).unwrap();
    let tasks = repository.list_tasks(Some(project.id), None).unwrap();
    assert_eq!(tasks.iter().map(|t| t.priority).collect::<Vec<_>>(), vec![5, 1]);
    assert_eq!(repository.project_stats(project.id), Ok(ProjectStats::new(project, 2, 1)));
}

#[test]
fn aggregates_all_projects_with_left_join() {
    let mut repository = GlueSqlTaskRepository::new().unwrap();
    let empty = repository.add_project("empty".into()).unwrap();
    let active = repository.add_project("active".into()).unwrap();
    let task = repository.add_task(Some(active.id), 3, "done".into()).unwrap();
    repository.mark_done(task.id).unwrap();
    let stats = repository.all_project_stats().unwrap();
    assert_eq!(stats, vec![ProjectStats::new(empty, 0, 0), ProjectStats::new(active, 1, 1)]);
}

#[test]
fn creates_task_and_tags_together() {
    let mut repository = GlueSqlTaskRepository::new().unwrap();
    repository.add_tag("backend".into()).unwrap();
    repository.add_tag("sql".into()).unwrap();
    let task = repository
        .add_task_with_tags(None, 4, "Planner".into(), vec!["backend".into(), "sql".into()])
        .unwrap();
    assert_eq!(repository.task_tags(task.id).unwrap().len(), 2);
}

#[test]
fn prevents_case_insensitive_duplicate_tags() {
    let mut repository = GlueSqlTaskRepository::new().unwrap();
    repository.add_tag("Backend".into()).unwrap();
    assert_eq!(repository.add_tag("backend".into()), Err(AppError::Domain("tag name already exists".into())));
}

#[test]
fn tags_untags_and_lists_tasks_by_tag() {
    let mut repository = GlueSqlTaskRepository::new().unwrap();
    let task = repository.add("API".into()).unwrap();
    repository.add_tag("backend".into()).unwrap();
    repository.tag_task(task.id, "BACKEND").unwrap();
    assert_eq!(repository.tag_task(task.id, "backend"), Err(AppError::Domain("task already has tag".into())));
    assert_eq!(repository.list_tasks(None, Some("backend")).unwrap(), vec![task.clone()]);
    assert_eq!(repository.show_task(task.id).unwrap().tags.len(), 1);
    repository.untag_task(task.id, "backend").unwrap();
    assert!(repository.task_tags(task.id).unwrap().is_empty());
}

#[test]
fn deleting_task_or_tag_cleans_join_rows() {
    let mut repository = GlueSqlTaskRepository::new().unwrap();
    let first = repository.add("one".into()).unwrap();
    let second = repository.add("two".into()).unwrap();
    let tag = repository.add_tag("backend".into()).unwrap();
    repository.tag_task(first.id, "backend").unwrap();
    repository.tag_task(second.id, "backend").unwrap();
    repository.delete(first.id).unwrap();
    assert_eq!(count(&mut repository, "SELECT COUNT(*) FROM task_tags WHERE task_id = 1;"), 0);
    repository.delete_tag(tag.id).unwrap();
    assert_eq!(count(&mut repository, "SELECT COUNT(*) FROM task_tags;"), 0);
}

#[test]
fn deletes_empty_project() {
    let mut repository = GlueSqlTaskRepository::new().unwrap();
    let project = repository.add_project("empty".into()).unwrap();
    assert_eq!(repository.delete_project(project.id), Ok(project));
    assert!(repository.list_projects().unwrap().is_empty());
}

#[test]
fn task_detail_includes_project_and_tags() {
    let mut repository = GlueSqlTaskRepository::new().unwrap();
    let project = repository.add_project("Lab".into()).unwrap();
    let task = repository.add_task(Some(project.id), 4, "JOIN".into()).unwrap();
    repository.add_tag("sql".into()).unwrap();
    repository.tag_task(task.id, "sql").unwrap();
    let detail = repository.show_task(task.id).unwrap();
    assert_eq!(detail.project_name.as_deref(), Some("Lab"));
    assert_eq!(detail.tags[0].name, "sql");
}

#[test]
fn untag_requires_existing_task_and_tag() {
    let mut repository = GlueSqlTaskRepository::new().unwrap();
    assert_eq!(repository.untag_task(404, "missing"), Err(AppError::NotFound(404)));
}

#[test]
fn tag_names_are_trimmed() {
    let mut repository = GlueSqlTaskRepository::new().unwrap();
    assert_eq!(repository.add_tag(" backend ".into()).unwrap().name, "backend");
}

#[test]
fn seed_creates_expected_counts_and_is_idempotent() {
    let mut repository = GlueSqlTaskRepository::new().unwrap();
    repository.seed().unwrap();
    repository.seed().unwrap();
    assert_eq!(repository.list_projects().unwrap().len(), 10);
    assert_eq!(repository.find_all().unwrap().len(), 1000);
    assert_eq!(repository.list_tags().unwrap().len(), 20);
    assert!(count(&mut repository, "SELECT COUNT(*) FROM task_tags;") > 1000);
    assert_eq!(first_value(&mut repository, "SELECT value FROM app_metadata WHERE key = 'seed_version';").as_deref(), Some("1"));
}

#[test]
fn seed_recovers_reserved_partial_data_before_rebuilding() {
    let mut repository = GlueSqlTaskRepository::new().unwrap();
    let project = repository.add_project("Query Lab 01".into()).unwrap();
    repository.add_tag("tag-01".into()).unwrap();
    repository.add_task(Some(project.id), 1, "Seed task 0001".into()).unwrap();
    repository.seed().unwrap();
    assert_eq!(repository.list_projects().unwrap().len(), 10);
    assert_eq!(repository.find_all().unwrap().len(), 1000);
    assert_eq!(repository.list_tags().unwrap().len(), 20);
}

#[test]
fn seed_lays_out_sample_tasks() {
    let mut repository = GlueSqlTaskRepository::new().unwrap();
    repository.seed().unwrap();
    let tasks = repository.find_all().unwrap();
    assert_eq!(tasks[2].title, "Seed task 0003");
    assert_eq!(tasks[2].priority, 4);
    assert!(tasks[2].done);
    assert!(!tasks[0].done);
    let projects = repository.list_projects().unwrap();
    assert_eq!(projects[0].name, "Query Lab 01");
    assert_eq!(tasks[10].project_id, Some(projects[0].id));
    let tags = repository.task_tags(tasks[3].id).unwrap();
    let names: Vec<String> = tags.into_iter().map(|t| t.name).collect();
    assert_eq!(names, vec!["tag-05".to_string(), "tag-12".to_string()]);
}

#[test]
fn lab_profile_rejects_unknown_profile() {
    let mut repository = GlueSqlTaskRepository::new().unwrap();
    assert_eq!(repository.seed_lab_profile("huge"), Err(AppError::Domain("Unknown lab seed profile: huge".into())));
}

#[test]
fn small_lab_profile_is_the_sample_data() {
    let mut repository = GlueSqlTaskRepository::new().unwrap();
    repository.seed_lab_profile("small").unwrap();
    assert_eq!(repository.list_projects().unwrap().len(), 10);
}

#[test]
fn skewed_lab_profile_fills_once() {
    let mut repository = GlueSqlTaskRepository::new().unwrap();
    repository.seed_lab_profile("skewed").unwrap();
    repository.seed_lab_profile("skewed").unwrap();
    assert_eq!(count(&mut repository, "SELECT COUNT(*) FROM projects;"), 10);
    assert_eq!(count(&mut repository, "SELECT COUNT(*) FROM tags;"), 20);
    assert_eq!(count(&mut repository, "SELECT COUNT(*) FROM tasks;"), 10000);
    assert_eq!(count(&mut repository, "SELECT COUNT(*) FROM task_tags;"), 10000);
    assert_eq!(count(&mut repository, "SELECT COUNT(*) FROM tasks WHERE project_id = 1;"), 8200);
    assert_eq!(count(&mut repository, "SELECT COUNT(*) FROM tasks WHERE done = FALSE;"), 1000);
    assert_eq!(first_value(&mut repository, "SELECT title FROM tasks WHERE id = 1;").as_deref(), Some("Lab skewed Task 0000001"));
    assert_eq!(first_value(&mut repository, "SELECT name FROM projects WHERE id = 2;").as_deref(), Some("Lab skewed Project 0002"));
    assert_eq!(first_value(&mut repository, "SELECT name FROM tags WHERE id = 20;").as_deref(), Some("lab-skewed-tag-0020"));
    let next = repository.add("after lab".into()).unwrap();
    assert_eq!(next.id, 10001);
}

#[test]
fn task_add_rejects_duplicate_tag_options() {
    let mut repository = GlueSqlTaskRepository::new().unwrap();
    repository.add_tag("backend".into()).unwrap();
    let result = repository.add_task_with_tags(None, 3, "task".into(), vec!["backend".into(), "BACKEND".into()]);
    assert_eq!(result, Err(AppError::Domain("duplicate tag option".into())));
    assert!(repository.find_all().unwrap().is_empty());
}

#[test]
fn returns_not_found_when_gluesql_task_is_missing() {
    let mut repository = GlueSqlTaskRepository::new().unwrap();

    assert_eq!(repository.delete(404), Err(AppError::NotFound(404)));
    assert_eq!(repository.mark_done(404), Err(AppError::NotFound(404)));
}

#[test]
fn escapes_single_quote_in_title() {
    let mut repository = GlueSqlTaskRepository::new().unwrap();
    let task = repository.add("Rust's ownership".to_string()).unwrap();

    assert_eq!(repository.find_all(), Ok(vec![task]));
}

#[test]
fn executes_select_sql_with_gluesql() {
    let mut repository = GlueSqlTaskRepository::new().unwrap();
    repository.add("Rust".to_string()).unwrap();

    let result = repository.execute_sql("SELECT id, title, done FROM tasks;".to_string()).unwrap();

    assert_eq!(
        result,
        vec![SqlResult::Select {
            labels: vec!["id".to_string(), "title".to_string(), "done".to_string()],
            rows: vec![vec!["1".to_string(), "Rust".to_string(), "false".to_string()]]
        }]
    );
}

#[test]
fn executes_insert_update_delete_sql_with_gluesql() {
    let mut repository = GlueSqlTaskRepository::new().unwrap();

    let insert = repository.execute_sql("INSERT INTO tasks VALUES (1, NULL, 'Rust', FALSE, 3);".to_string()).unwrap();
    let update = repository.execute_sql("UPDATE tasks SET done = TRUE WHERE id = 1;".to_string()).unwrap();
    let delete = repository.execute_sql("DELETE FROM tasks WHERE id = 1;".to_string()).unwrap();

    assert_eq!(insert, vec![SqlResult::Affected { kind: "insert".to_string(), count: 1 }]);
    assert_eq!(update, vec![SqlResult::Affected { kind: "update".to_string(), count: 1 }]);
    assert_eq!(delete, vec![SqlResult::Affected { kind: "delete".to_string(), count: 1 }]);
}

#[test]
fn sequence_does_not_reuse_id_after_delete() {
    let mut repository = GlueSqlTaskRepository::new().unwrap();
    repository.add("first".to_string()).unwrap();
    repository.add("second".to_string()).unwrap();
    repository.delete(2).unwrap();

    let task = repository.add("third".to_string()).unwrap();

    assert_eq!(task, Task::new(3, "third".to_string()));
}

#[test]
fn invalid_sql_returns_gluesql_error() {
    let mut repository = GlueSqlTaskRepository::new().unwrap();

    let result = repository.execute_sql("SELECT * FROM missing_table;".to_string());

    assert!(matches!(result, Err(AppError::GlueSql(_))));
}

#[test]
fn memory_storage_rejects_explicit_transactions() {
    let mut repository = GlueSqlTaskRepository::new().unwrap();

    let result = repository.execute_sql("BEGIN;".to_string());

    assert!(matches!(result, Err(AppError::GlueSql(message)) if message.contains("transaction is not supported")));
}

#[test]
fn create_and_drop_results_are_shown() {
    let mut repository = GlueSqlTaskRepository::new().unwrap();
    let create = repository.execute_sql("CREATE TABLE notes (id INTEGER);".to_string()).unwrap();
    let drop = repository.execute_sql("DROP TABLE notes;".to_string()).unwrap();
    assert_eq!(create, vec![SqlResult::Message("create ok".to_string())]);
    assert_eq!(drop, vec![SqlResult::Affected { kind: "drop table".to_string(), count: 1 }]);
}

#[test]
fn null_and_numbers_are_shown_as_text() {
    let mut repository = GlueSqlTaskRepository::new().unwrap();
    repository.add("Rust".to_string()).unwrap();
    let result = repository.execute_sql("SELECT project_id, priority FROM tasks;".to_string()).unwrap();
    assert_eq!(
        result,
        vec![SqlResult::Select {
            labels: vec!["project_id".to_string(), "priority".to_string()],
            rows: vec![vec!["NULL".to_string(), "3".to_string()]]
        }]
    );
}

#[test]
fn new_repository_is_not_transactional() {
    let repository = GlueSqlTaskRepository::new().unwrap();
    let _engine: &MemoryEngine = repository.engine();
}
