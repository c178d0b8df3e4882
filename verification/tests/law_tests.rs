use rust_task_db::output::{deleted_line, detail_lines, done_line, project_line, runs_statements, tag_line, tagging_line};
use rust_task_db::project::Project;
use rust_task_db::tag::Tag;
use rust_task_db::task::TaskDetail;
use rust_task_db::output::{sql_result_lines, stats_text, task_line};
use rust_task_db::repl::{repl_action, ReplAction};
use rust_task_db::repository::gluesql_repository::{lab_profile, numbered_name, seed_profile_error, GlueSqlTaskRepository};
use rust_task_db::repository::next_id;
use rust_task_db::repository::sql::{has_duplicate_tags, required_name, sql_string, SqlResult};
use rust_task_db::repository::{TaskManagementRepository, TaskRepository};
use rust_task_db::error::AppError;
use rust_task_db::task::{Task, TaskStats};
use rust_task_db::text::{i64_to_decimal, parse_i64, trim};
use rust_task_db::repository::{JsonTaskRepository, TaskStore};

/// A store that writes nowhere.
struct Nowhere;

impl TaskStore for Nowhere {
    fn save(&mut self, _tasks: &Vec<Task>) -> Result<(), AppError> {
        Ok(())
    }
}

#[test]
fn literal_doubles_quotes_and_reads_back() {
    assert_eq!(sql_string("Rust's ownership"), "'Rust''s ownership'");
    assert_eq!(sql_string("''"), "''''''");
    let mut repository = GlueSqlTaskRepository::new().unwrap();
    let task = repository.add("a'b''c".into()).unwrap();
    assert_eq!(repository.find_all().unwrap()[0].title, task.title);
}

#[test]
fn ids_are_never_reused() {
    let mut repository = GlueSqlTaskRepository::new().unwrap();
    let first = repository.add("first".into()).unwrap();
    repository.delete(first.id).unwrap();
    let second = repository.add("second".into()).unwrap();
    assert!(second.id > first.id);
    let tag = repository.add_tag("p".into()).unwrap();
    repository.delete_tag(tag.id).unwrap();
    assert!(repository.add_tag("q".into()).unwrap().id > tag.id);
}

#[test]
fn next_json_id_is_fresh() {
    let tasks = vec![Task::new(4, "a".into()), Task::new(9, "b".into()), Task::new(2, "c".into())];
    let id = next_id(&tasks).unwrap();
    assert_eq!(id, 10);
    assert!(tasks.iter().all(|t| t.id < id));
    assert_eq!(next_id(&Vec::new()), Some(1));
    assert_eq!(next_id(&vec![Task::new(i64::MAX, "x".into())]), None);
}

#[test]
fn printed_ids_read_back() {
    for id in [0i64, 7, -7, 1234567890, i64::MAX, i64::MIN] {
        assert_eq!(parse_i64(&i64_to_decimal(id)), Some(id));
    }
    assert_eq!(i64_to_decimal(-42), "-42");
    assert_eq!(parse_i64("12a"), None);
    assert_eq!(parse_i64(""), None);
    assert_eq!(parse_i64("-"), None);
}

#[test]
fn names_are_trimmed_and_required() {
    assert_eq!(required_name("  Lab \n".into(), "project"), Ok("Lab".to_string()));
    assert_eq!(required_name("\u{3000}".into(), "tag"), Err(AppError::Domain("tag must not be empty".into())));
    assert_eq!(trim("\t a b \u{85}"), "a b");
}

#[test]
fn duplicate_tags_compare_trimmed_lowercase() {
    assert!(has_duplicate_tags(&vec!["Backend".into(), " backend ".into()]));
    assert!(!has_duplicate_tags(&vec!["backend".into(), "sql".into()]));
    assert!(has_duplicate_tags(&vec!["ÄB".into(), "äb".into()]));
}

#[test]
fn transactions_wrap_only_when_asked() {
    let mut repository = GlueSqlTaskRepository::new().unwrap();
    // The in-memory database has no transactions; work is still done step by step.
    let tag = repository.add_tag("x".into()).unwrap();
    assert_eq!(repository.delete_tag(tag.id).unwrap(), tag);
    assert!(repository.list_tags().unwrap().is_empty());
}

#[test]
fn prompt_actions() {
    assert_eq!(repl_action("   "), ReplAction::Skip);
    assert_eq!(repl_action(" .exit\n"), ReplAction::Exit);
    assert_eq!(repl_action(".quit"), ReplAction::Exit);
    assert_eq!(repl_action(".schema"), ReplAction::Schema);
    assert_eq!(repl_action(" SELECT 1; \n"), ReplAction::Sql("SELECT 1;".into()));
}

#[test]
fn output_lines() {
    let t = Task::with_project(3, Some(2), "Plan".into(), 5);
    assert_eq!(task_line(&t), "3 | project=2 | priority=5 | Plan | false");
    assert_eq!(task_line(&Task::new(1, "x".into())), "1 | project=NULL | priority=3 | x | false");
    assert_eq!(stats_text(&TaskStats::new(3, 1)), "total: 3\ndone: 1\ntodo: 2");
    let results = vec![
        SqlResult::Select {
            labels: vec!["id".into(), "title".into()],
            rows: vec![vec!["1".into(), "Rust".into()]],
        },
        SqlResult::Affected { kind: "insert".into(), count: 1 },
        SqlResult::Message("create ok".into()),
    ];
    assert_eq!(
        sql_result_lines(&results),
        vec!["id | title".to_string(), "1 | Rust".to_string(), "insert: 1".to_string(), "create ok".to_string()]
    );
}

#[test]
fn lab_profiles_and_names() {
    assert_eq!(lab_profile("medium"), Some((100, 100000, 100, false)));
    assert_eq!(lab_profile("large"), Some((250, 250000, 200, false)));
    assert_eq!(lab_profile("skewed"), Some((10, 10000, 20, true)));
    assert_eq!(lab_profile("small"), None);
    assert_eq!(numbered_name("Query Lab ", 3, 2), "Query Lab 03");
    assert_eq!(numbered_name("Seed task ", 12345, 4), "Seed task 12345");
    assert_eq!(
        seed_profile_error("medium", "insert tags", AppError::GlueSql("boom".into())),
        AppError::GlueSql("lab seed medium failed during insert tags: GlueSQL error: boom".into())
    );
}

#[test]
fn json_ids_stay_unique_after_adds() {
    let mut repository = JsonTaskRepository::new(Nowhere, vec![Task::new(5, "a".into())]);
    repository.add("b".into()).unwrap();
    repository.add("c".into()).unwrap();
    let ids: Vec<i64> = repository.find_all().unwrap().iter().map(|t| t.id).collect();
    assert_eq!(ids, vec![5, 6, 7]);
}

#[test]
fn show_task_without_project() {
    let mut repository = GlueSqlTaskRepository::new().unwrap();
    let task = repository.add("solo".into()).unwrap();
    let detail = repository.show_task(task.id).unwrap();
    assert_eq!(detail.task, task);
    assert_eq!(detail.project_name, None);
    assert!(detail.tags.is_empty());
    assert_eq!(repository.show_task(99).unwrap_err(), AppError::NotFound(99));
}

#[test]
fn command_lines() {
    assert!(runs_statements(false, false, false));
    assert!(!runs_statements(true, false, false));
    assert!(!runs_statements(false, false, true));
    assert!(runs_statements(true, true, true));
    assert_eq!(project_line(&Project { id: 2, name: "Lab".into() }), "2 | Lab");
    assert_eq!(tag_line(&Tag { id: 5, name: "sql".into() }), "5 | sql");
    assert_eq!(deleted_line(3, "x"), "Deleted: 3 | x");
    assert_eq!(done_line(-1), "Done: -1");
    assert_eq!(tagging_line("Tagged", 1, "backend"), "Tagged: 1 | backend");
    let detail = TaskDetail {
        task: Task::new(1, "t".into()),
        project_name: None,
        tags: vec![Tag { id: 1, name: "a".into() }, Tag { id: 2, name: "b".into() }],
    };
    assert_eq!(
        detail_lines(&detail),
        vec!["1 | project=NULL | priority=3 | t | false".to_string(), "project: (none)".to_string(), "tags: a, b".to_string()]
    );
}
