use rust_task_db::error::AppError;
use rust_task_db::repository::{JsonTaskRepository, TaskRepository, TaskStore};
use rust_task_db::task::{Task, TaskStats};

/// A store that keeps the last list written, as the task file would.
#[derive(Default)]
struct MemoryFile {
    saved: Option<Vec<Task>>,
    fail: bool,
}

impl TaskStore for MemoryFile {
    fn save(&mut self, tasks: &Vec<Task>) -> Result<(), AppError> {
        if self.fail {
            return Err(AppError::Io("disk full".into()));
        }
        self.saved = Some(tasks.clone());
        Ok(())
    }
}

fn repository() -> JsonTaskRepository<MemoryFile> {
    JsonTaskRepository::new(MemoryFile::default(), Vec::new())
}

/// A repository over what the first one wrote, as if the file were read again.
fn reloaded(repository: &JsonTaskRepository<MemoryFile>) -> JsonTaskRepository<MemoryFile> {
    let saved = repository.store().saved.clone().unwrap_or_default();
    JsonTaskRepository::new(MemoryFile::default(), saved)
}

#[test]
fn missing_tasks_file_loads_empty_vec() {
    let mut repository = repository();

    assert_eq!(repository.find_all(), Ok(Vec::new()));
}

#[test]
fn adds_task_and_saves_to_json_file() {
    let mut repository = repository();

    let task = repository.add("Rust".to_string()).unwrap();
    let mut reloaded = reloaded(&repository);

    assert_eq!(task, Task::new(1, "Rust".to_string()));
    assert_eq!(reloaded.find_all(), Ok(vec![task]));
}

#[test]
fn marks_task_done_and_saves_to_json_file() {
    let mut repository = repository();
    repository.add("Rust".to_string()).unwrap();

    repository.mark_done(1).unwrap();
    let mut reloaded = reloaded(&repository);

    assert_eq!(reloaded.find_all().unwrap()[0].done, true);
}

#[test]
fn deletes_task_and_saves_to_json_file() {
    let mut repository = repository();
    repository.add("Rust".to_string()).unwrap();

    let deleted = repository.delete(1).unwrap();
    let mut reloaded = reloaded(&repository);

    assert_eq!(deleted, Task::new(1, "Rust".to_string()));
    assert_eq!(reloaded.find_all(), Ok(Vec::new()));
}

#[test]
fn missing_done_returns_error() {
    let mut repository = repository();

    let result = repository.mark_done(404);

    assert_eq!(result, Err(AppError::NotFound(404)));
}

#[test]
fn missing_delete_returns_error() {
    let mut repository = repository();

    let result = repository.delete(404);

    assert_eq!(result, Err(AppError::NotFound(404)));
}

#[test]
fn searches_tasks_by_title_case_insensitive() {
    let mut repository = repository();
    let rust = repository.add("Rust 공부".to_string()).unwrap();
    repository.add("GlueSQL 붙이기".to_string()).unwrap();

    let result = repository.search("rust");

    assert_eq!(result, Ok(vec![rust]));
}

#[test]
fn calculates_task_stats() {
    let mut repository = repository();
    repository.add("Rust 공부".to_string()).unwrap();
    repository.add("GlueSQL 붙이기".to_string()).unwrap();
    repository.mark_done(1).unwrap();

    let result = repository.stats();

    assert_eq!(result, Ok(TaskStats::new(2, 1)));
}

#[test]
fn next_id_follows_largest_id_not_count() {
    let mut repository = JsonTaskRepository::new(MemoryFile::default(), vec![Task::new(7, "a".into()), Task::new(3, "b".into())]);
    assert_eq!(repository.add("c".into()).unwrap().id, 8);
    let mut negative = JsonTaskRepository::new(MemoryFile::default(), vec![Task::new(-5, "a".into())]);
    assert_eq!(negative.add("b".into()).unwrap().id, -4);
}

#[test]
fn full_id_space_is_refused() {
    let mut repository = JsonTaskRepository::new(MemoryFile::default(), vec![Task::new(i64::MAX, "last".into())]);
    assert_eq!(repository.add("more".into()), Err(AppError::Domain("task id space is exhausted".into())));
    assert_eq!(repository.find_all().unwrap().len(), 1);
}

#[test]
fn failed_save_is_reported_and_task_kept_in_memory() {
    let store = MemoryFile { saved: None, fail: true };
    let mut repository = JsonTaskRepository::new(store, Vec::new());
    assert_eq!(repository.add("Rust".into()), Err(AppError::Io("disk full".into())));
    assert_eq!(repository.find_all().unwrap(), vec![Task::new(1, "Rust".into())]);
}

#[test]
fn json_repository_refuses_sql() {
    let mut repository = repository();
    assert_eq!(
        repository.execute_sql("SELECT 1".into()),
        Err(AppError::Unsupported("SQL command is only supported by GlueSqlTaskRepository".into()))
    );
}

#[test]
fn mark_done_changes_first_task_with_the_id_only() {
    let mut repository = JsonTaskRepository::new(
        MemoryFile::default(),
        vec![Task::new(1, "a".into()), Task::new(2, "b".into()), Task::new(2, "c".into())],
    );
    repository.mark_done(2).unwrap();
    let tasks = repository.find_all().unwrap();
    assert_eq!(tasks.iter().map(|t| t.done).collect::<Vec<_>>(), vec![false, true, false]);
    assert_eq!(repository.delete(2).unwrap().title, "b");
    assert_eq!(repository.find_all().unwrap().len(), 2);
}
