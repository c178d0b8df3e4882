use rust_task_db::error::AppError;
use rust_task_db::repository::sql::SqlResult;
use rust_task_db::repository::gluesql_repository::GlueSqlTaskRepository;
use rust_task_db::repository::TaskRepository;
use rust_task_db::service::TaskService;
use rust_task_db::task::{Task, TaskStats};

struct FakeTaskRepository {
    tasks: Vec<Task>,
    sql_message: String,
}

impl FakeTaskRepository {
    fn new(tasks: Vec<Task>) -> Self {
        Self { tasks, sql_message: "FakeTaskRepository does not support SQL".to_string() }
    }
}

impl TaskRepository for FakeTaskRepository {
    fn add(&mut self, title: String) -> Result<Task, AppError> {
        let id = self.tasks.len() as i64 + 1;
        let task = Task::new(id, title);
        self.tasks.push(task.clone());
        Ok(task)
    }

    fn find_all(&mut self) -> Result<Vec<Task>, AppError> {
        Ok(self.tasks.clone())
    }

    fn mark_done(&mut self, id: i64) -> Result<(), AppError> {
        let task = self.tasks.iter_mut().find(|task| task.id == id).ok_or(AppError::NotFound(id))?;
        task.done = true;
        Ok(())
    }

    fn delete(&mut self, id: i64) -> Result<Task, AppError> {
        let index = self.tasks.iter().position(|task| task.id == id).ok_or(AppError::NotFound(id))?;
        Ok(self.tasks.remove(index))
    }

    fn search(&mut self, keyword: &str) -> Result<Vec<Task>, AppError> {
        let keyword = keyword.to_lowercase();
        Ok(self.tasks.iter().filter(|task| task.title.to_lowercase().contains(&keyword)).cloned().collect())
    }

    fn stats(&mut self) -> Result<TaskStats, AppError> {
        let total = self.tasks.len();
        let done = self.tasks.iter().filter(|task| task.done).count();
        Ok(TaskStats::new(total, done))
    }

    fn execute_sql(&mut self, _sql: String) -> Result<Vec<SqlResult>, AppError> {
        Err(AppError::Unsupported(self.sql_message.clone()))
    }
}

#[test]
fn add_delegates_to_repository() {
    let repository = FakeTaskRepository::new(Vec::new());
    let mut service = TaskService::new(repository);

    let task = service.add("Rust".to_string());

    assert_eq!(task, Ok(Task::new(1, "Rust".to_string())));
    assert_eq!(service.list(), Ok(vec![Task::new(1, "Rust".to_string())]));
}

#[test]
fn list_delegates_to_repository() {
    let repository = FakeTaskRepository::new(vec![Task::new(1, "Rust".to_string())]);
    let mut service = TaskService::new(repository);

    let tasks = service.list();

    assert_eq!(tasks, Ok(vec![Task::new(1, "Rust".to_string())]));
}

#[test]
fn done_delegates_to_repository() {
    let repository = FakeTaskRepository::new(vec![Task::new(1, "Rust".to_string())]);
    let mut service = TaskService::new(repository);

    let result = service.done(1);
    let tasks = service.list().unwrap();

    assert_eq!(result, Ok(()));
    assert_eq!(tasks[0].done, true);
}

#[test]
fn delete_delegates_to_repository() {
    let repository = FakeTaskRepository::new(vec![Task::new(1, "Rust".to_string())]);
    let mut service = TaskService::new(repository);

    let deleted = service.delete(1);

    assert_eq!(deleted, Ok(Task::new(1, "Rust".to_string())));
    assert_eq!(service.list(), Ok(Vec::new()));
}

#[test]
fn search_delegates_to_repository() {
    let repository = FakeTaskRepository::new(vec![Task::new(1, "Rust".to_string()), Task::new(2, "GlueSQL".to_string())]);
    let mut service = TaskService::new(repository);

    let tasks = service.search("rust");

    assert_eq!(tasks, Ok(vec![Task::new(1, "Rust".to_string())]));
}

#[test]
fn stats_delegates_to_repository() {
    let mut done = Task::new(1, "Rust".to_string());
    done.done = true;
    let repository = FakeTaskRepository::new(vec![done, Task::new(2, "GlueSQL".to_string())]);
    let mut service = TaskService::new(repository);

    let stats = service.stats();

    assert_eq!(stats, Ok(TaskStats::new(2, 1)));
}

#[test]
fn execute_sql_delegates_to_repository() {
    let repository = FakeTaskRepository::new(Vec::new());
    let mut service = TaskService::new(repository);

    let result = service.execute_sql("SELECT * FROM tasks".to_string());

    assert_eq!(result, Err(AppError::Unsupported("FakeTaskRepository does not support SQL".to_string())));
}

fn service() -> TaskService<FakeTaskRepository> {
    TaskService::new(FakeTaskRepository { tasks: vec![], sql_message: "fake SQL".to_string() })
}

#[test]
fn add_delegates() {
    let mut s = service();
    assert_eq!(s.add("Rust".into()).unwrap(), Task::new(1, "Rust".into()));
}

#[test]
fn list_delegates() {
    let mut s = service();
    s.add("Rust".into()).unwrap();
    assert_eq!(s.list().unwrap().len(), 1);
}

#[test]
fn done_delegates() {
    let mut s = service();
    s.add("Rust".into()).unwrap();
    s.done(1).unwrap();
    assert!(s.list().unwrap()[0].done);
}

#[test]
fn delete_delegates() {
    let mut s = service();
    s.add("Rust".into()).unwrap();
    assert_eq!(s.delete(1).unwrap().id, 1);
}

#[test]
fn search_delegates() {
    let mut s = service();
    s.add("Rust".into()).unwrap();
    assert_eq!(s.search("rust").unwrap().len(), 1);
}

#[test]
fn stats_delegates() {
    let mut s = service();
    s.add("Rust".into()).unwrap();
    assert_eq!(s.stats().unwrap(), TaskStats::new(1, 0));
}

#[test]
fn sql_delegates() {
    let mut s = service();
    assert_eq!(s.execute_sql("SELECT 1".into()), Err(AppError::Unsupported("fake SQL".into())));
}

#[test]
fn management_operations_delegate_to_repository() {
    let mut s = TaskService::new(GlueSqlTaskRepository::new().unwrap());
    let project = s.add_project("Lab".into()).unwrap();
    s.add_tag("sql".into()).unwrap();
    let task = s.add_task_with_tags(Some(project.id), 4, "Plan".into(), vec!["sql".into()]).unwrap();
    assert_eq!(s.list_tasks(Some(project.id), None).unwrap(), vec![task.clone()]);
    assert_eq!(s.task_tags(task.id).unwrap().len(), 1);
    assert_eq!(s.show_task(task.id).unwrap().project_name.as_deref(), Some("Lab"));
    assert_eq!(s.project_stats(project.id).unwrap().total, 1);
}
