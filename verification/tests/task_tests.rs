use rust_task_db::project::{Project, ProjectStats};
use rust_task_db::task::{Task, TaskStats};

#[test]
fn task_new_sets_id_title_and_default_done() {
    let task = Task::new(7, "Rust 공부".to_string());

    assert_eq!(task.id, 7);
    assert_eq!(task.title, "Rust 공부");
    assert_eq!(task.done, false);
}

#[test]
fn task_stats_new_calculates_todo_count() {
    let stats = TaskStats::new(5, 2);

    assert_eq!(stats.total, 5);
    assert_eq!(stats.done, 2);
    assert_eq!(stats.todo, 3);
}

#[test]
fn task_new_uses_unassigned_project_and_default_priority() {
    let task = Task::new(1, "Rust".into());
    assert_eq!(task.project_id, None);
    assert_eq!(task.priority, 3);
}

#[test]
fn task_with_project_keeps_relationship_and_priority() {
    let task = Task::with_project(1, Some(7), "Planner".into(), 5);
    assert_eq!((task.project_id, task.priority), (Some(7), 5));
}

#[test]
fn project_stats_new_calculates_todo_count() {
    let project = Project { id: 1, name: "Lab".into() };
    let stats = ProjectStats::new(project.clone(), 4, 1);
    assert_eq!(stats.project, project);
    assert_eq!((stats.total, stats.done, stats.todo), (4, 1, 3));
}

#[test]
fn copied_task_equals_original() {
    let task = Task::with_project(3, Some(2), "Copy".into(), 4);
    assert_eq!(task.copied(), task);
}
