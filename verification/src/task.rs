//! Tasks, task details and task statistics.
use vstd::prelude::*;
use crate::tag::Tag;

verus! {

/// A task.
#[derive(Clone, Debug, PartialEq, Eq)]
pub struct Task {
    pub id: i64,
    pub project_id: Option<i64>,
    pub title: String,
    pub done: bool,
    pub priority: i64,
}

/// The mathematical value of a `Task`.
pub struct TaskView {
    pub id: i64,
    pub project_id: Option<i64>,
    pub title: Seq<char>,
    pub done: bool,
    pub priority: i64,
}

impl View for Task {
    type V = TaskView;

    open spec fn view(&self) -> TaskView {
        TaskView {
            id: self.id,
            project_id: self.project_id,
            title: self.title@,
            done: self.done,
            priority: self.priority,
        }
    }
}

/// The priority of a task created without one.
pub open spec fn spec_default_priority() -> i64 {
    3
}

/// The priority of a task created without one.
pub fn default_priority() -> (p: i64)
    ensures
        p == spec_default_priority(),
{
    3
}

impl Task {
    /// A new open task without a project and with the default priority.
    pub fn new(id: i64, title: String) -> (t: Self)
        ensures
            t.id == id,
            t.project_id is None,
            t.title == title,
            !t.done,
            t.priority == spec_default_priority(),
    {
        Task { id, project_id: None, title, done: false, priority: default_priority() }
    }

    /// A new open task in a project (or none) with the given priority.
    pub fn with_project(id: i64, project_id: Option<i64>, title: String, priority: i64) -> (t: Self)
        ensures
            t.id == id,
            t.project_id == project_id,
            t.title == title,
            !t.done,
            t.priority == priority,
    {
        Task { id, project_id, title, done: false, priority }
    }

    /// A task equal to this one.
    pub fn copied(&self) -> (t: Self)
        ensures
            t == *self,
    {
        Task {
            id: self.id,
            project_id: self.project_id,
            title: self.title.clone(),
            done: self.done,
            priority: self.priority,
        }
    }
}

/// A task together with the name of its project and its tags.
#[derive(Clone, Debug, PartialEq, Eq)]
pub struct TaskDetail {
    pub task: Task,
    pub project_name: Option<String>,
    pub tags: Vec<Tag>,
}

/// Counts of all tasks, finished tasks and open tasks.
#[derive(Clone, Debug, PartialEq, Eq)]
pub struct TaskStats {
    pub total: usize,
    pub done: usize,
    pub todo: usize,
}

impl TaskStats {
    /// Statistics of `total` tasks of which `done` are finished.
    pub fn new(total: usize, done: usize) -> (s: Self)
        requires
            done <= total,
        ensures
            s.total == total,
            s.done == done,
            s.todo == total - done,
    {
        TaskStats { total, done, todo: total - done }
    }
}

} // verus!
