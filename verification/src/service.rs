//! The task service: the operations of the program, carried out by a repository.
use vstd::prelude::*;
use crate::error::AppError;
use crate::project::{Project, ProjectStats};
use crate::repository::sql::SqlResult;
use crate::repository::{TaskManagementRepository, TaskRepository};
use crate::tag::Tag;
use crate::task::{Task, TaskDetail, TaskStats};
use crate::command::strings_view;
use crate::repository::gluesql_repository::opt_str_view;

verus! {

/// The operations of the program over a repository.
pub struct TaskService<R> {
    repository: R,
}

impl<R> TaskService<R> {
    /// The repository the service works on.
    pub closed spec fn inner(&self) -> R {
        self.repository
    }

    /// A service over a repository.
    pub fn new(repository: R) -> (s: Self)
        ensures
            s.inner() == repository,
    {
        TaskService { repository }
    }

    /// The repository the service works on.
    pub fn repository(&self) -> (r: &R)
        ensures
            *r == self.inner(),
    {
        &self.repository
    }

    /// The repository the service works on, for operations the service does not offer.
    pub fn repository_mut(&mut self) -> (r: &mut R)
        ensures
            *r == old(self).inner(),
            final(self).inner() == *final(r),
    {
        &mut self.repository
    }
}

impl<R: TaskRepository> TaskService<R> {
    /// Adds a task (`TaskRepository::add`).
    pub fn add(&mut self, title: String) -> (r: Result<Task, AppError>)
        ensures
            old(self).inner().add_outcome(&final(self).inner(), title@, r),
    {
        self.repository.add(title)
    }

    /// All tasks (`TaskRepository::find_all`).
    pub fn list(&mut self) -> (r: Result<Vec<Task>, AppError>)
        ensures
            old(self).inner().find_all_outcome(&final(self).inner(), r),
    {
        self.repository.find_all()
    }

    /// Marks a task done (`TaskRepository::mark_done`).
    pub fn done(&mut self, id: i64) -> (r: Result<(), AppError>)
        ensures
            old(self).inner().mark_done_outcome(&final(self).inner(), id, r),
    {
        self.repository.mark_done(id)
    }

    /// Deletes a task (`TaskRepository::delete`).
    pub fn delete(&mut self, id: i64) -> (r: Result<Task, AppError>)
        ensures
            old(self).inner().delete_outcome(&final(self).inner(), id, r),
    {
        self.repository.delete(id)
    }

    /// Searches tasks by title (`TaskRepository::search`).
    pub fn search(&mut self, keyword: &str) -> (r: Result<Vec<Task>, AppError>)
        ensures
            old(self).inner().search_outcome(&final(self).inner(), keyword@, r),
    {
        self.repository.search(keyword)
    }

    /// Task counts (`TaskRepository::stats`).
    pub fn stats(&mut self) -> (r: Result<TaskStats, AppError>)
        ensures
            old(self).inner().stats_outcome(&final(self).inner(), r),
    {
        self.repository.stats()
    }

    /// Runs SQL (`TaskRepository::execute_sql`).
    pub fn execute_sql(&mut self, sql: String) -> (r: Result<Vec<SqlResult>, AppError>)
        ensures
            old(self).inner().execute_sql_outcome(&final(self).inner(), sql@, r),
    {
        self.repository.execute_sql(sql)
    }
}

impl<R: TaskManagementRepository> TaskService<R> {
    /// Adds a project.
    pub fn add_project(&mut self, name: String) -> (r: Result<Project, AppError>)
        ensures
            old(self).inner().add_project_outcome(&final(self).inner(), name@, r),
    {
        self.repository.add_project(name)
    }

    /// All projects.
    pub fn list_projects(&mut self) -> (r: Result<Vec<Project>, AppError>)
        ensures
            old(self).inner().list_projects_outcome(&final(self).inner(), r),
    {
        self.repository.list_projects()
    }

    /// One project.
    pub fn show_project(&mut self, id: i64) -> (r: Result<Project, AppError>)
        ensures
            old(self).inner().show_project_outcome(&final(self).inner(), id, r),
    {
        self.repository.show_project(id)
    }

    /// Deletes a project.
    pub fn delete_project(&mut self, id: i64) -> (r: Result<Project, AppError>)
        ensures
            old(self).inner().delete_project_outcome(&final(self).inner(), id, r),
    {
        self.repository.delete_project(id)
    }

    /// Task counts of one project.
    pub fn project_stats(&mut self, id: i64) -> (r: Result<ProjectStats, AppError>)
        ensures
            old(self).inner().project_stats_outcome(&final(self).inner(), id, r),
    {
        self.repository.project_stats(id)
    }

    /// Task counts of every project.
    pub fn all_project_stats(&mut self) -> (r: Result<Vec<ProjectStats>, AppError>)
        ensures
            old(self).inner().all_project_stats_outcome(&final(self).inner(), r),
    {
        self.repository.all_project_stats()
    }

    /// Adds a task with tags.
    pub fn add_task_with_tags(&mut self, project_id: Option<i64>, priority: i64, title: String, tags: Vec<String>) -> (r: Result<Task, AppError>)
        ensures
            old(self).inner().add_task_with_tags_outcome(&final(self).inner(), project_id, priority, title@, strings_view(tags@), r),
    {
        self.repository.add_task_with_tags(project_id, priority, title, tags)
    }

    /// The tasks of a tag, of a project, or all.
    pub fn list_tasks(&mut self, project_id: Option<i64>, tag: Option<&str>) -> (r: Result<Vec<Task>, AppError>)
        ensures
            old(self).inner().list_tasks_outcome(&final(self).inner(), project_id, opt_str_view(tag), r),
    {
        self.repository.list_tasks(project_id, tag)
    }

    /// A task with its project name and tags.
    pub fn show_task(&mut self, id: i64) -> (r: Result<TaskDetail, AppError>)
        ensures
            old(self).inner().show_task_outcome(&final(self).inner(), id, r),
    {
        self.repository.show_task(id)
    }

    /// Adds a tag.
    pub fn add_tag(&mut self, name: String) -> (r: Result<Tag, AppError>)
        ensures
            old(self).inner().add_tag_outcome(&final(self).inner(), name@, r),
    {
        self.repository.add_tag(name)
    }

    /// All tags.
    pub fn list_tags(&mut self) -> (r: Result<Vec<Tag>, AppError>)
        ensures
            old(self).inner().list_tags_outcome(&final(self).inner(), r),
    {
        self.repository.list_tags()
    }

    /// Deletes a tag.
    pub fn delete_tag(&mut self, id: i64) -> (r: Result<Tag, AppError>)
        ensures
            old(self).inner().delete_tag_outcome(&final(self).inner(), id, r),
    {
        self.repository.delete_tag(id)
    }

    /// Attaches a tag to a task.
    pub fn tag_task(&mut self, id: i64, tag: &str) -> (r: Result<(), AppError>)
        ensures
            old(self).inner().tag_task_outcome(&final(self).inner(), id, tag@, r),
    {
        self.repository.tag_task(id, tag)
    }

    /// Removes a tag from a task.
    pub fn untag_task(&mut self, id: i64, tag: &str) -> (r: Result<(), AppError>)
        ensures
            old(self).inner().untag_task_outcome(&final(self).inner(), id, tag@, r),
    {
        self.repository.untag_task(id, tag)
    }

    /// The tags of a task.
    pub fn task_tags(&mut self, id: i64) -> (r: Result<Vec<Tag>, AppError>)
        ensures
            old(self).inner().task_tags_outcome(&final(self).inner(), id, r),
    {
        self.repository.task_tags(id)
    }

    /// Fills the database with sample data once.
    pub fn seed(&mut self) -> (r: Result<(), AppError>)
        ensures
            old(self).inner().seed_outcome(&final(self).inner(), r),
    {
        self.repository.seed()
    }
}

} // verus!
