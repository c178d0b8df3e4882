//! Repositories of tasks: the traits, the in-memory list behind the JSON file, and the
//! GlueSQL database.
pub mod conditions;
pub mod gluesql_repository;
pub mod sql;

use vstd::prelude::*;
use crate::error::AppError;
use crate::project::{Project, ProjectStats};
use crate::repository::sql::SqlResult;
use crate::tag::Tag;
use crate::task::{Task, TaskDetail, TaskStats, TaskView};
use crate::repository::sql::tasks_view;
use crate::error::ErrorView;
use crate::command::strings_view;
use crate::repository::gluesql_repository::opt_str_view;
use crate::text::{contains_seq, contains_str, lowercase, to_lowercase, to_owned_string};

verus! {

/// The task operations every repository offers. A repository states what each operation
/// does by giving its `_outcome` spec function a body of its own.
pub trait TaskRepository {
    /// Whether `r` is what `add` gives back, with `self` the repository before the call and
    /// `after` the repository after it. Nothing is stated unless the repository states it.
    open spec fn add_outcome(&self, after: &Self, title: Seq<char>, r: Result<Task, AppError>) -> bool {
        true
    }

    /// Adds an open task with the given title.
    fn add(&mut self, title: String) -> (r: Result<Task, AppError>)
        ensures
            old(self).add_outcome(&*final(self), title@, r),
    ;

    /// Whether `r` is what `find_all` gives back, with `self` the repository before the call and
    /// `after` the repository after it. Nothing is stated unless the repository states it.
    open spec fn find_all_outcome(&self, after: &Self, r: Result<Vec<Task>, AppError>) -> bool {
        true
    }

    /// All tasks.
    fn find_all(&mut self) -> (r: Result<Vec<Task>, AppError>)
        ensures
            old(self).find_all_outcome(&*final(self), r),
    ;

    /// Whether `r` is what `mark_done` gives back, with `self` the repository before the call and
    /// `after` the repository after it. Nothing is stated unless the repository states it.
    open spec fn mark_done_outcome(&self, after: &Self, id: i64, r: Result<(), AppError>) -> bool {
        true
    }

    /// Marks a task as done.
    fn mark_done(&mut self, id: i64) -> (r: Result<(), AppError>)
        ensures
            old(self).mark_done_outcome(&*final(self), id, r),
    ;

    /// Whether `r` is what `delete` gives back, with `self` the repository before the call and
    /// `after` the repository after it. Nothing is stated unless the repository states it.
    open spec fn delete_outcome(&self, after: &Self, id: i64, r: Result<Task, AppError>) -> bool {
        true
    }

    /// Deletes a task and gives it back.
    fn delete(&mut self, id: i64) -> (r: Result<Task, AppError>)
        ensures
            old(self).delete_outcome(&*final(self), id, r),
    ;

    /// Whether `r` is what `search` gives back, with `self` the repository before the call and
    /// `after` the repository after it. Nothing is stated unless the repository states it.
    open spec fn search_outcome(&self, after: &Self, keyword: Seq<char>, r: Result<Vec<Task>, AppError>) -> bool {
        true
    }

    /// The tasks whose title contains the keyword, ignoring case.
    fn search(&mut self, keyword: &str) -> (r: Result<Vec<Task>, AppError>)
        ensures
            old(self).search_outcome(&*final(self), keyword@, r),
    ;

    /// Whether `r` is what `stats` gives back, with `self` the repository before the call and
    /// `after` the repository after it. Nothing is stated unless the repository states it.
    open spec fn stats_outcome(&self, after: &Self, r: Result<TaskStats, AppError>) -> bool {
        true
    }

    /// Counts of all, finished and open tasks.
    fn stats(&mut self) -> (r: Result<TaskStats, AppError>)
        ensures
            old(self).stats_outcome(&*final(self), r),
    ;

    /// Whether `r` is what `execute_sql` gives back, with `self` the repository before the call and
    /// `after` the repository after it. Nothing is stated unless the repository states it.
    open spec fn execute_sql_outcome(&self, after: &Self, sql: Seq<char>, r: Result<Vec<SqlResult>, AppError>) -> bool {
        true
    }

    /// Runs SQL given by the user.
    fn execute_sql(&mut self, sql: String) -> (r: Result<Vec<SqlResult>, AppError>)
        ensures
            old(self).execute_sql_outcome(&*final(self), sql@, r),
    ;
}

/// The project, task and tag operations of a relational repository. A repository states
/// what each operation does by giving its `_outcome` spec function a body of its own.
pub trait TaskManagementRepository {
    /// Whether `r` is what `add_project` gives back, with `self` the repository before the call and
    /// `after` the repository after it. Nothing is stated unless the repository states it.
    open spec fn add_project_outcome(&self, after: &Self, name: Seq<char>, r: Result<Project, AppError>) -> bool {
        true
    }

    /// Adds a project.
    fn add_project(&mut self, name: String) -> (r: Result<Project, AppError>)
        ensures
            old(self).add_project_outcome(&*final(self), name@, r),
    ;

    /// Whether `r` is what `list_projects` gives back, with `self` the repository before the call and
    /// `after` the repository after it. Nothing is stated unless the repository states it.
    open spec fn list_projects_outcome(&self, after: &Self, r: Result<Vec<Project>, AppError>) -> bool {
        true
    }

    /// All projects by id.
    fn list_projects(&mut self) -> (r: Result<Vec<Project>, AppError>)
        ensures
            old(self).list_projects_outcome(&*final(self), r),
    ;

    /// Whether `r` is what `show_project` gives back, with `self` the repository before the call and
    /// `after` the repository after it. Nothing is stated unless the repository states it.
    open spec fn show_project_outcome(&self, after: &Self, id: i64, r: Result<Project, AppError>) -> bool {
        true
    }

    /// One project.
    fn show_project(&mut self, id: i64) -> (r: Result<Project, AppError>)
        ensures
            old(self).show_project_outcome(&*final(self), id, r),
    ;

    /// Whether `r` is what `delete_project` gives back, with `self` the repository before the call and
    /// `after` the repository after it. Nothing is stated unless the repository states it.
    open spec fn delete_project_outcome(&self, after: &Self, id: i64, r: Result<Project, AppError>) -> bool {
        true
    }

    /// Deletes a project without tasks and gives it back.
    fn delete_project(&mut self, id: i64) -> (r: Result<Project, AppError>)
        ensures
            old(self).delete_project_outcome(&*final(self), id, r),
    ;

    /// Whether `r` is what `project_stats` gives back, with `self` the repository before the call and
    /// `after` the repository after it. Nothing is stated unless the repository states it.
    open spec fn project_stats_outcome(&self, after: &Self, id: i64, r: Result<ProjectStats, AppError>) -> bool {
        true
    }

    /// Task counts of one project.
    fn project_stats(&mut self, id: i64) -> (r: Result<ProjectStats, AppError>)
        ensures
            old(self).project_stats_outcome(&*final(self), id, r),
    ;

    /// Whether `r` is what `all_project_stats` gives back, with `self` the repository before the call and
    /// `after` the repository after it. Nothing is stated unless the repository states it.
    open spec fn all_project_stats_outcome(&self, after: &Self, r: Result<Vec<ProjectStats>, AppError>) -> bool {
        true
    }

    /// Task counts of every project.
    fn all_project_stats(&mut self) -> (r: Result<Vec<ProjectStats>, AppError>)
        ensures
            old(self).all_project_stats_outcome(&*final(self), r),
    ;

    /// Whether `r` is what `add_task` gives back, with `self` the repository before the call and
    /// `after` the repository after it. Nothing is stated unless the repository states it.
    open spec fn add_task_outcome(&self, after: &Self, project_id: Option<i64>, priority: i64, title: Seq<char>, r: Result<Task, AppError>) -> bool {
        true
    }

    /// Adds a task to a project (or none) with a priority.
    fn add_task(&mut self, project_id: Option<i64>, priority: i64, title: String) -> (r: Result<Task, AppError>)
        ensures
            old(self).add_task_outcome(&*final(self), project_id, priority, title@, r),
    ;

    /// Whether `r` is what `add_task_with_tags` gives back, with `self` the repository before the call and
    /// `after` the repository after it. Nothing is stated unless the repository states it.
    open spec fn add_task_with_tags_outcome(&self, after: &Self, project_id: Option<i64>, priority: i64, title: Seq<char>, tags: Seq<Seq<char>>, r: Result<Task, AppError>) -> bool {
        true
    }

    /// Adds a task with tags.
    fn add_task_with_tags(&mut self, project_id: Option<i64>, priority: i64, title: String, tags: Vec<String>) -> (r: Result<Task, AppError>)
        ensures
            old(self).add_task_with_tags_outcome(&*final(self), project_id, priority, title@, strings_view(tags@), r),
    ;

    /// Whether `r` is what `list_tasks` gives back, with `self` the repository before the call and
    /// `after` the repository after it. Nothing is stated unless the repository states it.
    open spec fn list_tasks_outcome(&self, after: &Self, project_id: Option<i64>, tag: Option<Seq<char>>, r: Result<Vec<Task>, AppError>) -> bool {
        true
    }

    /// The tasks of a tag, of a project, or all of them.
    fn list_tasks(&mut self, project_id: Option<i64>, tag: Option<&str>) -> (r: Result<Vec<Task>, AppError>)
        ensures
            old(self).list_tasks_outcome(&*final(self), project_id, opt_str_view(tag), r),
    ;

    /// Whether `r` is what `show_task` gives back, with `self` the repository before the call and
    /// `after` the repository after it. Nothing is stated unless the repository states it.
    open spec fn show_task_outcome(&self, after: &Self, id: i64, r: Result<TaskDetail, AppError>) -> bool {
        true
    }

    /// A task with its project name and tags.
    fn show_task(&mut self, id: i64) -> (r: Result<TaskDetail, AppError>)
        ensures
            old(self).show_task_outcome(&*final(self), id, r),
    ;

    /// Whether `r` is what `add_tag` gives back, with `self` the repository before the call and
    /// `after` the repository after it. Nothing is stated unless the repository states it.
    open spec fn add_tag_outcome(&self, after: &Self, name: Seq<char>, r: Result<Tag, AppError>) -> bool {
        true
    }

    /// Adds a tag.
    fn add_tag(&mut self, name: String) -> (r: Result<Tag, AppError>)
        ensures
            old(self).add_tag_outcome(&*final(self), name@, r),
    ;

    /// Whether `r` is what `list_tags` gives back, with `self` the repository before the call and
    /// `after` the repository after it. Nothing is stated unless the repository states it.
    open spec fn list_tags_outcome(&self, after: &Self, r: Result<Vec<Tag>, AppError>) -> bool {
        true
    }

    /// All tags by id.
    fn list_tags(&mut self) -> (r: Result<Vec<Tag>, AppError>)
        ensures
            old(self).list_tags_outcome(&*final(self), r),
    ;

    /// Whether `r` is what `delete_tag` gives back, with `self` the repository before the call and
    /// `after` the repository after it. Nothing is stated unless the repository states it.
    open spec fn delete_tag_outcome(&self, after: &Self, id: i64, r: Result<Tag, AppError>) -> bool {
        true
    }

    /// Deletes a tag and gives it back.
    fn delete_tag(&mut self, id: i64) -> (r: Result<Tag, AppError>)
        ensures
            old(self).delete_tag_outcome(&*final(self), id, r),
    ;

    /// Whether `r` is what `tag_task` gives back, with `self` the repository before the call and
    /// `after` the repository after it. Nothing is stated unless the repository states it.
    open spec fn tag_task_outcome(&self, after: &Self, task_id: i64, tag_name: Seq<char>, r: Result<(), AppError>) -> bool {
        true
    }

    /// Attaches a tag to a task.
    fn tag_task(&mut self, task_id: i64, tag_name: &str) -> (r: Result<(), AppError>)
        ensures
            old(self).tag_task_outcome(&*final(self), task_id, tag_name@, r),
    ;

    /// Whether `r` is what `untag_task` gives back, with `self` the repository before the call and
    /// `after` the repository after it. Nothing is stated unless the repository states it.
    open spec fn untag_task_outcome(&self, after: &Self, task_id: i64, tag_name: Seq<char>, r: Result<(), AppError>) -> bool {
        true
    }

    /// Removes a tag from a task.
    fn untag_task(&mut self, task_id: i64, tag_name: &str) -> (r: Result<(), AppError>)
        ensures
            old(self).untag_task_outcome(&*final(self), task_id, tag_name@, r),
    ;

    /// Whether `r` is what `task_tags` gives back, with `self` the repository before the call and
    /// `after` the repository after it. Nothing is stated unless the repository states it.
    open spec fn task_tags_outcome(&self, after: &Self, task_id: i64, r: Result<Vec<Tag>, AppError>) -> bool {
        true
    }

    /// The tags of a task.
    fn task_tags(&mut self, task_id: i64) -> (r: Result<Vec<Tag>, AppError>)
        ensures
            old(self).task_tags_outcome(&*final(self), task_id, r),
    ;

    /// Whether `r` is what `seed` gives back, with `self` the repository before the call and
    /// `after` the repository after it. Nothing is stated unless the repository states it.
    open spec fn seed_outcome(&self, after: &Self, r: Result<(), AppError>) -> bool {
        true
    }

    /// Fills the database with sample projects, tasks and tags, once.
    fn seed(&mut self) -> (r: Result<(), AppError>)
        ensures
            old(self).seed_outcome(&*final(self), r),
    ;
}

/// Where the JSON task list is kept. The program's edge implements it by writing the
/// list, as JSON, to its file.
pub trait TaskStore {
    /// Writes the whole task list.
    fn save(&mut self, tasks: &Vec<Task>) -> Result<(), AppError>;
}

/// Tasks kept as a list in memory and written to a store after every change.
pub struct JsonTaskRepository<S> {
    store: S,
    tasks: Vec<Task>,
}

/// The largest id of a list of tasks; 0 for no task.
pub open spec fn max_id(ts: Seq<TaskView>) -> int
    decreases ts.len(),
{
    if ts.len() == 0 {
        0
    } else if ts.len() == 1 {
        ts[0].id as int
    } else {
        let m = max_id(ts.drop_last());
        if ts.last().id > m {
            ts.last().id as int
        } else {
            m
        }
    }
}

/// The id the next task gets: one more than the largest.
pub open spec fn next_id_spec(ts: Seq<TaskView>) -> int {
    max_id(ts) + 1
}

/// Every task's id is at most `max_id`.
pub proof fn lemma_max_id(ts: Seq<TaskView>)
    ensures
        forall|i: int| 0 <= i < ts.len() ==> #[trigger] ts[i].id <= max_id(ts),
        ts.len() > 0 ==> exists|i: int| 0 <= i < ts.len() && #[trigger] ts[i].id == max_id(ts),
    decreases ts.len(),
{
    if ts.len() > 1 {
        lemma_max_id(ts.drop_last());
        assert forall|i: int| 0 <= i < ts.len() implies #[trigger] ts[i].id <= max_id(ts) by {
            if i < ts.len() - 1 {
                assert(ts[i] == ts.drop_last()[i]);
            }
        }
        if ts.last().id <= max_id(ts.drop_last()) {
            let j = choose|j: int| 0 <= j < ts.drop_last().len() && #[trigger] ts.drop_last()[j].id == max_id(ts.drop_last());
            assert(ts[j] == ts.drop_last()[j]);
        } else {
            assert(ts[ts.len() - 1].id == max_id(ts));
        }
    } else if ts.len() == 1 {
        assert(ts[0].id == max_id(ts));
    }
}

/// The id a new task gets is larger than every id in the list, so no task has it.
pub proof fn lemma_next_id_fresh(ts: Seq<TaskView>)
    ensures
        forall|i: int| 0 <= i < ts.len() ==> #[trigger] ts[i].id < next_id_spec(ts),
{
    lemma_max_id(ts);
}

/// Whether no two tasks of the list share an id.
pub open spec fn ids_unique(ts: Seq<TaskView>) -> bool {
    forall|i: int, j: int| 0 <= i < j < ts.len() ==> #[trigger] ts[i].id != #[trigger] ts[j].id
}

/// Adding a task with the next id keeps the ids of the list unique.
pub proof fn lemma_add_keeps_ids_unique(ts: Seq<TaskView>, t: TaskView)
    requires
        ids_unique(ts),
        t.id == next_id_spec(ts),
    ensures
        ids_unique(ts.push(t)),
{
    lemma_next_id_fresh(ts);
    let u = ts.push(t);
    assert forall|i: int, j: int| 0 <= i < j < u.len() implies #[trigger] u[i].id != #[trigger] u[j].id by {
        if j == ts.len() {
            assert(u[i] == ts[i]);
        } else {
            assert(u[i] == ts[i] && u[j] == ts[j]);
        }
    }
}

/// The id the next task of the list gets, or `None` when it would not fit in an `i64`.
pub fn next_id(tasks: &Vec<Task>) -> (r: Option<i64>)
    ensures
        match r {
            Some(id) => id == next_id_spec(tasks_view(tasks@)),
            None => next_id_spec(tasks_view(tasks@)) > i64::MAX,
        },
{
    let ghost ts = tasks_view(tasks@);
    if tasks.len() == 0 {
        return Some(1);
    }
    let mut m: i64 = tasks[0].id;
    let mut i: usize = 1;
    proof {
        assert(ts.take(1).drop_last() =~= Seq::<TaskView>::empty());
    }
    while i < tasks.len()
        invariant
            1 <= i <= tasks@.len(),
            ts == tasks_view(tasks@),
            m == max_id(ts.take(i as int)),
        decreases tasks@.len() - i,
    {
        proof {
            assert(ts.take(i + 1).drop_last() =~= ts.take(i as int));
        }
        if tasks[i].id > m {
            m = tasks[i].id;
        }
        i = i + 1;
    }
    proof {
        assert(ts.take(i as int) =~= ts);
    }
    if m == i64::MAX {
        None
    } else {
        Some(m + 1)
    }
}

/// Whether a task's title contains the keyword, both lower-cased.
pub open spec fn matches_keyword(t: TaskView, keyword: Seq<char>) -> bool {
    contains_seq(lowercase(t.title), lowercase(keyword))
}

/// The tasks whose title contains the keyword, ignoring case, in list order.
pub open spec fn search_spec(ts: Seq<TaskView>, keyword: Seq<char>) -> Seq<TaskView>
    decreases ts.len(),
{
    if ts.len() == 0 {
        Seq::empty()
    } else {
        let rest = search_spec(ts.drop_last(), keyword);
        if matches_keyword(ts.last(), keyword) {
            rest.push(ts.last())
        } else {
            rest
        }
    }
}

/// The number of finished tasks.
pub open spec fn done_count(ts: Seq<TaskView>) -> nat
    decreases ts.len(),
{
    if ts.len() == 0 {
        0
    } else {
        done_count(ts.drop_last()) + if ts.last().done {
            1nat
        } else {
            0nat
        }
    }
}

/// Whether `i` is the first position of a task with id `id`.
pub open spec fn first_with_id(ts: Seq<TaskView>, id: i64, i: int) -> bool {
    &&& 0 <= i < ts.len()
    &&& ts[i].id == id
    &&& forall|j: int| 0 <= j < i ==> #[trigger] ts[j].id != id
}

/// Whether no task has id `id`.
pub open spec fn no_task_with_id(ts: Seq<TaskView>, id: i64) -> bool {
    forall|j: int| 0 <= j < ts.len() ==> #[trigger] ts[j].id != id
}

/// The position of the first task with id `id`, if any.
fn position_of(tasks: &Vec<Task>, id: i64) -> (r: Option<usize>)
    ensures
        match r {
            Some(i) => first_with_id(tasks_view(tasks@), id, i as int),
            None => no_task_with_id(tasks_view(tasks@), id),
        },
{
    let ghost ts = tasks_view(tasks@);
    let mut i: usize = 0;
    while i < tasks.len()
        invariant
            i <= tasks@.len(),
            ts == tasks_view(tasks@),
            forall|j: int| 0 <= j < i ==> #[trigger] ts[j].id != id,
        decreases tasks@.len() - i,
    {
        if tasks[i].id == id {
            return Some(i);
        }
        i = i + 1;
    }
    None
}

/// Tasks equal to those of a list, in order.
fn duplicate_all(tasks: &Vec<Task>) -> (r: Vec<Task>)
    ensures
        tasks_view(r@) == tasks_view(tasks@),
{
    let mut out: Vec<Task> = Vec::new();
    let mut i: usize = 0;
    while i < tasks.len()
        invariant
            i <= tasks@.len(),
            tasks_view(out@) == tasks_view(tasks@.take(i as int)),
        decreases tasks@.len() - i,
    {
        let ghost before = out@;
        out.push(tasks[i].copied());
        proof {
            assert(tasks_view(out@) =~= tasks_view(before).push(tasks@[i as int]@));
            assert(tasks_view(tasks@.take(i + 1)) =~= tasks_view(tasks@.take(i as int)).push(tasks@[i as int]@));
        }
        i = i + 1;
    }
    proof {
        assert(tasks@.take(i as int) =~= tasks@);
    }
    out
}

impl<S: TaskStore> JsonTaskRepository<S> {
    /// The tasks, in list order.
    pub closed spec fn tasks_spec(&self) -> Seq<TaskView> {
        tasks_view(self.tasks@)
    }

    /// A repository over the tasks read from the store's file (none when the file is
    /// missing).
    pub fn new(store: S, tasks: Vec<Task>) -> (r: Self)
        ensures
            r.tasks_spec() == tasks_view(tasks@),
            r.store_spec() == store,
    {
        JsonTaskRepository { store, tasks }
    }

    /// The store the tasks are written to.
    pub closed spec fn store_spec(&self) -> S {
        self.store
    }

    /// The store the tasks are written to.
    pub fn store(&self) -> (r: &S)
        ensures
            *r == self.store_spec(),
    {
        &self.store
    }

    fn save(&mut self) -> (r: Result<(), AppError>)
        ensures
            final(self).tasks_spec() == old(self).tasks_spec(),
    {
        self.store.save(&self.tasks)
    }
}

impl<S: TaskStore> TaskRepository for JsonTaskRepository<S> {
    open spec fn add_outcome(&self, after: &Self, title: Seq<char>, r: Result<Task, AppError>) -> bool {
        &&& next_id_spec(self.tasks_spec()) > i64::MAX ==> after.tasks_spec() == self.tasks_spec()
            && (r matches Err(e) && e@ == ErrorView::Domain("task id space is exhausted"@))
        &&& next_id_spec(self.tasks_spec()) <= i64::MAX ==> {
            let t = TaskView {
                id: next_id_spec(self.tasks_spec()) as i64,
                project_id: None,
                title: title,
                done: false,
                priority: 3,
            };
            &&& after.tasks_spec() == self.tasks_spec().push(t)
            &&& r matches Ok(task) ==> task@ == t
        }
    }

    /// Appends an open task with the next id (one more than the largest) and saves the
    /// list; the task stays in the list when saving fails, and the store's error is the
    /// result. No task is added when the next id would not fit in an `i64`.
    fn add(&mut self, title: String) -> (r: Result<Task, AppError>) {
        let id = match next_id(&self.tasks) {
            Some(id) => id,
            None => return Err(AppError::Domain(to_owned_string("task id space is exhausted"))),
        };
        let task = Task::new(id, title);
        let ghost before = self.tasks@;
        self.tasks.push(task.copied());
        proof {
            assert(tasks_view(self.tasks@) =~= tasks_view(before).push(task@));
        }
        match self.save() {
            Ok(()) => Ok(task),
            Err(e) => Err(e),
        }
    }

    open spec fn find_all_outcome(&self, after: &Self, r: Result<Vec<Task>, AppError>) -> bool {
        &&& after.tasks_spec() == self.tasks_spec()
        &&& r matches Ok(v) && tasks_view(v@) == self.tasks_spec()
    }

    /// All tasks, in list order.
    fn find_all(&mut self) -> (r: Result<Vec<Task>, AppError>) {
        Ok(duplicate_all(&self.tasks))
    }

    open spec fn mark_done_outcome(&self, after: &Self, id: i64, r: Result<(), AppError>) -> bool {
        &&& no_task_with_id(self.tasks_spec(), id) ==> (r matches Err(e) && e@ == ErrorView::NotFound(id))
            && after.tasks_spec() == self.tasks_spec()
        &&& forall|i: int| first_with_id(self.tasks_spec(), id, i) ==>
            after.tasks_spec() == self.tasks_spec().update(i, TaskView { done: true, ..self.tasks_spec()[i] })
    }

    /// Marks the first task with the id done and saves the list; `NotFound` when no
    /// task has the id.
    fn mark_done(&mut self, id: i64) -> (r: Result<(), AppError>) {
        let i = match position_of(&self.tasks, id) {
            Some(i) => i,
            None => return Err(AppError::NotFound(id)),
        };
        let mut t = self.tasks[i].copied();
        t.done = true;
        let ghost before = self.tasks@;
        self.tasks.set(i, t);
        proof {
            assert(tasks_view(self.tasks@) =~= tasks_view(before).update(i as int, TaskView { done: true, ..tasks_view(before)[i as int] }));
            assert forall|k: int| first_with_id(tasks_view(before), id, k) implies k == i by {
                if k < i {
                    assert(tasks_view(before)[k].id != id);
                } else if k > i {
                    assert(tasks_view(before)[i as int].id != id);
                }
            }
        }
        self.save()
    }

    open spec fn delete_outcome(&self, after: &Self, id: i64, r: Result<Task, AppError>) -> bool {
        &&& no_task_with_id(self.tasks_spec(), id) ==> (r matches Err(e) && e@ == ErrorView::NotFound(id))
            && after.tasks_spec() == self.tasks_spec()
        &&& forall|i: int| first_with_id(self.tasks_spec(), id, i) ==> {
            &&& after.tasks_spec() == self.tasks_spec().remove(i)
            &&& r matches Ok(t) ==> t@ == self.tasks_spec()[i]
        }
    }

    /// Removes the first task with the id, saves the list, and gives the task back;
    /// `NotFound` when no task has the id. The task stays removed when saving fails.
    fn delete(&mut self, id: i64) -> (r: Result<Task, AppError>) {
        let i = match position_of(&self.tasks, id) {
            Some(i) => i,
            None => return Err(AppError::NotFound(id)),
        };
        let ghost before = self.tasks@;
        let task = self.tasks.remove(i);
        proof {
            assert(tasks_view(self.tasks@) =~= tasks_view(before).remove(i as int));
            assert forall|k: int| first_with_id(tasks_view(before), id, k) implies k == i by {
                if k < i {
                    assert(tasks_view(before)[k].id != id);
                } else if k > i {
                    assert(tasks_view(before)[i as int].id != id);
                }
            }
        }
        match self.save() {
            Ok(()) => Ok(task),
            Err(e) => Err(e),
        }
    }

    open spec fn search_outcome(&self, after: &Self, keyword: Seq<char>, r: Result<Vec<Task>, AppError>) -> bool {
        &&& after.tasks_spec() == self.tasks_spec()
        &&& r matches Ok(v) && tasks_view(v@) == search_spec(self.tasks_spec(), keyword)
    }

    /// The tasks whose title contains the keyword, ignoring case, in list order.
    fn search(&mut self, keyword: &str) -> (r: Result<Vec<Task>, AppError>) {
        let ghost ts = tasks_view(self.tasks@);
        let key = to_lowercase(keyword);
        let mut out: Vec<Task> = Vec::new();
        let mut i: usize = 0;
        while i < self.tasks.len()
            invariant
                i <= self.tasks@.len(),
                ts == tasks_view(self.tasks@),
                key@ == lowercase(keyword@),
                tasks_view(out@) == search_spec(ts.take(i as int), keyword@),
            decreases self.tasks@.len() - i,
        {
            proof {
                assert(ts.take(i + 1).drop_last() =~= ts.take(i as int));
            }
            let title = to_lowercase(self.tasks[i].title.as_str());
            if contains_str(title.as_str(), key.as_str()) {
                let ghost before = out@;
                out.push(self.tasks[i].copied());
                proof {
                    assert(tasks_view(out@) =~= tasks_view(before).push(ts[i as int]));
                }
            }
            i = i + 1;
        }
        proof {
            assert(ts.take(i as int) =~= ts);
        }
        Ok(out)
    }

    open spec fn stats_outcome(&self, after: &Self, r: Result<TaskStats, AppError>) -> bool {
        &&& after.tasks_spec() == self.tasks_spec()
        &&& r matches Ok(s) && s.total == self.tasks_spec().len() && s.done == done_count(self.tasks_spec())
            && s.todo == s.total - s.done
    }

    /// The numbers of all, finished and open tasks.
    fn stats(&mut self) -> (r: Result<TaskStats, AppError>) {
        let ghost ts = tasks_view(self.tasks@);
        let mut done: usize = 0;
        let mut i: usize = 0;
        while i < self.tasks.len()
            invariant
                i <= self.tasks@.len(),
                ts == tasks_view(self.tasks@),
                done == done_count(ts.take(i as int)),
                done <= i,
            decreases self.tasks@.len() - i,
        {
            proof {
                assert(ts.take(i + 1).drop_last() =~= ts.take(i as int));
            }
            if self.tasks[i].done {
                done = done + 1;
            }
            i = i + 1;
        }
        proof {
            assert(ts.take(i as int) =~= ts);
        }
        Ok(TaskStats::new(self.tasks.len(), done))
    }

    open spec fn execute_sql_outcome(&self, after: &Self, sql: Seq<char>, r: Result<Vec<SqlResult>, AppError>) -> bool {
        &&& after.tasks_spec() == self.tasks_spec()
        &&& r matches Err(e) && e@ == ErrorView::Unsupported("SQL command is only supported by GlueSqlTaskRepository"@)
    }

    /// SQL is refused: the JSON list has no SQL engine.
    fn execute_sql(&mut self, sql: String) -> (r: Result<Vec<SqlResult>, AppError>) {
        Err(AppError::Unsupported(to_owned_string("SQL command is only supported by GlueSqlTaskRepository")))
    }
}

} // verus!
