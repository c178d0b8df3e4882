//! Projects and their completion statistics.
use vstd::prelude::*;

verus! {

/// A project that groups tasks.
#[derive(Clone, Debug, PartialEq, Eq)]
pub struct Project {
    pub id: i64,
    pub name: String,
}

/// The mathematical value of a `Project`.
pub struct ProjectView {
    pub id: i64,
    pub name: Seq<char>,
}

impl View for Project {
    type V = ProjectView;

    open spec fn view(&self) -> ProjectView {
        ProjectView { id: self.id, name: self.name@ }
    }
}

/// Task counts of one project. The completion rate in percent is `done * 100 / total`
/// (0 for a project without tasks).
#[derive(Clone, Debug, PartialEq, Eq)]
pub struct ProjectStats {
    pub project: Project,
    pub total: usize,
    pub done: usize,
    pub todo: usize,
}

impl ProjectStats {
    /// Statistics of a project with `total` tasks of which `done` are finished.
    pub fn new(project: Project, total: usize, done: usize) -> (s: Self)
        requires
            done <= total,
        ensures
            s.project == project,
            s.total == total,
            s.done == done,
            s.todo == total - done,
    {
        ProjectStats { project, total, done, todo: total - done }
    }
}

} // verus!
