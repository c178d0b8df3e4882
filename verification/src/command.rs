//! The commands of the command line interface.
use vstd::prelude::*;

verus! {

/// A command given on the command line.
#[derive(Debug, PartialEq, Eq)]
pub enum Command {
    Analyze { sql: String, plan: bool, runtime: bool, raw_plan: bool, format: AnalyzeFormat },
    LabList,
    LabRun { scenario: String },
    LabSeed { profile: String },
    Add { title: String },
    List,
    Done { id: i64 },
    Delete { id: i64 },
    Search { keyword: String },
    Stats,
    ProjectAdd { name: String },
    ProjectList,
    ProjectShow { id: i64 },
    ProjectDelete { id: i64 },
    ProjectStats { id: Option<i64> },
    TaskAdd { project_id: Option<i64>, priority: i64, title: String, tags: Vec<String> },
    TaskList { project_id: Option<i64>, tag: Option<String> },
    TaskShow { id: i64 },
    TaskDone { id: i64 },
    TaskDelete { id: i64 },
    TaskSearch { keyword: String },
    TaskTag { id: i64, tag: String },
    TaskUntag { id: i64, tag: String },
    TaskTags { id: i64 },
    TagAdd { name: String },
    TagList,
    TagDelete { id: i64 },
    Seed,
    Sql { sql: String },
    Repl,
    Help,
}

/// How a query analysis is printed.
#[derive(Clone, Copy, Debug, PartialEq, Eq)]
pub enum AnalyzeFormat {
    Tree,
    Json,
}

/// The mathematical value of a `Command`.
pub enum CommandView {
    Analyze { sql: Seq<char>, plan: bool, runtime: bool, raw_plan: bool, format: AnalyzeFormat },
    LabList,
    LabRun { scenario: Seq<char> },
    LabSeed { profile: Seq<char> },
    Add { title: Seq<char> },
    List,
    Done { id: i64 },
    Delete { id: i64 },
    Search { keyword: Seq<char> },
    Stats,
    ProjectAdd { name: Seq<char> },
    ProjectList,
    ProjectShow { id: i64 },
    ProjectDelete { id: i64 },
    ProjectStats { id: Option<i64> },
    TaskAdd { project_id: Option<i64>, priority: i64, title: Seq<char>, tags: Seq<Seq<char>> },
    TaskList { project_id: Option<i64>, tag: Option<Seq<char>> },
    TaskShow { id: i64 },
    TaskDone { id: i64 },
    TaskDelete { id: i64 },
    TaskSearch { keyword: Seq<char> },
    TaskTag { id: i64, tag: Seq<char> },
    TaskUntag { id: i64, tag: Seq<char> },
    TaskTags { id: i64 },
    TagAdd { name: Seq<char> },
    TagList,
    TagDelete { id: i64 },
    Seed,
    Sql { sql: Seq<char> },
    Repl,
    Help,
}

/// The views of a sequence of strings.
pub open spec fn strings_view(v: Seq<String>) -> Seq<Seq<char>> {
    v.map_values(|s: String| s@)
}

/// The view of an optional string.
pub open spec fn opt_string_view(o: Option<String>) -> Option<Seq<char>> {
    match o {
        Some(s) => Some(s@),
        None => None,
    }
}

impl View for Command {
    type V = CommandView;

    open spec fn view(&self) -> CommandView {
        match self {
            Command::Analyze { sql, plan, runtime, raw_plan, format } => CommandView::Analyze {
                sql: sql@,
                plan: *plan,
                runtime: *runtime,
                raw_plan: *raw_plan,
                format: *format,
            },
            Command::LabList => CommandView::LabList,
            Command::LabRun { scenario } => CommandView::LabRun { scenario: scenario@ },
            Command::LabSeed { profile } => CommandView::LabSeed { profile: profile@ },
            Command::Add { title } => CommandView::Add { title: title@ },
            Command::List => CommandView::List,
            Command::Done { id } => CommandView::Done { id: *id },
            Command::Delete { id } => CommandView::Delete { id: *id },
            Command::Search { keyword } => CommandView::Search { keyword: keyword@ },
            Command::Stats => CommandView::Stats,
            Command::ProjectAdd { name } => CommandView::ProjectAdd { name: name@ },
            Command::ProjectList => CommandView::ProjectList,
            Command::ProjectShow { id } => CommandView::ProjectShow { id: *id },
            Command::ProjectDelete { id } => CommandView::ProjectDelete { id: *id },
            Command::ProjectStats { id } => CommandView::ProjectStats { id: *id },
            Command::TaskAdd { project_id, priority, title, tags } => CommandView::TaskAdd {
                project_id: *project_id,
                priority: *priority,
                title: title@,
                tags: strings_view(tags@),
            },
            Command::TaskList { project_id, tag } => CommandView::TaskList {
                project_id: *project_id,
                tag: opt_string_view(*tag),
            },
            Command::TaskShow { id } => CommandView::TaskShow { id: *id },
            Command::TaskDone { id } => CommandView::TaskDone { id: *id },
            Command::TaskDelete { id } => CommandView::TaskDelete { id: *id },
            Command::TaskSearch { keyword } => CommandView::TaskSearch { keyword: keyword@ },
            Command::TaskTag { id, tag } => CommandView::TaskTag { id: *id, tag: tag@ },
            Command::TaskUntag { id, tag } => CommandView::TaskUntag { id: *id, tag: tag@ },
            Command::TaskTags { id } => CommandView::TaskTags { id: *id },
            Command::TagAdd { name } => CommandView::TagAdd { name: name@ },
            Command::TagList => CommandView::TagList,
            Command::TagDelete { id } => CommandView::TagDelete { id: *id },
            Command::Seed => CommandView::Seed,
            Command::Sql { sql } => CommandView::Sql { sql: sql@ },
            Command::Repl => CommandView::Repl,
            Command::Help => CommandView::Help,
        }
    }
}

impl Command {
    /// Whether this is the `Help` command.
    pub fn is_help(&self) -> (r: bool)
        ensures
            r == (self@ is Help),
    {
        match self {
            Command::Help => true,
            _ => false,
        }
    }
}

} // verus!
