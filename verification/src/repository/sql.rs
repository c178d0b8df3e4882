//! Values exchanged with the SQL engine, and what the repository makes of them:
//! SQL literals, result rows read back into tasks, projects and tags, and the
//! decisions taken on counts and sequences.
use vstd::prelude::*;
use crate::command::strings_view;
use crate::error::{AppError, ErrorView};
use crate::project::{Project, ProjectStats};
use crate::query_lab::plan::join_with;
use crate::tag::Tag;
use crate::task::Task;
use crate::text::{
    chars_of, concat2, decimal, i64_to_decimal, lowercase, nat_digits, push_char, push_str,
    to_lowercase, to_owned_string, trim, trim_spec, u64_to_decimal,
};

verus! {

/// A value of a result row.
pub enum CellValue {
    Bool(bool),
    I64(i64),
    Str(String),
    Null,
    /// Any other integer or a floating-point number, with its decimal text.
    Number(String),
    /// Any other value.
    Other,
}

/// A value of a result row together with its `Debug` text.
pub struct Cell {
    pub value: CellValue,
    pub debug: String,
}

/// The outcome of one executed statement.
pub enum Reply {
    Select { labels: Vec<String>, rows: Vec<Vec<Cell>> },
    Insert(usize),
    Update(usize),
    Delete(usize),
    Create,
    DropTable(usize),
    /// Any other outcome, with its `Debug` text.
    Other(String),
}

/// What a batch of SQL statements gave back: the outcome of each statement, or the
/// engine's error.
pub type Replies = Result<Vec<Reply>, AppError>;

/// The result of a SQL command as shown to the user.
#[derive(Clone, Debug, PartialEq, Eq)]
pub enum SqlResult {
    Select { labels: Vec<String>, rows: Vec<Vec<String>> },
    Affected { kind: String, count: usize },
    Message(String),
}

/// The text of a value as a SQL result shows it.
pub open spec fn value_text(c: Cell) -> Seq<char> {
    match c.value {
        CellValue::Bool(b) => if b {
            "true"@
        } else {
            "false"@
        },
        CellValue::I64(n) => decimal(n as int),
        CellValue::Str(s) => s@,
        CellValue::Null => "NULL"@,
        CellValue::Number(t) => t@,
        CellValue::Other => c.debug@,
    }
}

/// The text of a value as a SQL result shows it.
pub fn value_to_string(c: Cell) -> (s: String)
    ensures
        s@ == value_text(c),
{
    match c.value {
        CellValue::Bool(b) => if b {
            to_owned_string("true")
        } else {
            to_owned_string("false")
        },
        CellValue::I64(n) => i64_to_decimal(n),
        CellValue::Str(s) => s,
        CellValue::Null => to_owned_string("NULL"),
        CellValue::Number(t) => t,
        CellValue::Other => c.debug,
    }
}

/// The texts of the values of a row.
pub open spec fn row_text(row: Seq<Cell>) -> Seq<Seq<char>> {
    row.map_values(|c: Cell| value_text(c))
}

fn row_to_strings(row: Vec<Cell>) -> (r: Vec<String>)
    ensures
        strings_view(r@) == row_text(row@),
{
    let ghost orig = row@;
    let mut row = row;
    let mut out: Vec<String> = Vec::new();
    let mut i: usize = 0;
    let n = row.len();
    while row.len() > 0
        invariant
            row@.len() + i == n,
            n == orig.len(),
            row@ == orig.subrange(i as int, n as int),
            strings_view(out@) == row_text(orig.take(i as int)),
        decreases row@.len(),
    {
        let c = row.remove(0);
        let ghost before = strings_view(out@);
        out.push(value_to_string(c));
        assert(strings_view(out@) =~= before.push(value_text(orig[i as int])));
        assert(row_text(orig.take(i + 1)) =~= row_text(orig.take(i as int)).push(
            value_text(orig[i as int]),
        ));
        i = i + 1;
        assert(row@ =~= orig.subrange(i as int, n as int));
    }
    assert(orig.take(n as int) =~= orig);
    out
}

/// The rows of a select result as texts.
pub open spec fn rows_text(rows: Seq<Vec<Cell>>) -> Seq<Seq<Seq<char>>> {
    rows.map_values(|r: Vec<Cell>| row_text(r@))
}

/// The view of a SQL result.
pub enum SqlResultView {
    Select { labels: Seq<Seq<char>>, rows: Seq<Seq<Seq<char>>> },
    Affected { kind: Seq<char>, count: usize },
    Message(Seq<char>),
}

impl View for SqlResult {
    type V = SqlResultView;

    open spec fn view(&self) -> SqlResultView {
        match self {
            SqlResult::Select { labels, rows } => SqlResultView::Select {
                labels: strings_view(labels@),
                rows: rows@.map_values(|r: Vec<String>| strings_view(r@)),
            },
            SqlResult::Affected { kind, count } => SqlResultView::Affected {
                kind: kind@,
                count: *count,
            },
            SqlResult::Message(m) => SqlResultView::Message(m@),
        }
    }
}

/// How an outcome of a statement is shown as a SQL result.
pub open spec fn reply_result(r: Reply) -> SqlResultView {
    match r {
        Reply::Select { labels, rows } => SqlResultView::Select {
            labels: strings_view(labels@),
            rows: rows_text(rows@),
        },
        Reply::Insert(n) => SqlResultView::Affected { kind: "insert"@, count: n },
        Reply::Update(n) => SqlResultView::Affected { kind: "update"@, count: n },
        Reply::Delete(n) => SqlResultView::Affected { kind: "delete"@, count: n },
        Reply::Create => SqlResultView::Message("create ok"@),
        Reply::DropTable(n) => SqlResultView::Affected { kind: "drop table"@, count: n },
        Reply::Other(t) => SqlResultView::Message(t@),
    }
}

/// Shows the outcome of a statement as a SQL result.
pub fn payload_to_sql_result(r: Reply) -> (s: SqlResult)
    ensures
        s@ == reply_result(r),
{
    match r {
        Reply::Select { labels, rows } => {
            let ghost orig = rows@;
            let mut rows = rows;
            let mut out: Vec<Vec<String>> = Vec::new();
            let n = rows.len();
            let mut i: usize = 0;
            while rows.len() > 0
                invariant
                    rows@.len() + i == n,
                    n == orig.len(),
                    rows@ == orig.subrange(i as int, n as int),
                    out@.map_values(|r: Vec<String>| strings_view(r@)) == rows_text(
                        orig.take(i as int),
                    ),
                decreases rows@.len(),
            {
                let row = rows.remove(0);
                let ghost before = out@;
                let strings = row_to_strings(row);
                out.push(strings);
                assert(out@.map_values(|r: Vec<String>| strings_view(r@)) =~= before.map_values(
                    |r: Vec<String>| strings_view(r@),
                ).push(row_text(orig[i as int]@)));
                assert(rows_text(orig.take(i + 1)) =~= rows_text(orig.take(i as int)).push(
                    row_text(orig[i as int]@),
                ));
                i = i + 1;
                assert(rows@ =~= orig.subrange(i as int, n as int));
            }
            assert(orig.take(n as int) =~= orig);
            SqlResult::Select { labels, rows: out }
        },
        Reply::Insert(n) => SqlResult::Affected { kind: to_owned_string("insert"), count: n },
        Reply::Update(n) => SqlResult::Affected { kind: to_owned_string("update"), count: n },
        Reply::Delete(n) => SqlResult::Affected { kind: to_owned_string("delete"), count: n },
        Reply::Create => SqlResult::Message(to_owned_string("create ok")),
        Reply::DropTable(n) => SqlResult::Affected { kind: to_owned_string("drop table"), count: n },
        Reply::Other(t) => SqlResult::Message(t),
    }
}

/// The `Debug` text of a row: its values' texts in brackets.
pub open spec fn row_debug(row: Seq<Cell>) -> Seq<char> {
    "["@ + join_with(row.map_values(|c: Cell| c.debug@), ", "@) + "]"@
}

/// The `Debug` text of an optional value.
pub open spec fn opt_debug(o: Option<Cell>) -> Seq<char> {
    match o {
        Some(c) => "Some("@ + c.debug@ + ")"@,
        None => "None"@,
    }
}

fn row_debug_string(row: &Vec<Cell>) -> (s: String)
    ensures
        s@ == row_debug(row@),
{
    let ghost items = row@.map_values(|c: Cell| c.debug@);
    let mut s = to_owned_string("[");
    let mut i: usize = 0;
    assert(items.take(0) =~= Seq::<Seq<char>>::empty());
    while i < row.len()
        invariant
            i <= row@.len(),
            items == row@.map_values(|c: Cell| c.debug@),
            s@ == "["@ + join_with(items.take(i as int), ", "@),
        decreases row@.len() - i,
    {
        assert(items.take(i + 1).drop_last() =~= items.take(i as int));
        if i > 0 {
            push_str(&mut s, ", ");
        }
        push_str(&mut s, row[i].debug.as_str());
        i = i + 1;
    }
    assert(items.take(i as int) =~= items);
    push_str(&mut s, "]");
    s
}

fn opt_debug_string(o: Option<&Cell>) -> (s: String)
    ensures
        s@ == opt_debug(match o {
            Some(c) => Some(*c),
            None => None,
        }),
{
    match o {
        Some(c) => {
            let mut s = concat2("Some(", c.debug.as_str());
            push_str(&mut s, ")");
            s
        },
        None => to_owned_string("None"),
    }
}

/// An engine error.
pub open spec fn engine_error(message: Seq<char>) -> ErrorView {
    ErrorView::GlueSql(message)
}

/// The task read from a result row `[id, project_id, title, done, priority]`.
pub open spec fn task_from_row(row: Seq<Cell>) -> Result<crate::task::TaskView, ErrorView> {
    if row.len() == 5 && row[0].value is I64 && row[2].value is Str && row[3].value is Bool
        && row[4].value is I64 {
        let project = row[1];
        match project.value {
            CellValue::I64(p) => Ok(
                crate::task::TaskView {
                    id: row[0].value->I64_0,
                    project_id: Some(p),
                    title: row[2].value->Str_0@,
                    done: row[3].value->Bool_0,
                    priority: row[4].value->I64_0,
                },
            ),
            CellValue::Null => Ok(
                crate::task::TaskView {
                    id: row[0].value->I64_0,
                    project_id: None,
                    title: row[2].value->Str_0@,
                    done: row[3].value->Bool_0,
                    priority: row[4].value->I64_0,
                },
            ),
            _ => Err(engine_error("expected project id, got "@ + project.debug@)),
        }
    } else {
        Err(
            engine_error(
                "expected task row [I64, I64/Null, Str, Bool, I64], got "@ + row_debug(row),
            ),
        )
    }
}

/// Reads a task from a result row.
pub fn row_to_task(row: Vec<Cell>) -> (r: Result<Task, AppError>)
    ensures
        match r {
            Ok(t) => task_from_row(row@) == Ok::<crate::task::TaskView, ErrorView>(t@),
            Err(e) => task_from_row(row@) == Err::<crate::task::TaskView, ErrorView>(e@),
        },
{
    if row.len() == 5 {
        let ok = match (&row[0].value, &row[2].value, &row[3].value, &row[4].value) {
            (CellValue::I64(_), CellValue::Str(_), CellValue::Bool(_), CellValue::I64(_)) => true,
            _ => false,
        };
        if ok {
            let ghost orig = row@;
            let mut row = row;
            let priority = match row[4].value {
                CellValue::I64(p) => p,
                _ => 0,
            };
            let done = match row[3].value {
                CellValue::Bool(b) => b,
                _ => false,
            };
            let id = match row[0].value {
                CellValue::I64(n) => n,
                _ => 0,
            };
            let project_id = match &row[1].value {
                CellValue::I64(p) => Some(*p),
                CellValue::Null => None,
                _ => {
                    return Err(
                        AppError::GlueSql(
                            concat2("expected project id, got ", row[1].debug.as_str()),
                        ),
                    );
                },
            };
            let title_cell = row.remove(2);
            assert(title_cell == orig[2]);
            let title = match title_cell.value {
                CellValue::Str(s) => s,
                _ => String::new(),
            };
            return Ok(Task { id, project_id, title, done, priority });
        }
    }
    let d = row_debug_string(&row);
    Err(AppError::GlueSql(concat2("expected task row [I64, I64/Null, Str, Bool, I64], got ", d.as_str())))
}

/// The rows of the last outcome of a batch, which must be a select result.
pub open spec fn rows_of(r: Replies) -> Result<Seq<Vec<Cell>>, ErrorView> {
    match r {
        Err(e) => Err(e@),
        Ok(v) => if v@.len() > 0 && v@.last() is Select {
            Ok(v@.last()->rows@)
        } else {
            Err(engine_error("expected SELECT result"@))
        },
    }
}

/// The rows of the last outcome of a batch.
pub fn select_rows_of(r: Replies) -> (rows: Result<Vec<Vec<Cell>>, AppError>)
    ensures
        match rows {
            Ok(v) => rows_of(r) == Ok::<Seq<Vec<Cell>>, ErrorView>(v@),
            Err(e) => rows_of(r) == Err::<Seq<Vec<Cell>>, ErrorView>(e@),
        },
{
    match r {
        Err(e) => Err(e),
        Ok(v) => {
            let mut v = v;
            match v.pop() {
                Some(Reply::Select { rows, .. }) => Ok(rows),
                _ => Err(AppError::GlueSql(to_owned_string("expected SELECT result"))),
            }
        },
    }
}

/// Reads every row as a task; the first row that is no task gives its error.
pub open spec fn tasks_from_rows(rows: Seq<Vec<Cell>>) -> Result<Seq<crate::task::TaskView>, ErrorView>
    decreases rows.len(),
{
    if rows.len() == 0 {
        Ok(Seq::empty())
    } else {
        match task_from_row(rows[0]@) {
            Err(e) => Err(e),
            Ok(t) => match tasks_from_rows(rows.drop_first()) {
                Ok(ts) => Ok(seq![t] + ts),
                Err(e) => Err(e),
            },
        }
    }
}

/// The tasks of the last outcome of a batch.
pub open spec fn tasks_of(r: Replies) -> Result<Seq<crate::task::TaskView>, ErrorView> {
    match rows_of(r) {
        Ok(rows) => tasks_from_rows(rows),
        Err(e) => Err(e),
    }
}

/// The views of a sequence of tasks.
pub open spec fn tasks_view(v: Seq<Task>) -> Seq<crate::task::TaskView> {
    v.map_values(|t: Task| t@)
}

/// Reads every row as a task.
pub fn rows_to_tasks(rows: Vec<Vec<Cell>>) -> (r: Result<Vec<Task>, AppError>)
    ensures
        match r {
            Ok(ts) => tasks_from_rows(rows@) == Ok::<Seq<crate::task::TaskView>, ErrorView>(tasks_view(ts@)),
            Err(e) => tasks_from_rows(rows@) == Err::<Seq<crate::task::TaskView>, ErrorView>(e@),
        },
{
    let ghost orig = rows@;
    let n = rows.len();
    let mut rest = rows;
    let mut out: Vec<Task> = Vec::new();
    let mut i: usize = 0;
    while rest.len() > 0
        invariant
            rest@.len() + i == n,
            n == orig.len(),
            orig == rows@,
            rest@ == orig.subrange(i as int, n as int),
            out@.len() == i,
            tasks_from_rows(orig) == (match tasks_from_rows(orig.subrange(i as int, n as int)) {
                Ok(ts) => Ok(tasks_view(out@) + ts),
                Err(e) => Err(e),
            }),
        decreases rest@.len(),
    {
        let row = rest.remove(0);
        assert(orig.subrange(i as int, n as int).drop_first() =~= orig.subrange(i + 1, n as int));
        assert(orig.subrange(i as int, n as int)[0] == row);
        match row_to_task(row) {
            Ok(t) => {
                let ghost before = tasks_view(out@);
                out.push(t);
                assert(tasks_view(out@) =~= before.push(t@));
                assert forall|ts: Seq<crate::task::TaskView>| true implies before + (seq![t@] + ts) =~= before.push(t@) + ts by {}
            },
            Err(e) => {
                assert(tasks_from_rows(orig.subrange(i as int, n as int)) == Err::<
                    Seq<crate::task::TaskView>,
                    ErrorView,
                >(e@));
                assert(tasks_from_rows(orig) == Err::<Seq<crate::task::TaskView>, ErrorView>(e@));
                assert(orig == rows@);
                return Err(e);
            },
        }
        i = i + 1;
        assert(rest@ =~= orig.subrange(i as int, n as int));
    }
    assert(orig.subrange(n as int, n as int) =~= Seq::<Vec<Cell>>::empty());
    assert(tasks_view(out@) + Seq::<crate::task::TaskView>::empty() =~= tasks_view(out@));
    Ok(out)
}

/// Reads the tasks of the last outcome of a batch.
pub fn replies_to_tasks(r: Replies) -> (ts: Result<Vec<Task>, AppError>)
    ensures
        match ts {
            Ok(v) => tasks_of(r) == Ok::<Seq<crate::task::TaskView>, ErrorView>(tasks_view(v@)),
            Err(e) => tasks_of(r) == Err::<Seq<crate::task::TaskView>, ErrorView>(e@),
        },
{
    match select_rows_of(r) {
        Ok(rows) => rows_to_tasks(rows),
        Err(e) => Err(e),
    }
}


/// The project read from a result row `[id, name]`.
pub open spec fn project_from_row(row: Seq<Cell>) -> Result<crate::project::ProjectView, ErrorView> {
    if row.len() == 2 && row[0].value is I64 && row[1].value is Str {
        Ok(crate::project::ProjectView { id: row[0].value->I64_0, name: row[1].value->Str_0@ })
    } else {
        Err(engine_error("invalid project row: "@ + row_debug(row)))
    }
}

/// Reads a project from a result row.
pub fn row_to_project(row: &Vec<Cell>) -> (r: Result<Project, AppError>)
    ensures
        match r {
            Ok(p) => project_from_row(row@) == Ok::<crate::project::ProjectView, ErrorView>(p@),
            Err(e) => project_from_row(row@) == Err::<crate::project::ProjectView, ErrorView>(e@),
        },
{
    if row.len() == 2 {
        if let (CellValue::I64(id), CellValue::Str(name)) = (&row[0].value, &row[1].value) {
            return Ok(Project { id: *id, name: name.clone() });
        }
    }
    let d = row_debug_string(row);
    Err(AppError::GlueSql(concat2("invalid project row: ", d.as_str())))
}

/// The tag read from a result row `[id, name]`.
pub open spec fn tag_from_row(row: Seq<Cell>) -> Result<crate::tag::TagView, ErrorView> {
    if row.len() == 2 && row[0].value is I64 && row[1].value is Str {
        Ok(crate::tag::TagView { id: row[0].value->I64_0, name: row[1].value->Str_0@ })
    } else {
        Err(engine_error("invalid tag row: "@ + row_debug(row)))
    }
}

/// Reads a tag from a result row.
pub fn row_to_tag(row: &Vec<Cell>) -> (r: Result<Tag, AppError>)
    ensures
        match r {
            Ok(t) => tag_from_row(row@) == Ok::<crate::tag::TagView, ErrorView>(t@),
            Err(e) => tag_from_row(row@) == Err::<crate::tag::TagView, ErrorView>(e@),
        },
{
    if row.len() == 2 {
        if let (CellValue::I64(id), CellValue::Str(name)) = (&row[0].value, &row[1].value) {
            return Ok(Tag { id: *id, name: name.clone() });
        }
    }
    let d = row_debug_string(row);
    Err(AppError::GlueSql(concat2("invalid tag row: ", d.as_str())))
}

/// The statistics read from a result row `[id, name, total, done]`.
pub open spec fn project_stats_from_row(row: Seq<Cell>) -> Result<(crate::project::ProjectView, usize, usize), ErrorView> {
    if row.len() == 4 && row[0].value is I64 && row[1].value is Str && row[2].value is I64
        && row[3].value is I64 {
        if (row[3].value->I64_0 as usize) <= (row[2].value->I64_0 as usize) {
            Ok(
                (
                    crate::project::ProjectView { id: row[0].value->I64_0, name: row[1].value->Str_0@ },
                    row[2].value->I64_0 as usize,
                    row[3].value->I64_0 as usize,
                ),
            )
        } else {
            Err(engine_error("finished task count exceeds total"@))
        }
    } else {
        Err(engine_error("invalid project stats row: "@ + row_debug(row)))
    }
}

/// The view of project statistics: the project, total and finished task counts.
pub open spec fn stats_view(s: ProjectStats) -> (crate::project::ProjectView, usize, usize) {
    (s.project@, s.total, s.done)
}

/// Reads project statistics from a result row. A row whose finished count exceeds its
/// total is refused, as such counts describe no project.
pub fn row_to_project_stats(row: &Vec<Cell>) -> (r: Result<ProjectStats, AppError>)
    ensures
        match r {
            Ok(s) => project_stats_from_row(row@) == Ok::<
                (crate::project::ProjectView, usize, usize),
                ErrorView,
            >(stats_view(s)),
            Err(e) => project_stats_from_row(row@) == Err::<
                (crate::project::ProjectView, usize, usize),
                ErrorView,
            >(e@),
        },
        r matches Ok(s) ==> s.todo == s.total - s.done,
{
    if row.len() == 4 {
        if let (CellValue::I64(id), CellValue::Str(name), CellValue::I64(total), CellValue::I64(done)) = (
            &row[0].value,
            &row[1].value,
            &row[2].value,
            &row[3].value,
        ) {
            let total = *total as usize;
            let done = *done as usize;
            if done > total {
                return Err(AppError::GlueSql(to_owned_string("finished task count exceeds total")));
            }
            return Ok(ProjectStats::new(Project { id: *id, name: name.clone() }, total, done));
        }
    }
    let d = row_debug_string(row);
    Err(AppError::GlueSql(concat2("invalid project stats row: ", d.as_str())))
}

/// The count read from the last outcome of a batch: the first value of its first row,
/// or zero without rows.
pub open spec fn count_of(r: Replies) -> Result<usize, ErrorView> {
    match r {
        Err(e) => Err(e@),
        Ok(v) => if v@.len() > 0 && v@.last() is Select {
            let rows = v@.last()->rows@;
            if rows.len() == 0 {
                Ok(0)
            } else if rows[0]@.len() == 0 {
                Err(engine_error("COUNT row was empty"@))
            } else {
                match rows[0]@[0].value {
                    CellValue::I64(n) => Ok(n as usize),
                    _ => Err(
                        engine_error("expected COUNT to return I64, got "@ + rows[0]@[0].debug@),
                    ),
                }
            }
        } else {
            Err(engine_error("expected COUNT result"@))
        },
    }
}

/// Reads the count of the last outcome of a batch.
pub fn replies_to_count(r: Replies) -> (n: Result<usize, AppError>)
    ensures
        match n {
            Ok(c) => count_of(r) == Ok::<usize, ErrorView>(c),
            Err(e) => count_of(r) == Err::<usize, ErrorView>(e@),
        },
{
    match r {
        Err(e) => Err(e),
        Ok(v) => {
            let ghost orig = v@;
            let mut v = v;
            match v.pop() {
                Some(Reply::Select { rows, .. }) => {
                    if rows.len() == 0 {
                        Ok(0)
                    } else if rows[0].len() == 0 {
                        Err(AppError::GlueSql(to_owned_string("COUNT row was empty")))
                    } else {
                        match &rows[0][0].value {
                            CellValue::I64(n) => Ok(*n as usize),
                            _ => Err(
                                AppError::GlueSql(
                                    concat2(
                                        "expected COUNT to return I64, got ",
                                        rows[0][0].debug.as_str(),
                                    ),
                                ),
                            ),
                        }
                    }
                },
                _ => Err(AppError::GlueSql(to_owned_string("expected COUNT result"))),
            }
        },
    }
}

/// The first value of the first row, if any.
pub open spec fn first_cell(rows: Seq<Vec<Cell>>) -> Option<Cell> {
    if rows.len() > 0 && rows[0]@.len() > 0 {
        Some(rows[0]@[0])
    } else {
        None
    }
}

fn first_cell_of(rows: &Vec<Vec<Cell>>) -> (c: Option<&Cell>)
    ensures
        (match c {
            Some(x) => Some(*x),
            None => None,
        }) == first_cell(rows@),
{
    if rows.len() > 0 && rows[0].len() > 0 {
        Some(&rows[0][0])
    } else {
        None
    }
}

/// A stored setting read from its rows: the text in the first row, if there is one.
pub open spec fn metadata_from_rows(rows: Seq<Vec<Cell>>) -> Result<Option<Seq<char>>, ErrorView> {
    match first_cell(rows) {
        Some(c) => match c.value {
            CellValue::Str(s) => Ok(Some(s@)),
            _ => Err(engine_error("invalid metadata value: "@ + opt_debug(Some(c)))),
        },
        None => Ok(None),
    }
}

/// Reads a stored setting from its rows.
pub fn rows_to_metadata(rows: &Vec<Vec<Cell>>) -> (r: Result<Option<String>, AppError>)
    ensures
        match r {
            Ok(o) => metadata_from_rows(rows@) == Ok::<Option<Seq<char>>, ErrorView>(
                crate::command::opt_string_view(o),
            ),
            Err(e) => metadata_from_rows(rows@) == Err::<Option<Seq<char>>, ErrorView>(e@),
        },
{
    match first_cell_of(rows) {
        Some(c) => match &c.value {
            CellValue::Str(s) => Ok(Some(s.clone())),
            _ => {
                let d = opt_debug_string(Some(c));
                Err(AppError::GlueSql(concat2("invalid metadata value: ", d.as_str())))
            },
        },
        None => Ok(None),
    }
}

/// The id to allocate next, from the rows of `SELECT MAX(id)` and of the stored
/// sequence: one more than the largest id in use, or the stored next id when that is
/// larger. Also tells whether a sequence row is stored.
pub open spec fn allocation_from_rows(max_rows: Seq<Vec<Cell>>, seq_rows: Seq<Vec<Cell>>) -> Result<
    (i64, bool),
    ErrorView,
> {
    let max: Result<int, ErrorView> = match first_cell(max_rows) {
        Some(c) => match c.value {
            CellValue::I64(id) => Ok(id as int),
            CellValue::Null => Ok(0),
            _ => Err(engine_error("expected MAX(id), got "@ + opt_debug(Some(c)))),
        },
        None => Ok(0),
    };
    match max {
        Err(e) => Err(e),
        Ok(m) => {
            let stored: Result<Option<int>, ErrorView> = match first_cell(seq_rows) {
                Some(c) => match c.value {
                    CellValue::I64(id) => Ok(Some(id as int)),
                    _ => Err(engine_error("invalid sequence row: "@ + opt_debug(Some(c)))),
                },
                None => Ok(None),
            };
            match stored {
                Err(e) => Err(e),
                Ok(s) => {
                    let id = match s {
                        Some(v) => if v > m + 1 {
                            v
                        } else {
                            m + 1
                        },
                        None => m + 1,
                    };
                    if id + 1 > i64::MAX {
                        Err(engine_error("id sequence is exhausted"@))
                    } else {
                        Ok((id as i64, s is Some))
                    }
                },
            }
        },
    }
}

/// An allocated id is larger than the largest id in use and not smaller than the
/// stored next id. Since an allocation stores the id after it as the next id, an id is
/// never handed out twice, even after the task with the largest id was deleted.
pub proof fn lemma_allocation_fresh(max_rows: Seq<Vec<Cell>>, seq_rows: Seq<Vec<Cell>>, id: i64, stored: bool)
    requires
        allocation_from_rows(max_rows, seq_rows) == Ok::<(i64, bool), ErrorView>((id, stored)),
    ensures
        first_cell(max_rows) matches Some(c) ==> (c.value matches CellValue::I64(m) ==> id > m),
        first_cell(seq_rows) matches Some(c) ==> (c.value matches CellValue::I64(n) ==> id >= n),
        id >= 1 || (first_cell(max_rows) matches Some(c) && c.value is I64),
        stored == (first_cell(seq_rows) is Some),
{
}

/// Decides the id to allocate next from the rows of `SELECT MAX(id)` and of the stored
/// sequence.
pub fn allocation(max_rows: &Vec<Vec<Cell>>, seq_rows: &Vec<Vec<Cell>>) -> (r: Result<
    (i64, bool),
    AppError,
>)
    ensures
        match r {
            Ok(a) => allocation_from_rows(max_rows@, seq_rows@) == Ok::<(i64, bool), ErrorView>(a),
            Err(e) => allocation_from_rows(max_rows@, seq_rows@) == Err::<(i64, bool), ErrorView>(
                e@,
            ),
        },
{
    let max: i64 = match first_cell_of(max_rows) {
        Some(c) => match &c.value {
            CellValue::I64(id) => *id,
            CellValue::Null => 0,
            _ => {
                let d = opt_debug_string(Some(c));
                return Err(AppError::GlueSql(concat2("expected MAX(id), got ", d.as_str())));
            },
        },
        None => 0,
    };
    let max_next: i128 = max as i128 + 1;
    let stored: Option<i64> = match first_cell_of(seq_rows) {
        Some(c) => match &c.value {
            CellValue::I64(id) => Some(*id),
            _ => {
                let d = opt_debug_string(Some(c));
                return Err(AppError::GlueSql(concat2("invalid sequence row: ", d.as_str())));
            },
        },
        None => None,
    };
    let id: i128 = match stored {
        Some(v) => if v as i128 > max_next {
            v as i128
        } else {
            max_next
        },
        None => max_next,
    };
    if id + 1 > i64::MAX as i128 {
        return Err(AppError::GlueSql(to_owned_string("id sequence is exhausted")));
    }
    Ok((id as i64, stored.is_some()))
}

/// The text of a SQL string literal: the value between single quotes, with every
/// single quote doubled.
pub open spec fn quoted_body(s: Seq<char>) -> Seq<char>
    decreases s.len(),
{
    if s.len() == 0 {
        Seq::empty()
    } else {
        quoted_body(s.drop_last()) + (if s.last() == '\'' {
            seq!['\'', '\'']
        } else {
            seq![s.last()]
        })
    }
}

/// The text a SQL string literal's body stands for: each doubled quote is one quote.
pub open spec fn unquoted(t: Seq<char>) -> Seq<char>
    decreases t.len(),
{
    if t.len() == 0 {
        Seq::empty()
    } else if t.len() >= 2 && t.last() == '\'' && t[t.len() - 2] == '\'' {
        unquoted(t.take(t.len() - 2)).push('\'')
    } else {
        unquoted(t.drop_last()).push(t.last())
    }
}

/// Whether every quote of a literal's body is one of a doubled pair, so that the body
/// cannot end the literal early.
pub open spec fn quotes_paired(t: Seq<char>) -> bool
    decreases t.len(),
{
    if t.len() == 0 {
        true
    } else if t.last() == '\'' {
        t.len() >= 2 && t[t.len() - 2] == '\'' && quotes_paired(t.take(t.len() - 2))
    } else {
        quotes_paired(t.drop_last())
    }
}

/// A SQL string literal stands for the text it was made from: its body has every quote
/// doubled, so it cannot end early, and reading each doubled quote as one gives the
/// text back.
pub proof fn lemma_literal_round_trip(s: Seq<char>)
    ensures
        quotes_paired(quoted_body(s)),
        unquoted(quoted_body(s)) == s,
        sql_literal(s) == seq!['\''] + quoted_body(s) + seq!['\''],
    decreases s.len(),
{
    if s.len() > 0 {
        lemma_literal_round_trip(s.drop_last());
        let q = quoted_body(s.drop_last());
        let t = quoted_body(s);
        if s.last() == '\'' {
            assert(t == q + seq!['\'', '\'']);
            assert(t.take(t.len() - 2) =~= q);
        } else {
            assert(t == q + seq![s.last()]);
            assert(t.drop_last() =~= q);
        }
        assert(unquoted(t) =~= s);
    }
}

/// The SQL string literal of a text.
pub open spec fn sql_literal(s: Seq<char>) -> Seq<char> {
    seq!['\''] + quoted_body(s) + seq!['\'']
}

/// The SQL string literal of a text: the text between single quotes, with every single
/// quote doubled.
pub fn sql_string(value: &str) -> (s: String)
    ensures
        s@ == sql_literal(value@),
{
    let cs = chars_of(value);
    let mut s = String::new();
    push_char(&mut s, '\'');
    let mut i: usize = 0;
    while i < cs.len()
        invariant
            i <= cs@.len(),
            s@ == seq!['\''] + quoted_body(cs@.take(i as int)),
        decreases cs@.len() - i,
    {
        assert(cs@.take(i + 1).drop_last() =~= cs@.take(i as int));
        if cs[i] == '\'' {
            push_char(&mut s, '\'');
            push_char(&mut s, '\'');
        } else {
            push_char(&mut s, cs[i]);
        }
        i = i + 1;
    }
    assert(cs@.take(i as int) =~= cs@);
    push_char(&mut s, '\'');
    s
}

/// A required name: the text without surrounding white space, which must not be empty.
pub open spec fn required_name_spec(value: Seq<char>, field: Seq<char>) -> Result<Seq<char>, ErrorView> {
    let t = trim_spec(value);
    if t.len() == 0 {
        Err(ErrorView::Domain(field + " must not be empty"@))
    } else {
        Ok(t)
    }
}

/// Checks a required name and gives it back without surrounding white space.
pub fn required_name(value: String, field: &str) -> (r: Result<String, AppError>)
    ensures
        match r {
            Ok(s) => required_name_spec(value@, field@) == Ok::<Seq<char>, ErrorView>(s@),
            Err(e) => required_name_spec(value@, field@) == Err::<Seq<char>, ErrorView>(e@),
        },
{
    let t = trim(value.as_str());
    if t.as_str().unicode_len() == 0 {
        Err(AppError::Domain(concat2(field, " must not be empty")))
    } else {
        Ok(t)
    }
}

/// The form under which tag names are compared: without surrounding white space and in
/// lower case.
pub open spec fn tag_key(name: Seq<char>) -> Seq<char> {
    lowercase(trim_spec(name))
}

/// Whether two of the tag names fall on the same key.
pub open spec fn has_duplicate_key(names: Seq<Seq<char>>) -> bool {
    exists|i: int, j: int|
        0 <= i < j < names.len() && #[trigger] tag_key(names[i]) == #[trigger] tag_key(names[j])
}

/// Whether two of the tag names are the same once trimmed and lower-cased.
pub fn has_duplicate_tags(names: &Vec<String>) -> (r: bool)
    ensures
        r == has_duplicate_key(strings_view(names@)),
{
    let ghost v = strings_view(names@);
    let mut keys: Vec<String> = Vec::new();
    let mut i: usize = 0;
    while i < names.len()
        invariant
            i <= names@.len(),
            v == strings_view(names@),
            keys@.len() == i,
            forall|k: int| 0 <= k < i ==> #[trigger] keys@[k]@ == tag_key(v[k]),
            forall|a: int, b: int|
                0 <= a < b < i ==> #[trigger] tag_key(v[a]) != #[trigger] tag_key(v[b]),
        decreases names@.len() - i,
    {
        let t = trim(names[i].as_str());
        let key = to_lowercase(t.as_str());
        assert(key@ == tag_key(v[i as int]));
        let mut k: usize = 0;
        while k < keys.len()
            invariant
                k <= keys@.len(),
                keys@.len() == i,
                i < names@.len(),
                v == strings_view(names@),
                key@ == tag_key(v[i as int]),
                forall|x: int| 0 <= x < i ==> #[trigger] keys@[x]@ == tag_key(v[x]),
                forall|x: int| 0 <= x < k ==> tag_key(#[trigger] v[x]) != tag_key(v[i as int]),
            decreases keys@.len() - k,
        {
            if keys[k] == key {
                assert(tag_key(v[k as int]) == tag_key(v[i as int]));
                return true;
            }
            k = k + 1;
        }
        keys.push(key);
        i = i + 1;
    }
    false
}

/// Whether a priority is one of 1 to 5.
pub open spec fn valid_priority(p: i64) -> bool {
    1 <= p <= 5
}

/// A statement with one id in it: `prefix`, the id in decimal, `suffix`.
pub open spec fn with_id_spec(prefix: Seq<char>, id: i64, suffix: Seq<char>) -> Seq<char> {
    prefix + decimal(id as int) + suffix
}

/// Builds `prefix`, the id in decimal, then `suffix`.
pub fn with_id(prefix: &str, id: i64, suffix: &str) -> (s: String)
    ensures
        s@ == with_id_spec(prefix@, id, suffix@),
{
    let mut s = to_owned_string(prefix);
    let d = i64_to_decimal(id);
    push_str(&mut s, d.as_str());
    push_str(&mut s, suffix);
    s
}

/// Appends the decimal text of an id.
pub fn push_id(s: &mut String, id: i64)
    ensures
        final(s)@ == old(s)@ + decimal(id as int),
{
    let d = i64_to_decimal(id);
    push_str(s, d.as_str());
}

/// Appends the SQL literal of a text.
pub fn push_literal(s: &mut String, value: &str)
    ensures
        final(s)@ == old(s)@ + sql_literal(value@),
{
    let l = sql_string(value);
    push_str(s, l.as_str());
}


/// Reads every row with `f`; the first row that `f` refuses gives its error.
pub open spec fn all_rows<T>(rows: Seq<Vec<Cell>>, f: spec_fn(Seq<Cell>) -> Result<T, ErrorView>) -> Result<Seq<T>, ErrorView>
    decreases rows.len(),
{
    if rows.len() == 0 {
        Ok(Seq::empty())
    } else {
        match all_rows(rows.drop_last(), f) {
            Err(e) => Err(e),
            Ok(ts) => match f(rows.last()@) {
                Ok(t) => Ok(ts.push(t)),
                Err(e) => Err(e),
            },
        }
    }
}

/// The projects of result rows.
pub open spec fn projects_from_rows(rows: Seq<Vec<Cell>>) -> Result<Seq<crate::project::ProjectView>, ErrorView> {
    all_rows(rows, |r: Seq<Cell>| project_from_row(r))
}

/// The tags of result rows.
pub open spec fn tags_from_rows(rows: Seq<Vec<Cell>>) -> Result<Seq<crate::tag::TagView>, ErrorView> {
    all_rows(rows, |r: Seq<Cell>| tag_from_row(r))
}

/// The project statistics of result rows.
pub open spec fn project_stats_from_rows(rows: Seq<Vec<Cell>>) -> Result<Seq<(crate::project::ProjectView, usize, usize)>, ErrorView> {
    all_rows(rows, |r: Seq<Cell>| project_stats_from_row(r))
}

proof fn lemma_all_rows_prefix<T>(rows: Seq<Vec<Cell>>, i: int, f: spec_fn(Seq<Cell>) -> Result<T, ErrorView>)
    requires
        0 <= i < rows.len(),
    ensures
        rows.take(i + 1).drop_last() == rows.take(i),
        rows.take(i + 1).last() == rows[i],
{
    assert(rows.take(i + 1).drop_last() =~= rows.take(i));
}

/// Reads every row as a project.
pub fn rows_to_projects(rows: &Vec<Vec<Cell>>) -> (r: Result<Vec<Project>, AppError>)
    ensures
        match r {
            Ok(v) => projects_from_rows(rows@) == Ok::<Seq<crate::project::ProjectView>, ErrorView>(v@.map_values(|p: Project| p@)),
            Err(e) => projects_from_rows(rows@) == Err::<Seq<crate::project::ProjectView>, ErrorView>(e@),
        },
{
    let mut out: Vec<Project> = Vec::new();
    let mut i: usize = 0;
    assert(rows@.take(0) =~= Seq::<Vec<Cell>>::empty());
    assert(out@.map_values(|p: Project| p@) =~= Seq::<crate::project::ProjectView>::empty());
    while i < rows.len()
        invariant
            i <= rows@.len(),
            projects_from_rows(rows@.take(i as int)) == Ok::<Seq<crate::project::ProjectView>, ErrorView>(out@.map_values(|p: Project| p@)),
        decreases rows@.len() - i,
    {
        proof {
            lemma_all_rows_prefix(rows@, i as int, |r: Seq<Cell>| project_from_row(r));
        }
        match row_to_project(&rows[i]) {
            Ok(p) => {
                let ghost before = out@;
                out.push(p);
                assert(out@.map_values(|p: Project| p@) =~= before.map_values(|p: Project| p@).push(p@));
            },
            Err(e) => {
                proof {
                    lemma_all_rows_error(rows@, i as int, |r: Seq<Cell>| project_from_row(r));
                }
                return Err(e);
            },
        }
        i = i + 1;
    }
    assert(rows@.take(i as int) =~= rows@);
    Ok(out)
}

proof fn lemma_all_rows_error<T>(rows: Seq<Vec<Cell>>, i: int, f: spec_fn(Seq<Cell>) -> Result<T, ErrorView>)
    requires
        0 <= i < rows.len(),
        all_rows(rows.take(i), f) is Ok,
        f(rows[i]@) is Err,
    ensures
        all_rows(rows, f) == Err::<Seq<T>, ErrorView>(f(rows[i]@)->Err_0),
    decreases rows.len() - i,
{
    assert(rows.take(i + 1).drop_last() =~= rows.take(i));
    if i + 1 == rows.len() {
        assert(rows.take(i + 1) =~= rows);
    } else {
        lemma_all_rows_error_extend(rows, i + 1, f);
    }
}

proof fn lemma_all_rows_error_extend<T>(rows: Seq<Vec<Cell>>, k: int, f: spec_fn(Seq<Cell>) -> Result<T, ErrorView>)
    requires
        0 < k <= rows.len(),
        all_rows(rows.take(k), f) is Err,
    ensures
        all_rows(rows, f) == all_rows(rows.take(k), f),
    decreases rows.len() - k,
{
    if k < rows.len() {
        assert(rows.take(k + 1).drop_last() =~= rows.take(k));
        lemma_all_rows_error_extend(rows, k + 1, f);
    } else {
        assert(rows.take(k) =~= rows);
    }
}

/// Reads every row as a tag.
pub fn rows_to_tags(rows: &Vec<Vec<Cell>>) -> (r: Result<Vec<Tag>, AppError>)
    ensures
        match r {
            Ok(v) => tags_from_rows(rows@) == Ok::<Seq<crate::tag::TagView>, ErrorView>(v@.map_values(|t: Tag| t@)),
            Err(e) => tags_from_rows(rows@) == Err::<Seq<crate::tag::TagView>, ErrorView>(e@),
        },
{
    let mut out: Vec<Tag> = Vec::new();
    let mut i: usize = 0;
    assert(rows@.take(0) =~= Seq::<Vec<Cell>>::empty());
    assert(out@.map_values(|t: Tag| t@) =~= Seq::<crate::tag::TagView>::empty());
    while i < rows.len()
        invariant
            i <= rows@.len(),
            tags_from_rows(rows@.take(i as int)) == Ok::<Seq<crate::tag::TagView>, ErrorView>(out@.map_values(|t: Tag| t@)),
        decreases rows@.len() - i,
    {
        proof {
            lemma_all_rows_prefix(rows@, i as int, |r: Seq<Cell>| tag_from_row(r));
        }
        match row_to_tag(&rows[i]) {
            Ok(t) => {
                let ghost before = out@;
                out.push(t);
                assert(out@.map_values(|t: Tag| t@) =~= before.map_values(|t: Tag| t@).push(t@));
            },
            Err(e) => {
                proof {
                    lemma_all_rows_error(rows@, i as int, |r: Seq<Cell>| tag_from_row(r));
                }
                return Err(e);
            },
        }
        i = i + 1;
    }
    assert(rows@.take(i as int) =~= rows@);
    Ok(out)
}

/// Reads every row as project statistics.
pub fn rows_to_project_stats(rows: &Vec<Vec<Cell>>) -> (r: Result<Vec<ProjectStats>, AppError>)
    ensures
        match r {
            Ok(v) => project_stats_from_rows(rows@) == Ok::<Seq<(crate::project::ProjectView, usize, usize)>, ErrorView>(v@.map_values(|s: ProjectStats| stats_view(s))),
            Err(e) => project_stats_from_rows(rows@) == Err::<Seq<(crate::project::ProjectView, usize, usize)>, ErrorView>(e@),
        },
        r matches Ok(v) ==> forall|k: int| 0 <= k < v@.len() ==> #[trigger] v@[k].todo == v@[k].total - v@[k].done,
{
    let mut out: Vec<ProjectStats> = Vec::new();
    let mut i: usize = 0;
    assert(rows@.take(0) =~= Seq::<Vec<Cell>>::empty());
    assert(out@.map_values(|s: ProjectStats| stats_view(s)) =~= Seq::<(crate::project::ProjectView, usize, usize)>::empty());
    while i < rows.len()
        invariant
            i <= rows@.len(),
            project_stats_from_rows(rows@.take(i as int)) == Ok::<Seq<(crate::project::ProjectView, usize, usize)>, ErrorView>(out@.map_values(|s: ProjectStats| stats_view(s))),
            forall|k: int| 0 <= k < out@.len() ==> #[trigger] out@[k].todo == out@[k].total - out@[k].done,
        decreases rows@.len() - i,
    {
        proof {
            lemma_all_rows_prefix(rows@, i as int, |r: Seq<Cell>| project_stats_from_row(r));
        }
        match row_to_project_stats(&rows[i]) {
            Ok(s) => {
                let ghost before = out@;
                out.push(s);
                assert(out@.map_values(|s: ProjectStats| stats_view(s)) =~= before.map_values(|s: ProjectStats| stats_view(s)).push(stats_view(s)));
            },
            Err(e) => {
                proof {
                    lemma_all_rows_error(rows@, i as int, |r: Seq<Cell>| project_stats_from_row(r));
                }
                return Err(e);
            },
        }
        i = i + 1;
    }
    assert(rows@.take(i as int) =~= rows@);
    Ok(out)
}

} // verus!
