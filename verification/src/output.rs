//! The lines the program prints for tasks, statistics and SQL results.
use vstd::prelude::*;
use crate::command::strings_view;
use crate::query_lab::plan::{join_strings, join_with};
use crate::repository::sql::{SqlResult, SqlResultView};
use crate::project::{Project, ProjectView};
use crate::tag::{Tag, TagView};
use crate::task::{Task, TaskDetail, TaskStats, TaskView};
use crate::text::{decimal, i64_to_decimal, nat_digits, push_str, to_owned_string, usize_to_decimal};

verus! {

/// The line of a task: id, project (or `NULL`), priority, title and whether it is done.
pub open spec fn task_line_spec(t: TaskView) -> Seq<char> {
    decimal(t.id as int) + " | project="@ + (match t.project_id {
        Some(p) => decimal(p as int),
        None => "NULL"@,
    }) + " | priority="@ + decimal(t.priority as int) + " | "@ + t.title + " | "@ + (if t.done {
        "true"@
    } else {
        "false"@
    })
}

/// The line of a task.
pub fn task_line(t: &Task) -> (s: String)
    ensures
        s@ == task_line_spec(t@),
{
    let mut s = i64_to_decimal(t.id);
    push_str(&mut s, " | project=");
    match t.project_id {
        Some(p) => {
            let d = i64_to_decimal(p);
            push_str(&mut s, d.as_str());
        },
        None => push_str(&mut s, "NULL"),
    }
    push_str(&mut s, " | priority=");
    let d = i64_to_decimal(t.priority);
    push_str(&mut s, d.as_str());
    push_str(&mut s, " | ");
    push_str(&mut s, t.title.as_str());
    push_str(&mut s, " | ");
    if t.done {
        push_str(&mut s, "true");
    } else {
        push_str(&mut s, "false");
    }
    s
}

/// The text of task statistics: three lines, total, done and todo.
pub open spec fn stats_text_spec(s: TaskStats) -> Seq<char> {
    "total: "@ + nat_digits(s.total as nat) + "\ndone: "@ + nat_digits(s.done as nat) + "\ntodo: "@ + nat_digits(
        s.todo as nat,
    )
}

/// The text of task statistics.
pub fn stats_text(s: &TaskStats) -> (r: String)
    ensures
        r@ == stats_text_spec(*s),
{
    let mut r = to_owned_string("total: ");
    let d = usize_to_decimal(s.total);
    push_str(&mut r, d.as_str());
    push_str(&mut r, "\ndone: ");
    let d = usize_to_decimal(s.done);
    push_str(&mut r, d.as_str());
    push_str(&mut r, "\ntodo: ");
    let d = usize_to_decimal(s.todo);
    push_str(&mut r, d.as_str());
    r
}

/// The lines of one SQL result: for a query, its labels then each row, cells separated
/// by ` | `; for a change, its kind and count; for a message, the message.
pub open spec fn result_lines(r: SqlResultView) -> Seq<Seq<char>> {
    match r {
        SqlResultView::Select { labels, rows } => seq![join_with(labels, " | "@)] + rows.map_values(
            |row: Seq<Seq<char>>| join_with(row, " | "@),
        ),
        SqlResultView::Affected { kind, count } => seq![kind + ": "@ + nat_digits(count as nat)],
        SqlResultView::Message(m) => seq![m],
    }
}

/// The lines of several SQL results, one after the other.
pub open spec fn results_lines(rs: Seq<SqlResultView>) -> Seq<Seq<char>>
    decreases rs.len(),
{
    if rs.len() == 0 {
        Seq::empty()
    } else {
        results_lines(rs.drop_last()) + result_lines(rs.last())
    }
}

/// The lines of SQL results, one after the other.
pub fn sql_result_lines(results: &Vec<SqlResult>) -> (lines: Vec<String>)
    ensures
        strings_view(lines@) == results_lines(results@.map_values(|s: SqlResult| s@)),
{
    let ghost rv = results@.map_values(|s: SqlResult| s@);
    let mut lines: Vec<String> = Vec::new();
    let mut i: usize = 0;
    while i < results.len()
        invariant
            i <= results@.len(),
            rv == results@.map_values(|s: SqlResult| s@),
            strings_view(lines@) == results_lines(rv.take(i as int)),
        decreases results@.len() - i,
    {
        proof {
            assert(rv.take(i + 1).drop_last() =~= rv.take(i as int));
        }
        let ghost before = strings_view(lines@);
        match &results[i] {
            SqlResult::Select { labels, rows } => {
                lines.push(join_strings(labels, " | "));
                let mut k: usize = 0;
                let ghost rowsv = rows@.map_values(|row: Vec<String>| strings_view(row@));
                while k < rows.len()
                    invariant
                        k <= rows@.len(),
                        rowsv == rows@.map_values(|row: Vec<String>| strings_view(row@)),
                        strings_view(lines@) == before + seq![join_with(strings_view(labels@), " | "@)]
                            + rowsv.take(k as int).map_values(|row: Seq<Seq<char>>| join_with(row, " | "@)),
                    decreases rows@.len() - k,
                {
                    let ghost mid = strings_view(lines@);
                    lines.push(join_strings(&rows[k], " | "));
                    proof {
                        assert(strings_view(lines@) =~= mid.push(join_with(rowsv[k as int], " | "@)));
                        assert(rowsv.take(k + 1).map_values(|row: Seq<Seq<char>>| join_with(row, " | "@))
                            =~= rowsv.take(k as int).map_values(|row: Seq<Seq<char>>| join_with(row, " | "@)).push(
                            join_with(rowsv[k as int], " | "@),
                        ));
                    }
                    k = k + 1;
                }
                proof {
                    assert(rowsv.take(k as int) =~= rowsv);
                }
            },
            SqlResult::Affected { kind, count } => {
                let mut line = kind.clone();
                push_str(&mut line, ": ");
                let d = usize_to_decimal(*count);
                push_str(&mut line, d.as_str());
                lines.push(line);
                proof {
                    assert(strings_view(lines@) =~= before + seq![line@]);
                }
            },
            SqlResult::Message(m) => {
                lines.push(m.clone());
                proof {
                    assert(strings_view(lines@) =~= before + seq![m@]);
                }
            },
        }
        proof {
            assert(strings_view(lines@) =~= before + result_lines(rv[i as int]));
        }
        i = i + 1;
    }
    proof {
        assert(rv.take(i as int) =~= rv);
    }
    lines
}

/// Whether `analyze` runs the statements: when the runtime is asked for, or when neither
/// the plan nor the raw plan alone is.
pub open spec fn runs_statements_spec(plan: bool, runtime: bool, raw_plan: bool) -> bool {
    runtime || (!plan && !raw_plan)
}

/// Whether `analyze` runs the statements for these options.
pub fn runs_statements(plan: bool, runtime: bool, raw_plan: bool) -> (r: bool)
    ensures
        r == runs_statements_spec(plan, runtime, raw_plan),
{
    runtime || (!plan && !raw_plan)
}

/// The line of an id and a name: `id | name`.
pub open spec fn id_name_line(id: i64, name: Seq<char>) -> Seq<char> {
    decimal(id as int) + " | "@ + name
}

/// The line of a project.
pub fn project_line(p: &Project) -> (s: String)
    ensures
        s@ == id_name_line(p.id, p.name@),
{
    let mut s = i64_to_decimal(p.id);
    push_str(&mut s, " | ");
    push_str(&mut s, p.name.as_str());
    s
}

/// The line of a tag.
pub fn tag_line(t: &Tag) -> (s: String)
    ensures
        s@ == id_name_line(t.id, t.name@),
{
    let mut s = i64_to_decimal(t.id);
    push_str(&mut s, " | ");
    push_str(&mut s, t.name.as_str());
    s
}

/// The line of something deleted: `Deleted: id | name`.
pub fn deleted_line(id: i64, name: &str) -> (s: String)
    ensures
        s@ == "Deleted: "@ + id_name_line(id, name@),
{
    let mut s = to_owned_string("Deleted: ");
    let d = i64_to_decimal(id);
    push_str(&mut s, d.as_str());
    push_str(&mut s, " | ");
    push_str(&mut s, name);
    s
}

/// The line of a finished task: `Done: id`.
pub fn done_line(id: i64) -> (s: String)
    ensures
        s@ == "Done: "@ + decimal(id as int),
{
    let mut s = to_owned_string("Done: ");
    let d = i64_to_decimal(id);
    push_str(&mut s, d.as_str());
    s
}

/// The line of a tag attached to (`Tagged`) or removed from (`Untagged`) a task:
/// `word: id | tag`.
pub fn tagging_line(word: &str, id: i64, tag: &str) -> (s: String)
    ensures
        s@ == word@ + ": "@ + id_name_line(id, tag@),
{
    let mut s = to_owned_string(word);
    push_str(&mut s, ": ");
    let d = i64_to_decimal(id);
    push_str(&mut s, d.as_str());
    push_str(&mut s, " | ");
    push_str(&mut s, tag);
    s
}

/// The lines of a task detail: the task, its project's name or `(none)`, and its tags'
/// names separated by `, `.
pub open spec fn detail_lines_spec(t: TaskView, project_name: Option<Seq<char>>, tags: Seq<TagView>) -> Seq<Seq<char>> {
    seq![
        task_line_spec(t),
        "project: "@ + match project_name {
            Some(n) => n,
            None => "(none)"@,
        },
        "tags: "@ + join_with(tags.map_values(|g: TagView| g.name), ", "@),
    ]
}

/// The lines of a task detail.
pub fn detail_lines(d: &TaskDetail) -> (lines: Vec<String>)
    ensures
        strings_view(lines@) == detail_lines_spec(
            d.task@,
            crate::command::opt_string_view(d.project_name),
            d.tags@.map_values(|g: Tag| g@),
        ),
{
    let mut lines: Vec<String> = Vec::new();
    lines.push(task_line(&d.task));
    let mut p = to_owned_string("project: ");
    match &d.project_name {
        Some(n) => push_str(&mut p, n.as_str()),
        None => push_str(&mut p, "(none)"),
    }
    lines.push(p);
    let mut names: Vec<String> = Vec::new();
    let mut i: usize = 0;
    while i < d.tags.len()
        invariant
            i <= d.tags@.len(),
            strings_view(names@) == d.tags@.take(i as int).map_values(|g: Tag| g.name@),
        decreases d.tags@.len() - i,
    {
        let ghost before = names@;
        names.push(d.tags[i].name.clone());
        proof {
            assert(strings_view(names@) =~= strings_view(before).push(d.tags@[i as int].name@));
            assert(d.tags@.take(i + 1).map_values(|g: Tag| g.name@) =~= d.tags@.take(i as int).map_values(
                |g: Tag| g.name@,
            ).push(d.tags@[i as int].name@));
        }
        i = i + 1;
    }
    proof {
        assert(d.tags@.take(i as int) =~= d.tags@);
        assert(d.tags@.map_values(|g: Tag| g.name@) =~= d.tags@.map_values(|g: Tag| g@).map_values(
            |g: TagView| g.name,
        ));
    }
    let mut t = to_owned_string("tags: ");
    let joined = join_strings(&names, ", ");
    push_str(&mut t, joined.as_str());
    lines.push(t);
    proof {
        assert(strings_view(lines@) =~= detail_lines_spec(
            d.task@,
            crate::command::opt_string_view(d.project_name),
            d.tags@.map_values(|g: Tag| g@),
        ));
    }
    lines
}

} // verus!
