//! The conditions of the statements the repository sends, both as SQL text and as what
//! they select: a small model of the `WHERE` clauses in use and of what each means for
//! a row of a table.
use vstd::prelude::*;
use crate::repository::sql::sql_literal;
use crate::project::ProjectView;
use crate::tag::TagView;
use crate::task::TaskView;
use crate::text::{contains_seq, decimal, lowercase};

verus! {

/// A column of the tables the repository reads and writes.
pub enum Column {
    Id,
    ProjectId,
    Title,
    Done,
    Priority,
    TaskId,
    TagId,
    Name,
}

/// A value in a row or in a condition.
pub enum SqlValue {
    Int(int),
    Bool(bool),
    Text(Seq<char>),
    Null,
}

/// A condition of a `WHERE` clause.
pub enum Condition {
    /// The column holds the value (never true of NULL).
    Equals(Column, SqlValue),
    /// Both conditions hold.
    And(Box<Condition>, Box<Condition>),
    /// The column's text matches the `LIKE` pattern, ignoring case.
    ILike(Column, Seq<char>),
}

/// The name of a column in SQL.
pub open spec fn column_sql(c: Column) -> Seq<char> {
    match c {
        Column::Id => "id"@,
        Column::ProjectId => "project_id"@,
        Column::Title => "title"@,
        Column::Done => "done"@,
        Column::Priority => "priority"@,
        Column::TaskId => "task_id"@,
        Column::TagId => "tag_id"@,
        Column::Name => "name"@,
    }
}

/// A value in SQL.
pub open spec fn value_sql(v: SqlValue) -> Seq<char> {
    match v {
        SqlValue::Int(n) => decimal(n),
        SqlValue::Bool(b) => if b {
            "TRUE"@
        } else {
            "FALSE"@
        },
        SqlValue::Text(s) => sql_literal(s),
        SqlValue::Null => "NULL"@,
    }
}

/// A condition in SQL.
pub open spec fn condition_sql(c: Condition) -> Seq<char>
    decreases c,
{
    match c {
        Condition::Equals(col, v) => column_sql(col) + " = "@ + value_sql(v),
        Condition::And(a, b) => condition_sql(*a) + " AND "@ + condition_sql(*b),
        Condition::ILike(col, p) => column_sql(col) + " ILIKE "@ + sql_literal(p),
    }
}

/// Whether `s` matches the `LIKE` pattern `p`: `%` stands for any run of characters,
/// `_` for any one character, every other character for itself.
pub open spec fn like_matches(s: Seq<char>, p: Seq<char>) -> bool
    decreases p.len(), s.len(),
{
    if p.len() == 0 {
        s.len() == 0
    } else if p[0] == '%' {
        if like_matches(s, p.skip(1)) {
            true
        } else if s.len() > 0 {
            like_matches(s.skip(1), p)
        } else {
            false
        }
    } else if s.len() > 0 {
        (p[0] == '_' || s[0] == p[0]) && like_matches(s.skip(1), p.skip(1))
    } else {
        false
    }
}

/// Whether a condition holds of a row, the row given by the value of each column.
pub open spec fn holds(c: Condition, row: spec_fn(Column) -> SqlValue) -> bool
    decreases c,
{
    match c {
        Condition::Equals(col, v) => !(v is Null) && row(col) == v,
        Condition::And(a, b) => holds(*a, row) && holds(*b, row),
        Condition::ILike(col, p) => match row(col) {
            SqlValue::Text(s) => like_matches(lowercase(s), lowercase(p)),
            _ => false,
        },
    }
}

/// A task as a row of the `tasks` table.
pub open spec fn task_row(t: TaskView) -> spec_fn(Column) -> SqlValue {
    |c: Column|
        match c {
            Column::Id => SqlValue::Int(t.id as int),
            Column::ProjectId => match t.project_id {
                Some(p) => SqlValue::Int(p as int),
                None => SqlValue::Null,
            },
            Column::Title => SqlValue::Text(t.title),
            Column::Done => SqlValue::Bool(t.done),
            Column::Priority => SqlValue::Int(t.priority as int),
            _ => SqlValue::Null,
        }
}

/// A link of a task to a tag as a row of the `task_tags` table.
pub open spec fn link_row(task_id: i64, tag_id: i64) -> spec_fn(Column) -> SqlValue {
    |c: Column|
        match c {
            Column::TaskId => SqlValue::Int(task_id as int),
            Column::TagId => SqlValue::Int(tag_id as int),
            _ => SqlValue::Null,
        }
}

/// A project as a row of the `projects` table.
pub open spec fn project_row(p: ProjectView) -> spec_fn(Column) -> SqlValue {
    |c: Column|
        match c {
            Column::Id => SqlValue::Int(p.id as int),
            Column::Name => SqlValue::Text(p.name),
            _ => SqlValue::Null,
        }
}

/// A tag as a row of the `tags` table.
pub open spec fn tag_row(t: TagView) -> spec_fn(Column) -> SqlValue {
    |c: Column|
        match c {
            Column::Id => SqlValue::Int(t.id as int),
            Column::Name => SqlValue::Text(t.name),
            _ => SqlValue::Null,
        }
}

/// The query for the given columns of the rows of a table that meet a condition.
pub open spec fn select_sql(columns: Seq<char>, table: Seq<char>, c: Condition) -> Seq<char> {
    "SELECT "@ + columns + " FROM "@ + table + " WHERE "@ + condition_sql(c) + ";"@
}

/// The statement that sets a column to a value in the rows of a table that meet a
/// condition.
pub open spec fn update_sql(table: Seq<char>, column: Column, value: SqlValue, c: Condition) -> Seq<char> {
    "UPDATE "@ + table + " SET "@ + column_sql(column) + " = "@ + value_sql(value) + " WHERE "@ + condition_sql(c)
        + ";"@
}

/// The query for the tasks (id, project, title, done, priority) that meet a condition,
/// in the given order.
pub open spec fn select_tasks_sql(c: Condition, order: Seq<char>) -> Seq<char> {
    "SELECT id, project_id, title, done, priority FROM tasks WHERE "@ + condition_sql(c) + " ORDER BY "@
        + order + ";"@
}

/// The query for the number of tasks that meet a condition.
pub open spec fn count_tasks_sql(c: Condition) -> Seq<char> {
    "SELECT COUNT(*) FROM tasks WHERE "@ + condition_sql(c) + ";"@
}

/// The statement that deletes the rows of a table that meet a condition.
pub open spec fn delete_sql(table: Seq<char>, c: Condition) -> Seq<char> {
    "DELETE FROM "@ + table + " WHERE "@ + condition_sql(c) + ";"@
}

/// Whether a text has no `LIKE` wildcard.
pub open spec fn no_wildcards(k: Seq<char>) -> bool {
    forall|i: int| 0 <= i < k.len() ==> #[trigger] k[i] != '%' && k[i] != '_'
}

proof fn lemma_percent_matches_all(s: Seq<char>)
    ensures
        like_matches(s, "%"@),
    decreases s.len(),
{
    reveal_strlit("%");
    let p = "%"@;
    assert(p.len() == 1 && p[0] == '%');
    assert(p.skip(1) =~= Seq::<char>::empty());
    if s.len() > 0 {
        lemma_percent_matches_all(s.skip(1));
        assert(like_matches(s.skip(1), p));
    } else {
        assert(like_matches(s, p.skip(1)));
    }
}

proof fn lemma_prefix_pattern(s: Seq<char>, k: Seq<char>)
    requires
        no_wildcards(k),
    ensures
        like_matches(s, k + "%"@) <==> (k.len() <= s.len() && s.take(k.len() as int) == k),
    decreases k.len(),
{
    reveal_strlit("%");
    if k.len() == 0 {
        assert(k + "%"@ =~= "%"@);
        lemma_percent_matches_all(s);
        assert(s.take(0) =~= k);
    } else {
        let p = k + "%"@;
        assert(p[0] == k[0]);
        assert(k[0] != '%' && k[0] != '_');
        let k1 = k.skip(1);
        assert(p.skip(1) =~= k1 + "%"@);
        assert(no_wildcards(k1)) by {
            assert forall|i: int| 0 <= i < k1.len() implies #[trigger] k1[i] != '%' && k1[i] != '_' by {
                assert(k1[i] == k[i + 1]);
            }
        }
        if s.len() > 0 {
            lemma_prefix_pattern(s.skip(1), k1);
            if k.len() <= s.len() && s.take(k.len() as int) == k {
                assert(s[0] == k[0]);
                assert(s.skip(1).take(k1.len() as int) =~= k1) by {
                    assert forall|i: int| 0 <= i < k1.len() implies s.skip(1).take(k1.len() as int)[i] == k1[i] by {
                        assert(s.take(k.len() as int)[i + 1] == k[i + 1]);
                    }
                }
            }
            if s[0] == k[0] && k1.len() <= s.skip(1).len() && s.skip(1).take(k1.len() as int) == k1 {
                assert(s.take(k.len() as int) =~= k) by {
                    assert forall|i: int| 0 <= i < k.len() implies s.take(k.len() as int)[i] == k[i] by {
                        if i > 0 {
                            assert(s.skip(1).take(k1.len() as int)[i - 1] == k1[i - 1]);
                        }
                    }
                }
            }
        }
    }
}

proof fn lemma_contains_pattern(s: Seq<char>, k: Seq<char>)
    requires
        no_wildcards(k),
    ensures
        like_matches(s, "%"@ + k + "%"@) <==> contains_seq(s, k),
    decreases s.len(),
{
    reveal_strlit("%");
    let q = "%"@ + k + "%"@;
    assert(q[0] == '%');
    assert(q.skip(1) =~= k + "%"@);
    lemma_prefix_pattern(s, k);
    let at_start = k.len() <= s.len() && s.take(k.len() as int) == k;
    if at_start {
        assert(s.subrange(0int, 0int + k.len()) =~= s.take(k.len() as int));
        assert(s.subrange(0int, 0int + k.len()) == k);
        assert(contains_seq(s, k));
    }
    if s.len() > 0 {
        let s1 = s.skip(1);
        lemma_contains_pattern(s1, k);
        if contains_seq(s1, k) {
            let i = choose|i: int| 0 <= i && i + k.len() <= s1.len() && #[trigger] s1.subrange(i, i + k.len()) == k;
            assert(s.subrange(i + 1, i + 1 + k.len()) =~= s1.subrange(i, i + k.len()));
            assert(contains_seq(s, k));
        }
        if contains_seq(s, k) && !at_start {
            let i = choose|i: int| 0 <= i && i + k.len() <= s.len() && #[trigger] s.subrange(i, i + k.len()) == k;
            if i == 0 {
                assert(s.take(k.len() as int) =~= s.subrange(0, k.len() as int));
            } else {
                assert(s1.subrange(i - 1, i - 1 + k.len()) =~= s.subrange(i, i + k.len()));
                assert(contains_seq(s1, k));
            }
        }
    } else {
        if contains_seq(s, k) {
            let i = choose|i: int| 0 <= i && i + k.len() <= s.len() && #[trigger] s.subrange(i, i + k.len()) == k;
            assert(k.len() == 0);
            assert(s.take(0) =~= k);
        }
    }
}

/// A `LIKE` pattern of `%`, a text without wildcards, and `%` matches exactly the texts
/// that contain that text, at any position.
pub proof fn lemma_contains_pattern_matches(k: Seq<char>)
    requires
        no_wildcards(k),
    ensures
        forall|s: Seq<char>| like_matches(s, "%"@ + k + "%"@) <==> contains_seq(s, k),
{
    assert forall|s: Seq<char>| like_matches(s, "%"@ + k + "%"@) <==> contains_seq(s, k) by {
        lemma_contains_pattern(s, k);
    }
}

proof fn lemma_exact_pattern(s: Seq<char>, k: Seq<char>)
    requires
        no_wildcards(k),
    ensures
        like_matches(s, k) <==> s == k,
    decreases k.len(),
{
    if k.len() == 0 {
        if s.len() == 0 {
            assert(s =~= k);
        }
    } else {
        assert(k[0] != '%' && k[0] != '_');
        let k1 = k.skip(1);
        assert(no_wildcards(k1)) by {
            assert forall|i: int| 0 <= i < k1.len() implies #[trigger] k1[i] != '%' && k1[i] != '_' by {
                assert(k1[i] == k[i + 1]);
            }
        }
        if s.len() > 0 {
            lemma_exact_pattern(s.skip(1), k1);
            if s[0] == k[0] && s.skip(1) == k1 {
                assert(s =~= k) by {
                    assert forall|i: int| 0 <= i < s.len() implies s[i] == k[i] by {
                        if i > 0 {
                            assert(s.skip(1)[i - 1] == k1[i - 1]);
                        }
                    }
                }
            }
            if s == k {
                assert(s.skip(1) =~= k1);
            }
        }
    }
}

/// A `LIKE` pattern without wildcards matches exactly the text it is.
pub proof fn lemma_exact_pattern_matches(k: Seq<char>)
    requires
        no_wildcards(k),
    ensures
        forall|s: Seq<char>| #[trigger] like_matches(s, k) <==> s == k,
{
    assert forall|s: Seq<char>| #[trigger] like_matches(s, k) <==> s == k by {
        lemma_exact_pattern(s, k);
    }
}

} // verus!
