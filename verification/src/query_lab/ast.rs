//! Reading a statement planned by GlueSQL into its shape.
//!
//! The planned statement is GlueSQL's own syntax tree, opaque here. Each function marked
//! `external_body` below reads one part of it: which variant it is, a name, the SQL
//! text of an expression (GlueSQL's `ToSql`), or the `Debug` text of a part. Nothing
//! is stated of what they give back: it depends on the tree, which Verus cannot see.
//! The shape is then put together by verified code.
use vstd::prelude::*;
use crate::query_lab::plan::{
    IndexShape, JoinExecutorShape, JoinKind, JoinShape, QueryShape, RelationShape, SelectShape, StatementKind,
    StatementShape,
};

verus! {

#[verifier::external_type_specification]
#[verifier::external_body]
pub struct ExQuery(gluesql::core::ast::Query);

#[verifier::external_type_specification]
#[verifier::external_body]
pub struct ExSelect(gluesql::core::ast::Select);

#[verifier::external_type_specification]
#[verifier::external_body]
pub struct ExTableFactor(gluesql::core::ast::TableFactor);

#[verifier::external_type_specification]
#[verifier::external_body]
pub struct ExJoin(gluesql::core::ast::Join);

type AstStatement = gluesql::core::ast::Statement;

type AstQuery = gluesql::core::ast::Query;

type AstSelect = gluesql::core::ast::Select;

type AstFactor = gluesql::core::ast::TableFactor;

type AstJoin = gluesql::core::ast::Join;

/// Which variant a planned statement is.
pub enum StatementTag {
    Query,
    Update,
    Delete,
    Insert,
    Named(StatementKind),
}

/// The variant of a statement (`match` on `Statement`).
#[verifier::external_body]
fn statement_tag(st: &AstStatement) -> StatementTag {
    match st {
        AstStatement::Query(_) => StatementTag::Query,
        AstStatement::Update { .. } => StatementTag::Update,
        AstStatement::Delete { .. } => StatementTag::Delete,
        AstStatement::Insert { .. } => StatementTag::Insert,
        AstStatement::CreateTable { .. } => StatementTag::Named(StatementKind::CreateTable),
        AstStatement::CreateIndex { .. } => StatementTag::Named(StatementKind::CreateIndex),
        AstStatement::DropTable { .. } => StatementTag::Named(StatementKind::DropTable),
        AstStatement::StartTransaction => StatementTag::Named(StatementKind::StartTransaction),
        AstStatement::Commit => StatementTag::Named(StatementKind::Commit),
        AstStatement::Rollback => StatementTag::Named(StatementKind::Rollback),
        _ => StatementTag::Named(StatementKind::Other),
    }
}

/// The query of a `SELECT` statement, or the source of an `INSERT`.
#[verifier::external_body]
fn statement_query(st: &AstStatement) -> Option<&AstQuery> {
    match st {
        AstStatement::Query(q) => Some(q),
        AstStatement::Insert { source, .. } => Some(source),
        _ => None,
    }
}

/// The table of an `UPDATE`, `DELETE` or `INSERT`, and the SQL text of its `WHERE`.
#[verifier::external_body]
fn statement_target(st: &AstStatement) -> (String, Option<String>) {
    match st {
        AstStatement::Update { table_name, selection, .. } => {
            (table_name.clone(), selection.as_ref().map(gluesql::core::ast::ToSql::to_sql))
        },
        AstStatement::Delete { table_name, selection } => {
            (table_name.clone(), selection.as_ref().map(gluesql::core::ast::ToSql::to_sql))
        },
        AstStatement::Insert { table_name, .. } => (table_name.clone(), None),
        _ => (String::new(), None),
    }
}

/// The `SELECT` body of a query; none for a `VALUES` body.
#[verifier::external_body]
fn query_select(q: &AstQuery) -> Option<&AstSelect> {
    match &q.body {
        gluesql::core::ast::SetExpr::Select(s) => Some(s),
        gluesql::core::ast::SetExpr::Values(_) => None,
    }
}

/// The SQL text of each `ORDER BY` item and of the `LIMIT`.
#[verifier::external_body]
fn query_order_and_limit(q: &AstQuery) -> (Vec<String>, Option<String>) {
    (
        q.order_by.iter().map(gluesql::core::ast::ToSql::to_sql).collect(),
        q.limit.as_ref().map(gluesql::core::ast::ToSql::to_sql),
    )
}

/// The SQL text of the `WHERE`, of each `GROUP BY` item and of the `HAVING`.
#[verifier::external_body]
fn select_filters(s: &AstSelect) -> (Option<String>, Vec<String>, Option<String>) {
    (
        s.selection.as_ref().map(gluesql::core::ast::ToSql::to_sql),
        s.group_by.iter().map(gluesql::core::ast::ToSql::to_sql).collect(),
        s.having.as_ref().map(gluesql::core::ast::ToSql::to_sql),
    )
}

/// Whether the select is `DISTINCT`, and the `Debug` text of each projected item.
#[verifier::external_body]
fn select_output(s: &AstSelect) -> (bool, Vec<String>) {
    (s.distinct, s.projection.iter().map(|item| format!("{item:?}")).collect())
}

/// The first relation of the `FROM` clause.
#[verifier::external_body]
fn select_from(s: &AstSelect) -> &AstFactor {
    &s.from.relation
}

/// The joins of the `FROM` clause.
#[verifier::external_body]
fn select_joins(s: &AstSelect) -> &Vec<AstJoin> {
    &s.from.joins
}

/// The relation a join adds.
#[verifier::external_body]
fn join_relation(j: &AstJoin) -> &AstFactor {
    &j.relation
}

/// The operator of a join.
#[verifier::external_body]
fn join_kind(j: &AstJoin) -> JoinKind {
    match &j.join_operator {
        gluesql::core::ast::JoinOperator::Inner(_) => JoinKind::Inner,
        gluesql::core::ast::JoinOperator::LeftOuter(_) => JoinKind::LeftOuter,
    }
}

/// How a join is executed, with the SQL text of a hash join's key and value.
#[verifier::external_body]
fn join_executor(j: &AstJoin) -> JoinExecutorShape {
    match &j.join_executor {
        gluesql::core::ast::JoinExecutor::NestedLoop => JoinExecutorShape::NestedLoop,
        gluesql::core::ast::JoinExecutor::Hash { key_expr, value_expr, .. } => JoinExecutorShape::Hash {
            key: gluesql::core::ast::ToSql::to_sql(key_expr),
            value: gluesql::core::ast::ToSql::to_sql(value_expr),
        },
    }
}

/// The name of a table relation; none for another relation.
#[verifier::external_body]
fn factor_table_name(f: &AstFactor) -> Option<String> {
    match f {
        AstFactor::Table { name, .. } => Some(name.clone()),
        _ => None,
    }
}

/// The index the planner chose for a table relation: the SQL text of a primary key,
/// or an index's name, direction and the `Debug` text of its condition.
#[verifier::external_body]
fn factor_index(f: &AstFactor) -> IndexShape {
    match f {
        AstFactor::Table { index: Some(gluesql::core::ast::IndexItem::PrimaryKey(key)), .. } => {
            IndexShape::PrimaryKey { key: gluesql::core::ast::ToSql::to_sql(key) }
        },
        AstFactor::Table { index: Some(gluesql::core::ast::IndexItem::NonClustered { name, asc, cmp_expr }), .. } => {
            IndexShape::NonClustered { name: name.clone(), asc: *asc, condition: format!("{cmp_expr:?}") }
        },
        _ => IndexShape::Full,
    }
}

/// The subquery of a derived relation.
#[verifier::external_body]
fn factor_subquery(f: &AstFactor) -> Option<&AstQuery> {
    match f {
        AstFactor::Derived { subquery, .. } => Some(subquery),
        _ => None,
    }
}

/// The `Debug` text of a relation.
#[verifier::external_body]
fn factor_debug(f: &AstFactor) -> String {
    format!("{f:?}")
}

/// How deeply nested derived subqueries are read; a deeper one is shown by its
/// `Debug` text.
pub const SUBQUERY_DEPTH: usize = 64;

/// Whether the derived subqueries in a relation are nested at most `depth` deep.
pub open spec fn relation_within(r: RelationShape, depth: nat) -> bool
    decreases depth, 0nat,
{
    match r {
        RelationShape::Derived { subquery } => if depth > 0 {
            query_within(*subquery, (depth - 1) as nat)
        } else {
            false
        },
        _ => true,
    }
}

/// Whether the derived subqueries in a `SELECT` body are nested at most `depth` deep.
pub open spec fn select_within(s: SelectShape, depth: nat) -> bool
    decreases depth, 1nat,
{
    &&& relation_within(s.from, depth)
    &&& forall|i: int| 0 <= i < s.joins@.len() ==> relation_within(#[trigger] s.joins@[i].relation, depth)
}

/// Whether the derived subqueries in a query are nested at most `depth` deep.
pub open spec fn query_within(q: QueryShape, depth: nat) -> bool
    decreases depth, 2nat,
{
    match q.body {
        Some(s) => select_within(s, depth),
        None => true,
    }
}

/// Whether the derived subqueries in a statement are nested at most `depth` deep.
pub open spec fn statement_within(st: StatementShape, depth: nat) -> bool {
    match st {
        StatementShape::Query(q) => query_within(q, depth),
        StatementShape::Insert { source, .. } => query_within(source, depth),
        _ => true,
    }
}

/// The shape of a relation.
fn relation_shape(f: &AstFactor, depth: usize) -> (r: RelationShape)
    ensures
        relation_within(r, depth as nat),
    decreases depth, 0nat,
{
    match factor_table_name(f) {
        Some(name) => RelationShape::Table { name, index: factor_index(f) },
        None => match factor_subquery(f) {
            Some(q) => if depth == 0 {
                RelationShape::Other { text: factor_debug(f) }
            } else {
                RelationShape::Derived { subquery: Box::new(query_shape(q, depth - 1)) }
            },
            None => RelationShape::Other { text: factor_debug(f) },
        },
    }
}

/// The shape of a `SELECT` body.
fn select_shape(s: &AstSelect, depth: usize) -> (r: SelectShape)
    ensures
        select_within(r, depth as nat),
    decreases depth, 1nat,
{
    let from = relation_shape(select_from(s), depth);
    let js = select_joins(s);
    let mut joins: Vec<JoinShape> = Vec::new();
    let mut i: usize = 0;
    while i < js.len()
        invariant
            i <= js@.len(),
            joins@.len() == i,
            forall|k: int| 0 <= k < joins@.len() ==> relation_within(#[trigger] joins@[k].relation, depth as nat),
        decreases js.len() - i,
    {
        let j = &js[i];
        joins.push(JoinShape { kind: join_kind(j), executor: join_executor(j), relation: relation_shape(join_relation(j), depth) });
        i = i + 1;
    }
    let (selection, group_by, having) = select_filters(s);
    let (distinct, projection) = select_output(s);
    SelectShape { from, joins, selection, group_by, having, distinct, projection }
}

/// The shape of a query.
fn query_shape(q: &AstQuery, depth: usize) -> (r: QueryShape)
    ensures
        query_within(r, depth as nat),
    decreases depth, 2nat,
{
    let body = match query_select(q) {
        Some(s) => Some(select_shape(s, depth)),
        None => None,
    };
    let (order_by, limit) = query_order_and_limit(q);
    QueryShape { body, order_by, limit }
}

/// The shape of a planned statement.
pub fn statement_shape(st: &AstStatement) -> (r: StatementShape)
    ensures
        statement_within(r, SUBQUERY_DEPTH as nat),
{
    match statement_tag(st) {
        StatementTag::Query => match statement_query(st) {
            Some(q) => StatementShape::Query(query_shape(q, SUBQUERY_DEPTH)),
            None => StatementShape::Other(StatementKind::Other),
        },
        StatementTag::Update => {
            let (table, selection) = statement_target(st);
            StatementShape::Update { table, selection }
        },
        StatementTag::Delete => {
            let (table, selection) = statement_target(st);
            StatementShape::Delete { table, selection }
        },
        StatementTag::Insert => {
            let (table, _) = statement_target(st);
            match statement_query(st) {
                Some(q) => StatementShape::Insert { table, source: query_shape(q, SUBQUERY_DEPTH) },
                None => StatementShape::Other(StatementKind::Other),
            }
        },
        StatementTag::Named(kind) => StatementShape::Other(kind),
    }
}

} // verus!
