//! Query plan trees built from the shape of a planned SQL statement.
//!
//! The statement shapes hold, as plain values, what the plan rendering reads of a
//! statement planned by GlueSQL: table names, the chosen index, join operators and
//! executors, and the SQL text of filters, groupings, orderings and limits.
use vstd::prelude::*;
use crate::command::strings_view;
use crate::text::{concat2, contains_seq, contains_str, push_str, to_owned_string};

verus! {

/// Whether a plan step was read directly off the planned statement or is a safe
/// interpretation of how GlueSQL executes it.
#[derive(Clone, Copy, Debug, PartialEq, Eq)]
pub enum Evidence {
    Direct,
    SafeInterpretation,
}

/// A node of a query plan tree.
#[derive(Debug, PartialEq, Eq)]
pub struct PlanNode {
    pub label: String,
    pub evidence: Evidence,
    pub children: Vec<PlanNode>,
}

/// The mathematical value of a `PlanNode`.
pub struct PlanNodeView {
    pub label: Seq<char>,
    pub evidence: Evidence,
    pub children: Seq<PlanNodeView>,
}

/// The value of a plan node.
pub open spec fn node_view(n: PlanNode) -> PlanNodeView
    decreases n,
{
    PlanNodeView {
        label: n.label@,
        evidence: n.evidence,
        children: Seq::new(
            n.children@.len(),
            |i: int|
                if 0 <= i < n.children@.len() {
                    node_view(n.children@[i])
                } else {
                    leaf_v(Seq::empty())
                },
        ),
    }
}

/// The values of a sequence of plan nodes.
pub open spec fn nodes_view(s: Seq<PlanNode>) -> Seq<PlanNodeView> {
    Seq::new(s.len(), |i: int| node_view(s[i]))
}

/// A leaf: a step read directly off the statement.
pub open spec fn leaf_v(label: Seq<char>) -> PlanNodeView {
    PlanNodeView { label, evidence: Evidence::Direct, children: Seq::empty() }
}

/// An inner node: a step over its children.
pub open spec fn branch_v(label: Seq<char>, children: Seq<PlanNodeView>) -> PlanNodeView {
    PlanNodeView { label, evidence: Evidence::SafeInterpretation, children }
}

impl PlanNode {
    /// A leaf labelled `label`.
    pub fn leaf(label: String) -> (n: Self)
        ensures
            node_view(n) == leaf_v(label@),
    {
        let n = PlanNode { label, evidence: Evidence::Direct, children: Vec::new() };
        assert(node_view(n).children =~= Seq::<PlanNodeView>::empty());
        n
    }

    /// An inner node labelled `label` over `children`.
    pub fn branch(label: String, children: Vec<PlanNode>) -> (n: Self)
        ensures
            node_view(n) == branch_v(label@, nodes_view(children@)),
    {
        let n = PlanNode { label, evidence: Evidence::SafeInterpretation, children };
        assert(node_view(n).children =~= nodes_view(n.children@));
        n
    }
}

fn branch1(label: String, child: PlanNode) -> (n: PlanNode)
    ensures
        node_view(n) == branch_v(label@, seq![node_view(child)]),
{
    let ghost c = node_view(child);
    let mut v: Vec<PlanNode> = Vec::new();
    v.push(child);
    let n = PlanNode::branch(label, v);
    assert(nodes_view(v@) =~= seq![c]);
    n
}

fn branch2(label: String, a: PlanNode, b: PlanNode) -> (n: PlanNode)
    ensures
        node_view(n) == branch_v(label@, seq![node_view(a), node_view(b)]),
{
    let ghost (x, y) = (node_view(a), node_view(b));
    let mut v: Vec<PlanNode> = Vec::new();
    v.push(a);
    v.push(b);
    let n = PlanNode::branch(label, v);
    assert(nodes_view(v@) =~= seq![x, y]);
    n
}

/// The index a table access goes through.
pub enum IndexShape {
    /// No index: the whole table is scanned.
    Full,
    /// A primary key lookup with the key's SQL text.
    PrimaryKey { key: String },
    /// A secondary index scan: the index name, its direction, and the text of the
    /// condition on the index.
    NonClustered { name: String, asc: Option<bool>, condition: String },
}

/// The relation a query reads from.
pub enum RelationShape {
    Table { name: String, index: IndexShape },
    Derived { subquery: Box<QueryShape> },
    /// Any other table factor, with its text.
    Other { text: String },
}

/// The operator of a join.
#[derive(Clone, Copy, Debug, PartialEq, Eq)]
pub enum JoinKind {
    Inner,
    LeftOuter,
}

/// How a join is executed.
pub enum JoinExecutorShape {
    NestedLoop,
    Hash { key: String, value: String },
}

/// A join of the relation read so far with another relation.
pub struct JoinShape {
    pub kind: JoinKind,
    pub executor: JoinExecutorShape,
    pub relation: RelationShape,
}

/// The `SELECT` body of a query.
pub struct SelectShape {
    pub from: RelationShape,
    pub joins: Vec<JoinShape>,
    pub selection: Option<String>,
    pub group_by: Vec<String>,
    pub having: Option<String>,
    pub distinct: bool,
    pub projection: Vec<String>,
}

/// A query: its `SELECT` body (none for a `VALUES` body), ordering and limit.
pub struct QueryShape {
    pub body: Option<SelectShape>,
    pub order_by: Vec<String>,
    pub limit: Option<String>,
}

/// Statement kinds that are shown by name only.
#[derive(Clone, Copy, Debug, PartialEq, Eq)]
pub enum StatementKind {
    CreateTable,
    CreateIndex,
    DropTable,
    StartTransaction,
    Commit,
    Rollback,
    Other,
}

/// A planned statement.
pub enum StatementShape {
    Query(QueryShape),
    Update { table: String, selection: Option<String> },
    Delete { table: String, selection: Option<String> },
    Insert { table: String, source: QueryShape },
    Other(StatementKind),
}

/// The items joined by `sep`.
pub open spec fn join_with(items: Seq<Seq<char>>, sep: Seq<char>) -> Seq<char>
    decreases items.len(),
{
    if items.len() == 0 {
        Seq::empty()
    } else if items.len() == 1 {
        items[0]
    } else {
        join_with(items.drop_last(), sep) + sep + items.last()
    }
}

/// The SQL text of an optional expression, or `none`.
pub open spec fn opt_expr_text(o: Option<String>) -> Seq<char> {
    match o {
        Some(s) => s@,
        None => "none"@,
    }
}

/// The `Debug` text of an optional direction.
pub open spec fn direction_text(o: Option<bool>) -> Seq<char> {
    match o {
        Some(true) => "Some(true)"@,
        Some(false) => "Some(false)"@,
        None => "None"@,
    }
}

/// The node of the relation a query reads from.
pub open spec fn relation_spec(r: RelationShape) -> PlanNodeView
    decreases r, 0nat,
{
    match r {
        RelationShape::Table { name, index } => match index {
            IndexShape::PrimaryKey { key } => leaf_v(
                "Primary Key Lookup ["@ + name@ + ", key="@ + key@ + "]"@,
            ),
            IndexShape::NonClustered { name: index, asc, condition } => leaf_v(
                "Index Scan ["@ + name@ + ", index="@ + index@ + ", direction="@ + direction_text(
                    asc,
                ) + ", condition="@ + condition@ + "]"@,
            ),
            IndexShape::Full => leaf_v("Table Scan ["@ + name@ + "]"@),
        },
        RelationShape::Derived { subquery } => branch_v(
            "Derived Subquery"@,
            seq![query_spec(*subquery)],
        ),
        RelationShape::Other { text } => leaf_v("Table Factor ["@ + text@ + "]"@),
    }
}

/// The label of a join step.
pub open spec fn join_label(j: JoinShape) -> Seq<char> {
    let kind = match j.kind {
        JoinKind::Inner => "INNER"@,
        JoinKind::LeftOuter => "LEFT"@,
    };
    let executor = match j.executor {
        JoinExecutorShape::NestedLoop => "NestedLoop"@,
        JoinExecutorShape::Hash { key, value } => "Hash key="@ + key@ + " value="@ + value@,
    };
    "Join ["@ + kind + ", "@ + executor + "]"@
}

/// The node after the relation and the first `k` joins of a `SELECT` body.
pub open spec fn join_chain(s: SelectShape, k: nat) -> PlanNodeView
    decreases s, k,
{
    if k == 0 || k > s.joins@.len() {
        relation_spec(s.from)
    } else {
        branch_v(
            join_label(s.joins@[k - 1]),
            seq![join_chain(s, (k - 1) as nat), relation_spec(s.joins@[k - 1].relation)],
        )
    }
}

/// The node of a `SELECT` body before projection: joins, filter, aggregation, distinct.
pub open spec fn select_core_spec(s: SelectShape) -> PlanNodeView
    decreases s, s.joins@.len() + 1,
{
    let joined = join_chain(s, s.joins@.len());
    let filtered = match s.selection {
        Some(sel) => branch_v("Filter ["@ + sel@ + "]"@, seq![joined]),
        None => joined,
    };
    let aggregated = if s.group_by@.len() > 0 || s.having is Some {
        branch_v(
            "Aggregate [group_by="@ + join_with(strings_view(s.group_by@), ", "@) + ", having="@
                + opt_expr_text(s.having) + "]"@,
            seq![filtered],
        )
    } else {
        filtered
    };
    if s.distinct {
        branch_v("Distinct"@, seq![aggregated])
    } else {
        aggregated
    }
}

proof fn lemma_join_chain_same(s: SelectShape, s2: SelectShape, k: nat)
    requires
        s.from == s2.from,
        s.joins == s2.joins,
    ensures
        join_chain(s, k) == join_chain(s2, k),
    decreases k,
{
    if k > 0 && k <= s.joins@.len() {
        lemma_join_chain_same(s, s2, (k - 1) as nat);
    }
}

/// The plan of a `SELECT DISTINCT` body has a `Distinct` step directly over the plan of
/// the same body without `DISTINCT`; the plan of a body without `DISTINCT` has no
/// `Distinct` step on top.
pub proof fn lemma_distinct_step(s: SelectShape)
    ensures
        s.distinct ==> select_core_spec(s) == branch_v(
            "Distinct"@,
            seq![select_core_spec(SelectShape { distinct: false, ..s })],
        ),
        !s.distinct ==> select_core_spec(s).label != "Distinct"@,
{
    let plain = SelectShape { distinct: false, ..s };
    lemma_join_chain_same(s, plain, s.joins@.len());
    reveal_strlit("Distinct");
    if !s.distinct {
        let l = select_core_spec(s).label;
        let d = "Distinct"@;
        assert(d.len() == 8 && d[0] == 'D' && d[1] == 'i');
        if s.group_by@.len() > 0 || s.having is Some {
            reveal_strlit("Aggregate [group_by=");
            assert(l[0] == 'A');
        } else if s.selection is Some {
            reveal_strlit("Filter [");
            assert(l[0] == 'F');
        } else if s.joins@.len() > 0 {
            reveal_strlit("Join [");
            assert(l[0] == 'J');
        } else {
            assert(l == relation_spec(s.from).label);
            match s.from {
                RelationShape::Table { name, index } => match index {
                    IndexShape::PrimaryKey { key } => {
                        reveal_strlit("Primary Key Lookup [");
                        assert(l[0] == 'P');
                    },
                    IndexShape::NonClustered { name: ix, asc, condition } => {
                        reveal_strlit("Index Scan [");
                        assert(l[0] == 'I');
                    },
                    IndexShape::Full => {
                        reveal_strlit("Table Scan [");
                        assert(l[0] == 'T');
                    },
                },
                RelationShape::Derived { subquery } => {
                    reveal_strlit("Derived Subquery");
                    assert(l[1] == 'e');
                },
                RelationShape::Other { text } => {
                    reveal_strlit("Table Factor [");
                    assert(l[0] == 'T');
                },
            }
        }
    }
}

/// The plan of a query.
pub open spec fn query_spec(q: QueryShape) -> PlanNodeView
    decreases q, 0nat,
{
    match q.body {
        None => leaf_v("Values"@),
        Some(s) => {
            let projected = branch_v(
                "Projection ["@ + join_with(strings_view(s.projection@), ", "@) + "]"@,
                seq![select_core_spec(s)],
            );
            let sorted = if q.order_by@.len() > 0 {
                branch_v(
                    "Sort ["@ + join_with(strings_view(q.order_by@), ", "@) + "]"@,
                    seq![projected],
                )
            } else {
                projected
            };
            match q.limit {
                Some(l) => branch_v("Limit ["@ + l@ + "]"@, seq![sorted]),
                None => sorted,
            }
        },
    }
}

/// The name shown for a statement kind.
pub open spec fn kind_text(k: StatementKind) -> Seq<char> {
    match k {
        StatementKind::CreateTable => "CREATE TABLE"@,
        StatementKind::CreateIndex => "CREATE INDEX"@,
        StatementKind::DropTable => "DROP TABLE"@,
        StatementKind::StartTransaction => "BEGIN"@,
        StatementKind::Commit => "COMMIT"@,
        StatementKind::Rollback => "ROLLBACK"@,
        StatementKind::Other => "OTHER"@,
    }
}

/// The plan of a statement.
pub open spec fn statement_spec(st: StatementShape) -> PlanNodeView {
    match st {
        StatementShape::Query(q) => query_spec(q),
        StatementShape::Update { table, selection } => leaf_v(
            "Update ["@ + table@ + "] filter="@ + opt_expr_text(selection),
        ),
        StatementShape::Delete { table, selection } => leaf_v(
            "Delete ["@ + table@ + "] filter="@ + opt_expr_text(selection),
        ),
        StatementShape::Insert { table, source } => branch_v(
            "Insert ["@ + table@ + "]"@,
            seq![query_spec(source)],
        ),
        StatementShape::Other(k) => leaf_v("Statement ["@ + kind_text(k) + "]"@),
    }
}

/// Joins strings with a separator.
pub fn join_strings(items: &Vec<String>, sep: &str) -> (r: String)
    ensures
        r@ == join_with(strings_view(items@), sep@),
{
    let ghost v = strings_view(items@);
    let mut r = String::new();
    let mut i: usize = 0;
    while i < items.len()
        invariant
            i <= items.len(),
            v == strings_view(items@),
            r@ == join_with(v.take(i as int), sep@),
        decreases items.len() - i,
    {
        assert(v.take(i + 1).drop_last() =~= v.take(i as int));
        if i > 0 {
            push_str(&mut r, sep);
        } else {
            assert(v.take(0) =~= Seq::<Seq<char>>::empty());
        }
        push_str(&mut r, items[i].as_str());
        i = i + 1;
    }
    assert(v.take(items.len() as int) =~= v);
    r
}

fn opt_expr(o: &Option<String>) -> (s: String)
    ensures
        s@ == opt_expr_text(*o),
{
    match o {
        Some(e) => e.clone(),
        None => to_owned_string("none"),
    }
}

fn direction(o: Option<bool>) -> (s: String)
    ensures
        s@ == direction_text(o),
{
    match o {
        Some(true) => to_owned_string("Some(true)"),
        Some(false) => to_owned_string("Some(false)"),
        None => to_owned_string("None"),
    }
}

fn bracketed(prefix: &str, inner: &str) -> (s: String)
    ensures
        s@ == prefix@ + inner@ + "]"@,
{
    let mut s = concat2(prefix, inner);
    push_str(&mut s, "]");
    s
}

fn relation_node(r: &RelationShape) -> (n: PlanNode)
    ensures
        node_view(n) == relation_spec(*r),
    decreases *r, 0nat,
{
    match r {
        RelationShape::Table { name, index } => match index {
            IndexShape::PrimaryKey { key } => {
                let mut s = concat2("Primary Key Lookup [", name.as_str());
                push_str(&mut s, ", key=");
                push_str(&mut s, key.as_str());
                push_str(&mut s, "]");
                PlanNode::leaf(s)
            },
            IndexShape::NonClustered { name: index, asc, condition } => {
                let mut s = concat2("Index Scan [", name.as_str());
                push_str(&mut s, ", index=");
                push_str(&mut s, index.as_str());
                push_str(&mut s, ", direction=");
                let d = direction(*asc);
                push_str(&mut s, d.as_str());
                push_str(&mut s, ", condition=");
                push_str(&mut s, condition.as_str());
                push_str(&mut s, "]");
                PlanNode::leaf(s)
            },
            IndexShape::Full => PlanNode::leaf(bracketed("Table Scan [", name.as_str())),
        },
        RelationShape::Derived { subquery } => {
            let inner = query_node(subquery);
            branch1(to_owned_string("Derived Subquery"), inner)
        },
        RelationShape::Other { text } => PlanNode::leaf(bracketed("Table Factor [", text.as_str())),
    }
}

fn join_label_string(j: &JoinShape) -> (s: String)
    ensures
        s@ == join_label(*j),
{
    let mut s = to_owned_string("Join [");
    match j.kind {
        JoinKind::Inner => push_str(&mut s, "INNER"),
        JoinKind::LeftOuter => push_str(&mut s, "LEFT"),
    }
    push_str(&mut s, ", ");
    match &j.executor {
        JoinExecutorShape::NestedLoop => push_str(&mut s, "NestedLoop"),
        JoinExecutorShape::Hash { key, value } => {
            push_str(&mut s, "Hash key=");
            push_str(&mut s, key.as_str());
            push_str(&mut s, " value=");
            push_str(&mut s, value.as_str());
        },
    }
    push_str(&mut s, "]");
    s
}

fn select_core_node(s: &SelectShape) -> (n: PlanNode)
    ensures
        node_view(n) == select_core_spec(*s),
    decreases *s, s.joins@.len() + 1,
{
    let mut node = relation_node(&s.from);
    let mut k: usize = 0;
    while k < s.joins.len()
        invariant
            k <= s.joins@.len(),
            node_view(node) == join_chain(*s, k as nat),
        decreases s.joins@.len() - k,
    {
        let j = &s.joins[k];
        let label = join_label_string(j);
        let right = relation_node(&j.relation);
        node = branch2(label, node, right);
        k = k + 1;
    }
    if let Some(sel) = &s.selection {
        node = branch1(bracketed("Filter [", sel.as_str()), node);
    }
    if s.group_by.len() > 0 || s.having.is_some() {
        let groups = join_strings(&s.group_by, ", ");
        let mut label = concat2("Aggregate [group_by=", groups.as_str());
        push_str(&mut label, ", having=");
        let h = opt_expr(&s.having);
        push_str(&mut label, h.as_str());
        push_str(&mut label, "]");
        node = branch1(label, node);
    }
    if s.distinct {
        node = branch1(to_owned_string("Distinct"), node);
    }
    node
}

fn query_node(q: &QueryShape) -> (n: PlanNode)
    ensures
        node_view(n) == query_spec(*q),
    decreases *q, 0nat,
{
    match &q.body {
        None => PlanNode::leaf(to_owned_string("Values")),
        Some(s) => {
            let core = select_core_node(s);
            let labels = join_strings(&s.projection, ", ");
            let mut node = branch1(bracketed("Projection [", labels.as_str()), core);
            if q.order_by.len() > 0 {
                let keys = join_strings(&q.order_by, ", ");
                node = branch1(bracketed("Sort [", keys.as_str()), node);
            }
            if let Some(l) = &q.limit {
                node = branch1(bracketed("Limit [", l.as_str()), node);
            }
            node
        },
    }
}

/// The plan tree of a planned statement.
pub fn statement_to_node(st: &StatementShape) -> (n: PlanNode)
    ensures
        node_view(n) == statement_spec(*st),
{
    match st {
        StatementShape::Query(q) => query_node(q),
        StatementShape::Update { table, selection } => {
            let mut s = concat2("Update [", table.as_str());
            push_str(&mut s, "] filter=");
            let e = opt_expr(selection);
            push_str(&mut s, e.as_str());
            PlanNode::leaf(s)
        },
        StatementShape::Delete { table, selection } => {
            let mut s = concat2("Delete [", table.as_str());
            push_str(&mut s, "] filter=");
            let e = opt_expr(selection);
            push_str(&mut s, e.as_str());
            PlanNode::leaf(s)
        },
        StatementShape::Insert { table, source } => {
            let inner = query_node(source);
            branch1(bracketed("Insert [", table.as_str()), inner)
        },
        StatementShape::Other(k) => {
            let name = match k {
                StatementKind::CreateTable => to_owned_string("CREATE TABLE"),
                StatementKind::CreateIndex => to_owned_string("CREATE INDEX"),
                StatementKind::DropTable => to_owned_string("DROP TABLE"),
                StatementKind::StartTransaction => to_owned_string("BEGIN"),
                StatementKind::Commit => to_owned_string("COMMIT"),
                StatementKind::Rollback => to_owned_string("ROLLBACK"),
                StatementKind::Other => to_owned_string("OTHER"),
            };
            PlanNode::leaf(bracketed("Statement [", name.as_str()))
        },
    }
}

/// Whether a label names a table access path.
pub open spec fn is_access_label(label: Seq<char>) -> bool {
    contains_seq(label, "Table Scan"@) || contains_seq(label, "Index Scan"@) || contains_seq(
        label,
        "Primary Key Lookup"@,
    )
}

/// The access path labels of a plan tree, in pre-order.
pub open spec fn paths_of(n: PlanNodeView) -> Seq<Seq<char>>
    decreases n,
{
    let own = if is_access_label(n.label) {
        seq![n.label]
    } else {
        Seq::empty()
    };
    own + paths_of_all(n.children)
}

/// The access path labels of a sequence of plan trees, in order.
pub open spec fn paths_of_all(ns: Seq<PlanNodeView>) -> Seq<Seq<char>>
    decreases ns,
{
    if ns.len() == 0 {
        Seq::empty()
    } else {
        paths_of(ns[0]) + paths_of_all(ns.drop_first())
    }
}

} // verus!

verus! {

proof fn lemma_paths_of_all_push(s: Seq<PlanNodeView>, n: PlanNodeView)
    ensures
        paths_of_all(s.push(n)) == paths_of_all(s) + paths_of(n),
    decreases s.len(),
{
    if s.len() == 0 {
        assert(s.push(n).drop_first() =~= Seq::<PlanNodeView>::empty());
        assert(paths_of_all(Seq::<PlanNodeView>::empty()) =~= Seq::<Seq<char>>::empty());
        assert(paths_of_all(s.push(n)) =~= paths_of(n));
    } else {
        assert(s.push(n).drop_first() =~= s.drop_first().push(n));
        lemma_paths_of_all_push(s.drop_first(), n);
        assert(paths_of_all(s.push(n)) =~= paths_of(s[0]) + (paths_of_all(s.drop_first())
            + paths_of(n)));
    }
}

fn is_access(label: &String) -> (r: bool)
    ensures
        r == is_access_label(label@),
{
    contains_str(label.as_str(), "Table Scan") || contains_str(label.as_str(), "Index Scan")
        || contains_str(label.as_str(), "Primary Key Lookup")
}

fn collect_paths(node: &PlanNode, paths: &mut Vec<String>)
    ensures
        strings_view(final(paths)@) == strings_view(old(paths)@) + paths_of(node_view(*node)),
    decreases *node,
{
    let ghost start = strings_view(paths@);
    if is_access(&node.label) {
        paths.push(node.label.clone());
        assert(strings_view(paths@) =~= start + seq![node.label@]);
    } else {
        assert(strings_view(paths@) =~= start + Seq::<Seq<char>>::empty());
    }
    let ghost own = strings_view(paths@);
    let ghost cs = node_view(*node).children;
    let mut i: usize = 0;
    while i < node.children.len()
        invariant
            i <= node.children@.len(),
            cs == node_view(*node).children,
            cs.len() == node.children@.len(),
            strings_view(paths@) == own + paths_of_all(cs.take(i as int)),
        decreases node.children@.len() - i,
    {
        assert(cs[i as int] == node_view(node.children@[i as int]));
        let ghost before = strings_view(paths@);
        collect_paths(&node.children[i], paths);
        proof {
            assert(cs.take(i + 1) =~= cs.take(i as int).push(cs[i as int]));
            lemma_paths_of_all_push(cs.take(i as int), cs[i as int]);
        }
        i = i + 1;
    }
    assert(cs.take(i as int) =~= cs);
    assert(paths_of(node_view(*node)) == (if is_access_label(node.label@) {
        seq![node.label@]
    } else {
        Seq::empty()
    }) + paths_of_all(cs));
}

/// The access paths (table scans, index scans and primary key lookups) of plan trees,
/// in pre-order.
pub fn access_paths(nodes: &[PlanNode]) -> (paths: Vec<String>)
    ensures
        strings_view(paths@) == paths_of_all(nodes_view(nodes@)),
{
    let ghost ns = nodes_view(nodes@);
    let mut paths: Vec<String> = Vec::new();
    let mut i: usize = 0;
    assert(strings_view(paths@) =~= Seq::<Seq<char>>::empty());
    assert(paths_of_all(ns.take(0)) =~= Seq::<Seq<char>>::empty()) by {
        assert(ns.take(0) =~= Seq::<PlanNodeView>::empty());
    }
    while i < nodes.len()
        invariant
            i <= nodes@.len(),
            ns == nodes_view(nodes@),
            strings_view(paths@) == paths_of_all(ns.take(i as int)),
        decreases nodes@.len() - i,
    {
        collect_paths(&nodes[i], &mut paths);
        proof {
            assert(ns.take(i + 1) =~= ns.take(i as int).push(ns[i as int]));
            lemma_paths_of_all_push(ns.take(i as int), ns[i as int]);
        }
        i = i + 1;
    }
    assert(ns.take(i as int) =~= ns);
    paths
}

} // verus!
