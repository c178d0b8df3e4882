//! The report of a query analysis and its rendering as text.
use vstd::prelude::*;
use crate::command::strings_view;
use crate::query_lab::plan::{PlanNode, PlanNodeView, node_view, nodes_view};
use crate::query_lab::runtime::MetricsSnapshot;
use crate::text::{nat_digits, push_str, u128_to_decimal, u64_to_decimal};

verus! {

/// What an analysis found out about one SQL text.
#[derive(Debug)]
pub struct AnalysisReport {
    pub sql: String,
    pub plans: Vec<PlanNode>,
    pub access_paths: Vec<String>,
    pub raw_plan: String,
    pub result_rows: usize,
    pub affected_rows: usize,
    pub elapsed_micros: u128,
    pub metrics: MetricsSnapshot,
    pub limitations: Vec<String>,
}

/// The line under a section title.
pub open spec fn rule() -> Seq<char> {
    "────────────────────────────────────────"@
}

/// A section title with its rule, preceded by an empty line.
pub open spec fn section(title: Seq<char>) -> Seq<char> {
    "\n"@ + title + "\n"@ + rule() + "\n"@
}

/// A plan node drawn as a tree under `prefix`; `last` tells whether it is the last child.
pub open spec fn render_node_spec(n: PlanNodeView, prefix: Seq<char>, last: bool) -> Seq<char>
    decreases n, 0int,
{
    let own = prefix + (if last {
        "└─ "@
    } else {
        "├─ "@
    }) + n.label + "\n"@;
    own + render_children_spec(
        n.children,
        0,
        prefix + (if last {
            "   "@
        } else {
            "│  "@
        }),
    )
}

/// The children of a node from position `i` on, drawn under `prefix`.
pub open spec fn render_children_spec(cs: Seq<PlanNodeView>, i: int, prefix: Seq<char>) -> Seq<
    char,
>
    decreases cs, cs.len() - i,
{
    if i < 0 || i >= cs.len() {
        Seq::empty()
    } else {
        render_node_spec(cs[i], prefix, i + 1 == cs.len()) + render_children_spec(cs, i + 1, prefix)
    }
}

/// The plan trees drawn one after another.
pub open spec fn render_plans_spec(ps: Seq<PlanNodeView>) -> Seq<char>
    decreases ps.len(),
{
    if ps.len() == 0 {
        Seq::empty()
    } else {
        render_plans_spec(ps.drop_last()) + render_node_spec(ps.last(), Seq::empty(), true)
    }
}

/// One `- item` line per item.
pub open spec fn bullets(items: Seq<Seq<char>>) -> Seq<char>
    decreases items.len(),
{
    if items.len() == 0 {
        Seq::empty()
    } else {
        bullets(items.drop_last()) + "- "@ + items.last() + "\n"@
    }
}

/// The runtime statistics section.
pub open spec fn runtime_section(r: AnalysisReport) -> Seq<char> {
    let m = r.metrics;
    section("RUNTIME STATISTICS"@) + "fetch_data calls        : "@ + nat_digits(
        m.fetch_data_calls as nat,
    ) + "\nscan_data calls         : "@ + nat_digits(m.scan_data_calls as nat)
        + "\nscan_indexed_data calls : "@ + nat_digits(m.scan_indexed_data_calls as nat)
        + "\nrows consumed           : "@ + nat_digits(m.rows_consumed as nat)
        + "\nrows returned           : "@ + nat_digits(r.result_rows as nat)
        + "\nrows affected           : "@ + nat_digits(r.affected_rows as nat)
        + "\nappend/insert/delete    : "@ + nat_digits(m.append_data_calls as nat) + "/"@
        + nat_digits(m.insert_data_calls as nat) + "/"@ + nat_digits(m.delete_data_calls as nat)
        + "\nelapsed                 : "@ + nat_digits(r.elapsed_micros as nat) + " µs\n"@
}

/// The plan and access path sections.
pub open spec fn plan_sections(r: AnalysisReport) -> Seq<char> {
    section("QUERY PLAN"@) + render_plans_spec(nodes_view(r.plans@)) + section("ACCESS PATH"@) + (
    if r.access_paths@.len() == 0 {
        "No table access path is present in this Statement.\n"@
    } else {
        Seq::empty()
    }) + bullets(strings_view(r.access_paths@))
}

/// The report as text: the SQL, the plan sections unless only the runtime is asked for,
/// the runtime section unless only the plan is asked for, the raw plan when asked for,
/// and the limitations.
pub open spec fn render_tree_spec(
    r: AnalysisReport,
    plan_only: bool,
    runtime_only: bool,
    raw: bool,
) -> Seq<char> {
    "SQL\n"@ + rule() + "\n"@ + r.sql@ + "\n"@ + (if !runtime_only || plan_only {
        plan_sections(r)
    } else {
        Seq::empty()
    }) + (if !plan_only || runtime_only {
        runtime_section(r)
    } else {
        Seq::empty()
    }) + (if raw {
        section("RAW PLAN"@) + r.raw_plan@ + "\n"@
    } else {
        Seq::empty()
    }) + section("LIMITATIONS"@) + bullets(strings_view(r.limitations@))
}

fn push_section(output: &mut String, title: &str)
    ensures
        final(output)@ == old(output)@ + section(title@),
{
    push_str(output, "\n");
    push_str(output, title);
    push_str(output, "\n");
    push_str(output, "────────────────────────────────────────");
    push_str(output, "\n");
}

fn push_bullets(output: &mut String, items: &Vec<String>)
    ensures
        final(output)@ == old(output)@ + bullets(strings_view(items@)),
{
    let ghost start = output@;
    let ghost v = strings_view(items@);
    let mut i: usize = 0;
    assert(v.take(0) =~= Seq::<Seq<char>>::empty());
    while i < items.len()
        invariant
            i <= items@.len(),
            v == strings_view(items@),
            output@ == start + bullets(v.take(i as int)),
        decreases items@.len() - i,
    {
        push_str(output, "- ");
        push_str(output, items[i].as_str());
        push_str(output, "\n");
        assert(v.take(i + 1).drop_last() =~= v.take(i as int));
        i = i + 1;
    }
    assert(v.take(i as int) =~= v);
}

fn render_node(node: &PlanNode, prefix: &String, last: bool, output: &mut String)
    ensures
        final(output)@ == old(output)@ + render_node_spec(node_view(*node), prefix@, last),
    decreases *node, 0int,
{
    let ghost start = output@;
    push_str(output, prefix.as_str());
    if last {
        push_str(output, "└─ ");
    } else {
        push_str(output, "├─ ");
    }
    push_str(output, node.label.as_str());
    push_str(output, "\n");
    let mut next = prefix.clone();
    if last {
        push_str(&mut next, "   ");
    } else {
        push_str(&mut next, "│  ");
    }
    let ghost cs = node_view(*node).children;
    let ghost own = output@;
    let mut i: usize = 0;
    while i < node.children.len()
        invariant
            i <= node.children@.len(),
            cs == node_view(*node).children,
            cs.len() == node.children@.len(),
            output@ + render_children_spec(cs, i as int, next@) == own + render_children_spec(
                cs,
                0,
                next@,
            ),
        decreases node.children@.len() - i,
    {
        assert(cs[i as int] == node_view(node.children@[i as int]));
        render_node(&node.children[i], &next, i + 1 == node.children.len(), output);
        i = i + 1;
    }
    assert(output@ == own + render_children_spec(cs, 0, next@));
}

fn push_plan_sections(report: &AnalysisReport, output: &mut String)
    ensures
        final(output)@ == old(output)@ + plan_sections(*report),
{
    let ghost start = output@;
    push_section(output, "QUERY PLAN");
    let ghost ps = nodes_view(report.plans@);
    let ghost before = output@;
    let empty = String::new();
    let mut i: usize = 0;
    assert(ps.take(0) =~= Seq::<PlanNodeView>::empty());
    while i < report.plans.len()
        invariant
            i <= report.plans@.len(),
            ps == nodes_view(report.plans@),
            empty@ == Seq::<char>::empty(),
            output@ == before + render_plans_spec(ps.take(i as int)),
        decreases report.plans@.len() - i,
    {
        render_node(&report.plans[i], &empty, true, output);
        assert(ps.take(i + 1).drop_last() =~= ps.take(i as int));
        i = i + 1;
    }
    assert(ps.take(i as int) =~= ps);
    push_section(output, "ACCESS PATH");
    if report.access_paths.len() == 0 {
        push_str(output, "No table access path is present in this Statement.\n");
    } else {
        proof {
            reveal_strlit("");
        }
        push_str(output, "");
    }
    push_bullets(output, &report.access_paths);
    assert(output@ =~= start + plan_sections(*report));
}

fn push_counts(output: &mut String, label: &str, n: u64)
    ensures
        final(output)@ == old(output)@ + label@ + nat_digits(n as nat),
{
    push_str(output, label);
    let d = u64_to_decimal(n);
    push_str(output, d.as_str());
}

#[verifier::rlimit(50)]
fn push_runtime_section(report: &AnalysisReport, output: &mut String)
    ensures
        final(output)@ == old(output)@ + runtime_section(*report),
{
    let ghost start = output@;
    let m = &report.metrics;
    push_section(output, "RUNTIME STATISTICS");
    push_counts(output, "fetch_data calls        : ", m.fetch_data_calls);
    push_counts(output, "\nscan_data calls         : ", m.scan_data_calls);
    push_counts(output, "\nscan_indexed_data calls : ", m.scan_indexed_data_calls);
    push_counts(output, "\nrows consumed           : ", m.rows_consumed);
    push_counts(output, "\nrows returned           : ", report.result_rows as u64);
    push_counts(output, "\nrows affected           : ", report.affected_rows as u64);
    push_counts(output, "\nappend/insert/delete    : ", m.append_data_calls);
    push_counts(output, "/", m.insert_data_calls);
    push_counts(output, "/", m.delete_data_calls);
    push_str(output, "\nelapsed                 : ");
    let e = u128_to_decimal(report.elapsed_micros);
    push_str(output, e.as_str());
    push_str(output, " µs\n");
    assert(output@ =~= start + runtime_section(*report));
}

/// The analysis report as text, with the sections chosen by the flags.
pub fn render_tree(report: &AnalysisReport, plan_only: bool, runtime_only: bool, raw: bool) -> (s:
    String)
    ensures
        s@ == render_tree_spec(*report, plan_only, runtime_only, raw),
{
    let mut output = String::new();
    push_str(&mut output, "SQL\n");
    push_str(&mut output, "────────────────────────────────────────");
    push_str(&mut output, "\n");
    push_str(&mut output, report.sql.as_str());
    push_str(&mut output, "\n");
    let ghost head = output@;
    if !runtime_only || plan_only {
        push_plan_sections(report, &mut output);
    }
    let ghost after_plan = output@;
    if !plan_only || runtime_only {
        push_runtime_section(report, &mut output);
    }
    let ghost after_runtime = output@;
    if raw {
        push_section(&mut output, "RAW PLAN");
        push_str(&mut output, report.raw_plan.as_str());
        push_str(&mut output, "\n");
    }
    let ghost after_raw = output@;
    push_section(&mut output, "LIMITATIONS");
    push_bullets(&mut output, &report.limitations);
    assert(output@ =~= render_tree_spec(*report, plan_only, runtime_only, raw));
    output
}

} // verus!
