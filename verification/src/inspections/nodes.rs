//! Node health unit: readiness and pressure conditions.

use vstd::prelude::*;

use crate::checks::score_from_counts;
use crate::inspections::support::{
    check_row, issue_row, lemma_filter_le, lemma_filter_take_step, spec_check_row,
    spec_flat_issues, spec_issue,
};
use crate::text::{cat3, cat4, string_is, u64_string};
use crate::types::{CheckResult, Issue, IssueSeverity, IssueView};

verus! {

/// What the node rules read of one node: its name and its reported
/// (type, status) condition pairs.
#[derive(Debug)]
pub struct NodeFacts {
    pub name: String,
    pub conditions: Vec<(String, String)>,
}

pub struct NodeFactsView {
    pub name: Seq<char>,
    pub conditions: Seq<(Seq<char>, Seq<char>)>,
}

impl View for NodeFacts {
    type V = NodeFactsView;

    open spec fn view(&self) -> NodeFactsView {
        NodeFactsView { name: self.name@, conditions: self.conditions.deep_view() }
    }
}

impl DeepView for NodeFacts {
    type V = NodeFactsView;

    open spec fn deep_view(&self) -> NodeFactsView {
        self.view()
    }
}

pub open spec fn spec_is_pressure(t: Seq<char>) -> bool {
    t == "MemoryPressure"@ || t == "DiskPressure"@ || t == "PIDPressure"@
}

/// A node with a Ready condition reading True.
pub open spec fn spec_node_ready(f: NodeFactsView) -> bool {
    exists|j: int|
        0 <= j < f.conditions.len() && (#[trigger] f.conditions[j]).0 == "Ready"@
            && f.conditions[j].1 == "True"@
}

/// A node with some pressure condition reading True.
pub open spec fn spec_node_pressured(f: NodeFactsView) -> bool {
    exists|j: int|
        0 <= j < f.conditions.len() && spec_is_pressure((#[trigger] f.conditions[j]).0)
            && f.conditions[j].1 == "True"@
}

/// The findings one condition yields.
pub open spec fn spec_condition_issues(
    f: NodeFactsView,
    c: (Seq<char>, Seq<char>),
) -> Seq<IssueView> {
    if c.0 == "Ready"@ && c.1 != "True"@ {
        seq![
            spec_issue(
                IssueSeverity::Critical,
                "Node"@,
                "Node "@ + f.name + " is not ready"@,
                Some(f.name),
                "Check node logs and system resources"@,
                "NODE-001"@,
            ),
        ]
    } else if spec_is_pressure(c.0) && c.1 == "True"@ {
        seq![
            spec_issue(
                IssueSeverity::Warning,
                "Node"@,
                "Node "@ + f.name + " has "@ + c.0,
                Some(f.name),
                "Investigate "@ + c.0 + " on node"@,
                "NODE-002"@,
            ),
        ]
    } else {
        Seq::empty()
    }
}

pub open spec fn spec_node_issues(f: NodeFactsView) -> Seq<IssueView> {
    spec_flat_issues(f.conditions, |c: (Seq<char>, Seq<char>)| spec_condition_issues(f, c))
}

pub struct NodeClassification {
    pub checks: Vec<CheckResult>,
    pub issues: Vec<Issue>,
}

/// Classifies the node facts: the readiness and pressure checks, and one
/// finding per failing condition.
pub fn classify_nodes(nodes: &Vec<NodeFacts>) -> (r: NodeClassification)
    ensures
        r.issues.deep_view() == spec_flat_issues(
            nodes.deep_view(),
            |f: NodeFactsView| spec_node_issues(f),
        ),
        r.checks@.len() == 2,
        r.checks.deep_view()[0] == spec_check_row(
            "Node Readiness"@,
            "Checks if all nodes are in Ready state"@,
            crate::checks::spec_score_from_counts(
                nodes.deep_view().filter(|f: NodeFactsView| spec_node_ready(f)).len() as int,
                nodes.deep_view().len() as int,
                0,
            ) as u64,
            crate::text::spec_u64_chars(
                nodes.deep_view().filter(|f: NodeFactsView| spec_node_ready(f)).len() as int,
            ) + "/"@ + crate::text::spec_u64_chars(nodes.deep_view().len() as int)
                + " nodes are ready"@,
            "Investigate non-ready nodes"@,
            100_000,
        ),
        r.checks.deep_view()[1] == spec_check_row(
            "Node Pressure"@,
            "Checks for memory, disk, or PID pressure on nodes"@,
            crate::checks::spec_score_from_counts(
                nodes.deep_view().len() as int - nodes.deep_view().filter(
                    |f: NodeFactsView| spec_node_pressured(f),
                ).len() as int,
                nodes.deep_view().len() as int,
                100_000,
            ) as u64,
            crate::text::spec_u64_chars(
                nodes.deep_view().len() as int - nodes.deep_view().filter(
                    |f: NodeFactsView| spec_node_pressured(f),
                ).len() as int,
            ) + "/"@ + crate::text::spec_u64_chars(nodes.deep_view().len() as int)
                + " nodes without pressure"@,
            "Monitor node resource usage and consider scaling"@,
            100_000,
        ),
{
    let ghost nv = nodes.deep_view();
    let mut issues: Vec<Issue> = Vec::new();
    let mut ready: u64 = 0;
    let mut pressured: u64 = 0;
    let mut i: usize = 0;
    proof {
        reveal(Seq::filter);
        assert(nv.take(0int) =~= Seq::<NodeFactsView>::empty());
    }
    while i < nodes.len()
        invariant
            i <= nodes@.len(),
            nv == nodes.deep_view(),
            nv.len() == nodes@.len(),
            issues.deep_view() == spec_flat_issues(
                nv.take(i as int),
                |f: NodeFactsView| spec_node_issues(f),
            ),
            ready == nv.take(i as int).filter(|f: NodeFactsView| spec_node_ready(f)).len(),
            pressured == nv.take(i as int).filter(
                |f: NodeFactsView| spec_node_pressured(f),
            ).len(),
            ready <= i && pressured <= i,
        decreases nodes@.len() - i,
    {
        proof {
            reveal(Seq::filter);
            assert(nv.take(i + 1int).drop_last() == nv.take(i as int));
            assert(nv.take(i + 1int).last() == nv[i as int]);
            assert(nodes@[i as int]@ == nv[i as int]);
            lemma_filter_take_step(nv, |f: NodeFactsView| spec_node_ready(f), i as int);
            lemma_filter_take_step(nv, |f: NodeFactsView| spec_node_pressured(f), i as int);
        }
        let f = &nodes[i];
        if node_is_ready(f) {
            ready = ready + 1;
        }
        if node_is_pressured(f) {
            pressured = pressured + 1;
        }
        let mut batch = node_issues(f);
        let ghost pre = issues.deep_view();
        let ghost bv = batch.deep_view();
        issues.append(&mut batch);
        proof {
            assert(issues.deep_view() =~= pre + bv);
            assert(bv == spec_node_issues(nv[i as int]));
            assert(issues.deep_view() =~= spec_flat_issues(
                nv.take(i + 1int),
                |f: NodeFactsView| spec_node_issues(f),
            ));
        }
        i = i + 1;
    }
    proof {
        assert(nv.take(nodes@.len() as int) == nv);
        lemma_filter_le(nv, |f: NodeFactsView| spec_node_ready(f));
        lemma_filter_le(nv, |f: NodeFactsView| spec_node_pressured(f));
    }
    let total = nodes.len() as u64;
    let readiness_score = score_from_counts(ready, total, 0);
    let rr = u64_string(ready);
    let tt = u64_string(total);
    let c0 = check_row(
        "Node Readiness",
        "Checks if all nodes are in Ready state",
        readiness_score,
        cat4(rr.as_str(), "/", tt.as_str(), " nodes are ready"),
        "Investigate non-ready nodes",
        100_000,
    );
    let without = total - pressured;
    let pressure_score = score_from_counts(without, total, 100_000);
    let ww = u64_string(without);
    let c1 = check_row(
        "Node Pressure",
        "Checks for memory, disk, or PID pressure on nodes",
        pressure_score,
        cat4(ww.as_str(), "/", tt.as_str(), " nodes without pressure"),
        "Monitor node resource usage and consider scaling",
        100_000,
    );
    let mut checks: Vec<CheckResult> = Vec::new();
    checks.push(c0);
    checks.push(c1);
    NodeClassification { checks, issues }
}

fn node_is_ready(f: &NodeFacts) -> (r: bool)
    ensures
        r == spec_node_ready(f@),
{
    let mut j: usize = 0;
    while j < f.conditions.len()
        invariant
            j <= f.conditions@.len(),
            forall|t: int|
                0 <= t < j ==> !((#[trigger] f.conditions.deep_view()[t]).0 == "Ready"@
                    && f.conditions.deep_view()[t].1 == "True"@),
        decreases f.conditions@.len() - j,
    {
        proof {
            assert(f.conditions.deep_view()[j as int].0 == f.conditions@[j as int].0@);
            assert(f.conditions.deep_view()[j as int].1 == f.conditions@[j as int].1@);
        }
        if string_is(&f.conditions[j].0, "Ready") && string_is(&f.conditions[j].1, "True") {
            proof {
                let cc = f@.conditions[j as int];
                assert(cc.0 == "Ready"@ && cc.1 == "True"@);
                assert(spec_node_ready(f@));
            }
            return true;
        }
        j = j + 1;
    }
    false
}

fn is_pressure_type(t: &String) -> (r: bool)
    ensures
        r == spec_is_pressure(t@),
{
    string_is(t, "MemoryPressure") || string_is(t, "DiskPressure") || string_is(t, "PIDPressure")
}

fn node_is_pressured(f: &NodeFacts) -> (r: bool)
    ensures
        r == spec_node_pressured(f@),
{
    let mut j: usize = 0;
    while j < f.conditions.len()
        invariant
            j <= f.conditions@.len(),
            forall|t: int|
                0 <= t < j ==> !(spec_is_pressure((#[trigger] f.conditions.deep_view()[t]).0)
                    && f.conditions.deep_view()[t].1 == "True"@),
        decreases f.conditions@.len() - j,
    {
        proof {
            assert(f.conditions.deep_view()[j as int].0 == f.conditions@[j as int].0@);
            assert(f.conditions.deep_view()[j as int].1 == f.conditions@[j as int].1@);
        }
        if is_pressure_type(&f.conditions[j].0) && string_is(&f.conditions[j].1, "True") {
            proof {
                let cc = f@.conditions[j as int];
                assert(spec_is_pressure(cc.0) && cc.1 == "True"@);
                assert(spec_node_pressured(f@));
            }
            return true;
        }
        j = j + 1;
    }
    false
}

/// One node's findings: one per failing condition, in condition order.
fn node_issues(f: &NodeFacts) -> (r: Vec<Issue>)
    ensures
        r.deep_view() == spec_node_issues(f@),
{
    let mut r: Vec<Issue> = Vec::new();
    let ghost csv = f@.conditions;
    let ghost g = |c: (Seq<char>, Seq<char>)| spec_condition_issues(f@, c);
    let mut j: usize = 0;
    proof {
        assert(csv.take(0int) =~= Seq::<(Seq<char>, Seq<char>)>::empty());
    }
    while j < f.conditions.len()
        invariant
            j <= f.conditions@.len(),
            csv == f@.conditions,
            csv.len() == f.conditions@.len(),
            g == (|c: (Seq<char>, Seq<char>)| spec_condition_issues(f@, c)),
            r.deep_view() == spec_flat_issues(csv.take(j as int), g),
        decreases f.conditions@.len() - j,
    {
        proof {
            assert(csv.take(j + 1int).drop_last() == csv.take(j as int));
            assert(csv.take(j + 1int).last() == csv[j as int]);
            assert(f.conditions@[j as int].0@ == csv[j as int].0);
            assert(f.conditions@[j as int].1@ == csv[j as int].1);
        }
        let c = &f.conditions[j];
        let ghost pre = r.deep_view();
        if string_is(&c.0, "Ready") && !string_is(&c.1, "True") {
            let row = issue_row(
                IssueSeverity::Critical,
                "Node",
                cat3("Node ", f.name.as_str(), " is not ready"),
                Some(f.name.clone()),
                "Check node logs and system resources",
                "NODE-001",
            );
            let ghost rv = row@;
            r.push(row);
            proof {
                assert(r.deep_view() =~= pre.push(rv));
                assert(rv == g(csv[j as int])[0]);
                assert(g(csv[j as int]) =~= seq![rv]);
            }
        } else if is_pressure_type(&c.0) && string_is(&c.1, "True") {
            let row = issue_row(
                IssueSeverity::Warning,
                "Node",
                cat4("Node ", f.name.as_str(), " has ", c.0.as_str()),
                Some(f.name.clone()),
                cat3("Investigate ", c.0.as_str(), " on node").as_str(),
                "NODE-002",
            );
            let ghost rv = row@;
            r.push(row);
            proof {
                assert(r.deep_view() =~= pre.push(rv));
                assert(rv == g(csv[j as int])[0]);
                assert(g(csv[j as int]) =~= seq![rv]);
            }
        }
        proof {
            assert(r.deep_view() =~= spec_flat_issues(csv.take(j + 1int), g));
        }
        j = j + 1;
    }
    proof {
        assert(csv.take(f.conditions@.len() as int) == csv);
    }
    r
}

} // verus!
