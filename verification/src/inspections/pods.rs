//! Pod status unit: phases, readiness, container states and restart
//! counts.

use vstd::prelude::*;

use crate::checks::score_from_counts;
use crate::inspections::support::{
    check_row, issue_row, lemma_filter_le, lemma_filter_take_step, spec_check_row,
    spec_flat_issues, spec_flat_map, spec_issue,
};
use crate::issue_codes::{container_state_reason_to_rule_id, spec_container_state_rule};
use crate::text::{
    cat2, cat3, cat4, cat5, cat7, cat8, cat9, string_is, u64_string, spec_u64_chars,
};
use crate::types::{
    CheckResult, Issue, IssueSeverity, IssueView, PodContainerStateRow, PodContainerStateRowView,
};

verus! {

/// What the pod rules read of one container status.
#[derive(Debug)]
pub struct PodContainerFact {
    pub name: String,
    pub waiting: bool,
    /// The waiting reason, already defaulted by the caller when absent.
    pub waiting_reason: String,
    pub waiting_message: String,
    /// A terminated state with a nonzero exit code.
    pub terminated_nonzero: bool,
    pub terminated_reason: String,
    pub terminated_exit_code: i64,
    pub restart_count: u32,
}

pub struct PodContainerFactView {
    pub name: Seq<char>,
    pub waiting: bool,
    pub waiting_reason: Seq<char>,
    pub waiting_message: Seq<char>,
    pub terminated_nonzero: bool,
    pub terminated_reason: Seq<char>,
    pub terminated_exit_code: i64,
    pub restart_count: u32,
}

impl View for PodContainerFact {
    type V = PodContainerFactView;

    open spec fn view(&self) -> PodContainerFactView {
        PodContainerFactView {
            name: self.name@,
            waiting: self.waiting,
            waiting_reason: self.waiting_reason@,
            waiting_message: self.waiting_message@,
            terminated_nonzero: self.terminated_nonzero,
            terminated_reason: self.terminated_reason@,
            terminated_exit_code: self.terminated_exit_code,
            restart_count: self.restart_count,
        }
    }
}

impl DeepView for PodContainerFact {
    type V = PodContainerFactView;

    open spec fn deep_view(&self) -> PodContainerFactView {
        self.view()
    }
}

/// What the pod rules read of one pod.
#[derive(Debug)]
pub struct PodFacts {
    pub namespace: String,
    pub name: String,
    pub phase: String,
    /// A Running pod whose Ready condition reads False.
    pub ready_false: bool,
    pub ready_reason: String,
    pub ready_message: String,
    /// A Pending pod whose PodScheduled condition reads False.
    pub scheduled_false: bool,
    pub containers: Vec<PodContainerFact>,
}

pub struct PodFactsView {
    pub namespace: Seq<char>,
    pub name: Seq<char>,
    pub phase: Seq<char>,
    pub ready_false: bool,
    pub ready_reason: Seq<char>,
    pub ready_message: Seq<char>,
    pub scheduled_false: bool,
    pub containers: Seq<PodContainerFactView>,
}

impl View for PodFacts {
    type V = PodFactsView;

    open spec fn view(&self) -> PodFactsView {
        PodFactsView {
            namespace: self.namespace@,
            name: self.name@,
            phase: self.phase@,
            ready_false: self.ready_false,
            ready_reason: self.ready_reason@,
            ready_message: self.ready_message@,
            scheduled_false: self.scheduled_false,
            containers: self.containers.deep_view(),
        }
    }
}

impl DeepView for PodFacts {
    type V = PodFactsView;

    open spec fn deep_view(&self) -> PodFactsView {
        self.view()
    }
}

/// Signed decimal rendering.
pub open spec fn spec_i64_chars(n: int) -> Seq<char> {
    if n < 0 {
        "-"@ + spec_u64_chars(-n)
    } else {
        spec_u64_chars(n)
    }
}

fn i64_string(n: i64) -> (r: String)
    ensures
        r@ == spec_i64_chars(n as int),
{
    if n >= 0 {
        u64_string(n as u64)
    } else {
        let mag: u64 = (-(n as i128)) as u64;
        let digits = u64_string(mag);
        cat2("-", digits.as_str())
    }
}

/// The phase findings of one pod.
pub open spec fn spec_pod_phase_issues(f: PodFactsView) -> Seq<IssueView> {
    if f.phase == "Running"@ && f.ready_false {
        seq![
            spec_issue(
                IssueSeverity::Critical,
                "Pod"@,
                (if f.ready_message.len() == 0 {
                    "Pod "@ + f.namespace + "/"@ + f.name + " is Running but not Ready ("@
                        + f.ready_reason + ")"@
                } else {
                    "Pod "@ + f.namespace + "/"@ + f.name + " is Running but not Ready ("@
                        + f.ready_reason + "): "@ + f.ready_message
                }),
                Some(f.namespace + "/"@ + f.name),
                "Check readiness probes, container logs, and pod events (e.g. kubectl describe pod)"@,
                "POD-012"@,
            ),
        ]
    } else if f.phase == "Failed"@ {
        seq![
            spec_issue(
                IssueSeverity::Critical,
                "Pod"@,
                "Pod "@ + f.namespace + "/"@ + f.name + " is in Failed state"@,
                Some(f.namespace + "/"@ + f.name),
                "Check pod logs and events"@,
                "POD-001"@,
            ),
        ]
    } else if f.phase == "Pending"@ && f.scheduled_false {
        seq![
            spec_issue(
                IssueSeverity::Warning,
                "Pod"@,
                "Pod "@ + f.namespace + "/"@ + f.name + " cannot be scheduled"@,
                Some(f.namespace + "/"@ + f.name),
                "Check resource requests and node capacity"@,
                "POD-002"@,
            ),
        ]
    } else {
        Seq::empty()
    }
}

/// The abnormal-state findings of one container.
pub open spec fn spec_container_state_issues(
    f: PodFactsView,
    c: PodContainerFactView,
) -> Seq<IssueView> {
    (if c.waiting {
        seq![
            spec_issue(
                IssueSeverity::Critical,
                "Container"@,
                (if c.waiting_message.len() == 0 {
                    "Pod "@ + f.namespace + "/"@ + f.name + " has container "@ + c.name
                        + " in state "@ + c.waiting_reason
                } else {
                    "Pod "@ + f.namespace + "/"@ + f.name + " has container "@ + c.name
                        + " in state "@ + c.waiting_reason + ": "@ + c.waiting_message
                }),
                Some(f.namespace + "/"@ + f.name),
                "Check image, pull secrets, and pod events (e.g. kubectl describe pod)"@,
                spec_container_state_rule("waiting"@, c.waiting_reason),
            ),
        ]
    } else {
        Seq::empty()
    }) + (if c.terminated_nonzero {
        seq![
            spec_issue(
                IssueSeverity::Critical,
                "Container"@,
                "Pod "@ + f.namespace + "/"@ + f.name + " container "@ + c.name
                    + " terminated: reason="@ + c.terminated_reason + ", exit_code="@
                    + spec_i64_chars(c.terminated_exit_code as int),
                Some(f.namespace + "/"@ + f.name),
                "Check container logs and events"@,
                spec_container_state_rule("terminated"@, c.terminated_reason),
            ),
        ]
    } else {
        Seq::empty()
    })
}

/// The table rows of one container.
pub open spec fn spec_container_rows(
    f: PodFactsView,
    c: PodContainerFactView,
) -> Seq<PodContainerStateRowView> {
    (if c.waiting {
        seq![
            PodContainerStateRowView {
                pod_ref: f.namespace + "/"@ + f.name,
                container_name: c.name,
                state_kind: "waiting"@,
                reason: c.waiting_reason,
                detail: c.waiting_message,
            },
        ]
    } else {
        Seq::empty()
    }) + (if c.terminated_nonzero {
        seq![
            PodContainerStateRowView {
                pod_ref: f.namespace + "/"@ + f.name,
                container_name: c.name,
                state_kind: "terminated"@,
                reason: c.terminated_reason,
                detail: "exit_code="@ + spec_i64_chars(c.terminated_exit_code as int),
            },
        ]
    } else {
        Seq::empty()
    })
}

/// The reason texts one container contributes to the state tally.
pub open spec fn spec_container_reasons(c: PodContainerFactView) -> Seq<Seq<char>> {
    (if c.waiting {
        seq![c.waiting_reason]
    } else {
        Seq::empty()
    }) + (if c.terminated_nonzero {
        seq![c.terminated_reason]
    } else {
        Seq::empty()
    })
}

/// The restart findings of one container: none at zero restarts, Info up
/// to three, Warning up to ten, Critical beyond.
pub open spec fn spec_restart_issues(f: PodFactsView, c: PodContainerFactView) -> Seq<IssueView> {
    if c.restart_count == 0 {
        Seq::empty()
    } else {
        seq![
            spec_issue(
                (if c.restart_count <= 3 {
                    IssueSeverity::Info
                } else if c.restart_count <= 10 {
                    IssueSeverity::Warning
                } else {
                    IssueSeverity::Critical
                }),
                "Container"@,
                "Container "@ + c.name + " in pod "@ + f.namespace + "/"@ + f.name + " has "@
                    + spec_u64_chars(c.restart_count as int) + " restarts"@,
                Some(f.namespace + "/"@ + f.name),
                "Investigate container crashes and resource limits"@,
                "POD-003"@,
            ),
        ]
    }
}

/// The findings one pod yields: phase, container states, restarts.
pub open spec fn spec_pod_issues(f: PodFactsView) -> Seq<IssueView> {
    spec_pod_phase_issues(f) + spec_flat_issues(
        f.containers,
        |c: PodContainerFactView| spec_container_state_issues(f, c),
    ) + spec_flat_issues(f.containers, |c: PodContainerFactView| spec_restart_issues(f, c))
}

pub open spec fn spec_pod_rows(f: PodFactsView) -> Seq<PodContainerStateRowView> {
    spec_flat_map(f.containers, |c: PodContainerFactView| spec_container_rows(f, c))
}

pub open spec fn spec_pod_reasons(f: PodFactsView) -> Seq<Seq<char>> {
    spec_flat_map(f.containers, |c: PodContainerFactView| spec_container_reasons(c))
}

/// A pod with a container past three restarts.
pub open spec fn spec_pod_excessive_restarts(f: PodFactsView) -> bool {
    exists|j: int| 0 <= j < f.containers.len() && (#[trigger] f.containers[j]).restart_count > 3
}

/// First counted reason matching the text, or -1.
pub open spec fn spec_find_reason(counts: Seq<(Seq<char>, u64)>, text: Seq<char>) -> int
    decreases counts.len(),
{
    if counts.len() == 0 {
        -1
    } else if counts[0].0 == text {
        0
    } else {
        let r = spec_find_reason(counts.skip(1), text);
        if r < 0 {
            -1
        } else {
            r + 1
        }
    }
}

/// Occurrence counts of the reasons, first-seen order. The counts stay
/// exact below the counter cap, which no real list reaches.
pub open spec fn spec_reason_counts(reasons: Seq<Seq<char>>) -> Seq<(Seq<char>, u64)>
    decreases reasons.len(),
{
    if reasons.len() == 0 {
        Seq::empty()
    } else {
        let rest = spec_reason_counts(reasons.drop_last());
        let idx = spec_find_reason(rest, reasons.last());
        if idx < 0 {
            rest.push((reasons.last(), 1u64))
        } else {
            rest.update(idx, (rest[idx].0, vstd::math::min(rest[idx].1 + 1, u64::MAX as int) as u64))
        }
    }
}

/// The reason tally as the details text shows it: "n reason" pairs,
/// comma separated.
pub open spec fn spec_reason_summary(counts: Seq<(Seq<char>, u64)>) -> Seq<char>
    decreases counts.len(),
{
    if counts.len() == 0 {
        Seq::empty()
    } else if counts.len() == 1 {
        spec_u64_chars(counts[0].1 as int) + " "@ + counts[0].0
    } else {
        spec_reason_summary(counts.drop_last()) + ", "@ + spec_u64_chars(
            counts.last().1 as int,
        ) + " "@ + counts.last().0
    }
}

pub struct PodClassification {
    pub checks: Vec<CheckResult>,
    pub issues: Vec<Issue>,
    pub container_state_rows: Vec<PodContainerStateRow>,
}

/// The pod health details: the phase tally, and the container-state
/// tally when any abnormal state was seen.
pub open spec fn spec_pod_health_details(fs: Seq<PodFactsView>) -> Seq<char> {
    let base = "Running: "@ + spec_u64_chars(
        fs.filter(|f: PodFactsView| f.phase == "Running"@).len() as int,
    ) + ", Failed: "@ + spec_u64_chars(
        fs.filter(|f: PodFactsView| f.phase == "Failed"@).len() as int,
    ) + ", Pending: "@ + spec_u64_chars(
        fs.filter(|f: PodFactsView| f.phase == "Pending"@).len() as int,
    ) + ", Total: "@ + spec_u64_chars(fs.len() as int);
    let counts = spec_reason_counts(spec_flat_map(fs, |f: PodFactsView| spec_pod_reasons(f)));
    if counts.len() == 0 {
        base
    } else {
        base + ". Container states: "@ + spec_reason_summary(counts)
    }
}

/// Classifies the pod facts: the health and stability checks, the
/// findings in rule order, and the container state rows.
pub fn classify_pods(pods: &Vec<PodFacts>) -> (r: PodClassification)
    requires
        pods@.len() <= 0x8000_0000,
        forall|i: int|
            0 <= i < pods@.len() ==> (#[trigger] pods.deep_view()[i]).containers.len()
                <= 0x8000_0000,
    ensures
        r.issues.deep_view() == spec_flat_issues(
            pods.deep_view(),
            |f: PodFactsView| spec_pod_issues(f),
        ),
        r.container_state_rows.deep_view() == spec_flat_map(
            pods.deep_view(),
            |f: PodFactsView| spec_pod_rows(f),
        ),
        r.checks@.len() == 2,
        r.checks.deep_view()[0] == spec_check_row(
            "Pod Health"@,
            "Checks if pods are running successfully"@,
            crate::checks::spec_score_from_counts(
                pods.deep_view().filter(|f: PodFactsView| f.phase == "Running"@).len() as int,
                pods.deep_view().len() as int,
                100_000,
            ) as u64,
            spec_pod_health_details(pods.deep_view()),
            "Investigate failed and pending pods"@,
            95_000,
        ),
        r.checks.deep_view()[1] == spec_check_row(
            "Pod Stability"@,
            "Checks for excessive pod restarts"@,
            crate::checks::spec_score_from_counts(
                pods.deep_view().len() as int - pods.deep_view().filter(
                    |f: PodFactsView| spec_pod_excessive_restarts(f),
                ).len() as int,
                pods.deep_view().len() as int,
                100_000,
            ) as u64,
            spec_u64_chars(
                pods.deep_view().filter(
                    |f: PodFactsView| spec_pod_excessive_restarts(f),
                ).len() as int,
            ) + "/"@ + spec_u64_chars(pods.deep_view().len() as int)
                + " pods with excessive restarts"@,
            "Review application logs and resource limits"@,
            90_000,
        ),
{
    let ghost pv = pods.deep_view();
    let mut issues: Vec<Issue> = Vec::new();
    let mut rows: Vec<PodContainerStateRow> = Vec::new();
    let mut reasons: Vec<String> = Vec::new();
    let mut running: u64 = 0;
    let mut failed: u64 = 0;
    let mut pending: u64 = 0;
    let mut with_restarts: u64 = 0;
    let mut i: usize = 0;
    proof {
        reveal(Seq::filter);
        assert(pv.take(0int) =~= Seq::<PodFactsView>::empty());
    }
    while i < pods.len()
        invariant
            i <= pods@.len(),
            pv == pods.deep_view(),
            pv.len() == pods@.len(),
            issues.deep_view() == spec_flat_issues(
                pv.take(i as int),
                |f: PodFactsView| spec_pod_issues(f),
            ),
            rows.deep_view() == spec_flat_map(pv.take(i as int), |f: PodFactsView| spec_pod_rows(f)),
            reasons.deep_view() == spec_flat_map(
                pv.take(i as int),
                |f: PodFactsView| spec_pod_reasons(f),
            ),
            running == pv.take(i as int).filter(|f: PodFactsView| f.phase == "Running"@).len(),
            failed == pv.take(i as int).filter(|f: PodFactsView| f.phase == "Failed"@).len(),
            pending == pv.take(i as int).filter(|f: PodFactsView| f.phase == "Pending"@).len(),
            with_restarts == pv.take(i as int).filter(
                |f: PodFactsView| spec_pod_excessive_restarts(f),
            ).len(),
            running <= i && failed <= i && pending <= i && with_restarts <= i,
        decreases pods@.len() - i,
    {
        proof {
            reveal(Seq::filter);
            assert(pv.take(i + 1int).drop_last() == pv.take(i as int));
            assert(pv.take(i + 1int).last() == pv[i as int]);
            assert(pods@[i as int]@ == pv[i as int]);
            lemma_filter_take_step(pv, |f: PodFactsView| f.phase == "Running"@, i as int);
            lemma_filter_take_step(pv, |f: PodFactsView| f.phase == "Failed"@, i as int);
            lemma_filter_take_step(pv, |f: PodFactsView| f.phase == "Pending"@, i as int);
            lemma_filter_take_step(
                pv,
                |f: PodFactsView| spec_pod_excessive_restarts(f),
                i as int,
            );
        }
        let f = &pods[i];
        if string_is(&f.phase, "Running") {
            running = running + 1;
        }
        if string_is(&f.phase, "Failed") {
            failed = failed + 1;
        }
        if string_is(&f.phase, "Pending") {
            pending = pending + 1;
        }
        if pod_has_excessive_restarts(f) {
            with_restarts = with_restarts + 1;
        }
        let mut batch = pod_issues(f);
        let ghost pre_i = issues.deep_view();
        let ghost bv = batch.deep_view();
        issues.append(&mut batch);
        let mut row_batch = pod_rows(f);
        let ghost pre_r = rows.deep_view();
        let ghost rbv = row_batch.deep_view();
        rows.append(&mut row_batch);
        let mut reason_batch = pod_reasons(f);
        let ghost pre_s = reasons.deep_view();
        let ghost sbv = reason_batch.deep_view();
        reasons.append(&mut reason_batch);
        proof {
            assert(issues.deep_view() =~= pre_i + bv);
            assert(bv == spec_pod_issues(pv[i as int]));
            assert(issues.deep_view() =~= spec_flat_issues(
                pv.take(i + 1int),
                |f: PodFactsView| spec_pod_issues(f),
            ));
            assert(rows.deep_view() =~= pre_r + rbv);
            assert(rbv == spec_pod_rows(pv[i as int]));
            assert(rows.deep_view() =~= spec_flat_map(
                pv.take(i + 1int),
                |f: PodFactsView| spec_pod_rows(f),
            ));
            assert(reasons.deep_view() =~= pre_s + sbv);
            assert(sbv == spec_pod_reasons(pv[i as int]));
            assert(reasons.deep_view() =~= spec_flat_map(
                pv.take(i + 1int),
                |f: PodFactsView| spec_pod_reasons(f),
            ));
        }
        i = i + 1;
    }
    proof {
        assert(pv.take(pods@.len() as int) == pv);
        lemma_filter_le(pv, |f: PodFactsView| f.phase == "Running"@);
        lemma_filter_le(pv, |f: PodFactsView| spec_pod_excessive_restarts(f));
    }

    // the reason tally and its summary text
    let counts = count_reasons(&reasons);
    let total = pods.len() as u64;
    let health_score = score_from_counts(running, total, 100_000);
    let details0 = {
        let rr = u64_string(running);
        let ff = u64_string(failed);
        let pp = u64_string(pending);
        let tt = u64_string(total);
        let base = cat8(
            "Running: ",
            rr.as_str(),
            ", Failed: ",
            ff.as_str(),
            ", Pending: ",
            pp.as_str(),
            ", Total: ",
            tt.as_str(),
        );
        if counts.len() == 0 {
            base
        } else {
            let summary = reason_summary(&counts);
            cat3(base.as_str(), ". Container states: ", summary.as_str())
        }
    };
    let c0 = check_row(
        "Pod Health",
        "Checks if pods are running successfully",
        health_score,
        details0,
        "Investigate failed and pending pods",
        95_000,
    );

    let stability_score = score_from_counts(total - with_restarts, total, 100_000);
    let wr = u64_string(with_restarts);
    let tt = u64_string(total);
    let c1 = check_row(
        "Pod Stability",
        "Checks for excessive pod restarts",
        stability_score,
        cat4(wr.as_str(), "/", tt.as_str(), " pods with excessive restarts"),
        "Review application logs and resource limits",
        90_000,
    );

    let mut checks: Vec<CheckResult> = Vec::new();
    checks.push(c0);
    checks.push(c1);
    PodClassification { checks, issues, container_state_rows: rows }
}

/// First counted reason with this text, if any.
fn find_reason_index(counts: &Vec<(String, u64)>, text: &String) -> (r: Option<usize>)
    ensures
        (match r {
            Some(idx) => idx < counts@.len() && spec_find_reason(counts.deep_view(), text@) == idx,
            None => spec_find_reason(counts.deep_view(), text@) == -1,
        }),
{
    let mut idx: usize = 0;
    while idx < counts.len()
        invariant
            idx <= counts@.len(),
            forall|j: int| 0 <= j < idx ==> (#[trigger] counts.deep_view()[j]).0 != text@,
        decreases counts@.len() - idx,
    {
        proof {
            assert(counts.deep_view()[idx as int].0 == counts@[idx as int].0@);
        }
        if string_is(&counts[idx].0, text.as_str()) {
            proof {
                lemma_find_reason_at(counts.deep_view(), text@, idx as int);
            }
            return Some(idx);
        }
        idx = idx + 1;
    }
    proof {
        lemma_find_reason_at(counts.deep_view(), text@, counts@.len() as int);
    }
    None
}

proof fn lemma_find_reason_at(counts: Seq<(Seq<char>, u64)>, text: Seq<char>, i: int)
    requires
        0 <= i <= counts.len(),
        forall|j: int| 0 <= j < i ==> (#[trigger] counts[j]).0 != text,
        i < counts.len() ==> counts[i].0 == text,
    ensures
        i < counts.len() ==> spec_find_reason(counts, text) == i,
        i == counts.len() ==> spec_find_reason(counts, text) == -1,
    decreases i + 1,
{
    if counts.len() == 0 {
    } else if i == 0 {
    } else {
        assert(forall|j: int| 0 <= j < i - 1 ==> (#[trigger] counts.skip(1)[j]).0 != text);
        lemma_find_reason_at(counts.skip(1), text, i - 1);
    }
}

/// Tallies the reasons in first-seen order.
fn count_reasons(reasons: &Vec<String>) -> (r: Vec<(String, u64)>)
    ensures
        r.deep_view() == spec_reason_counts(reasons.deep_view()),
{
    let ghost all = reasons.deep_view();
    let mut counts: Vec<(String, u64)> = Vec::new();
    let mut i: usize = 0;
    while i < reasons.len()
        invariant
            i <= reasons@.len(),
            all == reasons.deep_view(),
            all.len() == reasons@.len(),
            counts.deep_view() == spec_reason_counts(all.take(i as int)),
        decreases reasons@.len() - i,
    {
        proof {
            assert(all.take(i + 1int).drop_last() == all.take(i as int));
            assert(all.take(i + 1int).last() == all[i as int]);
            assert(reasons@[i as int]@ == all[i as int]);
        }
        let ghost pre = counts.deep_view();
        match find_reason_index(&counts, &reasons[i]) {
            Some(idx) => {
                let entry = counts.remove(idx);
                let bumped: u64 = if entry.1 < u64::MAX {
                    entry.1 + 1
                } else {
                    u64::MAX
                };
                counts.insert(idx, (entry.0, bumped));
                proof {
                    assert(counts.deep_view() =~~= pre.update(
                        idx as int,
                        (
                            pre[idx as int].0,
                            vstd::math::min(pre[idx as int].1 + 1, u64::MAX as int) as u64,
                        ),
                    ));
                }
            },
            None => {
                counts.push((reasons[i].clone(), 1));
                proof {
                    assert(counts.deep_view() =~~= pre.push((all[i as int], 1u64)));
                }
            },
        }
        i = i + 1;
    }
    proof {
        assert(all.take(reasons@.len() as int) == all);
    }
    counts
}

/// Renders the reason tally.
fn reason_summary(counts: &Vec<(String, u64)>) -> (r: String)
    ensures
        r@ == spec_reason_summary(counts.deep_view()),
{
    let ghost all = counts.deep_view();
    let mut out = String::new();
    let mut i: usize = 0;
    while i < counts.len()
        invariant
            i <= counts@.len(),
            all == counts.deep_view(),
            all.len() == counts@.len(),
            out@ == spec_reason_summary(all.take(i as int)),
        decreases counts@.len() - i,
    {
        proof {
            assert(all.take(i + 1int).drop_last() == all.take(i as int));
            assert(all.take(i + 1int).last() == all[i as int]);
            assert(counts@[i as int].0@ == all[i as int].0);
            assert(counts@[i as int].1 == all[i as int].1);
        }
        let n = u64_string(counts[i].1);
        let piece = if i == 0 {
            cat3(n.as_str(), " ", counts[i].0.as_str())
        } else {
            cat4(", ", n.as_str(), " ", counts[i].0.as_str())
        };
        let ghost before = out@;
        out.append(piece.as_str());
        proof {
            if i == 0 {
                assert(all.take(1int).len() == 1);
                assert(all.take(1int)[0] == all[0]);
                assert(out@ =~= spec_reason_summary(all.take(1int)));
            } else {
                assert(out@ =~= spec_reason_summary(all.take(i + 1int)));
            }
        }
        i = i + 1;
    }
    proof {
        assert(all.take(counts@.len() as int) == all);
    }
    out
}

/// Whether some container passed three restarts.
fn pod_has_excessive_restarts(f: &PodFacts) -> (r: bool)
    ensures
        r == spec_pod_excessive_restarts(f@),
{
    let mut j: usize = 0;
    while j < f.containers.len()
        invariant
            j <= f.containers@.len(),
            forall|t: int|
                0 <= t < j ==> (#[trigger] f.containers.deep_view()[t]).restart_count <= 3,
        decreases f.containers@.len() - j,
    {
        proof {
            assert(f.containers.deep_view()[j as int] == f.containers@[j as int]@);
        }
        if f.containers[j].restart_count > 3 {
            proof {
                assert(f@.containers[j as int].restart_count > 3);
                assert(spec_pod_excessive_restarts(f@));
            }
            return true;
        }
        j = j + 1;
    }
    false
}

/// One pod's findings.
fn pod_issues(f: &PodFacts) -> (r: Vec<Issue>)
    ensures
        r.deep_view() == spec_pod_issues(f@),
{
    let mut r: Vec<Issue> = Vec::new();
    let key = cat3(f.namespace.as_str(), "/", f.name.as_str());
    if string_is(&f.phase, "Running") && f.ready_false {
        let desc = if f.ready_message.as_str().is_empty() {
            cat7(
                "Pod ",
                f.namespace.as_str(),
                "/",
                f.name.as_str(),
                " is Running but not Ready (",
                f.ready_reason.as_str(),
                ")",
            )
        } else {
            cat8(
                "Pod ",
                f.namespace.as_str(),
                "/",
                f.name.as_str(),
                " is Running but not Ready (",
                f.ready_reason.as_str(),
                "): ",
                f.ready_message.as_str(),
            )
        };
        r.push(
            issue_row(
                IssueSeverity::Critical,
                "Pod",
                desc,
                Some(key.clone()),
                "Check readiness probes, container logs, and pod events (e.g. kubectl describe pod)",
                "POD-012",
            ),
        );
    } else if string_is(&f.phase, "Failed") {
        r.push(
            issue_row(
                IssueSeverity::Critical,
                "Pod",
                cat5("Pod ", f.namespace.as_str(), "/", f.name.as_str(), " is in Failed state"),
                Some(key.clone()),
                "Check pod logs and events",
                "POD-001",
            ),
        );
    } else if string_is(&f.phase, "Pending") && f.scheduled_false {
        r.push(
            issue_row(
                IssueSeverity::Warning,
                "Pod",
                cat5("Pod ", f.namespace.as_str(), "/", f.name.as_str(), " cannot be scheduled"),
                Some(key.clone()),
                "Check resource requests and node capacity",
                "POD-002",
            ),
        );
    }
    proof {
        assert(r.deep_view() =~= spec_pod_phase_issues(f@));
    }
    // container states
    let ghost csv = f@.containers;
    let ghost base1 = r.deep_view();
    let ghost g1 = |c: PodContainerFactView| spec_container_state_issues(f@, c);
    let mut j: usize = 0;
    proof {
        assert(csv.take(0int) =~= Seq::<PodContainerFactView>::empty());
        assert(base1 + spec_flat_issues(csv.take(0int), g1) =~= base1);
    }
    while j < f.containers.len()
        invariant
            j <= f.containers@.len(),
            csv == f@.containers,
            csv.len() == f.containers@.len(),
            key@ == f@.namespace + "/"@ + f@.name,
            g1 == (|c: PodContainerFactView| spec_container_state_issues(f@, c)),
            r.deep_view() == base1 + spec_flat_issues(csv.take(j as int), g1),
        decreases f.containers@.len() - j,
    {
        proof {
            assert(csv.take(j + 1int).drop_last() == csv.take(j as int));
            assert(csv.take(j + 1int).last() == csv[j as int]);
            assert(f.containers@[j as int]@ == csv[j as int]);
        }
        let c = &f.containers[j];
        let ghost pre = r.deep_view();
        if c.waiting {
            let desc = if c.waiting_message.as_str().is_empty() {
                cat8(
                    "Pod ",
                    f.namespace.as_str(),
                    "/",
                    f.name.as_str(),
                    " has container ",
                    c.name.as_str(),
                    " in state ",
                    c.waiting_reason.as_str(),
                )
            } else {
                let head = cat8(
                    "Pod ",
                    f.namespace.as_str(),
                    "/",
                    f.name.as_str(),
                    " has container ",
                    c.name.as_str(),
                    " in state ",
                    c.waiting_reason.as_str(),
                );
                cat3(head.as_str(), ": ", c.waiting_message.as_str())
            };
            let rule = container_state_reason_to_rule_id("waiting", c.waiting_reason.as_str());
            r.push(
                issue_row(
                    IssueSeverity::Critical,
                    "Container",
                    desc,
                    Some(key.clone()),
                    "Check image, pull secrets, and pod events (e.g. kubectl describe pod)",
                    rule,
                ),
            );
        }
        if c.terminated_nonzero {
            let code = i64_string(c.terminated_exit_code);
            let desc = cat9(
                "Pod ",
                f.namespace.as_str(),
                "/",
                f.name.as_str(),
                " container ",
                c.name.as_str(),
                " terminated: reason=",
                c.terminated_reason.as_str(),
                ", exit_code=",
            );
            let desc2 = cat2(desc.as_str(), code.as_str());
            let rule = container_state_reason_to_rule_id(
                "terminated",
                c.terminated_reason.as_str(),
            );
            r.push(
                issue_row(
                    IssueSeverity::Critical,
                    "Container",
                    desc2,
                    Some(key.clone()),
                    "Check container logs and events",
                    rule,
                ),
            );
        }
        proof {
            assert(r.deep_view() =~= pre + g1(csv[j as int]));
            assert(r.deep_view() =~= base1 + spec_flat_issues(csv.take(j + 1int), g1));
        }
        j = j + 1;
    }
    proof {
        assert(csv.take(f.containers@.len() as int) == csv);
    }
    // restarts
    let ghost base2 = r.deep_view();
    let ghost g2 = |c: PodContainerFactView| spec_restart_issues(f@, c);
    let mut k: usize = 0;
    proof {
        assert(csv.take(0int) =~= Seq::<PodContainerFactView>::empty());
        assert(base2 + spec_flat_issues(csv.take(0int), g2) =~= base2);
    }
    while k < f.containers.len()
        invariant
            k <= f.containers@.len(),
            csv == f@.containers,
            csv.len() == f.containers@.len(),
            key@ == f@.namespace + "/"@ + f@.name,
            g2 == (|c: PodContainerFactView| spec_restart_issues(f@, c)),
            r.deep_view() == base2 + spec_flat_issues(csv.take(k as int), g2),
        decreases f.containers@.len() - k,
    {
        proof {
            assert(csv.take(k + 1int).drop_last() == csv.take(k as int));
            assert(csv.take(k + 1int).last() == csv[k as int]);
            assert(f.containers@[k as int]@ == csv[k as int]);
        }
        let c = &f.containers[k];
        let ghost pre = r.deep_view();
        if c.restart_count > 0 {
            let severity = if c.restart_count <= 3 {
                IssueSeverity::Info
            } else if c.restart_count <= 10 {
                IssueSeverity::Warning
            } else {
                IssueSeverity::Critical
            };
            let rc = u64_string(c.restart_count as u64);
            let desc = cat9(
                "Container ",
                c.name.as_str(),
                " in pod ",
                f.namespace.as_str(),
                "/",
                f.name.as_str(),
                " has ",
                rc.as_str(),
                " restarts",
            );
            r.push(
                issue_row(
                    severity,
                    "Container",
                    desc,
                    Some(key.clone()),
                    "Investigate container crashes and resource limits",
                    "POD-003",
                ),
            );
        }
        proof {
            assert(r.deep_view() =~= pre + g2(csv[k as int]));
            assert(r.deep_view() =~= base2 + spec_flat_issues(csv.take(k + 1int), g2));
        }
        k = k + 1;
    }
    proof {
        assert(csv.take(f.containers@.len() as int) == csv);
        assert(r.deep_view() =~= spec_pod_issues(f@));
    }
    r
}

/// One pod's container state rows.
fn pod_rows(f: &PodFacts) -> (r: Vec<PodContainerStateRow>)
    ensures
        r.deep_view() == spec_pod_rows(f@),
{
    let mut r: Vec<PodContainerStateRow> = Vec::new();
    let ghost csv = f@.containers;
    let ghost g = |c: PodContainerFactView| spec_container_rows(f@, c);
    let mut j: usize = 0;
    proof {
        assert(csv.take(0int) =~= Seq::<PodContainerFactView>::empty());
    }
    while j < f.containers.len()
        invariant
            j <= f.containers@.len(),
            csv == f@.containers,
            csv.len() == f.containers@.len(),
            g == (|c: PodContainerFactView| spec_container_rows(f@, c)),
            r.deep_view() == spec_flat_map(csv.take(j as int), g),
        decreases f.containers@.len() - j,
    {
        proof {
            assert(csv.take(j + 1int).drop_last() == csv.take(j as int));
            assert(csv.take(j + 1int).last() == csv[j as int]);
            assert(f.containers@[j as int]@ == csv[j as int]);
        }
        let c = &f.containers[j];
        let ghost pre = r.deep_view();
        if c.waiting {
            r.push(
                PodContainerStateRow {
                    pod_ref: cat3(f.namespace.as_str(), "/", f.name.as_str()),
                    container_name: c.name.clone(),
                    state_kind: "waiting".to_owned(),
                    reason: c.waiting_reason.clone(),
                    detail: c.waiting_message.clone(),
                },
            );
        }
        if c.terminated_nonzero {
            let code = i64_string(c.terminated_exit_code);
            r.push(
                PodContainerStateRow {
                    pod_ref: cat3(f.namespace.as_str(), "/", f.name.as_str()),
                    container_name: c.name.clone(),
                    state_kind: "terminated".to_owned(),
                    reason: c.terminated_reason.clone(),
                    detail: cat2("exit_code=", code.as_str()),
                },
            );
        }
        proof {
            assert(r.deep_view() =~= pre + g(csv[j as int]));
            assert(r.deep_view() =~= spec_flat_map(csv.take(j + 1int), g));
        }
        j = j + 1;
    }
    proof {
        assert(csv.take(f.containers@.len() as int) == csv);
    }
    r
}

/// One pod's reason contributions.
fn pod_reasons(f: &PodFacts) -> (r: Vec<String>)
    ensures
        r.deep_view() == spec_pod_reasons(f@),
{
    let mut r: Vec<String> = Vec::new();
    let ghost csv = f@.containers;
    let ghost g = |c: PodContainerFactView| spec_container_reasons(c);
    let mut j: usize = 0;
    proof {
        assert(csv.take(0int) =~= Seq::<PodContainerFactView>::empty());
    }
    while j < f.containers.len()
        invariant
            j <= f.containers@.len(),
            csv == f@.containers,
            csv.len() == f.containers@.len(),
            g == (|c: PodContainerFactView| spec_container_reasons(c)),
            r.deep_view() == spec_flat_map(csv.take(j as int), g),
        decreases f.containers@.len() - j,
    {
        proof {
            assert(csv.take(j + 1int).drop_last() == csv.take(j as int));
            assert(csv.take(j + 1int).last() == csv[j as int]);
            assert(f.containers@[j as int]@ == csv[j as int]);
        }
        let c = &f.containers[j];
        let ghost pre = r.deep_view();
        if c.waiting {
            r.push(c.waiting_reason.clone());
        }
        if c.terminated_nonzero {
            r.push(c.terminated_reason.clone());
        }
        proof {
            assert(r.deep_view() =~= pre + g(csv[j as int]));
            assert(r.deep_view() =~= spec_flat_map(csv.take(j + 1int), g));
        }
        j = j + 1;
    }
    proof {
        assert(csv.take(f.containers@.len() as int) == csv);
    }
    r
}

} // verus!
