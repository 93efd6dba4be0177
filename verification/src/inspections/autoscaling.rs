//! Autoscaling unit: horizontal pod autoscaler configuration and health.

use vstd::prelude::*;

use crate::checks::score_from_counts;
use crate::inspections::support::{
    check_row, issue_row, lemma_filter_le, lemma_filter_take_step, spec_check_row,
    spec_flat_issues, spec_issue,
};
use crate::text::{cat3, cat4, cat5, string_is, u64_string};
use crate::types::{CheckResult, Issue, IssueSeverity, IssueView};

verus! {

/// One metric of an autoscaler, reduced to its display name and whether
/// its target is missing every form of goal.
#[derive(Debug)]
pub struct MetricFact {
    pub name: String,
    pub target_missing: bool,
}

pub struct MetricFactView {
    pub name: Seq<char>,
    pub target_missing: bool,
}

impl View for MetricFact {
    type V = MetricFactView;

    open spec fn view(&self) -> MetricFactView {
        MetricFactView { name: self.name@, target_missing: self.target_missing }
    }
}

impl DeepView for MetricFact {
    type V = MetricFactView;

    open spec fn deep_view(&self) -> MetricFactView {
        self.view()
    }
}

/// What the rules read of one autoscaler.
#[derive(Debug)]
pub struct HpaFacts {
    pub name: String,
    pub has_spec: bool,
    pub min_replicas: Option<i32>,
    pub max_replicas: i32,
    pub has_metrics: bool,
    pub metrics: Vec<MetricFact>,
    pub has_behavior: bool,
    pub scale_up_select_policy: Option<String>,
    pub scale_down_select_policy: Option<String>,
    pub has_conditions: bool,
    /// The status values of the reported conditions.
    pub condition_statuses: Vec<String>,
}

pub struct HpaFactsView {
    pub name: Seq<char>,
    pub has_spec: bool,
    pub min_replicas: Option<i32>,
    pub max_replicas: i32,
    pub has_metrics: bool,
    pub metrics: Seq<MetricFactView>,
    pub has_behavior: bool,
    pub scale_up_select_policy: Option<Seq<char>>,
    pub scale_down_select_policy: Option<Seq<char>>,
    pub has_conditions: bool,
    pub condition_statuses: Seq<Seq<char>>,
}

impl View for HpaFacts {
    type V = HpaFactsView;

    open spec fn view(&self) -> HpaFactsView {
        HpaFactsView {
            name: self.name@,
            has_spec: self.has_spec,
            min_replicas: self.min_replicas,
            max_replicas: self.max_replicas,
            has_metrics: self.has_metrics,
            metrics: self.metrics.deep_view(),
            has_behavior: self.has_behavior,
            scale_up_select_policy: self.scale_up_select_policy.deep_view(),
            scale_down_select_policy: self.scale_down_select_policy.deep_view(),
            has_conditions: self.has_conditions,
            condition_statuses: self.condition_statuses.deep_view(),
        }
    }
}

impl DeepView for HpaFacts {
    type V = HpaFactsView;

    open spec fn deep_view(&self) -> HpaFactsView {
        self.view()
    }
}

pub open spec fn spec_statuses_all_true(cs: Seq<Seq<char>>) -> bool {
    forall|j: int| 0 <= j < cs.len() ==> #[trigger] cs[j] == "True"@
}

/// A healthy autoscaler: it reported conditions and they all hold.
pub open spec fn spec_hpa_healthy(f: HpaFactsView) -> bool {
    f.has_conditions && spec_statuses_all_true(f.condition_statuses)
}

pub open spec fn spec_metric_issues(hpa: Seq<char>, m: MetricFactView) -> Seq<IssueView> {
    if m.target_missing {
        seq![
            spec_issue(
                IssueSeverity::Warning,
                "Autoscaling"@,
                "HPA "@ + hpa + " metric "@ + m.name + " missing scaling target"@,
                Some(hpa),
                "Configure averageUtilization, averageValue, or value for the metric target."@,
                "AUTO-005"@,
            ),
        ]
    } else {
        Seq::empty()
    }
}

pub open spec fn spec_behavior_issue(
    hpa: Seq<char>,
    policy: Option<Seq<char>>,
    direction_text: Seq<char>,
) -> Seq<IssueView> {
    if policy == Some("Disabled"@) {
        seq![
            spec_issue(
                IssueSeverity::Info,
                "Autoscaling"@,
                "HPA "@ + hpa + " has "@ + direction_text + " behavior disabled"@,
                Some(hpa),
                "Review HPA behavior policy to ensure scaling is permitted when needed."@,
                "AUTO-004"@,
            ),
        ]
    } else {
        Seq::empty()
    }
}

/// The findings one autoscaler yields, in rule order: replica range,
/// metrics, behavior, then status health.
pub open spec fn spec_hpa_issues(f: HpaFactsView) -> Seq<IssueView> {
    let config: Seq<IssueView> = if !f.has_spec {
        Seq::empty()
    } else {
        (if (match f.min_replicas {
            Some(m) => m as int,
            None => 1int,
        }) == f.max_replicas as int {
            seq![
                spec_issue(
                    IssueSeverity::Warning,
                    "Autoscaling"@,
                    "HPA "@ + f.name + " has identical min/max replicas"@,
                    Some(f.name),
                    "Set a wider min/max replica range so the HPA can scale."@,
                    "AUTO-001"@,
                ),
            ]
        } else {
            Seq::empty()
        }) + (if f.has_metrics {
            spec_flat_issues(f.metrics, |m: MetricFactView| spec_metric_issues(f.name, m))
        } else {
            seq![
                spec_issue(
                    IssueSeverity::Critical,
                    "Autoscaling"@,
                    "HPA "@ + f.name + " has no metrics configured"@,
                    Some(f.name),
                    "Define CPU/Memory or custom metrics for this HPA."@,
                    "AUTO-002"@,
                ),
            ]
        }) + (if f.has_behavior {
            spec_behavior_issue(f.name, f.scale_up_select_policy, "scale-up"@)
                + spec_behavior_issue(f.name, f.scale_down_select_policy, "scale-down"@)
        } else {
            Seq::empty()
        })
    };
    let status: Seq<IssueView> = if f.has_conditions && !spec_statuses_all_true(
        f.condition_statuses,
    ) {
        seq![
            spec_issue(
                IssueSeverity::Critical,
                "Autoscaling"@,
                "HPA "@ + f.name + " reports unhealthy conditions"@,
                Some(f.name),
                "Check target workload readiness and metrics availability."@,
                "AUTO-003"@,
            ),
        ]
    } else {
        Seq::empty()
    };
    config + status
}

pub struct AutoscalingClassification {
    pub checks: Vec<CheckResult>,
    pub issues: Vec<Issue>,
}

/// Classifies the autoscalers: a fixed advisory check when none exist,
/// else the health ratio with one finding list in rule order.
pub fn classify_autoscaling(hpas: &Vec<HpaFacts>) -> (r: AutoscalingClassification)
    ensures
        r.issues.deep_view() == spec_flat_issues(
            hpas.deep_view(),
            |f: HpaFactsView| spec_hpa_issues(f),
        ),
        r.checks@.len() == 1,
        r.checks.deep_view()[0] == (if hpas@.len() == 0 {
            spec_check_row(
                "Horizontal Pod Autoscalers"@,
                "Evaluates health and configuration of HPAs"@,
                70_000,
                "No HPAs detected in the target scope"@,
                "Consider deploying HPAs to improve workload elasticity."@,
                100_000,
            )
        } else {
            spec_check_row(
                "Horizontal Pod Autoscalers"@,
                "Checks configuration and health of HPAs"@,
                crate::checks::spec_score_from_counts(
                    hpas.deep_view().filter(|f: HpaFactsView| spec_hpa_healthy(f)).len() as int,
                    hpas.deep_view().len() as int,
                    100_000,
                ) as u64,
                crate::text::spec_u64_chars(
                    hpas.deep_view().filter(|f: HpaFactsView| spec_hpa_healthy(f)).len() as int,
                ) + "/"@ + crate::text::spec_u64_chars(hpas.deep_view().len() as int)
                    + " HPAs healthy"@,
                "Ensure metrics.k8s.io and custom metric APIs are available, and verify workload readiness."@,
                100_000,
            )
        }),
{
    let ghost hv = hpas.deep_view();
    let mut issues: Vec<Issue> = Vec::new();
    let mut healthy: u64 = 0;
    let mut i: usize = 0;
    proof {
        reveal(Seq::filter);
        assert(hv.take(0int) =~= Seq::<HpaFactsView>::empty());
    }
    while i < hpas.len()
        invariant
            i <= hpas@.len(),
            hv == hpas.deep_view(),
            hv.len() == hpas@.len(),
            issues.deep_view() == spec_flat_issues(
                hv.take(i as int),
                |f: HpaFactsView| spec_hpa_issues(f),
            ),
            healthy == hv.take(i as int).filter(|f: HpaFactsView| spec_hpa_healthy(f)).len(),
            healthy <= i,
        decreases hpas@.len() - i,
    {
        proof {
            reveal(Seq::filter);
            assert(hv.take(i + 1int).drop_last() == hv.take(i as int));
            assert(hv.take(i + 1int).last() == hv[i as int]);
            assert(hpas@[i as int]@ == hv[i as int]);
            lemma_filter_take_step(hv, |f: HpaFactsView| spec_hpa_healthy(f), i as int);
        }
        let f = &hpas[i];
        if hpa_all_true(f) {
            healthy = healthy + 1;
        }
        let mut batch = hpa_issues(f);
        let ghost pre = issues.deep_view();
        let ghost bv = batch.deep_view();
        issues.append(&mut batch);
        proof {
            assert(issues.deep_view() =~= pre + bv);
            assert(bv == spec_hpa_issues(hv[i as int]));
            assert(issues.deep_view() =~= spec_flat_issues(
                hv.take(i + 1int),
                |f: HpaFactsView| spec_hpa_issues(f),
            ));
        }
        i = i + 1;
    }
    proof {
        assert(hv.take(hpas@.len() as int) == hv);
        lemma_filter_le(hv, |f: HpaFactsView| spec_hpa_healthy(f));
    }
    let c0 = if hpas.len() == 0 {
        check_row(
            "Horizontal Pod Autoscalers",
            "Evaluates health and configuration of HPAs",
            70_000,
            "No HPAs detected in the target scope".to_owned(),
            "Consider deploying HPAs to improve workload elasticity.",
            100_000,
        )
    } else {
        let total = hpas.len() as u64;
        let score = score_from_counts(healthy, total, 100_000);
        let h = u64_string(healthy);
        let tt = u64_string(total);
        check_row(
            "Horizontal Pod Autoscalers",
            "Checks configuration and health of HPAs",
            score,
            cat4(h.as_str(), "/", tt.as_str(), " HPAs healthy"),
            "Ensure metrics.k8s.io and custom metric APIs are available, and verify workload readiness.",
            100_000,
        )
    };
    let mut checks: Vec<CheckResult> = Vec::new();
    checks.push(c0);
    AutoscalingClassification { checks, issues }
}

/// Whether every reported condition status holds.
fn hpa_all_true(f: &HpaFacts) -> (r: bool)
    ensures
        r == spec_hpa_healthy(f@),
{
    if !f.has_conditions {
        return false;
    }
    let mut j: usize = 0;
    while j < f.condition_statuses.len()
        invariant
            j <= f.condition_statuses@.len(),
            forall|t: int|
                0 <= t < j ==> #[trigger] f.condition_statuses.deep_view()[t] == "True"@,
        decreases f.condition_statuses@.len() - j,
    {
        proof {
            assert(f.condition_statuses.deep_view()[j as int]
                == f.condition_statuses@[j as int]@);
        }
        if !string_is(&f.condition_statuses[j], "True") {
            proof {
                assert(!spec_statuses_all_true(f@.condition_statuses));
            }
            return false;
        }
        j = j + 1;
    }
    proof {
        assert(spec_statuses_all_true(f@.condition_statuses));
    }
    true
}

/// One autoscaler's findings.
fn hpa_issues(f: &HpaFacts) -> (r: Vec<Issue>)
    ensures
        r.deep_view() == spec_hpa_issues(f@),
{
    let mut r: Vec<Issue> = Vec::new();
    let ghost part_minmax: Seq<IssueView> = if f@.has_spec && (match f@.min_replicas {
        Some(m) => m as int,
        None => 1int,
    }) == f@.max_replicas as int {
        seq![
            spec_issue(
                IssueSeverity::Warning,
                "Autoscaling"@,
                "HPA "@ + f@.name + " has identical min/max replicas"@,
                Some(f@.name),
                "Set a wider min/max replica range so the HPA can scale."@,
                "AUTO-001"@,
            ),
        ]
    } else {
        Seq::empty()
    };
    if f.has_spec {
        let min_val: i32 = match f.min_replicas {
            Some(m) => m,
            None => 1,
        };
        if min_val == f.max_replicas {
            r.push(
                issue_row(
                    IssueSeverity::Warning,
                    "Autoscaling",
                    cat3("HPA ", f.name.as_str(), " has identical min/max replicas"),
                    Some(f.name.clone()),
                    "Set a wider min/max replica range so the HPA can scale.",
                    "AUTO-001",
                ),
            );
        }
        proof {
            assert(r.deep_view() =~= part_minmax);
        }
        if f.has_metrics {
            let ghost mv = f.metrics.deep_view();
            let ghost base = r.deep_view();
            let ghost g = |m: MetricFactView| spec_metric_issues(f@.name, m);
            let mut j: usize = 0;
            proof {
                assert(mv.take(0int) =~= Seq::<MetricFactView>::empty());
                assert(base + spec_flat_issues(mv.take(0int), g) =~= base);
            }
            while j < f.metrics.len()
                invariant
                    j <= f.metrics@.len(),
                    mv == f.metrics.deep_view(),
                    mv.len() == f.metrics@.len(),
                    g == (|m: MetricFactView| spec_metric_issues(f@.name, m)),
                    r.deep_view() == base + spec_flat_issues(mv.take(j as int), g),
                decreases f.metrics@.len() - j,
            {
                proof {
                    assert(mv.take(j + 1int).drop_last() == mv.take(j as int));
                    assert(mv.take(j + 1int).last() == mv[j as int]);
                    assert(f.metrics@[j as int]@ == mv[j as int]);
                }
                let ghost pre = r.deep_view();
                if f.metrics[j].target_missing {
                    let row = issue_row(
                        IssueSeverity::Warning,
                        "Autoscaling",
                        cat5(
                            "HPA ",
                            f.name.as_str(),
                            " metric ",
                            f.metrics[j].name.as_str(),
                            " missing scaling target",
                        ),
                        Some(f.name.clone()),
                        "Configure averageUtilization, averageValue, or value for the metric target.",
                        "AUTO-005",
                    );
                    let ghost rv = row@;
                    r.push(row);
                    proof {
                        assert(r.deep_view() =~= pre.push(rv));
                        assert(rv == g(mv[j as int])[0]);
                        assert(g(mv[j as int]) =~= seq![rv]);
                        assert(r.deep_view() =~= base + spec_flat_issues(mv.take(j + 1int), g));
                    }
                } else {
                    proof {
                        assert(g(mv[j as int]) =~= Seq::<IssueView>::empty());
                        assert(r.deep_view() =~= base + spec_flat_issues(mv.take(j + 1int), g));
                    }
                }
                j = j + 1;
            }
            proof {
                assert(mv.take(f.metrics@.len() as int) == mv);
                assert(r.deep_view() =~= part_minmax + spec_flat_issues(
                    f@.metrics,
                    |m: MetricFactView| spec_metric_issues(f@.name, m),
                ));
            }
        } else {
            r.push(
                issue_row(
                    IssueSeverity::Critical,
                    "Autoscaling",
                    cat3("HPA ", f.name.as_str(), " has no metrics configured"),
                    Some(f.name.clone()),
                    "Define CPU/Memory or custom metrics for this HPA.",
                    "AUTO-002",
                ),
            );
        }
        let ghost part_metrics: Seq<IssueView> = if f@.has_metrics {
            spec_flat_issues(f@.metrics, |m: MetricFactView| spec_metric_issues(f@.name, m))
        } else {
            seq![
                spec_issue(
                    IssueSeverity::Critical,
                    "Autoscaling"@,
                    "HPA "@ + f@.name + " has no metrics configured"@,
                    Some(f@.name),
                    "Define CPU/Memory or custom metrics for this HPA."@,
                    "AUTO-002"@,
                ),
            ]
        };
        proof {
            assert(r.deep_view() =~= part_minmax + part_metrics);
        }
        if f.has_behavior {
            let up_disabled = match &f.scale_up_select_policy {
                Some(p) => string_is(p, "Disabled"),
                None => false,
            };
            if up_disabled {
                r.push(
                    issue_row(
                        IssueSeverity::Info,
                        "Autoscaling",
                        cat5("HPA ", f.name.as_str(), " has ", "scale-up", " behavior disabled"),
                        Some(f.name.clone()),
                        "Review HPA behavior policy to ensure scaling is permitted when needed.",
                        "AUTO-004",
                    ),
                );
            }
            let down_disabled = match &f.scale_down_select_policy {
                Some(p) => string_is(p, "Disabled"),
                None => false,
            };
            if down_disabled {
                r.push(
                    issue_row(
                        IssueSeverity::Info,
                        "Autoscaling",
                        cat5("HPA ", f.name.as_str(), " has ", "scale-down", " behavior disabled"),
                        Some(f.name.clone()),
                        "Review HPA behavior policy to ensure scaling is permitted when needed.",
                        "AUTO-004",
                    ),
                );
            }
        }
    }
    proof {
        if f@.has_spec {
            let part_behavior: Seq<IssueView> = if f@.has_behavior {
                spec_behavior_issue(f@.name, f@.scale_up_select_policy, "scale-up"@)
                    + spec_behavior_issue(f@.name, f@.scale_down_select_policy, "scale-down"@)
            } else {
                Seq::empty()
            };
            assert(r.deep_view() =~= part_minmax + (if f@.has_metrics {
                spec_flat_issues(f@.metrics, |m: MetricFactView| spec_metric_issues(f@.name, m))
            } else {
                seq![
                    spec_issue(
                        IssueSeverity::Critical,
                        "Autoscaling"@,
                        "HPA "@ + f@.name + " has no metrics configured"@,
                        Some(f@.name),
                        "Define CPU/Memory or custom metrics for this HPA."@,
                        "AUTO-002"@,
                    ),
                ]
            }) + part_behavior);
        } else {
            assert(r.deep_view() =~= Seq::<IssueView>::empty());
        }
    }
    if f.has_conditions && !hpa_all_true(f) {
        r.push(
            issue_row(
                IssueSeverity::Critical,
                "Autoscaling",
                cat3("HPA ", f.name.as_str(), " reports unhealthy conditions"),
                Some(f.name.clone()),
                "Check target workload readiness and metrics availability.",
                "AUTO-003",
            ),
        );
    }
    proof {
        assert(r.deep_view() =~= spec_hpa_issues(f@));
    }
    r
}

} // verus!
