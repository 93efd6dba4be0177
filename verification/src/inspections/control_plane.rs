//! Control-plane unit: component statuses and the static control-plane
//! pods in the system namespace.

use vstd::prelude::*;

use crate::checks::{score_from_counts, spec_score_from_counts};
use crate::inspections::support::{
    check_row, issue_row, lemma_filter_le, lemma_filter_take_step, spec_check_row,
    spec_flat_issues, spec_issue,
};
use crate::text::{cat3, cat4, cat6, spec_contains_sub, contains_lit, u64_string};
use crate::types::{CheckResult, Issue, IssueSeverity, IssueView};

verus! {

/// What the rules read of one reported component status.
#[derive(Debug)]
pub struct ComponentFacts {
    pub name: String,
    pub has_conditions: bool,
    /// (condition type, condition status) pairs.
    pub conditions: Vec<(String, String)>,
}

pub struct ComponentFactsView {
    pub name: Seq<char>,
    pub has_conditions: bool,
    pub conditions: Seq<(Seq<char>, Seq<char>)>,
}

impl View for ComponentFacts {
    type V = ComponentFactsView;

    open spec fn view(&self) -> ComponentFactsView {
        ComponentFactsView {
            name: self.name@,
            has_conditions: self.has_conditions,
            conditions: self.conditions.deep_view(),
        }
    }
}

impl DeepView for ComponentFacts {
    type V = ComponentFactsView;

    open spec fn deep_view(&self) -> ComponentFactsView {
        self.view()
    }
}

/// One pod of the system namespace: its name and whether it runs.
#[derive(Debug)]
pub struct CpPodFacts {
    pub name: String,
    pub running: bool,
}

pub struct CpPodFactsView {
    pub name: Seq<char>,
    pub running: bool,
}

impl View for CpPodFacts {
    type V = CpPodFactsView;

    open spec fn view(&self) -> CpPodFactsView {
        CpPodFactsView { name: self.name@, running: self.running }
    }
}

impl DeepView for CpPodFacts {
    type V = CpPodFactsView;

    open spec fn deep_view(&self) -> CpPodFactsView {
        self.view()
    }
}

pub open spec fn spec_all_conditions_true(cs: Seq<(Seq<char>, Seq<char>)>) -> bool {
    forall|j: int| 0 <= j < cs.len() ==> (#[trigger] cs[j]).1 == "True"@
}

/// A healthy component: it reported conditions and they all hold.
pub open spec fn spec_component_healthy(f: ComponentFactsView) -> bool {
    f.has_conditions && spec_all_conditions_true(f.conditions)
}

/// One condition's finding, raised for every condition not holding.
pub open spec fn spec_component_issues(f: ComponentFactsView) -> Seq<IssueView> {
    if f.has_conditions {
        spec_flat_issues(
            f.conditions,
            |c: (Seq<char>, Seq<char>)|
                if c.1 != "True"@ {
                    seq![
                        spec_issue(
                            IssueSeverity::Critical,
                            "ControlPlane"@,
                            "Component "@ + f.name + " reports "@ + c.0 + " = "@ + c.1,
                            Some(f.name),
                            "Inspect control-plane logs and ensure all components are running and healthy."@,
                            "CTRL-001"@,
                        ),
                    ]
                } else {
                    Seq::empty()
                },
        )
    } else {
        Seq::empty()
    }
}

/// Whether a pod name names a static control-plane component.
pub open spec fn spec_is_cp_pod(name: Seq<char>) -> bool {
    spec_contains_sub(name, "kube-apiserver"@) || spec_contains_sub(
        name,
        "kube-controller-manager"@,
    ) || spec_contains_sub(name, "kube-scheduler"@) || spec_contains_sub(name, "etcd"@)
}

pub open spec fn spec_cp_pod_issues(f: CpPodFactsView) -> Seq<IssueView> {
    if spec_is_cp_pod(f.name) && !f.running {
        seq![
            spec_issue(
                IssueSeverity::Critical,
                "ControlPlane"@,
                "Control plane pod "@ + f.name + " is not running"@,
                Some(f.name),
                "Check the static pod manifest and node health for this component."@,
                "CTRL-002"@,
            ),
        ]
    } else {
        Seq::empty()
    }
}

pub struct ControlPlaneClassification {
    pub checks: Vec<CheckResult>,
    pub issues: Vec<Issue>,
}

/// Classifies the control plane: the component-status check (skipped as a
/// pass when the API is gone) and the static-pod check, with one finding
/// per failing condition or stopped pod.
pub fn classify_control_plane(
    components_available: bool,
    components: &Vec<ComponentFacts>,
    pods: &Vec<CpPodFacts>,
) -> (r: ControlPlaneClassification)
    ensures
        r.issues.deep_view() == (if components_available {
            spec_flat_issues(
                components.deep_view(),
                |f: ComponentFactsView| spec_component_issues(f),
            )
        } else {
            Seq::empty()
        }) + spec_flat_issues(pods.deep_view(), |f: CpPodFactsView| spec_cp_pod_issues(f)),
        r.checks@.len() == 2,
        r.checks.deep_view()[0] == (if !components_available {
            spec_check_row(
                "Component Status"@,
                "Checks the health of core control-plane components"@,
                100_000,
                "Component Status API not available (e.g. Kubernetes 1.24+); check skipped."@,
                ""@,
                0,
            )
        } else {
            spec_check_row(
                "Component Status"@,
                "Checks the health of core control-plane components"@,
                (if components.deep_view().len() == 0 {
                    0int
                } else {
                    components.deep_view().filter(
                        |f: ComponentFactsView| spec_component_healthy(f),
                    ).len() as int * 100_000 / components.deep_view().len() as int
                }) as u64,
                crate::text::spec_u64_chars(
                    components.deep_view().filter(
                        |f: ComponentFactsView| spec_component_healthy(f),
                    ).len() as int,
                ) + "/"@ + crate::text::spec_u64_chars(components.deep_view().len() as int)
                    + " components healthy"@,
                "Review kube-system pod logs and ensure all static pods are Running."@,
                100_000,
            )
        }),
        r.checks.deep_view()[1] == spec_check_row(
            "Control Plane Pods"@,
            "Validates that key control-plane pods in kube-system are running"@,
            spec_score_from_counts(
                pods.deep_view().filter(
                    |f: CpPodFactsView| spec_is_cp_pod(f.name) && f.running,
                ).len() as int,
                pods.deep_view().filter(|f: CpPodFactsView| spec_is_cp_pod(f.name)).len() as int,
                100_000,
            ) as u64,
            (if pods.deep_view().filter(|f: CpPodFactsView| spec_is_cp_pod(f.name)).len() == 0 {
                "No static control-plane pods detected (managed control plane?)"@
            } else {
                crate::text::spec_u64_chars(
                    pods.deep_view().filter(
                        |f: CpPodFactsView| spec_is_cp_pod(f.name) && f.running,
                    ).len() as int,
                ) + "/"@ + crate::text::spec_u64_chars(
                    pods.deep_view().filter(
                        |f: CpPodFactsView| spec_is_cp_pod(f.name),
                    ).len() as int,
                ) + " control-plane pods running"@
            }),
            "Ensure kube-apiserver, controller-manager, scheduler, and etcd pods are running without restarts."@,
            100_000,
        ),
{
    let ghost cv = components.deep_view();
    let ghost podv = pods.deep_view();
    let mut issues: Vec<Issue> = Vec::new();

    let c0 = if !components_available {
        check_row(
            "Component Status",
            "Checks the health of core control-plane components",
            100_000,
            "Component Status API not available (e.g. Kubernetes 1.24+); check skipped.".to_owned(),
            "",
            0,
        )
    } else {
        let mut healthy: u64 = 0;
        let mut i: usize = 0;
        proof {
            reveal(Seq::filter);
            assert(cv.take(0int) =~= Seq::<ComponentFactsView>::empty());
        }
        while i < components.len()
            invariant
                i <= components@.len(),
                cv == components.deep_view(),
                cv.len() == components@.len(),
                issues.deep_view() == spec_flat_issues(
                    cv.take(i as int),
                    |f: ComponentFactsView| spec_component_issues(f),
                ),
                healthy == cv.take(i as int).filter(
                    |f: ComponentFactsView| spec_component_healthy(f),
                ).len(),
                healthy <= i,
            decreases components@.len() - i,
        {
            proof {
                reveal(Seq::filter);
                assert(cv.take(i + 1int).drop_last() == cv.take(i as int));
                assert(cv.take(i + 1int).last() == cv[i as int]);
                assert(components@[i as int]@ == cv[i as int]);
                lemma_filter_take_step(
                    cv,
                    |f: ComponentFactsView| spec_component_healthy(f),
                    i as int,
                );
            }
            let f = &components[i];
            let mut batch = component_issues(f);
            let ghost pre = issues.deep_view();
            let ghost bv = batch.deep_view();
            let is_healthy = component_all_true(f);
            if is_healthy {
                healthy = healthy + 1;
            }
            issues.append(&mut batch);
            proof {
                assert(issues.deep_view() =~= pre + bv);
                assert(bv == spec_component_issues(cv[i as int]));
                assert(issues.deep_view() =~= spec_flat_issues(
                    cv.take(i + 1int),
                    |f: ComponentFactsView| spec_component_issues(f),
                ));
            }
            i = i + 1;
        }
        proof {
            assert(cv.take(components@.len() as int) == cv);
            lemma_filter_le(cv, |f: ComponentFactsView| spec_component_healthy(f));
        }
        let total = components.len() as u64;
        let score: u64 = if total == 0 {
            0
        } else {
            score_from_counts(healthy, total, 0)
        };
        proof {
            if cv.len() > 0 {
                assert(score == (cv.filter(
                    |f: ComponentFactsView| spec_component_healthy(f),
                ).len() as int * 100_000 / cv.len() as int) as u64);
            }
        }
        let h = u64_string(healthy);
        let tt = u64_string(total);
        let details = cat4(h.as_str(), "/", tt.as_str(), " components healthy");
        check_row(
            "Component Status",
            "Checks the health of core control-plane components",
            score,
            details,
            "Review kube-system pod logs and ensure all static pods are Running.",
            100_000,
        )
    };

    // static pods
    let mut evaluated: u64 = 0;
    let mut running: u64 = 0;
    let mut k: usize = 0;
    let ghost base = issues.deep_view();
    proof {
        reveal(Seq::filter);
        assert(podv.take(0int) =~= Seq::<CpPodFactsView>::empty());
        assert(base + spec_flat_issues(podv.take(0int), |f: CpPodFactsView| spec_cp_pod_issues(f))
            =~= base);
    }
    while k < pods.len()
        invariant
            k <= pods@.len(),
            podv == pods.deep_view(),
            podv.len() == pods@.len(),
            issues.deep_view() == base + spec_flat_issues(
                podv.take(k as int),
                |f: CpPodFactsView| spec_cp_pod_issues(f),
            ),
            evaluated == podv.take(k as int).filter(
                |f: CpPodFactsView| spec_is_cp_pod(f.name),
            ).len(),
            running == podv.take(k as int).filter(
                |f: CpPodFactsView| spec_is_cp_pod(f.name) && f.running,
            ).len(),
            evaluated <= k && running <= k,
        decreases pods@.len() - k,
    {
        proof {
            reveal(Seq::filter);
            assert(podv.take(k + 1int).drop_last() == podv.take(k as int));
            assert(podv.take(k + 1int).last() == podv[k as int]);
            assert(pods@[k as int]@ == podv[k as int]);
            lemma_filter_take_step(podv, |f: CpPodFactsView| spec_is_cp_pod(f.name), k as int);
            lemma_filter_take_step(
                podv,
                |f: CpPodFactsView| spec_is_cp_pod(f.name) && f.running,
                k as int,
            );
        }
        let f = &pods[k];
        let name_chars = crate::text::to_chars(f.name.as_str());
        let matched = contains_lit(&name_chars, "kube-apiserver") || contains_lit(
            &name_chars,
            "kube-controller-manager",
        ) || contains_lit(&name_chars, "kube-scheduler") || contains_lit(&name_chars, "etcd");
        let ghost pre = issues.deep_view();
        if matched {
            evaluated = evaluated + 1;
            if f.running {
                running = running + 1;
            } else {
                let row = issue_row(
                    IssueSeverity::Critical,
                    "ControlPlane",
                    cat3("Control plane pod ", f.name.as_str(), " is not running"),
                    Some(f.name.clone()),
                    "Check the static pod manifest and node health for this component.",
                    "CTRL-002",
                );
                let ghost rv = row@;
                issues.push(row);
                proof {
                    assert(issues.deep_view() =~= pre.push(rv));
                    assert(rv == spec_cp_pod_issues(podv[k as int])[0]);
                    assert(spec_cp_pod_issues(podv[k as int]) =~= seq![rv]);
                }
            }
        }
        proof {
            assert(issues.deep_view() =~= base + spec_flat_issues(
                podv.take(k + 1int),
                |f: CpPodFactsView| spec_cp_pod_issues(f),
            ));
        }
        k = k + 1;
    }
    proof {
        assert(podv.take(pods@.len() as int) == podv);
        lemma_filter_le(podv, |f: CpPodFactsView| spec_is_cp_pod(f.name));
        lemma_filter_subset_running(podv);
    }
    let pod_score = score_from_counts(running, evaluated, 100_000);
    let details = if evaluated == 0 {
        "No static control-plane pods detected (managed control plane?)".to_owned()
    } else {
        let rr = u64_string(running);
        let ee = u64_string(evaluated);
        cat4(rr.as_str(), "/", ee.as_str(), " control-plane pods running")
    };
    let c1 = check_row(
        "Control Plane Pods",
        "Validates that key control-plane pods in kube-system are running",
        pod_score,
        details,
        "Ensure kube-apiserver, controller-manager, scheduler, and etcd pods are running without restarts.",
        100_000,
    );

    let mut checks: Vec<CheckResult> = Vec::new();
    checks.push(c0);
    checks.push(c1);
    ControlPlaneClassification { checks, issues }
}

/// Running matched pods are never more numerous than matched pods.
proof fn lemma_filter_subset_running(s: Seq<CpPodFactsView>)
    ensures
        s.filter(|f: CpPodFactsView| spec_is_cp_pod(f.name) && f.running).len() <= s.filter(
            |f: CpPodFactsView| spec_is_cp_pod(f.name),
        ).len(),
    decreases s.len(),
{
    reveal(Seq::filter);
    if s.len() > 0 {
        lemma_filter_subset_running(s.drop_last());
    }
}

/// Whether every reported condition holds.
fn component_all_true(f: &ComponentFacts) -> (r: bool)
    ensures
        r == spec_component_healthy(f@),
{
    if !f.has_conditions {
        return false;
    }
    let mut j: usize = 0;
    while j < f.conditions.len()
        invariant
            j <= f.conditions@.len(),
            forall|t: int|
                0 <= t < j ==> (#[trigger] f.conditions.deep_view()[t]).1 == "True"@,
        decreases f.conditions@.len() - j,
    {
        proof {
            assert(f.conditions.deep_view()[j as int].1 == f.conditions@[j as int].1@);
        }
        if !crate::text::string_is(&f.conditions[j].1, "True") {
            proof {
                assert(!spec_all_conditions_true(f@.conditions));
            }
            return false;
        }
        j = j + 1;
    }
    proof {
        assert(spec_all_conditions_true(f@.conditions));
    }
    true
}

/// One component's findings: one per failing condition.
fn component_issues(f: &ComponentFacts) -> (r: Vec<Issue>)
    ensures
        r.deep_view() == spec_component_issues(f@),
{
    let mut r: Vec<Issue> = Vec::new();
    if !f.has_conditions {
        proof {
            assert(r.deep_view() =~= spec_component_issues(f@));
        }
        return r;
    }
    let ghost csv = f.conditions.deep_view();
    let ghost g = |c: (Seq<char>, Seq<char>)|
        if c.1 != "True"@ {
            seq![
                spec_issue(
                    IssueSeverity::Critical,
                    "ControlPlane"@,
                    "Component "@ + f@.name + " reports "@ + c.0 + " = "@ + c.1,
                    Some(f@.name),
                    "Inspect control-plane logs and ensure all components are running and healthy."@,
                    "CTRL-001"@,
                ),
            ]
        } else {
            Seq::<IssueView>::empty()
        };
    let mut j: usize = 0;
    proof {
        assert(csv.take(0int) =~= Seq::<(Seq<char>, Seq<char>)>::empty());
    }
    while j < f.conditions.len()
        invariant
            j <= f.conditions@.len(),
            csv == f.conditions.deep_view(),
            csv.len() == f.conditions@.len(),
            g == (|c: (Seq<char>, Seq<char>)|
                if c.1 != "True"@ {
                    seq![
                        spec_issue(
                            IssueSeverity::Critical,
                            "ControlPlane"@,
                            "Component "@ + f@.name + " reports "@ + c.0 + " = "@ + c.1,
                            Some(f@.name),
                            "Inspect control-plane logs and ensure all components are running and healthy."@,
                            "CTRL-001"@,
                        ),
                    ]
                } else {
                    Seq::<IssueView>::empty()
                }),
            r.deep_view() == spec_flat_issues(csv.take(j as int), g),
        decreases f.conditions@.len() - j,
    {
        proof {
            assert(csv.take(j + 1int).drop_last() == csv.take(j as int));
            assert(csv.take(j + 1int).last() == csv[j as int]);
            assert(f.conditions@[j as int].0@ == csv[j as int].0);
            assert(f.conditions@[j as int].1@ == csv[j as int].1);
        }
        let ghost pre = r.deep_view();
        if !crate::text::string_is(&f.conditions[j].1, "True") {
            let desc = cat6(
                "Component ",
                f.name.as_str(),
                " reports ",
                f.conditions[j].0.as_str(),
                " = ",
                f.conditions[j].1.as_str(),
            );
            let row = issue_row(
                IssueSeverity::Critical,
                "ControlPlane",
                desc,
                Some(f.name.clone()),
                "Inspect control-plane logs and ensure all components are running and healthy.",
                "CTRL-001",
            );
            let ghost rv = row@;
            r.push(row);
            proof {
                assert(r.deep_view() =~= pre.push(rv));
                assert(rv == g(csv[j as int])[0]);
                assert(g(csv[j as int]) =~= seq![rv]);
                assert(r.deep_view() =~= spec_flat_issues(csv.take(j + 1int), g));
            }
        } else {
            proof {
                assert(g(csv[j as int]) =~= Seq::<IssueView>::empty());
                assert(r.deep_view() =~= spec_flat_issues(csv.take(j + 1int), g));
            }
        }
        j = j + 1;
    }
    proof {
        assert(csv.take(f.conditions@.len() as int) == csv);
        assert(spec_component_issues(f@) == spec_flat_issues(f@.conditions, g));
    }
    r
}

} // verus!
