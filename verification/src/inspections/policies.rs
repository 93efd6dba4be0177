//! Policy and governance unit: resource quotas, limit ranges and pod
//! disruption budgets.

use vstd::prelude::*;

use crate::inspections::support::{
    check_row, check_row_with, issue_row, lemma_filter_le, lemma_filter_take_step, spec_check_row,
    spec_flat_issues, spec_issue,
};
use crate::text::{cat2, cat3, u64_string};
use crate::types::{CheckResult, Issue, IssueSeverity, IssueView};

verus! {

/// What the policy rules read of one pod disruption budget.
#[derive(Debug)]
pub struct PdbFacts {
    pub name: String,
    pub has_status: bool,
    pub disruptions_allowed: i32,
    pub expected_pods: i32,
}

pub struct PdbFactsView {
    pub name: Seq<char>,
    pub has_status: bool,
    pub disruptions_allowed: i32,
    pub expected_pods: i32,
}

impl View for PdbFacts {
    type V = PdbFactsView;

    open spec fn view(&self) -> PdbFactsView {
        PdbFactsView {
            name: self.name@,
            has_status: self.has_status,
            disruptions_allowed: self.disruptions_allowed,
            expected_pods: self.expected_pods,
        }
    }
}

impl DeepView for PdbFacts {
    type V = PdbFactsView;

    open spec fn deep_view(&self) -> PdbFactsView {
        self.view()
    }
}

/// A budget that currently blocks all disruptions while covering more
/// than one pod.
pub open spec fn spec_pdb_blocking(f: PdbFactsView) -> bool {
    f.has_status && f.disruptions_allowed == 0 && f.expected_pods > 1
}

pub open spec fn spec_pdb_issues(f: PdbFactsView) -> Seq<IssueView> {
    if spec_pdb_blocking(f) {
        seq![
            spec_issue(
                IssueSeverity::Warning,
                "Policy"@,
                "PDB "@ + f.name + " currently blocks disruptions"@,
                Some(f.name),
                "Ensure enough replicas to satisfy PDB requirements."@,
                "POLICY-004"@,
            ),
        ]
    } else {
        Seq::empty()
    }
}

/// The unit's output.
pub struct PolicyClassification {
    pub checks: Vec<CheckResult>,
    pub issues: Vec<Issue>,
}

/// Classifies the policy facts: the quota, limit-range and disruption
/// budget checks with the findings the empty or blocking cases carry.
pub fn classify_policies(
    quota_count: u64,
    limit_count: u64,
    pdbs: &Vec<PdbFacts>,
    namespace: Option<String>,
) -> (r: PolicyClassification)
    ensures
        r.checks@.len() == 3,
        r.checks.deep_view()[0] == (if quota_count == 0 {
            if namespace is Some {
                spec_check_row(
                    "Resource Quotas"@,
                    "Checks namespace-level ResourceQuota presence"@,
                    60_000,
                    "Namespace has no ResourceQuota"@,
                    "Create ResourceQuota to enforce resource boundaries."@,
                    100_000,
                )
            } else {
                spec_check_row(
                    "Resource Quotas"@,
                    "Checks cluster-wide ResourceQuota coverage"@,
                    60_000,
                    "No ResourceQuota objects found"@,
                    "Define ResourceQuota in multi-tenant namespaces."@,
                    100_000,
                )
            }
        } else {
            spec_check_row(
                "Resource Quotas"@,
                "Checks namespace quotas"@,
                100_000,
                crate::text::spec_u64_chars(quota_count as int) + " quotas identified"@,
                ""@,
                0,
            )
        }),
        r.checks.deep_view()[1] == (if limit_count == 0 {
            spec_check_row(
                "Limit Ranges"@,
                "Ensures namespaces have LimitRange for default resource settings"@,
                65_000,
                "No LimitRange objects found"@,
                "Create LimitRange to enforce default requests/limits."@,
                100_000,
            )
        } else {
            spec_check_row(
                "Limit Ranges"@,
                "Checks LimitRange presence"@,
                100_000,
                crate::text::spec_u64_chars(limit_count as int) + " LimitRange objects found"@,
                ""@,
                0,
            )
        }),
        r.checks.deep_view()[2] == (if pdbs@.len() == 0 {
            spec_check_row(
                "Pod Disruption Budgets"@,
                "Checks PDB coverage"@,
                70_000,
                "No PDBs found"@,
                "Add PDBs for stateful or critical deployments."@,
                100_000,
            )
        } else if pdbs.deep_view().filter(|f: PdbFactsView| spec_pdb_blocking(f)).len() == 0 {
            spec_check_row(
                "Pod Disruption Budgets"@,
                "Evaluates PDB coverage and status"@,
                100_000,
                "All PDBs allow disruption"@,
                "Scale workloads or adjust PDB thresholds to allow controlled disruptions."@,
                0,
            )
        } else {
            spec_check_row(
                "Pod Disruption Budgets"@,
                "Evaluates PDB coverage and status"@,
                80_000,
                crate::text::spec_u64_chars(
                    pdbs.deep_view().filter(|f: PdbFactsView| spec_pdb_blocking(f)).len() as int,
                ) + " PDBs currently block disruption"@,
                "Scale workloads or adjust PDB thresholds to allow controlled disruptions."@,
                100_000,
            )
        }),
        r.issues.deep_view() == (if quota_count == 0 && namespace is Some {
            seq![
                IssueView {
                    severity: IssueSeverity::Warning,
                    category: "Policy"@,
                    description: "Namespace lacks ResourceQuota"@,
                    resource: namespace.deep_view(),
                    recommendation: "Define ResourceQuota to prevent resource exhaustion."@,
                    rule_id: Some("POLICY-001"@),
                },
            ]
        } else {
            Seq::empty()
        }) + (if limit_count == 0 {
            seq![
                IssueView {
                    severity: IssueSeverity::Warning,
                    category: "Policy"@,
                    description: "No LimitRange defined"@,
                    resource: Some(
                        match namespace.deep_view() {
                            Some(ns) => ns,
                            None => "cluster"@,
                        },
                    ),
                    recommendation: "Define LimitRange to ensure pod resource defaults and limits."@,
                    rule_id: Some("POLICY-002"@),
                },
            ]
        } else {
            Seq::empty()
        }) + (if pdbs@.len() == 0 {
            seq![
                IssueView {
                    severity: IssueSeverity::Warning,
                    category: "Policy"@,
                    description: "No PodDisruptionBudget configured"@,
                    resource: namespace.deep_view(),
                    recommendation: "Define PodDisruptionBudget for critical workloads to avoid voluntary eviction impact."@,
                    rule_id: Some("POLICY-003"@),
                },
            ]
        } else {
            spec_flat_issues(pdbs.deep_view(), |f: PdbFactsView| spec_pdb_issues(f))
        }),
{
    let ghost pv = pdbs.deep_view();
    let mut issues: Vec<Issue> = Vec::new();

    // quotas
    let c0 = if quota_count == 0 {
        match &namespace {
            Some(ns) => {
                issues.push(
                    issue_row(
                        IssueSeverity::Warning,
                        "Policy",
                        "Namespace lacks ResourceQuota".to_owned(),
                        Some(ns.clone()),
                        "Define ResourceQuota to prevent resource exhaustion.",
                        "POLICY-001",
                    ),
                );
                check_row(
                    "Resource Quotas",
                    "Checks namespace-level ResourceQuota presence",
                    60_000,
                    "Namespace has no ResourceQuota".to_owned(),
                    "Create ResourceQuota to enforce resource boundaries.",
                    100_000,
                )
            },
            None => check_row(
                "Resource Quotas",
                "Checks cluster-wide ResourceQuota coverage",
                60_000,
                "No ResourceQuota objects found".to_owned(),
                "Define ResourceQuota in multi-tenant namespaces.",
                100_000,
            ),
        }
    } else {
        let n = u64_string(quota_count);
        check_row(
            "Resource Quotas",
            "Checks namespace quotas",
            100_000,
            cat2(n.as_str(), " quotas identified"),
            "",
            0,
        )
    };
    let ghost issues_q = issues.deep_view();

    // limit ranges
    let c1 = if limit_count == 0 {
        let resource = match &namespace {
            Some(ns) => ns.clone(),
            None => "cluster".to_owned(),
        };
        issues.push(
            issue_row(
                IssueSeverity::Warning,
                "Policy",
                "No LimitRange defined".to_owned(),
                Some(resource),
                "Define LimitRange to ensure pod resource defaults and limits.",
                "POLICY-002",
            ),
        );
        check_row(
            "Limit Ranges",
            "Ensures namespaces have LimitRange for default resource settings",
            65_000,
            "No LimitRange objects found".to_owned(),
            "Create LimitRange to enforce default requests/limits.",
            100_000,
        )
    } else {
        let n = u64_string(limit_count);
        check_row(
            "Limit Ranges",
            "Checks LimitRange presence",
            100_000,
            cat2(n.as_str(), " LimitRange objects found"),
            "",
            0,
        )
    };
    let ghost issues_l = issues.deep_view();

    // disruption budgets
    let c2 = if pdbs.len() == 0 {
        issues.push(
            issue_row(
                IssueSeverity::Warning,
                "Policy",
                "No PodDisruptionBudget configured".to_owned(),
                match &namespace {
                    Some(ns) => Some(ns.clone()),
                    None => None,
                },
                "Define PodDisruptionBudget for critical workloads to avoid voluntary eviction impact.",
                "POLICY-003",
            ),
        );
        check_row(
            "Pod Disruption Budgets",
            "Checks PDB coverage",
            70_000,
            "No PDBs found".to_owned(),
            "Add PDBs for stateful or critical deployments.",
            100_000,
        )
    } else {
        let mut unhealthy: u64 = 0;
        let mut i: usize = 0;
        proof {
            reveal(Seq::filter);
            assert(pv.take(0int) =~= Seq::<PdbFactsView>::empty());
            assert(issues_l + spec_flat_issues(pv.take(0int), |f: PdbFactsView| spec_pdb_issues(f))
                =~= issues_l);
        }
        while i < pdbs.len()
            invariant
                i <= pdbs@.len(),
                pv == pdbs.deep_view(),
                pv.len() == pdbs@.len(),
                issues.deep_view() == issues_l + spec_flat_issues(
                    pv.take(i as int),
                    |f: PdbFactsView| spec_pdb_issues(f),
                ),
                unhealthy == pv.take(i as int).filter(|f: PdbFactsView| spec_pdb_blocking(f)).len(),
                unhealthy <= i,
            decreases pdbs@.len() - i,
        {
            proof {
                reveal(Seq::filter);
                assert(pv.take(i + 1int).drop_last() == pv.take(i as int));
                assert(pv.take(i + 1int).last() == pv[i as int]);
                assert(pdbs@[i as int]@ == pv[i as int]);
                lemma_filter_take_step(pv, |f: PdbFactsView| spec_pdb_blocking(f), i as int);
            }
            let f = &pdbs[i];
            if f.has_status && f.disruptions_allowed == 0 && f.expected_pods > 1 {
                unhealthy = unhealthy + 1;
                let ghost pre = issues.deep_view();
                let row = issue_row(
                    IssueSeverity::Warning,
                    "Policy",
                    cat3("PDB ", f.name.as_str(), " currently blocks disruptions"),
                    Some(f.name.clone()),
                    "Ensure enough replicas to satisfy PDB requirements.",
                    "POLICY-004",
                );
                let ghost rv = row@;
                issues.push(row);
                proof {
                    assert(issues.deep_view() =~= pre.push(rv));
                    assert(spec_pdb_blocking(pv[i as int]));
                    assert(rv == spec_pdb_issues(pv[i as int])[0]);
                    assert(spec_pdb_issues(pv[i as int]) =~= seq![rv]);
                    assert(issues.deep_view() =~= issues_l + spec_flat_issues(
                        pv.take(i + 1int),
                        |f: PdbFactsView| spec_pdb_issues(f),
                    ));
                }
            } else {
                proof {
                    assert(issues.deep_view() =~= issues_l + spec_flat_issues(
                        pv.take(i + 1int),
                        |f: PdbFactsView| spec_pdb_issues(f),
                    ));
                }
            }
            i = i + 1;
        }
        proof {
            assert(pv.take(pdbs@.len() as int) == pv);
        }
        if unhealthy == 0 {
            check_row(
                "Pod Disruption Budgets",
                "Evaluates PDB coverage and status",
                100_000,
                "All PDBs allow disruption".to_owned(),
                "Scale workloads or adjust PDB thresholds to allow controlled disruptions.",
                0,
            )
        } else {
            let n = u64_string(unhealthy);
            check_row(
                "Pod Disruption Budgets",
                "Evaluates PDB coverage and status",
                80_000,
                cat2(n.as_str(), " PDBs currently block disruption"),
                "Scale workloads or adjust PDB thresholds to allow controlled disruptions.",
                100_000,
            )
        }
    };

    let mut checks: Vec<CheckResult> = Vec::new();
    checks.push(c0);
    checks.push(c1);
    checks.push(c2);
    proof {
        lemma_filter_le(pv, |f: PdbFactsView| spec_pdb_blocking(f));
    }
    PolicyClassification { checks, issues }
}

} // verus!
