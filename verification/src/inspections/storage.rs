//! Storage audit unit: persistent volumes, claims and storage classes,
//! classified from plain facts.

use vstd::prelude::*;

use crate::checks::{score_from_counts, spec_score_from_counts};
use crate::inspections::support::{
    check_row, issue_row, spec_check_row, spec_flat_issues, spec_issue,
};
use crate::text::{cat2, cat3, cat4, cat8, str_eq, string_is, u64_chars, u64_string};
use crate::types::{CheckResult, Issue, IssueSeverity, IssueView};

verus! {

/// What the storage rules read of one persistent volume.
#[derive(Debug)]
pub struct PvFacts {
    pub name: String,
    /// Status phase, empty when the volume reports none.
    pub phase: String,
    pub has_spec: bool,
    pub reclaim_policy: Option<String>,
}

pub struct PvFactsView {
    pub name: Seq<char>,
    pub phase: Seq<char>,
    pub has_spec: bool,
    pub reclaim_policy: Option<Seq<char>>,
}

impl View for PvFacts {
    type V = PvFactsView;

    open spec fn view(&self) -> PvFactsView {
        PvFactsView {
            name: self.name@,
            phase: self.phase@,
            has_spec: self.has_spec,
            reclaim_policy: self.reclaim_policy.deep_view(),
        }
    }
}

impl DeepView for PvFacts {
    type V = PvFactsView;

    open spec fn deep_view(&self) -> PvFactsView {
        self.view()
    }
}

/// What the storage rules read of one claim.
#[derive(Debug)]
pub struct PvcFacts {
    pub namespace: String,
    pub name: String,
    pub phase: String,
    pub has_spec: bool,
    pub has_storage_class: bool,
}

pub struct PvcFactsView {
    pub namespace: Seq<char>,
    pub name: Seq<char>,
    pub phase: Seq<char>,
    pub has_spec: bool,
    pub has_storage_class: bool,
}

impl View for PvcFacts {
    type V = PvcFactsView;

    open spec fn view(&self) -> PvcFactsView {
        PvcFactsView {
            namespace: self.namespace@,
            name: self.name@,
            phase: self.phase@,
            has_spec: self.has_spec,
            has_storage_class: self.has_storage_class,
        }
    }
}

impl DeepView for PvcFacts {
    type V = PvcFactsView;

    open spec fn deep_view(&self) -> PvcFactsView {
        self.view()
    }
}

/// What the storage rules read of one storage class.
#[derive(Debug)]
pub struct ScFacts {
    pub name: String,
    pub is_default: bool,
    pub has_provisioner: bool,
}

pub struct ScFactsView {
    pub name: Seq<char>,
    pub is_default: bool,
    pub has_provisioner: bool,
}

impl View for ScFacts {
    type V = ScFactsView;

    open spec fn view(&self) -> ScFactsView {
        ScFactsView {
            name: self.name@,
            is_default: self.is_default,
            has_provisioner: self.has_provisioner,
        }
    }
}

impl DeepView for ScFacts {
    type V = ScFactsView;

    open spec fn deep_view(&self) -> ScFactsView {
        self.view()
    }
}

/// The findings one persistent volume yields: phase findings first, then
/// the reclaim-policy finding.
pub open spec fn spec_pv_issues(f: PvFactsView) -> Seq<IssueView> {
    let phase_issues: Seq<IssueView> = if f.phase == "Failed"@ {
        seq![
            spec_issue(
                IssueSeverity::Critical,
                "PersistentVolume"@,
                "Persistent Volume "@ + f.name + " is in Failed state"@,
                Some(f.name),
                "Check PV configuration and underlying storage"@,
                "STO-001"@,
            ),
        ]
    } else if f.phase == "Released"@ {
        seq![
            spec_issue(
                IssueSeverity::Warning,
                "PersistentVolume"@,
                "Persistent Volume "@ + f.name + " is Released but not reclaimed"@,
                Some(f.name),
                "Check reclaim policy and clean up released PVs"@,
                "STO-002"@,
            ),
        ]
    } else {
        Seq::empty()
    };
    let policy_issues: Seq<IssueView> = if !f.has_spec {
        Seq::empty()
    } else if f.reclaim_policy == Some("Delete"@) {
        Seq::empty()
    } else if f.reclaim_policy == Some("Retain"@) {
        if f.phase == "Released"@ {
            seq![
                spec_issue(
                    IssueSeverity::Info,
                    "PersistentVolume"@,
                    "PV "@ + f.name + " with Retain policy is Released"@,
                    Some(f.name),
                    "Monitor and clean up retained PVs manually"@,
                    "STO-003"@,
                ),
            ]
        } else {
            Seq::empty()
        }
    } else {
        seq![
            spec_issue(
                IssueSeverity::Warning,
                "PersistentVolume"@,
                "PV "@ + f.name + " has unclear reclaim policy"@,
                Some(f.name),
                "Set explicit reclaim policy (Retain or Delete)"@,
                "STO-004"@,
            ),
        ]
    };
    phase_issues + policy_issues
}

/// The findings one claim yields.
pub open spec fn spec_pvc_issues(f: PvcFactsView) -> Seq<IssueView> {
    let key = f.namespace + "/"@ + f.name;
    let phase_issues: Seq<IssueView> = if f.phase == "Pending"@ {
        seq![
            spec_issue(
                IssueSeverity::Warning,
                "PersistentVolumeClaim"@,
                "PVC "@ + key + " is pending"@,
                Some(key),
                "Check storage class availability and node capacity"@,
                "STO-005"@,
            ),
        ]
    } else if f.phase == "Lost"@ {
        seq![
            spec_issue(
                IssueSeverity::Critical,
                "PersistentVolumeClaim"@,
                "PVC "@ + key + " is lost"@,
                Some(key),
                "Data may be lost, check backup and recovery procedures"@,
                "STO-006"@,
            ),
        ]
    } else {
        Seq::empty()
    };
    let class_issues: Seq<IssueView> = if f.has_spec && !f.has_storage_class {
        seq![
            spec_issue(
                IssueSeverity::Info,
                "PersistentVolumeClaim"@,
                "PVC "@ + key + " has no storage class specified"@,
                Some(key),
                "Specify storage class for better provisioning control"@,
                "STO-007"@,
            ),
        ]
    } else {
        Seq::empty()
    };
    phase_issues + class_issues
}

/// The findings one storage class yields.
pub open spec fn spec_sc_issues(f: ScFactsView) -> Seq<IssueView> {
    if !f.has_provisioner {
        seq![
            spec_issue(
                IssueSeverity::Critical,
                "StorageClass"@,
                "Storage class "@ + f.name + " has no provisioner"@,
                Some(f.name),
                "Configure proper provisioner for storage class"@,
                "STO-008"@,
            ),
        ]
    } else {
        Seq::empty()
    }
}

/// The cluster-level default-class findings.
pub open spec fn spec_default_class_issues(default_count: int) -> Seq<IssueView> {
    if default_count == 0 {
        seq![
            IssueView {
                severity: IssueSeverity::Warning,
                category: "StorageClass"@,
                description: "No default storage class configured"@,
                resource: None,
                recommendation: "Configure a default storage class for automatic PV provisioning"@,
                rule_id: Some("STO-009"@),
            },
        ]
    } else if default_count > 1 {
        seq![
            IssueView {
                severity: IssueSeverity::Warning,
                category: "StorageClass"@,
                description: crate::text::spec_u64_chars(default_count)
                    + " default storage classes configured"@,
                resource: None,
                recommendation: "Only one storage class should be marked as default"@,
                rule_id: Some("STO-010"@),
            },
        ]
    } else {
        Seq::empty()
    }
}

/// The checks and findings of the storage unit.
pub struct StorageClassification {
    pub checks: Vec<CheckResult>,
    pub issues: Vec<Issue>,
}

/// The storage-class configuration score: full marks for exactly one
/// default class, 70 points when classes exist without a single default,
/// nothing when none exist.
pub open spec fn spec_sc_config_score(total: int, default_count: int) -> u64 {
    if total > 0 && default_count == 1 {
        100_000
    } else if total > 0 {
        70_000
    } else {
        0
    }
}

/// Classifies the storage facts: one finding list in input order (volumes,
/// then claims, then classes, then the default-class findings) and the
/// three storage checks.
pub fn classify_storage(
    pvs: &Vec<PvFacts>,
    pvcs: &Vec<PvcFacts>,
    scs: &Vec<ScFacts>,
) -> (r: StorageClassification)
    ensures
        r.issues.deep_view() == spec_flat_issues(pvs.deep_view(), |f: PvFactsView| spec_pv_issues(f))
            + spec_flat_issues(pvcs.deep_view(), |f: PvcFactsView| spec_pvc_issues(f))
            + spec_flat_issues(scs.deep_view(), |f: ScFactsView| spec_sc_issues(f))
            + spec_default_class_issues(
            scs.deep_view().filter(|f: ScFactsView| f.is_default).len() as int,
        ),
        r.checks@.len() == 3,
        r.checks.deep_view()[0] == spec_check_row(
            "Persistent Volume Health"@,
            "Checks if persistent volumes are in healthy state"@,
            spec_score_from_counts(
                pvs.deep_view().len() as int - pvs.deep_view().filter(
                    |f: PvFactsView| f.phase == "Failed"@,
                ).len() as int,
                pvs.deep_view().len() as int,
                100_000,
            ) as u64,
            "Available: "@ + crate::text::spec_u64_chars(
                pvs.deep_view().filter(|f: PvFactsView| f.phase == "Available"@).len() as int,
            ) + ", Bound: "@ + crate::text::spec_u64_chars(
                pvs.deep_view().filter(|f: PvFactsView| f.phase == "Bound"@).len() as int,
            ) + ", Failed: "@ + crate::text::spec_u64_chars(
                pvs.deep_view().filter(|f: PvFactsView| f.phase == "Failed"@).len() as int,
            ) + ", Total: "@ + crate::text::spec_u64_chars(pvs.deep_view().len() as int),
            "Investigate and resolve failed persistent volumes"@,
            95_000,
        ),
        r.checks.deep_view()[1] == spec_check_row(
            "PVC Binding"@,
            "Checks if persistent volume claims are properly bound"@,
            spec_score_from_counts(
                pvcs.deep_view().filter(|f: PvcFactsView| f.phase == "Bound"@).len() as int,
                pvcs.deep_view().len() as int,
                100_000,
            ) as u64,
            crate::text::spec_u64_chars(
                pvcs.deep_view().filter(|f: PvcFactsView| f.phase == "Bound"@).len() as int,
            ) + "/"@ + crate::text::spec_u64_chars(pvcs.deep_view().len() as int)
                + " PVCs are bound"@,
            "Resolve pending PVCs and check storage availability"@,
            95_000,
        ),
        r.checks.deep_view()[2] == spec_check_row(
            "Storage Class Configuration"@,
            "Checks storage class setup and default configuration"@,
            spec_sc_config_score(
                scs.deep_view().len() as int,
                scs.deep_view().filter(|f: ScFactsView| f.is_default).len() as int,
            ),
            crate::text::spec_u64_chars(scs.deep_view().len() as int) + " storage classes, "@
                + crate::text::spec_u64_chars(
                scs.deep_view().filter(|f: ScFactsView| f.is_default).len() as int,
            ) + " default"@,
            "Configure appropriate storage classes and set one as default"@,
            90_000,
        ),
{
    let ghost pvv = pvs.deep_view();
    let ghost pvcv = pvcs.deep_view();
    let ghost scv = scs.deep_view();
    let mut issues: Vec<Issue> = Vec::new();

    // volumes
    let mut available: u64 = 0;
    let mut bound: u64 = 0;
    let mut failed: u64 = 0;
    let mut i: usize = 0;
    proof {
        reveal(Seq::filter);
        assert(pvv.take(0int) =~= Seq::<PvFactsView>::empty());
    }
    while i < pvs.len()
        invariant
            i <= pvs@.len(),
            pvv == pvs.deep_view(),
            pvv.len() == pvs@.len(),
            issues.deep_view() == spec_flat_issues(
                pvv.take(i as int),
                |f: PvFactsView| spec_pv_issues(f),
            ),
            available == pvv.take(i as int).filter(
                |f: PvFactsView| f.phase == "Available"@,
            ).len(),
            bound == pvv.take(i as int).filter(|f: PvFactsView| f.phase == "Bound"@).len(),
            failed == pvv.take(i as int).filter(|f: PvFactsView| f.phase == "Failed"@).len(),
            available <= i && bound <= i && failed <= i,
        decreases pvs@.len() - i,
    {
        proof {
            reveal(Seq::filter);
            assert(pvv.take(i + 1int).drop_last() == pvv.take(i as int));
            assert(pvv.take(i + 1int).last() == pvv[i as int]);
            assert(pvs@[i as int]@ == pvv[i as int]);
            crate::inspections::support::lemma_filter_take_step(pvv, |f: PvFactsView| f.phase == "Available"@, i as int);
            crate::inspections::support::lemma_filter_take_step(pvv, |f: PvFactsView| f.phase == "Bound"@, i as int);
            crate::inspections::support::lemma_filter_take_step(pvv, |f: PvFactsView| f.phase == "Failed"@, i as int);
        }
        let f = &pvs[i];
        if string_is(&f.phase, "Available") {
            available = available + 1;
        }
        if string_is(&f.phase, "Bound") {
            bound = bound + 1;
        }
        if string_is(&f.phase, "Failed") {
            failed = failed + 1;
        }
        let mut batch = pv_issues(f);
        let ghost pre = issues.deep_view();
        let ghost bv = batch.deep_view();
        issues.append(&mut batch);
        proof {
            assert(issues.deep_view() =~= spec_flat_issues(
                pvv.take(i + 1int),
                |f: PvFactsView| spec_pv_issues(f),
            ));
        }
        i = i + 1;
    }
    proof {
        assert(pvv.take(pvs@.len() as int) == pvv);
    }

    // claims
    let mut pvc_bound: u64 = 0;
    let mut k: usize = 0;
    let ghost base1 = issues.deep_view();
    proof {
        reveal(Seq::filter);
        assert(pvcv.take(0int) =~= Seq::<PvcFactsView>::empty());
        assert(base1 + spec_flat_issues(pvcv.take(0int), |f: PvcFactsView| spec_pvc_issues(f))
            =~= base1);
    }
    while k < pvcs.len()
        invariant
            k <= pvcs@.len(),
            pvcv == pvcs.deep_view(),
            pvcv.len() == pvcs@.len(),
            issues.deep_view() == base1 + spec_flat_issues(
                pvcv.take(k as int),
                |f: PvcFactsView| spec_pvc_issues(f),
            ),
            pvc_bound == pvcv.take(k as int).filter(|f: PvcFactsView| f.phase == "Bound"@).len(),
            pvc_bound <= k,
        decreases pvcs@.len() - k,
    {
        proof {
            reveal(Seq::filter);
            assert(pvcv.take(k + 1int).drop_last() == pvcv.take(k as int));
            assert(pvcv.take(k + 1int).last() == pvcv[k as int]);
            assert(pvcs@[k as int]@ == pvcv[k as int]);
            crate::inspections::support::lemma_filter_take_step(pvcv, |f: PvcFactsView| f.phase == "Bound"@, k as int);
        }
        let f = &pvcs[k];
        if string_is(&f.phase, "Bound") {
            pvc_bound = pvc_bound + 1;
        }
        let mut batch = pvc_issues(f);
        let ghost pre = issues.deep_view();
        let ghost bv = batch.deep_view();
        issues.append(&mut batch);
        proof {
            assert(issues.deep_view() =~= pre + bv);
            assert(bv == spec_pvc_issues(pvcv[k as int]));
        }
        proof {
            assert(issues.deep_view() =~= base1 + spec_flat_issues(
                pvcv.take(k + 1int),
                |f: PvcFactsView| spec_pvc_issues(f),
            ));
        }
        k = k + 1;
    }
    proof {
        assert(pvcv.take(pvcs@.len() as int) == pvcv);
    }

    // classes
    let mut default_count: u64 = 0;
    let mut j: usize = 0;
    let ghost base2 = issues.deep_view();
    proof {
        reveal(Seq::filter);
        assert(scv.take(0int) =~= Seq::<ScFactsView>::empty());
        assert(base2 + spec_flat_issues(scv.take(0int), |f: ScFactsView| spec_sc_issues(f))
            =~= base2);
    }
    while j < scs.len()
        invariant
            j <= scs@.len(),
            scv == scs.deep_view(),
            scv.len() == scs@.len(),
            issues.deep_view() == base2 + spec_flat_issues(
                scv.take(j as int),
                |f: ScFactsView| spec_sc_issues(f),
            ),
            default_count == scv.take(j as int).filter(|f: ScFactsView| f.is_default).len(),
            default_count <= j,
        decreases scs@.len() - j,
    {
        proof {
            reveal(Seq::filter);
            assert(scv.take(j + 1int).drop_last() == scv.take(j as int));
            assert(scv.take(j + 1int).last() == scv[j as int]);
            assert(scs@[j as int]@ == scv[j as int]);
            crate::inspections::support::lemma_filter_take_step(scv, |f: ScFactsView| f.is_default, j as int);
        }
        let f = &scs[j];
        if f.is_default {
            default_count = default_count + 1;
        }
        let mut batch = sc_issues(f);
        let ghost pre = issues.deep_view();
        let ghost bv = batch.deep_view();
        issues.append(&mut batch);
        proof {
            assert(issues.deep_view() =~= pre + bv);
            assert(bv == spec_sc_issues(scv[j as int]));
        }
        proof {
            assert(issues.deep_view() =~= base2 + spec_flat_issues(
                scv.take(j + 1int),
                |f: ScFactsView| spec_sc_issues(f),
            ));
        }
        j = j + 1;
    }
    proof {
        assert(scv.take(scs@.len() as int) == scv);
    }

    // the cluster-level default findings
    let ghost base3 = issues.deep_view();
    if default_count == 0 {
        issues.push(
            issue_row(
                IssueSeverity::Warning,
                "StorageClass",
                "No default storage class configured".to_owned(),
                None,
                "Configure a default storage class for automatic PV provisioning",
                "STO-009",
            ),
        );
        proof {
            assert(issues.deep_view() =~= base3 + spec_default_class_issues(
                scv.filter(|f: ScFactsView| f.is_default).len() as int,
            ));
        }
    } else if default_count > 1 {
        let n = u64_string(default_count);
        issues.push(
            issue_row(
                IssueSeverity::Warning,
                "StorageClass",
                cat2(n.as_str(), " default storage classes configured"),
                None,
                "Only one storage class should be marked as default",
                "STO-010",
            ),
        );
        proof {
            assert(issues.deep_view() =~= base3 + spec_default_class_issues(
                scv.filter(|f: ScFactsView| f.is_default).len() as int,
            ));
        }
    } else {
        proof {
            assert(issues.deep_view() =~= base3 + spec_default_class_issues(
                scv.filter(|f: ScFactsView| f.is_default).len() as int,
            ));
        }
    }

    // the three checks
    let total_pvs = pvs.len() as u64;
    proof {
        crate::inspections::support::lemma_filter_le(pvv, |f: PvFactsView| f.phase == "Failed"@);
    }
    let pv_score = score_from_counts(total_pvs - failed, total_pvs, 100_000);
    let d0 = {
        let a = u64_string(available);
        let b = u64_string(bound);
        let fl = u64_string(failed);
        let tt = u64_string(total_pvs);
        cat8(
            "Available: ",
            a.as_str(),
            ", Bound: ",
            b.as_str(),
            ", Failed: ",
            fl.as_str(),
            ", Total: ",
            tt.as_str(),
        )
    };
    let c0 = check_row(
        "Persistent Volume Health",
        "Checks if persistent volumes are in healthy state",
        pv_score,
        d0,
        "Investigate and resolve failed persistent volumes",
        95_000,
    );

    let total_pvcs = pvcs.len() as u64;
    proof {
        crate::inspections::support::lemma_filter_le(pvcv, |f: PvcFactsView| f.phase == "Bound"@);
    }
    let pvc_score = score_from_counts(pvc_bound, total_pvcs, 100_000);
    let d1 = {
        let b = u64_string(pvc_bound);
        let tt = u64_string(total_pvcs);
        cat4(b.as_str(), "/", tt.as_str(), " PVCs are bound")
    };
    let c1 = check_row(
        "PVC Binding",
        "Checks if persistent volume claims are properly bound",
        pvc_score,
        d1,
        "Resolve pending PVCs and check storage availability",
        95_000,
    );

    let total_scs = scs.len() as u64;
    let sc_score: u64 = if total_scs > 0 && default_count == 1 {
        100_000
    } else if total_scs > 0 {
        70_000
    } else {
        0
    };
    let d2 = {
        let tt = u64_string(total_scs);
        let dd = u64_string(default_count);
        cat4(tt.as_str(), " storage classes, ", dd.as_str(), " default")
    };
    let c2 = check_row(
        "Storage Class Configuration",
        "Checks storage class setup and default configuration",
        sc_score,
        d2,
        "Configure appropriate storage classes and set one as default",
        90_000,
    );

    let mut checks: Vec<CheckResult> = Vec::new();
    checks.push(c0);
    checks.push(c1);
    checks.push(c2);
    StorageClassification { checks, issues }
}

/// One volume's findings.
fn pv_issues(f: &PvFacts) -> (r: Vec<Issue>)
    ensures
        r.deep_view() == spec_pv_issues(f@),
{
    let mut r: Vec<Issue> = Vec::new();
    if string_is(&f.phase, "Failed") {
        r.push(
            issue_row(
                IssueSeverity::Critical,
                "PersistentVolume",
                cat3("Persistent Volume ", f.name.as_str(), " is in Failed state"),
                Some(f.name.clone()),
                "Check PV configuration and underlying storage",
                "STO-001",
            ),
        );
    } else if string_is(&f.phase, "Released") {
        r.push(
            issue_row(
                IssueSeverity::Warning,
                "PersistentVolume",
                cat3("Persistent Volume ", f.name.as_str(), " is Released but not reclaimed"),
                Some(f.name.clone()),
                "Check reclaim policy and clean up released PVs",
                "STO-002",
            ),
        );
    }
    if f.has_spec {
        let is_delete = match &f.reclaim_policy {
            Some(p) => string_is(p, "Delete"),
            None => false,
        };
        let is_retain = match &f.reclaim_policy {
            Some(p) => string_is(p, "Retain"),
            None => false,
        };
        if is_delete {
        } else if is_retain {
            if string_is(&f.phase, "Released") {
                r.push(
                    issue_row(
                        IssueSeverity::Info,
                        "PersistentVolume",
                        cat3("PV ", f.name.as_str(), " with Retain policy is Released"),
                        Some(f.name.clone()),
                        "Monitor and clean up retained PVs manually",
                        "STO-003",
                    ),
                );
            }
        } else {
            r.push(
                issue_row(
                    IssueSeverity::Warning,
                    "PersistentVolume",
                    cat3("PV ", f.name.as_str(), " has unclear reclaim policy"),
                    Some(f.name.clone()),
                    "Set explicit reclaim policy (Retain or Delete)",
                    "STO-004",
                ),
            );
        }
    }
    proof {
        assert(r.deep_view() =~= spec_pv_issues(f@));
    }
    r
}

/// One claim's findings.
fn pvc_issues(f: &PvcFacts) -> (r: Vec<Issue>)
    ensures
        r.deep_view() == spec_pvc_issues(f@),
{
    let mut r: Vec<Issue> = Vec::new();
    let key = cat3(f.namespace.as_str(), "/", f.name.as_str());
    if string_is(&f.phase, "Pending") {
        r.push(
            issue_row(
                IssueSeverity::Warning,
                "PersistentVolumeClaim",
                cat3("PVC ", key.as_str(), " is pending"),
                Some(key.clone()),
                "Check storage class availability and node capacity",
                "STO-005",
            ),
        );
    } else if string_is(&f.phase, "Lost") {
        r.push(
            issue_row(
                IssueSeverity::Critical,
                "PersistentVolumeClaim",
                cat3("PVC ", key.as_str(), " is lost"),
                Some(key.clone()),
                "Data may be lost, check backup and recovery procedures",
                "STO-006",
            ),
        );
    }
    if f.has_spec && !f.has_storage_class {
        r.push(
            issue_row(
                IssueSeverity::Info,
                "PersistentVolumeClaim",
                cat3("PVC ", key.as_str(), " has no storage class specified"),
                Some(key.clone()),
                "Specify storage class for better provisioning control",
                "STO-007",
            ),
        );
    }
    proof {
        assert(r.deep_view() =~= spec_pvc_issues(f@));
    }
    r
}

/// One class's findings.
fn sc_issues(f: &ScFacts) -> (r: Vec<Issue>)
    ensures
        r.deep_view() == spec_sc_issues(f@),
{
    let mut r: Vec<Issue> = Vec::new();
    if !f.has_provisioner {
        r.push(
            issue_row(
                IssueSeverity::Critical,
                "StorageClass",
                cat3("Storage class ", f.name.as_str(), " has no provisioner"),
                Some(f.name.clone()),
                "Configure proper provisioner for storage class",
                "STO-008",
            ),
        );
    }
    proof {
        assert(r.deep_view() =~= spec_sc_issues(f@));
    }
    r
}

} // verus!
