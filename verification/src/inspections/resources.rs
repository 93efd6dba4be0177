//! Resource usage unit: container requests and limits, quantity sanity,
//! and the namespace quota reminder.

use vstd::prelude::*;

use crate::checks::score_from_counts;
use crate::inspections::support::{
    check_row, issue_row, lemma_filter_le, lemma_filter_take_step, spec_check_row,
    spec_flat_issues, spec_issue,
};
use crate::resource_quantity::{parse_cpu_str, parse_memory_str, spec_parse_cpu, spec_parse_memory};
use crate::text::{cat3, cat4, cat6, string_is, u64_string};
use crate::types::{CheckResult, Issue, IssueSeverity, IssueView};

verus! {

/// What the rules read of one container's resource block.
#[derive(Debug)]
pub struct ContainerResFacts {
    pub pod_namespace: String,
    pub pod_name: String,
    pub container_name: String,
    pub has_requests: bool,
    pub has_limits: bool,
    /// Raw quantity strings, present when both sides declare the value.
    pub cpu_request: Option<String>,
    pub cpu_limit: Option<String>,
    pub memory_request: Option<String>,
    pub memory_limit: Option<String>,
}

pub struct ContainerResFactsView {
    pub pod_namespace: Seq<char>,
    pub pod_name: Seq<char>,
    pub container_name: Seq<char>,
    pub has_requests: bool,
    pub has_limits: bool,
    pub cpu_request: Option<Seq<char>>,
    pub cpu_limit: Option<Seq<char>>,
    pub memory_request: Option<Seq<char>>,
    pub memory_limit: Option<Seq<char>>,
}

impl View for ContainerResFacts {
    type V = ContainerResFactsView;

    open spec fn view(&self) -> ContainerResFactsView {
        ContainerResFactsView {
            pod_namespace: self.pod_namespace@,
            pod_name: self.pod_name@,
            container_name: self.container_name@,
            has_requests: self.has_requests,
            has_limits: self.has_limits,
            cpu_request: self.cpu_request.deep_view(),
            cpu_limit: self.cpu_limit.deep_view(),
            memory_request: self.memory_request.deep_view(),
            memory_limit: self.memory_limit.deep_view(),
        }
    }
}

impl DeepView for ContainerResFacts {
    type V = ContainerResFactsView;

    open spec fn deep_view(&self) -> ContainerResFactsView {
        self.view()
    }
}

/// One namespace with the quota outcome the caller observed for it.
#[derive(Debug)]
pub struct NamespaceQuotaFact {
    pub name: String,
    /// Whether a quota was assumed present for this namespace.
    pub quota_assumed: bool,
}

pub struct NamespaceQuotaFactView {
    pub name: Seq<char>,
    pub quota_assumed: bool,
}

impl View for NamespaceQuotaFact {
    type V = NamespaceQuotaFactView;

    open spec fn view(&self) -> NamespaceQuotaFactView {
        NamespaceQuotaFactView { name: self.name@, quota_assumed: self.quota_assumed }
    }
}

impl DeepView for NamespaceQuotaFact {
    type V = NamespaceQuotaFactView;

    open spec fn deep_view(&self) -> NamespaceQuotaFactView {
        self.view()
    }
}

/// A CPU limit declared below the request, both parseable.
pub open spec fn spec_cpu_inverted(f: ContainerResFactsView) -> bool {
    match (f.cpu_request, f.cpu_limit) {
        (Some(rq), Some(lm)) => match (spec_parse_cpu(rq), spec_parse_cpu(lm)) {
            (Some(r), Some(l)) => l < r,
            _ => false,
        },
        _ => false,
    }
}

/// A memory limit declared below the request, both parseable.
pub open spec fn spec_memory_inverted(f: ContainerResFactsView) -> bool {
    match (f.memory_request, f.memory_limit) {
        (Some(rq), Some(lm)) => match (spec_parse_memory(rq), spec_parse_memory(lm)) {
            (Some(r), Some(l)) => l < r,
            _ => false,
        },
        _ => false,
    }
}

/// The findings one container yields: inverted CPU then memory limits,
/// then the missing request and missing limit findings.
pub open spec fn spec_container_issues(f: ContainerResFactsView) -> Seq<IssueView> {
    let key = f.pod_namespace + "/"@ + f.pod_name;
    (if spec_cpu_inverted(f) {
        seq![
            spec_issue(
                IssueSeverity::Critical,
                "Container"@,
                "Container "@ + f.container_name + " in pod "@ + key
                    + " has CPU limit lower than request"@,
                Some(key),
                "Ensure CPU limits are higher than or equal to requests"@,
                "RES-004"@,
            ),
        ]
    } else {
        Seq::empty()
    }) + (if spec_memory_inverted(f) {
        seq![
            spec_issue(
                IssueSeverity::Critical,
                "Container"@,
                "Container "@ + f.container_name + " in pod "@ + key
                    + " has memory limit lower than request"@,
                Some(key),
                "Ensure memory limits are higher than or equal to requests"@,
                "RES-005"@,
            ),
        ]
    } else {
        Seq::empty()
    }) + (if !f.has_requests {
        seq![
            spec_issue(
                IssueSeverity::Warning,
                "Container"@,
                "Container "@ + f.container_name + " in pod "@ + key
                    + " has no resource requests"@,
                Some(key),
                "Set CPU and memory requests for better scheduling"@,
                "RES-001"@,
            ),
        ]
    } else {
        Seq::empty()
    }) + (if !f.has_limits {
        seq![
            spec_issue(
                IssueSeverity::Warning,
                "Container"@,
                "Container "@ + f.container_name + " in pod "@ + key + " has no resource limits"@,
                Some(key),
                "Set CPU and memory limits to prevent resource exhaustion"@,
                "RES-002"@,
            ),
        ]
    } else {
        Seq::empty()
    })
}

/// A namespace outside the system three, without an assumed quota.
pub open spec fn spec_ns_needs_quota(f: NamespaceQuotaFactView) -> bool {
    f.name != "kube-system"@ && f.name != "kube-public"@ && f.name != "kube-node-lease"@
        && !f.quota_assumed
}

pub open spec fn spec_ns_issues(f: NamespaceQuotaFactView) -> Seq<IssueView> {
    if spec_ns_needs_quota(f) {
        seq![
            spec_issue(
                IssueSeverity::Warning,
                "Resource Management"@,
                "Namespace "@ + f.name + " has no resource quota"@,
                Some(f.name),
                "Configure resource quotas to prevent resource exhaustion"@,
                "RES-003"@,
            ),
        ]
    } else {
        Seq::empty()
    }
}

pub struct ResourceClassification {
    pub checks: Vec<CheckResult>,
    pub issues: Vec<Issue>,
}

/// Classifies the container resource facts and the namespace quota
/// outcomes: the three request/limit coverage checks and the findings in
/// rule order.
pub fn classify_resources(
    containers: &Vec<ContainerResFacts>,
    namespaces: &Vec<NamespaceQuotaFact>,
) -> (r: ResourceClassification)
    ensures
        r.issues.deep_view() == spec_flat_issues(
            containers.deep_view(),
            |f: ContainerResFactsView| spec_container_issues(f),
        ) + spec_flat_issues(namespaces.deep_view(), |f: NamespaceQuotaFactView| spec_ns_issues(f)),
        r.checks@.len() == 3,
        r.checks.deep_view()[0] == spec_check_row(
            "Resource Requests"@,
            "Checks if containers have resource requests configured"@,
            crate::checks::spec_score_from_counts(
                containers.deep_view().filter(
                    |f: ContainerResFactsView| f.has_requests,
                ).len() as int,
                containers.deep_view().len() as int,
                100_000,
            ) as u64,
            crate::text::spec_u64_chars(
                containers.deep_view().filter(
                    |f: ContainerResFactsView| f.has_requests,
                ).len() as int,
            ) + "/"@ + crate::text::spec_u64_chars(containers.deep_view().len() as int)
                + " containers with resource requests"@,
            "Configure resource requests for better pod scheduling"@,
            80_000,
        ),
        r.checks.deep_view()[1] == spec_check_row(
            "Resource Limits"@,
            "Checks if containers have resource limits configured"@,
            crate::checks::spec_score_from_counts(
                containers.deep_view().filter(
                    |f: ContainerResFactsView| f.has_limits,
                ).len() as int,
                containers.deep_view().len() as int,
                100_000,
            ) as u64,
            crate::text::spec_u64_chars(
                containers.deep_view().filter(
                    |f: ContainerResFactsView| f.has_limits,
                ).len() as int,
            ) + "/"@ + crate::text::spec_u64_chars(containers.deep_view().len() as int)
                + " containers with resource limits"@,
            "Configure resource limits to prevent resource exhaustion"@,
            80_000,
        ),
        r.checks.deep_view()[2] == spec_check_row(
            "Complete Resource Configuration"@,
            "Checks if containers have both requests and limits configured"@,
            crate::checks::spec_score_from_counts(
                containers.deep_view().filter(
                    |f: ContainerResFactsView| f.has_requests && f.has_limits,
                ).len() as int,
                containers.deep_view().len() as int,
                100_000,
            ) as u64,
            crate::text::spec_u64_chars(
                containers.deep_view().filter(
                    |f: ContainerResFactsView| f.has_requests && f.has_limits,
                ).len() as int,
            ) + "/"@ + crate::text::spec_u64_chars(containers.deep_view().len() as int)
                + " containers with complete resource configuration"@,
            "Configure both requests and limits for optimal resource management"@,
            70_000,
        ),
{
    let ghost cv = containers.deep_view();
    let ghost nv = namespaces.deep_view();
    let mut issues: Vec<Issue> = Vec::new();
    let mut with_requests: u64 = 0;
    let mut with_limits: u64 = 0;
    let mut with_both: u64 = 0;
    let mut i: usize = 0;
    proof {
        reveal(Seq::filter);
        assert(cv.take(0int) =~= Seq::<ContainerResFactsView>::empty());
    }
    while i < containers.len()
        invariant
            i <= containers@.len(),
            cv == containers.deep_view(),
            cv.len() == containers@.len(),
            issues.deep_view() == spec_flat_issues(
                cv.take(i as int),
                |f: ContainerResFactsView| spec_container_issues(f),
            ),
            with_requests == cv.take(i as int).filter(
                |f: ContainerResFactsView| f.has_requests,
            ).len(),
            with_limits == cv.take(i as int).filter(
                |f: ContainerResFactsView| f.has_limits,
            ).len(),
            with_both == cv.take(i as int).filter(
                |f: ContainerResFactsView| f.has_requests && f.has_limits,
            ).len(),
            with_requests <= i && with_limits <= i && with_both <= i,
        decreases containers@.len() - i,
    {
        proof {
            reveal(Seq::filter);
            assert(cv.take(i + 1int).drop_last() == cv.take(i as int));
            assert(cv.take(i + 1int).last() == cv[i as int]);
            assert(containers@[i as int]@ == cv[i as int]);
            lemma_filter_take_step(cv, |f: ContainerResFactsView| f.has_requests, i as int);
            lemma_filter_take_step(cv, |f: ContainerResFactsView| f.has_limits, i as int);
            lemma_filter_take_step(
                cv,
                |f: ContainerResFactsView| f.has_requests && f.has_limits,
                i as int,
            );
        }
        let f = &containers[i];
        if f.has_requests {
            with_requests = with_requests + 1;
        }
        if f.has_limits {
            with_limits = with_limits + 1;
        }
        if f.has_requests && f.has_limits {
            with_both = with_both + 1;
        }
        let mut batch = container_issues(f);
        let ghost pre = issues.deep_view();
        let ghost bv = batch.deep_view();
        issues.append(&mut batch);
        proof {
            assert(issues.deep_view() =~= pre + bv);
            assert(bv == spec_container_issues(cv[i as int]));
            assert(issues.deep_view() =~= spec_flat_issues(
                cv.take(i + 1int),
                |f: ContainerResFactsView| spec_container_issues(f),
            ));
        }
        i = i + 1;
    }
    proof {
        assert(cv.take(containers@.len() as int) == cv);
        lemma_filter_le(cv, |f: ContainerResFactsView| f.has_requests);
        lemma_filter_le(cv, |f: ContainerResFactsView| f.has_limits);
        lemma_filter_le(cv, |f: ContainerResFactsView| f.has_requests && f.has_limits);
    }

    // namespaces and the quota reminder
    let mut k: usize = 0;
    let ghost base = issues.deep_view();
    proof {
        assert(nv.take(0int) =~= Seq::<NamespaceQuotaFactView>::empty());
        assert(base + spec_flat_issues(nv.take(0int), |f: NamespaceQuotaFactView| spec_ns_issues(f))
            =~= base);
    }
    while k < namespaces.len()
        invariant
            k <= namespaces@.len(),
            nv == namespaces.deep_view(),
            nv.len() == namespaces@.len(),
            issues.deep_view() == base + spec_flat_issues(
                nv.take(k as int),
                |f: NamespaceQuotaFactView| spec_ns_issues(f),
            ),
        decreases namespaces@.len() - k,
    {
        proof {
            assert(nv.take(k + 1int).drop_last() == nv.take(k as int));
            assert(nv.take(k + 1int).last() == nv[k as int]);
            assert(namespaces@[k as int]@ == nv[k as int]);
        }
        let f = &namespaces[k];
        let system = string_is(&f.name, "kube-system") || string_is(&f.name, "kube-public")
            || string_is(&f.name, "kube-node-lease");
        let ghost pre = issues.deep_view();
        if !system && !f.quota_assumed {
            let row = issue_row(
                IssueSeverity::Warning,
                "Resource Management",
                cat3("Namespace ", f.name.as_str(), " has no resource quota"),
                Some(f.name.clone()),
                "Configure resource quotas to prevent resource exhaustion",
                "RES-003",
            );
            let ghost rv = row@;
            issues.push(row);
            proof {
                assert(issues.deep_view() =~= pre.push(rv));
                assert(rv == spec_ns_issues(nv[k as int])[0]);
                assert(spec_ns_issues(nv[k as int]) =~= seq![rv]);
            }
        }
        proof {
            assert(issues.deep_view() =~= base + spec_flat_issues(
                nv.take(k + 1int),
                |f: NamespaceQuotaFactView| spec_ns_issues(f),
            ));
        }
        k = k + 1;
    }
    proof {
        assert(nv.take(namespaces@.len() as int) == nv);
    }

    let total = containers.len() as u64;
    let rq = u64_string(with_requests);
    let lm = u64_string(with_limits);
    let bt = u64_string(with_both);
    let tt = u64_string(total);
    let c0 = check_row(
        "Resource Requests",
        "Checks if containers have resource requests configured",
        score_from_counts(with_requests, total, 100_000),
        cat4(rq.as_str(), "/", tt.as_str(), " containers with resource requests"),
        "Configure resource requests for better pod scheduling",
        80_000,
    );
    let c1 = check_row(
        "Resource Limits",
        "Checks if containers have resource limits configured",
        score_from_counts(with_limits, total, 100_000),
        cat4(lm.as_str(), "/", tt.as_str(), " containers with resource limits"),
        "Configure resource limits to prevent resource exhaustion",
        80_000,
    );
    let c2 = check_row(
        "Complete Resource Configuration",
        "Checks if containers have both requests and limits configured",
        score_from_counts(with_both, total, 100_000),
        cat4(bt.as_str(), "/", tt.as_str(), " containers with complete resource configuration"),
        "Configure both requests and limits for optimal resource management",
        70_000,
    );
    let mut checks: Vec<CheckResult> = Vec::new();
    checks.push(c0);
    checks.push(c1);
    checks.push(c2);
    ResourceClassification { checks, issues }
}

/// Whether the CPU limit parses below the CPU request.
fn cpu_inverted(f: &ContainerResFacts) -> (r: bool)
    ensures
        r == spec_cpu_inverted(f@),
{
    match (&f.cpu_request, &f.cpu_limit) {
        (Some(rq), Some(lm)) => match (parse_cpu_str(rq.as_str()), parse_cpu_str(lm.as_str())) {
            (Some(rv), Some(lv)) => lv < rv,
            _ => false,
        },
        _ => false,
    }
}

/// Whether the memory limit parses below the memory request.
fn memory_inverted(f: &ContainerResFacts) -> (r: bool)
    ensures
        r == spec_memory_inverted(f@),
{
    match (&f.memory_request, &f.memory_limit) {
        (Some(rq), Some(lm)) => match (
            parse_memory_str(rq.as_str()),
            parse_memory_str(lm.as_str()),
        ) {
            (Some(rv), Some(lv)) => lv < rv,
            _ => false,
        },
        _ => false,
    }
}

/// One container's findings.
fn container_issues(f: &ContainerResFacts) -> (r: Vec<Issue>)
    ensures
        r.deep_view() == spec_container_issues(f@),
{
    let mut r: Vec<Issue> = Vec::new();
    let key = cat3(f.pod_namespace.as_str(), "/", f.pod_name.as_str());
    if cpu_inverted(f) {
        let desc = {
            let head = cat4("Container ", f.container_name.as_str(), " in pod ", key.as_str());
            crate::text::cat2(head.as_str(), " has CPU limit lower than request")
        };
        r.push(
            issue_row(
                IssueSeverity::Critical,
                "Container",
                desc,
                Some(key.clone()),
                "Ensure CPU limits are higher than or equal to requests",
                "RES-004",
            ),
        );
    }
    if memory_inverted(f) {
        let desc = {
            let head = cat4("Container ", f.container_name.as_str(), " in pod ", key.as_str());
            crate::text::cat2(head.as_str(), " has memory limit lower than request")
        };
        r.push(
            issue_row(
                IssueSeverity::Critical,
                "Container",
                desc,
                Some(key.clone()),
                "Ensure memory limits are higher than or equal to requests",
                "RES-005",
            ),
        );
    }
    if !f.has_requests {
        let desc = {
            let head = cat4("Container ", f.container_name.as_str(), " in pod ", key.as_str());
            crate::text::cat2(head.as_str(), " has no resource requests")
        };
        r.push(
            issue_row(
                IssueSeverity::Warning,
                "Container",
                desc,
                Some(key.clone()),
                "Set CPU and memory requests for better scheduling",
                "RES-001",
            ),
        );
    }
    if !f.has_limits {
        let desc = {
            let head = cat4("Container ", f.container_name.as_str(), " in pod ", key.as_str());
            crate::text::cat2(head.as_str(), " has no resource limits")
        };
        r.push(
            issue_row(
                IssueSeverity::Warning,
                "Container",
                desc,
                Some(key.clone()),
                "Set CPU and memory limits to prevent resource exhaustion",
                "RES-002",
            ),
        );
    }
    proof {
        assert(r.deep_view() =~= spec_container_issues(f@));
    }
    r
}

} // verus!
