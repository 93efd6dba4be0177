//! Security unit: RBAC, pod security contexts, network-policy coverage
//! and service-account usage.

use vstd::prelude::*;

use crate::checks::score_from_counts;
use crate::inspections::support::{
    check_row, issue_row, lemma_filter_le, lemma_filter_take_step, spec_check_row,
    spec_flat_issues, spec_issue,
};
use crate::text::{cat3, cat4, cat5, spec_starts_with, starts_with_lit, string_is, to_chars, u64_string};
use crate::types::{CheckResult, Issue, IssueSeverity, IssueView};

verus! {

/// What the rules read of one cluster role.
#[derive(Debug)]
pub struct ClusterRoleFacts {
    pub name: String,
    /// Whether some rule grants a wildcard verb or resource.
    pub has_wildcard_rule: bool,
}

pub struct ClusterRoleFactsView {
    pub name: Seq<char>,
    pub has_wildcard_rule: bool,
}

impl View for ClusterRoleFacts {
    type V = ClusterRoleFactsView;

    open spec fn view(&self) -> ClusterRoleFactsView {
        ClusterRoleFactsView { name: self.name@, has_wildcard_rule: self.has_wildcard_rule }
    }
}

impl DeepView for ClusterRoleFacts {
    type V = ClusterRoleFactsView;

    open spec fn deep_view(&self) -> ClusterRoleFactsView {
        self.view()
    }
}

/// One subject of a cluster-admin binding.
#[derive(Debug)]
pub struct AdminSubjectFacts {
    pub binding_name: String,
    pub kind: String,
    pub name: String,
    pub namespace: Option<String>,
}

pub struct AdminSubjectFactsView {
    pub binding_name: Seq<char>,
    pub kind: Seq<char>,
    pub name: Seq<char>,
    pub namespace: Option<Seq<char>>,
}

impl View for AdminSubjectFacts {
    type V = AdminSubjectFactsView;

    open spec fn view(&self) -> AdminSubjectFactsView {
        AdminSubjectFactsView {
            binding_name: self.binding_name@,
            kind: self.kind@,
            name: self.name@,
            namespace: self.namespace.deep_view(),
        }
    }
}

impl DeepView for AdminSubjectFacts {
    type V = AdminSubjectFactsView;

    open spec fn deep_view(&self) -> AdminSubjectFactsView {
        self.view()
    }
}

/// One container's security context, as the rules read it.
#[derive(Debug)]
pub struct ContainerSecFacts {
    pub name: String,
    pub has_security_context: bool,
    pub privileged: bool,
    pub runs_as_root: bool,
    pub allows_escalation: bool,
}

pub struct ContainerSecFactsView {
    pub name: Seq<char>,
    pub has_security_context: bool,
    pub privileged: bool,
    pub runs_as_root: bool,
    pub allows_escalation: bool,
}

impl View for ContainerSecFacts {
    type V = ContainerSecFactsView;

    open spec fn view(&self) -> ContainerSecFactsView {
        ContainerSecFactsView {
            name: self.name@,
            has_security_context: self.has_security_context,
            privileged: self.privileged,
            runs_as_root: self.runs_as_root,
            allows_escalation: self.allows_escalation,
        }
    }
}

impl DeepView for ContainerSecFacts {
    type V = ContainerSecFactsView;

    open spec fn deep_view(&self) -> ContainerSecFactsView {
        self.view()
    }
}

/// One pod's security facts.
#[derive(Debug)]
pub struct PodSecFacts {
    pub namespace: String,
    pub name: String,
    pub has_pod_security_context: bool,
    /// The pod-level user is declared and is the superuser.
    pub pod_runs_as_root: bool,
    pub containers: Vec<ContainerSecFacts>,
    pub service_account: String,
}

pub struct PodSecFactsView {
    pub namespace: Seq<char>,
    pub name: Seq<char>,
    pub has_pod_security_context: bool,
    pub pod_runs_as_root: bool,
    pub containers: Seq<ContainerSecFactsView>,
    pub service_account: Seq<char>,
}

impl View for PodSecFacts {
    type V = PodSecFactsView;

    open spec fn view(&self) -> PodSecFactsView {
        PodSecFactsView {
            namespace: self.namespace@,
            name: self.name@,
            has_pod_security_context: self.has_pod_security_context,
            pod_runs_as_root: self.pod_runs_as_root,
            containers: self.containers.deep_view(),
            service_account: self.service_account@,
        }
    }
}

impl DeepView for PodSecFacts {
    type V = PodSecFactsView;

    open spec fn deep_view(&self) -> PodSecFactsView {
        self.view()
    }
}

/// A wildcard role outside the system prefix draws the finding.
pub open spec fn spec_role_issues(f: ClusterRoleFactsView) -> Seq<IssueView> {
    if f.has_wildcard_rule && !spec_starts_with(f.name, "system:"@) && !spec_starts_with(
        f.name,
        "cluster-admin"@,
    ) {
        seq![
            spec_issue(
                IssueSeverity::Warning,
                "ClusterRole"@,
                "ClusterRole "@ + f.name + " has overly permissive rules"@,
                Some(f.name),
                "Review and restrict ClusterRole permissions to minimum required"@,
                "SEC-001"@,
            ),
        ]
    } else {
        Seq::empty()
    }
}

/// A cluster-admin subject: a non-system user or an out-of-system
/// service account.
pub open spec fn spec_subject_risky(f: AdminSubjectFactsView) -> bool {
    (f.kind == "User"@ && !spec_starts_with(f.name, "system:"@)) || (f.kind == "ServiceAccount"@
        && f.namespace != Some("kube-system"@))
}

pub open spec fn spec_subject_issues(f: AdminSubjectFactsView) -> Seq<IssueView> {
    if f.kind == "User"@ && !spec_starts_with(f.name, "system:"@) {
        seq![
            spec_issue(
                IssueSeverity::Warning,
                "ClusterRoleBinding"@,
                "User "@ + f.name + " has cluster-admin privileges"@,
                Some(f.binding_name),
                "Minimize cluster-admin privileges and use more specific roles"@,
                "SEC-002"@,
            ),
        ]
    } else if f.kind == "ServiceAccount"@ && f.namespace != Some("kube-system"@) {
        seq![
            spec_issue(
                IssueSeverity::Critical,
                "ClusterRoleBinding"@,
                "ServiceAccount "@ + (match f.namespace {
                    Some(ns) => ns,
                    None => "default"@,
                }) + "/"@ + f.name + " has cluster-admin privileges"@,
                Some(f.binding_name),
                "Review and restrict ServiceAccount permissions"@,
                "SEC-003"@,
            ),
        ]
    } else {
        Seq::empty()
    }
}

/// One pod's security findings: the pod-level root user, then per
/// container the privileged, root and escalation rules.
pub open spec fn spec_pod_sec_issues(f: PodSecFactsView) -> Seq<IssueView> {
    let key = f.namespace + "/"@ + f.name;
    (if f.has_pod_security_context && f.pod_runs_as_root {
        seq![
            spec_issue(
                IssueSeverity::Warning,
                "Security"@,
                "Pod "@ + key + " runs as root user"@,
                Some(key),
                "Configure runAsUser to use non-root user"@,
                "SEC-004"@,
            ),
        ]
    } else {
        Seq::empty()
    }) + spec_flat_issues(f.containers, |c: ContainerSecFactsView| spec_container_sec_issues(f, c))
}

pub open spec fn spec_container_sec_issues(
    f: PodSecFactsView,
    c: ContainerSecFactsView,
) -> Seq<IssueView> {
    let key = f.namespace + "/"@ + f.name;
    if !c.has_security_context {
        Seq::empty()
    } else {
        (if c.privileged {
            seq![
                spec_issue(
                    IssueSeverity::Warning,
                    "Security"@,
                    "Container "@ + c.name + " in pod "@ + key + " runs in privileged mode"@,
                    Some(key),
                    "Remove privileged flag unless absolutely necessary"@,
                    "SEC-005"@,
                ),
            ]
        } else {
            Seq::empty()
        }) + (if c.runs_as_root {
            seq![
                spec_issue(
                    IssueSeverity::Warning,
                    "Security"@,
                    "Container "@ + c.name + " in pod "@ + key + " runs as root"@,
                    Some(key),
                    "Configure container to run as non-root user"@,
                    "SEC-006"@,
                ),
            ]
        } else {
            Seq::empty()
        }) + (if c.allows_escalation {
            seq![
                spec_issue(
                    IssueSeverity::Warning,
                    "Security"@,
                    "Container "@ + c.name + " in pod "@ + key + " allows privilege escalation"@,
                    Some(key),
                    "Disable allowPrivilegeEscalation"@,
                    "SEC-007"@,
                ),
            ]
        } else {
            Seq::empty()
        })
    }
}

/// A pod counts as secure when it declares a pod security context, its
/// user is not root, and no container is privileged, root or escalating.
pub open spec fn spec_pod_secure(f: PodSecFactsView) -> bool {
    &&& f.has_pod_security_context
    &&& !f.pod_runs_as_root
    &&& forall|j: int|
        0 <= j < f.containers.len() ==> {
            let c = #[trigger] f.containers[j];
            !c.has_security_context || (!c.privileged && !c.runs_as_root && !c.allows_escalation)
        }
}

pub open spec fn spec_uses_default_sa(f: PodSecFactsView) -> bool {
    f.service_account == "default"@
}

pub open spec fn spec_sa_issues(f: PodSecFactsView) -> Seq<IssueView> {
    let key = f.namespace + "/"@ + f.name;
    if spec_uses_default_sa(f) {
        seq![
            spec_issue(
                IssueSeverity::Warning,
                "ServiceAccount"@,
                "Pod "@ + key + " uses default service account"@,
                Some(key),
                "Create and use dedicated service accounts with minimal permissions"@,
                "SEC-009"@,
            ),
        ]
    } else {
        Seq::empty()
    }
}

/// The low-coverage network-policy finding.
pub open spec fn spec_coverage_issue(score: int) -> Seq<IssueView> {
    if score < 50_000 {
        seq![
            IssueView {
                severity: IssueSeverity::Warning,
                category: "NetworkPolicy"@,
                description: "Low network policy coverage across namespaces"@,
                resource: Some("cluster"@),
                recommendation: "Implement network policies for traffic segmentation"@,
                rule_id: Some("SEC-008"@),
            },
        ]
    } else {
        Seq::empty()
    }
}

pub struct SecurityClassification {
    pub checks: Vec<CheckResult>,
    pub issues: Vec<Issue>,
}

/// Classifies the security facts: the four checks in order (RBAC, pod
/// security, network-policy coverage, service accounts), the findings in
/// the same order.
pub fn classify_security(
    roles: &Vec<ClusterRoleFacts>,
    admin_subjects: &Vec<AdminSubjectFacts>,
    pods: &Vec<PodSecFacts>,
    namespaces_with_policies: u64,
    total_namespaces: u64,
) -> (r: SecurityClassification)
    requires
        namespaces_with_policies <= total_namespaces,
        pods@.len() <= 0x8000_0000,
        forall|i: int|
            0 <= i < pods@.len() ==> (#[trigger] pods.deep_view()[i]).containers.len()
                <= 0x8000_0000,
    ensures
        r.issues.deep_view() == spec_flat_issues(
            roles.deep_view(),
            |f: ClusterRoleFactsView| spec_role_issues(f),
        ) + spec_flat_issues(
            admin_subjects.deep_view(),
            |f: AdminSubjectFactsView| spec_subject_issues(f),
        ) + spec_flat_issues(pods.deep_view(), |f: PodSecFactsView| spec_pod_sec_issues(f))
            + spec_coverage_issue(
            crate::checks::spec_score_from_counts(
                namespaces_with_policies as int,
                total_namespaces as int,
                100_000,
            ),
        ) + spec_flat_issues(pods.deep_view(), |f: PodSecFactsView| spec_sa_issues(f)),
        r.checks@.len() == 4,
        r.checks.deep_view()[0].name == "RBAC Configuration"@,
        r.checks.deep_view()[0].score == ({
            let base = crate::checks::spec_score_from_counts(
                roles.deep_view().len() as int - roles.deep_view().filter(
                    |f: ClusterRoleFactsView| f.has_wildcard_rule,
                ).len() as int,
                roles.deep_view().len() as int,
                100_000,
            );
            (if admin_subjects.deep_view().filter(
                |f: AdminSubjectFactsView| spec_subject_risky(f),
            ).len() > 0 {
                base * 7 / 10
            } else {
                base
            }) as u64
        }),
        r.checks.deep_view()[0].details == Some(
            "Risky roles: "@ + crate::text::spec_u64_chars(
                roles.deep_view().filter(
                    |f: ClusterRoleFactsView| f.has_wildcard_rule,
                ).len() as int,
            ) + ", Risky bindings: "@ + crate::text::spec_u64_chars(
                admin_subjects.deep_view().filter(
                    |f: AdminSubjectFactsView| spec_subject_risky(f),
                ).len() as int,
            ),
        ),
        r.checks.deep_view()[1] == spec_check_row(
            "Pod Security Standards"@,
            "Checks if pods follow security best practices"@,
            crate::checks::spec_score_from_counts(
                pods.deep_view().filter(|f: PodSecFactsView| spec_pod_secure(f)).len() as int,
                pods.deep_view().len() as int,
                100_000,
            ) as u64,
            "Secure pods: "@ + crate::text::spec_u64_chars(
                pods.deep_view().filter(|f: PodSecFactsView| spec_pod_secure(f)).len() as int,
            ) + "/"@ + crate::text::spec_u64_chars(pods.deep_view().len() as int)
                + ", Running as root: "@ + crate::text::spec_u64_chars(
                spec_root_count(pods.deep_view()),
            ) + ", Privileged: "@ + crate::text::spec_u64_chars(
                spec_privileged_count(pods.deep_view()),
            ),
            "Configure security contexts for better pod security"@,
            90_000,
        ),
        r.checks.deep_view()[2] == spec_check_row(
            "Network Policy Coverage"@,
            "Checks network policy implementation for traffic segmentation"@,
            crate::checks::spec_score_from_counts(
                namespaces_with_policies as int,
                total_namespaces as int,
                100_000,
            ) as u64,
            crate::text::spec_u64_chars(namespaces_with_policies as int) + "/"@
                + crate::text::spec_u64_chars(total_namespaces as int)
                + " namespaces with network policies"@,
            "Implement network policies for better traffic control"@,
            70_000,
        ),
        r.checks.deep_view()[3] == spec_check_row(
            "Service Account Usage"@,
            "Checks if pods use dedicated service accounts"@,
            crate::checks::spec_score_from_counts(
                pods.deep_view().len() as int - pods.deep_view().filter(
                    |f: PodSecFactsView| spec_uses_default_sa(f),
                ).len() as int,
                pods.deep_view().len() as int,
                100_000,
            ) as u64,
            crate::text::spec_u64_chars(
                pods.deep_view().len() as int - pods.deep_view().filter(
                    |f: PodSecFactsView| spec_uses_default_sa(f),
                ).len() as int,
            ) + "/"@ + crate::text::spec_u64_chars(pods.deep_view().len() as int)
                + " pods use custom service accounts"@,
            "Create dedicated service accounts for applications"@,
            80_000,
        ),
{
    let ghost rv = roles.deep_view();
    let ghost av = admin_subjects.deep_view();
    let ghost pv = pods.deep_view();
    let mut issues: Vec<Issue> = Vec::new();

    // cluster roles
    let mut wildcard: u64 = 0;
    let mut i: usize = 0;
    proof {
        reveal(Seq::filter);
        assert(rv.take(0int) =~= Seq::<ClusterRoleFactsView>::empty());
    }
    while i < roles.len()
        invariant
            i <= roles@.len(),
            rv == roles.deep_view(),
            rv.len() == roles@.len(),
            issues.deep_view() == spec_flat_issues(
                rv.take(i as int),
                |f: ClusterRoleFactsView| spec_role_issues(f),
            ),
            wildcard == rv.take(i as int).filter(
                |f: ClusterRoleFactsView| f.has_wildcard_rule,
            ).len(),
            wildcard <= i,
        decreases roles@.len() - i,
    {
        proof {
            reveal(Seq::filter);
            assert(rv.take(i + 1int).drop_last() == rv.take(i as int));
            assert(rv.take(i + 1int).last() == rv[i as int]);
            assert(roles@[i as int]@ == rv[i as int]);
            lemma_filter_take_step(rv, |f: ClusterRoleFactsView| f.has_wildcard_rule, i as int);
        }
        let f = &roles[i];
        if f.has_wildcard_rule {
            wildcard = wildcard + 1;
        }
        let ghost pre = issues.deep_view();
        let name_chars = to_chars(f.name.as_str());
        if f.has_wildcard_rule && !starts_with_lit(&name_chars, "system:") && !starts_with_lit(
            &name_chars,
            "cluster-admin",
        ) {
            let row = issue_row(
                IssueSeverity::Warning,
                "ClusterRole",
                cat3("ClusterRole ", f.name.as_str(), " has overly permissive rules"),
                Some(f.name.clone()),
                "Review and restrict ClusterRole permissions to minimum required",
                "SEC-001",
            );
            let ghost rvv = row@;
            issues.push(row);
            proof {
                assert(issues.deep_view() =~= pre.push(rvv));
                assert(rvv == spec_role_issues(rv[i as int])[0]);
                assert(spec_role_issues(rv[i as int]) =~= seq![rvv]);
            }
        }
        proof {
            assert(issues.deep_view() =~= spec_flat_issues(
                rv.take(i + 1int),
                |f: ClusterRoleFactsView| spec_role_issues(f),
            ));
        }
        i = i + 1;
    }
    proof {
        assert(rv.take(roles@.len() as int) == rv);
        lemma_filter_le(rv, |f: ClusterRoleFactsView| f.has_wildcard_rule);
    }

    // cluster-admin subjects
    let mut risky: u64 = 0;
    let mut k: usize = 0;
    let ghost base_a = issues.deep_view();
    proof {
        reveal(Seq::filter);
        assert(av.take(0int) =~= Seq::<AdminSubjectFactsView>::empty());
        assert(base_a + spec_flat_issues(
            av.take(0int),
            |f: AdminSubjectFactsView| spec_subject_issues(f),
        ) =~= base_a);
    }
    while k < admin_subjects.len()
        invariant
            k <= admin_subjects@.len(),
            av == admin_subjects.deep_view(),
            av.len() == admin_subjects@.len(),
            issues.deep_view() == base_a + spec_flat_issues(
                av.take(k as int),
                |f: AdminSubjectFactsView| spec_subject_issues(f),
            ),
            risky == av.take(k as int).filter(
                |f: AdminSubjectFactsView| spec_subject_risky(f),
            ).len(),
            risky <= k,
        decreases admin_subjects@.len() - k,
    {
        proof {
            reveal(Seq::filter);
            assert(av.take(k + 1int).drop_last() == av.take(k as int));
            assert(av.take(k + 1int).last() == av[k as int]);
            assert(admin_subjects@[k as int]@ == av[k as int]);
            lemma_filter_take_step(av, |f: AdminSubjectFactsView| spec_subject_risky(f), k as int);
        }
        let f = &admin_subjects[k];
        let name_chars = to_chars(f.name.as_str());
        let user_risky = string_is(&f.kind, "User") && !starts_with_lit(&name_chars, "system:");
        let sa_risky = string_is(&f.kind, "ServiceAccount") && !(match &f.namespace {
            Some(ns) => string_is(ns, "kube-system"),
            None => false,
        });
        if user_risky || sa_risky {
            risky = risky + 1;
        }
        let ghost pre = issues.deep_view();
        if user_risky {
            let row = issue_row(
                IssueSeverity::Warning,
                "ClusterRoleBinding",
                cat3("User ", f.name.as_str(), " has cluster-admin privileges"),
                Some(f.binding_name.clone()),
                "Minimize cluster-admin privileges and use more specific roles",
                "SEC-002",
            );
            let ghost rvv = row@;
            issues.push(row);
            proof {
                assert(issues.deep_view() =~= pre.push(rvv));
                assert(rvv == spec_subject_issues(av[k as int])[0]);
                assert(spec_subject_issues(av[k as int]) =~= seq![rvv]);
            }
        } else if sa_risky {
            let ns_text = match &f.namespace {
                Some(ns) => ns.clone(),
                None => "default".to_owned(),
            };
            let desc = {
                let head = cat4("ServiceAccount ", ns_text.as_str(), "/", f.name.as_str());
                crate::text::cat2(head.as_str(), " has cluster-admin privileges")
            };
            let row = issue_row(
                IssueSeverity::Critical,
                "ClusterRoleBinding",
                desc,
                Some(f.binding_name.clone()),
                "Review and restrict ServiceAccount permissions",
                "SEC-003",
            );
            let ghost rvv = row@;
            issues.push(row);
            proof {
                assert(issues.deep_view() =~= pre.push(rvv));
                assert(rvv == spec_subject_issues(av[k as int])[0]);
                assert(spec_subject_issues(av[k as int]) =~= seq![rvv]);
            }
        }
        proof {
            assert(issues.deep_view() =~= base_a + spec_flat_issues(
                av.take(k + 1int),
                |f: AdminSubjectFactsView| spec_subject_issues(f),
            ));
        }
        k = k + 1;
    }
    proof {
        assert(av.take(admin_subjects@.len() as int) == av);
        lemma_filter_le(av, |f: AdminSubjectFactsView| spec_subject_risky(f));
    }

    // pod security
    let mut secure: u64 = 0;
    let mut root_count: u64 = 0;
    let mut priv_count: u64 = 0;
    let mut j: usize = 0;
    let ghost base_p = issues.deep_view();
    proof {
        reveal(Seq::filter);
        assert(pv.take(0int) =~= Seq::<PodSecFactsView>::empty());
        assert(base_p + spec_flat_issues(
            pv.take(0int),
            |f: PodSecFactsView| spec_pod_sec_issues(f),
        ) =~= base_p);
        assert(spec_root_count(pv.take(0int)) == 0);
        assert(spec_privileged_count(pv.take(0int)) == 0);
    }
    while j < pods.len()
        invariant
            j <= pods@.len(),
            pv == pods.deep_view(),
            pv.len() == pods@.len(),
            issues.deep_view() == base_p + spec_flat_issues(
                pv.take(j as int),
                |f: PodSecFactsView| spec_pod_sec_issues(f),
            ),
            pods@.len() <= 0x8000_0000,
            forall|i: int|
                0 <= i < pods@.len() ==> (#[trigger] pods.deep_view()[i]).containers.len()
                    <= 0x8000_0000,
            secure == pv.take(j as int).filter(|f: PodSecFactsView| spec_pod_secure(f)).len(),
            root_count == spec_root_count(pv.take(j as int)),
            priv_count == spec_privileged_count(pv.take(j as int)),
            secure <= j,
            root_count <= j * 0x8000_0001,
            priv_count <= j * 0x8000_0001,
        decreases pods@.len() - j,
    {
        proof {
            reveal(Seq::filter);
            assert(pv.take(j + 1int).drop_last() == pv.take(j as int));
            assert(pv.take(j + 1int).last() == pv[j as int]);
            assert(pods@[j as int]@ == pv[j as int]);
            lemma_filter_take_step(pv, |f: PodSecFactsView| spec_pod_secure(f), j as int);
            lemma_root_priv_bounds(pv[j as int]);
        }
        let f = &pods[j];
        if pod_is_secure(f) {
            secure = secure + 1;
        }
        proof {
            assert(pv[j as int].containers.len() <= 0x8000_0000);
            assert(j * 0x8000_0001int + 0x8000_0001int == (j + 1) * 0x8000_0001int)
                by (nonlinear_arith);
            assert((j + 1) * 0x8000_0001int <= 0x8000_0000int * 0x8000_0001int)
                by (nonlinear_arith)
                requires
                    0 <= j + 1 <= 0x8000_0000int,
            ;
        }
        let counts = pod_root_priv_counts(f);
        root_count = root_count + counts.0;
        priv_count = priv_count + counts.1;
        let mut batch = pod_sec_issues(f);
        let ghost pre = issues.deep_view();
        let ghost bv = batch.deep_view();
        issues.append(&mut batch);
        proof {
            assert(issues.deep_view() =~= pre + bv);
            assert(bv == spec_pod_sec_issues(pv[j as int]));
            assert(issues.deep_view() =~= base_p + spec_flat_issues(
                pv.take(j + 1int),
                |f: PodSecFactsView| spec_pod_sec_issues(f),
            ));
        }
        j = j + 1;
    }
    proof {
        assert(pv.take(pods@.len() as int) == pv);
        lemma_filter_le(pv, |f: PodSecFactsView| spec_pod_secure(f));
    }

    // coverage finding
    let coverage_score = score_from_counts(namespaces_with_policies, total_namespaces, 100_000);
    let ghost base_c = issues.deep_view();
    if coverage_score < 50_000 {
        issues.push(
            Issue {
                severity: IssueSeverity::Warning,
                category: "NetworkPolicy".to_owned(),
                description: "Low network policy coverage across namespaces".to_owned(),
                resource: Some("cluster".to_owned()),
                recommendation: "Implement network policies for traffic segmentation".to_owned(),
                rule_id: Some("SEC-008".to_owned()),
            },
        );
    }
    proof {
        assert(issues.deep_view() =~= base_c + spec_coverage_issue(
            crate::checks::spec_score_from_counts(
                namespaces_with_policies as int,
                total_namespaces as int,
                100_000,
            ),
        ));
    }

    // default service accounts
    let mut default_sa: u64 = 0;
    let mut m: usize = 0;
    let ghost base_s = issues.deep_view();
    proof {
        reveal(Seq::filter);
        assert(pv.take(0int) =~= Seq::<PodSecFactsView>::empty());
        assert(base_s + spec_flat_issues(pv.take(0int), |f: PodSecFactsView| spec_sa_issues(f))
            =~= base_s);
    }
    while m < pods.len()
        invariant
            m <= pods@.len(),
            pv == pods.deep_view(),
            pv.len() == pods@.len(),
            issues.deep_view() == base_s + spec_flat_issues(
                pv.take(m as int),
                |f: PodSecFactsView| spec_sa_issues(f),
            ),
            default_sa == pv.take(m as int).filter(
                |f: PodSecFactsView| spec_uses_default_sa(f),
            ).len(),
            default_sa <= m,
        decreases pods@.len() - m,
    {
        proof {
            reveal(Seq::filter);
            assert(pv.take(m + 1int).drop_last() == pv.take(m as int));
            assert(pv.take(m + 1int).last() == pv[m as int]);
            assert(pods@[m as int]@ == pv[m as int]);
            lemma_filter_take_step(pv, |f: PodSecFactsView| spec_uses_default_sa(f), m as int);
        }
        let f = &pods[m];
        let ghost pre = issues.deep_view();
        if string_is(&f.service_account, "default") {
            default_sa = default_sa + 1;
            let key = cat3(f.namespace.as_str(), "/", f.name.as_str());
            let row = issue_row(
                IssueSeverity::Warning,
                "ServiceAccount",
                cat3("Pod ", key.as_str(), " uses default service account"),
                Some(key.clone()),
                "Create and use dedicated service accounts with minimal permissions",
                "SEC-009",
            );
            let ghost rvv = row@;
            issues.push(row);
            proof {
                assert(issues.deep_view() =~= pre.push(rvv));
                assert(rvv == spec_sa_issues(pv[m as int])[0]);
                assert(spec_sa_issues(pv[m as int]) =~= seq![rvv]);
            }
        }
        proof {
            assert(issues.deep_view() =~= base_s + spec_flat_issues(
                pv.take(m + 1int),
                |f: PodSecFactsView| spec_sa_issues(f),
            ));
        }
        m = m + 1;
    }
    proof {
        assert(pv.take(pods@.len() as int) == pv);
        lemma_filter_le(pv, |f: PodSecFactsView| spec_uses_default_sa(f));
    }

    // checks
    let total_roles = roles.len() as u64;
    let rbac_base = score_from_counts(total_roles - wildcard, total_roles, 100_000);
    let rbac_score: u64 = if risky > 0 {
        rbac_base * 7 / 10
    } else {
        rbac_base
    };
    let wr = u64_string(wildcard);
    let rb = u64_string(risky);
    let c0 = check_row(
        "RBAC Configuration",
        "Checks for secure RBAC configuration",
        rbac_score,
        cat4("Risky roles: ", wr.as_str(), ", Risky bindings: ", rb.as_str()),
        "Review and minimize RBAC permissions",
        90_000,
    );

    let total_pods = pods.len() as u64;
    let pod_sec_score = score_from_counts(secure, total_pods, 100_000);
    let details1 = {
        let s1 = u64_string(secure);
        let t1 = u64_string(total_pods);
        let r1 = u64_string(root_count);
        let p1 = u64_string(priv_count);
        crate::text::cat8(
            "Secure pods: ",
            s1.as_str(),
            "/",
            t1.as_str(),
            ", Running as root: ",
            r1.as_str(),
            ", Privileged: ",
            p1.as_str(),
        )
    };
    let c1 = check_row(
        "Pod Security Standards",
        "Checks if pods follow security best practices",
        pod_sec_score,
        details1,
        "Configure security contexts for better pod security",
        90_000,
    );

    let np = u64_string(namespaces_with_policies);
    let tn = u64_string(total_namespaces);
    let c2 = check_row(
        "Network Policy Coverage",
        "Checks network policy implementation for traffic segmentation",
        coverage_score,
        cat4(np.as_str(), "/", tn.as_str(), " namespaces with network policies"),
        "Implement network policies for better traffic control",
        70_000,
    );

    let custom_sa = total_pods - default_sa;
    let sa_score = score_from_counts(custom_sa, total_pods, 100_000);
    let cs = u64_string(custom_sa);
    let tp = u64_string(total_pods);
    let c3 = check_row(
        "Service Account Usage",
        "Checks if pods use dedicated service accounts",
        sa_score,
        cat4(cs.as_str(), "/", tp.as_str(), " pods use custom service accounts"),
        "Create dedicated service accounts for applications",
        80_000,
    );

    let mut checks: Vec<CheckResult> = Vec::new();
    checks.push(c0);
    checks.push(c1);
    checks.push(c2);
    checks.push(c3);
    SecurityClassification { checks, issues }
}

/// How many root hits and privileged containers one pod contributes to
/// the detail counters: the pod-level root user counts one, and each
/// container-level root or privileged flag counts one.
pub open spec fn spec_pod_root_hits(f: PodSecFactsView) -> int {
    (if f.has_pod_security_context && f.pod_runs_as_root {
        1int
    } else {
        0int
    }) + spec_container_root_hits(f.containers)
}

pub open spec fn spec_container_root_hits(cs: Seq<ContainerSecFactsView>) -> int
    decreases cs.len(),
{
    if cs.len() == 0 {
        0
    } else {
        spec_container_root_hits(cs.drop_last()) + if cs.last().has_security_context
            && cs.last().runs_as_root {
            1int
        } else {
            0int
        }
    }
}

pub open spec fn spec_pod_priv_hits(f: PodSecFactsView) -> int {
    spec_container_priv_hits(f.containers)
}

pub open spec fn spec_container_priv_hits(cs: Seq<ContainerSecFactsView>) -> int
    decreases cs.len(),
{
    if cs.len() == 0 {
        0
    } else {
        spec_container_priv_hits(cs.drop_last()) + if cs.last().has_security_context
            && cs.last().privileged {
            1int
        } else {
            0int
        }
    }
}

pub open spec fn spec_root_count(fs: Seq<PodSecFactsView>) -> int
    decreases fs.len(),
{
    if fs.len() == 0 {
        0
    } else {
        spec_root_count(fs.drop_last()) + spec_pod_root_hits(fs.last())
    }
}

pub open spec fn spec_privileged_count(fs: Seq<PodSecFactsView>) -> int
    decreases fs.len(),
{
    if fs.len() == 0 {
        0
    } else {
        spec_privileged_count(fs.drop_last()) + spec_pod_priv_hits(fs.last())
    }
}

proof fn lemma_root_priv_bounds(f: PodSecFactsView)
    ensures
        0 <= spec_pod_root_hits(f) <= f.containers.len() + 1,
        0 <= spec_pod_priv_hits(f) <= f.containers.len(),
{
    lemma_container_hit_bounds(f.containers);
}

proof fn lemma_container_hit_bounds(cs: Seq<ContainerSecFactsView>)
    ensures
        0 <= spec_container_root_hits(cs) <= cs.len(),
        0 <= spec_container_priv_hits(cs) <= cs.len(),
    decreases cs.len(),
{
    if cs.len() > 0 {
        lemma_container_hit_bounds(cs.drop_last());
    }
}

/// One pod's root and privileged contribution.
fn pod_root_priv_counts(f: &PodSecFacts) -> (r: (u64, u64))
    requires
        f@.containers.len() <= 0x8000_0000,
    ensures
        r.0 == spec_pod_root_hits(f@),
        r.1 == spec_pod_priv_hits(f@),
        r.0 <= 0x8000_0001,
        r.1 <= 0x8000_0001,
{
    let ghost csv = f@.containers;
    let mut root: u64 = if f.has_pod_security_context && f.pod_runs_as_root {
        1
    } else {
        0
    };
    let mut privileged: u64 = 0;
    let mut j: usize = 0;
    proof {
        assert(csv.take(0int) =~= Seq::<ContainerSecFactsView>::empty());
        lemma_container_hit_bounds(csv);
    }
    while j < f.containers.len()
        invariant
            j <= f.containers@.len(),
            f.containers@.len() <= 0x1000_0000_0000_0000,
            csv == f@.containers,
            csv.len() == f.containers@.len(),
            root == (if f@.has_pod_security_context && f@.pod_runs_as_root {
                1int
            } else {
                0int
            }) + spec_container_root_hits(csv.take(j as int)),
            privileged == spec_container_priv_hits(csv.take(j as int)),
            root <= 1 + j,
            privileged <= j,
        decreases f.containers@.len() - j,
    {
        proof {
            assert(csv.take(j + 1int).drop_last() == csv.take(j as int));
            assert(csv.take(j + 1int).last() == csv[j as int]);
            assert(f.containers@[j as int]@ == csv[j as int]);
            lemma_container_hit_bounds(csv.take(j as int));
        }
        let c = &f.containers[j];
        if c.has_security_context && c.runs_as_root {
            root = root + 1;
        }
        if c.has_security_context && c.privileged {
            privileged = privileged + 1;
        }
        j = j + 1;
    }
    proof {
        assert(csv.take(f.containers@.len() as int) == csv);
    }
    (root, privileged)
}

/// Whether the pod meets the security bar.
fn pod_is_secure(f: &PodSecFacts) -> (r: bool)
    ensures
        r == spec_pod_secure(f@),
{
    if !f.has_pod_security_context || f.pod_runs_as_root {
        return false;
    }
    let mut j: usize = 0;
    while j < f.containers.len()
        invariant
            j <= f.containers@.len(),
            forall|t: int|
                0 <= t < j ==> {
                    let c = #[trigger] f.containers.deep_view()[t];
                    !c.has_security_context || (!c.privileged && !c.runs_as_root
                        && !c.allows_escalation)
                },
        decreases f.containers@.len() - j,
    {
        proof {
            assert(f.containers.deep_view()[j as int] == f.containers@[j as int]@);
        }
        let c = &f.containers[j];
        if c.has_security_context && (c.privileged || c.runs_as_root || c.allows_escalation) {
            proof {
                let cc = f@.containers[j as int];
                assert(cc.has_security_context && (cc.privileged || cc.runs_as_root
                    || cc.allows_escalation));
                assert(!spec_pod_secure(f@));
            }
            return false;
        }
        j = j + 1;
    }
    true
}

/// One pod's security findings.
fn pod_sec_issues(f: &PodSecFacts) -> (r: Vec<Issue>)
    ensures
        r.deep_view() == spec_pod_sec_issues(f@),
{
    let mut r: Vec<Issue> = Vec::new();
    let key = cat3(f.namespace.as_str(), "/", f.name.as_str());
    if f.has_pod_security_context && f.pod_runs_as_root {
        r.push(
            issue_row(
                IssueSeverity::Warning,
                "Security",
                cat3("Pod ", key.as_str(), " runs as root user"),
                Some(key.clone()),
                "Configure runAsUser to use non-root user",
                "SEC-004",
            ),
        );
    }
    let ghost head = r.deep_view();
    let ghost csv = f@.containers;
    let ghost g = |c: ContainerSecFactsView| spec_container_sec_issues(f@, c);
    let mut j: usize = 0;
    proof {
        assert(csv.take(0int) =~= Seq::<ContainerSecFactsView>::empty());
        assert(head + spec_flat_issues(csv.take(0int), g) =~= head);
    }
    while j < f.containers.len()
        invariant
            j <= f.containers@.len(),
            csv == f@.containers,
            csv.len() == f.containers@.len(),
            key@ == f@.namespace + "/"@ + f@.name,
            g == (|c: ContainerSecFactsView| spec_container_sec_issues(f@, c)),
            r.deep_view() == head + spec_flat_issues(csv.take(j as int), g),
        decreases f.containers@.len() - j,
    {
        proof {
            assert(csv.take(j + 1int).drop_last() == csv.take(j as int));
            assert(csv.take(j + 1int).last() == csv[j as int]);
            assert(f.containers@[j as int]@ == csv[j as int]);
        }
        let c = &f.containers[j];
        let ghost pre = r.deep_view();
        if c.has_security_context {
            if c.privileged {
                let desc = {
                    let h = cat4("Container ", c.name.as_str(), " in pod ", key.as_str());
                    crate::text::cat2(h.as_str(), " runs in privileged mode")
                };
                r.push(
                    issue_row(
                        IssueSeverity::Warning,
                        "Security",
                        desc,
                        Some(key.clone()),
                        "Remove privileged flag unless absolutely necessary",
                        "SEC-005",
                    ),
                );
            }
            if c.runs_as_root {
                let desc = {
                    let h = cat4("Container ", c.name.as_str(), " in pod ", key.as_str());
                    crate::text::cat2(h.as_str(), " runs as root")
                };
                r.push(
                    issue_row(
                        IssueSeverity::Warning,
                        "Security",
                        desc,
                        Some(key.clone()),
                        "Configure container to run as non-root user",
                        "SEC-006",
                    ),
                );
            }
            if c.allows_escalation {
                let desc = {
                    let h = cat4("Container ", c.name.as_str(), " in pod ", key.as_str());
                    crate::text::cat2(h.as_str(), " allows privilege escalation")
                };
                r.push(
                    issue_row(
                        IssueSeverity::Warning,
                        "Security",
                        desc,
                        Some(key.clone()),
                        "Disable allowPrivilegeEscalation",
                        "SEC-007",
                    ),
                );
            }
        }
        proof {
            assert(r.deep_view() =~= pre + g(csv[j as int]));
            assert(r.deep_view() =~= head + spec_flat_issues(csv.take(j + 1int), g));
        }
        j = j + 1;
    }
    proof {
        assert(csv.take(f.containers@.len() as int) == csv);
        assert(r.deep_view() =~= spec_pod_sec_issues(f@));
    }
    r
}

} // verus!
