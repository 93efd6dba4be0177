//! Network unit: service configuration, network-policy coverage and the
//! DNS deployment.

use vstd::prelude::*;

use crate::checks::score_from_counts;
use crate::inspections::support::{
    check_row, issue_row, lemma_filter_le, lemma_filter_take_step, spec_check_row,
    spec_flat_issues, spec_issue,
};
use crate::text::{cat3, cat4, cat5, cat8, string_is, u64_chars, u64_string};
use crate::types::{CheckResult, Issue, IssueSeverity, IssueView};

verus! {

/// What the rules read of one service.
#[derive(Debug)]
pub struct ServiceFacts {
    pub namespace: String,
    pub name: String,
    pub service_type: String,
    pub headless: bool,
    pub has_lb_status: bool,
    pub lb_ingress_empty: bool,
    /// Declared node ports, for the recommended-range rule.
    pub node_ports: Vec<i32>,
    pub has_selector: bool,
}

pub struct ServiceFactsView {
    pub namespace: Seq<char>,
    pub name: Seq<char>,
    pub service_type: Seq<char>,
    pub headless: bool,
    pub has_lb_status: bool,
    pub lb_ingress_empty: bool,
    pub node_ports: Seq<i32>,
    pub has_selector: bool,
}

impl View for ServiceFacts {
    type V = ServiceFactsView;

    open spec fn view(&self) -> ServiceFactsView {
        ServiceFactsView {
            namespace: self.namespace@,
            name: self.name@,
            service_type: self.service_type@,
            headless: self.headless,
            has_lb_status: self.has_lb_status,
            lb_ingress_empty: self.lb_ingress_empty,
            node_ports: self.node_ports@,
            has_selector: self.has_selector,
        }
    }
}

impl DeepView for ServiceFacts {
    type V = ServiceFactsView;

    open spec fn deep_view(&self) -> ServiceFactsView {
        self.view()
    }
}

/// What the rules read of the DNS deployment lookup.
#[derive(Debug)]
pub struct DnsFacts {
    pub found: bool,
    pub name: String,
    pub ready_replicas: i32,
    pub desired_replicas: i32,
}

/// Whether the DNS deployment is present and fully ready.
pub open spec fn spec_dns_ok(found: bool, ready: i32, desired: i32) -> bool {
    found && ready >= desired
}

pub open spec fn spec_node_port_issues(f: ServiceFactsView, port: i32) -> Seq<IssueView> {
    if port < 30000 || port > 32767 {
        seq![
            spec_issue(
                IssueSeverity::Info,
                "Service"@,
                "Service "@ + f.namespace + "/"@ + f.name + " uses NodePort "@
                    + crate::text::spec_u64_chars(port as int)
                    + " outside recommended range"@,
                Some(f.namespace + "/"@ + f.name),
                "Use NodePort in range 30000-32767"@,
                "NET-002"@,
            ),
        ]
    } else {
        Seq::empty()
    }
}

/// The findings one service yields: the LoadBalancer or NodePort rule,
/// then the selector rule.
pub open spec fn spec_service_issues(f: ServiceFactsView) -> Seq<IssueView> {
    let key = f.namespace + "/"@ + f.name;
    let type_part: Seq<IssueView> = if f.service_type == "LoadBalancer"@ {
        if f.has_lb_status && f.lb_ingress_empty {
            seq![
                spec_issue(
                    IssueSeverity::Warning,
                    "Service"@,
                    "LoadBalancer service "@ + key + " has no external IP assigned"@,
                    Some(key),
                    "Check LoadBalancer configuration and cloud provider settings"@,
                    "NET-001"@,
                ),
            ]
        } else {
            Seq::empty()
        }
    } else if f.service_type == "NodePort"@ {
        spec_flat_issues(f.node_ports, |p: i32| spec_node_port_issues(f, p))
    } else {
        Seq::empty()
    };
    let selector_part: Seq<IssueView> = if !f.has_selector && !f.headless && !(f.namespace
        == "default"@ && f.name == "kubernetes"@) {
        seq![
            spec_issue(
                IssueSeverity::Warning,
                "Service"@,
                "Service "@ + key + " has no selector and may not have endpoints"@,
                Some(key),
                "Ensure service has proper selectors or manual endpoints"@,
                "NET-003"@,
            ),
        ]
    } else {
        Seq::empty()
    };
    type_part + selector_part
}

/// The DNS findings: a not-fully-ready deployment or a missing one.
pub open spec fn spec_dns_issues(
    found: bool,
    name: Seq<char>,
    ready: i32,
    desired: i32,
) -> Seq<IssueView> {
    if found && ready < desired {
        seq![
            spec_issue(
                IssueSeverity::Critical,
                "Deployment"@,
                "DNS deployment "@ + name + " has "@ + crate::text::spec_u64_chars(ready as int)
                    + "/"@ + crate::text::spec_u64_chars(desired as int) + " replicas ready"@,
                Some("kube-system/"@ + name),
                "Check DNS deployment logs and resource availability"@,
                "NET-004"@,
            ),
        ]
    } else if !found {
        seq![
            spec_issue(
                IssueSeverity::Critical,
                "Namespace"@,
                "No DNS service deployment found"@,
                Some("kube-system"@),
                "Deploy CoreDNS or kube-dns for cluster DNS resolution"@,
                "NET-005"@,
            ),
        ]
    } else {
        Seq::empty()
    }
}

pub struct NetworkClassification {
    pub checks: Vec<CheckResult>,
    pub issues: Vec<Issue>,
}

/// Classifies the network facts: service configuration, network-policy
/// coverage over the namespaces, and the DNS deployment.
pub fn classify_network(
    services: &Vec<ServiceFacts>,
    namespaces_with_policies: u64,
    total_namespaces: u64,
    dns: &DnsFacts,
) -> (r: NetworkClassification)
    requires
        namespaces_with_policies <= total_namespaces,
        dns.ready_replicas >= 0,
        dns.desired_replicas >= 0,
    ensures
        r.issues.deep_view() == spec_flat_issues(
            services.deep_view(),
            |f: ServiceFactsView| spec_service_issues(f),
        ) + spec_dns_issues(dns.found, dns.name@, dns.ready_replicas, dns.desired_replicas),
        r.checks@.len() == 3,
        r.checks.deep_view()[0] == spec_check_row(
            "Service Configuration"@,
            "Checks if services are properly configured with selectors"@,
            crate::checks::spec_score_from_counts(
                services.deep_view().filter(|f: ServiceFactsView| f.has_selector).len() as int,
                services.deep_view().len() as int,
                100_000,
            ) as u64,
            crate::text::spec_u64_chars(
                services.deep_view().filter(|f: ServiceFactsView| f.has_selector).len() as int,
            ) + "/"@ + crate::text::spec_u64_chars(services.deep_view().len() as int)
                + " services with proper configuration"@,
            "Review service configurations and selectors"@,
            90_000,
        ),
        r.checks.deep_view()[1] == spec_check_row(
            "Network Policy Coverage"@,
            "Checks if namespaces have network policies for security"@,
            crate::checks::spec_score_from_counts(
                namespaces_with_policies as int,
                total_namespaces as int,
                0,
            ) as u64,
            crate::text::spec_u64_chars(namespaces_with_policies as int) + "/"@
                + crate::text::spec_u64_chars(total_namespaces as int)
                + " namespaces with network policies"@,
            "Implement network policies for better security isolation"@,
            70_000,
        ),
        r.checks.deep_view()[2] == (if spec_dns_ok(
            dns.found,
            dns.ready_replicas,
            dns.desired_replicas,
        ) {
            spec_check_row(
                "DNS Configuration"@,
                "Checks DNS service availability"@,
                100_000,
                "DNS service is available"@,
                "Check CoreDNS or kube-dns deployment"@,
                0,
            )
        } else {
            spec_check_row(
                "DNS Configuration"@,
                "Checks DNS service availability"@,
                0,
                "DNS service issues detected"@,
                "Check CoreDNS or kube-dns deployment"@,
                100_000,
            )
        }),
{
    let ghost sv = services.deep_view();
    let mut issues: Vec<Issue> = Vec::new();
    let mut with_selector: u64 = 0;
    let mut i: usize = 0;
    proof {
        reveal(Seq::filter);
        assert(sv.take(0int) =~= Seq::<ServiceFactsView>::empty());
    }
    while i < services.len()
        invariant
            i <= services@.len(),
            sv == services.deep_view(),
            sv.len() == services@.len(),
            issues.deep_view() == spec_flat_issues(
                sv.take(i as int),
                |f: ServiceFactsView| spec_service_issues(f),
            ),
            with_selector == sv.take(i as int).filter(
                |f: ServiceFactsView| f.has_selector,
            ).len(),
            with_selector <= i,
        decreases services@.len() - i,
    {
        proof {
            reveal(Seq::filter);
            assert(sv.take(i + 1int).drop_last() == sv.take(i as int));
            assert(sv.take(i + 1int).last() == sv[i as int]);
            assert(services@[i as int]@ == sv[i as int]);
            lemma_filter_take_step(sv, |f: ServiceFactsView| f.has_selector, i as int);
        }
        let f = &services[i];
        if f.has_selector {
            with_selector = with_selector + 1;
        }
        let mut batch = service_issues(f);
        let ghost pre = issues.deep_view();
        let ghost bv = batch.deep_view();
        issues.append(&mut batch);
        proof {
            assert(issues.deep_view() =~= pre + bv);
            assert(bv == spec_service_issues(sv[i as int]));
            assert(issues.deep_view() =~= spec_flat_issues(
                sv.take(i + 1int),
                |f: ServiceFactsView| spec_service_issues(f),
            ));
        }
        i = i + 1;
    }
    proof {
        assert(sv.take(services@.len() as int) == sv);
        lemma_filter_le(sv, |f: ServiceFactsView| f.has_selector);
    }

    // DNS findings
    let ghost base = issues.deep_view();
    let dns_ok = dns.found && dns.ready_replicas >= dns.desired_replicas;
    if dns.found && dns.ready_replicas < dns.desired_replicas {
        let rr = u64_string(dns.ready_replicas as u64);
        let dd = u64_string(dns.desired_replicas as u64);
        let desc = {
            let head = cat4("DNS deployment ", dns.name.as_str(), " has ", rr.as_str());
            cat4(head.as_str(), "/", dd.as_str(), " replicas ready")
        };
        proof {
            assert(desc@ =~= "DNS deployment "@ + dns.name@ + " has "@
                + crate::text::spec_u64_chars(dns.ready_replicas as int) + "/"@
                + crate::text::spec_u64_chars(dns.desired_replicas as int)
                + " replicas ready"@);
        }
        issues.push(
            issue_row(
                IssueSeverity::Critical,
                "Deployment",
                desc,
                Some(cat2_dns("kube-system/", dns.name.as_str())),
                "Check DNS deployment logs and resource availability",
                "NET-004",
            ),
        );
    } else if !dns.found {
        issues.push(
            issue_row(
                IssueSeverity::Critical,
                "Namespace",
                "No DNS service deployment found".to_owned(),
                Some("kube-system".to_owned()),
                "Deploy CoreDNS or kube-dns for cluster DNS resolution",
                "NET-005",
            ),
        );
    }
    proof {
        assert(issues.deep_view() =~= base + spec_dns_issues(
            dns.found,
            dns.name@,
            dns.ready_replicas,
            dns.desired_replicas,
        ));
    }

    let total = services.len() as u64;
    let service_score = score_from_counts(with_selector, total, 100_000);
    let ws = u64_string(with_selector);
    let tt = u64_string(total);
    let c0 = check_row(
        "Service Configuration",
        "Checks if services are properly configured with selectors",
        service_score,
        cat4(ws.as_str(), "/", tt.as_str(), " services with proper configuration"),
        "Review service configurations and selectors",
        90_000,
    );

    let coverage_score = score_from_counts(namespaces_with_policies, total_namespaces, 0);
    let np = u64_string(namespaces_with_policies);
    let tn = u64_string(total_namespaces);
    let c1 = check_row(
        "Network Policy Coverage",
        "Checks if namespaces have network policies for security",
        coverage_score,
        cat4(np.as_str(), "/", tn.as_str(), " namespaces with network policies"),
        "Implement network policies for better security isolation",
        70_000,
    );

    let c2 = if dns_ok {
        check_row(
            "DNS Configuration",
            "Checks DNS service availability",
            100_000,
            "DNS service is available".to_owned(),
            "Check CoreDNS or kube-dns deployment",
            0,
        )
    } else {
        check_row(
            "DNS Configuration",
            "Checks DNS service availability",
            0,
            "DNS service issues detected".to_owned(),
            "Check CoreDNS or kube-dns deployment",
            100_000,
        )
    };

    let mut checks: Vec<CheckResult> = Vec::new();
    checks.push(c0);
    checks.push(c1);
    checks.push(c2);
    NetworkClassification { checks, issues }
}

fn cat2_dns(a: &str, b: &str) -> (out: String)
    ensures
        out@ == a@ + b@,
{
    crate::text::cat2(a, b)
}

/// One service's findings.
fn service_issues(f: &ServiceFacts) -> (r: Vec<Issue>)
    ensures
        r.deep_view() == spec_service_issues(f@),
{
    let mut r: Vec<Issue> = Vec::new();
    let key = cat3(f.namespace.as_str(), "/", f.name.as_str());
    let ghost part_type: Seq<IssueView> = if f@.service_type == "LoadBalancer"@ {
        if f@.has_lb_status && f@.lb_ingress_empty {
            seq![
                spec_issue(
                    IssueSeverity::Warning,
                    "Service"@,
                    "LoadBalancer service "@ + (f@.namespace + "/"@ + f@.name)
                        + " has no external IP assigned"@,
                    Some(f@.namespace + "/"@ + f@.name),
                    "Check LoadBalancer configuration and cloud provider settings"@,
                    "NET-001"@,
                ),
            ]
        } else {
            Seq::empty()
        }
    } else if f@.service_type == "NodePort"@ {
        spec_flat_issues(f@.node_ports, |p: i32| spec_node_port_issues(f@, p))
    } else {
        Seq::empty()
    };
    if string_is(&f.service_type, "LoadBalancer") {
        if f.has_lb_status && f.lb_ingress_empty {
            r.push(
                issue_row(
                    IssueSeverity::Warning,
                    "Service",
                    cat3("LoadBalancer service ", key.as_str(), " has no external IP assigned"),
                    Some(key.clone()),
                    "Check LoadBalancer configuration and cloud provider settings",
                    "NET-001",
                ),
            );
        }
    } else if string_is(&f.service_type, "NodePort") {
        let ghost pv = f@.node_ports;
        let ghost g = |p: i32| spec_node_port_issues(f@, p);
        let mut j: usize = 0;
        proof {
            assert(pv.take(0int) =~= Seq::<i32>::empty());
        }
        while j < f.node_ports.len()
            invariant
                j <= f.node_ports@.len(),
                pv == f@.node_ports,
                pv.len() == f.node_ports@.len(),
                g == (|p: i32| spec_node_port_issues(f@, p)),
                key@ == f@.namespace + "/"@ + f@.name,
                r.deep_view() == spec_flat_issues(pv.take(j as int), g),
            decreases f.node_ports@.len() - j,
        {
            proof {
                assert(pv.take(j + 1int).drop_last() == pv.take(j as int));
                assert(pv.take(j + 1int).last() == pv[j as int]);
                assert(f.node_ports@[j as int] == pv[j as int]);
            }
            let port = f.node_ports[j];
            let ghost pre = r.deep_view();
            if port < 30000 || port > 32767 {
                let digits: String = if port >= 0 {
                    u64_string(port as u64)
                } else {
                    // a negative declared port renders no digits
                    String::new()
                };
                let desc = {
                    let head = cat5(
                        "Service ",
                        f.namespace.as_str(),
                        "/",
                        f.name.as_str(),
                        " uses NodePort ",
                    );
                    cat3(head.as_str(), digits.as_str(), " outside recommended range")
                };
                proof {
                    assert(desc@ =~= "Service "@ + f@.namespace + "/"@ + f@.name
                        + " uses NodePort "@ + crate::text::spec_u64_chars(port as int)
                        + " outside recommended range"@);
                }
                let row = issue_row(
                    IssueSeverity::Info,
                    "Service",
                    desc,
                    Some(key.clone()),
                    "Use NodePort in range 30000-32767",
                    "NET-002",
                );
                let ghost rv = row@;
                r.push(row);
                proof {
                    assert(r.deep_view() =~= pre.push(rv));
                    assert(rv == g(pv[j as int])[0]);
                    assert(g(pv[j as int]) =~= seq![rv]);
                    assert(r.deep_view() =~= spec_flat_issues(pv.take(j + 1int), g));
                }
            } else {
                proof {
                    assert(g(pv[j as int]) =~= Seq::<IssueView>::empty());
                    assert(r.deep_view() =~= spec_flat_issues(pv.take(j + 1int), g));
                }
            }
            j = j + 1;
        }
        proof {
            assert(pv.take(f.node_ports@.len() as int) == pv);
        }
    }
    proof {
        assert(r.deep_view() =~= part_type);
    }
    if !f.has_selector && !f.headless && !(string_is(&f.namespace, "default") && string_is(
        &f.name,
        "kubernetes",
    )) {
        r.push(
            issue_row(
                IssueSeverity::Warning,
                "Service",
                cat3("Service ", key.as_str(), " has no selector and may not have endpoints"),
                Some(key.clone()),
                "Ensure service has proper selectors or manual endpoints",
                "NET-003",
            ),
        );
    }
    proof {
        assert(r.deep_view() =~= spec_service_issues(f@));
    }
    r
}

} // verus!
