//! Observability unit: metrics pipeline, cluster DNS, logging and
//! monitoring stacks, recognized by well-known component names among
//! ready pods.

use vstd::prelude::*;

use crate::inspections::support::{
    check_row, check_row_with, lemma_filter_le, lemma_filter_take_step, spec_check_row,
};
use crate::text::{cat3, cat4, cat6, contains_lit, spec_contains_sub, to_chars, u64_string};
use crate::types::{CheckResult, CheckResultView, Issue, IssueSeverity, IssueView};

verus! {

/// One pod, reduced to its name and readiness.
#[derive(Debug)]
pub struct PodNameReady {
    pub name: String,
    pub ready: bool,
}

pub struct PodNameReadyView {
    pub name: Seq<char>,
    pub ready: bool,
}

impl View for PodNameReady {
    type V = PodNameReadyView;

    open spec fn view(&self) -> PodNameReadyView {
        PodNameReadyView { name: self.name@, ready: self.ready }
    }
}

impl DeepView for PodNameReady {
    type V = PodNameReadyView;

    open spec fn deep_view(&self) -> PodNameReadyView {
        self.view()
    }
}

pub open spec fn spec_is_metrics_server(name: Seq<char>) -> bool {
    spec_contains_sub(name, "metrics-server"@) || spec_contains_sub(name, "metricsserver"@)
}

pub open spec fn spec_is_ksm(name: Seq<char>) -> bool {
    spec_contains_sub(name, "kube-state-metrics"@) || spec_contains_sub(
        name,
        "kube_state_metrics"@,
    )
}

pub open spec fn spec_is_coredns(name: Seq<char>) -> bool {
    spec_contains_sub(name, "coredns"@) || spec_contains_sub(name, "kube-dns"@)
}

pub open spec fn spec_is_prometheus(name: Seq<char>) -> bool {
    spec_contains_sub(name, "prometheus"@) || spec_contains_sub(name, "thanos"@)
        || spec_contains_sub(name, "victoriametrics"@)
}

pub open spec fn spec_is_logging(name: Seq<char>) -> bool {
    spec_contains_sub(name, "fluent"@) || spec_contains_sub(name, "logstash"@)
        || spec_contains_sub(name, "loki"@) || spec_contains_sub(name, "vector"@)
}

/// Whether some ready pod matches a recognizer.
pub open spec fn spec_any_ready(
    pods: Seq<PodNameReadyView>,
    p: spec_fn(Seq<char>) -> bool,
) -> bool {
    exists|i: int| 0 <= i < pods.len() && p((#[trigger] pods[i]).name) && pods[i].ready
}

pub struct ObservabilityClassification {
    pub checks: Vec<CheckResult>,
    pub issues: Vec<Issue>,
}

/// Classifies the observability stacks from ready-pod name lists: the
/// metrics pipeline, cluster DNS ratio, logging and monitoring presence.
pub fn classify_observability(
    kube_system: &Vec<PodNameReady>,
    ksm_extra: &Vec<PodNameReady>,
    logging_pods: &Vec<PodNameReady>,
    logging_namespace: &str,
    alerting_pods: &Vec<PodNameReady>,
) -> (r: ObservabilityClassification)
    ensures
        ({
            let ms = spec_any_ready(
                kube_system.deep_view(),
                |n: Seq<char>| spec_is_metrics_server(n),
            );
            let ksm = spec_any_ready(kube_system.deep_view(), |n: Seq<char>| spec_is_ksm(n))
                || spec_any_ready(ksm_extra.deep_view(), |n: Seq<char>| spec_is_ksm(n));
            let dns_total = kube_system.deep_view().filter(
                |f: PodNameReadyView| spec_is_coredns(f.name),
            ).len() as int;
            let dns_ready = kube_system.deep_view().filter(
                |f: PodNameReadyView| spec_is_coredns(f.name) && f.ready,
            ).len() as int;
            let logging = spec_any_ready(
                logging_pods.deep_view(),
                |n: Seq<char>| spec_is_logging(n),
            );
            let prometheus = spec_any_ready(
                alerting_pods.deep_view(),
                |n: Seq<char>| spec_is_prometheus(n),
            );
            &&& r.checks@.len() == 4
            &&& r.checks.deep_view()[0].name == "Metrics Pipeline"@
            &&& r.checks.deep_view()[0].score == (100_000int - (if ms {
                0int
            } else {
                30_000int
            }) - (if ksm {
                0int
            } else {
                20_000int
            })) as u64
            &&& r.checks.deep_view()[0].details == Some(
                "metrics-server: "@ + (if ms {
                    "present"@
                } else {
                    "missing"@
                }) + ", kube-state-metrics: "@ + (if ksm {
                    "present"@
                } else {
                    "missing"@
                }),
            )
            &&& r.checks.deep_view()[1] == (if dns_total == 0 {
                spec_check_row(
                    "Cluster DNS (CoreDNS)"@,
                    "Checks CoreDNS/kube-dns availability in kube-system"@,
                    0,
                    "CoreDNS: not found"@,
                    ""@,
                    0,
                )
            } else {
                spec_check_row(
                    "Cluster DNS (CoreDNS)"@,
                    "Checks CoreDNS/kube-dns availability in kube-system"@,
                    (if dns_ready < dns_total {
                        dns_ready * 100_000 / dns_total
                    } else {
                        100_000int
                    }) as u64,
                    "CoreDNS: "@ + crate::text::spec_u64_chars(dns_ready) + "/"@
                        + crate::text::spec_u64_chars(dns_total) + " ready"@,
                    ""@,
                    0,
                )
            })
            &&& r.checks.deep_view()[2] == (if logging {
                spec_check_row(
                    "Logging Stack"@,
                    "Checks whether logging collectors are running"@,
                    100_000,
                    "Logging components detected in namespace "@ + logging_namespace@,
                    ""@,
                    0,
                )
            } else {
                spec_check_row(
                    "Logging Stack"@,
                    "Checks whether logging collectors are running"@,
                    70_000,
                    "No logging stack found"@,
                    "Install a logging stack (e.g., Fluent Bit + Loki)."@,
                    100_000,
                )
            })
            &&& r.checks.deep_view()[3] == (if prometheus {
                spec_check_row(
                    "Monitoring & Alerting"@,
                    "Checks for Prometheus/Thanos/VictoriaMetrics components"@,
                    100_000,
                    "Prometheus-compatible component detected"@,
                    ""@,
                    0,
                )
            } else {
                spec_check_row(
                    "Monitoring & Alerting"@,
                    "Checks for monitoring stacks"@,
                    65_000,
                    "No Prometheus/Thanos/VictoriaMetrics detected"@,
                    "Install Prometheus and Alertmanager for proactive monitoring."@,
                    100_000,
                )
            })
            &&& r.issues.deep_view() == (if ms {
                Seq::<IssueView>::empty()
            } else {
                seq![
                    IssueView {
                        severity: IssueSeverity::Critical,
                        category: "Observability"@,
                        description: "metrics-server is missing or not ready"@,
                        resource: Some("kube-system"@),
                        recommendation: "Deploy metrics-server to enable HPA and kubectl top commands."@,
                        rule_id: Some("OBS-001"@),
                    },
                ]
            }) + (if ksm {
                Seq::<IssueView>::empty()
            } else {
                seq![
                    IssueView {
                        severity: IssueSeverity::Warning,
                        category: "Observability"@,
                        description: "kube-state-metrics is missing or not ready"@,
                        resource: Some("kube-system"@),
                        recommendation: "Deploy kube-state-metrics to expose Kubernetes object metrics."@,
                        rule_id: Some("OBS-002"@),
                    },
                ]
            }) + (if dns_total == 0 {
                seq![
                    IssueView {
                        severity: IssueSeverity::Critical,
                        category: "Observability"@,
                        description: "CoreDNS (cluster DNS) not found in kube-system"@,
                        resource: Some("kube-system"@),
                        recommendation: "Ensure CoreDNS or kube-dns is deployed for cluster DNS."@,
                        rule_id: Some("OBS-003"@),
                    },
                ]
            } else {
                Seq::<IssueView>::empty()
            }) + (if logging {
                Seq::<IssueView>::empty()
            } else {
                seq![
                    IssueView {
                        severity: IssueSeverity::Warning,
                        category: "Observability"@,
                        description: "No logging collector pods detected"@,
                        resource: Some(logging_namespace@),
                        recommendation: "Deploy Fluentd/Vector/Logstash to aggregate cluster logs."@,
                        rule_id: Some("OBS-003"@),
                    },
                ]
            }) + (if prometheus {
                Seq::<IssueView>::empty()
            } else {
                seq![
                    IssueView {
                        severity: IssueSeverity::Warning,
                        category: "Observability"@,
                        description: "No Prometheus-compatible monitoring found"@,
                        resource: Some("monitoring"@),
                        recommendation: "Deploy Prometheus/Thanos or integrate with managed monitoring."@,
                        rule_id: Some("OBS-004"@),
                    },
                ]
            })
        }),
{
    let mut issues: Vec<Issue> = Vec::new();

    let ms = any_ready_metrics_server(kube_system);
    let ksm = any_ready_ksm(kube_system) || any_ready_ksm(ksm_extra);
    let mut score0: u64 = 100_000;
    let mut recs0: Vec<String> = Vec::new();
    if !ms {
        score0 = score0 - 30_000;
        issues.push(
            Issue {
                severity: IssueSeverity::Critical,
                category: "Observability".to_owned(),
                description: "metrics-server is missing or not ready".to_owned(),
                resource: Some("kube-system".to_owned()),
                recommendation: "Deploy metrics-server to enable HPA and kubectl top commands."
                    .to_owned(),
                rule_id: Some("OBS-001".to_owned()),
            },
        );
        recs0.push("Install metrics-server for core metrics APIs.".to_owned());
    }
    if !ksm {
        score0 = score0 - 20_000;
        issues.push(
            Issue {
                severity: IssueSeverity::Warning,
                category: "Observability".to_owned(),
                description: "kube-state-metrics is missing or not ready".to_owned(),
                resource: Some("kube-system".to_owned()),
                recommendation: "Deploy kube-state-metrics to expose Kubernetes object metrics."
                    .to_owned(),
                rule_id: Some("OBS-002".to_owned()),
            },
        );
        recs0.push("Install kube-state-metrics for Prometheus scraping.".to_owned());
    }
    let details0 = cat4(
        "metrics-server: ",
        if ms {
            "present"
        } else {
            "missing"
        },
        ", kube-state-metrics: ",
        if ksm {
            "present"
        } else {
            "missing"
        },
    );
    let c0 = check_row_with(
        "Metrics Pipeline",
        "Checks metrics-server and kube-state-metrics availability",
        score0,
        details0,
        recs0,
    );

    // cluster DNS
    let ghost ksv = kube_system.deep_view();
    let mut dns_total: u64 = 0;
    let mut dns_ready: u64 = 0;
    let mut i: usize = 0;
    proof {
        reveal(Seq::filter);
        assert(ksv.take(0int) =~= Seq::<PodNameReadyView>::empty());
    }
    while i < kube_system.len()
        invariant
            i <= kube_system@.len(),
            ksv == kube_system.deep_view(),
            ksv.len() == kube_system@.len(),
            dns_total == ksv.take(i as int).filter(
                |f: PodNameReadyView| spec_is_coredns(f.name),
            ).len(),
            dns_ready == ksv.take(i as int).filter(
                |f: PodNameReadyView| spec_is_coredns(f.name) && f.ready,
            ).len(),
            dns_total <= i && dns_ready <= i,
        decreases kube_system@.len() - i,
    {
        proof {
            reveal(Seq::filter);
            assert(ksv.take(i + 1int).drop_last() == ksv.take(i as int));
            assert(ksv.take(i + 1int).last() == ksv[i as int]);
            assert(kube_system@[i as int]@ == ksv[i as int]);
            lemma_filter_take_step(ksv, |f: PodNameReadyView| spec_is_coredns(f.name), i as int);
            lemma_filter_take_step(
                ksv,
                |f: PodNameReadyView| spec_is_coredns(f.name) && f.ready,
                i as int,
            );
        }
        let f = &kube_system[i];
        let chars = to_chars(f.name.as_str());
        let matched = contains_lit(&chars, "coredns") || contains_lit(&chars, "kube-dns");
        if matched {
            dns_total = dns_total + 1;
            if f.ready {
                dns_ready = dns_ready + 1;
            }
        }
        i = i + 1;
    }
    proof {
        assert(ksv.take(kube_system@.len() as int) == ksv);
        lemma_filter_le(ksv, |f: PodNameReadyView| spec_is_coredns(f.name));
        lemma_coredns_ready_le(ksv);
    }
    let c1 = if dns_total == 0 {
        issues.push(
            Issue {
                severity: IssueSeverity::Critical,
                category: "Observability".to_owned(),
                description: "CoreDNS (cluster DNS) not found in kube-system".to_owned(),
                resource: Some("kube-system".to_owned()),
                recommendation: "Ensure CoreDNS or kube-dns is deployed for cluster DNS."
                    .to_owned(),
                rule_id: Some("OBS-003".to_owned()),
            },
        );
        check_row(
            "Cluster DNS (CoreDNS)",
            "Checks CoreDNS/kube-dns availability in kube-system",
            0,
            "CoreDNS: not found".to_owned(),
            "",
            0,
        )
    } else {
        let score: u64 = if dns_ready < dns_total {
            crate::checks::score_from_counts(dns_ready, dns_total, 100_000)
        } else {
            100_000
        };
        proof {
            if dns_ready < dns_total {
                assert(score == (dns_ready * 100_000int / dns_total as int) as u64);
            }
        }
        let rr = u64_string(dns_ready);
        let tt = u64_string(dns_total);
        let details = cat5_dns(rr.as_str(), tt.as_str());
        check_row(
            "Cluster DNS (CoreDNS)",
            "Checks CoreDNS/kube-dns availability in kube-system",
            score,
            details,
            "",
            0,
        )
    };

    // logging
    let logging = any_ready_logging(logging_pods);
    let c2 = if logging {
        check_row(
            "Logging Stack",
            "Checks whether logging collectors are running",
            100_000,
            cat2_pref("Logging components detected in namespace ", logging_namespace),
            "",
            0,
        )
    } else {
        issues.push(
            Issue {
                severity: IssueSeverity::Warning,
                category: "Observability".to_owned(),
                description: "No logging collector pods detected".to_owned(),
                resource: Some(logging_namespace.to_owned()),
                recommendation: "Deploy Fluentd/Vector/Logstash to aggregate cluster logs."
                    .to_owned(),
                rule_id: Some("OBS-003".to_owned()),
            },
        );
        check_row(
            "Logging Stack",
            "Checks whether logging collectors are running",
            70_000,
            "No logging stack found".to_owned(),
            "Install a logging stack (e.g., Fluent Bit + Loki).",
            100_000,
        )
    };

    // monitoring
    let prometheus = any_ready_prometheus(alerting_pods);
    let c3 = if prometheus {
        check_row(
            "Monitoring & Alerting",
            "Checks for Prometheus/Thanos/VictoriaMetrics components",
            100_000,
            "Prometheus-compatible component detected".to_owned(),
            "",
            0,
        )
    } else {
        issues.push(
            Issue {
                severity: IssueSeverity::Warning,
                category: "Observability".to_owned(),
                description: "No Prometheus-compatible monitoring found".to_owned(),
                resource: Some("monitoring".to_owned()),
                recommendation: "Deploy Prometheus/Thanos or integrate with managed monitoring."
                    .to_owned(),
                rule_id: Some("OBS-004".to_owned()),
            },
        );
        check_row(
            "Monitoring & Alerting",
            "Checks for monitoring stacks",
            65_000,
            "No Prometheus/Thanos/VictoriaMetrics detected".to_owned(),
            "Install Prometheus and Alertmanager for proactive monitoring.",
            100_000,
        )
    };

    let mut checks: Vec<CheckResult> = Vec::new();
    checks.push(c0);
    checks.push(c1);
    checks.push(c2);
    checks.push(c3);
    proof {
        assert(issues.deep_view() =~= spec_obs_issue_list(
            spec_any_ready(kube_system.deep_view(), |n: Seq<char>| spec_is_metrics_server(n)),
            spec_any_ready(kube_system.deep_view(), |n: Seq<char>| spec_is_ksm(n))
                || spec_any_ready(ksm_extra.deep_view(), |n: Seq<char>| spec_is_ksm(n)),
            kube_system.deep_view().filter(
                |f: PodNameReadyView| spec_is_coredns(f.name),
            ).len() as int == 0,
            spec_any_ready(logging_pods.deep_view(), |n: Seq<char>| spec_is_logging(n)),
            spec_any_ready(alerting_pods.deep_view(), |n: Seq<char>| spec_is_prometheus(n)),
            logging_namespace@,
        ));
    }
    ObservabilityClassification { checks, issues }
}

/// The unit's finding list for the five outcomes, in check order.
pub open spec fn spec_obs_issue_list(
    ms: bool,
    ksm: bool,
    dns_missing: bool,
    logging: bool,
    prometheus: bool,
    logging_ns: Seq<char>,
) -> Seq<IssueView> {
    (if ms {
        Seq::<IssueView>::empty()
    } else {
        seq![
            IssueView {
                severity: IssueSeverity::Critical,
                category: "Observability"@,
                description: "metrics-server is missing or not ready"@,
                resource: Some("kube-system"@),
                recommendation: "Deploy metrics-server to enable HPA and kubectl top commands."@,
                rule_id: Some("OBS-001"@),
            },
        ]
    }) + (if ksm {
        Seq::<IssueView>::empty()
    } else {
        seq![
            IssueView {
                severity: IssueSeverity::Warning,
                category: "Observability"@,
                description: "kube-state-metrics is missing or not ready"@,
                resource: Some("kube-system"@),
                recommendation: "Deploy kube-state-metrics to expose Kubernetes object metrics."@,
                rule_id: Some("OBS-002"@),
            },
        ]
    }) + (if dns_missing {
        seq![
            IssueView {
                severity: IssueSeverity::Critical,
                category: "Observability"@,
                description: "CoreDNS (cluster DNS) not found in kube-system"@,
                resource: Some("kube-system"@),
                recommendation: "Ensure CoreDNS or kube-dns is deployed for cluster DNS."@,
                rule_id: Some("OBS-003"@),
            },
        ]
    } else {
        Seq::<IssueView>::empty()
    }) + (if logging {
        Seq::<IssueView>::empty()
    } else {
        seq![
            IssueView {
                severity: IssueSeverity::Warning,
                category: "Observability"@,
                description: "No logging collector pods detected"@,
                resource: Some(logging_ns),
                recommendation: "Deploy Fluentd/Vector/Logstash to aggregate cluster logs."@,
                rule_id: Some("OBS-003"@),
            },
        ]
    }) + (if prometheus {
        Seq::<IssueView>::empty()
    } else {
        seq![
            IssueView {
                severity: IssueSeverity::Warning,
                category: "Observability"@,
                description: "No Prometheus-compatible monitoring found"@,
                resource: Some("monitoring"@),
                recommendation: "Deploy Prometheus/Thanos or integrate with managed monitoring."@,
                rule_id: Some("OBS-004"@),
            },
        ]
    })
}

/// "CoreDNS: r/t ready".
fn cat5_dns(r: &str, t: &str) -> (out: String)
    ensures
        out@ == "CoreDNS: "@ + r@ + "/"@ + t@ + " ready"@,
{
    crate::text::cat5("CoreDNS: ", r, "/", t, " ready")
}

fn cat2_pref(a: &str, b: &str) -> (out: String)
    ensures
        out@ == a@ + b@,
{
    crate::text::cat2(a, b)
}

proof fn lemma_coredns_ready_le(s: Seq<PodNameReadyView>)
    ensures
        s.filter(|f: PodNameReadyView| spec_is_coredns(f.name) && f.ready).len() <= s.filter(
            |f: PodNameReadyView| spec_is_coredns(f.name),
        ).len(),
    decreases s.len(),
{
    reveal(Seq::filter);
    if s.len() > 0 {
        lemma_coredns_ready_le(s.drop_last());
    }
}

/// Whether some ready pod name holds a metrics-server identifier.
fn any_ready_metrics_server(pods: &Vec<PodNameReady>) -> (r: bool)
    ensures
        r == spec_any_ready(pods.deep_view(), |n: Seq<char>| spec_is_metrics_server(n)),
{
    let ghost pv = pods.deep_view();
    let mut i: usize = 0;
    while i < pods.len()
        invariant
            i <= pods@.len(),
            pv == pods.deep_view(),
            pv.len() == pods@.len(),
            forall|j: int|
                0 <= j < i ==> !(spec_is_metrics_server((#[trigger] pv[j]).name) && pv[j].ready),
        decreases pods@.len() - i,
    {
        proof {
            assert(pods@[i as int]@ == pv[i as int]);
        }
        let f = &pods[i];
        let chars = to_chars(f.name.as_str());
        if (contains_lit(&chars, "metrics-server") || contains_lit(&chars, "metricsserver"))
            && f.ready {
            return true;
        }
        i = i + 1;
    }
    false
}

fn any_ready_ksm(pods: &Vec<PodNameReady>) -> (r: bool)
    ensures
        r == spec_any_ready(pods.deep_view(), |n: Seq<char>| spec_is_ksm(n)),
{
    let ghost pv = pods.deep_view();
    let mut i: usize = 0;
    while i < pods.len()
        invariant
            i <= pods@.len(),
            pv == pods.deep_view(),
            pv.len() == pods@.len(),
            forall|j: int| 0 <= j < i ==> !(spec_is_ksm((#[trigger] pv[j]).name) && pv[j].ready),
        decreases pods@.len() - i,
    {
        proof {
            assert(pods@[i as int]@ == pv[i as int]);
        }
        let f = &pods[i];
        let chars = to_chars(f.name.as_str());
        if (contains_lit(&chars, "kube-state-metrics") || contains_lit(
            &chars,
            "kube_state_metrics",
        )) && f.ready {
            return true;
        }
        i = i + 1;
    }
    false
}

fn any_ready_logging(pods: &Vec<PodNameReady>) -> (r: bool)
    ensures
        r == spec_any_ready(pods.deep_view(), |n: Seq<char>| spec_is_logging(n)),
{
    let ghost pv = pods.deep_view();
    let mut i: usize = 0;
    while i < pods.len()
        invariant
            i <= pods@.len(),
            pv == pods.deep_view(),
            pv.len() == pods@.len(),
            forall|j: int|
                0 <= j < i ==> !(spec_is_logging((#[trigger] pv[j]).name) && pv[j].ready),
        decreases pods@.len() - i,
    {
        proof {
            assert(pods@[i as int]@ == pv[i as int]);
        }
        let f = &pods[i];
        let chars = to_chars(f.name.as_str());
        if (contains_lit(&chars, "fluent") || contains_lit(&chars, "logstash") || contains_lit(
            &chars,
            "loki",
        ) || contains_lit(&chars, "vector")) && f.ready {
            return true;
        }
        i = i + 1;
    }
    false
}

fn any_ready_prometheus(pods: &Vec<PodNameReady>) -> (r: bool)
    ensures
        r == spec_any_ready(pods.deep_view(), |n: Seq<char>| spec_is_prometheus(n)),
{
    let ghost pv = pods.deep_view();
    let mut i: usize = 0;
    while i < pods.len()
        invariant
            i <= pods@.len(),
            pv == pods.deep_view(),
            pv.len() == pods@.len(),
            forall|j: int|
                0 <= j < i ==> !(spec_is_prometheus((#[trigger] pv[j]).name) && pv[j].ready),
        decreases pods@.len() - i,
    {
        proof {
            assert(pods@[i as int]@ == pv[i as int]);
        }
        let f = &pods[i];
        let chars = to_chars(f.name.as_str());
        if (contains_lit(&chars, "prometheus") || contains_lit(&chars, "thanos") || contains_lit(
            &chars,
            "victoriametrics",
        )) && f.ready {
            return true;
        }
        i = i + 1;
    }
    false
}

} // verus!
