//! Concrete-value tests for the audit unit classifiers.

use kubeowler::cli::{output_path_with_extension, sanitize_cluster_name, ReportFormat};
use kubeowler::inspections::nodes::{classify_nodes, NodeFacts};
use kubeowler::inspections::pods::{classify_pods, PodContainerFact, PodFacts};
use kubeowler::inspections::storage::{classify_storage, PvFacts, PvcFacts, ScFacts};
use kubeowler::types::CheckStatus;

fn node(name: &str, conditions: &[(&str, &str)]) -> NodeFacts {
    NodeFacts {
        name: name.to_string(),
        conditions: conditions
            .iter()
            .map(|(t, s)| (t.to_string(), s.to_string()))
            .collect(),
    }
}

#[test]
fn all_nodes_ready_scores_full() {
    let nodes = vec![
        node("a", &[("Ready", "True")]),
        node("b", &[("Ready", "True"), ("MemoryPressure", "False")]),
    ];
    let out = classify_nodes(&nodes);
    assert_eq!(out.checks.len(), 2);
    assert_eq!(out.checks[0].name, "Node Readiness");
    assert_eq!(out.checks[0].score, 100_000);
    assert_eq!(out.checks[0].status, CheckStatus::Pass);
    assert!(out.issues.is_empty());
}

#[test]
fn not_ready_node_yields_issue_and_half_score() {
    let nodes = vec![node("a", &[("Ready", "True")]), node("b", &[("Ready", "False")])];
    let out = classify_nodes(&nodes);
    assert_eq!(out.checks[0].score, 50_000);
    assert_eq!(out.issues.len(), 1);
    assert_eq!(out.issues[0].rule_id.as_deref(), Some("NODE-001"));
    assert!(out.issues[0].description.contains("b"));
}

#[test]
fn pressured_node_yields_pressure_issue() {
    let nodes = vec![node("a", &[("Ready", "True"), ("DiskPressure", "True")])];
    let out = classify_nodes(&nodes);
    let pressured: Vec<_> = out
        .issues
        .iter()
        .filter(|i| i.rule_id.as_deref() == Some("NODE-002"))
        .collect();
    assert_eq!(pressured.len(), 1);
}

#[test]
fn failed_pv_is_critical_storage_issue() {
    let pvs = vec![PvFacts {
        name: "pv0".to_string(),
        phase: "Failed".to_string(),
        has_spec: true,
        reclaim_policy: Some("Delete".to_string()),
    }];
    let out = classify_storage(&pvs, &Vec::new(), &Vec::new());
    assert!(out
        .issues
        .iter()
        .any(|i| i.rule_id.as_deref() == Some("STO-001") && i.description.contains("pv0")));
}

#[test]
fn bound_volumes_and_default_class_pass() {
    let pvs = vec![PvFacts {
        name: "pv0".to_string(),
        phase: "Bound".to_string(),
        has_spec: true,
        reclaim_policy: Some("Retain".to_string()),
    }];
    let pvcs = vec![PvcFacts {
        namespace: "default".to_string(),
        name: "data".to_string(),
        phase: "Bound".to_string(),
        has_spec: true,
        has_storage_class: true,
    }];
    let scs = vec![ScFacts {
        name: "standard".to_string(),
        is_default: true,
        has_provisioner: true,
    }];
    let out = classify_storage(&pvs, &pvcs, &scs);
    assert!(out.issues.is_empty());
    for c in &out.checks {
        assert_eq!(c.score, 100_000);
    }
}

fn quiet_container(name: &str) -> PodContainerFact {
    PodContainerFact {
        name: name.to_string(),
        waiting: false,
        waiting_reason: String::new(),
        waiting_message: String::new(),
        terminated_nonzero: false,
        terminated_reason: String::new(),
        terminated_exit_code: 0,
        restart_count: 0,
    }
}

#[test]
fn crash_looping_container_is_reported() {
    let mut c = quiet_container("app");
    c.waiting = true;
    c.waiting_reason = "CrashLoopBackOff".to_string();
    c.waiting_message = "back-off 5m0s".to_string();
    let pods = vec![PodFacts {
        namespace: "prod".to_string(),
        name: "api-0".to_string(),
        phase: "Running".to_string(),
        ready_false: false,
        ready_reason: String::new(),
        ready_message: String::new(),
        scheduled_false: false,
        containers: vec![c],
    }];
    let out = classify_pods(&pods);
    assert!(out
        .issues
        .iter()
        .any(|i| i.description.contains("CrashLoopBackOff") && i.description.contains("api-0")));
    assert_eq!(out.container_state_rows.len(), 1);
    assert_eq!(out.container_state_rows[0].reason, "CrashLoopBackOff");
}

#[test]
fn healthy_pods_score_full() {
    let pods = vec![PodFacts {
        namespace: "prod".to_string(),
        name: "api-0".to_string(),
        phase: "Running".to_string(),
        ready_false: false,
        ready_reason: String::new(),
        ready_message: String::new(),
        scheduled_false: false,
        containers: vec![quiet_container("app")],
    }];
    let out = classify_pods(&pods);
    assert!(out.issues.is_empty());
    for c in &out.checks {
        assert_eq!(c.score, 100_000);
    }
}

#[test]
fn sanitize_cluster_name_collapses_and_defaults() {
    assert_eq!(sanitize_cluster_name("prod/eu:1"), "prod-eu-1");
    assert_eq!(sanitize_cluster_name("--a--b--"), "a-b");
    assert_eq!(sanitize_cluster_name("///"), "cluster");
    assert_eq!(sanitize_cluster_name(""), "cluster");
    assert_eq!(sanitize_cluster_name("plain"), "plain");
}

#[test]
fn output_path_extension_rules() {
    let t = "2024-01-02-030405";
    assert_eq!(
        output_path_with_extension(None, "prod/eu", t, ReportFormat::Md),
        "prod-eu-kubernetes-inspection-report-2024-01-02-030405.md"
    );
    assert_eq!(
        output_path_with_extension(Some("out".to_string()), "x", t, ReportFormat::Csv),
        "out.csv"
    );
    assert_eq!(
        output_path_with_extension(Some("out..".to_string()), "x", t, ReportFormat::Html),
        "out.html"
    );
    assert_eq!(
        output_path_with_extension(Some("keep.json".to_string()), "x", t, ReportFormat::Md),
        "keep.json"
    );
}
