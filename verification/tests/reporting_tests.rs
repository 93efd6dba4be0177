use kubeowler::cli::InspectionType;
use kubeowler::generator::{
    format_affected_resources, group_findings, inspection_type_to_resource,
    parse_check_level_filter, slugify, CheckLevelFilter, ReportGenerator,
};
use kubeowler::issue_codes::{container_state_reason_to_rule_id, doc_path, short_title};
use kubeowler::report_resource::{issue_to_resource_key, report_resource_order};
use kubeowler::scoring::ScoringEngine;
use kubeowler::types::{CheckStatus, HealthStatus, Issue, IssueSeverity};

fn make_issue(category: &str, rule_id: Option<&str>) -> Issue {
    Issue {
        severity: IssueSeverity::Info,
        category: category.to_string(),
        description: String::new(),
        resource: None,
        recommendation: String::new(),
        rule_id: rule_id.map(String::from),
    }
}

#[test]
fn test_issue_to_resource_key_mapping() {
    assert_eq!(issue_to_resource_key(&make_issue("Pod", None)), "Pod");
    assert_eq!(issue_to_resource_key(&make_issue("Container", None)), "Pod");
    assert_eq!(issue_to_resource_key(&make_issue("Node", None)), "Node");
    assert_eq!(issue_to_resource_key(&make_issue("Service", None)), "Service");
    assert_eq!(issue_to_resource_key(&make_issue("Certificates", None)), "Certificate");
    assert_eq!(issue_to_resource_key(&make_issue("ControlPlane", None)), "Control Plane");
    assert_eq!(issue_to_resource_key(&make_issue("Autoscaling", None)), "HPA");
    assert_eq!(issue_to_resource_key(&make_issue("Policy", None)), "Policy");
    assert_eq!(issue_to_resource_key(&make_issue("Observability", None)), "Observability");
    assert_eq!(issue_to_resource_key(&make_issue("Security", None)), "Security");
    assert_eq!(
        issue_to_resource_key(&make_issue("Resource Management", None)),
        "Resource Management"
    );
    assert_eq!(issue_to_resource_key(&make_issue("Batch", Some("BATCH-001"))), "CronJob");
    assert_eq!(issue_to_resource_key(&make_issue("Batch", Some("BATCH-003"))), "CronJob");
    assert_eq!(issue_to_resource_key(&make_issue("Batch", Some("BATCH-004"))), "Job");
    assert_eq!(issue_to_resource_key(&make_issue("Batch", Some("BATCH-005"))), "Job");
    assert_eq!(
        issue_to_resource_key(&make_issue("PersistentVolume", None)),
        "PersistentVolume"
    );
    assert_eq!(issue_to_resource_key(&make_issue("ClusterRole", None)), "ClusterRole");
}

#[test]
fn test_report_resource_order_non_empty() {
    let order = report_resource_order();
    assert!(!order.is_empty());
    assert!(order.contains(&"Pod"));
    assert!(order.contains(&"Node"));
    assert!(order.contains(&"Certificate"));
}

#[test]
fn test_report_formatting() {
    let _generator = ReportGenerator::new();

    // scoring integration
    let scoring_engine = ScoringEngine::new();
    let health_status = scoring_engine.get_health_status(85_000);
    assert!(matches!(health_status, HealthStatus::Good));
}

#[test]
fn test_inspection_type_variants() {
    assert!(matches!("all".parse::<InspectionType>(), Ok(InspectionType::All)));
    assert!(matches!("nodes".parse::<InspectionType>(), Ok(InspectionType::Nodes)));
    assert!(matches!("pods".parse::<InspectionType>(), Ok(InspectionType::Pods)));
    assert!(matches!("security".parse::<InspectionType>(), Ok(InspectionType::Security)));
    assert!(matches!("hpa".parse::<InspectionType>(), Ok(InspectionType::Autoscaling)));
    assert!(matches!("control-plane".parse::<InspectionType>(), Ok(InspectionType::ControlPlane)));
    assert!("bogus".parse::<InspectionType>().is_err());
    assert_eq!(
        "bogus".parse::<InspectionType>().unwrap_err(),
        "Unknown inspection type: bogus"
    );
}

#[test]
fn test_parse_check_level_filter_words() {
    assert!(matches!(parse_check_level_filter("all"), CheckLevelFilter::All));
    assert!(matches!(parse_check_level_filter(" ALL "), CheckLevelFilter::All));
    match parse_check_level_filter("warning,critical") {
        CheckLevelFilter::Only(v) => {
            assert_eq!(v, vec![CheckStatus::Warning, CheckStatus::Critical]);
        }
        _ => panic!("expected Only"),
    }
    match parse_check_level_filter("PASS") {
        CheckLevelFilter::Only(v) => assert_eq!(v, vec![CheckStatus::Pass]),
        _ => panic!("expected Only"),
    }
    // no known word: Warning, Critical and Error stand in
    match parse_check_level_filter("bogus") {
        CheckLevelFilter::Only(v) => {
            assert_eq!(v, vec![CheckStatus::Warning, CheckStatus::Critical, CheckStatus::Error]);
        }
        _ => panic!("expected Only"),
    }
}

#[test]
fn test_inspection_type_to_resource_table() {
    assert_eq!(inspection_type_to_resource("Node Health"), "Node");
    assert_eq!(inspection_type_to_resource("Pod Status"), "Pod");
    assert_eq!(inspection_type_to_resource("Storage"), "PersistentVolume");
    assert_eq!(inspection_type_to_resource("Autoscaling"), "HorizontalPodAutoscaler");
    assert_eq!(inspection_type_to_resource("anything else"), "Other");
}

#[test]
fn test_slugify_titles() {
    assert_eq!(slugify("Node Health"), "node-health");
    assert_eq!(slugify("Policy & Governance"), "policy-governance");
    assert_eq!(slugify("--Pod--"), "pod");
}

#[test]
fn test_format_affected_resources_lines() {
    let rs = vec!["ns/a".to_string(), "ns/b".to_string()];
    assert_eq!(format_affected_resources(&rs), "`ns/a`  \n`ns/b`");
    assert_eq!(format_affected_resources(&vec![]), "");
}

#[test]
fn test_short_title_registry() {
    assert_eq!(short_title("NODE-001"), Some("Node not ready"));
    assert_eq!(short_title("STO-009"), Some("No default StorageClass"));
    assert_eq!(short_title("CERT-003"), Some("Certificate expired"));
    assert_eq!(short_title("NOPE-123"), None);
    assert_eq!(doc_path("STO-009"), "docs/issues/STO-009.md");
}

fn critical(category: &str, rule: Option<&str>, resource: Option<&str>, rec: &str) -> Issue {
    Issue {
        severity: IssueSeverity::Critical,
        category: category.to_string(),
        description: format!("{} broken", category),
        resource: resource.map(String::from),
        recommendation: rec.to_string(),
        rule_id: rule.map(String::from),
    }
}

#[test]
fn test_group_findings_by_rule_code() {
    let issues = vec![
        critical("Pod", Some("POD-003"), Some("ns/a"), "restart"),
        critical("Pod", Some("POD-003"), Some("ns/b"), "restart"),
        critical("Node", None, Some("n1"), "check node"),
        make_issue("Pod", Some("POD-003")), // Info: ignored by the Critical grouping
    ];
    let groups = group_findings(&issues, IssueSeverity::Critical);
    assert_eq!(groups.len(), 2);
    assert_eq!(groups[0].rule_id.as_deref(), Some("POD-003"));
    assert_eq!(groups[0].title, "Container restart count too high");
    assert_eq!(groups[0].resources, vec!["ns/a".to_string(), "ns/b".to_string()]);
    assert_eq!(groups[1].rule_id, None);
    assert_eq!(groups[1].title, "Node broken");
}

#[test]
fn test_regrouping_grouped_rows_keeps_row_count() {
    // rows already spanning several resources, regrouped: same row count
    let issues = vec![
        critical("Pod", Some("POD-003"), Some("ns/a"), "restart"),
        critical("Pod", Some("POD-003"), Some("ns/b"), "restart"),
        critical("Node", None, Some("n1"), "check node"),
        critical("Node", None, Some("n2"), "check node"),
    ];
    let rows = group_findings(&issues, IssueSeverity::Critical);
    assert_eq!(rows.len(), 2);
    let mut expanded: Vec<Issue> = Vec::new();
    for row in &rows {
        for r in &row.resources {
            expanded.push(Issue {
                severity: IssueSeverity::Critical,
                category: row.category.clone(),
                description: row.title.clone(),
                resource: Some(r.clone()),
                recommendation: row.recommendation.clone(),
                rule_id: row.rule_id.clone(),
            });
        }
    }
    let regrouped = group_findings(&expanded, IssueSeverity::Critical);
    assert_eq!(regrouped.len(), rows.len());
}

#[test]
fn test_aggregated_findings_lines() {
    let inspections = vec![{
        let issues = vec![
            critical("Pod", Some("POD-003"), Some("ns/a"), "restart"),
            critical("Pod", Some("POD-003"), Some("ns/b"), "restart"),
        ];
        let summary = kubeowler::checks::summarize_checks(&vec![], issues);
        kubeowler::types::InspectionResult {
            inspection_type: "Pod Status".to_string(),
            timestamp: 0,
            overall_score: 50_000,
            checks: vec![],
            summary,
            certificate_expiries: None,
            pod_container_states: None,
            namespace_summary_rows: None,
        }
    }];
    let lines = ReportGenerator::build_aggregated_findings_error_only(&inspections);
    assert_eq!(lines.len(), 1);
    assert_eq!(
        lines[0],
        "[error] **POD-003** Container restart count too high (2). [Doc](docs/issues/POD-003.md). Affected: `ns/a`  \n`ns/b`"
    );
    let recs = ReportGenerator::build_aggregated_recommendations(&inspections, 5);
    assert_eq!(recs, vec!["restart".to_string()]);
}

#[test]
fn test_group_issues_by_severity_and_type_buckets() {
    let issues = vec![
        critical("Pod", Some("POD-001"), Some("ns/a"), "fix"),
        make_issue("Node", None),
        Issue {
            severity: IssueSeverity::Warning,
            category: "Node".to_string(),
            description: "pressure".to_string(),
            resource: Some("n1".to_string()),
            recommendation: "watch".to_string(),
            rule_id: Some("NODE-002".to_string()),
        },
    ];
    let grouped = ReportGenerator::group_issues_by_severity_and_type(&issues);
    assert_eq!(grouped.critical.len(), 1);
    assert_eq!(grouped.warning.len(), 1);
    assert_eq!(grouped.info.len(), 1);
    assert_eq!(grouped.warning[0].title, "Node has resource pressure");
}

#[test]
fn test_container_state_reason_rule_codes() {
    assert_eq!(container_state_reason_to_rule_id("waiting", "ImagePullBackOff"), "POD-005");
    assert_eq!(container_state_reason_to_rule_id("waiting", "CrashLoopBackOff"), "POD-007");
    assert_eq!(container_state_reason_to_rule_id("waiting", "SomethingElse"), "POD-004");
    assert_eq!(container_state_reason_to_rule_id("terminated", "OOMKilled"), "POD-010");
    assert_eq!(container_state_reason_to_rule_id("terminated", "Error"), "POD-011");
}
