use kubeowler::checks::{mean_check_score, score_from_counts, status_for_score, summarize_checks};
use kubeowler::scoring::{calculate_overall_score, generate_executive_summary, ScoringEngine};
use kubeowler::types::{
    CheckResult, CheckStatus, HealthStatus, InspectionResult, InspectionSummary, Issue,
    IssueSeverity,
};

fn check(name: &str, status: CheckStatus, score: u64) -> CheckResult {
    CheckResult {
        name: name.to_string(),
        description: "Test description".to_string(),
        status,
        score,
        max_score: 100_000,
        details: None,
        recommendations: vec![],
    }
}

fn inspection(kind: &str, overall: u64, checks: Vec<CheckResult>, issues: Vec<Issue>) -> InspectionResult {
    let summary = summarize_checks(&checks, issues);
    InspectionResult {
        inspection_type: kind.to_string(),
        timestamp: 0,
        overall_score: overall,
        checks,
        summary,
        certificate_expiries: None,
        pod_container_states: None,
        namespace_summary_rows: None,
    }
}

fn issue(sev: IssueSeverity, description: &str, recommendation: &str) -> Issue {
    Issue {
        severity: sev,
        category: "Test".to_string(),
        description: description.to_string(),
        resource: None,
        recommendation: recommendation.to_string(),
        rule_id: None,
    }
}

#[test]
fn test_scoring_engine_calculation() {
    let engine = ScoringEngine::new();

    let ins = inspection(
        "Test",
        85_000,
        vec![check("Test Check", CheckStatus::Pass, 85_000)],
        vec![],
    );

    let inspections = vec![ins];
    let weighted_score = engine.calculate_weighted_score(&inspections);

    assert!(weighted_score > 0);
    assert!(weighted_score <= 100_000);
}

#[test]
fn test_health_status_calculation() {
    let engine = ScoringEngine::new();

    assert!(matches!(engine.get_health_status(95_000), HealthStatus::Excellent));
    assert!(matches!(engine.get_health_status(85_000), HealthStatus::Good));
    assert!(matches!(engine.get_health_status(75_000), HealthStatus::Fair));
    assert!(matches!(engine.get_health_status(65_000), HealthStatus::Poor));
    assert!(matches!(engine.get_health_status(50_000), HealthStatus::Critical));
}

#[test]
fn test_check_scoring() {
    let engine = ScoringEngine::new();

    let checks = vec![
        check("Node Readiness", CheckStatus::Pass, 100_000),
        check("Pod Health", CheckStatus::Warning, 80_000),
    ];

    let score = engine.calculate_inspection_score(&checks);
    assert!(score > 0);
    assert!(score < 100_000); // below full score because of the warning
}

#[test]
fn test_weighted_score_exact_value() {
    // Node Health weighs 2.0, Storage 1.5:
    // (90.0 * 2.0 + 80.0 * 1.5) / 3.5 points, in thousandths, rounded down.
    let engine = ScoringEngine::new();
    let inspections = vec![
        inspection("Node Health", 90_000, vec![], vec![]),
        inspection("Storage", 80_000, vec![], vec![]),
    ];
    let weighted = engine.calculate_weighted_score(&inspections);
    assert_eq!(weighted, (90_000u64 * 20 + 80_000 * 15) / 35);
    assert_eq!(weighted, 85_714);
}

#[test]
fn test_weighted_score_empty_input() {
    let engine = ScoringEngine::new();
    assert_eq!(engine.calculate_weighted_score(&vec![]), 0);
}

#[test]
fn test_health_tier_boundaries() {
    let engine = ScoringEngine::new();
    assert!(matches!(engine.get_health_status(100_000), HealthStatus::Excellent));
    assert!(matches!(engine.get_health_status(90_000), HealthStatus::Excellent));
    assert!(matches!(engine.get_health_status(89_999), HealthStatus::Good));
    assert!(matches!(engine.get_health_status(80_000), HealthStatus::Good));
    assert!(matches!(engine.get_health_status(79_999), HealthStatus::Fair));
    assert!(matches!(engine.get_health_status(70_000), HealthStatus::Fair));
    assert!(matches!(engine.get_health_status(69_999), HealthStatus::Poor));
    assert!(matches!(engine.get_health_status(60_000), HealthStatus::Poor));
    assert!(matches!(engine.get_health_status(59_999), HealthStatus::Critical));
    assert!(matches!(engine.get_health_status(0), HealthStatus::Critical));
}

#[test]
fn test_check_score_boundary_pass_warning() {
    // ten objects, nine healthy: exactly 90.0 points, an inclusive Pass
    let score = score_from_counts(9, 10, 100_000);
    assert_eq!(score, 90_000);
    assert!(matches!(status_for_score(score), CheckStatus::Pass));
    // a hair under 90 points warns instead
    assert!(matches!(status_for_score(89_999), CheckStatus::Warning));
    assert!(matches!(status_for_score(70_000), CheckStatus::Warning));
    assert!(matches!(status_for_score(69_999), CheckStatus::Critical));
    // nothing to inspect: the rule's own empty score stands
    assert_eq!(score_from_counts(0, 0, 100_000), 100_000);
    assert_eq!(score_from_counts(0, 0, 0), 0);
}

#[test]
fn test_summarize_checks_counts() {
    let checks = vec![
        check("a", CheckStatus::Pass, 100_000),
        check("b", CheckStatus::Warning, 80_000),
        check("c", CheckStatus::Critical, 40_000),
        check("d", CheckStatus::Error, 0),
        check("e", CheckStatus::Pass, 100_000),
    ];
    let summary = summarize_checks(&checks, vec![]);
    assert_eq!(summary.total_checks, 5);
    assert_eq!(summary.passed_checks, 2);
    assert_eq!(summary.warning_checks, 1);
    assert_eq!(summary.critical_checks, 1);
    assert_eq!(summary.error_checks, 1);
    assert_eq!(mean_check_score(&checks), (100_000u64 + 80_000 + 40_000 + 0 + 100_000) / 5);
}

#[test]
fn test_improvement_score_caps_at_full() {
    let engine = ScoringEngine::new();
    let critical = vec![issue(IssueSeverity::Critical, "d", "r")];
    assert_eq!(engine.calculate_improvement_score(90_000, &critical), 100_000);
    let warning = vec![issue(IssueSeverity::Warning, "d", "r")];
    assert_eq!(engine.calculate_improvement_score(50_000, &warning), 58_000);
    let info = vec![issue(IssueSeverity::Info, "d", "r")];
    assert_eq!(engine.calculate_improvement_score(50_000, &info), 52_000);
}

#[test]
fn test_priority_recommendations_rank_critical_first() {
    let engine = ScoringEngine::new();
    let inspections = vec![inspection(
        "Test",
        50_000,
        vec![],
        vec![
            issue(IssueSeverity::Warning, "w1", "fix w1"),
            issue(IssueSeverity::Critical, "c1", "fix c1"),
            issue(IssueSeverity::Info, "i1", "fix i1"),
        ],
    )];
    let recs = engine.get_priority_recommendations(&inspections);
    assert_eq!(recs.len(), 2);
    assert_eq!(recs[0].recommendation, "fix c1");
    assert_eq!(recs[0].impact_score, 15_000);
    assert_eq!(recs[1].recommendation, "fix w1");
    assert_eq!(recs[1].impact_score, 8_000);
}

#[test]
fn test_executive_summary_sorts_and_dedups() {
    let inspections = vec![inspection(
        "Node Health",
        70_000,
        vec![],
        vec![
            issue(IssueSeverity::Critical, "b down", "restart b"),
            issue(IssueSeverity::Critical, "a down", "restart a"),
            issue(IssueSeverity::Critical, "b down", "restart b"),
            issue(IssueSeverity::Info, "ignored", "ignored"),
        ],
    )];
    let overall = calculate_overall_score(&inspections);
    assert_eq!(overall, 70_000);
    let summary = generate_executive_summary(&inspections, overall);
    assert!(matches!(summary.health_status, HealthStatus::Fair));
    assert_eq!(summary.key_findings, vec!["a down".to_string(), "b down".to_string()]);
    assert_eq!(
        summary.priority_recommendations,
        vec!["restart a".to_string(), "restart b".to_string()]
    );
    assert_eq!(summary.score_breakdown.len(), 1);
    assert_eq!(summary.score_breakdown[0].0, "Node Health");
    assert_eq!(summary.score_breakdown[0].1, 70_000);
}

#[test]
fn test_score_breakdown_rows() {
    let engine = ScoringEngine::new();
    let inspections = vec![inspection("Pod Status", 65_000, vec![], vec![])];
    let rows = engine.generate_score_breakdown(&inspections);
    assert_eq!(rows.len(), 1);
    assert_eq!(rows[0].0, "Pod Status");
    assert_eq!(rows[0].1.score, 65_000);
    assert_eq!(rows[0].1.weight, 25); // Pod Status weighs 2.5, in tenths
    assert!(matches!(rows[0].1.status, HealthStatus::Poor));
}
