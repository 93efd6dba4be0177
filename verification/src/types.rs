//! Shared result model: findings, checks, per-unit summaries and the
//! cross-unit report records that the scoring engine and the report layer
//! consume.
//!
//! All scores are integers in thousandths of a point: `90_000` is 90.0
//! points. Timestamps are Unix epoch seconds.

use vstd::prelude::*;

verus! {

/// One point of the score scale: a score of `n` points is stored as
/// `n * SCORE_UNIT`.
pub const SCORE_UNIT: u64 = 1000;

/// The maximum score, 100.0 points, in thousandths.
pub const MAX_SCORE: u64 = 100_000;

/// Outcome of one scoreable sub-audit.
#[derive(Debug, Clone, Copy, PartialEq, Eq, Structural)]
pub enum CheckStatus {
    Pass,
    Warning,
    Critical,
    Error,
}

/// Severity of one finding; independent of any check's status.
#[derive(Debug, Clone, Copy, PartialEq, Eq, Structural)]
pub enum IssueSeverity {
    Info,
    Warning,
    Critical,
}

/// Overall health tier for a score in [0, 100] points.
#[derive(Debug, Clone, Copy, PartialEq, Eq, Structural)]
pub enum HealthStatus {
    Excellent,
    Good,
    Fair,
    Poor,
    Critical,
}

impl IssueSeverity {
    /// Rank used wherever severities are ordered: Info < Warning < Critical.
    pub fn rank(&self) -> (r: u8)
        ensures
            r == self.spec_rank(),
    {
        match self {
            IssueSeverity::Info => 0,
            IssueSeverity::Warning => 1,
            IssueSeverity::Critical => 2,
        }
    }

    pub open spec fn spec_rank(self) -> u8 {
        match self {
            IssueSeverity::Info => 0,
            IssueSeverity::Warning => 1,
            IssueSeverity::Critical => 2,
        }
    }
}

/// One concrete finding, tied to a rule and optionally to a resource.
#[derive(Debug)]
pub struct Issue {
    pub severity: IssueSeverity,
    pub category: String,
    pub description: String,
    pub resource: Option<String>,
    pub recommendation: String,
    /// Optional stable rule code for grouping and documentation reference.
    pub rule_id: Option<String>,
}

/// Mathematical model of an `Issue`: every text field as a character
/// sequence.
pub struct IssueView {
    pub severity: IssueSeverity,
    pub category: Seq<char>,
    pub description: Seq<char>,
    pub resource: Option<Seq<char>>,
    pub recommendation: Seq<char>,
    pub rule_id: Option<Seq<char>>,
}

impl View for Issue {
    type V = IssueView;

    open spec fn view(&self) -> IssueView {
        IssueView {
            severity: self.severity,
            category: self.category@,
            description: self.description@,
            resource: self.resource.deep_view(),
            recommendation: self.recommendation@,
            rule_id: self.rule_id.deep_view(),
        }
    }
}

impl DeepView for Issue {
    type V = IssueView;

    open spec fn deep_view(&self) -> IssueView {
        self.view()
    }
}

impl Issue {
    /// Field-by-field copy; `Clone` written out so that the copy is known to
    /// keep the fields.
    pub fn duplicate(&self) -> (r: Issue)
        ensures
            r@ == self@,
    {
        Issue {
            severity: self.severity,
            category: self.category.clone(),
            description: self.description.clone(),
            resource: clone_opt_string(&self.resource),
            recommendation: self.recommendation.clone(),
            rule_id: clone_opt_string(&self.rule_id),
        }
    }
}

/// Copies an optional string, keeping its characters.
pub fn clone_opt_string(s: &Option<String>) -> (r: Option<String>)
    ensures
        r.deep_view() == s.deep_view(),
{
    match s {
        Some(v) => Some(v.clone()),
        None => None,
    }
}

/// One scoreable sub-audit: name, outcome, and a score out of `max_score`
/// (both in thousandths of a point).
#[derive(Debug)]
pub struct CheckResult {
    pub name: String,
    pub description: String,
    pub status: CheckStatus,
    /// Score in thousandths of a point.
    pub score: u64,
    /// Maximum score in thousandths of a point; 100_000 for every current
    /// check.
    pub max_score: u64,
    pub details: Option<String>,
    pub recommendations: Vec<String>,
}

pub struct CheckResultView {
    pub name: Seq<char>,
    pub description: Seq<char>,
    pub status: CheckStatus,
    pub score: u64,
    pub max_score: u64,
    pub details: Option<Seq<char>>,
    pub recommendations: Seq<Seq<char>>,
}

impl View for CheckResult {
    type V = CheckResultView;

    open spec fn view(&self) -> CheckResultView {
        CheckResultView {
            name: self.name@,
            description: self.description@,
            status: self.status,
            score: self.score,
            max_score: self.max_score,
            details: self.details.deep_view(),
            recommendations: self.recommendations.deep_view(),
        }
    }
}

impl DeepView for CheckResult {
    type V = CheckResultView;

    open spec fn deep_view(&self) -> CheckResultView {
        self.view()
    }
}

/// Counts of checks by status plus the finding list for one audit unit's
/// run.
#[derive(Debug)]
pub struct InspectionSummary {
    pub total_checks: u32,
    pub passed_checks: u32,
    pub warning_checks: u32,
    pub critical_checks: u32,
    pub error_checks: u32,
    pub issues: Vec<Issue>,
}

pub struct InspectionSummaryView {
    pub total_checks: u32,
    pub passed_checks: u32,
    pub warning_checks: u32,
    pub critical_checks: u32,
    pub error_checks: u32,
    pub issues: Seq<IssueView>,
}

impl View for InspectionSummary {
    type V = InspectionSummaryView;

    open spec fn view(&self) -> InspectionSummaryView {
        InspectionSummaryView {
            total_checks: self.total_checks,
            passed_checks: self.passed_checks,
            warning_checks: self.warning_checks,
            critical_checks: self.critical_checks,
            error_checks: self.error_checks,
            issues: self.issues.deep_view(),
        }
    }
}

impl DeepView for InspectionSummary {
    type V = InspectionSummaryView;

    open spec fn deep_view(&self) -> InspectionSummaryView {
        self.view()
    }
}

/// One row for the namespace summary table.
#[derive(Debug, Clone)]
pub struct NamespaceSummaryRow {
    pub name: String,
    pub pod_count: u32,
    pub deployment_count: u32,
    pub has_network_policy: bool,
    pub has_resource_quota: bool,
    pub has_limit_range: bool,
}

pub struct NamespaceSummaryRowView {
    pub name: Seq<char>,
    pub pod_count: u32,
    pub deployment_count: u32,
    pub has_network_policy: bool,
    pub has_resource_quota: bool,
    pub has_limit_range: bool,
}

impl View for NamespaceSummaryRow {
    type V = NamespaceSummaryRowView;

    open spec fn view(&self) -> NamespaceSummaryRowView {
        NamespaceSummaryRowView {
            name: self.name@,
            pod_count: self.pod_count,
            deployment_count: self.deployment_count,
            has_network_policy: self.has_network_policy,
            has_resource_quota: self.has_resource_quota,
            has_limit_range: self.has_limit_range,
        }
    }
}

impl DeepView for NamespaceSummaryRow {
    type V = NamespaceSummaryRowView;

    open spec fn deep_view(&self) -> NamespaceSummaryRowView {
        self.view()
    }
}

/// One row for the pod container state table.
#[derive(Debug, Clone)]
pub struct PodContainerStateRow {
    pub pod_ref: String,
    pub container_name: String,
    pub state_kind: String,
    pub reason: String,
    pub detail: String,
}

pub struct PodContainerStateRowView {
    pub pod_ref: Seq<char>,
    pub container_name: Seq<char>,
    pub state_kind: Seq<char>,
    pub reason: Seq<char>,
    pub detail: Seq<char>,
}

impl View for PodContainerStateRow {
    type V = PodContainerStateRowView;

    open spec fn view(&self) -> PodContainerStateRowView {
        PodContainerStateRowView {
            pod_ref: self.pod_ref@,
            container_name: self.container_name@,
            state_kind: self.state_kind@,
            reason: self.reason@,
            detail: self.detail@,
        }
    }
}

impl DeepView for PodContainerStateRow {
    type V = PodContainerStateRowView;

    open spec fn deep_view(&self) -> PodContainerStateRowView {
        self.view()
    }
}

/// One row for the TLS certificate expiry table.
#[derive(Debug, Clone)]
pub struct CertificateExpiryRow {
    pub secret_namespace: String,
    pub secret_name: String,
    pub subject_or_cn: String,
    pub expiry_utc: String,
    pub days_until_expiry: i64,
}

pub struct CertificateExpiryRowView {
    pub secret_namespace: Seq<char>,
    pub secret_name: Seq<char>,
    pub subject_or_cn: Seq<char>,
    pub expiry_utc: Seq<char>,
    pub days_until_expiry: i64,
}

impl View for CertificateExpiryRow {
    type V = CertificateExpiryRowView;

    open spec fn view(&self) -> CertificateExpiryRowView {
        CertificateExpiryRowView {
            secret_namespace: self.secret_namespace@,
            secret_name: self.secret_name@,
            subject_or_cn: self.subject_or_cn@,
            expiry_utc: self.expiry_utc@,
            days_until_expiry: self.days_until_expiry,
        }
    }
}

impl DeepView for CertificateExpiryRow {
    type V = CertificateExpiryRowView;

    open spec fn deep_view(&self) -> CertificateExpiryRowView {
        self.view()
    }
}

/// One audit unit's result for one run.
#[derive(Debug)]
pub struct InspectionResult {
    /// Domain name, e.g. "Node Health".
    pub inspection_type: String,
    /// Unix epoch seconds of the run.
    pub timestamp: i64,
    /// Unweighted mean of the checks' scores, in thousandths of a point.
    pub overall_score: u64,
    pub checks: Vec<CheckResult>,
    pub summary: InspectionSummary,
    /// TLS certificate expiry rows (certificates domain only).
    pub certificate_expiries: Option<Vec<CertificateExpiryRow>>,
    /// Pod or container abnormal state rows (pod domain only).
    pub pod_container_states: Option<Vec<PodContainerStateRow>>,
    /// Namespace summary rows (namespace domain only).
    pub namespace_summary_rows: Option<Vec<NamespaceSummaryRow>>,
}

pub struct InspectionResultView {
    pub inspection_type: Seq<char>,
    pub timestamp: i64,
    pub overall_score: u64,
    pub checks: Seq<CheckResultView>,
    pub summary: InspectionSummaryView,
}

impl View for InspectionResult {
    type V = InspectionResultView;

    open spec fn view(&self) -> InspectionResultView {
        InspectionResultView {
            inspection_type: self.inspection_type@,
            timestamp: self.timestamp,
            overall_score: self.overall_score,
            checks: self.checks.deep_view(),
            summary: self.summary.deep_view(),
        }
    }
}

impl DeepView for InspectionResult {
    type V = InspectionResultView;

    open spec fn deep_view(&self) -> InspectionResultView {
        self.view()
    }
}

/// Derived cross-unit summary: health tier, deduplicated top findings and
/// recommendations, and the per-domain score map as a sequence of
/// (domain, score) pairs.
#[derive(Debug)]
pub struct ExecutiveSummary {
    pub health_status: HealthStatus,
    pub key_findings: Vec<String>,
    pub priority_recommendations: Vec<String>,
    pub score_breakdown: Vec<(String, u64)>,
}

/// One row for the recent cluster events table.
#[derive(Debug, Clone)]
pub struct EventRow {
    pub namespace: String,
    pub object_ref: String,
    pub event_type: String,
    pub reason: String,
    pub message: String,
    pub last_seen: String,
}

/// One row for the node conditions table.
#[derive(Debug, Clone)]
pub struct NodeConditionsRow {
    pub node_name: String,
    pub ready: String,
    pub memory_pressure: String,
    pub disk_pressure: String,
    pub pid_pressure: String,
}

/// One row for the node list table.
#[derive(Debug, Clone)]
pub struct NodeRow {
    pub name: String,
    pub operating_system: String,
    pub architecture: String,
    pub kubelet_version: String,
    pub ready: bool,
    pub pod_count: u32,
    pub node_address: Option<String>,
    pub os_image: Option<String>,
    pub kernel_version: Option<String>,
    pub container_runtime_version: Option<String>,
}

/// Pod phase counts for the cluster overview.
#[derive(Debug, Clone)]
pub struct PodPhaseBreakdown {
    pub running: u32,
    pub pending: u32,
    pub succeeded: u32,
    pub failed: u32,
    pub unknown: u32,
}

/// Workload controller counts and ready counts.
#[derive(Debug, Clone)]
pub struct WorkloadSummary {
    pub deployments_total: u32,
    pub deployments_ready: u32,
    pub statefulsets_total: u32,
    pub statefulsets_ready: u32,
    pub daemonsets_total: u32,
    pub daemonsets_ready: u32,
}

/// Storage object counts.
#[derive(Debug, Clone)]
pub struct StorageSummary {
    pub pv_total: u32,
    pub pvc_total: u32,
    pub pvc_bound: u32,
    pub storage_class_count: u32,
    pub has_default_storage_class: bool,
}

/// One row for the container resource usage table.
#[derive(Debug, Clone)]
pub struct ContainerUsageRow {
    pub namespace: String,
    pub pod_name: String,
    pub container_name: String,
    pub cpu_used_m: u64,
    pub cpu_request_m: u64,
    pub cpu_limit_m: u64,
    pub mem_used_mib: u64,
    pub mem_request_mib: u64,
    pub mem_limit_mib: u64,
    /// Why this row is notable: "high_usage", "low_usage" or
    /// "no_request_no_limit".
    pub notable_reason: String,
}

/// Per-node resource usage; percentages in thousandths of a percent point.
#[derive(Debug, Clone)]
pub struct NodeUsageRow {
    pub node_name: String,
    /// Allocatable CPU in millicores.
    pub allocatable_cpu_millicores: Option<u64>,
    pub cpu_usage: String,
    /// CPU usage percentage in thousandths.
    pub cpu_pct_milli: Option<u64>,
    /// Allocatable memory in MiB.
    pub allocatable_memory_mib: Option<u64>,
    pub memory_usage: String,
    /// Memory usage percentage in thousandths.
    pub memory_pct_milli: Option<u64>,
    /// Allocatable ephemeral storage in MiB.
    pub disk_allocatable_mib: Option<u64>,
    /// Disk usage in MiB.
    pub disk_usage_mib: Option<u64>,
    /// Disk usage percentage in thousandths.
    pub disk_pct_milli: Option<u64>,
}

/// Aggregate node capacity and allocatable, as display strings.
#[derive(Debug, Clone)]
pub struct NodeResourceSummary {
    pub capacity_cpu: String,
    pub capacity_memory: String,
    pub allocatable_cpu: String,
    pub allocatable_memory: String,
    /// Total allocatable ephemeral storage in MiB, summed across nodes.
    pub allocatable_disk_mib: Option<u64>,
}

/// Cluster-level overview for the report header.
#[derive(Debug)]
pub struct ClusterOverview {
    pub cluster_version: Option<String>,
    pub node_count: u32,
    pub ready_node_count: u32,
    pub pod_count: Option<u32>,
    pub node_summary: Option<String>,
    pub node_resources: Option<NodeResourceSummary>,
    pub node_list: Option<Vec<NodeRow>>,
    pub metrics_available: Option<bool>,
    pub node_usage: Option<Vec<NodeUsageRow>>,
    /// Total CPU usage in millicores, summed across nodes.
    pub total_usage_cpu_millicores: Option<u64>,
    /// Total memory usage in MiB, summed across nodes.
    pub total_usage_memory_mib: Option<u64>,
    pub node_conditions: Option<Vec<NodeConditionsRow>>,
    pub pod_phase_breakdown: Option<PodPhaseBreakdown>,
    pub namespace_count: Option<u32>,
    pub workload_summary: Option<WorkloadSummary>,
    pub storage_summary: Option<StorageSummary>,
    pub cluster_age_days: Option<u64>,
    pub container_usage_notable: Option<Vec<ContainerUsageRow>>,
}

/// The whole audit of one run: every unit's result, the derived summary,
/// and the optional overview and host-snapshot side data. An immutable
/// snapshot once built; the report layer never re-triggers collection.
#[derive(Debug)]
pub struct ClusterReport {
    pub cluster_name: String,
    pub report_id: String,
    /// Unix epoch seconds of the run.
    pub timestamp: i64,
    /// Headline score in thousandths of a point: the unweighted mean of
    /// the units' scores as first assembled; recomputed as the weighted
    /// mean when the report is rebuilt under a filter.
    pub overall_score: u64,
    pub inspections: Vec<InspectionResult>,
    pub executive_summary: ExecutiveSummary,
    pub cluster_overview: Option<ClusterOverview>,
    pub node_inspection_results: Option<Vec<crate::node_types::NodeInspectionResult>>,
    /// Cluster host local time for the report header.
    pub display_timestamp: Option<String>,
    /// Timestamp for file names, in cluster local time.
    pub display_timestamp_filename: Option<String>,
    pub recent_events: Option<Vec<EventRow>>,
}

} // verus!
