//! Cross-domain scoring: the weighted overall score, the health tier, the
//! per-domain breakdown and priority recommendations.
//!
//! Scores are in thousandths of a point; the static per-domain weight table
//! is in tenths, so a weight of 25 stands for 2.5.

use vstd::prelude::*;

use crate::text::str_eq;
use crate::types::{
    CheckResult, CheckResultView, CheckStatus, HealthStatus, InspectionResult,
    InspectionResultView, Issue, IssueSeverity, IssueView, MAX_SCORE,
};

verus! {

pub struct ScoringEngine;

/// Weight of one audit domain, in tenths; 10 (that is, 1.0) for a domain
/// not in the table.
pub open spec fn spec_inspection_weight(t: Seq<char>) -> int {
    if t == "Node Health"@ {
        20
    } else if t == "Pod Status"@ {
        25
    } else if t == "Security Configuration"@ {
        22
    } else if t == "Resource Usage"@ {
        18
    } else if t == "Network Connectivity"@ {
        18
    } else if t == "Storage"@ {
        15
    } else if t == "Control Plane"@ {
        25
    } else if t == "Autoscaling"@ {
        18
    } else if t == "Batch Workloads"@ {
        12
    } else if t == "Policy & Governance"@ {
        16
    } else if t == "Observability"@ {
        14
    } else if t == "Upgrade Readiness"@ {
        17
    } else {
        10
    }
}

fn inspection_weight(t: &str) -> (w: u64)
    ensures
        w == spec_inspection_weight(t@),
        10 <= w <= 25,
{
    if str_eq(t, "Node Health") {
        20
    } else if str_eq(t, "Pod Status") {
        25
    } else if str_eq(t, "Security Configuration") {
        22
    } else if str_eq(t, "Resource Usage") {
        18
    } else if str_eq(t, "Network Connectivity") {
        18
    } else if str_eq(t, "Storage") {
        15
    } else if str_eq(t, "Control Plane") {
        25
    } else if str_eq(t, "Autoscaling") {
        18
    } else if str_eq(t, "Batch Workloads") {
        12
    } else if str_eq(t, "Policy & Governance") {
        16
    } else if str_eq(t, "Observability") {
        14
    } else if str_eq(t, "Upgrade Readiness") {
        17
    } else {
        10
    }
}

/// Weight of one check within a unit, in tenths; 10 for a check not in the
/// table.
pub open spec fn spec_check_weight(name: Seq<char>) -> int {
    if name == "Node Readiness"@ {
        30
    } else if name == "Node Pressure"@ {
        20
    } else if name == "Pod Health"@ {
        30
    } else if name == "Pod Stability"@ {
        20
    } else if name == "Resource Limits"@ {
        15
    } else if name == "Resource Requests"@ {
        20
    } else if name == "Complete Resource Configuration"@ {
        15
    } else if name == "DNS Configuration"@ {
        30
    } else if name == "Service Configuration"@ {
        20
    } else if name == "Network Policy Coverage"@ {
        15
    } else if name == "Persistent Volume Health"@ {
        25
    } else if name == "PVC Binding"@ {
        20
    } else if name == "Storage Class Configuration"@ {
        15
    } else if name == "RBAC Configuration"@ {
        30
    } else if name == "Pod Security Standards"@ {
        25
    } else if name == "Service Account Usage"@ {
        15
    } else {
        10
    }
}

fn check_weight(name: &str) -> (w: u64)
    ensures
        w == spec_check_weight(name@),
        10 <= w <= 30,
{
    if str_eq(name, "Node Readiness") {
        30
    } else if str_eq(name, "Node Pressure") {
        20
    } else if str_eq(name, "Pod Health") {
        30
    } else if str_eq(name, "Pod Stability") {
        20
    } else if str_eq(name, "Resource Limits") {
        15
    } else if str_eq(name, "Resource Requests") {
        20
    } else if str_eq(name, "Complete Resource Configuration") {
        15
    } else if str_eq(name, "DNS Configuration") {
        30
    } else if str_eq(name, "Service Configuration") {
        20
    } else if str_eq(name, "Network Policy Coverage") {
        15
    } else if str_eq(name, "Persistent Volume Health") {
        25
    } else if str_eq(name, "PVC Binding") {
        20
    } else if str_eq(name, "Storage Class Configuration") {
        15
    } else if str_eq(name, "RBAC Configuration") {
        30
    } else if str_eq(name, "Pod Security Standards") {
        25
    } else if str_eq(name, "Service Account Usage") {
        15
    } else {
        10
    }
}

/// Sum of score times weight over the results.
pub open spec fn spec_sum_weighted(rs: Seq<InspectionResultView>) -> int
    decreases rs.len(),
{
    if rs.len() == 0 {
        0
    } else {
        spec_sum_weighted(rs.drop_last()) + rs.last().overall_score * spec_inspection_weight(
            rs.last().inspection_type,
        )
    }
}

/// Sum of the weights of the results' domains.
pub open spec fn spec_sum_weights(rs: Seq<InspectionResultView>) -> int
    decreases rs.len(),
{
    if rs.len() == 0 {
        0
    } else {
        spec_sum_weights(rs.drop_last()) + spec_inspection_weight(rs.last().inspection_type)
    }
}

/// The weighted overall score: sum(score_i * weight_i) / sum(weight_i),
/// rounded down; 0 for an empty result list.
pub open spec fn spec_weighted_score(rs: Seq<InspectionResultView>) -> int {
    if rs.len() == 0 {
        0
    } else if spec_sum_weights(rs) > 0 {
        spec_sum_weighted(rs) / spec_sum_weights(rs)
    } else {
        0
    }
}

proof fn lemma_weight_sums_bounds(rs: Seq<InspectionResultView>)
    requires
        forall|i: int| 0 <= i < rs.len() ==> #[trigger] rs[i].overall_score <= MAX_SCORE,
    ensures
        10 * rs.len() <= spec_sum_weights(rs) <= 25 * rs.len(),
        0 <= spec_sum_weighted(rs) <= (MAX_SCORE as int) * spec_sum_weights(rs),
    decreases rs.len(),
{
    if rs.len() > 0 {
        lemma_weight_sums_bounds(rs.drop_last());
        let s = rs.last().overall_score as int;
        let w = spec_inspection_weight(rs.last().inspection_type);
        assert(s * w <= (MAX_SCORE as int) * w) by (nonlinear_arith)
            requires
                0 <= s <= MAX_SCORE as int,
                0 <= w,
        ;
        assert(0 <= s * w) by (nonlinear_arith)
            requires
                0 <= s,
                0 <= w,
        ;
    }
}

/// The health tier of a score in thousandths of a point: at least 90
/// Excellent, at least 80 Good, at least 70 Fair, at least 60 Poor, below
/// that Critical.
pub open spec fn spec_health_status(score: int) -> HealthStatus {
    if score >= 90_000 {
        HealthStatus::Excellent
    } else if score >= 80_000 {
        HealthStatus::Good
    } else if score >= 70_000 {
        HealthStatus::Fair
    } else if score >= 60_000 {
        HealthStatus::Poor
    } else {
        HealthStatus::Critical
    }
}

/// Rank of a health tier, best highest.
pub open spec fn spec_health_rank(h: HealthStatus) -> int {
    match h {
        HealthStatus::Excellent => 4,
        HealthStatus::Good => 3,
        HealthStatus::Fair => 2,
        HealthStatus::Poor => 1,
        HealthStatus::Critical => 0,
    }
}

/// The health tier is total over [0, 100] and its buckets leave no gap:
/// every score falls in exactly the bucket its tier names.
pub proof fn lemma_health_tier_partitions(score: int)
    requires
        0 <= score <= 100_000,
    ensures
        (spec_health_status(score) == HealthStatus::Excellent <==> 90_000 <= score <= 100_000),
        (spec_health_status(score) == HealthStatus::Good <==> 80_000 <= score < 90_000),
        (spec_health_status(score) == HealthStatus::Fair <==> 70_000 <= score < 80_000),
        (spec_health_status(score) == HealthStatus::Poor <==> 60_000 <= score < 70_000),
        (spec_health_status(score) == HealthStatus::Critical <==> 0 <= score < 60_000),
{
}

/// The health tier is monotonic: a higher score never gets a lower tier.
pub proof fn lemma_health_tier_monotone(s1: int, s2: int)
    requires
        s1 <= s2,
    ensures
        spec_health_rank(spec_health_status(s1)) <= spec_health_rank(spec_health_status(s2)),
{
}

/// The weighted overall score of valid results stays within [0, 100]
/// points and is exactly the weighted mean, rounded down.
pub proof fn lemma_weighted_score_in_range(rs: Seq<InspectionResultView>)
    requires
        forall|i: int| 0 <= i < rs.len() ==> #[trigger] rs[i].overall_score <= MAX_SCORE,
    ensures
        0 <= spec_weighted_score(rs) <= MAX_SCORE,
        rs.len() > 0 ==> spec_weighted_score(rs) == spec_sum_weighted(rs) / spec_sum_weights(rs),
{
    lemma_weight_sums_bounds(rs);
    if rs.len() > 0 {
        let sw = spec_sum_weights(rs);
        let swd = spec_sum_weighted(rs);
        assert(sw >= 10 * rs.len());
        assert(10 * rs.len() >= 10) by (nonlinear_arith)
            requires
                rs.len() >= 1,
        ;
        assert(0 <= swd / sw <= MAX_SCORE as int) by (nonlinear_arith)
            requires
                sw > 0,
                0 <= swd <= (MAX_SCORE as int) * sw,
        ;
    }
}

/// Normalized, severity-penalized score of one check: (score / max) * 100
/// points, times the check's weight (tenths) and the status multiplier
/// (tenths: Pass 10, Warning 9, Critical 7, Error 5).
pub open spec fn spec_status_multiplier(s: CheckStatus) -> int {
    match s {
        CheckStatus::Pass => 10,
        CheckStatus::Warning => 9,
        CheckStatus::Critical => 7,
        CheckStatus::Error => 5,
    }
}

pub open spec fn spec_normalized_score(c: CheckResultView) -> int {
    c.score * 100_000 / c.max_score as int
}

pub open spec fn spec_sum_check_weighted(cs: Seq<CheckResultView>) -> int
    decreases cs.len(),
{
    if cs.len() == 0 {
        0
    } else {
        spec_sum_check_weighted(cs.drop_last()) + spec_normalized_score(cs.last())
            * spec_check_weight(cs.last().name) * spec_status_multiplier(cs.last().status)
    }
}

pub open spec fn spec_sum_check_weights(cs: Seq<CheckResultView>) -> int
    decreases cs.len(),
{
    if cs.len() == 0 {
        0
    } else {
        spec_sum_check_weights(cs.drop_last()) + spec_check_weight(cs.last().name)
    }
}

/// Weighted, severity-penalized mean of a unit's checks: the multipliers
/// are in tenths, so the weight sum is scaled by 10 in the divisor.
pub open spec fn spec_inspection_score(cs: Seq<CheckResultView>) -> int {
    if cs.len() == 0 {
        0
    } else if spec_sum_check_weights(cs) > 0 {
        spec_sum_check_weighted(cs) / (spec_sum_check_weights(cs) * 10)
    } else {
        0
    }
}

/// Potential improvement per finding, in thousandths of a point.
pub open spec fn spec_improvement_of(sev: IssueSeverity) -> int {
    match sev {
        IssueSeverity::Critical => 15_000,
        IssueSeverity::Warning => 8_000,
        IssueSeverity::Info => 2_000,
    }
}

pub open spec fn spec_total_improvement(issues: Seq<IssueView>) -> int
    decreases issues.len(),
{
    if issues.len() == 0 {
        0
    } else {
        spec_total_improvement(issues.drop_last()) + spec_improvement_of(issues.last().severity)
    }
}

proof fn lemma_total_improvement_bounds(issues: Seq<IssueView>)
    ensures
        0 <= spec_total_improvement(issues) <= 15_000 * issues.len(),
    decreases issues.len(),
{
    if issues.len() > 0 {
        lemma_total_improvement_bounds(issues.drop_last());
    }
}

/// One deduplicated, ranked recommendation row.
#[derive(Debug)]
pub struct PriorityRecommendation {
    pub category: String,
    pub description: String,
    pub recommendation: String,
    pub severity: IssueSeverity,
    /// Impact in thousandths of a point.
    pub impact_score: u64,
}

pub struct PriorityRecommendationView {
    pub category: Seq<char>,
    pub description: Seq<char>,
    pub recommendation: Seq<char>,
    pub severity: IssueSeverity,
    pub impact_score: u64,
}

impl View for PriorityRecommendation {
    type V = PriorityRecommendationView;

    open spec fn view(&self) -> PriorityRecommendationView {
        PriorityRecommendationView {
            category: self.category@,
            description: self.description@,
            recommendation: self.recommendation@,
            severity: self.severity,
            impact_score: self.impact_score,
        }
    }
}

impl DeepView for PriorityRecommendation {
    type V = PriorityRecommendationView;

    open spec fn deep_view(&self) -> PriorityRecommendationView {
        self.view()
    }
}

/// The recommendation row an issue yields.
pub open spec fn spec_recommendation_of(i: IssueView) -> PriorityRecommendationView {
    PriorityRecommendationView {
        category: i.category,
        description: i.description,
        recommendation: i.recommendation,
        severity: i.severity,
        impact_score: spec_improvement_of(i.severity) as u64,
    }
}

/// Recommendation rows of the issues in `issues` whose severity is `sev`,
/// in order of appearance.
pub open spec fn spec_recs_with_severity(issues: Seq<IssueView>, sev: IssueSeverity) -> Seq<
    PriorityRecommendationView,
>
    decreases issues.len(),
{
    if issues.len() == 0 {
        Seq::empty()
    } else {
        spec_recs_with_severity(issues.drop_last(), sev) + if issues.last().severity == sev {
            seq![spec_recommendation_of(issues.last())]
        } else {
            Seq::empty()
        }
    }
}

/// All issues of all results, in order.
pub open spec fn spec_all_issues(rs: Seq<InspectionResultView>) -> Seq<IssueView>
    decreases rs.len(),
{
    if rs.len() == 0 {
        Seq::empty()
    } else {
        spec_all_issues(rs.drop_last()) + rs.last().summary.issues
    }
}

/// Per-domain breakdown row.
#[derive(Debug, Clone, Copy, PartialEq, Eq, Structural)]
pub struct ScoreDetails {
    /// The domain's own overall score, in thousandths of a point.
    pub score: u64,
    /// The domain's weight, in tenths.
    pub weight: u64,
    pub status: HealthStatus,
    pub check_count: usize,
    pub critical_issues: u32,
    pub warning_issues: u32,
}

impl View for ScoreDetails {
    type V = ScoreDetails;

    open spec fn view(&self) -> ScoreDetails {
        *self
    }
}

impl DeepView for ScoreDetails {
    type V = ScoreDetails;

    open spec fn deep_view(&self) -> ScoreDetails {
        *self
    }
}

pub open spec fn spec_score_details_of(r: InspectionResultView) -> ScoreDetails {
    ScoreDetails {
        score: r.overall_score,
        weight: spec_inspection_weight(r.inspection_type) as u64,
        status: spec_health_status(r.overall_score as int),
        check_count: r.checks.len() as usize,
        critical_issues: r.summary.critical_checks,
        warning_issues: r.summary.warning_checks,
    }
}

impl ScoringEngine {
    pub fn new() -> Self {
        Self
    }

    /// The weighted overall score of the results, in thousandths of a
    /// point: sum(score_i * weight_i) / sum(weight_i), rounded down, with
    /// the recorded per-domain weight table; 0 for an empty list.
    pub fn calculate_weighted_score(&self, inspections: &Vec<InspectionResult>) -> (r: u64)
        requires
            forall|i: int|
                0 <= i < inspections@.len() ==> #[trigger] inspections.deep_view()[i].overall_score
                    <= MAX_SCORE,
        ensures
            r == spec_weighted_score(inspections.deep_view()),
            r <= MAX_SCORE,
    {
        let ghost all = inspections.deep_view();
        if inspections.len() == 0 {
            return 0;
        }
        let mut total_weighted: u128 = 0;
        let mut total_weight: u128 = 0;
        let mut i: usize = 0;
        while i < inspections.len()
            invariant
                i <= inspections@.len(),
                all == inspections.deep_view(),
                all.len() == inspections@.len(),
                forall|j: int| 0 <= j < all.len() ==> #[trigger] all[j].overall_score <= MAX_SCORE,
                total_weighted == spec_sum_weighted(all.take(i as int)),
                total_weight == spec_sum_weights(all.take(i as int)),
            decreases inspections@.len() - i,
        {
            proof {
                assert(forall|j: int|
                    0 <= j < i ==> #[trigger] all.take(i as int)[j].overall_score <= MAX_SCORE);
                lemma_weight_sums_bounds(all.take(i as int));
                assert(all.take(i + 1int).drop_last() == all.take(i as int));
                assert(all.take(i + 1int).last() == all[i as int]);
                assert(25 * i <= 25 * (usize::MAX as int)) by (nonlinear_arith)
                    requires
                        0 <= i <= usize::MAX as int,
                ;
                assert((MAX_SCORE as int) * spec_sum_weights(all.take(i as int)) <= (
                MAX_SCORE as int) * (25 * (usize::MAX as int))) by (nonlinear_arith)
                    requires
                        0 <= spec_sum_weights(all.take(i as int)) <= 25 * (usize::MAX as int),
                ;
                assert(inspections@[i as int]@ == all[i as int]);
            }
            let w = inspection_weight(inspections[i].inspection_type.as_str());
            let s = inspections[i].overall_score;
            proof {
                assert(s == all[i as int].overall_score);
                assert(s <= MAX_SCORE);
                assert((s as int) * (w as int) <= 100_000int * 25) by (nonlinear_arith)
                    requires
                        0 <= s <= 100_000,
                        0 <= w <= 25,
                ;
                assert(0 <= (s as int) * (w as int)) by (nonlinear_arith)
                    requires
                        0 <= s,
                        0 <= w,
                ;
            }
            total_weighted = total_weighted + (s as u128) * (w as u128);
            total_weight = total_weight + (w as u128);
            i = i + 1;
        }
        proof {
            assert(all.take(inspections@.len() as int) == all);
            lemma_weighted_score_in_range(all);
        }
        if total_weight > 0 {
            (total_weighted / total_weight) as u64
        } else {
            0
        }
    }

    /// The health tier of a score, under the fixed bucket thresholds.
    pub fn get_health_status(&self, score: u64) -> (r: HealthStatus)
        ensures
            r == spec_health_status(score as int),
    {
        if score >= 90_000 {
            HealthStatus::Excellent
        } else if score >= 80_000 {
            HealthStatus::Good
        } else if score >= 70_000 {
            HealthStatus::Fair
        } else if score >= 60_000 {
            HealthStatus::Poor
        } else {
            HealthStatus::Critical
        }
    }

    /// Weighted, severity-penalized mean of one unit's checks, in
    /// thousandths of a point; 0 for an empty list.
    #[verifier::rlimit(50)]
    pub fn calculate_inspection_score(&self, checks: &Vec<CheckResult>) -> (r: u64)
        requires
            forall|i: int|
                0 <= i < checks@.len() ==> 0 < #[trigger] checks.deep_view()[i].max_score,
            forall|i: int|
                0 <= i < checks@.len() ==> #[trigger] checks.deep_view()[i].score
                    <= checks.deep_view()[i].max_score,
        ensures
            r == spec_inspection_score(checks.deep_view()),
            r <= MAX_SCORE,
    {
        let ghost all = checks.deep_view();
        if checks.len() == 0 {
            return 0;
        }
        let mut total_weighted: u128 = 0;
        let mut total_weight: u128 = 0;
        let mut i: usize = 0;
        while i < checks.len()
            invariant
                i <= checks@.len(),
                all == checks.deep_view(),
                all.len() == checks@.len(),
                forall|j: int| 0 <= j < all.len() ==> 0 < #[trigger] all[j].max_score,
                forall|j: int| 0 <= j < all.len() ==> #[trigger] all[j].score <= all[j].max_score,
                total_weighted == spec_sum_check_weighted(all.take(i as int)),
                total_weight == spec_sum_check_weights(all.take(i as int)),
                total_weighted <= i * 30_000_000int,
                total_weight <= i * 30int,
            decreases checks@.len() - i,
        {
            proof {
                assert(all.take(i + 1int).drop_last() == all.take(i as int));
                assert(all.take(i + 1int).last() == all[i as int]);
                assert(checks@[i as int]@ == all[i as int]);
            }
            let c = &checks[i];
            proof {
                assert(c.score == all[i as int].score);
                assert(c.max_score == all[i as int].max_score);
                assert(c.status == all[i as int].status);
                assert(c.name@ == all[i as int].name);
                assert(0 < c.max_score);
                assert(c.score <= c.max_score);
            }
            let w = check_weight(c.name.as_str());
            let m: u64 = match c.status {
                CheckStatus::Pass => 10,
                CheckStatus::Warning => 9,
                CheckStatus::Critical => 7,
                CheckStatus::Error => 5,
            };
            proof {
                let sc = c.score as int;
                let mx = c.max_score as int;
                assert(sc * 100_000 <= mx * 100_000) by (nonlinear_arith)
                    requires
                        sc <= mx,
                ;
                assert(0 <= sc * 100_000) by (nonlinear_arith)
                    requires
                        0 <= sc,
                ;
                assert(0 <= sc * 100_000 / mx <= 100_000) by (nonlinear_arith)
                    requires
                        0 < mx,
                        0 <= sc * 100_000 <= mx * 100_000,
                ;
            }
            let normalized: u128 = (c.score as u128) * 100_000 / (c.max_score as u128);
            proof {
                assert(normalized == spec_normalized_score(all[i as int]));
                assert(0 <= normalized <= 100_000);
                let nw = (normalized as int) * (w as int);
                assert(0 <= nw <= 100_000int * 30) by (nonlinear_arith)
                    requires
                        0 <= (normalized as int) <= 100_000,
                        0 <= (w as int) <= 30,
                        nw == (normalized as int) * (w as int),
                ;
                assert(0 <= nw * (m as int) <= 3_000_000int * 10) by (nonlinear_arith)
                    requires
                        0 <= nw <= 3_000_000,
                        0 <= (m as int) <= 10,
                ;
                assert(m == spec_status_multiplier(all[i as int].status));
                assert(i * 30_000_000int + 30_000_000int == (i + 1) * 30_000_000int)
                    by (nonlinear_arith);
                assert(i * 30int + 30int == (i + 1) * 30int) by (nonlinear_arith);
                assert(i * 30_000_000int <= (usize::MAX as int) * 30_000_000int)
                    by (nonlinear_arith)
                    requires
                        0 <= i <= usize::MAX as int,
                ;
                assert(i * 30int <= (usize::MAX as int) * 30int) by (nonlinear_arith)
                    requires
                        0 <= i <= usize::MAX as int,
                ;
            }
            total_weighted = total_weighted + normalized * (w as u128) * (m as u128);
            total_weight = total_weight + (w as u128);
            i = i + 1;
        }
        proof {
            assert(all.take(checks@.len() as int) == all);
            lemma_inspection_score_in_range(all);
        }
        if total_weight > 0 {
            proof {
                assert(total_weight * 10 <= (usize::MAX as int) * 30int * 10) by (nonlinear_arith)
                    requires
                        0 <= total_weight <= (usize::MAX as int) * 30int,
                ;
            }
            (total_weighted / (total_weight * 10)) as u64
        } else {
            0
        }
    }

    /// One breakdown row per distinct domain, first-seen order, the last
    /// result of a domain winning.
    pub fn generate_score_breakdown(&self, inspections: &Vec<InspectionResult>) -> (r: Vec<
        (String, ScoreDetails),
    >)
        ensures
            r.deep_view() == spec_score_breakdown(inspections.deep_view()),
    {
        let ghost all = inspections.deep_view();
        let mut r: Vec<(String, ScoreDetails)> = Vec::new();
        let mut i: usize = 0;
        while i < inspections.len()
            invariant
                i <= inspections@.len(),
                all == inspections.deep_view(),
                all.len() == inspections@.len(),
                r.deep_view() == spec_score_breakdown(all.take(i as int)),
            decreases inspections@.len() - i,
        {
            proof {
                assert(all.take(i + 1int).drop_last() == all.take(i as int));
                assert(all.take(i + 1int).last() == all[i as int]);
                assert(inspections@[i as int]@ == all[i as int]);
            }
            let ins = &inspections[i];
            let weight = inspection_weight(ins.inspection_type.as_str());
            let status = self.get_health_status(ins.overall_score);
            let details = ScoreDetails {
                score: ins.overall_score,
                weight,
                status,
                check_count: ins.checks.len(),
                critical_issues: ins.summary.critical_checks,
                warning_issues: ins.summary.warning_checks,
            };
            let ghost pre = r.deep_view();
            match find_domain_index(&r, &ins.inspection_type) {
                Some(idx) => {
                    let entry = r.remove(idx);
                    r.insert(idx, (entry.0, details));
                    proof {
                        assert(r.deep_view() =~~= pre.update(
                            idx as int,
                            (pre[idx as int].0, spec_score_details_of(all[i as int])),
                        ));
                    }
                },
                None => {
                    r.push((ins.inspection_type.clone(), details));
                    proof {
                        assert(r.deep_view() =~~= pre.push(
                            (all[i as int].inspection_type, spec_score_details_of(all[i as int])),
                        ));
                    }
                },
            }
            i = i + 1;
        }
        proof {
            assert(all.take(inspections@.len() as int) == all);
        }
        r
    }

    /// Current score plus the summed potential improvement of the findings,
    /// capped at 100 points.
    pub fn calculate_improvement_score(&self, current_score: u64, issues: &Vec<Issue>) -> (r: u64)
        requires
            current_score <= MAX_SCORE,
        ensures
            r == vstd::math::min(
                current_score as int + spec_total_improvement(issues.deep_view()),
                MAX_SCORE as int,
            ),
    {
        let ghost all = issues.deep_view();
        let mut total: u128 = current_score as u128;
        let mut i: usize = 0;
        while i < issues.len()
            invariant
                i <= issues@.len(),
                all == issues.deep_view(),
                all.len() == issues@.len(),
                total == current_score + spec_total_improvement(all.take(i as int)),
                total <= MAX_SCORE + i * 15_000int,
            decreases issues@.len() - i,
        {
            proof {
                assert(all.take(i + 1int).drop_last() == all.take(i as int));
                assert(all.take(i + 1int).last() == all[i as int]);
                assert(issues@[i as int]@ == all[i as int]);
                assert(i * 15_000int + 15_000int == (i + 1) * 15_000int) by (nonlinear_arith);
                assert(i * 15_000int <= (usize::MAX as int) * 15_000int) by (nonlinear_arith)
                    requires
                        0 <= i <= usize::MAX as int,
                ;
            }
            let add: u64 = match issues[i].severity {
                IssueSeverity::Critical => 15_000,
                IssueSeverity::Warning => 8_000,
                IssueSeverity::Info => 2_000,
            };
            total = total + add as u128;
            i = i + 1;
        }
        proof {
            assert(all.take(issues@.len() as int) == all);
        }
        if total >= MAX_SCORE as u128 {
            MAX_SCORE
        } else {
            total as u64
        }
    }

    /// Recommendation rows of all Critical findings in order, then all
    /// Warning findings in order, at most ten in all: what a stable sort of
    /// the impact scores, highest first, leaves.
    pub fn get_priority_recommendations(&self, inspections: &Vec<InspectionResult>) -> (r: Vec<
        PriorityRecommendation,
    >)
        ensures
            r.deep_view() == spec_truncated(
                spec_recs_with_severity(
                    spec_all_issues(inspections.deep_view()),
                    IssueSeverity::Critical,
                ) + spec_recs_with_severity(
                    spec_all_issues(inspections.deep_view()),
                    IssueSeverity::Warning,
                ),
                10,
            ),
    {
        let criticals = collect_recs_with_severity(inspections, IssueSeverity::Critical);
        let warnings = collect_recs_with_severity(inspections, IssueSeverity::Warning);
        let ghost spec_c = spec_recs_with_severity(
            spec_all_issues(inspections.deep_view()),
            IssueSeverity::Critical,
        );
        let ghost spec_w = spec_recs_with_severity(
            spec_all_issues(inspections.deep_view()),
            IssueSeverity::Warning,
        );
        let mut r = criticals;
        let mut warnings = warnings;
        let mut k: usize = 0;
        proof {
            assert(r.deep_view() + warnings.deep_view().take(0int) =~= spec_c);
        }
        while k < warnings.len()
            invariant
                k <= warnings@.len(),
                warnings.deep_view() == spec_w,
                warnings@.len() == spec_w.len(),
                r.deep_view() == spec_c + spec_w.take(k as int),
            decreases warnings@.len() - k,
        {
            let row = warnings[k].duplicate_rec();
            r.push(row);
            proof {
                assert(spec_c + spec_w.take(k + 1int) =~= (spec_c + spec_w.take(k as int)).push(
                    spec_w[k as int],
                ));
                assert(warnings@[k as int]@ == spec_w[k as int]);
            }
            k = k + 1;
        }
        proof {
            assert(spec_w.take(spec_w.len() as int) == spec_w);
            assert(r.deep_view() =~= (spec_c + spec_w).take(r@.len() as int));
        }
        while r.len() > 10
            invariant
                r@.len() <= spec_c.len() + spec_w.len(),
                r@.len() >= 10 || r@.len() == spec_c.len() + spec_w.len(),
                r.deep_view() == (spec_c + spec_w).take(r@.len() as int),
            decreases r@.len(),
        {
            proof {
                assert((spec_c + spec_w).take(r@.len() as int).drop_last() == (spec_c
                    + spec_w).take(r@.len() - 1int));
            }
            r.pop();
        }
        proof {
            assert(r.deep_view() =~= spec_truncated(spec_c + spec_w, 10));
        }
        r
    }
}

/// `s` cut to at most `n` entries.
pub open spec fn spec_truncated<A>(s: Seq<A>, n: int) -> Seq<A> {
    if s.len() <= n {
        s
    } else {
        s.take(n)
    }
}

proof fn lemma_inspection_score_in_range(cs: Seq<CheckResultView>)
    requires
        forall|i: int| 0 <= i < cs.len() ==> 0 < #[trigger] cs[i].max_score,
        forall|i: int| 0 <= i < cs.len() ==> #[trigger] cs[i].score <= cs[i].max_score,
    ensures
        0 <= spec_inspection_score(cs) <= MAX_SCORE,
        10 * cs.len() <= spec_sum_check_weights(cs) <= 30 * cs.len(),
        0 <= spec_sum_check_weighted(cs) <= (MAX_SCORE as int) * 10 * spec_sum_check_weights(cs),
    decreases cs.len(),
{
    if cs.len() == 0 {
    } else {
        lemma_inspection_score_in_range(cs.drop_last());
        let c = cs.last();
        let n = spec_normalized_score(c);
        let w = spec_check_weight(c.name);
        let m = spec_status_multiplier(c.status);
        assert(0 <= n <= 100_000) by (nonlinear_arith)
            requires
                0 < c.max_score,
                0 <= c.score <= c.max_score,
                n == (c.score as int) * 100_000 / (c.max_score as int),
        ;
        assert(0 <= n * w * m <= 100_000int * 10 * w) by (nonlinear_arith)
            requires
                0 <= n <= 100_000,
                10 <= w <= 30,
                5 <= m <= 10,
        ;
        assert((MAX_SCORE as int) * 10 * spec_sum_check_weights(cs.drop_last()) + 100_000int * 10
            * w == (MAX_SCORE as int) * 10 * spec_sum_check_weights(cs)) by (nonlinear_arith)
            requires
                spec_sum_check_weights(cs) == spec_sum_check_weights(cs.drop_last()) + w,
        ;
        let sw = spec_sum_check_weights(cs);
        let swd = spec_sum_check_weighted(cs);
        if cs.len() > 0 && sw > 0 {
            assert(0 <= swd / (sw * 10) <= MAX_SCORE as int) by (nonlinear_arith)
                requires
                    sw > 0,
                    0 <= swd <= (MAX_SCORE as int) * 10 * sw,
            ;
        }
    }
}

impl PriorityRecommendation {
    /// Field-by-field copy with the characters kept.
    pub fn duplicate_rec(&self) -> (r: PriorityRecommendation)
        ensures
            r@ == self@,
    {
        PriorityRecommendation {
            category: self.category.clone(),
            description: self.description.clone(),
            recommendation: self.recommendation.clone(),
            severity: self.severity,
            impact_score: self.impact_score,
        }
    }
}

/// Collects the recommendation rows of all issues with severity `sev`, in
/// order of appearance across all results.
fn collect_recs_with_severity(inspections: &Vec<InspectionResult>, sev: IssueSeverity) -> (r: Vec<
    PriorityRecommendation,
>)
    ensures
        r.deep_view() == spec_recs_with_severity(spec_all_issues(inspections.deep_view()), sev),
{
    let ghost all = inspections.deep_view();
    let mut r: Vec<PriorityRecommendation> = Vec::new();
    let mut i: usize = 0;
    proof {
        lemma_recs_empty(sev);
    }
    while i < inspections.len()
        invariant
            i <= inspections@.len(),
            all == inspections.deep_view(),
            all.len() == inspections@.len(),
            r.deep_view() == spec_recs_with_severity(spec_all_issues(all.take(i as int)), sev),
        decreases inspections@.len() - i,
    {
        proof {
            assert(all.take(i + 1int).drop_last() == all.take(i as int));
            assert(all.take(i + 1int).last() == all[i as int]);
            assert(inspections@[i as int]@ == all[i as int]);
        }
        let issues = &inspections[i].summary.issues;
        let ghost iss = all[i as int].summary.issues;
        let mut k: usize = 0;
        proof {
            assert(iss.take(0int) =~= Seq::<IssueView>::empty());
            lemma_recs_append(spec_all_issues(all.take(i as int)), iss.take(0int), sev);
            assert(spec_all_issues(all.take(i as int)) + iss.take(0int) =~= spec_all_issues(
                all.take(i as int),
            ));
        }
        while k < issues.len()
            invariant
                k <= issues@.len(),
                iss == issues.deep_view(),
                iss.len() == issues@.len(),
                r.deep_view() == spec_recs_with_severity(
                    spec_all_issues(all.take(i as int)) + iss.take(k as int),
                    sev,
                ),
            decreases issues@.len() - k,
        {
            proof {
                let base = spec_all_issues(all.take(i as int));
                assert((base + iss.take(k + 1int)).drop_last() == base + iss.take(k as int));
                assert((base + iss.take(k + 1int)).last() == iss[k as int]);
                assert(issues@[k as int]@ == iss[k as int]);
            }
            let issue = &issues[k];
            let matches_sev = match (issue.severity, sev) {
                (IssueSeverity::Critical, IssueSeverity::Critical) => true,
                (IssueSeverity::Warning, IssueSeverity::Warning) => true,
                (IssueSeverity::Info, IssueSeverity::Info) => true,
                _ => false,
            };
            if matches_sev {
                let add: u64 = match issue.severity {
                    IssueSeverity::Critical => 15_000,
                    IssueSeverity::Warning => 8_000,
                    IssueSeverity::Info => 2_000,
                };
                r.push(
                    PriorityRecommendation {
                        category: issue.category.clone(),
                        description: issue.description.clone(),
                        recommendation: issue.recommendation.clone(),
                        severity: issue.severity,
                        impact_score: add,
                    },
                );
            }
            k = k + 1;
        }
        proof {
            assert(iss.take(issues@.len() as int) == iss);
            assert(spec_all_issues(all.take(i + 1int)) == spec_all_issues(all.take(i as int))
                + iss);
        }
        i = i + 1;
    }
    proof {
        assert(all.take(inspections@.len() as int) == all);
    }
    r
}

/// Sum of the results' own overall scores.
pub open spec fn spec_sum_overall(rs: Seq<InspectionResultView>) -> int
    decreases rs.len(),
{
    if rs.len() == 0 {
        0
    } else {
        spec_sum_overall(rs.drop_last()) + rs.last().overall_score
    }
}

/// Unweighted mean of the results' overall scores, 0 for an empty list:
/// the report's headline score.
pub open spec fn spec_overall_score(rs: Seq<InspectionResultView>) -> int {
    if rs.len() == 0 {
        0
    } else {
        spec_sum_overall(rs) / rs.len() as int
    }
}

proof fn lemma_sum_overall_bound(rs: Seq<InspectionResultView>)
    requires
        forall|i: int| 0 <= i < rs.len() ==> #[trigger] rs[i].overall_score <= MAX_SCORE,
    ensures
        0 <= spec_sum_overall(rs) <= rs.len() * (MAX_SCORE as int),
    decreases rs.len(),
{
    if rs.len() > 0 {
        lemma_sum_overall_bound(rs.drop_last());
        assert((rs.len() - 1) * (MAX_SCORE as int) + (MAX_SCORE as int) == rs.len() * (
        MAX_SCORE as int)) by (nonlinear_arith);
    }
}

/// Unweighted mean of the results' overall scores.
pub fn calculate_overall_score(inspections: &Vec<InspectionResult>) -> (r: u64)
    requires
        forall|i: int|
            0 <= i < inspections@.len() ==> #[trigger] inspections.deep_view()[i].overall_score
                <= MAX_SCORE,
    ensures
        r == spec_overall_score(inspections.deep_view()),
        r <= MAX_SCORE,
{
    let ghost all = inspections.deep_view();
    if inspections.len() == 0 {
        return 0;
    }
    let mut sum: u128 = 0;
    let mut i: usize = 0;
    while i < inspections.len()
        invariant
            i <= inspections@.len(),
            all == inspections.deep_view(),
            all.len() == inspections@.len(),
            forall|j: int| 0 <= j < all.len() ==> #[trigger] all[j].overall_score <= MAX_SCORE,
            sum == spec_sum_overall(all.take(i as int)),
            sum <= i * (MAX_SCORE as int),
        decreases inspections@.len() - i,
    {
        proof {
            assert(all.take(i + 1int).drop_last() == all.take(i as int));
            assert(all.take(i + 1int).last() == all[i as int]);
            assert(inspections@[i as int]@ == all[i as int]);
            assert(inspections@[i as int].overall_score == all[i as int].overall_score);
            assert(all[i as int].overall_score <= MAX_SCORE);
            assert(i * (MAX_SCORE as int) + (MAX_SCORE as int) == (i + 1) * (MAX_SCORE as int))
                by (nonlinear_arith);
        }
        sum = sum + inspections[i].overall_score as u128;
        i = i + 1;
    }
    proof {
        assert(all.take(inspections@.len() as int) == all);
        lemma_sum_overall_bound(all);
        assert(spec_sum_overall(all) / (all.len() as int) <= MAX_SCORE as int)
            by (nonlinear_arith)
            requires
                all.len() > 0,
                0 <= spec_sum_overall(all) <= all.len() * (MAX_SCORE as int),
        ;
    }
    (sum / (inspections.len() as u128)) as u64
}

/// Descriptions of the Critical findings, in order of appearance.
pub open spec fn spec_critical_texts(issues: Seq<IssueView>, use_description: bool) -> Seq<
    Seq<char>,
>
    decreases issues.len(),
{
    if issues.len() == 0 {
        Seq::empty()
    } else {
        spec_critical_texts(issues.drop_last(), use_description) + if issues.last().severity
            == IssueSeverity::Critical {
            seq![
                if use_description {
                    issues.last().description
                } else {
                    issues.last().recommendation
                },
            ]
        } else {
            Seq::empty()
        }
    }
}

proof fn lemma_critical_texts_append(a: Seq<IssueView>, b: Seq<IssueView>, use_description: bool)
    ensures
        spec_critical_texts(a + b, use_description) == spec_critical_texts(a, use_description)
            + spec_critical_texts(b, use_description),
    decreases b.len(),
{
    if b.len() == 0 {
        assert(a + b =~= a);
        assert(spec_critical_texts(a, use_description) + spec_critical_texts(b, use_description)
            =~= spec_critical_texts(a, use_description));
    } else {
        lemma_critical_texts_append(a, b.drop_last(), use_description);
        assert((a + b).drop_last() == a + b.drop_last());
        assert((a + b).last() == b.last());
    }
}

/// Collects one text field of every Critical finding, in order.
fn collect_critical_texts(inspections: &Vec<InspectionResult>, use_description: bool) -> (r: Vec<
    String,
>)
    ensures
        r.deep_view() == spec_critical_texts(
            spec_all_issues(inspections.deep_view()),
            use_description,
        ),
{
    let ghost all = inspections.deep_view();
    let mut r: Vec<String> = Vec::new();
    let mut i: usize = 0;
    while i < inspections.len()
        invariant
            i <= inspections@.len(),
            all == inspections.deep_view(),
            all.len() == inspections@.len(),
            r.deep_view() == spec_critical_texts(
                spec_all_issues(all.take(i as int)),
                use_description,
            ),
        decreases inspections@.len() - i,
    {
        proof {
            assert(all.take(i + 1int).drop_last() == all.take(i as int));
            assert(all.take(i + 1int).last() == all[i as int]);
            assert(inspections@[i as int]@ == all[i as int]);
        }
        let issues = &inspections[i].summary.issues;
        let ghost iss = all[i as int].summary.issues;
        let mut k: usize = 0;
        proof {
            assert(iss.take(0int) =~= Seq::<IssueView>::empty());
            lemma_critical_texts_append(
                spec_all_issues(all.take(i as int)),
                iss.take(0int),
                use_description,
            );
            assert(spec_all_issues(all.take(i as int)) + iss.take(0int) =~= spec_all_issues(
                all.take(i as int),
            ));
        }
        while k < issues.len()
            invariant
                k <= issues@.len(),
                iss == issues.deep_view(),
                iss.len() == issues@.len(),
                r.deep_view() == spec_critical_texts(
                    spec_all_issues(all.take(i as int)) + iss.take(k as int),
                    use_description,
                ),
            decreases issues@.len() - k,
        {
            proof {
                let base = spec_all_issues(all.take(i as int));
                assert((base + iss.take(k + 1int)).drop_last() == base + iss.take(k as int));
                assert((base + iss.take(k + 1int)).last() == iss[k as int]);
                assert(issues@[k as int]@ == iss[k as int]);
            }
            let issue = &issues[k];
            let is_critical = match issue.severity {
                IssueSeverity::Critical => true,
                _ => false,
            };
            if is_critical {
                if use_description {
                    r.push(issue.description.clone());
                } else {
                    r.push(issue.recommendation.clone());
                }
            }
            k = k + 1;
        }
        proof {
            assert(iss.take(issues@.len() as int) == iss);
            assert(spec_all_issues(all.take(i + 1int)) == spec_all_issues(all.take(i as int))
                + iss);
        }
        i = i + 1;
    }
    proof {
        assert(all.take(inspections@.len() as int) == all);
    }
    r
}

/// Sorted, deduplicated, and cut to at most five: how the derived summary
/// presents the Critical findings' texts.
pub open spec fn spec_top_texts(texts: Seq<Seq<char>>) -> Seq<Seq<char>> {
    spec_truncated(crate::text::spec_dedup(crate::text::spec_sort_lex(texts)), 5)
}

/// Builds the derived cross-unit summary: health tier of the given overall
/// score, the five top deduplicated Critical findings and recommendations,
/// and one (domain, score) pair per result in input order.
pub fn generate_executive_summary(inspections: &Vec<InspectionResult>, overall_score: u64) -> (r:
    crate::types::ExecutiveSummary)
    ensures
        r.health_status == spec_health_status(overall_score as int),
        r.key_findings.deep_view() == spec_top_texts(
            spec_critical_texts(spec_all_issues(inspections.deep_view()), true),
        ),
        r.priority_recommendations.deep_view() == spec_top_texts(
            spec_critical_texts(spec_all_issues(inspections.deep_view()), false),
        ),
        r.score_breakdown.deep_view() == spec_domain_scores(inspections.deep_view()),
{
    let engine = ScoringEngine::new();
    let health_status = engine.get_health_status(overall_score);
    let mut key_findings = collect_critical_texts(inspections, true);
    crate::text::sort_strings(&mut key_findings);
    let mut key_findings = crate::text::dedup_strings(&key_findings);
    let ghost kf_full = key_findings.deep_view();
    key_findings.truncate(5);
    let mut priority_recommendations = collect_critical_texts(inspections, false);
    crate::text::sort_strings(&mut priority_recommendations);
    let mut priority_recommendations = crate::text::dedup_strings(&priority_recommendations);
    let ghost pr_full = priority_recommendations.deep_view();
    priority_recommendations.truncate(5);
    proof {
        assert(key_findings.deep_view() =~= spec_truncated(kf_full, 5));
        assert(priority_recommendations.deep_view() =~= spec_truncated(pr_full, 5));
    }
    let score_breakdown = domain_score_pairs(inspections);
    crate::types::ExecutiveSummary {
        health_status,
        key_findings,
        priority_recommendations,
        score_breakdown,
    }
}

/// First breakdown row of this domain, or -1.
pub open spec fn spec_find_breakdown(
    rows: Seq<(Seq<char>, ScoreDetails)>,
    domain: Seq<char>,
) -> int
    decreases rows.len(),
{
    if rows.len() == 0 {
        -1
    } else if rows[0].0 == domain {
        0
    } else {
        let r = spec_find_breakdown(rows.skip(1), domain);
        if r < 0 {
            -1
        } else {
            r + 1
        }
    }
}

/// One result folded into the per-domain breakdown: a new domain appends
/// a row, a repeated one overwrites its row in place.
pub open spec fn spec_add_breakdown(
    rows: Seq<(Seq<char>, ScoreDetails)>,
    r: InspectionResultView,
) -> Seq<(Seq<char>, ScoreDetails)> {
    let idx = spec_find_breakdown(rows, r.inspection_type);
    if idx < 0 {
        rows.push((r.inspection_type, spec_score_details_of(r)))
    } else {
        rows.update(idx, (rows[idx].0, spec_score_details_of(r)))
    }
}

/// One summary row per distinct domain, in first-seen order, the last
/// result winning.
pub open spec fn spec_score_breakdown(rs: Seq<InspectionResultView>) -> Seq<
    (Seq<char>, ScoreDetails),
>
    decreases rs.len(),
{
    if rs.len() == 0 {
        Seq::empty()
    } else {
        spec_add_breakdown(spec_score_breakdown(rs.drop_last()), rs.last())
    }
}

proof fn lemma_find_breakdown_at(
    rows: Seq<(Seq<char>, ScoreDetails)>,
    domain: Seq<char>,
    i: int,
)
    requires
        0 <= i <= rows.len(),
        forall|j: int| 0 <= j < i ==> (#[trigger] rows[j]).0 != domain,
        i < rows.len() ==> rows[i].0 == domain,
    ensures
        i < rows.len() ==> spec_find_breakdown(rows, domain) == i,
        i == rows.len() ==> spec_find_breakdown(rows, domain) == -1,
    decreases i + 1,
{
    if rows.len() == 0 {
    } else if i == 0 {
    } else {
        assert(forall|j: int| 0 <= j < i - 1 ==> (#[trigger] rows.skip(1)[j]).0 != domain);
        lemma_find_breakdown_at(rows.skip(1), domain, i - 1);
    }
}

/// First breakdown row with this domain, if any.
fn find_domain_index(rows: &Vec<(String, ScoreDetails)>, domain: &String) -> (r: Option<usize>)
    ensures
        (match r {
            Some(idx) => idx < rows@.len() && spec_find_breakdown(rows.deep_view(), domain@)
                == idx,
            None => spec_find_breakdown(rows.deep_view(), domain@) == -1,
        }),
{
    let mut idx: usize = 0;
    while idx < rows.len()
        invariant
            idx <= rows@.len(),
            forall|j: int| 0 <= j < idx ==> (#[trigger] rows.deep_view()[j]).0 != domain@,
        decreases rows@.len() - idx,
    {
        proof {
            assert(rows.deep_view()[idx as int].0 == rows@[idx as int].0@);
        }
        if crate::text::string_is(&rows[idx].0, domain.as_str()) {
            proof {
                lemma_find_breakdown_at(rows.deep_view(), domain@, idx as int);
            }
            return Some(idx);
        }
        idx = idx + 1;
    }
    proof {
        lemma_find_breakdown_at(rows.deep_view(), domain@, rows@.len() as int);
    }
    None
}

/// First score pair with this domain, or -1.
pub open spec fn spec_find_pair(rows: Seq<(Seq<char>, u64)>, domain: Seq<char>) -> int
    decreases rows.len(),
{
    if rows.len() == 0 {
        -1
    } else if rows[0].0 == domain {
        0
    } else {
        let r = spec_find_pair(rows.skip(1), domain);
        if r < 0 {
            -1
        } else {
            r + 1
        }
    }
}

/// The per-domain score map as (domain, score) pairs: one pair per
/// distinct domain, first-seen order, last result winning.
pub open spec fn spec_domain_scores(rs: Seq<InspectionResultView>) -> Seq<(Seq<char>, u64)>
    decreases rs.len(),
{
    if rs.len() == 0 {
        Seq::empty()
    } else {
        let rows = spec_domain_scores(rs.drop_last());
        let idx = spec_find_pair(rows, rs.last().inspection_type);
        if idx < 0 {
            rows.push((rs.last().inspection_type, rs.last().overall_score))
        } else {
            rows.update(idx, (rows[idx].0, rs.last().overall_score))
        }
    }
}

proof fn lemma_find_pair_at(rows: Seq<(Seq<char>, u64)>, domain: Seq<char>, i: int)
    requires
        0 <= i <= rows.len(),
        forall|j: int| 0 <= j < i ==> (#[trigger] rows[j]).0 != domain,
        i < rows.len() ==> rows[i].0 == domain,
    ensures
        i < rows.len() ==> spec_find_pair(rows, domain) == i,
        i == rows.len() ==> spec_find_pair(rows, domain) == -1,
    decreases i + 1,
{
    if rows.len() == 0 {
    } else if i == 0 {
    } else {
        assert(forall|j: int| 0 <= j < i - 1 ==> (#[trigger] rows.skip(1)[j]).0 != domain);
        lemma_find_pair_at(rows.skip(1), domain, i - 1);
    }
}

fn find_pair_index(rows: &Vec<(String, u64)>, domain: &String) -> (r: Option<usize>)
    ensures
        (match r {
            Some(idx) => idx < rows@.len() && spec_find_pair(rows.deep_view(), domain@) == idx,
            None => spec_find_pair(rows.deep_view(), domain@) == -1,
        }),
{
    let mut idx: usize = 0;
    while idx < rows.len()
        invariant
            idx <= rows@.len(),
            forall|j: int| 0 <= j < idx ==> (#[trigger] rows.deep_view()[j]).0 != domain@,
        decreases rows@.len() - idx,
    {
        proof {
            assert(rows.deep_view()[idx as int].0 == rows@[idx as int].0@);
        }
        if crate::text::string_is(&rows[idx].0, domain.as_str()) {
            proof {
                lemma_find_pair_at(rows.deep_view(), domain@, idx as int);
            }
            return Some(idx);
        }
        idx = idx + 1;
    }
    proof {
        lemma_find_pair_at(rows.deep_view(), domain@, rows@.len() as int);
    }
    None
}

/// Builds the per-domain score map, one pair per distinct domain.
pub fn domain_score_pairs(inspections: &Vec<InspectionResult>) -> (r: Vec<(String, u64)>)
    ensures
        r.deep_view() == spec_domain_scores(inspections.deep_view()),
{
    let ghost all = inspections.deep_view();
    let mut r: Vec<(String, u64)> = Vec::new();
    let mut i: usize = 0;
    while i < inspections.len()
        invariant
            i <= inspections@.len(),
            all == inspections.deep_view(),
            all.len() == inspections@.len(),
            r.deep_view() == spec_domain_scores(all.take(i as int)),
        decreases inspections@.len() - i,
    {
        proof {
            assert(all.take(i + 1int).drop_last() == all.take(i as int));
            assert(all.take(i + 1int).last() == all[i as int]);
            assert(inspections@[i as int]@ == all[i as int]);
        }
        let ins = &inspections[i];
        let ghost pre = r.deep_view();
        match find_pair_index(&r, &ins.inspection_type) {
            Some(idx) => {
                let entry = r.remove(idx);
                r.insert(idx, (entry.0, ins.overall_score));
                proof {
                    assert(r.deep_view() =~~= pre.update(
                        idx as int,
                        (pre[idx as int].0, all[i as int].overall_score),
                    ));
                }
            },
            None => {
                r.push((ins.inspection_type.clone(), ins.overall_score));
                proof {
                    assert(r.deep_view() =~~= pre.push(
                        (all[i as int].inspection_type, all[i as int].overall_score),
                    ));
                }
            },
        }
        i = i + 1;
    }
    proof {
        assert(all.take(inspections@.len() as int) == all);
    }
    r
}

proof fn lemma_recs_empty(sev: IssueSeverity)
    ensures
        spec_recs_with_severity(Seq::<IssueView>::empty(), sev) == Seq::<
            PriorityRecommendationView,
        >::empty(),
{
}

/// Appending issues extends the collected rows on the right.
proof fn lemma_recs_append(a: Seq<IssueView>, b: Seq<IssueView>, sev: IssueSeverity)
    ensures
        spec_recs_with_severity(a + b, sev) == spec_recs_with_severity(a, sev)
            + spec_recs_with_severity(b, sev),
    decreases b.len(),
{
    if b.len() == 0 {
        assert(a + b =~= a);
        assert(spec_recs_with_severity(b, sev) =~= Seq::<PriorityRecommendationView>::empty());
        assert(spec_recs_with_severity(a, sev) + spec_recs_with_severity(b, sev)
            =~= spec_recs_with_severity(a, sev));
    } else {
        lemma_recs_append(a, b.drop_last(), sev);
        assert((a + b).drop_last() == a + b.drop_last());
        assert((a + b).last() == b.last());
    }
}

} // verus!
