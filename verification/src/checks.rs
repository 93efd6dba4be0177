//! The audit-unit core that every domain shares: derive a check score from
//! healthy/total object counts, classify a score under the uniform threshold
//! policy, and fold a check list into a per-unit summary.

use vstd::prelude::*;

use crate::types::{CheckResult, CheckResultView, CheckStatus, InspectionSummary, Issue, MAX_SCORE};

verus! {

/// Score of a check that found `healthy` of `total` objects healthy, in
/// thousandths of a point: (healthy / total) * 100 points, rounded down.
/// When there is nothing to inspect the rule's own `empty_score` stands.
pub open spec fn spec_score_from_counts(healthy: int, total: int, empty_score: int) -> int {
    if total == 0 {
        empty_score
    } else {
        healthy * 100_000 / total
    }
}

/// Derives a check score from object counts.
pub fn score_from_counts(healthy: u64, total: u64, empty_score: u64) -> (r: u64)
    requires
        healthy <= total,
        empty_score <= MAX_SCORE,
    ensures
        r == spec_score_from_counts(healthy as int, total as int, empty_score as int),
        r <= MAX_SCORE,
{
    if total == 0 {
        empty_score
    } else {
        let wide: u128 = (healthy as u128) * 100_000 / (total as u128);
        proof {
            assert((healthy as int) * 100_000 <= (total as int) * 100_000) by (nonlinear_arith)
                requires
                    healthy <= total,
            ;
            assert((healthy as int) * 100_000 / (total as int) <= 100_000) by (nonlinear_arith)
                requires
                    0 < total,
                    (healthy as int) * 100_000 <= (total as int) * 100_000,
            ;
            assert((healthy as int) * 100_000 / (total as int) >= 0) by (nonlinear_arith)
                requires
                    0 < total,
                    0 <= healthy,
            ;
        }
        wide as u64
    }
}

/// The uniform threshold policy: at least 90 points passes, at least 70
/// warns, anything lower is critical. `Error` is never produced here; a unit
/// sets it only for collection failures it chooses to surface.
pub open spec fn spec_status_for_score(score: int) -> CheckStatus {
    if score >= 90_000 {
        CheckStatus::Pass
    } else if score >= 70_000 {
        CheckStatus::Warning
    } else {
        CheckStatus::Critical
    }
}

/// Classifies a score under the uniform threshold policy.
pub fn status_for_score(score: u64) -> (r: CheckStatus)
    ensures
        r == spec_status_for_score(score as int),
{
    if score >= 90_000 {
        CheckStatus::Pass
    } else if score >= 70_000 {
        CheckStatus::Warning
    } else {
        CheckStatus::Critical
    }
}

/// Number of checks in `checks` with status `status`.
pub open spec fn spec_count_status(checks: Seq<CheckResultView>, status: CheckStatus) -> int
    decreases checks.len(),
{
    if checks.len() == 0 {
        0
    } else {
        spec_count_status(checks.drop_last(), status) + if checks.last().status == status {
            1int
        } else {
            0int
        }
    }
}

proof fn lemma_count_status_bound(checks: Seq<CheckResultView>, status: CheckStatus)
    ensures
        0 <= spec_count_status(checks, status) <= checks.len(),
    decreases checks.len(),
{
    if checks.len() > 0 {
        lemma_count_status_bound(checks.drop_last(), status);
    }
}

/// Folds a check list and the accumulated findings into the unit's summary:
/// one count per status, every check counted exactly once.
pub fn summarize_checks(checks: &Vec<CheckResult>, issues: Vec<Issue>) -> (r: InspectionSummary)
    requires
        checks@.len() <= u32::MAX,
    ensures
        r.total_checks == checks@.len(),
        r.passed_checks == spec_count_status(checks.deep_view(), CheckStatus::Pass),
        r.warning_checks == spec_count_status(checks.deep_view(), CheckStatus::Warning),
        r.critical_checks == spec_count_status(checks.deep_view(), CheckStatus::Critical),
        r.error_checks == spec_count_status(checks.deep_view(), CheckStatus::Error),
        r@.issues == issues.deep_view(),
{
    let ghost all = checks.deep_view();
    let mut passed: u32 = 0;
    let mut warning: u32 = 0;
    let mut critical: u32 = 0;
    let mut error: u32 = 0;
    let mut i: usize = 0;
    while i < checks.len()
        invariant
            i <= checks@.len(),
            checks@.len() <= u32::MAX,
            all == checks.deep_view(),
            all.len() == checks@.len(),
            passed == spec_count_status(all.take(i as int), CheckStatus::Pass),
            warning == spec_count_status(all.take(i as int), CheckStatus::Warning),
            critical == spec_count_status(all.take(i as int), CheckStatus::Critical),
            error == spec_count_status(all.take(i as int), CheckStatus::Error),
        decreases checks@.len() - i,
    {
        proof {
            lemma_count_status_bound(all.take(i as int), CheckStatus::Pass);
            lemma_count_status_bound(all.take(i as int), CheckStatus::Warning);
            lemma_count_status_bound(all.take(i as int), CheckStatus::Critical);
            lemma_count_status_bound(all.take(i as int), CheckStatus::Error);
            assert(all.take(i + 1int).drop_last() == all.take(i as int));
            assert(all.take(i + 1int).last() == all[i as int]);
        }
        match checks[i].status {
            CheckStatus::Pass => {
                passed = passed + 1;
            },
            CheckStatus::Warning => {
                warning = warning + 1;
            },
            CheckStatus::Critical => {
                critical = critical + 1;
            },
            CheckStatus::Error => {
                error = error + 1;
            },
        }
        i = i + 1;
    }
    proof {
        assert(all.take(checks@.len() as int) == all);
    }
    InspectionSummary {
        total_checks: checks.len() as u32,
        passed_checks: passed,
        warning_checks: warning,
        critical_checks: critical,
        error_checks: error,
        issues,
    }
}

/// Sum of the checks' scores, in thousandths of a point.
pub open spec fn spec_sum_check_scores(checks: Seq<CheckResultView>) -> int
    decreases checks.len(),
{
    if checks.len() == 0 {
        0
    } else {
        spec_sum_check_scores(checks.drop_last()) + checks.last().score
    }
}

/// Unweighted mean of the checks' scores, 0 for an empty list; this is the
/// unit's `overall_score`. Weighting happens only across domains.
pub open spec fn spec_mean_check_score(checks: Seq<CheckResultView>) -> int {
    if checks.len() == 0 {
        0
    } else {
        spec_sum_check_scores(checks) / checks.len() as int
    }
}

proof fn lemma_sum_check_scores_bound(checks: Seq<CheckResultView>, cap: int)
    requires
        forall|i: int| 0 <= i < checks.len() ==> checks[i].score <= cap,
        cap >= 0,
    ensures
        0 <= spec_sum_check_scores(checks) <= checks.len() * cap,
    decreases checks.len(),
{
    if checks.len() == 0 {
    } else {
        lemma_sum_check_scores_bound(checks.drop_last(), cap);
        assert((checks.len() - 1) * cap + cap == checks.len() * cap) by (nonlinear_arith);
    }
}

/// Unweighted mean of the checks' scores.
pub fn mean_check_score(checks: &Vec<CheckResult>) -> (r: u64)
    requires
        forall|i: int| 0 <= i < checks@.len() ==> #[trigger] checks@[i].score <= MAX_SCORE,
    ensures
        r == spec_mean_check_score(checks.deep_view()),
        r <= MAX_SCORE,
{
    let ghost all = checks.deep_view();
    if checks.len() == 0 {
        return 0;
    }
    let mut sum: u128 = 0;
    let mut i: usize = 0;
    while i < checks.len()
        invariant
            i <= checks@.len(),
            all == checks.deep_view(),
            all.len() == checks@.len(),
            forall|j: int| 0 <= j < all.len() ==> #[trigger] all[j].score <= MAX_SCORE,
            sum == spec_sum_check_scores(all.take(i as int)),
            sum <= i * (MAX_SCORE as int),
        decreases checks@.len() - i,
    {
        proof {
            assert(all.take(i + 1int).drop_last() == all.take(i as int));
            assert(all.take(i + 1int).last() == all[i as int]);
            assert(i * (MAX_SCORE as int) + (MAX_SCORE as int) == (i + 1) * (MAX_SCORE as int))
                by (nonlinear_arith);
            assert(checks@[i as int].score == all[i as int].score);
        }
        sum = sum + checks[i].score as u128;
        i = i + 1;
    }
    proof {
        assert(all.take(checks@.len() as int) == all);
        lemma_sum_check_scores_bound(all, MAX_SCORE as int);
        assert(spec_sum_check_scores(all) / (all.len() as int) <= MAX_SCORE as int)
            by (nonlinear_arith)
            requires
                all.len() > 0,
                0 <= spec_sum_check_scores(all) <= all.len() * (MAX_SCORE as int),
        ;
    }
    (sum / (checks.len() as u128)) as u64
}

} // verus!
