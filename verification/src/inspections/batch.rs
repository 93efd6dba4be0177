//! Batch workloads unit: cron jobs and one-off jobs.

use vstd::prelude::*;

use crate::checks::score_from_counts;
use crate::inspections::support::{
    check_row, issue_row, lemma_filter_le, lemma_filter_take_step, spec_check_row,
    spec_flat_issues, spec_issue,
};
use crate::text::{cat3, cat4, u64_string};
use crate::types::{CheckResult, Issue, IssueSeverity, IssueView};

verus! {

/// What the rules read of one cron job.
#[derive(Debug)]
pub struct CronFacts {
    pub name: String,
    pub suspended: bool,
    pub has_status: bool,
    pub last_schedule_epoch: Option<i64>,
    pub last_success_epoch: Option<i64>,
}

pub struct CronFactsView {
    pub name: Seq<char>,
    pub suspended: bool,
    pub has_status: bool,
    pub last_schedule_epoch: Option<i64>,
    pub last_success_epoch: Option<i64>,
}

impl View for CronFacts {
    type V = CronFactsView;

    open spec fn view(&self) -> CronFactsView {
        CronFactsView {
            name: self.name@,
            suspended: self.suspended,
            has_status: self.has_status,
            last_schedule_epoch: self.last_schedule_epoch,
            last_success_epoch: self.last_success_epoch,
        }
    }
}

impl DeepView for CronFacts {
    type V = CronFactsView;

    open spec fn deep_view(&self) -> CronFactsView {
        self.view()
    }
}

/// What the rules read of one job.
#[derive(Debug)]
pub struct JobFacts {
    pub name: String,
    pub has_status: bool,
    pub failed: i32,
    pub active: i32,
    pub succeeded: i32,
    pub start_epoch: Option<i64>,
}

pub struct JobFactsView {
    pub name: Seq<char>,
    pub has_status: bool,
    pub failed: i32,
    pub active: i32,
    pub succeeded: i32,
    pub start_epoch: Option<i64>,
}

impl View for JobFacts {
    type V = JobFactsView;

    open spec fn view(&self) -> JobFactsView {
        JobFactsView {
            name: self.name@,
            has_status: self.has_status,
            failed: self.failed,
            active: self.active,
            succeeded: self.succeeded,
            start_epoch: self.start_epoch,
        }
    }
}

impl DeepView for JobFacts {
    type V = JobFactsView;

    open spec fn deep_view(&self) -> JobFactsView {
        self.view()
    }
}

/// A suspended cron job is set aside; one whose last run failed or that
/// never ran is flagged; anything else is healthy.
pub open spec fn spec_cron_failed_run(f: CronFactsView) -> bool {
    f.has_status && f.last_schedule_epoch is Some && (match (
        f.last_success_epoch,
        f.last_schedule_epoch,
    ) {
        (Some(s), Some(t)) => s < t,
        (None, _) => true,
        _ => false,
    })
}

pub open spec fn spec_cron_never_ran(f: CronFactsView) -> bool {
    f.has_status && f.last_schedule_epoch is None
}

pub open spec fn spec_cron_healthy(f: CronFactsView) -> bool {
    !f.suspended && !spec_cron_failed_run(f) && !spec_cron_never_ran(f)
}

pub open spec fn spec_cron_issues(f: CronFactsView) -> Seq<IssueView> {
    if f.suspended {
        seq![
            spec_issue(
                IssueSeverity::Warning,
                "Batch"@,
                "CronJob "@ + f.name + " is suspended"@,
                Some(f.name),
                "Enable CronJob or remove if no longer needed."@,
                "BATCH-001"@,
            ),
        ]
    } else if spec_cron_failed_run(f) {
        seq![
            spec_issue(
                IssueSeverity::Critical,
                "Batch"@,
                "CronJob "@ + f.name + " last run failed"@,
                Some(f.name),
                "Check CronJob job logs and fix failures before next schedule."@,
                "BATCH-002"@,
            ),
        ]
    } else if spec_cron_never_ran(f) {
        seq![
            spec_issue(
                IssueSeverity::Warning,
                "Batch"@,
                "CronJob "@ + f.name + " never executed"@,
                Some(f.name),
                "Ensure CronJob schedule is correct and controller is running."@,
                "BATCH-003"@,
            ),
        ]
    } else {
        Seq::empty()
    }
}

/// A job with failed pods, or one active without success for over an
/// hour, is flagged.
pub open spec fn spec_job_failed(f: JobFactsView) -> bool {
    f.has_status && f.failed > 0
}

pub open spec fn spec_job_stuck(f: JobFactsView, now_epoch: i64) -> bool {
    &&& f.has_status
    &&& !spec_job_failed(f)
    &&& f.active > 0
    &&& f.succeeded == 0
    &&& (match f.start_epoch {
        Some(s) => (now_epoch - s) / 60 > 60,
        None => false,
    })
}

pub open spec fn spec_job_healthy(f: JobFactsView, now_epoch: i64) -> bool {
    !spec_job_failed(f) && !spec_job_stuck(f, now_epoch)
}

pub open spec fn spec_job_issues(f: JobFactsView, now_epoch: i64) -> Seq<IssueView> {
    if spec_job_failed(f) {
        seq![
            spec_issue(
                IssueSeverity::Warning,
                "Batch"@,
                "Job "@ + f.name + " has failed pods"@,
                Some(f.name),
                "Inspect job pod logs and adjust backoffLimit or resource requests."@,
                "BATCH-004"@,
            ),
        ]
    } else if spec_job_stuck(f, now_epoch) {
        seq![
            spec_issue(
                IssueSeverity::Warning,
                "Batch"@,
                "Job "@ + f.name + " running for over 60 minutes"@,
                Some(f.name),
                "Check for stuck pods or adjust activeDeadlineSeconds."@,
                "BATCH-005"@,
            ),
        ]
    } else {
        Seq::empty()
    }
}

pub struct BatchClassification {
    pub checks: Vec<CheckResult>,
    pub issues: Vec<Issue>,
}

/// Classifies the batch facts against the clock `now_epoch`: the cron-job
/// and job checks with their findings.
pub fn classify_batch(crons: &Vec<CronFacts>, jobs: &Vec<JobFacts>, now_epoch: i64) -> (r:
    BatchClassification)
    ensures
        r.issues.deep_view() == spec_flat_issues(
            crons.deep_view(),
            |f: CronFactsView| spec_cron_issues(f),
        ) + spec_flat_issues(jobs.deep_view(), |f: JobFactsView| spec_job_issues(f, now_epoch)),
        r.checks@.len() == 2,
        r.checks.deep_view()[0] == (if crons@.len() == 0 {
            spec_check_row(
                "CronJobs"@,
                "Evaluates CronJob health and schedules"@,
                70_000,
                "No CronJobs detected"@,
                "Introduce CronJobs for periodic tasks where applicable."@,
                100_000,
            )
        } else {
            spec_check_row(
                "CronJobs"@,
                "Checks CronJob scheduling and execution status"@,
                crate::checks::spec_score_from_counts(
                    crons.deep_view().filter(|f: CronFactsView| spec_cron_healthy(f)).len() as int,
                    crons.deep_view().len() as int,
                    100_000,
                ) as u64,
                crate::text::spec_u64_chars(
                    crons.deep_view().filter(|f: CronFactsView| spec_cron_healthy(f)).len() as int,
                ) + "/"@ + crate::text::spec_u64_chars(crons.deep_view().len() as int)
                    + " CronJobs healthy"@,
                "Review CronJob failure events and tune schedule or retry policy."@,
                90_000,
            )
        }),
        r.checks.deep_view()[1] == (if jobs@.len() == 0 {
            spec_check_row(
                "Jobs"@,
                "Evaluates Job completion and failure retries"@,
                70_000,
                "No Jobs detected"@,
                "Use Jobs for one-off batch workloads when needed."@,
                100_000,
            )
        } else {
            spec_check_row(
                "Jobs"@,
                "Checks Jobs for stuck or failed executions"@,
                crate::checks::spec_score_from_counts(
                    jobs.deep_view().filter(
                        |f: JobFactsView| spec_job_healthy(f, now_epoch),
                    ).len() as int,
                    jobs.deep_view().len() as int,
                    100_000,
                ) as u64,
                crate::text::spec_u64_chars(
                    jobs.deep_view().filter(
                        |f: JobFactsView| spec_job_healthy(f, now_epoch),
                    ).len() as int,
                ) + "/"@ + crate::text::spec_u64_chars(jobs.deep_view().len() as int)
                    + " Jobs healthy"@,
                "Review failed or long-running jobs and their pod logs."@,
                90_000,
            )
        }),
{
    let ghost crv = crons.deep_view();
    let ghost jv = jobs.deep_view();
    let mut issues: Vec<Issue> = Vec::new();

    let mut cron_healthy: u64 = 0;
    let mut i: usize = 0;
    proof {
        reveal(Seq::filter);
        assert(crv.take(0int) =~= Seq::<CronFactsView>::empty());
    }
    while i < crons.len()
        invariant
            i <= crons@.len(),
            crv == crons.deep_view(),
            crv.len() == crons@.len(),
            issues.deep_view() == spec_flat_issues(
                crv.take(i as int),
                |f: CronFactsView| spec_cron_issues(f),
            ),
            cron_healthy == crv.take(i as int).filter(
                |f: CronFactsView| spec_cron_healthy(f),
            ).len(),
            cron_healthy <= i,
        decreases crons@.len() - i,
    {
        proof {
            reveal(Seq::filter);
            assert(crv.take(i + 1int).drop_last() == crv.take(i as int));
            assert(crv.take(i + 1int).last() == crv[i as int]);
            assert(crons@[i as int]@ == crv[i as int]);
            lemma_filter_take_step(crv, |f: CronFactsView| spec_cron_healthy(f), i as int);
        }
        let f = &crons[i];
        let failed_run = f.has_status && f.last_schedule_epoch.is_some() && (match (
            f.last_success_epoch,
            f.last_schedule_epoch,
        ) {
            (Some(s), Some(t)) => s < t,
            (None, _) => true,
            _ => false,
        });
        let never_ran = f.has_status && f.last_schedule_epoch.is_none();
        if !f.suspended && !failed_run && !never_ran {
            cron_healthy = cron_healthy + 1;
        }
        let mut batch = cron_issues(f);
        let ghost pre = issues.deep_view();
        let ghost bv = batch.deep_view();
        issues.append(&mut batch);
        proof {
            assert(issues.deep_view() =~= pre + bv);
            assert(bv == spec_cron_issues(crv[i as int]));
            assert(issues.deep_view() =~= spec_flat_issues(
                crv.take(i + 1int),
                |f: CronFactsView| spec_cron_issues(f),
            ));
        }
        i = i + 1;
    }
    proof {
        assert(crv.take(crons@.len() as int) == crv);
        lemma_filter_le(crv, |f: CronFactsView| spec_cron_healthy(f));
    }

    let c0 = if crons.len() == 0 {
        check_row(
            "CronJobs",
            "Evaluates CronJob health and schedules",
            70_000,
            "No CronJobs detected".to_owned(),
            "Introduce CronJobs for periodic tasks where applicable.",
            100_000,
        )
    } else {
        let total = crons.len() as u64;
        let score = score_from_counts(cron_healthy, total, 100_000);
        let h = u64_string(cron_healthy);
        let tt = u64_string(total);
        check_row(
            "CronJobs",
            "Checks CronJob scheduling and execution status",
            score,
            cat4(h.as_str(), "/", tt.as_str(), " CronJobs healthy"),
            "Review CronJob failure events and tune schedule or retry policy.",
            90_000,
        )
    };

    let mut job_healthy: u64 = 0;
    let mut k: usize = 0;
    let ghost base = issues.deep_view();
    proof {
        reveal(Seq::filter);
        assert(jv.take(0int) =~= Seq::<JobFactsView>::empty());
        assert(base + spec_flat_issues(
            jv.take(0int),
            |f: JobFactsView| spec_job_issues(f, now_epoch),
        ) =~= base);
    }
    while k < jobs.len()
        invariant
            k <= jobs@.len(),
            jv == jobs.deep_view(),
            jv.len() == jobs@.len(),
            issues.deep_view() == base + spec_flat_issues(
                jv.take(k as int),
                |f: JobFactsView| spec_job_issues(f, now_epoch),
            ),
            job_healthy == jv.take(k as int).filter(
                |f: JobFactsView| spec_job_healthy(f, now_epoch),
            ).len(),
            job_healthy <= k,
        decreases jobs@.len() - k,
    {
        proof {
            reveal(Seq::filter);
            assert(jv.take(k + 1int).drop_last() == jv.take(k as int));
            assert(jv.take(k + 1int).last() == jv[k as int]);
            assert(jobs@[k as int]@ == jv[k as int]);
            lemma_filter_take_step(jv, |f: JobFactsView| spec_job_healthy(f, now_epoch), k as int);
        }
        let f = &jobs[k];
        let mut batch = job_issues(f, now_epoch);
        if job_is_healthy(f, now_epoch) {
            job_healthy = job_healthy + 1;
        }
        let ghost pre = issues.deep_view();
        let ghost bv = batch.deep_view();
        issues.append(&mut batch);
        proof {
            assert(issues.deep_view() =~= pre + bv);
            assert(bv == spec_job_issues(jv[k as int], now_epoch));
            assert(issues.deep_view() =~= base + spec_flat_issues(
                jv.take(k + 1int),
                |f: JobFactsView| spec_job_issues(f, now_epoch),
            ));
        }
        k = k + 1;
    }
    proof {
        assert(jv.take(jobs@.len() as int) == jv);
        lemma_filter_le(jv, |f: JobFactsView| spec_job_healthy(f, now_epoch));
    }

    let c1 = if jobs.len() == 0 {
        check_row(
            "Jobs",
            "Evaluates Job completion and failure retries",
            70_000,
            "No Jobs detected".to_owned(),
            "Use Jobs for one-off batch workloads when needed.",
            100_000,
        )
    } else {
        let total = jobs.len() as u64;
        let score = score_from_counts(job_healthy, total, 100_000);
        let h = u64_string(job_healthy);
        let tt = u64_string(total);
        check_row(
            "Jobs",
            "Checks Jobs for stuck or failed executions",
            score,
            cat4(h.as_str(), "/", tt.as_str(), " Jobs healthy"),
            "Review failed or long-running jobs and their pod logs.",
            90_000,
        )
    };

    let mut checks: Vec<CheckResult> = Vec::new();
    checks.push(c0);
    checks.push(c1);
    BatchClassification { checks, issues }
}

/// Whether a job is stuck by the sixty-minute rule.
fn job_is_stuck(f: &JobFacts, now_epoch: i64) -> (r: bool)
    ensures
        r == spec_job_stuck(f@, now_epoch),
{
    if !(f.has_status && !(f.failed > 0) && f.active > 0 && f.succeeded == 0) {
        return false;
    }
    match f.start_epoch {
        Some(s) => {
            let elapsed: i128 = (now_epoch as i128) - (s as i128);
            proof {
                assert(elapsed / 60 == (now_epoch - s) / 60);
            }
            elapsed / 60 > 60
        },
        None => false,
    }
}

fn job_is_healthy(f: &JobFacts, now_epoch: i64) -> (r: bool)
    ensures
        r == spec_job_healthy(f@, now_epoch),
{
    let failed = f.has_status && f.failed > 0;
    !failed && !job_is_stuck(f, now_epoch)
}

/// One cron job's findings.
fn cron_issues(f: &CronFacts) -> (r: Vec<Issue>)
    ensures
        r.deep_view() == spec_cron_issues(f@),
{
    let mut r: Vec<Issue> = Vec::new();
    let failed_run = f.has_status && f.last_schedule_epoch.is_some() && (match (
        f.last_success_epoch,
        f.last_schedule_epoch,
    ) {
        (Some(s), Some(t)) => s < t,
        (None, _) => true,
        _ => false,
    });
    let never_ran = f.has_status && f.last_schedule_epoch.is_none();
    if f.suspended {
        r.push(
            issue_row(
                IssueSeverity::Warning,
                "Batch",
                cat3("CronJob ", f.name.as_str(), " is suspended"),
                Some(f.name.clone()),
                "Enable CronJob or remove if no longer needed.",
                "BATCH-001",
            ),
        );
    } else if failed_run {
        r.push(
            issue_row(
                IssueSeverity::Critical,
                "Batch",
                cat3("CronJob ", f.name.as_str(), " last run failed"),
                Some(f.name.clone()),
                "Check CronJob job logs and fix failures before next schedule.",
                "BATCH-002",
            ),
        );
    } else if never_ran {
        r.push(
            issue_row(
                IssueSeverity::Warning,
                "Batch",
                cat3("CronJob ", f.name.as_str(), " never executed"),
                Some(f.name.clone()),
                "Ensure CronJob schedule is correct and controller is running.",
                "BATCH-003",
            ),
        );
    }
    proof {
        assert(r.deep_view() =~= spec_cron_issues(f@));
    }
    r
}

/// One job's findings.
fn job_issues(f: &JobFacts, now_epoch: i64) -> (r: Vec<Issue>)
    ensures
        r.deep_view() == spec_job_issues(f@, now_epoch),
{
    let mut r: Vec<Issue> = Vec::new();
    if f.has_status && f.failed > 0 {
        r.push(
            issue_row(
                IssueSeverity::Warning,
                "Batch",
                cat3("Job ", f.name.as_str(), " has failed pods"),
                Some(f.name.clone()),
                "Inspect job pod logs and adjust backoffLimit or resource requests.",
                "BATCH-004",
            ),
        );
    } else if job_is_stuck(f, now_epoch) {
        r.push(
            issue_row(
                IssueSeverity::Warning,
                "Batch",
                cat3("Job ", f.name.as_str(), " running for over 60 minutes"),
                Some(f.name.clone()),
                "Check for stuck pods or adjust activeDeadlineSeconds.",
                "BATCH-005",
            ),
        );
    }
    proof {
        assert(r.deep_view() =~= spec_job_issues(f@, now_epoch));
    }
    r
}

} // verus!
