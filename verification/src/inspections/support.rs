//! Shared shape of every unit's output: the check and finding builders
//! with exact contracts, and the fold the flattened finding lists follow.

use vstd::prelude::*;

use crate::checks::{spec_status_for_score, status_for_score};
use crate::types::{CheckResult, CheckResultView, Issue, IssueSeverity, IssueView};

verus! {

/// One check under the uniform status policy, carrying one
/// recommendation when the score falls below `advise_below`.
pub open spec fn spec_check_row(
    name: Seq<char>,
    description: Seq<char>,
    score: u64,
    details: Seq<char>,
    recommendation: Seq<char>,
    advise_below: u64,
) -> CheckResultView {
    CheckResultView {
        name,
        description,
        status: spec_status_for_score(score as int),
        score,
        max_score: 100_000,
        details: Some(details),
        recommendations: if score < advise_below {
            seq![recommendation]
        } else {
            Seq::empty()
        },
    }
}

/// Builds one check row.
pub fn check_row(
    name: &str,
    description: &str,
    score: u64,
    details: String,
    recommendation: &str,
    advise_below: u64,
) -> (r: CheckResult)
    ensures
        r@ == spec_check_row(name@, description@, score, details@, recommendation@, advise_below),
{
    let status = status_for_score(score);
    let recommendations = if score < advise_below {
        let mut v: Vec<String> = Vec::new();
        v.push(recommendation.to_owned());
        v
    } else {
        Vec::new()
    };
    let r = CheckResult {
        name: name.to_owned(),
        description: description.to_owned(),
        status,
        score,
        max_score: 100_000,
        details: Some(details),
        recommendations,
    };
    proof {
        assert(r@.recommendations =~= spec_check_row(
            name@,
            description@,
            score,
            details@,
            recommendation@,
            advise_below,
        ).recommendations);
    }
    r
}

/// Like `check_row`, with the recommendations given outright.
pub fn check_row_with(
    name: &str,
    description: &str,
    score: u64,
    details: String,
    recommendations: Vec<String>,
) -> (r: CheckResult)
    ensures
        r@ == (CheckResultView {
            name: name@,
            description: description@,
            status: spec_status_for_score(score as int),
            score,
            max_score: 100_000,
            details: Some(details@),
            recommendations: recommendations.deep_view(),
        }),
{
    let status = status_for_score(score);
    CheckResult {
        name: name.to_owned(),
        description: description.to_owned(),
        status,
        score,
        max_score: 100_000,
        details: Some(details),
        recommendations,
    }
}

/// One finding with a stable rule code.
pub open spec fn spec_issue(
    severity: IssueSeverity,
    category: Seq<char>,
    description: Seq<char>,
    resource: Option<Seq<char>>,
    recommendation: Seq<char>,
    rule: Seq<char>,
) -> IssueView {
    IssueView {
        severity,
        category,
        description,
        resource,
        recommendation,
        rule_id: Some(rule),
    }
}

/// Builds one finding.
pub fn issue_row(
    severity: IssueSeverity,
    category: &str,
    description: String,
    resource: Option<String>,
    recommendation: &str,
    rule: &str,
) -> (r: Issue)
    ensures
        r@ == spec_issue(
            severity,
            category@,
            description@,
            resource.deep_view(),
            recommendation@,
            rule@,
        ),
{
    Issue {
        severity,
        category: category.to_owned(),
        description,
        resource,
        recommendation: recommendation.to_owned(),
        rule_id: Some(rule.to_owned()),
    }
}

/// The findings of a fact list: each fact's findings in order.
pub open spec fn spec_flat_issues<T>(fs: Seq<T>, f: spec_fn(T) -> Seq<IssueView>) -> Seq<
    IssueView,
>
    decreases fs.len(),
{
    if fs.len() == 0 {
        Seq::empty()
    } else {
        spec_flat_issues(fs.drop_last(), f) + f(fs.last())
    }
}


/// A flattened map over facts, for rows and texts.
pub open spec fn spec_flat_map<T, U>(fs: Seq<T>, f: spec_fn(T) -> Seq<U>) -> Seq<U>
    decreases fs.len(),
{
    if fs.len() == 0 {
        Seq::empty()
    } else {
        spec_flat_map(fs.drop_last(), f) + f(fs.last())
    }
}

/// One step of a filtered count over a prefix.
pub proof fn lemma_filter_take_step<T>(s: Seq<T>, p: spec_fn(T) -> bool, i: int)
    requires
        0 <= i < s.len(),
    ensures
        s.take(i + 1).filter(p) == if p(s[i]) {
            s.take(i).filter(p).push(s[i])
        } else {
            s.take(i).filter(p)
        },
{
    reveal(Seq::filter);
    assert(s.take(i + 1).drop_last() == s.take(i));
    assert(s.take(i + 1).last() == s[i]);
}

/// A filtered list never outgrows its source.
pub proof fn lemma_filter_le<T>(s: Seq<T>, p: spec_fn(T) -> bool)
    ensures
        s.filter(p).len() <= s.len(),
{
    s.lemma_filter_len(p);
}

} // verus!
