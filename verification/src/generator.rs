//! Deterministic aggregation of findings for the report layer: grouping by
//! stable rule code (else by category and recommendation), ranked rows,
//! deduplicated recommendations, and the check-level filter.
//!
//! Every map-like grouping here is materialized as a sequence in first-seen
//! order and sorted by an explicit key before it is surfaced, so the output
//! is a pure function of the input.

use vstd::prelude::*;

use vstd::string::StringExecFns;

use crate::issue_codes::spec_short_title;
use crate::text::{spec_contains_sub, str_eq, string_is};
use crate::types::{CheckStatus, Issue, IssueSeverity, IssueView};

verus! {

/// One aggregated finding row: the group key (a rule code, else category
/// plus recommendation), a representative title, and the affected
/// resources in order of appearance.
#[derive(Debug)]
pub struct FindingGroup {
    /// The stable rule code, when the findings carried one.
    pub rule_id: Option<String>,
    /// Category of the first finding seen; part of the key only when there
    /// is no rule code.
    pub category: String,
    /// Registered short title of the code, else the first description
    /// seen.
    pub title: String,
    /// Recommendation of the first finding seen; part of the key only when
    /// there is no rule code.
    pub recommendation: String,
    /// Affected resource identifiers, in order of appearance.
    pub resources: Vec<String>,
}

pub struct FindingGroupView {
    pub rule_id: Option<Seq<char>>,
    pub category: Seq<char>,
    pub title: Seq<char>,
    pub recommendation: Seq<char>,
    pub resources: Seq<Seq<char>>,
}

impl View for FindingGroup {
    type V = FindingGroupView;

    open spec fn view(&self) -> FindingGroupView {
        FindingGroupView {
            rule_id: self.rule_id.deep_view(),
            category: self.category@,
            title: self.title@,
            recommendation: self.recommendation@,
            resources: self.resources.deep_view(),
        }
    }
}

impl DeepView for FindingGroup {
    type V = FindingGroupView;

    open spec fn deep_view(&self) -> FindingGroupView {
        self.view()
    }
}

/// The grouping key of a finding: the rule code alone when present, else
/// the (category, recommendation) pair.
pub open spec fn spec_issue_key(i: IssueView) -> (Option<Seq<char>>, Seq<char>, Seq<char>) {
    match i.rule_id {
        Some(r) => (Some(r), Seq::empty(), Seq::empty()),
        None => (None, i.category, i.recommendation),
    }
}

pub open spec fn spec_group_key(g: FindingGroupView) -> (Option<Seq<char>>, Seq<char>, Seq<char>) {
    match g.rule_id {
        Some(r) => (Some(r), Seq::empty(), Seq::empty()),
        None => (None, g.category, g.recommendation),
    }
}

/// Representative title a finding contributes when it opens a group: the
/// registered short title of its code, else its description.
pub open spec fn spec_issue_title(i: IssueView) -> Seq<char> {
    match i.rule_id {
        Some(c) => match spec_short_title(c) {
            Some(t) => t,
            None => i.description,
        },
        None => i.description,
    }
}

/// The resource identifiers one finding contributes.
pub open spec fn spec_issue_resources(i: IssueView) -> Seq<Seq<char>> {
    match i.resource {
        Some(r) => seq![r],
        None => Seq::empty(),
    }
}

/// First group with this key, or -1.
pub open spec fn spec_find_group(
    groups: Seq<FindingGroupView>,
    key: (Option<Seq<char>>, Seq<char>, Seq<char>),
) -> int
    decreases groups.len(),
{
    if groups.len() == 0 {
        -1
    } else if spec_group_key(groups[0]) == key {
        0
    } else {
        let r = spec_find_group(groups.skip(1), key);
        if r < 0 {
            -1
        } else {
            r + 1
        }
    }
}

/// One finding folded into the groups: skipped unless its severity is
/// `sev`; joined to the group with its key when one exists, else opening a
/// new group at the end.
pub open spec fn spec_add_issue(
    groups: Seq<FindingGroupView>,
    i: IssueView,
    sev: IssueSeverity,
) -> Seq<FindingGroupView> {
    if i.severity != sev {
        groups
    } else {
        let key = spec_issue_key(i);
        let idx = spec_find_group(groups, key);
        if idx < 0 {
            groups.push(
                FindingGroupView {
                    rule_id: i.rule_id,
                    category: i.category,
                    title: spec_issue_title(i),
                    recommendation: i.recommendation,
                    resources: spec_issue_resources(i),
                },
            )
        } else {
            groups.update(
                idx,
                FindingGroupView {
                    resources: groups[idx].resources + spec_issue_resources(i),
                    ..groups[idx]
                },
            )
        }
    }
}

/// The findings of severity `sev`, grouped, in first-seen order.
pub open spec fn spec_group_issues(issues: Seq<IssueView>, sev: IssueSeverity) -> Seq<
    FindingGroupView,
>
    decreases issues.len(),
{
    if issues.len() == 0 {
        Seq::empty()
    } else {
        spec_add_issue(spec_group_issues(issues.drop_last(), sev), issues.last(), sev)
    }
}

proof fn lemma_find_group_bound(
    groups: Seq<FindingGroupView>,
    key: (Option<Seq<char>>, Seq<char>, Seq<char>),
)
    ensures
        -1 <= spec_find_group(groups, key) < groups.len(),
        spec_find_group(groups, key) >= 0 ==> spec_group_key(
            groups[spec_find_group(groups, key)],
        ) == key,
        spec_find_group(groups, key) < 0 ==> forall|j: int|
            0 <= j < groups.len() ==> spec_group_key(#[trigger] groups[j]) != key,
    decreases groups.len(),
{
    if groups.len() > 0 {
        lemma_find_group_bound(groups.skip(1), key);
        assert(forall|j: int|
            1 <= j < groups.len() ==> #[trigger] groups[j] == groups.skip(1)[j - 1]);
    }
}

proof fn lemma_find_group_at(
    groups: Seq<FindingGroupView>,
    key: (Option<Seq<char>>, Seq<char>, Seq<char>),
    i: int,
)
    requires
        0 <= i <= groups.len(),
        forall|j: int| 0 <= j < i ==> spec_group_key(#[trigger] groups[j]) != key,
        i < groups.len() ==> spec_group_key(groups[i]) == key,
    ensures
        i < groups.len() ==> spec_find_group(groups, key) == i,
        i == groups.len() ==> spec_find_group(groups, key) == -1,
    decreases i + 1,
{
    if groups.len() == 0 {
    } else if i == 0 {
    } else {
        assert(forall|j: int|
            0 <= j < i - 1 ==> spec_group_key(#[trigger] groups.skip(1)[j]) != key);
        lemma_find_group_at(groups.skip(1), key, i - 1);
    }
}

/// The grouped rows carry pairwise distinct keys.
pub open spec fn spec_groups_distinct(groups: Seq<FindingGroupView>) -> bool {
    forall|i: int, j: int|
        0 <= i < j < groups.len() ==> spec_group_key(#[trigger] groups[i]) != spec_group_key(
            #[trigger] groups[j],
        )
}

proof fn lemma_add_issue_distinct(groups: Seq<FindingGroupView>, i: IssueView, sev: IssueSeverity)
    requires
        spec_groups_distinct(groups),
    ensures
        spec_groups_distinct(spec_add_issue(groups, i, sev)),
        spec_add_issue(groups, i, sev).len() >= groups.len(),
        forall|j: int|
            0 <= j < groups.len() ==> spec_group_key(
                #[trigger] spec_add_issue(groups, i, sev)[j],
            ) == spec_group_key(groups[j]),
{
    if i.severity == sev {
        let key = spec_issue_key(i);
        lemma_find_group_bound(groups, key);
        let idx = spec_find_group(groups, key);
        if idx < 0 {
            let g = spec_add_issue(groups, i, sev);
            assert(spec_group_key(g[groups.len() as int]) == key);
            assert(forall|j: int|
                0 <= j < groups.len() ==> #[trigger] g[j] == groups[j]);
        } else {
            let g = spec_add_issue(groups, i, sev);
            assert(forall|j: int|
                0 <= j < groups.len() && j != idx ==> #[trigger] g[j] == groups[j]);
            assert(spec_group_key(g[idx]) == spec_group_key(groups[idx]));
        }
    }
}

/// Grouping always yields pairwise distinct keys.
pub proof fn lemma_group_issues_distinct(issues: Seq<IssueView>, sev: IssueSeverity)
    ensures
        spec_groups_distinct(spec_group_issues(issues, sev)),
    decreases issues.len(),
{
    if issues.len() == 0 {
    } else {
        lemma_group_issues_distinct(issues.drop_last(), sev);
        lemma_add_issue_distinct(spec_group_issues(issues.drop_last(), sev), issues.last(), sev);
    }
}

/// The findings an aggregated row stands for, one per affected resource —
/// or a single resource-less finding for a row without resources. Their
/// keys all round-trip to the row's own key.
pub open spec fn spec_row_issues(g: FindingGroupView) -> Seq<IssueView> {
    if g.resources.len() == 0 {
        seq![
            IssueView {
                severity: IssueSeverity::Critical,
                category: g.category,
                description: g.title,
                resource: None,
                recommendation: g.recommendation,
                rule_id: g.rule_id,
            },
        ]
    } else {
        Seq::new(
            g.resources.len(),
            |k: int|
                IssueView {
                    severity: IssueSeverity::Critical,
                    category: g.category,
                    description: g.title,
                    resource: Some(g.resources[k]),
                    recommendation: g.recommendation,
                    rule_id: g.rule_id,
                },
        )
    }
}

/// The flat finding list a whole aggregation stands for.
pub open spec fn spec_rows_issues(rows: Seq<FindingGroupView>) -> Seq<IssueView>
    decreases rows.len(),
{
    if rows.len() == 0 {
        Seq::empty()
    } else {
        spec_rows_issues(rows.drop_last()) + spec_row_issues(rows.last())
    }
}

/// Folding a concatenation folds the parts in turn.
proof fn lemma_group_append(
    groups: Seq<FindingGroupView>,
    a: Seq<IssueView>,
    b: Seq<IssueView>,
    sev: IssueSeverity,
)
    ensures
        spec_add_issues(groups, a + b, sev) == spec_add_issues(spec_add_issues(groups, a, sev), b, sev),
    decreases b.len(),
{
    if b.len() == 0 {
        assert(a + b =~= a);
    } else {
        lemma_group_append(groups, a, b.drop_last(), sev);
        assert((a + b).drop_last() == a + b.drop_last());
        assert((a + b).last() == b.last());
    }
}

/// Fold with an explicit starting accumulation.
pub open spec fn spec_add_issues(
    groups: Seq<FindingGroupView>,
    issues: Seq<IssueView>,
    sev: IssueSeverity,
) -> Seq<FindingGroupView>
    decreases issues.len(),
{
    if issues.len() == 0 {
        groups
    } else {
        spec_add_issue(spec_add_issues(groups, issues.drop_last(), sev), issues.last(), sev)
    }
}

proof fn lemma_group_issues_is_fold(issues: Seq<IssueView>, sev: IssueSeverity)
    ensures
        spec_group_issues(issues, sev) == spec_add_issues(Seq::empty(), issues, sev),
    decreases issues.len(),
{
    if issues.len() > 0 {
        lemma_group_issues_is_fold(issues.drop_last(), sev);
    }
}

/// Adding findings that all carry one already-present key never adds a
/// row and never changes a key.
proof fn lemma_add_same_key_keeps_len(
    groups: Seq<FindingGroupView>,
    issues: Seq<IssueView>,
    key: (Option<Seq<char>>, Seq<char>, Seq<char>),
)
    requires
        forall|t: int|
            0 <= t < issues.len() ==> (#[trigger] issues[t]).severity == IssueSeverity::Critical,
        forall|t: int| 0 <= t < issues.len() ==> spec_issue_key(#[trigger] issues[t]) == key,
        spec_find_group(groups, key) >= 0,
    ensures
        spec_add_issues(groups, issues, IssueSeverity::Critical).len() == groups.len(),
        forall|j: int|
            0 <= j < groups.len() ==> spec_group_key(
                #[trigger] spec_add_issues(groups, issues, IssueSeverity::Critical)[j],
            ) == spec_group_key(groups[j]),
    decreases issues.len(),
{
    if issues.len() > 0 {
        lemma_add_same_key_keeps_len(groups, issues.drop_last(), key);
        let g = spec_add_issues(groups, issues.drop_last(), IssueSeverity::Critical);
        lemma_find_group_bound(g, key);
        lemma_find_group_bound(groups, key);
        let idx0 = spec_find_group(groups, key);
        assert(spec_group_key(g[idx0]) == key);
        if spec_find_group(g, key) < 0 {
            lemma_find_group_bound(g, key);
            assert(false);
        }
        let i = issues.last();
        let idx = spec_find_group(g, key);
        assert(spec_add_issue(g, i, IssueSeverity::Critical) == g.update(
            idx,
            FindingGroupView { resources: g[idx].resources + spec_issue_resources(i), ..g[idx] },
        ));
    }
}

/// Regrouping the findings of one row adds exactly that one row back.
proof fn lemma_regroup_one_row(groups: Seq<FindingGroupView>, g: FindingGroupView)
    requires
        spec_find_group(groups, spec_group_key(g)) < 0,
    ensures
        spec_add_issues(groups, spec_row_issues(g), IssueSeverity::Critical).len() == groups.len()
            + 1,
        forall|j: int|
            0 <= j < groups.len() ==> spec_group_key(
                #[trigger] spec_add_issues(groups, spec_row_issues(g), IssueSeverity::Critical)[j],
            ) == spec_group_key(groups[j]),
        spec_group_key(
            spec_add_issues(groups, spec_row_issues(g), IssueSeverity::Critical)[groups.len() as int],
        ) == spec_group_key(g),
{
    let block = spec_row_issues(g);
    let key = spec_group_key(g);
    assert(forall|t: int| 0 <= t < block.len() ==> spec_issue_key(#[trigger] block[t]) == key);
    assert(block.len() >= 1);
    let first = block[0];
    let rest = block.skip(1);
    assert(block =~= seq![first] + rest);
    lemma_group_append(groups, seq![first], rest, IssueSeverity::Critical);
    let g1 = spec_add_issues(groups, seq![first], IssueSeverity::Critical);
    assert(seq![first].drop_last() =~= Seq::<IssueView>::empty());
    assert(seq![first].last() == first);
    assert(spec_add_issues(groups, Seq::<IssueView>::empty(), IssueSeverity::Critical) == groups);
    assert(g1 == spec_add_issue(groups, first, IssueSeverity::Critical));
    lemma_find_group_bound(groups, key);
    assert(g1 == groups.push(
        FindingGroupView {
            rule_id: first.rule_id,
            category: first.category,
            title: spec_issue_title(first),
            recommendation: first.recommendation,
            resources: spec_issue_resources(first),
        },
    ));
    assert(spec_group_key(g1[groups.len() as int]) == key);
    lemma_find_group_at_key_present(g1, key, groups.len() as int);
    assert(forall|t: int| 0 <= t < rest.len() ==> spec_issue_key(#[trigger] rest[t]) == key);
    assert(forall|t: int|
        0 <= t < rest.len() ==> (#[trigger] rest[t]).severity == IssueSeverity::Critical);
    lemma_add_same_key_keeps_len(g1, rest, key);
}

/// A present key is found.
proof fn lemma_find_group_at_key_present(
    groups: Seq<FindingGroupView>,
    key: (Option<Seq<char>>, Seq<char>, Seq<char>),
    i: int,
)
    requires
        0 <= i < groups.len(),
        spec_group_key(groups[i]) == key,
    ensures
        spec_find_group(groups, key) >= 0,
    decreases groups.len(),
{
    lemma_find_group_bound(groups, key);
    if spec_find_group(groups, key) < 0 {
        assert(spec_group_key(groups[i]) != key);
    }
}

/// Regrouping distinct-keyed rows reproduces one group per row.
proof fn lemma_regroup_rows(groups: Seq<FindingGroupView>, rows: Seq<FindingGroupView>)
    requires
        forall|i: int, j: int|
            0 <= i < j < rows.len() ==> spec_group_key(#[trigger] rows[i]) != spec_group_key(
                #[trigger] rows[j],
            ),
        forall|i: int, j: int|
            0 <= i < groups.len() && 0 <= j < rows.len() ==> spec_group_key(#[trigger] groups[i])
                != spec_group_key(#[trigger] rows[j]),
    ensures
        spec_add_issues(groups, spec_rows_issues(rows), IssueSeverity::Critical).len()
            == groups.len() + rows.len(),
        forall|j: int|
            0 <= j < groups.len() ==> spec_group_key(
                #[trigger] spec_add_issues(groups, spec_rows_issues(rows), IssueSeverity::Critical)[j],
            ) == spec_group_key(groups[j]),
        forall|j: int|
            0 <= j < rows.len() ==> spec_group_key(
                #[trigger] spec_add_issues(groups, spec_rows_issues(rows), IssueSeverity::Critical)[groups.len() + j],
            ) == spec_group_key(rows[j]),
    decreases rows.len(),
{
    if rows.len() == 0 {
        assert(spec_rows_issues(rows) =~= Seq::<IssueView>::empty());
    } else {
        let front = rows.drop_last();
        lemma_regroup_rows(groups, front);
        let mid = spec_add_issues(groups, spec_rows_issues(front), IssueSeverity::Critical);
        lemma_group_append(
            groups,
            spec_rows_issues(front),
            spec_row_issues(rows.last()),
            IssueSeverity::Critical,
        );
        let key = spec_group_key(rows.last());
        assert(mid.len() == groups.len() + front.len());
        assert forall|j: int| 0 <= j < mid.len() implies spec_group_key(#[trigger] mid[j])
            != key by {
            assert(key == spec_group_key(rows[rows.len() - 1]));
            if j < groups.len() {
                assert(spec_group_key(mid[j]) == spec_group_key(groups[j]));
                assert(spec_group_key(groups[j]) != spec_group_key(rows[rows.len() - 1]));
            } else {
                let t = j - groups.len();
                assert(spec_group_key(mid[groups.len() + t]) == spec_group_key(front[t]));
                assert(front[t] == rows[t]);
                assert(spec_group_key(rows[t]) != spec_group_key(rows[rows.len() - 1]));
            }
        }
        if spec_find_group(mid, key) >= 0 {
            lemma_find_group_bound(mid, key);
            assert(false);
        }
        lemma_regroup_one_row(mid, rows.last());
    }
}

/// Re-grouping an already-grouped aggregation never reduces the row count:
/// the rows of `spec_group_issues` carry pairwise distinct keys, so
/// grouping the findings they stand for gives exactly one row per row
/// again, even when rows already span several resources.
pub proof fn lemma_regrouping_keeps_rows(issues: Seq<IssueView>)
    ensures
        spec_group_issues(
            spec_rows_issues(spec_group_issues(issues, IssueSeverity::Critical)),
            IssueSeverity::Critical,
        ).len() == spec_group_issues(issues, IssueSeverity::Critical).len(),
{
    let rows = spec_group_issues(issues, IssueSeverity::Critical);
    lemma_group_issues_distinct(issues, IssueSeverity::Critical);
    lemma_regroup_rows(Seq::empty(), rows);
    lemma_group_issues_is_fold(spec_rows_issues(rows), IssueSeverity::Critical);
}

/// Whether two findings group together: same rule code when one is
/// present, else same category and recommendation.
fn issue_key_matches(g: &FindingGroup, i: &Issue) -> (r: bool)
    ensures
        r == (spec_group_key(g@) == spec_issue_key(i@)),
{
    match (&g.rule_id, &i.rule_id) {
        (Some(a), Some(b)) => str_eq(a.as_str(), b.as_str()),
        (None, None) => {
            string_is(&g.category, i.category.as_str()) && string_is(
                &g.recommendation,
                i.recommendation.as_str(),
            )
        },
        _ => false,
    }
}

/// First group matching the finding's key, if any.
fn find_group_index(groups: &Vec<FindingGroup>, i: &Issue) -> (r: Option<usize>)
    ensures
        (match r {
            Some(idx) => idx < groups@.len() && spec_find_group(
                groups.deep_view(),
                spec_issue_key(i@),
            ) == idx,
            None => spec_find_group(groups.deep_view(), spec_issue_key(i@)) == -1,
        }),
{
    let ghost key = spec_issue_key(i@);
    let mut idx: usize = 0;
    while idx < groups.len()
        invariant
            key == spec_issue_key(i@),
            idx <= groups@.len(),
            forall|j: int|
                0 <= j < idx ==> spec_group_key(#[trigger] groups.deep_view()[j]) != key,
        decreases groups@.len() - idx,
    {
        proof {
            assert(groups.deep_view()[idx as int] == groups@[idx as int]@);
        }
        let hit = issue_key_matches(&groups[idx], i);
        if hit {
            proof {
                assert(spec_group_key(groups.deep_view()[idx as int]) == key);
                lemma_find_group_at(groups.deep_view(), key, idx as int);
                assert(spec_find_group(groups.deep_view(), key) == idx as int);
            }
            return Some(idx);
        }
        proof {
            assert(spec_group_key(groups.deep_view()[idx as int]) != key);
        }
        idx = idx + 1;
    }
    proof {
        lemma_find_group_at(groups.deep_view(), key, groups@.len() as int);
    }
    None
}

/// Groups the findings of one severity, in first-seen order: by stable
/// rule code when present, else by (category, recommendation); within a
/// group the affected resources are collected in order, and the title is
/// the registered short title of the code, else the first description
/// seen.
pub fn group_findings(issues: &Vec<Issue>, sev: IssueSeverity) -> (r: Vec<FindingGroup>)
    ensures
        r.deep_view() == spec_group_issues(issues.deep_view(), sev),
{
    let ghost all = issues.deep_view();
    let mut groups: Vec<FindingGroup> = Vec::new();
    let mut i: usize = 0;
    while i < issues.len()
        invariant
            i <= issues@.len(),
            all == issues.deep_view(),
            all.len() == issues@.len(),
            groups.deep_view() == spec_group_issues(all.take(i as int), sev),
        decreases issues@.len() - i,
    {
        proof {
            assert(all.take(i + 1int).drop_last() == all.take(i as int));
            assert(all.take(i + 1int).last() == all[i as int]);
            assert(issues@[i as int]@ == all[i as int]);
        }
        let issue = &issues[i];
        let sev_matches = issue.severity.rank() == sev.rank();
        proof {
            assert(sev_matches == (issue@.severity == sev));
        }
        if sev_matches {
            let ghost pre = groups.deep_view();
            match find_group_index(&groups, issue) {
                Some(idx) => {
                    let mut g = groups.remove(idx);
                    match &issue.resource {
                        Some(res) => {
                            g.resources.push(res.clone());
                        },
                        None => {},
                    }
                    let ghost gv = g.deep_view();
                    groups.insert(idx, g);
                    proof {
                        assert(gv == (FindingGroupView {
                            resources: pre[idx as int].resources + spec_issue_resources(
                                all[i as int],
                            ),
                            ..pre[idx as int]
                        })) by {
                            assert(g@.resources =~~= pre[idx as int].resources
                                + spec_issue_resources(all[i as int]));
                        }
                        assert(groups.deep_view() =~~= pre.update(idx as int, gv));
                        assert(groups.deep_view() == spec_add_issue(pre, all[i as int], sev));
                    }
                },
                None => {
                    let g = FindingGroup {
                        rule_id: crate::types::clone_opt_string(&issue.rule_id),
                        category: issue.category.clone(),
                        title: finding_title(issue),
                        recommendation: issue.recommendation.clone(),
                        resources: match &issue.resource {
                            Some(res) => {
                                let mut v: Vec<String> = Vec::new();
                                v.push(res.clone());
                                v
                            },
                            None => Vec::new(),
                        },
                    };
                    let ghost gv = g.deep_view();
                    groups.push(g);
                    proof {
                        assert(gv.resources =~~= spec_issue_resources(all[i as int]));
                        assert(gv == (FindingGroupView {
                            rule_id: all[i as int].rule_id,
                            category: all[i as int].category,
                            title: spec_issue_title(all[i as int]),
                            recommendation: all[i as int].recommendation,
                            resources: spec_issue_resources(all[i as int]),
                        }));
                        assert(groups.deep_view() =~~= pre.push(gv));
                        assert(groups.deep_view() == spec_add_issue(pre, all[i as int], sev));
                    }
                },
            }
        }
        i = i + 1;
    }
    proof {
        assert(all.take(issues@.len() as int) == all);
    }
    groups
}

/// The representative title one finding would give its group.
fn finding_title(issue: &Issue) -> (r: String)
    ensures
        r@ == spec_issue_title(issue@),
{
    match &issue.rule_id {
        Some(code) => match crate::issue_codes::short_title(code.as_str()) {
            Some(t) => t.to_owned(),
            None => issue.description.clone(),
        },
        None => issue.description.clone(),
    }
}

/// Stable insertion before the first row with strictly fewer affected
/// resources: descending sort by resource count.
pub open spec fn spec_sorted_insert_group(
    s: Seq<FindingGroupView>,
    x: FindingGroupView,
) -> Seq<FindingGroupView>
    decreases s.len(),
{
    if s.len() == 0 {
        seq![x]
    } else if x.resources.len() > s[0].resources.len() {
        seq![x] + s
    } else {
        seq![s[0]] + spec_sorted_insert_group(s.skip(1), x)
    }
}

/// Rows sorted by affected-resource count, descending, stably.
pub open spec fn spec_sort_groups(s: Seq<FindingGroupView>) -> Seq<FindingGroupView>
    decreases s.len(),
{
    if s.len() == 0 {
        Seq::empty()
    } else {
        spec_sorted_insert_group(spec_sort_groups(s.drop_last()), s.last())
    }
}

/// Sorting rows never changes how many there are.
pub proof fn lemma_sort_groups_len(s: Seq<FindingGroupView>)
    ensures
        spec_sort_groups(s).len() == s.len(),
    decreases s.len(),
{
    if s.len() > 0 {
        lemma_sort_groups_len(s.drop_last());
        lemma_sorted_insert_group_len(spec_sort_groups(s.drop_last()), s.last());
    }
}

proof fn lemma_sorted_insert_group_len(s: Seq<FindingGroupView>, x: FindingGroupView)
    ensures
        spec_sorted_insert_group(s, x).len() == s.len() + 1,
    decreases s.len(),
{
    if s.len() > 0 && !(x.resources.len() > s[0].resources.len()) {
        lemma_sorted_insert_group_len(s.skip(1), x);
    }
}

proof fn lemma_sorted_insert_group_shape(s: Seq<FindingGroupView>, x: FindingGroupView, j: int)
    requires
        0 <= j <= s.len(),
        forall|k: int|
            0 <= k < j ==> !(x.resources.len() > (#[trigger] s[k]).resources.len()),
        j < s.len() ==> x.resources.len() > s[j].resources.len(),
    ensures
        spec_sorted_insert_group(s, x) == s.take(j) + seq![x] + s.skip(j),
    decreases s.len(),
{
    if s.len() == 0 {
        assert(spec_sorted_insert_group(s, x) =~= s.take(j) + seq![x] + s.skip(j));
    } else if x.resources.len() > s[0].resources.len() {
        assert(j == 0);
        assert(spec_sorted_insert_group(s, x) =~= s.take(0) + seq![x] + s.skip(0));
    } else {
        assert(j >= 1);
        assert(forall|k: int|
            0 <= k < j - 1 ==> !(x.resources.len() > (#[trigger] s.skip(1)[k]).resources.len()));
        lemma_sorted_insert_group_shape(s.skip(1), x, j - 1);
        assert(s.skip(1).take(j - 1) == s.take(j).skip(1));
        assert(s.skip(1).skip(j - 1) == s.skip(j));
        assert(seq![s[0]] + (s.skip(1).take(j - 1) + seq![x] + s.skip(1).skip(j - 1)) =~= s.take(
            j,
        ) + seq![x] + s.skip(j));
    }
}

fn find_group_insert_pos(v: &Vec<FindingGroup>, i: usize) -> (j: usize)
    requires
        i < v@.len(),
    ensures
        j <= i,
        forall|k: int|
            0 <= k < j ==> !(v.deep_view()[i as int].resources.len() > (
            #[trigger] v.deep_view()[k]).resources.len()),
        j < i ==> v.deep_view()[i as int].resources.len()
            > v.deep_view()[j as int].resources.len(),
{
    let mut j: usize = 0;
    while j < i
        invariant
            0 <= j <= i < v@.len(),
            forall|k: int|
                0 <= k < j ==> !(v.deep_view()[i as int].resources.len() > (
                #[trigger] v.deep_view()[k]).resources.len()),
        decreases i - j,
    {
        if v[i].resources.len() > v[j].resources.len() {
            proof {
                assert(v.deep_view()[i as int].resources.len() == v@[i as int].resources@.len());
            }
            return j;
        }
        j = j + 1;
    }
    j
}

/// Sorts aggregated rows by affected-resource count, descending, keeping
/// the first-seen order among equals.
pub fn sort_groups_by_count(v: &mut Vec<FindingGroup>)
    ensures
        final(v).deep_view() == spec_sort_groups(old(v).deep_view()),
{
    let ghost orig = old(v).deep_view();
    let mut i: usize = 1;
    if v.len() == 0 {
        proof {
            assert(orig.take(0int) =~= Seq::<FindingGroupView>::empty());
            assert(v.deep_view() =~= spec_sort_groups(orig.take(0int)));
        }
        return ;
    }
    proof {
        assert(orig.take(1int) =~= seq![orig[0]]);
        assert(orig.take(1int).drop_last() =~= Seq::<FindingGroupView>::empty());
        assert(orig.take(1int).last() == orig[0]);
        assert(spec_sort_groups(Seq::<FindingGroupView>::empty()) == Seq::<
            FindingGroupView,
        >::empty());
        assert(spec_sort_groups(orig.take(1int)) == spec_sorted_insert_group(
            Seq::<FindingGroupView>::empty(),
            orig[0],
        ));
        assert(spec_sorted_insert_group(Seq::<FindingGroupView>::empty(), orig[0])
            == seq![orig[0]]);
        assert(v.deep_view().take(1int) =~= seq![orig[0]]);
        assert(v.deep_view().skip(1int) =~= orig.skip(1int));
    }
    while i < v.len()
        invariant
            1 <= i <= v@.len(),
            v@.len() == orig.len(),
            v.deep_view().take(i as int) == spec_sort_groups(orig.take(i as int)),
            v.deep_view().skip(i as int) == orig.skip(i as int),
        decreases v@.len() - i,
    {
        let ghost pre = v.deep_view();
        let ghost sorted_prefix = pre.take(i as int);
        let j = find_group_insert_pos(v, i);
        proof {
            assert(forall|k: int|
                0 <= k < j ==> !(pre[i as int].resources.len() > (
                #[trigger] sorted_prefix[k]).resources.len()));
            if j < i {
                assert(pre[i as int].resources.len()
                    > sorted_prefix[j as int].resources.len());
            }
            lemma_sorted_insert_group_shape(sorted_prefix, pre[i as int], j as int);
        }
        let x = v.remove(i);
        v.insert(j, x);
        proof {
            let post = v.deep_view();
            let removed = pre.remove(i as int);
            assert(post =~= removed.insert(j as int, pre[i as int]));
            assert(post.take(i + 1int) =~= sorted_prefix.take(j as int) + seq![pre[i as int]]
                + sorted_prefix.skip(j as int));
            assert(post.take(i + 1int) == spec_sorted_insert_group(sorted_prefix, pre[i as int]));
            assert(orig.take(i + 1int).drop_last() == orig.take(i as int));
            assert(orig.take(i + 1int).last() == orig[i as int]);
            assert(pre[i as int] == orig[i as int]) by {
                assert(pre.skip(i as int)[0] == orig.skip(i as int)[0]);
            }
            assert(post.skip(i + 1int) =~= orig.skip(i + 1int)) by {
                assert(forall|k: int|
                    0 <= k < post.len() - i - 1 ==> #[trigger] post.skip(i + 1int)[k] == pre.skip(
                        i as int,
                    )[k + 1]);
                assert(forall|k: int|
                    0 <= k < orig.len() - i - 1 ==> #[trigger] orig.skip(i + 1int)[k] == orig.skip(
                        i as int,
                    )[k + 1]);
            }
        }
        i = i + 1;
    }
    proof {
        assert(v.deep_view().take(v@.len() as int) =~= v.deep_view());
        assert(orig.take(orig.len() as int) =~= orig);
    }
}

/// Which check statuses the report's check table shows.
#[derive(Debug)]
pub enum CheckLevelFilter {
    All,
    Only(Vec<CheckStatus>),
}

pub enum CheckLevelFilterView {
    All,
    Only(Seq<CheckStatus>),
}

impl View for CheckLevelFilter {
    type V = CheckLevelFilterView;

    open spec fn view(&self) -> CheckLevelFilterView {
        match self {
            CheckLevelFilter::All => CheckLevelFilterView::All,
            CheckLevelFilter::Only(v) => CheckLevelFilterView::Only(v@),
        }
    }
}

/// The statuses one comma-separated part names: nothing for an unknown
/// word.
pub open spec fn spec_levels_of_part(p: Seq<char>) -> Seq<CheckStatus> {
    let t = crate::text::spec_trim_ws(p);
    if t == "pass"@ {
        seq![CheckStatus::Pass]
    } else if t == "warning"@ {
        seq![CheckStatus::Warning]
    } else if t == "critical"@ {
        seq![CheckStatus::Critical]
    } else if t == "error"@ {
        seq![CheckStatus::Error]
    } else {
        Seq::empty()
    }
}

pub open spec fn spec_levels_of_parts(parts: Seq<Seq<char>>) -> Seq<CheckStatus>
    decreases parts.len(),
{
    if parts.len() == 0 {
        Seq::empty()
    } else {
        spec_levels_of_parts(parts.drop_last()) + spec_levels_of_part(parts.last())
    }
}

/// The filter a `--check-level` string names: "all", or the statuses of
/// the known comma-separated words — with Warning, Critical and Error
/// standing in when no word is known.
pub open spec fn spec_parse_check_level(s: Seq<char>) -> CheckLevelFilterView {
    let t = crate::text::spec_to_lower(crate::text::spec_trim_ws(s));
    if t == "all"@ {
        CheckLevelFilterView::All
    } else {
        let only = spec_levels_of_parts(crate::text::spec_split_char(t, ','));
        if only.len() == 0 {
            CheckLevelFilterView::Only(
                seq![CheckStatus::Warning, CheckStatus::Critical, CheckStatus::Error],
            )
        } else {
            CheckLevelFilterView::Only(only)
        }
    }
}

/// Parses a check-level string: "all" or comma-separated status names.
pub fn parse_check_level_filter(s: &str) -> (r: CheckLevelFilter)
    ensures
        r@ == spec_parse_check_level(s@),
{
    let chars = crate::text::to_chars(s);
    let trimmed = crate::text::trim_ws(&chars);
    let lowered = crate::text::to_lower(&trimmed);
    if crate::text::chars_eq_lit(&lowered, "all") {
        return CheckLevelFilter::All;
    }
    let parts = crate::text::split_char(&lowered, ',');
    let ghost pviews = parts.deep_view();
    let mut only: Vec<CheckStatus> = Vec::new();
    let mut i: usize = 0;
    while i < parts.len()
        invariant
            i <= parts@.len(),
            pviews == parts.deep_view(),
            pviews.len() == parts@.len(),
            only@ == spec_levels_of_parts(pviews.take(i as int)),
        decreases parts@.len() - i,
    {
        proof {
            assert(pviews.take(i + 1int).drop_last() == pviews.take(i as int));
            assert(pviews.take(i + 1int).last() == pviews[i as int]);
            assert(parts@[i as int]@ == pviews[i as int]);
        }
        let part = crate::text::trim_ws(&parts[i]);
        if crate::text::chars_eq_lit(&part, "pass") {
            only.push(CheckStatus::Pass);
        } else if crate::text::chars_eq_lit(&part, "warning") {
            only.push(CheckStatus::Warning);
        } else if crate::text::chars_eq_lit(&part, "critical") {
            only.push(CheckStatus::Critical);
        } else if crate::text::chars_eq_lit(&part, "error") {
            only.push(CheckStatus::Error);
        }
        i = i + 1;
    }
    proof {
        assert(pviews.take(parts@.len() as int) == pviews);
    }
    if only.len() == 0 {
        let mut dft: Vec<CheckStatus> = Vec::new();
        dft.push(CheckStatus::Warning);
        dft.push(CheckStatus::Critical);
        dft.push(CheckStatus::Error);
        proof {
            assert(dft@ =~= seq![CheckStatus::Warning, CheckStatus::Critical, CheckStatus::Error]);
        }
        CheckLevelFilter::Only(dft)
    } else {
        CheckLevelFilter::Only(only)
    }
}

/// The cluster resource object a domain's checks are listed under.
pub open spec fn spec_inspection_type_to_resource(t: Seq<char>) -> Seq<char> {
    if t == "Node Health"@ || t == "Node Inspection"@ {
        "Node"@
    } else if t == "Control Plane"@ {
        "Control Plane"@
    } else if t == "Network Connectivity"@ {
        "Service"@
    } else if t == "Storage"@ {
        "PersistentVolume"@
    } else if t == "Resource Usage"@ {
        "Pod"@
    } else if t == "Pod Status"@ {
        "Pod"@
    } else if t == "Autoscaling"@ {
        "HorizontalPodAutoscaler"@
    } else if t == "Batch Workloads"@ {
        "Job"@
    } else if t == "Security Configuration"@ {
        "NetworkPolicy"@
    } else if t == "Policy & Governance"@ {
        "ResourceQuota"@
    } else if t == "Observability"@ {
        "Observability"@
    } else if t == "Namespace"@ {
        "Namespace"@
    } else if t == "Certificates"@ {
        "Certificate"@
    } else if t == "Upgrade Readiness"@ {
        "Node"@
    } else {
        "Other"@
    }
}

/// Maps a domain name to the cluster resource object of its check table.
pub fn inspection_type_to_resource(inspection_type: &str) -> (r: &'static str)
    ensures
        r@ == spec_inspection_type_to_resource(inspection_type@),
{
    if str_eq(inspection_type, "Node Health") || str_eq(inspection_type, "Node Inspection") {
        "Node"
    } else if str_eq(inspection_type, "Control Plane") {
        "Control Plane"
    } else if str_eq(inspection_type, "Network Connectivity") {
        "Service"
    } else if str_eq(inspection_type, "Storage") {
        "PersistentVolume"
    } else if str_eq(inspection_type, "Resource Usage") {
        "Pod"
    } else if str_eq(inspection_type, "Pod Status") {
        "Pod"
    } else if str_eq(inspection_type, "Autoscaling") {
        "HorizontalPodAutoscaler"
    } else if str_eq(inspection_type, "Batch Workloads") {
        "Job"
    } else if str_eq(inspection_type, "Security Configuration") {
        "NetworkPolicy"
    } else if str_eq(inspection_type, "Policy & Governance") {
        "ResourceQuota"
    } else if str_eq(inspection_type, "Observability") {
        "Observability"
    } else if str_eq(inspection_type, "Namespace") {
        "Namespace"
    } else if str_eq(inspection_type, "Certificates") {
        "Certificate"
    } else if str_eq(inspection_type, "Upgrade Readiness") {
        "Node"
    } else {
        "Other"
    }
}

/// One resource per line, each in backquotes, joined by a Markdown line
/// break.
pub open spec fn spec_affected_resources(rs: Seq<Seq<char>>) -> Seq<char>
    decreases rs.len(),
{
    if rs.len() == 0 {
        Seq::empty()
    } else if rs.len() == 1 {
        "`"@ + rs[0] + "`"@
    } else {
        spec_affected_resources(rs.drop_last()) + "  \n"@ + "`"@ + rs.last() + "`"@
    }
}

/// Formats affected resources for a table cell.
pub fn format_affected_resources(resources: &Vec<String>) -> (r: String)
    ensures
        r@ == spec_affected_resources(resources.deep_view()),
{
    let ghost all = resources.deep_view();
    let mut out = String::new();
    let mut i: usize = 0;
    while i < resources.len()
        invariant
            i <= resources@.len(),
            all == resources.deep_view(),
            all.len() == resources@.len(),
            out@ == spec_affected_resources(all.take(i as int)),
        decreases resources@.len() - i,
    {
        proof {
            assert(all.take(i + 1int).drop_last() == all.take(i as int));
            assert(all.take(i + 1int).last() == all[i as int]);
            assert(resources@[i as int]@ == all[i as int]);
        }
        if i > 0 {
            out.append("  \n");
        }
        out.append("`");
        out.append(resources[i].as_str());
        out.append("`");
        proof {
            if i == 0 {
                assert(out@ =~= "`"@ + all[0] + "`"@);
                assert(all.take(1int).len() == 1);
                assert(all.take(1int)[0] == all[0]);
            } else {
                assert(out@ =~= spec_affected_resources(all.take(i as int)) + "  \n"@ + "`"@
                    + all[i as int] + "`"@);
            }
        }
        i = i + 1;
    }
    proof {
        assert(all.take(resources@.len() as int) == all);
    }
    out
}

/// The anchor slug of a section title: ASCII alphanumerics lowercased,
/// runs of spaces and dashes collapsed to one dash, outer dashes dropped.
pub open spec fn spec_slug_core(s: Seq<char>) -> Seq<char>
    decreases s.len(),
{
    if s.len() == 0 {
        Seq::empty()
    } else {
        let rest = spec_slug_core(s.drop_last());
        let c = s.last();
        if spec_is_ascii_alnum(c) {
            rest.push(crate::text::spec_lower_char(c))
        } else if (c == ' ' || c == '-') && !(rest.len() > 0 && rest.last() == '-') {
            rest.push('-')
        } else {
            rest
        }
    }
}

pub open spec fn spec_is_ascii_alnum(c: char) -> bool {
    ('0' <= c && c <= '9') || ('a' <= c && c <= 'z') || ('A' <= c && c <= 'Z')
}

pub open spec fn spec_slugify(s: Seq<char>) -> Seq<char> {
    crate::text::spec_trim(spec_slug_core(s), crate::text::TrimClass::Quote('-'))
}

/// Builds a Markdown anchor slug from a section title.
pub fn slugify(s: &str) -> (r: String)
    ensures
        r@ == spec_slugify(s@),
{
    let chars = crate::text::to_chars(s);
    let mut out: Vec<char> = Vec::new();
    let mut i: usize = 0;
    while i < chars.len()
        invariant
            i <= chars@.len(),
            chars@ == s@,
            out@ == spec_slug_core(s@.take(i as int)),
        decreases chars@.len() - i,
    {
        proof {
            assert(s@.take(i + 1int).drop_last() == s@.take(i as int));
            assert(s@.take(i + 1int).last() == s@[i as int]);
        }
        let c = chars[i];
        let is_alnum = ('0' <= c && c <= '9') || ('a' <= c && c <= 'z') || ('A' <= c && c <= 'Z');
        if is_alnum {
            let lower = if 'A' <= c && c <= 'Z' {
                ((c as u8) + 32) as char
            } else {
                c
            };
            out.push(lower);
        } else if c == ' ' || c == '-' {
            let ends_dash = out.len() > 0 && out[out.len() - 1] == '-';
            if !ends_dash {
                out.push('-');
            }
        }
        i = i + 1;
    }
    proof {
        assert(s@.take(s@.len() as int) == s@);
    }
    let trimmed = crate::text::trim_char(&out, '-');
    crate::text::string_from_chars(&trimmed)
}

/// One deduplicated recommendation with how often it occurred.
pub open spec fn spec_find_rec(counts: Seq<(Seq<char>, usize)>, text: Seq<char>) -> int
    decreases counts.len(),
{
    if counts.len() == 0 {
        -1
    } else if counts[0].0 == text {
        0
    } else {
        let r = spec_find_rec(counts.skip(1), text);
        if r < 0 {
            -1
        } else {
            r + 1
        }
    }
}

/// One Critical finding's recommendation folded into the counts.
pub open spec fn spec_add_rec(counts: Seq<(Seq<char>, usize)>, i: IssueView) -> Seq<
    (Seq<char>, usize),
> {
    if i.severity != IssueSeverity::Critical {
        counts
    } else {
        let idx = spec_find_rec(counts, i.recommendation);
        if idx < 0 {
            counts.push((i.recommendation, 1usize))
        } else {
            counts.update(idx, (counts[idx].0, (counts[idx].1 + 1) as usize))
        }
    }
}

/// Occurrence counts of the Critical findings' recommendations, in
/// first-seen order.
pub open spec fn spec_rec_counts(issues: Seq<IssueView>) -> Seq<(Seq<char>, usize)>
    decreases issues.len(),
{
    if issues.len() == 0 {
        Seq::empty()
    } else {
        spec_add_rec(spec_rec_counts(issues.drop_last()), issues.last())
    }
}

proof fn lemma_find_rec_at(counts: Seq<(Seq<char>, usize)>, text: Seq<char>, i: int)
    requires
        0 <= i <= counts.len(),
        forall|j: int| 0 <= j < i ==> (#[trigger] counts[j]).0 != text,
        i < counts.len() ==> counts[i].0 == text,
    ensures
        i < counts.len() ==> spec_find_rec(counts, text) == i,
        i == counts.len() ==> spec_find_rec(counts, text) == -1,
    decreases i + 1,
{
    if counts.len() == 0 {
    } else if i == 0 {
    } else {
        assert(forall|j: int| 0 <= j < i - 1 ==> (#[trigger] counts.skip(1)[j]).0 != text);
        lemma_find_rec_at(counts.skip(1), text, i - 1);
    }
}

proof fn lemma_find_rec_bound(counts: Seq<(Seq<char>, usize)>, text: Seq<char>)
    ensures
        -1 <= spec_find_rec(counts, text) < counts.len(),
    decreases counts.len(),
{
    if counts.len() > 0 && counts[0].0 != text {
        lemma_find_rec_bound(counts.skip(1), text);
    }
}

proof fn lemma_rec_counts_bounded(issues: Seq<IssueView>)
    ensures
        forall|j: int|
            0 <= j < spec_rec_counts(issues).len() ==> (#[trigger] spec_rec_counts(issues)[j]).1
                <= issues.len(),
        spec_rec_counts(issues).len() <= issues.len(),
    decreases issues.len(),
{
    if issues.len() > 0 {
        lemma_rec_counts_bounded(issues.drop_last());
        let pre = spec_rec_counts(issues.drop_last());
        let cur = spec_rec_counts(issues);
        let i = issues.last();
        assert(forall|j: int| 0 <= j < pre.len() ==> (#[trigger] pre[j]).1 <= issues.len() - 1);
        if i.severity == IssueSeverity::Critical {
            lemma_find_rec_bound(pre, i.recommendation);
            let idx = spec_find_rec(pre, i.recommendation);
            if idx < 0 {
                assert(cur == pre.push((i.recommendation, 1usize)));
                assert(forall|j: int|
                    0 <= j < cur.len() ==> (#[trigger] cur[j]).1 <= issues.len());
            } else {
                assert(cur == pre.update(idx, (pre[idx].0, (pre[idx].1 + 1) as usize)));
                assert(forall|j: int|
                    0 <= j < cur.len() ==> (#[trigger] cur[j]).1 <= issues.len());
            }
        }
    }
}

/// Stable insertion before the first entry with a strictly smaller count:
/// descending sort by occurrence count.
pub open spec fn spec_sorted_insert_rec(
    s: Seq<(Seq<char>, usize)>,
    x: (Seq<char>, usize),
) -> Seq<(Seq<char>, usize)>
    decreases s.len(),
{
    if s.len() == 0 {
        seq![x]
    } else if x.1 > s[0].1 {
        seq![x] + s
    } else {
        seq![s[0]] + spec_sorted_insert_rec(s.skip(1), x)
    }
}

pub open spec fn spec_sort_recs(s: Seq<(Seq<char>, usize)>) -> Seq<(Seq<char>, usize)>
    decreases s.len(),
{
    if s.len() == 0 {
        Seq::empty()
    } else {
        spec_sorted_insert_rec(spec_sort_recs(s.drop_last()), s.last())
    }
}

proof fn lemma_sorted_insert_rec_shape(s: Seq<(Seq<char>, usize)>, x: (Seq<char>, usize), j: int)
    requires
        0 <= j <= s.len(),
        forall|k: int| 0 <= k < j ==> !(x.1 > (#[trigger] s[k]).1),
        j < s.len() ==> x.1 > s[j].1,
    ensures
        spec_sorted_insert_rec(s, x) == s.take(j) + seq![x] + s.skip(j),
    decreases s.len(),
{
    if s.len() == 0 {
        assert(spec_sorted_insert_rec(s, x) =~= s.take(j) + seq![x] + s.skip(j));
    } else if x.1 > s[0].1 {
        assert(j == 0);
        assert(spec_sorted_insert_rec(s, x) =~= s.take(0) + seq![x] + s.skip(0));
    } else {
        assert(j >= 1);
        assert(forall|k: int| 0 <= k < j - 1 ==> !(x.1 > (#[trigger] s.skip(1)[k]).1));
        lemma_sorted_insert_rec_shape(s.skip(1), x, j - 1);
        assert(s.skip(1).take(j - 1) == s.take(j).skip(1));
        assert(s.skip(1).skip(j - 1) == s.skip(j));
        assert(seq![s[0]] + (s.skip(1).take(j - 1) + seq![x] + s.skip(1).skip(j - 1)) =~= s.take(
            j,
        ) + seq![x] + s.skip(j));
    }
}

fn find_rec_insert_pos(v: &Vec<(String, usize)>, i: usize) -> (j: usize)
    requires
        i < v@.len(),
    ensures
        j <= i,
        forall|k: int|
            0 <= k < j ==> !(v.deep_view()[i as int].1 > (#[trigger] v.deep_view()[k]).1),
        j < i ==> v.deep_view()[i as int].1 > v.deep_view()[j as int].1,
{
    let mut j: usize = 0;
    while j < i
        invariant
            0 <= j <= i < v@.len(),
            forall|k: int|
                0 <= k < j ==> !(v.deep_view()[i as int].1 > (#[trigger] v.deep_view()[k]).1),
        decreases i - j,
    {
        proof {
            assert(v.deep_view()[i as int].1 == v@[i as int].1);
            assert(v.deep_view()[j as int].1 == v@[j as int].1);
        }
        if v[i].1 > v[j].1 {
            return j;
        }
        j = j + 1;
    }
    j
}

/// Sorts recommendation counts descending, stably.
fn sort_recs_by_count(v: &mut Vec<(String, usize)>)
    ensures
        final(v).deep_view() == spec_sort_recs(old(v).deep_view()),
{
    let ghost orig = old(v).deep_view();
    let mut i: usize = 1;
    if v.len() == 0 {
        proof {
            assert(orig.take(0int) =~= Seq::<(Seq<char>, usize)>::empty());
            assert(v.deep_view() =~= spec_sort_recs(orig.take(0int)));
        }
        return ;
    }
    proof {
        assert(orig.take(1int) =~= seq![orig[0]]);
        assert(orig.take(1int).drop_last() =~= Seq::<(Seq<char>, usize)>::empty());
        assert(orig.take(1int).last() == orig[0]);
        assert(spec_sort_recs(Seq::<(Seq<char>, usize)>::empty()) == Seq::<
            (Seq<char>, usize),
        >::empty());
        assert(spec_sort_recs(orig.take(1int)) == spec_sorted_insert_rec(
            Seq::<(Seq<char>, usize)>::empty(),
            orig[0],
        ));
        assert(spec_sorted_insert_rec(Seq::<(Seq<char>, usize)>::empty(), orig[0])
            == seq![orig[0]]);
        assert(v.deep_view().take(1int) =~= seq![orig[0]]);
        assert(v.deep_view().skip(1int) =~= orig.skip(1int));
    }
    while i < v.len()
        invariant
            1 <= i <= v@.len(),
            v@.len() == orig.len(),
            v.deep_view().take(i as int) == spec_sort_recs(orig.take(i as int)),
            v.deep_view().skip(i as int) == orig.skip(i as int),
        decreases v@.len() - i,
    {
        let ghost pre = v.deep_view();
        let ghost sorted_prefix = pre.take(i as int);
        let j = find_rec_insert_pos(v, i);
        proof {
            assert(forall|k: int|
                0 <= k < j ==> !(pre[i as int].1 > (#[trigger] sorted_prefix[k]).1));
            if j < i {
                assert(pre[i as int].1 > sorted_prefix[j as int].1);
            }
            lemma_sorted_insert_rec_shape(sorted_prefix, pre[i as int], j as int);
        }
        let x = v.remove(i);
        v.insert(j, x);
        proof {
            let post = v.deep_view();
            let removed = pre.remove(i as int);
            assert(post =~= removed.insert(j as int, pre[i as int]));
            assert(post.take(i + 1int) =~= sorted_prefix.take(j as int) + seq![pre[i as int]]
                + sorted_prefix.skip(j as int));
            assert(post.take(i + 1int) == spec_sorted_insert_rec(sorted_prefix, pre[i as int]));
            assert(orig.take(i + 1int).drop_last() == orig.take(i as int));
            assert(orig.take(i + 1int).last() == orig[i as int]);
            assert(pre[i as int] == orig[i as int]) by {
                assert(pre.skip(i as int)[0] == orig.skip(i as int)[0]);
            }
            assert(post.skip(i + 1int) =~= orig.skip(i + 1int)) by {
                assert(forall|k: int|
                    0 <= k < post.len() - i - 1 ==> #[trigger] post.skip(i + 1int)[k] == pre.skip(
                        i as int,
                    )[k + 1]);
                assert(forall|k: int|
                    0 <= k < orig.len() - i - 1 ==> #[trigger] orig.skip(i + 1int)[k] == orig.skip(
                        i as int,
                    )[k + 1]);
            }
        }
        i = i + 1;
    }
    proof {
        assert(v.deep_view().take(v@.len() as int) =~= v.deep_view());
        assert(orig.take(orig.len() as int) =~= orig);
    }
}

/// All findings of all results, flattened in order.
pub fn flatten_issues(inspections: &Vec<crate::types::InspectionResult>) -> (r: Vec<Issue>)
    ensures
        r.deep_view() == crate::scoring::spec_all_issues(inspections.deep_view()),
{
    let ghost all = inspections.deep_view();
    let mut r: Vec<Issue> = Vec::new();
    let mut i: usize = 0;
    while i < inspections.len()
        invariant
            i <= inspections@.len(),
            all == inspections.deep_view(),
            all.len() == inspections@.len(),
            r.deep_view() == crate::scoring::spec_all_issues(all.take(i as int)),
        decreases inspections@.len() - i,
    {
        proof {
            assert(all.take(i + 1int).drop_last() == all.take(i as int));
            assert(all.take(i + 1int).last() == all[i as int]);
            assert(inspections@[i as int]@ == all[i as int]);
        }
        let issues = &inspections[i].summary.issues;
        let ghost iss = all[i as int].summary.issues;
        let mut k: usize = 0;
        proof {
            assert(r.deep_view() + iss.take(0int) =~= r.deep_view());
        }
        let ghost base = r.deep_view();
        while k < issues.len()
            invariant
                k <= issues@.len(),
                iss == issues.deep_view(),
                iss.len() == issues@.len(),
                r.deep_view() == base + iss.take(k as int),
            decreases issues@.len() - k,
        {
            proof {
                assert(issues@[k as int]@ == iss[k as int]);
                assert(base + iss.take(k + 1int) =~= (base + iss.take(k as int)).push(
                    iss[k as int],
                ));
            }
            r.push(issues[k].duplicate());
            k = k + 1;
        }
        proof {
            assert(iss.take(issues@.len() as int) == iss);
            assert(crate::scoring::spec_all_issues(all.take(i + 1int)) =~= base + iss);
        }
        i = i + 1;
    }
    proof {
        assert(all.take(inspections@.len() as int) == all);
    }
    r
}

/// The documentation path of a rule code, as a character sequence.
pub open spec fn spec_doc_path(code: Seq<char>) -> Seq<char> {
    "docs/issues/"@ + code + ".md"@
}

/// One aggregated Critical row rendered as a key-findings line.
pub open spec fn spec_finding_line(g: FindingGroupView) -> Seq<char> {
    let n = crate::text::spec_u64_chars(g.resources.len() as int);
    let list = spec_affected_resources(g.resources);
    match g.rule_id {
        Some(code) => {
            if list.len() == 0 {
                "[error] **"@ + code + "** "@ + g.title + " ("@ + n + "). [Doc]("@ + spec_doc_path(
                    code,
                ) + ")"@
            } else {
                "[error] **"@ + code + "** "@ + g.title + " ("@ + n + "). [Doc]("@ + spec_doc_path(
                    code,
                ) + "). Affected: "@ + list
            }
        },
        None => {
            if list.len() == 0 {
                "[error] "@ + g.title + ": Recommendation: "@ + g.recommendation
            } else {
                "[error] "@ + g.title + " ("@ + n + " issues): "@ + g.title + ". Affected: "@
                    + list + ". Recommendation: "@ + g.recommendation
            }
        },
    }
}

/// Renders one aggregated row.
fn finding_line(g: &FindingGroup) -> (r: String)
    ensures
        r@ == spec_finding_line(g@),
{
    let n = crate::text::u64_string(g.resources.len() as u64);
    let list = format_affected_resources(&g.resources);
    let mut out = String::new();
    match &g.rule_id {
        Some(code) => {
            out.append("[error] **");
            out.append(code.as_str());
            out.append("** ");
            out.append(g.title.as_str());
            out.append(" (");
            out.append(n.as_str());
            out.append("). [Doc](");
            out.append("docs/issues/");
            out.append(code.as_str());
            out.append(".md");
            if list.as_str().is_empty() {
                out.append(")");
            } else {
                out.append("). Affected: ");
                out.append(list.as_str());
            }
            proof {
                assert(out@ =~= spec_finding_line(g@));
            }
        },
        None => {
            out.append("[error] ");
            out.append(g.title.as_str());
            if list.as_str().is_empty() {
                out.append(": Recommendation: ");
                out.append(g.recommendation.as_str());
            } else {
                out.append(" (");
                out.append(n.as_str());
                out.append(" issues): ");
                out.append(g.title.as_str());
                out.append(". Affected: ");
                out.append(list.as_str());
                out.append(". Recommendation: ");
                out.append(g.recommendation.as_str());
            }
            proof {
                assert(out@ =~= spec_finding_line(g@));
            }
        },
    }
    out
}

/// The aggregated key-findings lines of a result list: its Critical
/// findings grouped, sorted by affected-resource count descending, one
/// line per row.
pub open spec fn spec_aggregated_findings(rs: Seq<crate::types::InspectionResultView>) -> Seq<
    Seq<char>,
> {
    spec_sort_groups(
        spec_group_issues(crate::scoring::spec_all_issues(rs), IssueSeverity::Critical),
    ).map_values(|g: FindingGroupView| spec_finding_line(g))
}

/// The deduplicated top recommendations of a result list: the Critical
/// findings' recommendation texts counted, sorted by count descending,
/// cut to `max_items`.
pub open spec fn spec_aggregated_recommendations(
    rs: Seq<crate::types::InspectionResultView>,
    max_items: int,
) -> Seq<Seq<char>> {
    crate::scoring::spec_truncated(
        spec_sort_recs(spec_rec_counts(crate::scoring::spec_all_issues(rs))),
        max_items,
    ).map_values(|c: (Seq<char>, usize)| c.0)
}

/// First counted recommendation matching this text, if any.
fn find_rec_index(counts: &Vec<(String, usize)>, text: &String) -> (r: Option<usize>)
    ensures
        (match r {
            Some(idx) => idx < counts@.len() && spec_find_rec(counts.deep_view(), text@)
                == idx && counts.deep_view()[idx as int].0 == text@,
            None => spec_find_rec(counts.deep_view(), text@) == -1,
        }),
{
    let mut idx: usize = 0;
    while idx < counts.len()
        invariant
            idx <= counts@.len(),
            forall|j: int|
                0 <= j < idx ==> (#[trigger] counts.deep_view()[j]).0 != text@,
        decreases counts@.len() - idx,
    {
        proof {
            assert(counts.deep_view()[idx as int].0 == counts@[idx as int].0@);
        }
        if string_is(&counts[idx].0, text.as_str()) {
            proof {
                lemma_find_rec_at(counts.deep_view(), text@, idx as int);
            }
            return Some(idx);
        }
        idx = idx + 1;
    }
    proof {
        lemma_find_rec_at(counts.deep_view(), text@, counts@.len() as int);
    }
    None
}

/// Groups of one finding list, one bucket per severity, each in
/// first-seen order.
pub struct SeverityGroups {
    pub critical: Vec<FindingGroup>,
    pub warning: Vec<FindingGroup>,
    pub info: Vec<FindingGroup>,
}

pub struct ReportGenerator {
    scoring_engine: crate::scoring::ScoringEngine,
}

impl ReportGenerator {
    pub fn new() -> Self {
        Self { scoring_engine: crate::scoring::ScoringEngine::new() }
    }

    /// Groups findings by severity, and within a severity by rule code
    /// (else category and recommendation), each bucket in first-seen
    /// order.
    pub fn group_issues_by_severity_and_type(issues: &Vec<Issue>) -> (r: SeverityGroups)
        ensures
            r.critical.deep_view() == spec_group_issues(
                issues.deep_view(),
                IssueSeverity::Critical,
            ),
            r.warning.deep_view() == spec_group_issues(issues.deep_view(), IssueSeverity::Warning),
            r.info.deep_view() == spec_group_issues(issues.deep_view(), IssueSeverity::Info),
    {
        SeverityGroups {
            critical: group_findings(issues, IssueSeverity::Critical),
            warning: group_findings(issues, IssueSeverity::Warning),
            info: group_findings(issues, IssueSeverity::Info),
        }
    }

    /// Key findings for the derived summary: Critical rows only, no
    /// limit, ranked by affected-resource count.
    pub fn build_aggregated_findings_error_only(
        inspections: &Vec<crate::types::InspectionResult>,
    ) -> (r: Vec<String>)
        ensures
            r.deep_view() == spec_aggregated_findings(inspections.deep_view()),
    {
        let issues = flatten_issues(inspections);
        let mut rows = group_findings(&issues, IssueSeverity::Critical);
        sort_groups_by_count(&mut rows);
        let ghost sorted = rows.deep_view();
        let mut r: Vec<String> = Vec::new();
        let mut i: usize = 0;
        while i < rows.len()
            invariant
                i <= rows@.len(),
                sorted == rows.deep_view(),
                sorted.len() == rows@.len(),
                r.deep_view() == sorted.take(i as int).map_values(
                    |g: FindingGroupView| spec_finding_line(g),
                ),
            decreases rows@.len() - i,
        {
            proof {
                assert(rows@[i as int]@ == sorted[i as int]);
            }
            let line = finding_line(&rows[i]);
            let ghost prev = r.deep_view();
            let ghost lv = line@;
            r.push(line);
            proof {
                assert(r.deep_view() =~= prev.push(lv));
                assert(lv == spec_finding_line(sorted[i as int]));
                assert(r.deep_view() =~= sorted.take(i + 1int).map_values(
                    |g: FindingGroupView| spec_finding_line(g),
                ));
            }
            i = i + 1;
        }
        proof {
            assert(sorted.take(rows@.len() as int) == sorted);
        }
        r
    }

    /// Priority recommendations for the derived summary: deduplicated by
    /// text, ranked by occurrence count, at most `max_items`.
    pub fn build_aggregated_recommendations(
        inspections: &Vec<crate::types::InspectionResult>,
        max_items: usize,
    ) -> (r: Vec<String>)
        ensures
            r.deep_view() == spec_aggregated_recommendations(
                inspections.deep_view(),
                max_items as int,
            ),
    {
        let issues = flatten_issues(inspections);
        let ghost all = issues.deep_view();
        let mut counts: Vec<(String, usize)> = Vec::new();
        let n = issues.len();
        let mut i: usize = 0;
        while i < n
            invariant
                n == issues@.len(),
                i <= n,
                all == issues.deep_view(),
                all.len() == issues@.len(),
                counts.deep_view() == spec_rec_counts(all.take(i as int)),
                forall|j: int| 0 <= j < counts@.len() ==> (#[trigger] counts@[j]).1 <= i,
                counts@.len() <= i,
            decreases n - i,
        {
            proof {
                assert(all.take(i + 1int).drop_last() == all.take(i as int));
                assert(all.take(i + 1int).last() == all[i as int]);
                assert(issues@[i as int]@ == all[i as int]);
            }
            let issue = &issues[i];
            let is_critical = match issue.severity {
                IssueSeverity::Critical => true,
                _ => false,
            };
            if is_critical {
                let ghost pre = counts.deep_view();
                match find_rec_index(&counts, &issue.recommendation) {
                    Some(idx) => {
                        let entry = counts.remove(idx);
                        let new_count = entry.1 + 1;
                        counts.insert(idx, (entry.0, new_count));
                        proof {
                            assert(counts.deep_view() =~~= pre.update(
                                idx as int,
                                (pre[idx as int].0, (pre[idx as int].1 + 1) as usize),
                            ));
                        }
                    },
                    None => {
                        counts.push((issue.recommendation.clone(), 1));
                        proof {
                            assert(counts.deep_view() =~~= pre.push(
                                (issue@.recommendation, 1usize),
                            ));
                        }
                    },
                }
            }
            i = i + 1;
        }
        proof {
            assert(all.take(issues@.len() as int) == all);
        }
        let mut counts = counts;
        sort_recs_by_count(&mut counts);
        let ghost sorted = counts.deep_view();
        counts.truncate(max_items);
        proof {
            assert(counts.deep_view() =~= crate::scoring::spec_truncated(
                sorted,
                max_items as int,
            ));
        }
        let ghost cut = counts.deep_view();
        let mut r: Vec<String> = Vec::new();
        let mut k: usize = 0;
        while k < counts.len()
            invariant
                k <= counts@.len(),
                cut == counts.deep_view(),
                cut.len() == counts@.len(),
                r.deep_view() == cut.take(k as int).map_values(|c: (Seq<char>, usize)| c.0),
            decreases counts@.len() - k,
        {
            proof {
                assert(counts@[k as int].0@ == cut[k as int].0);
            }
            let text = counts[k].0.clone();
            let ghost prev = r.deep_view();
            let ghost tv = text@;
            r.push(text);
            proof {
                assert(r.deep_view() =~= prev.push(tv));
                assert(tv == cut[k as int].0);
                assert(r.deep_view() =~= cut.take(k + 1int).map_values(
                    |c: (Seq<char>, usize)| c.0,
                ));
            }
            k = k + 1;
        }
        proof {
            assert(cut.take(counts@.len() as int) == cut);
        }
        r
    }
}


/// Findings at or above a severity, in order.
pub open spec fn spec_issues_at_least(issues: Seq<IssueView>, min: IssueSeverity) -> Seq<
    IssueView,
>
    decreases issues.len(),
{
    if issues.len() == 0 {
        Seq::empty()
    } else {
        spec_issues_at_least(issues.drop_last(), min) + if issues.last().severity.spec_rank()
            >= min.spec_rank() {
            seq![issues.last()]
        } else {
            Seq::empty()
        }
    }
}

/// The results with every finding below `min` dropped; everything else,
/// including the check counts, kept.
pub open spec fn spec_severity_filtered(
    rs: Seq<crate::types::InspectionResultView>,
    min: IssueSeverity,
) -> Seq<crate::types::InspectionResultView> {
    Seq::new(
        rs.len(),
        |i: int|
            crate::types::InspectionResultView {
                summary: crate::types::InspectionSummaryView {
                    issues: spec_issues_at_least(rs[i].summary.issues, min),
                    ..rs[i].summary
                },
                ..rs[i]
            },
    )
}

/// Keeps the findings at or above `min`, consuming the list.
fn filter_issues_at_least(issues: Vec<Issue>, min: IssueSeverity) -> (r: Vec<Issue>)
    ensures
        r.deep_view() == spec_issues_at_least(issues.deep_view(), min),
{
    let ghost all = issues.deep_view();
    let mut issues = issues;
    let mut kept: Vec<Issue> = Vec::new();
    let mut i: usize = 0;
    let n = issues.len();
    proof {
        assert(all.len() == n);
        assert(all.take(0int) =~= Seq::<IssueView>::empty());
    }
    while issues.len() > 0
        invariant
            all.len() <= usize::MAX,
            i + issues@.len() == all.len(),
            issues.deep_view() == all.skip(i as int),
            kept.deep_view() == spec_issues_at_least(all.take(i as int), min),
        decreases issues@.len(),
    {
        proof {
            assert(all.take(i + 1int).drop_last() == all.take(i as int));
            assert(all.take(i + 1int).last() == all[i as int]);
            assert(issues@[0].deep_view() == all.skip(i as int)[0]);
        }
        let issue = issues.remove(0);
        proof {
            assert(issues.deep_view() =~= all.skip(i + 1int)) by {
                assert(forall|k: int|
                    0 <= k < all.len() - i - 1 ==> #[trigger] all.skip(i + 1int)[k] == all.skip(
                        i as int,
                    )[k + 1]);
            }
            assert(issue@ == all[i as int]);
        }
        let ghost prev = kept.deep_view();
        if issue.severity.rank() >= min.rank() {
            let ghost iv = issue@;
            kept.push(issue);
            proof {
                assert(kept.deep_view() =~= prev.push(iv));
                assert(kept.deep_view() =~= spec_issues_at_least(all.take(i + 1int), min));
            }
        } else {
            proof {
                assert(kept.deep_view() =~= spec_issues_at_least(all.take(i + 1int), min));
            }
        }
        i = i + 1;
    }
    proof {
        assert(all.take(all.len() as int) == all);
    }
    kept
}

impl ReportGenerator {
    /// Keeps only findings at or above `min` in every result and derives
    /// the summary anew: the weighted overall score, the health tier, the
    /// per-domain score map, and the aggregated findings and
    /// recommendations of what remains. Every other field of the report is
    /// carried through unchanged.
    pub fn apply_severity_filter(report: crate::types::ClusterReport, min: IssueSeverity) -> (r:
        crate::types::ClusterReport)
        requires
            forall|i: int|
                0 <= i < report.inspections@.len()
                    ==> #[trigger] report.inspections.deep_view()[i].overall_score
                    <= crate::types::MAX_SCORE,
        ensures
            r.inspections.deep_view() == spec_severity_filtered(
                report.inspections.deep_view(),
                min,
            ),
            r.overall_score == crate::scoring::spec_weighted_score(
                spec_severity_filtered(report.inspections.deep_view(), min),
            ),
            r.executive_summary.health_status == crate::scoring::spec_health_status(
                r.overall_score as int,
            ),
            r.executive_summary.key_findings.deep_view() == spec_aggregated_findings(
                spec_severity_filtered(report.inspections.deep_view(), min),
            ),
            r.executive_summary.priority_recommendations.deep_view()
                == spec_aggregated_recommendations(
                spec_severity_filtered(report.inspections.deep_view(), min),
                5,
            ),
            r.executive_summary.score_breakdown.deep_view()
                == crate::scoring::spec_domain_scores(
                spec_severity_filtered(report.inspections.deep_view(), min),
            ),
            r.cluster_name == report.cluster_name,
            r.report_id == report.report_id,
            r.timestamp == report.timestamp,
            r.cluster_overview == report.cluster_overview,
            r.node_inspection_results == report.node_inspection_results,
            r.display_timestamp == report.display_timestamp,
            r.display_timestamp_filename == report.display_timestamp_filename,
            r.recent_events == report.recent_events,
    {
        let ghost orig = report.inspections.deep_view();
        let crate::types::ClusterReport {
            cluster_name,
            report_id,
            timestamp,
            overall_score: _,
            inspections,
            executive_summary: _,
            cluster_overview,
            node_inspection_results,
            display_timestamp,
            display_timestamp_filename,
            recent_events,
        } = report;
        let mut inspections = inspections;
        let mut filtered: Vec<crate::types::InspectionResult> = Vec::new();
        let mut i: usize = 0;
        let n = inspections.len();
        proof {
            assert(orig.len() == n);
        }
        while inspections.len() > 0
            invariant
                orig.len() <= usize::MAX,
                i + inspections@.len() == orig.len(),
                inspections.deep_view() == orig.skip(i as int),
                filtered@.len() == i,
                forall|k: int|
                    0 <= k < i ==> #[trigger] filtered.deep_view()[k] == spec_severity_filtered(
                        orig,
                        min,
                    )[k],
            decreases inspections@.len(),
        {
            proof {
                assert(inspections@[0].deep_view() == orig.skip(i as int)[0]);
            }
            let ins = inspections.remove(0);
            proof {
                assert(inspections.deep_view() =~= orig.skip(i + 1int)) by {
                    assert(forall|k: int|
                        0 <= k < orig.len() - i - 1 ==> #[trigger] orig.skip(i + 1int)[k]
                            == orig.skip(i as int)[k + 1]);
                }
                assert(ins@ == orig[i as int]);
            }
            let crate::types::InspectionResult {
                inspection_type,
                timestamp: ins_timestamp,
                overall_score,
                checks,
                summary,
                certificate_expiries,
                pod_container_states,
                namespace_summary_rows,
            } = ins;
            let crate::types::InspectionSummary {
                total_checks,
                passed_checks,
                warning_checks,
                critical_checks,
                error_checks,
                issues,
            } = summary;
            let kept = filter_issues_at_least(issues, min);
            let rebuilt = crate::types::InspectionResult {
                inspection_type,
                timestamp: ins_timestamp,
                overall_score,
                checks,
                summary: crate::types::InspectionSummary {
                    total_checks,
                    passed_checks,
                    warning_checks,
                    critical_checks,
                    error_checks,
                    issues: kept,
                },
                certificate_expiries,
                pod_container_states,
                namespace_summary_rows,
            };
            proof {
                assert(rebuilt@ == spec_severity_filtered(orig, min)[i as int]);
            }
            let ghost prevf = filtered.deep_view();
            filtered.push(rebuilt);
            proof {
                assert(filtered.deep_view() =~= prevf.push(spec_severity_filtered(orig, min)[
                i as int]));
            }
            i = i + 1;
        }
        proof {
            assert(filtered.deep_view() =~= spec_severity_filtered(orig, min));
            assert(forall|k: int|
                0 <= k < orig.len() ==> (#[trigger] spec_severity_filtered(orig, min)[
                k]).overall_score == orig[k].overall_score);
        }
        let engine = crate::scoring::ScoringEngine::new();
        let overall = engine.calculate_weighted_score(&filtered);
        let health_status = engine.get_health_status(overall);
        let key_findings = Self::build_aggregated_findings_error_only(&filtered);
        let priority_recommendations = Self::build_aggregated_recommendations(&filtered, 5);
        let score_breakdown = crate::scoring::domain_score_pairs(&filtered);
        crate::types::ClusterReport {
            cluster_name,
            report_id,
            timestamp,
            overall_score: overall,
            inspections: filtered,
            executive_summary: crate::types::ExecutiveSummary {
                health_status,
                key_findings,
                priority_recommendations,
                score_breakdown,
            },
            cluster_overview,
            node_inspection_results,
            display_timestamp,
            display_timestamp_filename,
            recent_events,
        }
    }
}


/// Whether a category matches any of the lowered filters, ASCII
/// case-insensitively, by substring.
pub open spec fn spec_any_filter_matches(cat: Seq<char>, filters: Seq<Seq<char>>) -> bool {
    exists|k: int|
        0 <= k < filters.len() && spec_contains_sub(
            crate::text::spec_to_lower(cat),
            crate::text::spec_to_lower(#[trigger] filters[k]),
        )
}

/// The findings whose category matches one of the filters, in order.
pub open spec fn spec_issues_matching(issues: Seq<IssueView>, filters: Seq<Seq<char>>) -> Seq<
    IssueView,
>
    decreases issues.len(),
{
    if issues.len() == 0 {
        Seq::empty()
    } else {
        spec_issues_matching(issues.drop_last(), filters) + if spec_any_filter_matches(
            issues.last().category,
            filters,
        ) {
            seq![issues.last()]
        } else {
            Seq::empty()
        }
    }
}

/// The results kept under a category filter: findings restricted to the
/// matching ones, results without any match dropped, check counts kept.
pub open spec fn spec_category_filtered(
    rs: Seq<crate::types::InspectionResultView>,
    filters: Seq<Seq<char>>,
) -> Seq<crate::types::InspectionResultView>
    decreases rs.len(),
{
    if rs.len() == 0 {
        Seq::empty()
    } else {
        spec_category_filtered(rs.drop_last(), filters) + {
            let kept = spec_issues_matching(rs.last().summary.issues, filters);
            if kept.len() > 0 {
                seq![
                    crate::types::InspectionResultView {
                        summary: crate::types::InspectionSummaryView {
                            issues: kept,
                            ..rs.last().summary
                        },
                        ..rs.last()
                    },
                ]
            } else {
                Seq::empty()
            }
        }
    }
}

/// Whether the category matches any filter.
fn any_filter_matches(cat: &String, lowered: &Vec<Vec<char>>, Ghost(filters): Ghost<
    Seq<Seq<char>>,
>) -> (r: bool)
    requires
        lowered.deep_view().len() == filters.len(),
        forall|k: int|
            0 <= k < filters.len() ==> #[trigger] lowered.deep_view()[k]
                == crate::text::spec_to_lower(filters[k]),
    ensures
        r == spec_any_filter_matches(cat@, filters),
{
    let chars = crate::text::to_chars(cat.as_str());
    let low = crate::text::to_lower(&chars);
    let mut k: usize = 0;
    while k < lowered.len()
        invariant
            k <= lowered@.len(),
            low@ == crate::text::spec_to_lower(cat@),
            lowered.deep_view().len() == filters.len(),
            lowered@.len() == filters.len(),
            forall|j: int|
                0 <= j < filters.len() ==> #[trigger] lowered.deep_view()[j]
                    == crate::text::spec_to_lower(filters[j]),
            forall|j: int|
                0 <= j < k ==> !spec_contains_sub(
                    crate::text::spec_to_lower(cat@),
                    crate::text::spec_to_lower(#[trigger] filters[j]),
                ),
        decreases lowered@.len() - k,
    {
        proof {
            assert(lowered@[k as int]@ == lowered.deep_view()[k as int]);
        }
        if crate::text::contains_chars(&low, &lowered[k]) {
            return true;
        }
        k = k + 1;
    }
    false
}

/// Keeps the findings matching the filters, consuming the list.
fn filter_issues_matching(
    issues: Vec<Issue>,
    lowered: &Vec<Vec<char>>,
    Ghost(filters): Ghost<Seq<Seq<char>>>,
) -> (r: Vec<Issue>)
    requires
        lowered.deep_view().len() == filters.len(),
        forall|k: int|
            0 <= k < filters.len() ==> #[trigger] lowered.deep_view()[k]
                == crate::text::spec_to_lower(filters[k]),
    ensures
        r.deep_view() == spec_issues_matching(issues.deep_view(), filters),
{
    let ghost all = issues.deep_view();
    let mut issues = issues;
    let mut kept: Vec<Issue> = Vec::new();
    let mut i: usize = 0;
    let n = issues.len();
    proof {
        assert(all.len() == n);
        assert(all.take(0int) =~= Seq::<IssueView>::empty());
    }
    while issues.len() > 0
        invariant
            all.len() <= usize::MAX,
            i + issues@.len() == all.len(),
            issues.deep_view() == all.skip(i as int),
            kept.deep_view() == spec_issues_matching(all.take(i as int), filters),
            lowered.deep_view().len() == filters.len(),
            forall|k: int|
                0 <= k < filters.len() ==> #[trigger] lowered.deep_view()[k]
                    == crate::text::spec_to_lower(filters[k]),
        decreases issues@.len(),
    {
        proof {
            assert(all.take(i + 1int).drop_last() == all.take(i as int));
            assert(all.take(i + 1int).last() == all[i as int]);
            assert(issues@[0].deep_view() == all.skip(i as int)[0]);
        }
        let issue = issues.remove(0);
        proof {
            assert(issues.deep_view() =~= all.skip(i + 1int)) by {
                assert(forall|k: int|
                    0 <= k < all.len() - i - 1 ==> #[trigger] all.skip(i + 1int)[k] == all.skip(
                        i as int,
                    )[k + 1]);
            }
            assert(issue@ == all[i as int]);
        }
        let ghost prev = kept.deep_view();
        if any_filter_matches(&issue.category, lowered, Ghost(filters)) {
            let ghost iv = issue@;
            kept.push(issue);
            proof {
                assert(kept.deep_view() =~= prev.push(iv));
                assert(kept.deep_view() =~= spec_issues_matching(all.take(i + 1int), filters));
            }
        } else {
            proof {
                assert(kept.deep_view() =~= spec_issues_matching(all.take(i + 1int), filters));
            }
        }
        i = i + 1;
    }
    proof {
        assert(all.take(all.len() as int) == all);
    }
    kept
}

impl ReportGenerator {
    /// Keeps only results with at least one finding whose category
    /// matches one of the filters (ASCII case-insensitive substring
    /// match), restricts each kept result to its matching findings, and
    /// derives the summary anew from what remains. Check counts stay as
    /// recorded; every other report field is carried through unchanged.
    pub fn apply_category_filters(
        report: crate::types::ClusterReport,
        filters: &Vec<String>,
        max_recommendations: Option<usize>,
    ) -> (r: crate::types::ClusterReport)
        requires
            forall|i: int|
                0 <= i < report.inspections@.len()
                    ==> #[trigger] report.inspections.deep_view()[i].overall_score
                    <= crate::types::MAX_SCORE,
        ensures
            r.inspections.deep_view() == spec_category_filtered(
                report.inspections.deep_view(),
                filters.deep_view(),
            ),
            r.overall_score == crate::scoring::spec_weighted_score(
                spec_category_filtered(report.inspections.deep_view(), filters.deep_view()),
            ),
            r.executive_summary.health_status == crate::scoring::spec_health_status(
                r.overall_score as int,
            ),
            r.executive_summary.key_findings.deep_view() == spec_aggregated_findings(
                spec_category_filtered(report.inspections.deep_view(), filters.deep_view()),
            ),
            r.executive_summary.priority_recommendations.deep_view()
                == spec_aggregated_recommendations(
                spec_category_filtered(report.inspections.deep_view(), filters.deep_view()),
                (match max_recommendations {
                    Some(m) => m as int,
                    None => 5,
                }),
            ),
            r.executive_summary.score_breakdown.deep_view()
                == crate::scoring::spec_domain_scores(
                spec_category_filtered(report.inspections.deep_view(), filters.deep_view()),
            ),
            r.cluster_name == report.cluster_name,
            r.report_id == report.report_id,
            r.timestamp == report.timestamp,
            r.cluster_overview == report.cluster_overview,
            r.node_inspection_results == report.node_inspection_results,
            r.display_timestamp == report.display_timestamp,
            r.display_timestamp_filename == report.display_timestamp_filename,
            r.recent_events == report.recent_events,
    {
        let ghost orig = report.inspections.deep_view();
        let ghost fviews = filters.deep_view();
        // lower the filters once
        let mut lowered: Vec<Vec<char>> = Vec::new();
        let mut t: usize = 0;
        while t < filters.len()
            invariant
                t <= filters@.len(),
                fviews == filters.deep_view(),
                fviews.len() == filters@.len(),
                lowered.deep_view().len() == t,
                forall|k: int|
                    0 <= k < t ==> #[trigger] lowered.deep_view()[k]
                        == crate::text::spec_to_lower(fviews[k]),
            decreases filters@.len() - t,
        {
            proof {
                assert(filters@[t as int]@ == fviews[t as int]);
            }
            let chars = crate::text::to_chars(filters[t].as_str());
            let low = crate::text::to_lower(&chars);
            let ghost prev = lowered.deep_view();
            let ghost lw = low@;
            lowered.push(low);
            proof {
                assert(lowered.deep_view() =~~= prev.push(lw));
            }
            t = t + 1;
        }
        let crate::types::ClusterReport {
            cluster_name,
            report_id,
            timestamp,
            overall_score: _,
            inspections,
            executive_summary: _,
            cluster_overview,
            node_inspection_results,
            display_timestamp,
            display_timestamp_filename,
            recent_events,
        } = report;
        let mut inspections = inspections;
        let mut filtered: Vec<crate::types::InspectionResult> = Vec::new();
        let mut i: usize = 0;
        let n = inspections.len();
        proof {
            assert(orig.len() == n);
            assert(orig.take(0int) =~= Seq::<crate::types::InspectionResultView>::empty());
        }
        while inspections.len() > 0
            invariant
                orig.len() <= usize::MAX,
                i + inspections@.len() == orig.len(),
                inspections.deep_view() == orig.skip(i as int),
                filtered.deep_view() == spec_category_filtered(orig.take(i as int), fviews),
                lowered.deep_view().len() == fviews.len(),
                forall|k: int|
                    0 <= k < fviews.len() ==> #[trigger] lowered.deep_view()[k]
                        == crate::text::spec_to_lower(fviews[k]),
                forall|k: int|
                    0 <= k < orig.len() ==> #[trigger] orig[k].overall_score
                        <= crate::types::MAX_SCORE,
            decreases inspections@.len(),
        {
            proof {
                assert(orig.take(i + 1int).drop_last() == orig.take(i as int));
                assert(orig.take(i + 1int).last() == orig[i as int]);
                assert(inspections@[0].deep_view() == orig.skip(i as int)[0]);
            }
            let ins = inspections.remove(0);
            proof {
                assert(inspections.deep_view() =~= orig.skip(i + 1int)) by {
                    assert(forall|k: int|
                        0 <= k < orig.len() - i - 1 ==> #[trigger] orig.skip(i + 1int)[k]
                            == orig.skip(i as int)[k + 1]);
                }
                assert(ins@ == orig[i as int]);
            }
            let crate::types::InspectionResult {
                inspection_type,
                timestamp: ins_timestamp,
                overall_score,
                checks,
                summary,
                certificate_expiries,
                pod_container_states,
                namespace_summary_rows,
            } = ins;
            let crate::types::InspectionSummary {
                total_checks,
                passed_checks,
                warning_checks,
                critical_checks,
                error_checks,
                issues,
            } = summary;
            let kept = filter_issues_matching(issues, &lowered, Ghost(fviews));
            if kept.len() > 0 {
                let rebuilt = crate::types::InspectionResult {
                    inspection_type,
                    timestamp: ins_timestamp,
                    overall_score,
                    checks,
                    summary: crate::types::InspectionSummary {
                        total_checks,
                        passed_checks,
                        warning_checks,
                        critical_checks,
                        error_checks,
                        issues: kept,
                    },
                    certificate_expiries,
                    pod_container_states,
                    namespace_summary_rows,
                };
                let ghost prevf = filtered.deep_view();
                let ghost rv = rebuilt@;
                filtered.push(rebuilt);
                proof {
                    assert(filtered.deep_view() =~= prevf.push(rv));
                    assert(filtered.deep_view() =~= spec_category_filtered(
                        orig.take(i + 1int),
                        fviews,
                    ));
                }
            } else {
                proof {
                    assert(filtered.deep_view() =~= spec_category_filtered(
                        orig.take(i + 1int),
                        fviews,
                    ));
                }
            }
            i = i + 1;
        }
        proof {
            assert(orig.take(orig.len() as int) == orig);
            lemma_category_filtered_scores(orig, fviews);
        }
        let engine = crate::scoring::ScoringEngine::new();
        let overall = engine.calculate_weighted_score(&filtered);
        let health_status = engine.get_health_status(overall);
        let key_findings = Self::build_aggregated_findings_error_only(&filtered);
        let max_r = match max_recommendations {
            Some(m) => m,
            None => 5,
        };
        let priority_recommendations = Self::build_aggregated_recommendations(&filtered, max_r);
        let score_breakdown = crate::scoring::domain_score_pairs(&filtered);
        crate::types::ClusterReport {
            cluster_name,
            report_id,
            timestamp,
            overall_score: overall,
            inspections: filtered,
            executive_summary: crate::types::ExecutiveSummary {
                health_status,
                key_findings,
                priority_recommendations,
                score_breakdown,
            },
            cluster_overview,
            node_inspection_results,
            display_timestamp,
            display_timestamp_filename,
            recent_events,
        }
    }
}

/// Filtering keeps every score within its recorded bound.
proof fn lemma_category_filtered_scores(
    rs: Seq<crate::types::InspectionResultView>,
    filters: Seq<Seq<char>>,
)
    requires
        forall|i: int|
            0 <= i < rs.len() ==> #[trigger] rs[i].overall_score <= crate::types::MAX_SCORE,
    ensures
        forall|i: int|
            0 <= i < spec_category_filtered(rs, filters).len()
                ==> #[trigger] spec_category_filtered(rs, filters)[i].overall_score
                <= crate::types::MAX_SCORE,
    decreases rs.len(),
{
    if rs.len() > 0 {
        assert(forall|i: int|
            0 <= i < rs.len() - 1 ==> #[trigger] rs.drop_last()[i].overall_score
                <= crate::types::MAX_SCORE);
        lemma_category_filtered_scores(rs.drop_last(), filters);
        let prev = spec_category_filtered(rs.drop_last(), filters);
        let cur = spec_category_filtered(rs, filters);
        let kept = spec_issues_matching(rs.last().summary.issues, filters);
        if kept.len() > 0 {
            assert(cur.len() == prev.len() + 1);
            assert(cur[prev.len() as int].overall_score == rs.last().overall_score);
            assert(rs.last().overall_score <= crate::types::MAX_SCORE) by {
                assert(rs[rs.len() - 1].overall_score <= crate::types::MAX_SCORE);
            }
            assert(forall|i: int| 0 <= i < prev.len() ==> #[trigger] cur[i] == prev[i]);
        } else {
            assert(cur =~= prev);
        }
    }
}

} // verus!
