//! Upgrade readiness unit: kubelet version spread and the deprecated-API
//! reminder.

use vstd::prelude::*;
use vstd::string::StringExecFns;

use crate::inspections::support::{check_row, check_row_with, spec_check_row};
use crate::text::{
    dedup_strings, sort_strings, spec_dedup, spec_sort_lex, string_from_chars,
};
use crate::types::{CheckResult, CheckResultView};

verus! {

/// The versions list the way a debug rendering shows it: quoted, comma
/// separated, bracketed.
pub open spec fn spec_quoted_list(vs: Seq<Seq<char>>) -> Seq<char> {
    "["@ + spec_quoted_items(vs) + "]"@
}

pub open spec fn spec_quoted_items(vs: Seq<Seq<char>>) -> Seq<char>
    decreases vs.len(),
{
    if vs.len() == 0 {
        Seq::empty()
    } else if vs.len() == 1 {
        "\""@ + vs[0] + "\""@
    } else {
        spec_quoted_items(vs.drop_last()) + ", "@ + "\""@ + vs.last() + "\""@
    }
}

/// Renders a version list for the check details.
fn quoted_list(vs: &Vec<String>) -> (r: String)
    ensures
        r@ == spec_quoted_list(vs.deep_view()),
{
    let ghost all = vs.deep_view();
    let mut out = String::new();
    out.append("[");
    let mut i: usize = 0;
    while i < vs.len()
        invariant
            i <= vs@.len(),
            all == vs.deep_view(),
            all.len() == vs@.len(),
            out@ == "["@ + spec_quoted_items(all.take(i as int)),
        decreases vs@.len() - i,
    {
        proof {
            assert(all.take(i + 1int).drop_last() == all.take(i as int));
            assert(all.take(i + 1int).last() == all[i as int]);
            assert(vs@[i as int]@ == all[i as int]);
        }
        if i > 0 {
            out.append(", ");
        }
        out.append("\"");
        out.append(vs[i].as_str());
        out.append("\"");
        proof {
            if i == 0 {
                assert(all.take(1int).len() == 1);
                assert(all.take(1int)[0] == all[0]);
                assert(out@ =~= "["@ + spec_quoted_items(all.take(1int)));
            } else {
                assert(out@ =~= "["@ + spec_quoted_items(all.take(i + 1int)));
            }
        }
        i = i + 1;
    }
    proof {
        assert(all.take(vs@.len() as int) == all);
    }
    out.append("]");
    proof {
        assert(out@ =~= spec_quoted_list(all));
    }
    out
}

/// The unit's output; it raises no findings.
pub struct UpgradeClassification {
    pub checks: Vec<CheckResult>,
}

/// Classifies upgrade readiness: the kubelet version spread (sorted and
/// deduplicated) and the informational deprecated-API reminder built from
/// the reported cluster version.
pub fn classify_upgrade(
    kubelet_versions: Vec<String>,
    any_nodes: bool,
    cluster_version: Option<String>,
) -> (r: UpgradeClassification)
    ensures
        r.checks@.len() == 2,
        r.checks.deep_view()[0] == (if !any_nodes {
            (CheckResultView {
                name: "Cluster Version"@,
                description: "Checks control plane and kubelet versions"@,
                status: crate::checks::spec_status_for_score(60_000),
                score: 60_000,
                max_score: 100_000,
                details: Some("No nodes discovered"@),
                recommendations: seq!["Ensure kubeconfig has cluster-admin access."@],
            })
        } else {
            let distinct = spec_dedup(spec_sort_lex(kubelet_versions.deep_view()));
            (CheckResultView {
                name: "Kubelet Versions"@,
                description: "Collects kubelet versions for upgrade planning"@,
                status: crate::checks::spec_status_for_score(
                    if distinct.len() > 1 {
                        90_000
                    } else {
                        100_000
                    },
                ),
                score: if distinct.len() > 1 {
                    90_000
                } else {
                    100_000
                },
                max_score: 100_000,
                details: Some("Detected kubelet versions: "@ + spec_quoted_list(distinct)),
                recommendations: if distinct.len() > 1 {
                    seq!["Kubelet versions differ; align node upgrades for consistency."@]
                } else {
                    Seq::empty()
                },
            })
        }),
        r.checks.deep_view()[1] == spec_check_row(
            "Deprecated API usage"@,
            "Reminds to audit resources for deprecated or removed API versions before upgrade"@,
            100_000,
            "Cluster version: "@ + (match cluster_version.deep_view() {
                Some(v) => v,
                None => "unknown"@,
            })
                + ". Use kubectl or the official deprecation guide to audit resources for deprecated API versions (e.g. extensions/v1beta1, apps/v1beta1)."@,
            "Migrate workloads to current API versions before upgrading. See https://kubernetes.io/docs/reference/using-api/deprecation-guide/"@,
            200_000,
        ),
{
    let c0 = if !any_nodes {
        let mut recs: Vec<String> = Vec::new();
        recs.push("Ensure kubeconfig has cluster-admin access.".to_owned());
        let c = check_row_with(
            "Cluster Version",
            "Checks control plane and kubelet versions",
            60_000,
            "No nodes discovered".to_owned(),
            recs,
        );
        proof {
            assert(c@.recommendations =~= seq!["Ensure kubeconfig has cluster-admin access."@]);
        }
        c
    } else {
        let mut versions = kubelet_versions;
        sort_strings(&mut versions);
        let distinct = dedup_strings(&versions);
        let score: u64 = if distinct.len() > 1 {
            90_000
        } else {
            100_000
        };
        let rendered = quoted_list(&distinct);
        let details = crate::text::cat2("Detected kubelet versions: ", rendered.as_str());
        let recs: Vec<String> = if distinct.len() > 1 {
            let mut v: Vec<String> = Vec::new();
            v.push("Kubelet versions differ; align node upgrades for consistency.".to_owned());
            v
        } else {
            Vec::new()
        };
        let c = check_row_with(
            "Kubelet Versions",
            "Collects kubelet versions for upgrade planning",
            score,
            details,
            recs,
        );
        proof {
            if spec_dedup(spec_sort_lex(kubelet_versions.deep_view())).len() > 1 {
                assert(c@.recommendations =~= seq![
                    "Kubelet versions differ; align node upgrades for consistency."@,
                ]);
            } else {
                assert(c@.recommendations =~= Seq::<Seq<char>>::empty());
            }
        }
        c
    };
    let version_text = match &cluster_version {
        Some(v) => v.clone(),
        None => "unknown".to_owned(),
    };
    let details = crate::text::cat3(
        "Cluster version: ",
        version_text.as_str(),
        ". Use kubectl or the official deprecation guide to audit resources for deprecated API versions (e.g. extensions/v1beta1, apps/v1beta1).",
    );
    let c1 = check_row(
        "Deprecated API usage",
        "Reminds to audit resources for deprecated or removed API versions before upgrade",
        100_000,
        details,
        "Migrate workloads to current API versions before upgrading. See https://kubernetes.io/docs/reference/using-api/deprecation-guide/",
        200_000,
    );
    let mut checks: Vec<CheckResult> = Vec::new();
    checks.push(c0);
    checks.push(c1);
    UpgradeClassification { checks }
}

} // verus!
