//! Canonical cluster resource objects for report grouping: the display
//! order of the per-resource sections, and the mapping from a finding's
//! category (and rule code) to its resource key.

use vstd::prelude::*;

use crate::text::{chars_eq_lit, spec_trim_ws, string_from_chars, str_eq, to_chars, trim_ws};
use crate::types::{Issue, IssueView};

verus! {

/// The canonical section order of the per-resource report parts.
pub open spec fn spec_report_resource_order() -> Seq<Seq<char>> {
    seq![
        "Node"@,
        "Pod"@,
        "Service"@,
        "Deployment"@,
        "Namespace"@,
        "PersistentVolume"@,
        "PersistentVolumeClaim"@,
        "StorageClass"@,
        "ClusterRole"@,
        "ClusterRoleBinding"@,
        "ServiceAccount"@,
        "NetworkPolicy"@,
        "Certificate"@,
        "CronJob"@,
        "Job"@,
        "HPA"@,
        "Policy"@,
        "Control Plane"@,
        "Observability"@,
        "Security"@,
        "Resource Management"@,
    ]
}

/// The canonical resource objects, in display order.
pub fn report_resource_order() -> (r: Vec<&'static str>)
    ensures
        r.deep_view() == spec_report_resource_order(),
{
    let mut r: Vec<&'static str> = Vec::new();
    r.push("Node");
    r.push("Pod");
    r.push("Service");
    r.push("Deployment");
    r.push("Namespace");
    r.push("PersistentVolume");
    r.push("PersistentVolumeClaim");
    r.push("StorageClass");
    r.push("ClusterRole");
    r.push("ClusterRoleBinding");
    r.push("ServiceAccount");
    r.push("NetworkPolicy");
    r.push("Certificate");
    r.push("CronJob");
    r.push("Job");
    r.push("HPA");
    r.push("Policy");
    r.push("Control Plane");
    r.push("Observability");
    r.push("Security");
    r.push("Resource Management");
    proof {
        assert(r.deep_view() =~~= spec_report_resource_order());
    }
    r
}

/// The resource key a finding is grouped under: container findings under
/// Pod; batch findings under Job for the job rule codes, else CronJob;
/// the autoscaling, certificates and control-plane categories under their
/// display names; every other trimmed category under itself.
pub open spec fn spec_issue_to_resource_key(i: IssueView) -> Seq<char> {
    let cat = spec_trim_ws(i.category);
    if cat == "Container"@ {
        "Pod"@
    } else if cat == "Batch"@ {
        match i.rule_id {
            Some(rid) => if rid == "BATCH-004"@ || rid == "BATCH-005"@ {
                "Job"@
            } else {
                "CronJob"@
            },
            None => "CronJob"@,
        }
    } else if cat == "Autoscaling"@ {
        "HPA"@
    } else if cat == "Certificates"@ {
        "Certificate"@
    } else if cat == "ControlPlane"@ {
        "Control Plane"@
    } else {
        cat
    }
}

/// Maps a finding to the canonical resource object it is grouped under.
pub fn issue_to_resource_key(issue: &Issue) -> (r: String)
    ensures
        r@ == spec_issue_to_resource_key(issue@),
{
    let chars = to_chars(issue.category.as_str());
    let cat = trim_ws(&chars);
    if chars_eq_lit(&cat, "Container") {
        "Pod".to_owned()
    } else if chars_eq_lit(&cat, "Batch") {
        match &issue.rule_id {
            Some(rid) => {
                if str_eq(rid.as_str(), "BATCH-004") || str_eq(rid.as_str(), "BATCH-005") {
                    "Job".to_owned()
                } else {
                    "CronJob".to_owned()
                }
            },
            None => "CronJob".to_owned(),
        }
    } else if chars_eq_lit(&cat, "Autoscaling") {
        "HPA".to_owned()
    } else if chars_eq_lit(&cat, "Certificates") {
        "Certificate".to_owned()
    } else if chars_eq_lit(&cat, "ControlPlane") {
        "Control Plane".to_owned()
    } else {
        string_from_chars(&cat)
    }
}

} // verus!
