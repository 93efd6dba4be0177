//! Issue code registry: stable codes and short titles for report grouping
//! and documentation linking. Codes are a prefix (NODE, POD, RES, NET, STO,
//! SEC, CTRL, AUTO, BATCH, POLICY, OBS, CERT) plus a three-digit number.

use vstd::prelude::*;
use vstd::string::StringExecFns;

use crate::text::str_eq;

verus! {

/// The registered short title of an issue code, or None for a code not in
/// the registry.
pub open spec fn spec_short_title(code: Seq<char>) -> Option<Seq<char>> {
    if code == "NODE-001"@ {
        Some("Node not ready"@)
    } else if code == "NODE-002"@ {
        Some("Node has resource pressure"@)
    } else if code == "NODE-003"@ {
        Some("Zombie processes on node"@)
    } else if code == "NODE-004"@ {
        Some("Node disk usage high (Warning)"@)
    } else if code == "NODE-005"@ {
        Some("Node disk usage critical"@)
    } else if code == "POD-001"@ {
        Some("Pod in Failed state"@)
    } else if code == "POD-002"@ {
        Some("Pod cannot be scheduled"@)
    } else if code == "POD-003"@ {
        Some("Container restart count too high"@)
    } else if code == "POD-004"@ {
        Some("Container in abnormal state"@)
    } else if code == "POD-005"@ {
        Some("ImagePullBackOff"@)
    } else if code == "POD-006"@ {
        Some("ErrImagePull"@)
    } else if code == "POD-007"@ {
        Some("CrashLoopBackOff"@)
    } else if code == "POD-008"@ {
        Some("ContainerCreating"@)
    } else if code == "POD-009"@ {
        Some("CreateContainerConfigError"@)
    } else if code == "POD-010"@ {
        Some("OOMKilled"@)
    } else if code == "POD-011"@ {
        Some("Container terminated (non-zero exit)"@)
    } else if code == "POD-012"@ {
        Some("Pod Running but not Ready"@)
    } else if code == "RES-001"@ {
        Some("Container has no resource requests"@)
    } else if code == "RES-002"@ {
        Some("Container has no resource limits"@)
    } else if code == "RES-003"@ {
        Some("Namespace has no resource quota"@)
    } else if code == "RES-004"@ {
        Some("CPU limit below request"@)
    } else if code == "RES-005"@ {
        Some("Memory limit below request"@)
    } else if code == "NET-001"@ {
        Some("LoadBalancer has no external IP"@)
    } else if code == "NET-002"@ {
        Some("NodePort outside recommended range"@)
    } else if code == "NET-003"@ {
        Some("Service has no selector or endpoints"@)
    } else if code == "NET-004"@ {
        Some("DNS deployment not ready"@)
    } else if code == "NET-005"@ {
        Some("DNS service not found"@)
    } else if code == "STO-001"@ {
        Some("PV config or backing storage issue"@)
    } else if code == "STO-002"@ {
        Some("PV Released, needs cleanup"@)
    } else if code == "STO-003"@ {
        Some("PV Retained, manual action needed"@)
    } else if code == "STO-004"@ {
        Some("PV has no reclaim policy"@)
    } else if code == "STO-005"@ {
        Some("PVC storage class or capacity issue"@)
    } else if code == "STO-006"@ {
        Some("PVC has data loss risk"@)
    } else if code == "STO-007"@ {
        Some("PVC has no storage class"@)
    } else if code == "STO-008"@ {
        Some("StorageClass has no provisioner"@)
    } else if code == "STO-009"@ {
        Some("No default StorageClass"@)
    } else if code == "STO-010"@ {
        Some("Multiple StorageClasses marked default"@)
    } else if code == "SEC-001"@ {
        Some("ClusterRole has excessive permissions"@)
    } else if code == "SEC-002"@ {
        Some("User has cluster-admin"@)
    } else if code == "SEC-003"@ {
        Some("ServiceAccount has cluster-admin"@)
    } else if code == "SEC-004"@ {
        Some("Pod runs as root"@)
    } else if code == "SEC-005"@ {
        Some("Container runs privileged"@)
    } else if code == "SEC-006"@ {
        Some("Container runs as root"@)
    } else if code == "SEC-007"@ {
        Some("Container allows privilege escalation"@)
    } else if code == "SEC-008"@ {
        Some("Insufficient network policy coverage"@)
    } else if code == "SEC-009"@ {
        Some("Uses default ServiceAccount"@)
    } else if code == "CTRL-001"@ {
        Some("Control plane component not ready"@)
    } else if code == "CTRL-002"@ {
        Some("Static Pod not ready"@)
    } else if code == "AUTO-001"@ {
        Some("HPA replica range too narrow"@)
    } else if code == "AUTO-002"@ {
        Some("HPA has no metrics configured"@)
    } else if code == "AUTO-003"@ {
        Some("HPA target workload or metrics issue"@)
    } else if code == "AUTO-004"@ {
        Some("HPA behavior limits scaling"@)
    } else if code == "AUTO-005"@ {
        Some("HPA metric target not configured"@)
    } else if code == "BATCH-001"@ {
        Some("CronJob suspended"@)
    } else if code == "BATCH-002"@ {
        Some("CronJob job failed"@)
    } else if code == "BATCH-003"@ {
        Some("CronJob schedule or controller issue"@)
    } else if code == "BATCH-004"@ {
        Some("Job needs backoffLimit or resource check"@)
    } else if code == "BATCH-005"@ {
        Some("Job Pod stuck or timeout adjustment needed"@)
    } else if code == "POLICY-001"@ {
        Some("No ResourceQuota configured"@)
    } else if code == "POLICY-002"@ {
        Some("No LimitRange configured"@)
    } else if code == "POLICY-003"@ {
        Some("Critical workload has no PDB"@)
    } else if code == "POLICY-004"@ {
        Some("Replica count does not satisfy PDB"@)
    } else if code == "OBS-001"@ {
        Some("metrics-server not deployed"@)
    } else if code == "OBS-002"@ {
        Some("kube-state-metrics not deployed"@)
    } else if code == "OBS-003"@ {
        Some("Log aggregation not deployed"@)
    } else if code == "OBS-004"@ {
        Some("Prometheus/monitoring not deployed"@)
    } else if code == "CERT-001"@ {
        Some("CSR long Pending or abnormal"@)
    } else if code == "CERT-002"@ {
        Some("Certificate expiring soon"@)
    } else if code == "CERT-003"@ {
        Some("Certificate expired"@)
    } else {
        None
    }
}

/// Returns the short title for an issue code, or None if unknown.
pub fn short_title(code: &str) -> (r: Option<&'static str>)
    ensures
        (match r {
            Some(t) => spec_short_title(code@) == Some(t@),
            None => spec_short_title(code@) is None,
        }),
{
    if str_eq(code, "NODE-001") {
        Some("Node not ready")
    } else if str_eq(code, "NODE-002") {
        Some("Node has resource pressure")
    } else if str_eq(code, "NODE-003") {
        Some("Zombie processes on node")
    } else if str_eq(code, "NODE-004") {
        Some("Node disk usage high (Warning)")
    } else if str_eq(code, "NODE-005") {
        Some("Node disk usage critical")
    } else if str_eq(code, "POD-001") {
        Some("Pod in Failed state")
    } else if str_eq(code, "POD-002") {
        Some("Pod cannot be scheduled")
    } else if str_eq(code, "POD-003") {
        Some("Container restart count too high")
    } else if str_eq(code, "POD-004") {
        Some("Container in abnormal state")
    } else if str_eq(code, "POD-005") {
        Some("ImagePullBackOff")
    } else if str_eq(code, "POD-006") {
        Some("ErrImagePull")
    } else if str_eq(code, "POD-007") {
        Some("CrashLoopBackOff")
    } else if str_eq(code, "POD-008") {
        Some("ContainerCreating")
    } else if str_eq(code, "POD-009") {
        Some("CreateContainerConfigError")
    } else if str_eq(code, "POD-010") {
        Some("OOMKilled")
    } else if str_eq(code, "POD-011") {
        Some("Container terminated (non-zero exit)")
    } else if str_eq(code, "POD-012") {
        Some("Pod Running but not Ready")
    } else if str_eq(code, "RES-001") {
        Some("Container has no resource requests")
    } else if str_eq(code, "RES-002") {
        Some("Container has no resource limits")
    } else if str_eq(code, "RES-003") {
        Some("Namespace has no resource quota")
    } else if str_eq(code, "RES-004") {
        Some("CPU limit below request")
    } else if str_eq(code, "RES-005") {
        Some("Memory limit below request")
    } else if str_eq(code, "NET-001") {
        Some("LoadBalancer has no external IP")
    } else if str_eq(code, "NET-002") {
        Some("NodePort outside recommended range")
    } else if str_eq(code, "NET-003") {
        Some("Service has no selector or endpoints")
    } else if str_eq(code, "NET-004") {
        Some("DNS deployment not ready")
    } else if str_eq(code, "NET-005") {
        Some("DNS service not found")
    } else if str_eq(code, "STO-001") {
        Some("PV config or backing storage issue")
    } else if str_eq(code, "STO-002") {
        Some("PV Released, needs cleanup")
    } else if str_eq(code, "STO-003") {
        Some("PV Retained, manual action needed")
    } else if str_eq(code, "STO-004") {
        Some("PV has no reclaim policy")
    } else if str_eq(code, "STO-005") {
        Some("PVC storage class or capacity issue")
    } else if str_eq(code, "STO-006") {
        Some("PVC has data loss risk")
    } else if str_eq(code, "STO-007") {
        Some("PVC has no storage class")
    } else if str_eq(code, "STO-008") {
        Some("StorageClass has no provisioner")
    } else if str_eq(code, "STO-009") {
        Some("No default StorageClass")
    } else if str_eq(code, "STO-010") {
        Some("Multiple StorageClasses marked default")
    } else if str_eq(code, "SEC-001") {
        Some("ClusterRole has excessive permissions")
    } else if str_eq(code, "SEC-002") {
        Some("User has cluster-admin")
    } else if str_eq(code, "SEC-003") {
        Some("ServiceAccount has cluster-admin")
    } else if str_eq(code, "SEC-004") {
        Some("Pod runs as root")
    } else if str_eq(code, "SEC-005") {
        Some("Container runs privileged")
    } else if str_eq(code, "SEC-006") {
        Some("Container runs as root")
    } else if str_eq(code, "SEC-007") {
        Some("Container allows privilege escalation")
    } else if str_eq(code, "SEC-008") {
        Some("Insufficient network policy coverage")
    } else if str_eq(code, "SEC-009") {
        Some("Uses default ServiceAccount")
    } else if str_eq(code, "CTRL-001") {
        Some("Control plane component not ready")
    } else if str_eq(code, "CTRL-002") {
        Some("Static Pod not ready")
    } else if str_eq(code, "AUTO-001") {
        Some("HPA replica range too narrow")
    } else if str_eq(code, "AUTO-002") {
        Some("HPA has no metrics configured")
    } else if str_eq(code, "AUTO-003") {
        Some("HPA target workload or metrics issue")
    } else if str_eq(code, "AUTO-004") {
        Some("HPA behavior limits scaling")
    } else if str_eq(code, "AUTO-005") {
        Some("HPA metric target not configured")
    } else if str_eq(code, "BATCH-001") {
        Some("CronJob suspended")
    } else if str_eq(code, "BATCH-002") {
        Some("CronJob job failed")
    } else if str_eq(code, "BATCH-003") {
        Some("CronJob schedule or controller issue")
    } else if str_eq(code, "BATCH-004") {
        Some("Job needs backoffLimit or resource check")
    } else if str_eq(code, "BATCH-005") {
        Some("Job Pod stuck or timeout adjustment needed")
    } else if str_eq(code, "POLICY-001") {
        Some("No ResourceQuota configured")
    } else if str_eq(code, "POLICY-002") {
        Some("No LimitRange configured")
    } else if str_eq(code, "POLICY-003") {
        Some("Critical workload has no PDB")
    } else if str_eq(code, "POLICY-004") {
        Some("Replica count does not satisfy PDB")
    } else if str_eq(code, "OBS-001") {
        Some("metrics-server not deployed")
    } else if str_eq(code, "OBS-002") {
        Some("kube-state-metrics not deployed")
    } else if str_eq(code, "OBS-003") {
        Some("Log aggregation not deployed")
    } else if str_eq(code, "OBS-004") {
        Some("Prometheus/monitoring not deployed")
    } else if str_eq(code, "CERT-001") {
        Some("CSR long Pending or abnormal")
    } else if str_eq(code, "CERT-002") {
        Some("Certificate expiring soon")
    } else if str_eq(code, "CERT-003") {
        Some("Certificate expired")
    } else {
        None
    }
}

/// Relative path of the documentation page for an issue code.
pub fn doc_path(code: &str) -> (r: String)
    ensures
        r@ == "docs/issues/"@ + code@ + ".md"@,
{
    let mut s = String::new();
    s.append("docs/issues/");
    s.append(code);
    s.append(".md");
    proof {
        assert(s@ =~= "docs/issues/"@ + code@ + ".md"@);
    }
    s
}


/// The rule code of an abnormal container state: waiting reasons map to
/// their own codes with a generic abnormal-state fallback; terminated
/// states map to the out-of-memory code or the non-zero-exit code.
pub open spec fn spec_container_state_rule(state_kind: Seq<char>, reason: Seq<char>) -> Seq<
    char,
> {
    if state_kind == "waiting"@ {
        if reason == "ImagePullBackOff"@ {
            "POD-005"@
        } else if reason == "ErrImagePull"@ {
            "POD-006"@
        } else if reason == "CrashLoopBackOff"@ {
            "POD-007"@
        } else if reason == "ContainerCreating"@ {
            "POD-008"@
        } else if reason == "CreateContainerConfigError"@ {
            "POD-009"@
        } else {
            "POD-004"@
        }
    } else {
        if reason == "OOMKilled"@ {
            "POD-010"@
        } else {
            "POD-011"@
        }
    }
}

/// Maps a container state and reason to its issue code.
pub fn container_state_reason_to_rule_id(state_kind: &str, reason: &str) -> (r: &'static str)
    ensures
        r@ == spec_container_state_rule(state_kind@, reason@),
{
    if str_eq(state_kind, "waiting") {
        if str_eq(reason, "ImagePullBackOff") {
            "POD-005"
        } else if str_eq(reason, "ErrImagePull") {
            "POD-006"
        } else if str_eq(reason, "CrashLoopBackOff") {
            "POD-007"
        } else if str_eq(reason, "ContainerCreating") {
            "POD-008"
        } else if str_eq(reason, "CreateContainerConfigError") {
            "POD-009"
        } else {
            "POD-004"
        }
    } else {
        if str_eq(reason, "OOMKilled") {
            "POD-010"
        } else {
            "POD-011"
        }
    }
}

} // verus!
