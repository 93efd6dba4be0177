//! Per-host snapshot records, one per cluster host, produced by the
//! independently running host agents and read-only after parsing.
//!
//! Fractional measurements are carried in thousandths: a CPU usage of
//! 12.5% is `12_500`, a disk size of 40.1 Gi is `40_100`.

use vstd::prelude::*;

verus! {

/// One mount point row: usage in thousandths of a Gi and of a percent.
#[derive(Debug)]
pub struct NodeDiskMount {
    pub device: String,
    pub mount_point: String,
    pub fstype: String,
    pub total_g_milli: Option<u64>,
    pub used_g_milli: Option<u64>,
    pub used_pct_milli: Option<u64>,
}

pub struct NodeDiskMountView {
    pub device: Seq<char>,
    pub mount_point: Seq<char>,
    pub fstype: Seq<char>,
    pub total_g_milli: Option<u64>,
    pub used_g_milli: Option<u64>,
    pub used_pct_milli: Option<u64>,
}

impl View for NodeDiskMount {
    type V = NodeDiskMountView;

    open spec fn view(&self) -> NodeDiskMountView {
        NodeDiskMountView {
            device: self.device@,
            mount_point: self.mount_point@,
            fstype: self.fstype@,
            total_g_milli: self.total_g_milli,
            used_g_milli: self.used_g_milli,
            used_pct_milli: self.used_pct_milli,
        }
    }
}

impl DeepView for NodeDiskMount {
    type V = NodeDiskMountView;

    open spec fn deep_view(&self) -> NodeDiskMountView {
        self.view()
    }
}

/// One certificate entry found on the host.
#[derive(Debug)]
pub struct NodeCertificate {
    pub path: String,
    pub expiration_date: String,
    pub days_remaining: i64,
    pub status: String,
}

pub struct NodeCertificateView {
    pub path: Seq<char>,
    pub expiration_date: Seq<char>,
    pub days_remaining: i64,
    pub status: Seq<char>,
}

impl View for NodeCertificate {
    type V = NodeCertificateView;

    open spec fn view(&self) -> NodeCertificateView {
        NodeCertificateView {
            path: self.path@,
            expiration_date: self.expiration_date@,
            days_remaining: self.days_remaining,
            status: self.status@,
        }
    }
}

impl DeepView for NodeCertificate {
    type V = NodeCertificateView;

    open spec fn deep_view(&self) -> NodeCertificateView {
        self.view()
    }
}

/// Host resource readings: CPU, memory, disk, swap and load.
#[derive(Debug)]
pub struct NodeResources {
    pub cpu_cores: Option<u32>,
    /// CPU in use, in thousandths of a core.
    pub cpu_used_milli: Option<u64>,
    /// CPU usage percentage, in thousandths.
    pub cpu_used_pct_milli: Option<u64>,
    pub memory_total_mib: Option<u64>,
    pub memory_used_mib: Option<u64>,
    pub memory_used_pct_milli: Option<u64>,
    pub root_disk_pct_milli: Option<u64>,
    pub disk_total_g_milli: Option<u64>,
    pub disk_used_g_milli: Option<u64>,
    pub disk_used_pct_milli: Option<u64>,
    pub load_1m: Option<String>,
    pub load_5m: Option<String>,
    pub load_15m: Option<String>,
    pub swap_enabled: Option<bool>,
    pub swap_total_g_milli: Option<u64>,
    pub swap_used_g_milli: Option<u64>,
    pub swap_used_pct_milli: Option<u64>,
    pub status: String,
    pub detail: String,
}

pub struct NodeResourcesView {
    pub cpu_cores: Option<u32>,
    pub cpu_used_milli: Option<u64>,
    pub cpu_used_pct_milli: Option<u64>,
    pub memory_total_mib: Option<u64>,
    pub memory_used_mib: Option<u64>,
    pub memory_used_pct_milli: Option<u64>,
    pub root_disk_pct_milli: Option<u64>,
    pub disk_total_g_milli: Option<u64>,
    pub disk_used_g_milli: Option<u64>,
    pub disk_used_pct_milli: Option<u64>,
    pub load_1m: Option<Seq<char>>,
    pub load_5m: Option<Seq<char>>,
    pub load_15m: Option<Seq<char>>,
    pub swap_enabled: Option<bool>,
    pub swap_total_g_milli: Option<u64>,
    pub swap_used_g_milli: Option<u64>,
    pub swap_used_pct_milli: Option<u64>,
    pub status: Seq<char>,
    pub detail: Seq<char>,
}

impl View for NodeResources {
    type V = NodeResourcesView;

    open spec fn view(&self) -> NodeResourcesView {
        NodeResourcesView {
            cpu_cores: self.cpu_cores,
            cpu_used_milli: self.cpu_used_milli,
            cpu_used_pct_milli: self.cpu_used_pct_milli,
            memory_total_mib: self.memory_total_mib,
            memory_used_mib: self.memory_used_mib,
            memory_used_pct_milli: self.memory_used_pct_milli,
            root_disk_pct_milli: self.root_disk_pct_milli,
            disk_total_g_milli: self.disk_total_g_milli,
            disk_used_g_milli: self.disk_used_g_milli,
            disk_used_pct_milli: self.disk_used_pct_milli,
            load_1m: self.load_1m.deep_view(),
            load_5m: self.load_5m.deep_view(),
            load_15m: self.load_15m.deep_view(),
            swap_enabled: self.swap_enabled,
            swap_total_g_milli: self.swap_total_g_milli,
            swap_used_g_milli: self.swap_used_g_milli,
            swap_used_pct_milli: self.swap_used_pct_milli,
            status: self.status@,
            detail: self.detail@,
        }
    }
}

impl DeepView for NodeResources {
    type V = NodeResourcesView;

    open spec fn deep_view(&self) -> NodeResourcesView {
        self.view()
    }
}

/// Host service state: runtime, journald, crontab, NTP.
#[derive(Debug)]
pub struct NodeServices {
    pub runtime: String,
    pub journald_active: Option<bool>,
    pub crontab_present: Option<bool>,
    pub ntp_synced: Option<bool>,
    pub status: String,
    pub detail: String,
}

pub struct NodeServicesView {
    pub runtime: Seq<char>,
    pub journald_active: Option<bool>,
    pub crontab_present: Option<bool>,
    pub ntp_synced: Option<bool>,
    pub status: Seq<char>,
    pub detail: Seq<char>,
}

impl View for NodeServices {
    type V = NodeServicesView;

    open spec fn view(&self) -> NodeServicesView {
        NodeServicesView {
            runtime: self.runtime@,
            journald_active: self.journald_active,
            crontab_present: self.crontab_present,
            ntp_synced: self.ntp_synced,
            status: self.status@,
            detail: self.detail@,
        }
    }
}

impl DeepView for NodeServices {
    type V = NodeServicesView;

    open spec fn deep_view(&self) -> NodeServicesView {
        self.view()
    }
}

/// Host security state: SELinux, firewalld, IPVS.
#[derive(Debug)]
pub struct NodeSecurity {
    pub selinux: Option<String>,
    pub firewalld_active: Option<bool>,
    pub ipvs_loaded: Option<bool>,
    pub status: String,
    pub detail: String,
}

pub struct NodeSecurityView {
    pub selinux: Option<Seq<char>>,
    pub firewalld_active: Option<bool>,
    pub ipvs_loaded: Option<bool>,
    pub status: Seq<char>,
    pub detail: Seq<char>,
}

impl View for NodeSecurity {
    type V = NodeSecurityView;

    open spec fn view(&self) -> NodeSecurityView {
        NodeSecurityView {
            selinux: self.selinux.deep_view(),
            firewalld_active: self.firewalld_active,
            ipvs_loaded: self.ipvs_loaded,
            status: self.status@,
            detail: self.detail@,
        }
    }
}

impl DeepView for NodeSecurity {
    type V = NodeSecurityView;

    open spec fn deep_view(&self) -> NodeSecurityView {
        self.view()
    }
}

/// Key kernel parameters read on the host.
#[derive(Debug)]
pub struct NodeKernel {
    pub net_ipv4_ip_forward: Option<String>,
    pub vm_swappiness: Option<String>,
    pub net_core_somaxconn: Option<String>,
    pub status: String,
    pub detail: String,
}

pub struct NodeKernelView {
    pub net_ipv4_ip_forward: Option<Seq<char>>,
    pub vm_swappiness: Option<Seq<char>>,
    pub net_core_somaxconn: Option<Seq<char>>,
    pub status: Seq<char>,
    pub detail: Seq<char>,
}

impl View for NodeKernel {
    type V = NodeKernelView;

    open spec fn view(&self) -> NodeKernelView {
        NodeKernelView {
            net_ipv4_ip_forward: self.net_ipv4_ip_forward.deep_view(),
            vm_swappiness: self.vm_swappiness.deep_view(),
            net_core_somaxconn: self.net_core_somaxconn.deep_view(),
            status: self.status@,
            detail: self.detail@,
        }
    }
}

impl DeepView for NodeKernel {
    type V = NodeKernelView;

    open spec fn deep_view(&self) -> NodeKernelView {
        self.view()
    }
}

/// Per-state container counts on one host; zero counts simply read zero.
#[derive(Debug, Clone, Copy, PartialEq, Eq, Structural)]
pub struct ContainerStateCounts {
    pub running: u32,
    pub waiting: u32,
    pub exited: u32,
}

/// One host's snapshot, parsed from the agent's single JSON output blob.
#[derive(Debug)]
pub struct NodeInspectionResult {
    /// Self-reported host identity; filled from the platform-reported host
    /// binding when the agent left it empty.
    pub node_name: String,
    pub hostname: String,
    /// Self-reported collection time, RFC 3339.
    pub timestamp: String,
    pub runtime: String,
    pub os_version: Option<String>,
    pub kernel_version: Option<String>,
    pub uptime: Option<String>,
    pub resources: NodeResources,
    pub container_state_counts: Option<ContainerStateCounts>,
    pub services: NodeServices,
    pub security: NodeSecurity,
    pub kernel: NodeKernel,
    pub zombie_count: Option<u32>,
    pub issue_count: u32,
    pub node_certificates: Option<Vec<NodeCertificate>>,
    pub node_disks: Option<Vec<NodeDiskMount>>,
}

pub struct NodeInspectionResultView {
    pub node_name: Seq<char>,
    pub hostname: Seq<char>,
    pub timestamp: Seq<char>,
    pub runtime: Seq<char>,
    pub os_version: Option<Seq<char>>,
    pub kernel_version: Option<Seq<char>>,
    pub uptime: Option<Seq<char>>,
    pub resources: NodeResourcesView,
    pub container_state_counts: Option<ContainerStateCounts>,
    pub services: NodeServicesView,
    pub security: NodeSecurityView,
    pub kernel: NodeKernelView,
    pub zombie_count: Option<u32>,
    pub issue_count: u32,
    pub node_certificates: Option<Seq<NodeCertificateView>>,
    pub node_disks: Option<Seq<NodeDiskMountView>>,
}

impl View for NodeInspectionResult {
    type V = NodeInspectionResultView;

    open spec fn view(&self) -> NodeInspectionResultView {
        NodeInspectionResultView {
            node_name: self.node_name@,
            hostname: self.hostname@,
            timestamp: self.timestamp@,
            runtime: self.runtime@,
            os_version: self.os_version.deep_view(),
            kernel_version: self.kernel_version.deep_view(),
            uptime: self.uptime.deep_view(),
            resources: self.resources@,
            container_state_counts: self.container_state_counts,
            services: self.services@,
            security: self.security@,
            kernel: self.kernel@,
            zombie_count: self.zombie_count,
            issue_count: self.issue_count,
            node_certificates: self.node_certificates.deep_view(),
            node_disks: self.node_disks.deep_view(),
        }
    }
}

impl DeepView for NodeInspectionResult {
    type V = NodeInspectionResultView;

    open spec fn deep_view(&self) -> NodeInspectionResultView {
        self.view()
    }
}

} // verus!
