use kubeowler::collector::{
    fill_container_state_counts, is_stale, merge_snapshots, oldest_timestamp_epoch, AgentPayload,
    Collector, CollectorAction, CollectorConfig, CollectorEvent, ContainerStateKind,
    ContainerStateObservation, NodeInspectorStatus,
};
use kubeowler::node_types::{
    NodeInspectionResult, NodeKernel, NodeResources, NodeSecurity, NodeServices,
};

fn snapshot(node_name: &str, hostname: &str, timestamp: &str) -> NodeInspectionResult {
    NodeInspectionResult {
        node_name: node_name.to_string(),
        hostname: hostname.to_string(),
        timestamp: timestamp.to_string(),
        runtime: "containerd".to_string(),
        os_version: None,
        kernel_version: None,
        uptime: None,
        resources: NodeResources {
            cpu_cores: Some(4),
            cpu_used_milli: None,
            cpu_used_pct_milli: None,
            memory_total_mib: Some(8192),
            memory_used_mib: None,
            memory_used_pct_milli: None,
            root_disk_pct_milli: None,
            disk_total_g_milli: None,
            disk_used_g_milli: None,
            disk_used_pct_milli: None,
            load_1m: None,
            load_5m: None,
            load_15m: None,
            swap_enabled: Some(false),
            swap_total_g_milli: None,
            swap_used_g_milli: None,
            swap_used_pct_milli: None,
            status: "ok".to_string(),
            detail: String::new(),
        },
        container_state_counts: None,
        services: NodeServices {
            runtime: "containerd".to_string(),
            journald_active: Some(true),
            crontab_present: None,
            ntp_synced: Some(true),
            status: "ok".to_string(),
            detail: String::new(),
        },
        security: NodeSecurity {
            selinux: None,
            firewalld_active: None,
            ipvs_loaded: None,
            status: "ok".to_string(),
            detail: String::new(),
        },
        kernel: NodeKernel {
            net_ipv4_ip_forward: Some("1".to_string()),
            vm_swappiness: None,
            net_core_somaxconn: None,
            status: "ok".to_string(),
            detail: String::new(),
        },
        zombie_count: None,
        issue_count: 0,
        node_certificates: None,
        node_disks: None,
    }
}

const HOUR: i64 = 3600;

#[test]
fn test_stale_data_triggers_exactly_one_restart_and_one_repoll() {
    // all three agents answer at once with 25 h old timestamps against a
    // 24 h threshold: one restart, one re-poll, RestartedAndReady
    let now: i64 = 1_700_000_000;
    let old_ts = Some(now - 25 * HOUR);
    let mut c = Collector::new(CollectorConfig::standard());
    assert!(matches!(c.next_action(), CollectorAction::ListAgents));
    let a = c.step(CollectorEvent::AgentsListed { running: 3, now_epoch: now });
    assert!(matches!(a, CollectorAction::SweepAgents));
    let a = c.step(CollectorEvent::SweepCompleted {
        ready: 3,
        total: 3,
        oldest_epoch: old_ts,
        now_epoch: now,
    });
    assert!(matches!(a, CollectorAction::RestartAgents));
    assert_eq!(c.restarts_issued, 1);
    let a = c.step(CollectorEvent::RestartRequested { accepted: true, now_epoch: now });
    assert!(matches!(a, CollectorAction::ReadRollout));
    // first rollout read not complete yet, second one is
    let a = c.step(CollectorEvent::RolloutObserved { desired: 3, ready: 1, read_ok: true, now_epoch: now });
    assert!(matches!(a, CollectorAction::PauseThenReadRollout));
    let a = c.step(CollectorEvent::RolloutObserved { desired: 3, ready: 3, read_ok: true, now_epoch: now });
    assert!(matches!(a, CollectorAction::ListAgents));
    let a = c.step(CollectorEvent::AgentsListed { running: 3, now_epoch: now });
    assert!(matches!(a, CollectorAction::SweepAgents));
    assert_eq!(c.repolls, 1);
    let a = c.step(CollectorEvent::SweepCompleted {
        ready: 3,
        total: 3,
        oldest_epoch: Some(now),
        now_epoch: now,
    });
    assert!(matches!(a, CollectorAction::Stop));
    assert_eq!(c.status(), Some(NodeInspectorStatus::RestartedAndReady));
    assert_eq!(c.restarts_issued, 1);
    assert_eq!(c.repolls, 1);
}

#[test]
fn test_fresh_data_issues_zero_restarts() {
    // 1 h old timestamps against a 24 h threshold: Ready, no restart
    let now: i64 = 1_700_000_000;
    let mut c = Collector::new(CollectorConfig::standard());
    c.step(CollectorEvent::AgentsListed { running: 3, now_epoch: now });
    let a = c.step(CollectorEvent::SweepCompleted {
        ready: 3,
        total: 3,
        oldest_epoch: Some(now - HOUR),
        now_epoch: now,
    });
    assert!(matches!(a, CollectorAction::Stop));
    assert_eq!(c.status(), Some(NodeInspectorStatus::Ready));
    assert_eq!(c.restarts_issued, 0);
    assert_eq!(c.repolls, 0);
}

#[test]
fn test_partial_timeout_within_one_interval() {
    // two of three agents answer immediately, one never does: the pass
    // ends at ReadyPartial{2,3} no later than the wall-clock deadline
    // plus one poll interval
    let start: i64 = 1_700_000_000;
    let cfg = CollectorConfig::standard();
    let mut c = Collector::new(cfg);
    c.step(CollectorEvent::AgentsListed { running: 3, now_epoch: start });
    let deadline = start + cfg.poll_timeout_secs as i64;
    let mut sweeps: u64 = 0;
    let mut clock = start;
    loop {
        let a = c.step(CollectorEvent::SweepCompleted {
            ready: 2,
            total: 3,
            oldest_epoch: Some(start),
            now_epoch: clock,
        });
        sweeps += 1;
        match a {
            CollectorAction::PauseThenSweep => {
                clock += cfg.poll_interval_secs as i64;
                assert!(clock < deadline + cfg.poll_interval_secs as i64);
            }
            CollectorAction::Stop => break,
            other => panic!("unexpected action {:?}", other),
        }
    }
    assert_eq!(c.status(), Some(NodeInspectorStatus::ReadyPartial { ready: 2, total: 3 }));
    // 300 s deadline with 6 s sweeps: the 51st sweep sees the deadline
    assert_eq!(sweeps, 51);
    assert_eq!(clock, deadline);
    assert!(clock <= deadline + cfg.poll_interval_secs as i64);
}

#[test]
fn test_no_running_agents_is_not_deployed() {
    let mut c = Collector::new(CollectorConfig::standard());
    let a = c.step(CollectorEvent::AgentsListed { running: 0, now_epoch: 1_700_000_000 });
    assert!(matches!(a, CollectorAction::Stop));
    assert_eq!(c.status(), Some(NodeInspectorStatus::NotDeployed));
}

#[test]
fn test_refused_restart_degrades_to_not_deployed() {
    let now: i64 = 1_700_000_000;
    let mut c = Collector::new(CollectorConfig::standard());
    c.step(CollectorEvent::AgentsListed { running: 2, now_epoch: now });
    c.step(CollectorEvent::SweepCompleted {
        ready: 2,
        total: 2,
        oldest_epoch: Some(now - 48 * HOUR),
        now_epoch: now,
    });
    let a = c.step(CollectorEvent::RestartRequested { accepted: false, now_epoch: now });
    assert!(matches!(a, CollectorAction::Stop));
    assert_eq!(c.status(), Some(NodeInspectorStatus::NotDeployed));
}

#[test]
fn test_rollout_timeout_is_non_fatal() {
    let now: i64 = 1_700_000_000;
    let mut c = Collector::new(CollectorConfig::standard());
    c.step(CollectorEvent::AgentsListed { running: 1, now_epoch: now });
    c.step(CollectorEvent::SweepCompleted {
        ready: 1,
        total: 1,
        oldest_epoch: Some(now - 25 * HOUR),
        now_epoch: now,
    });
    c.step(CollectorEvent::RestartRequested { accepted: true, now_epoch: now });
    // the rollout never completes; past the 180 s wall-clock budget the
    // protocol moves on to re-discovery anyway
    let mut reads: u32 = 0;
    let mut clock = now;
    loop {
        let a = c.step(CollectorEvent::RolloutObserved {
            desired: 1,
            ready: 0,
            read_ok: true,
            now_epoch: clock,
        });
        reads += 1;
        match a {
            CollectorAction::PauseThenReadRollout => clock += 2,
            CollectorAction::ListAgents => break,
            other => panic!("unexpected action {:?}", other),
        }
        assert!(reads < 1000);
    }
    // reads at 0, 2, ..., 180 seconds after the acknowledgement
    assert_eq!(reads, 91);
}

#[test]
fn test_is_stale_thresholds() {
    let now: i64 = 1_700_000_000;
    assert!(!is_stale(None, now, 24));
    assert!(!is_stale(Some(now - HOUR), now, 24));
    assert!(!is_stale(Some(now - 24 * HOUR + 1), now, 24));
    assert!(is_stale(Some(now - 24 * HOUR), now, 24));
    assert!(is_stale(Some(now - 25 * HOUR), now, 24));
    // a timestamp from the future always counts as stale
    assert!(is_stale(Some(now + HOUR), now, 24));
}

#[test]
fn test_oldest_timestamp_skips_unparseable() {
    let ts = vec![
        "2024-01-02T00:00:00Z".to_string(),
        "2024-01-01T00:00:00+00:00".to_string(),
        "not a timestamp".to_string(),
    ];
    // 2024-01-01T00:00:00Z in epoch seconds
    assert_eq!(oldest_timestamp_epoch(&ts), Some(1_704_067_200));
    assert_eq!(oldest_timestamp_epoch(&vec!["junk".to_string()]), None);
    assert_eq!(oldest_timestamp_epoch(&vec![]), None);
}

#[test]
fn test_merge_fills_identity_and_sorts() {
    // one agent reports no identity: the platform binding fills it in;
    // one agent's blob was unparsable: its siblings stay, sorted
    let payloads = vec![
        AgentPayload {
            platform_binding: "node-b".to_string(),
            snapshot: Some(snapshot("", "", "2024-01-01T00:00:00Z")),
        },
        AgentPayload {
            platform_binding: "node-a".to_string(),
            snapshot: Some(snapshot("node-a", "host-a", "2024-01-01T00:00:00Z")),
        },
        AgentPayload { platform_binding: "node-c".to_string(), snapshot: None },
    ];
    let merged = merge_snapshots(payloads);
    assert_eq!(merged.len(), 2);
    assert_eq!(merged[0].node_name, "node-a");
    assert_eq!(merged[0].hostname, "host-a");
    assert_eq!(merged[1].node_name, "node-b");
    // an empty hostname falls back to the filled identity
    assert_eq!(merged[1].hostname, "node-b");
}

#[test]
fn test_merge_never_overwrites_reported_identity() {
    let payloads = vec![AgentPayload {
        platform_binding: "platform-name".to_string(),
        snapshot: Some(snapshot("self-name", "", "2024-01-01T00:00:00Z")),
    }];
    let merged = merge_snapshots(payloads);
    assert_eq!(merged[0].node_name, "self-name");
    assert_eq!(merged[0].hostname, "self-name");
}

#[test]
fn test_container_state_tally() {
    let mut results = vec![snapshot("n1", "n1", ""), snapshot("n2", "n2", "")];
    let obs = vec![
        ContainerStateObservation { node_name: "n1".to_string(), kind: ContainerStateKind::Running },
        ContainerStateObservation { node_name: "n1".to_string(), kind: ContainerStateKind::Running },
        ContainerStateObservation { node_name: "n1".to_string(), kind: ContainerStateKind::Exited },
        ContainerStateObservation { node_name: "n3".to_string(), kind: ContainerStateKind::Waiting },
    ];
    fill_container_state_counts(&mut results, &obs);
    let c1 = results[0].container_state_counts.unwrap();
    assert_eq!(c1.running, 2);
    assert_eq!(c1.waiting, 0);
    assert_eq!(c1.exited, 1);
    assert!(results[1].container_state_counts.is_none());
}

#[test]
fn test_slow_reads_cannot_stretch_the_pass() {
    // each sweep takes 100 s of wall time: the deadline still cuts the
    // pass off by the clock, not by a count of sleeps
    let start: i64 = 1_700_000_000;
    let cfg = CollectorConfig::standard();
    let mut c = Collector::new(cfg);
    c.step(CollectorEvent::AgentsListed { running: 2, now_epoch: start });
    let mut clock = start;
    let mut sweeps = 0;
    loop {
        let a = c.step(CollectorEvent::SweepCompleted {
            ready: 1,
            total: 2,
            oldest_epoch: Some(start),
            now_epoch: clock,
        });
        sweeps += 1;
        match a {
            CollectorAction::PauseThenSweep => clock += 100 + cfg.poll_interval_secs as i64,
            CollectorAction::Stop => break,
            other => panic!("unexpected action {:?}", other),
        }
    }
    // sweeps at +0, +106, +212, +318: the fourth sees the 300 s deadline
    assert_eq!(sweeps, 4);
    assert_eq!(c.status(), Some(NodeInspectorStatus::ReadyPartial { ready: 1, total: 2 }));
}
