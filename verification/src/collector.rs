//! Readiness protocol and collection for the per-host agent fleet.
//!
//! One invocation makes one pass: discover running agents, poll all of
//! them for output until every one answers or the poll deadline elapses,
//! evaluate freshness, and — when the data is fresh no longer — issue
//! exactly one restart mutation, wait for the rollout, and poll once more.
//! Every outcome is a terminal status for the invocation; a deadline expiry
//! is the normal `ReadyPartial` outcome, never an error.
//!
//! The decisions live in [`Collector::step`], a pure transition function
//! from state and observed event to next state and next action. The caller
//! performs the returned action against the cluster (list, read, restart,
//! sleep) and feeds the observation back in; nothing here touches the
//! network.

use vstd::prelude::*;

use crate::node_types::{ContainerStateCounts, NodeInspectionResult, NodeInspectionResultView};
use crate::text::{spec_lex_lt, str_lt};

verus! {

/// Terminal status of the readiness pre-check, one per invocation.
#[derive(Debug, Clone, Copy, PartialEq, Eq, Structural)]
pub enum NodeInspectorStatus {
    /// No agent is deployed, none is running, or the restart mutation was
    /// refused.
    NotDeployed,
    /// Every agent answered and the data is fresh.
    Ready,
    /// The data was stale; the fleet was restarted once and every agent
    /// answered again.
    RestartedAndReady,
    /// The poll deadline elapsed first; proceed with the `ready` of `total`
    /// agents that answered.
    ReadyPartial { ready: usize, total: usize },
}

/// Fixed timing of one invocation, in seconds; set once at entry.
#[derive(Debug, Clone, Copy, PartialEq, Eq, Structural)]
pub struct CollectorConfig {
    /// Pause between polling sweeps.
    pub poll_interval_secs: u64,
    /// Wall-clock budget of one polling pass.
    pub poll_timeout_secs: u64,
    /// Wall-clock budget of the rollout wait after a restart.
    pub rollout_timeout_secs: u64,
    /// Age, in hours, at which the fleet's self-reported data counts as
    /// stale.
    pub staleness_hours: u64,
}

/// Sanity bounds on the timing: the pause is positive and nothing exceeds
/// a week, so that elapsed-time arithmetic stays well inside `u64`.
pub open spec fn spec_cfg_wf(cfg: CollectorConfig) -> bool {
    &&& 1 <= cfg.poll_interval_secs <= 86_400
    &&& cfg.poll_timeout_secs <= 604_800
    &&& cfg.rollout_timeout_secs <= 604_800
}

impl CollectorConfig {
    /// The standard timing: 6 s sweeps inside a 300 s poll budget, a 180 s
    /// rollout budget, staleness at 24 h.
    pub fn standard() -> (c: CollectorConfig)
        ensures
            c == (CollectorConfig {
                poll_interval_secs: 6,
                poll_timeout_secs: 300,
                rollout_timeout_secs: 180,
                staleness_hours: 24,
            }),
            spec_cfg_wf(c),
    {
        CollectorConfig {
            poll_interval_secs: 6,
            poll_timeout_secs: 300,
            rollout_timeout_secs: 180,
            staleness_hours: 24,
        }
    }
}

/// Which polling pass is running: the first one, or the single pass after
/// the restart.
#[derive(Debug, Clone, Copy, PartialEq, Eq, Structural)]
pub enum PollPass {
    First,
    AfterRestart,
}

/// Where the invocation stands. Each waiting phase carries its wall-clock
/// deadline, fixed when the phase was entered.
#[derive(Debug, Clone, Copy, PartialEq, Eq, Structural)]
pub enum CollectorPhase {
    /// Agents must be listed.
    Discover,
    /// Agents are being polled until `deadline_epoch`.
    Polling { pass: PollPass, deadline_epoch: i64 },
    /// The restart mutation is being issued.
    AwaitingRestart,
    /// Waiting for the fleet rollout, until `deadline_epoch`.
    WaitingRollout { deadline_epoch: i64 },
    /// Agents must be listed again after the restart.
    Rediscover,
    /// Terminal.
    Done { status: NodeInspectorStatus },
}

/// What the caller observed while performing the last action. Every
/// observation carries the clock it was made at, so the deadlines are
/// wall-clock bounds, not sums of sleep intervals.
#[derive(Debug, Clone, Copy, PartialEq, Eq, Structural)]
pub enum CollectorEvent {
    /// Outcome of listing the agents: how many are in a running phase. A
    /// failed list reads as zero running agents.
    AgentsListed { running: usize, now_epoch: i64 },
    /// Outcome of one full sweep over all running agents: how many had
    /// non-empty output, the oldest self-reported timestamp among the
    /// parseable ones (epoch seconds), and the clock at the sweep.
    SweepCompleted { ready: usize, total: usize, oldest_epoch: Option<i64>, now_epoch: i64 },
    /// Whether the fleet accepted the restart mutation.
    RestartRequested { accepted: bool, now_epoch: i64 },
    /// One read of the rollout status: desired and ready agent counts;
    /// `read_ok` is false when the read itself failed.
    RolloutObserved { desired: i64, ready: i64, read_ok: bool, now_epoch: i64 },
}

/// The wall-clock deadline `secs` from `now`, saturating at the top of
/// the epoch range.
pub open spec fn spec_deadline(now: i64, secs: u64) -> i64 {
    if now + secs <= i64::MAX {
        (now + secs) as i64
    } else {
        i64::MAX
    }
}

/// Fixes a deadline `secs` from `now`.
pub fn deadline_from(now: i64, secs: u64) -> (r: i64)
    requires
        secs <= 604_800,
    ensures
        r == spec_deadline(now, secs),
{
    let s = secs as i64;
    if now <= i64::MAX - s {
        now + s
    } else {
        i64::MAX
    }
}

/// What the caller must do next.
#[derive(Debug, Clone, Copy, PartialEq, Eq, Structural)]
pub enum CollectorAction {
    /// List the agent processes by the fixed selector.
    ListAgents,
    /// Read every running agent's output once, without pausing first.
    SweepAgents,
    /// Pause one poll interval, then sweep again.
    PauseThenSweep,
    /// Issue the restart mutation against the fleet.
    RestartAgents,
    /// Read the rollout status, without pausing first.
    ReadRollout,
    /// Pause two seconds, then read the rollout status again.
    PauseThenReadRollout,
    /// The invocation is over; the phase holds the terminal status.
    Stop,
}

/// Whether data whose oldest self-reported timestamp is `oldest` counts as
/// stale at time `now`: unparseable everywhere (None) never does; a
/// timestamp from the future always does; otherwise the age in whole hours
/// must reach the threshold.
pub open spec fn spec_is_stale(oldest: Option<i64>, now: i64, hours: u64) -> bool {
    match oldest {
        None => false,
        Some(o) => o > now || (now - o) / 3600 >= hours,
    }
}

/// Staleness decision on one sweep's oldest timestamp.
pub fn is_stale(oldest: Option<i64>, now: i64, hours: u64) -> (r: bool)
    ensures
        r == spec_is_stale(oldest, now, hours),
{
    match oldest {
        None => false,
        Some(o) => {
            if o > now {
                true
            } else {
                let age: i128 = (now as i128) - (o as i128);
                proof {
                    assert(age / 3600 == (now - o) / 3600);
                }
                age / 3600 >= hours as i128
            }
        },
    }
}

/// The readiness protocol's state.
#[derive(Debug, Clone, Copy, PartialEq, Eq, Structural)]
pub struct Collector {
    pub cfg: CollectorConfig,
    pub phase: CollectorPhase,
    /// How many restart mutations this invocation has issued; never more
    /// than one.
    pub restarts_issued: u32,
    /// How many post-restart polling passes have begun; never more than
    /// one.
    pub repolls: u32,
}

/// The action that matches a phase, used when an event does not: the
/// protocol stands still and asks for the same observation again.
pub open spec fn spec_phase_action(phase: CollectorPhase) -> CollectorAction {
    match phase {
        CollectorPhase::Discover => CollectorAction::ListAgents,
        CollectorPhase::Polling { .. } => CollectorAction::SweepAgents,
        CollectorPhase::AwaitingRestart => CollectorAction::RestartAgents,
        CollectorPhase::WaitingRollout { .. } => CollectorAction::ReadRollout,
        CollectorPhase::Rediscover => CollectorAction::ListAgents,
        CollectorPhase::Done { .. } => CollectorAction::Stop,
    }
}

/// The whole transition relation: next state and next action for a state
/// and an observed event. This is the protocol.
pub open spec fn spec_collector_step(c: Collector, e: CollectorEvent) -> (Collector,
    CollectorAction) {
    match (c.phase, e) {
        (CollectorPhase::Discover, CollectorEvent::AgentsListed { running, now_epoch }) => {
            if running == 0 {
                (
                    Collector {
                        phase: CollectorPhase::Done { status: NodeInspectorStatus::NotDeployed },
                        ..c
                    },
                    CollectorAction::Stop,
                )
            } else {
                (
                    Collector {
                        phase: CollectorPhase::Polling {
                            pass: PollPass::First,
                            deadline_epoch: spec_deadline(now_epoch, c.cfg.poll_timeout_secs),
                        },
                        ..c
                    },
                    CollectorAction::SweepAgents,
                )
            }
        },
        (CollectorPhase::Rediscover, CollectorEvent::AgentsListed { running, now_epoch }) => {
            if running == 0 {
                (
                    Collector {
                        phase: CollectorPhase::Done { status: NodeInspectorStatus::NotDeployed },
                        ..c
                    },
                    CollectorAction::Stop,
                )
            } else {
                (
                    Collector {
                        phase: CollectorPhase::Polling {
                            pass: PollPass::AfterRestart,
                            deadline_epoch: spec_deadline(now_epoch, c.cfg.poll_timeout_secs),
                        },
                        repolls: (c.repolls + 1) as u32,
                        ..c
                    },
                    CollectorAction::SweepAgents,
                )
            }
        },
        (
            CollectorPhase::Polling { pass, deadline_epoch },
            CollectorEvent::SweepCompleted { ready, total, oldest_epoch, now_epoch },
        ) => {
            if ready >= total {
                match pass {
                    PollPass::First => {
                        if spec_is_stale(oldest_epoch, now_epoch, c.cfg.staleness_hours) {
                            (
                                Collector {
                                    phase: CollectorPhase::AwaitingRestart,
                                    restarts_issued: (c.restarts_issued + 1) as u32,
                                    ..c
                                },
                                CollectorAction::RestartAgents,
                            )
                        } else {
                            (
                                Collector {
                                    phase: CollectorPhase::Done {
                                        status: NodeInspectorStatus::Ready,
                                    },
                                    ..c
                                },
                                CollectorAction::Stop,
                            )
                        }
                    },
                    PollPass::AfterRestart => (
                        Collector {
                            phase: CollectorPhase::Done {
                                status: NodeInspectorStatus::RestartedAndReady,
                            },
                            ..c
                        },
                        CollectorAction::Stop,
                    ),
                }
            } else if now_epoch >= deadline_epoch {
                (
                    Collector {
                        phase: CollectorPhase::Done {
                            status: NodeInspectorStatus::ReadyPartial { ready, total },
                        },
                        ..c
                    },
                    CollectorAction::Stop,
                )
            } else {
                (c, CollectorAction::PauseThenSweep)
            }
        },
        (
            CollectorPhase::AwaitingRestart,
            CollectorEvent::RestartRequested { accepted, now_epoch },
        ) => {
            if accepted {
                (
                    Collector {
                        phase: CollectorPhase::WaitingRollout {
                            deadline_epoch: spec_deadline(now_epoch, c.cfg.rollout_timeout_secs),
                        },
                        ..c
                    },
                    CollectorAction::ReadRollout,
                )
            } else {
                (
                    Collector {
                        phase: CollectorPhase::Done { status: NodeInspectorStatus::NotDeployed },
                        ..c
                    },
                    CollectorAction::Stop,
                )
            }
        },
        (
            CollectorPhase::WaitingRollout { deadline_epoch },
            CollectorEvent::RolloutObserved { desired, ready, read_ok, now_epoch },
        ) => {
            if read_ok && desired > 0 && ready >= desired {
                (Collector { phase: CollectorPhase::Rediscover, ..c }, CollectorAction::ListAgents)
            } else if now_epoch >= deadline_epoch {
                // rollout deadline expiry is non-fatal: collect what runs
                (Collector { phase: CollectorPhase::Rediscover, ..c }, CollectorAction::ListAgents)
            } else {
                (c, CollectorAction::PauseThenReadRollout)
            }
        },
        _ => (c, spec_phase_action(c.phase)),
    }
}

/// Protocol invariant: the timing is sane, at most one restart is ever
/// issued, and the post-restart phases know the restart happened.
pub open spec fn spec_collector_wf(c: Collector) -> bool {
    &&& spec_cfg_wf(c.cfg)
    &&& c.restarts_issued <= 1
    &&& c.repolls <= c.restarts_issued
    &&& match c.phase {
        CollectorPhase::Discover => c.restarts_issued == 0,
        CollectorPhase::Polling { pass: PollPass::First, .. } => c.restarts_issued == 0,
        CollectorPhase::Polling { pass: PollPass::AfterRestart, .. } => c.restarts_issued == 1
            && c.repolls == 1,
        CollectorPhase::AwaitingRestart => c.restarts_issued == 1 && c.repolls == 0,
        CollectorPhase::WaitingRollout { .. } => c.restarts_issued == 1 && c.repolls == 0,
        CollectorPhase::Rediscover => c.restarts_issued == 1 && c.repolls == 0,
        CollectorPhase::Done { .. } => true,
    }
}

/// One protocol step keeps the invariant.
pub proof fn lemma_step_preserves_wf(c: Collector, e: CollectorEvent)
    requires
        spec_collector_wf(c),
    ensures
        spec_collector_wf(spec_collector_step(c, e).0),
{
}

/// A restart begins only out of the first polling pass, where none has
/// been issued yet: once one is on the books the counter never moves
/// again, and the only state that still answers `RestartAgents` is the one
/// re-prompting the single pending, idempotent mutation until its
/// acknowledgement arrives.
pub proof fn lemma_at_most_one_restart(c: Collector, e: CollectorEvent)
    requires
        spec_collector_wf(c),
        c.restarts_issued >= 1,
    ensures
        spec_collector_step(c, e).0.restarts_issued == c.restarts_issued,
        spec_collector_step(c, e).1 == CollectorAction::RestartAgents ==> c.phase
            == CollectorPhase::AwaitingRestart,
{
}

/// Fresh data ends the invocation at `Ready` with no restart issued: a
/// first-pass sweep where every agent answered and the oldest timestamp is
/// inside the staleness threshold.
pub proof fn lemma_fresh_data_no_restart(
    c: Collector,
    ready: usize,
    total: usize,
    oldest_epoch: Option<i64>,
    now_epoch: i64,
)
    requires
        spec_collector_wf(c),
        c.phase matches CollectorPhase::Polling { pass: PollPass::First, .. },
        ready >= total,
        !spec_is_stale(oldest_epoch, now_epoch, c.cfg.staleness_hours),
    ensures
        ({
            let (next, action) = spec_collector_step(
                c,
                CollectorEvent::SweepCompleted { ready, total, oldest_epoch, now_epoch },
            );
            &&& next.phase == (CollectorPhase::Done { status: NodeInspectorStatus::Ready })
            &&& action == CollectorAction::Stop
            &&& next.restarts_issued == 0
        }),
{
}

/// Stale data triggers the restart, exactly once: a fully answered
/// first-pass sweep past the staleness threshold issues the mutation, and
/// every later state refuses a second one (see
/// `lemma_at_most_one_restart`).
pub proof fn lemma_stale_data_one_restart(
    c: Collector,
    ready: usize,
    total: usize,
    oldest_epoch: Option<i64>,
    now_epoch: i64,
)
    requires
        spec_collector_wf(c),
        c.phase matches CollectorPhase::Polling { pass: PollPass::First, .. },
        ready >= total,
        spec_is_stale(oldest_epoch, now_epoch, c.cfg.staleness_hours),
    ensures
        ({
            let (next, action) = spec_collector_step(
                c,
                CollectorEvent::SweepCompleted { ready, total, oldest_epoch, now_epoch },
            );
            &&& action == CollectorAction::RestartAgents
            &&& next.restarts_issued == 1
            &&& next.phase == CollectorPhase::AwaitingRestart
        }),
{
}

/// A sweep observed at or past the poll deadline with agents still silent
/// ends the pass at `ReadyPartial{ready, total}`.
pub proof fn lemma_deadline_yields_partial(
    c: Collector,
    pass: PollPass,
    deadline_epoch: i64,
    ready: usize,
    total: usize,
    oldest_epoch: Option<i64>,
    now_epoch: i64,
)
    requires
        spec_collector_wf(c),
        c.phase == (CollectorPhase::Polling { pass, deadline_epoch }),
        ready < total,
        now_epoch >= deadline_epoch,
    ensures
        ({
            let (next, action) = spec_collector_step(
                c,
                CollectorEvent::SweepCompleted { ready, total, oldest_epoch, now_epoch },
            );
            &&& next.phase == (CollectorPhase::Done {
                status: NodeInspectorStatus::ReadyPartial { ready, total },
            })
            &&& action == CollectorAction::Stop
        }),
{
}

/// Another sweep is asked for only strictly before the deadline; so with
/// the caller pacing sweeps one poll interval apart, every sweep of the
/// pass — the terminal one included — is observed strictly before
/// deadline plus one interval: the pass never runs later than that.
pub proof fn lemma_pass_ends_within_interval(
    c: Collector,
    pass: PollPass,
    deadline_epoch: i64,
    ready: usize,
    total: usize,
    oldest_epoch: Option<i64>,
    now_epoch: i64,
    next_sweep_epoch: i64,
)
    requires
        spec_collector_wf(c),
        c.phase == (CollectorPhase::Polling { pass, deadline_epoch }),
        spec_collector_step(
            c,
            CollectorEvent::SweepCompleted { ready, total, oldest_epoch, now_epoch },
        ).1 == CollectorAction::PauseThenSweep,
        next_sweep_epoch <= now_epoch + c.cfg.poll_interval_secs,
    ensures
        now_epoch < deadline_epoch,
        next_sweep_epoch < deadline_epoch + c.cfg.poll_interval_secs,
        spec_collector_step(
            c,
            CollectorEvent::SweepCompleted { ready, total, oldest_epoch, now_epoch },
        ).0 == c,
{
}

impl Collector {
    /// A fresh invocation: nothing discovered, nothing restarted.
    pub fn new(cfg: CollectorConfig) -> (c: Collector)
        requires
            spec_cfg_wf(cfg),
        ensures
            c == (Collector {
                cfg,
                phase: CollectorPhase::Discover,
                restarts_issued: 0,
                repolls: 0,
            }),
            spec_collector_wf(c),
    {
        Collector { cfg, phase: CollectorPhase::Discover, restarts_issued: 0, repolls: 0 }
    }

    /// The action to perform first, or again after an event that did not
    /// belong to the current phase.
    pub fn next_action(&self) -> (a: CollectorAction)
        ensures
            a == spec_phase_action(self.phase),
    {
        match self.phase {
            CollectorPhase::Discover => CollectorAction::ListAgents,
            CollectorPhase::Polling { .. } => CollectorAction::SweepAgents,
            CollectorPhase::AwaitingRestart => CollectorAction::RestartAgents,
            CollectorPhase::WaitingRollout { .. } => CollectorAction::ReadRollout,
            CollectorPhase::Rediscover => CollectorAction::ListAgents,
            CollectorPhase::Done { .. } => CollectorAction::Stop,
        }
    }

    /// The terminal status, once the protocol has stopped.
    pub fn status(&self) -> (r: Option<NodeInspectorStatus>)
        ensures
            (match self.phase {
                CollectorPhase::Done { status } => r == Some(status),
                _ => r is None,
            }),
    {
        match self.phase {
            CollectorPhase::Done { status } => Some(status),
            _ => None,
        }
    }

    /// Feeds one observation in and says what to do next: exactly the
    /// transition relation `spec_collector_step`, with the invariant kept.
    pub fn step(&mut self, e: CollectorEvent) -> (a: CollectorAction)
        requires
            spec_collector_wf(*old(self)),
        ensures
            *final(self) == spec_collector_step(*old(self), e).0,
            a == spec_collector_step(*old(self), e).1,
            spec_collector_wf(*final(self)),
    {
        let c = *self;
        match (c.phase, e) {
            (CollectorPhase::Discover, CollectorEvent::AgentsListed { running, now_epoch }) => {
                if running == 0 {
                    self.phase = CollectorPhase::Done { status: NodeInspectorStatus::NotDeployed };
                    CollectorAction::Stop
                } else {
                    self.phase = CollectorPhase::Polling {
                        pass: PollPass::First,
                        deadline_epoch: deadline_from(now_epoch, c.cfg.poll_timeout_secs),
                    };
                    CollectorAction::SweepAgents
                }
            },
            (CollectorPhase::Rediscover, CollectorEvent::AgentsListed { running, now_epoch }) => {
                if running == 0 {
                    self.phase = CollectorPhase::Done { status: NodeInspectorStatus::NotDeployed };
                    CollectorAction::Stop
                } else {
                    self.phase = CollectorPhase::Polling {
                        pass: PollPass::AfterRestart,
                        deadline_epoch: deadline_from(now_epoch, c.cfg.poll_timeout_secs),
                    };
                    self.repolls = self.repolls + 1;
                    CollectorAction::SweepAgents
                }
            },
            (
                CollectorPhase::Polling { pass, deadline_epoch },
                CollectorEvent::SweepCompleted { ready, total, oldest_epoch, now_epoch },
            ) => {
                if ready >= total {
                    match pass {
                        PollPass::First => {
                            if is_stale(oldest_epoch, now_epoch, c.cfg.staleness_hours) {
                                self.phase = CollectorPhase::AwaitingRestart;
                                self.restarts_issued = self.restarts_issued + 1;
                                CollectorAction::RestartAgents
                            } else {
                                self.phase = CollectorPhase::Done {
                                    status: NodeInspectorStatus::Ready,
                                };
                                CollectorAction::Stop
                            }
                        },
                        PollPass::AfterRestart => {
                            self.phase = CollectorPhase::Done {
                                status: NodeInspectorStatus::RestartedAndReady,
                            };
                            CollectorAction::Stop
                        },
                    }
                } else if now_epoch >= deadline_epoch {
                    self.phase = CollectorPhase::Done {
                        status: NodeInspectorStatus::ReadyPartial { ready, total },
                    };
                    CollectorAction::Stop
                } else {
                    CollectorAction::PauseThenSweep
                }
            },
            (
                CollectorPhase::AwaitingRestart,
                CollectorEvent::RestartRequested { accepted, now_epoch },
            ) => {
                if accepted {
                    self.phase = CollectorPhase::WaitingRollout {
                        deadline_epoch: deadline_from(now_epoch, c.cfg.rollout_timeout_secs),
                    };
                    CollectorAction::ReadRollout
                } else {
                    self.phase = CollectorPhase::Done { status: NodeInspectorStatus::NotDeployed };
                    CollectorAction::Stop
                }
            },
            (
                CollectorPhase::WaitingRollout { deadline_epoch },
                CollectorEvent::RolloutObserved { desired, ready, read_ok, now_epoch },
            ) => {
                if read_ok && desired > 0 && ready >= desired {
                    self.phase = CollectorPhase::Rediscover;
                    CollectorAction::ListAgents
                } else if now_epoch >= deadline_epoch {
                    self.phase = CollectorPhase::Rediscover;
                    CollectorAction::ListAgents
                } else {
                    CollectorAction::PauseThenReadRollout
                }
            },
            _ => self.next_action(),
        }
    }
}

/// Names the epoch seconds that chrono reads out of an RFC 3339 string;
/// the result depends on the characters alone.
pub uninterp spec fn rfc3339_epoch_of(s: Seq<char>) -> Option<i64>;

/// Relies on chrono's `DateTime::parse_from_rfc3339` and `timestamp`: the
/// parse is a pure function of the string, and `timestamp` the epoch
/// seconds of the parsed instant.
#[verifier::external_body]
fn parse_rfc3339_epoch(s: &str) -> (r: Option<i64>)
    ensures
        r == rfc3339_epoch_of(s@),
{
    match chrono::DateTime::parse_from_rfc3339(s) {
        Ok(dt) => Some(dt.timestamp()),
        Err(_) => None,
    }
}

/// The smallest epoch among the parseable timestamps, None when none
/// parses.
pub open spec fn spec_oldest_epoch(ts: Seq<Seq<char>>) -> Option<i64>
    decreases ts.len(),
{
    if ts.len() == 0 {
        None
    } else {
        let rest = spec_oldest_epoch(ts.drop_last());
        match (rest, rfc3339_epoch_of(ts.last())) {
            (None, x) => x,
            (Some(a), None) => Some(a),
            (Some(a), Some(b)) => if b < a {
                Some(b)
            } else {
                Some(a)
            },
        }
    }
}

/// Oldest self-reported timestamp of a sweep: the minimum epoch among the
/// entries that parse as RFC 3339; entries that do not parse are skipped.
pub fn oldest_timestamp_epoch(timestamps: &Vec<String>) -> (r: Option<i64>)
    ensures
        r == spec_oldest_epoch(timestamps.deep_view()),
{
    let ghost all = timestamps.deep_view();
    let mut r: Option<i64> = None;
    let mut i: usize = 0;
    while i < timestamps.len()
        invariant
            i <= timestamps@.len(),
            all == timestamps.deep_view(),
            all.len() == timestamps@.len(),
            r == spec_oldest_epoch(all.take(i as int)),
        decreases timestamps@.len() - i,
    {
        proof {
            assert(all.take(i + 1int).drop_last() == all.take(i as int));
            assert(all.take(i + 1int).last() == all[i as int]);
            assert(timestamps@[i as int]@ == all[i as int]);
        }
        let parsed = parse_rfc3339_epoch(timestamps[i].as_str());
        r = match (r, parsed) {
            (None, x) => x,
            (Some(a), None) => Some(a),
            (Some(a), Some(b)) => if b < a {
                Some(b)
            } else {
                Some(a)
            },
        };
        i = i + 1;
    }
    proof {
        assert(all.take(timestamps@.len() as int) == all);
    }
    r
}

/// One agent read, as the caller hands it in: the platform-reported host
/// binding of the agent process, and the snapshot its output parsed to —
/// None when the output was empty or malformed, which skips this one agent
/// without touching its siblings.
pub struct AgentPayload {
    pub platform_binding: String,
    pub snapshot: Option<NodeInspectionResult>,
}

/// Last-write-wins defaulting: an empty self-reported identity is filled
/// from the platform-reported binding, never the reverse; an empty
/// hostname falls back to the (defaulted) identity.
pub open spec fn spec_defaulted(
    s: NodeInspectionResultView,
    binding: Seq<char>,
) -> NodeInspectionResultView {
    let name = if s.node_name.len() == 0 && binding.len() > 0 {
        binding
    } else {
        s.node_name
    };
    let host = if s.hostname.len() == 0 {
        name
    } else {
        s.hostname
    };
    NodeInspectionResultView { node_name: name, hostname: host, ..s }
}

/// The defaulted snapshots of the successfully parsed payloads, in input
/// order.
pub open spec fn spec_kept_snapshots(
    ps: Seq<(Seq<char>, Option<NodeInspectionResultView>)>,
) -> Seq<NodeInspectionResultView>
    decreases ps.len(),
{
    if ps.len() == 0 {
        Seq::empty()
    } else {
        spec_kept_snapshots(ps.drop_last()) + match ps.last().1 {
            Some(s) => seq![spec_defaulted(s, ps.last().0)],
            None => Seq::empty(),
        }
    }
}

impl DeepView for AgentPayload {
    type V = (Seq<char>, Option<NodeInspectionResultView>);

    open spec fn deep_view(&self) -> (Seq<char>, Option<NodeInspectionResultView>) {
        (self.platform_binding@, self.snapshot.deep_view())
    }
}

/// Stable insertion position by host identity, then the sorted insertion
/// itself, mirroring the string sort in `text`.
pub open spec fn spec_sorted_insert_snap(
    s: Seq<NodeInspectionResultView>,
    x: NodeInspectionResultView,
) -> Seq<NodeInspectionResultView>
    decreases s.len(),
{
    if s.len() == 0 {
        seq![x]
    } else if spec_lex_lt(x.node_name, s[0].node_name) {
        seq![x] + s
    } else {
        seq![s[0]] + spec_sorted_insert_snap(s.skip(1), x)
    }
}

/// Insertion sort of snapshots by host identity, ascending; stable, so
/// equal identities keep their input order.
pub open spec fn spec_sort_snaps(s: Seq<NodeInspectionResultView>) -> Seq<
    NodeInspectionResultView,
>
    decreases s.len(),
{
    if s.len() == 0 {
        Seq::empty()
    } else {
        spec_sorted_insert_snap(spec_sort_snaps(s.drop_last()), s.last())
    }
}

proof fn lemma_sorted_insert_snap_shape(
    s: Seq<NodeInspectionResultView>,
    x: NodeInspectionResultView,
    j: int,
)
    requires
        0 <= j <= s.len(),
        forall|k: int| 0 <= k < j ==> !spec_lex_lt(x.node_name, (#[trigger] s[k]).node_name),
        j < s.len() ==> spec_lex_lt(x.node_name, s[j].node_name),
    ensures
        spec_sorted_insert_snap(s, x) == s.take(j) + seq![x] + s.skip(j),
    decreases s.len(),
{
    if s.len() == 0 {
        assert(spec_sorted_insert_snap(s, x) =~= s.take(j) + seq![x] + s.skip(j));
    } else if spec_lex_lt(x.node_name, s[0].node_name) {
        assert(j == 0);
        assert(spec_sorted_insert_snap(s, x) =~= s.take(0) + seq![x] + s.skip(0));
    } else {
        assert(j >= 1);
        assert(forall|k: int|
            0 <= k < j - 1 ==> !spec_lex_lt(x.node_name, (#[trigger] s.skip(1)[k]).node_name));
        lemma_sorted_insert_snap_shape(s.skip(1), x, j - 1);
        assert(s.skip(1).take(j - 1) == s.take(j).skip(1));
        assert(s.skip(1).skip(j - 1) == s.skip(j));
        assert(seq![s[0]] + (s.skip(1).take(j - 1) + seq![x] + s.skip(1).skip(j - 1)) =~= s.take(
            j,
        ) + seq![x] + s.skip(j));
    }
}

fn find_insert_pos_snap(v: &Vec<NodeInspectionResult>, i: usize) -> (j: usize)
    requires
        i < v@.len(),
    ensures
        j <= i,
        forall|k: int|
            0 <= k < j ==> !spec_lex_lt(
                v.deep_view()[i as int].node_name,
                (#[trigger] v.deep_view()[k]).node_name,
            ),
        j < i ==> spec_lex_lt(
            v.deep_view()[i as int].node_name,
            v.deep_view()[j as int].node_name,
        ),
{
    let mut j: usize = 0;
    while j < i
        invariant
            0 <= j <= i < v@.len(),
            forall|k: int|
                0 <= k < j ==> !spec_lex_lt(
                    v.deep_view()[i as int].node_name,
                    (#[trigger] v.deep_view()[k]).node_name,
                ),
        decreases i - j,
    {
        if str_lt(v[i].node_name.as_str(), v[j].node_name.as_str()) {
            return j;
        }
        j = j + 1;
    }
    j
}

/// Sorts the collected snapshots by host identity, ascending.
fn sort_snapshots(v: &mut Vec<NodeInspectionResult>)
    ensures
        final(v).deep_view() == spec_sort_snaps(old(v).deep_view()),
{
    let ghost orig = old(v).deep_view();
    let mut i: usize = 1;
    if v.len() == 0 {
        proof {
            assert(orig.take(0int) =~= Seq::<NodeInspectionResultView>::empty());
            assert(v.deep_view() =~= spec_sort_snaps(orig.take(0int)));
        }
        return ;
    }
    proof {
        assert(orig.take(1int) =~= seq![orig[0]]);
        assert(orig.take(1int).drop_last() =~= Seq::<NodeInspectionResultView>::empty());
        assert(orig.take(1int).last() == orig[0]);
        assert(spec_sort_snaps(Seq::<NodeInspectionResultView>::empty()) == Seq::<
            NodeInspectionResultView,
        >::empty());
        assert(spec_sort_snaps(orig.take(1int)) == spec_sorted_insert_snap(
            Seq::<NodeInspectionResultView>::empty(),
            orig[0],
        ));
        assert(spec_sorted_insert_snap(Seq::<NodeInspectionResultView>::empty(), orig[0])
            == seq![orig[0]]);
        assert(v.deep_view().take(1int) =~= seq![orig[0]]);
        assert(v.deep_view().skip(1int) =~= orig.skip(1int));
    }
    while i < v.len()
        invariant
            1 <= i <= v@.len(),
            v@.len() == orig.len(),
            v.deep_view().take(i as int) == spec_sort_snaps(orig.take(i as int)),
            v.deep_view().skip(i as int) == orig.skip(i as int),
        decreases v@.len() - i,
    {
        let ghost pre = v.deep_view();
        let ghost sorted_prefix = pre.take(i as int);
        let j = find_insert_pos_snap(v, i);
        proof {
            assert(forall|k: int|
                0 <= k < j ==> !spec_lex_lt(
                    pre[i as int].node_name,
                    (#[trigger] sorted_prefix[k]).node_name,
                ));
            if j < i {
                assert(spec_lex_lt(pre[i as int].node_name, sorted_prefix[j as int].node_name));
            }
            lemma_sorted_insert_snap_shape(sorted_prefix, pre[i as int], j as int);
        }
        let x = v.remove(i);
        v.insert(j, x);
        proof {
            let post = v.deep_view();
            let removed = pre.remove(i as int);
            assert(post =~= removed.insert(j as int, pre[i as int]));
            assert(post.take(i + 1int) =~= sorted_prefix.take(j as int) + seq![pre[i as int]]
                + sorted_prefix.skip(j as int));
            assert(post.take(i + 1int) == spec_sorted_insert_snap(sorted_prefix, pre[i as int]));
            assert(orig.take(i + 1int).drop_last() == orig.take(i as int));
            assert(orig.take(i + 1int).last() == orig[i as int]);
            assert(pre[i as int] == orig[i as int]) by {
                assert(pre.skip(i as int)[0] == orig.skip(i as int)[0]);
            }
            assert(post.skip(i + 1int) =~= orig.skip(i + 1int)) by {
                assert(forall|k: int|
                    0 <= k < post.len() - i - 1 ==> #[trigger] post.skip(i + 1int)[k] == pre.skip(
                        i as int,
                    )[k + 1]);
                assert(forall|k: int|
                    0 <= k < orig.len() - i - 1 ==> #[trigger] orig.skip(i + 1int)[k] == orig.skip(
                        i as int,
                    )[k + 1]);
            }
        }
        i = i + 1;
    }
    proof {
        assert(v.deep_view().take(v@.len() as int) =~= v.deep_view());
        assert(orig.take(orig.len() as int) =~= orig);
    }
}

/// Collection proper, after the reads: keeps every successfully parsed
/// snapshot, applies the identity defaulting, and returns the list sorted
/// by host identity ascending — a malformed payload drops only its own
/// agent, and an already-read sibling is never discarded.
pub fn merge_snapshots(payloads: Vec<AgentPayload>) -> (r: Vec<NodeInspectionResult>)
    ensures
        r.deep_view() == spec_sort_snaps(spec_kept_snapshots(payloads.deep_view())),
{
    let ghost all = payloads.deep_view();
    let mut kept: Vec<NodeInspectionResult> = Vec::new();
    let mut payloads = payloads;
    let mut i: usize = 0;
    let n = payloads.len();
    proof {
        assert(all.len() == n);
        assert(all.take(0int) =~= Seq::<(Seq<char>, Option<NodeInspectionResultView>)>::empty());
    }
    // consume from the front so each snapshot is moved, not copied
    while payloads.len() > 0
        invariant
            all.len() <= usize::MAX,
            i + payloads@.len() == all.len(),
            payloads.deep_view() == all.skip(i as int),
            kept.deep_view() == spec_kept_snapshots(all.take(i as int)),
        decreases payloads@.len(),
    {
        proof {
            assert(all.take(i + 1int).drop_last() == all.take(i as int));
            assert(all.take(i + 1int).last() == all[i as int]);
            assert(payloads@[0].deep_view() == all.skip(i as int)[0]);
        }
        let p = payloads.remove(0);
        proof {
            assert(payloads.deep_view() =~= all.skip(i + 1int)) by {
                assert(forall|k: int|
                    0 <= k < all.len() - i - 1 ==> #[trigger] all.skip(i + 1int)[k] == all.skip(
                        i as int,
                    )[k + 1]);
            }
            assert(p.deep_view() == all[i as int]);
        }
        match p.snapshot {
            Some(mut snap) => {
                if snap.node_name.as_str().is_empty() && !p.platform_binding.as_str().is_empty() {
                    snap.node_name = p.platform_binding;
                }
                if snap.hostname.as_str().is_empty() {
                    snap.hostname = snap.node_name.clone();
                }
                proof {
                    let ghost pv = all[i as int];
                    assert(pv.1 is Some);
                    assert(snap@ == spec_defaulted(pv.1->Some_0, pv.0));
                }
                kept.push(snap);
                proof {
                    assert(kept.deep_view() =~= spec_kept_snapshots(all.take(i + 1int)));
                }
            },
            None => {
                proof {
                    assert(kept.deep_view() =~= spec_kept_snapshots(all.take(i + 1int)));
                }
            },
        }
        i = i + 1;
    }
    proof {
        assert(all.take(all.len() as int) == all);
    }
    sort_snapshots(&mut kept);
    kept
}

/// How many of the observations name this host with this state.
pub open spec fn spec_count_state(
    obs: Seq<(Seq<char>, ContainerStateKind)>,
    name: Seq<char>,
    kind: ContainerStateKind,
) -> int
    decreases obs.len(),
{
    if obs.len() == 0 {
        0
    } else {
        spec_count_state(obs.drop_last(), name, kind) + if obs.last().0 == name && obs.last().1
            == kind {
            1int
        } else {
            0int
        }
    }
}

/// The coarse container states the cluster-wide tally distinguishes.
#[derive(Debug, Clone, Copy, PartialEq, Eq, Structural)]
pub enum ContainerStateKind {
    Running,
    Waiting,
    Exited,
}

/// One container's state on one host, as observed by the best-effort
/// cluster-wide query.
pub struct ContainerStateObservation {
    pub node_name: String,
    pub kind: ContainerStateKind,
}

impl DeepView for ContainerStateObservation {
    type V = (Seq<char>, ContainerStateKind);

    open spec fn deep_view(&self) -> (Seq<char>, ContainerStateKind) {
        (self.node_name@, self.kind)
    }
}

/// The tally a host gets: Some with the three counts when any container
/// was seen on it, None otherwise.
pub open spec fn spec_tally(
    obs: Seq<(Seq<char>, ContainerStateKind)>,
    name: Seq<char>,
) -> Option<ContainerStateCounts> {
    let running = spec_count_state(obs, name, ContainerStateKind::Running);
    let waiting = spec_count_state(obs, name, ContainerStateKind::Waiting);
    let exited = spec_count_state(obs, name, ContainerStateKind::Exited);
    if running + waiting + exited > 0 {
        Some(
            ContainerStateCounts {
                running: running as u32,
                waiting: waiting as u32,
                exited: exited as u32,
            },
        )
    } else {
        None
    }
}

proof fn lemma_count_state_bound(
    obs: Seq<(Seq<char>, ContainerStateKind)>,
    name: Seq<char>,
    kind: ContainerStateKind,
)
    ensures
        0 <= spec_count_state(obs, name, kind) <= obs.len(),
    decreases obs.len(),
{
    if obs.len() > 0 {
        lemma_count_state_bound(obs.drop_last(), name, kind);
    }
}

/// Counts one host's observations.
fn tally_for(obs: &Vec<ContainerStateObservation>, name: &str) -> (r: Option<
    ContainerStateCounts,
>)
    requires
        obs@.len() <= u32::MAX,
    ensures
        r == spec_tally(obs.deep_view(), name@),
{
    let ghost all = obs.deep_view();
    let mut running: u32 = 0;
    let mut waiting: u32 = 0;
    let mut exited: u32 = 0;
    let mut i: usize = 0;
    while i < obs.len()
        invariant
            i <= obs@.len(),
            obs@.len() <= u32::MAX,
            all == obs.deep_view(),
            all.len() == obs@.len(),
            running == spec_count_state(all.take(i as int), name@, ContainerStateKind::Running),
            waiting == spec_count_state(all.take(i as int), name@, ContainerStateKind::Waiting),
            exited == spec_count_state(all.take(i as int), name@, ContainerStateKind::Exited),
        decreases obs@.len() - i,
    {
        proof {
            lemma_count_state_bound(all.take(i as int), name@, ContainerStateKind::Running);
            lemma_count_state_bound(all.take(i as int), name@, ContainerStateKind::Waiting);
            lemma_count_state_bound(all.take(i as int), name@, ContainerStateKind::Exited);
            assert(all.take(i + 1int).drop_last() == all.take(i as int));
            assert(all.take(i + 1int).last() == all[i as int]);
            assert(obs@[i as int].deep_view() == all[i as int]);
        }
        if crate::text::str_eq(obs[i].node_name.as_str(), name) {
            match obs[i].kind {
                ContainerStateKind::Running => {
                    running = running + 1;
                },
                ContainerStateKind::Waiting => {
                    waiting = waiting + 1;
                },
                ContainerStateKind::Exited => {
                    exited = exited + 1;
                },
            }
        }
        i = i + 1;
    }
    proof {
        assert(all.take(obs@.len() as int) == all);
    }
    if running > 0 || waiting > 0 || exited > 0 {
        Some(ContainerStateCounts { running, waiting, exited })
    } else {
        None
    }
}

/// Best-effort per-host container-state tally: a host named by at least
/// one observation gets its counts; a host no observation names is left
/// exactly as it was, pre-existing tally included. A caller whose
/// cluster-wide query failed simply does not call this — omitting the
/// tally, not failing collection.
pub fn fill_container_state_counts(
    results: &mut Vec<NodeInspectionResult>,
    obs: &Vec<ContainerStateObservation>,
)
    requires
        obs@.len() <= u32::MAX,
    ensures
        final(results)@.len() == old(results)@.len(),
        forall|k: int|
            0 <= k < old(results)@.len() ==> #[trigger] final(results).deep_view()[k] == (match
                spec_tally(obs.deep_view(), old(results).deep_view()[k].node_name) {
                Some(c) => NodeInspectionResultView {
                    container_state_counts: Some(c),
                    ..old(results).deep_view()[k]
                },
                None => old(results).deep_view()[k],
            }),
{
    let ghost orig = old(results).deep_view();
    let mut k: usize = 0;
    while k < results.len()
        invariant
            k <= results@.len(),
            results@.len() == orig.len(),
            obs@.len() <= u32::MAX,
            forall|j: int|
                0 <= j < k ==> #[trigger] results.deep_view()[j] == (match spec_tally(
                    obs.deep_view(),
                    orig[j].node_name,
                ) {
                    Some(c) => NodeInspectionResultView {
                        container_state_counts: Some(c),
                        ..orig[j]
                    },
                    None => orig[j],
                }),
            forall|j: int| k <= j < orig.len() ==> #[trigger] results.deep_view()[j] == orig[j],
        decreases results@.len() - k,
    {
        let ghost pre = results.deep_view();
        let ghost pre_seq = results@;
        proof {
            assert(pre[k as int] == orig[k as int]);
        }
        let counts = tally_for(obs, results[k].node_name.as_str());
        match counts {
            Some(c) => {
                let mut elem = results.remove(k);
                elem.container_state_counts = Some(c);
                let ghost ev = elem.deep_view();
                results.insert(k, elem);
                proof {
                    let post = results.deep_view();
                    assert(results@ == pre_seq.remove(k as int).insert(
                        k as int,
                        results@[k as int],
                    ));
                    assert(ev == (NodeInspectionResultView {
                        container_state_counts: Some(c),
                        ..orig[k as int]
                    }));
                    assert forall|j: int| 0 <= j < post.len() implies #[trigger] post[j] == (if j
                        == k as int {
                        NodeInspectionResultView {
                            container_state_counts: Some(c),
                            ..orig[k as int]
                        }
                    } else {
                        pre[j]
                    }) by {
                        if j == k as int {
                            assert(results@[j].deep_view() == ev);
                        } else if j < k as int {
                            assert(results@[j] == pre_seq[j]);
                        } else {
                            assert(results@[j] == pre_seq[j]);
                        }
                    }
                }
            },
            None => {},
        }
        k = k + 1;
    }
}


/// Sorted by host identity, ascending: no later row's identity is
/// lexicographically below an earlier one's.
pub open spec fn spec_snaps_sorted(s: Seq<NodeInspectionResultView>) -> bool {
    forall|i: int, j: int|
        0 <= i < j < s.len() ==> !spec_lex_lt(
            (#[trigger] s[j]).node_name,
            (#[trigger] s[i]).node_name,
        )
}

/// Every row of an insertion is the inserted row or one of the old ones.
proof fn lemma_insert_snap_membership(
    s: Seq<NodeInspectionResultView>,
    x: NodeInspectionResultView,
    k: int,
)
    requires
        0 <= k < spec_sorted_insert_snap(s, x).len(),
    ensures
        spec_sorted_insert_snap(s, x)[k] == x || exists|j: int|
            0 <= j < s.len() && s[j] == spec_sorted_insert_snap(s, x)[k],
    decreases s.len(),
{
    let out = spec_sorted_insert_snap(s, x);
    if s.len() == 0 {
        assert(out[k] == x);
    } else if spec_lex_lt(x.node_name, s[0].node_name) {
        if k == 0 {
            assert(out[0] == x);
        } else {
            assert(out[k] == s[k - 1]);
        }
    } else {
        if k == 0 {
            assert(out[0] == s[0]);
        } else {
            lemma_insert_snap_membership(s.skip(1), x, k - 1);
            let inner = spec_sorted_insert_snap(s.skip(1), x);
            assert(out[k] == inner[k - 1]);
            if inner[k - 1] != x {
                let j = choose|j: int| 0 <= j < s.skip(1).len() && s.skip(1)[j] == inner[k - 1];
                assert(s[j + 1] == inner[k - 1]);
            }
        }
    }
}

/// A stable insertion into a sorted row list stays sorted.
proof fn lemma_sorted_insert_snap_keeps_order(
    s: Seq<NodeInspectionResultView>,
    x: NodeInspectionResultView,
)
    requires
        spec_snaps_sorted(s),
    ensures
        spec_snaps_sorted(spec_sorted_insert_snap(s, x)),
    decreases s.len(),
{
    let out = spec_sorted_insert_snap(s, x);
    if s.len() == 0 {
    } else if spec_lex_lt(x.node_name, s[0].node_name) {
        // out == seq![x] + s
        assert forall|i: int, j: int| 0 <= i < j < out.len() implies !spec_lex_lt(
            (#[trigger] out[j]).node_name,
            (#[trigger] out[i]).node_name,
        ) by {
            if i == 0 {
                assert(out[0] == x);
                assert(out[j] == s[j - 1]);
                if spec_lex_lt(s[j - 1].node_name, x.node_name) {
                    crate::text::lemma_lex_lt_trans(
                        s[j - 1].node_name,
                        x.node_name,
                        s[0].node_name,
                    );
                    if j - 1 == 0 {
                        crate::text::lemma_lex_lt_irrefl(s[0].node_name);
                    }
                }
            } else {
                assert(out[i] == s[i - 1]);
                assert(out[j] == s[j - 1]);
            }
        }
    } else {
        let inner = spec_sorted_insert_snap(s.skip(1), x);
        assert(spec_snaps_sorted(s.skip(1))) by {
            assert(forall|i: int, j: int|
                0 <= i < j < s.skip(1).len() ==> !spec_lex_lt(
                    (#[trigger] s.skip(1)[j]).node_name,
                    (#[trigger] s.skip(1)[i]).node_name,
                ));
        }
        lemma_sorted_insert_snap_keeps_order(s.skip(1), x);
        assert forall|i: int, j: int| 0 <= i < j < out.len() implies !spec_lex_lt(
            (#[trigger] out[j]).node_name,
            (#[trigger] out[i]).node_name,
        ) by {
            if i == 0 {
                assert(out[0] == s[0]);
                assert(out[j] == inner[j - 1]);
                lemma_insert_snap_membership(s.skip(1), x, j - 1);
                if inner[j - 1] == x {
                    // the branch condition rules out x below the head
                } else {
                    let t = choose|t: int|
                        0 <= t < s.skip(1).len() && s.skip(1)[t] == inner[j - 1];
                    assert(s[t + 1] == inner[j - 1]);
                    assert(!spec_lex_lt(s[t + 1].node_name, s[0].node_name));
                }
            } else {
                assert(out[i] == inner[i - 1]);
                assert(out[j] == inner[j - 1]);
            }
        }
    }
}

/// What the collection hands out is sorted by host identity, ascending.
pub proof fn lemma_sort_snaps_sorted(s: Seq<NodeInspectionResultView>)
    ensures
        spec_snaps_sorted(spec_sort_snaps(s)),
    decreases s.len(),
{
    if s.len() > 0 {
        lemma_sort_snaps_sorted(s.drop_last());
        lemma_sorted_insert_snap_keeps_order(spec_sort_snaps(s.drop_last()), s.last());
    }
}

} // verus!
