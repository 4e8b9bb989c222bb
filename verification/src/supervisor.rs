//! The per-service supervisor as a state machine.  Each live service has
//! one supervisor; its task elsewhere performs the outside work (spawning,
//! signalling, timers, the inbox) and feeds every observation back here as
//! an event.  `step` computes, from the current state and one event, the
//! next state and the actions to perform, so that the whole lifecycle
//! policy of a service is decided by verified code.

use vstd::prelude::*;

verus! {

/// The per-service settings that drive the supervisor's decisions.
#[derive(PartialEq, Eq, Structural, Clone, Copy, Debug)]
pub struct SupConfig {
    /// Maximum number of automatic respawns after an unexpected exit.
    pub retry_time: u64,
    /// Whether a ready timeout is configured: after a spawn the service
    /// then waits for it before counting as Running.
    pub ready_wait: bool,
}

/// Where a supervisor stands in its service's lifecycle.
#[derive(PartialEq, Eq, Structural, Clone, Copy, Debug)]
pub enum Phase {
    /// Blocking until every declared dependency has been seen Running.
    Resolving,
    /// The child is being spawned; no pid is known yet.
    Spawning,
    /// A pid is known; the ready timeout has not elapsed yet.
    WaitingReady,
    /// The service counts as running.
    Running,
    /// The service was stopped, or is terminal after a failure or an
    /// exhausted retry budget.
    Stopped,
    /// The supervisor has deregistered and its task may exit.
    Retired,
}

/// The full supervisor state between two events.
#[derive(PartialEq, Eq, Structural, Clone, Copy, Debug)]
pub struct SupState {
    pub phase: Phase,
    /// Dependencies not yet observed Running; meaningful in `Resolving`.
    pub deps_remaining: u64,
    /// The child pid last acquired; 0 when none is known.
    pub pid: u64,
    /// Automatic respawns performed since the last explicit restart.
    pub retry_count: u64,
    /// Cleared when the retry budget is exhausted or a spawn failed.
    pub retries_enabled: bool,
    /// A kill timer is pending (armed when the stop way was issued).
    pub kill_timer_armed: bool,
    /// A die timer is pending (armed when the stop settled).
    pub die_timer_armed: bool,
}

/// One observation handed to the supervisor by its task.
#[derive(PartialEq, Eq, Structural, Clone, Copy, Debug)]
pub enum SupEvent {
    /// One more dependency was observed Running.
    DepRunning,
    /// The spawn succeeded and this pid was acquired (directly or read
    /// from the pid file).
    PidAcquired(u64),
    /// The spawn failed.
    SpawnFailed,
    /// The ready timeout elapsed.
    ReadyElapsed,
    /// A non-blocking wait on the child returned this exit code.
    ChildExited(i64),
    /// The inbox received "down".
    InboxDown,
    /// The inbox received "up".
    InboxUp,
    /// The inbox received "pid".
    InboxPid,
    /// The kill timer fired; the payload says whether the child was
    /// still alive at that moment.
    KillTimerFired(bool),
    /// The die timer fired.
    DieTimerFired,
}

/// One piece of outside work the supervisor's task must perform, in the
/// order given.
#[derive(PartialEq, Eq, Structural, Clone, Copy, Debug)]
pub enum SupAction {
    /// Record Readying for this service in the registry.
    SetReadying,
    /// Record Running for this service in the registry.
    SetRunning,
    /// Record Stopped for this service in the registry.
    SetStopped,
    /// Run the pre_exec hook, if configured, and wait for it.
    RunPreExec,
    /// Spawn the service's exec line; report back `PidAcquired` or
    /// `SpawnFailed`.
    SpawnChild,
    /// Start the ready timeout; report back `ReadyElapsed`.
    ArmReadyTimer,
    /// Run the pre_stop hook, if configured, and wait for it.
    RunPreStop,
    /// Deliver the configured stop way to the child.
    IssueStopWay,
    /// Start the kill timeout; report back `KillTimerFired`.
    ArmKillTimer,
    /// Send SIGKILL to the child.
    SendSigkill,
    /// Start the final grace timer; report back `DieTimerFired`.
    ArmDieTimer,
    /// Remove this service from the registry and close the inbox.
    Deregister,
    /// Reply to the inbox with the current pid.
    ReplyPid,
    /// Log, once, that the service was restarted too many times.
    LogRetryExhausted,
}

impl SupConfig {
    /// Builds the machine's settings from descriptor values: a negative
    /// retry budget counts as none, and a configured ready timeout turns
    /// the ready wait on.
    pub fn from_descriptor(retry_time: i64, ready_timeout: Option<i64>) -> (r: SupConfig)
        ensures
            r.retry_time == if retry_time < 0 {
                0
            } else {
                retry_time as u64
            },
            r.ready_wait == (ready_timeout is Some),
    {
        SupConfig {
            retry_time: if retry_time < 0 {
                0
            } else {
                retry_time as u64
            },
            ready_wait: match ready_timeout {
                Some(_) => true,
                None => false,
            },
        }
    }
}

/// The milliseconds to wait after a spawn before the service counts as
/// Running: a configured negative delay is an error that fails the
/// spawn.
pub fn ready_timeout_ms(t: Option<i64>) -> (r: Result<Option<u64>, ()>)
    ensures
        match r {
            Ok(w) => (t is None && w is None) || (t matches Some(v) && v >= 0 && w == Some(
                v as u64,
            )),
            Err(e) => t matches Some(v) && v < 0,
        },
{
    match t {
        None => Ok(None),
        Some(v) => if v >= 0 {
            Ok(Some(v as u64))
        } else {
            Err(())
        },
    }
}

/// The milliseconds of grace before SIGKILL: a negative configured
/// value collapses to no grace at all.
pub fn kill_timeout_ms(v: i64) -> (r: u64)
    ensures
        r == if v < 0 {
            0
        } else {
            v as u64
        },
{
    if v < 0 {
        0
    } else {
        v as u64
    }
}

/// The supervisor state right after registration, with `ndeps`
/// dependencies still to resolve.
pub open spec fn spec_start_state(ndeps: u64) -> SupState {
    SupState {
        phase: if ndeps == 0 {
            Phase::Spawning
        } else {
            Phase::Resolving
        },
        deps_remaining: ndeps,
        pid: 0,
        retry_count: 0,
        retries_enabled: true,
        kill_timer_armed: false,
        die_timer_armed: false,
    }
}

/// The actions due at registration.
pub open spec fn spec_start_actions(ndeps: u64) -> Seq<SupAction> {
    if ndeps == 0 {
        seq![SupAction::SetReadying, SupAction::RunPreExec, SupAction::SpawnChild]
    } else {
        seq![SupAction::SetReadying]
    }
}

/// A supervisor state the machine can actually be in.
pub open spec fn wf_state(cfg: SupConfig, s: SupState) -> bool {
    &&& s.retry_count <= cfg.retry_time
    &&& (s.phase == Phase::Resolving ==> s.deps_remaining >= 1)
    &&& (s.kill_timer_armed ==> s.phase == Phase::Stopped)
    &&& (s.die_timer_armed ==> s.phase == Phase::Stopped)
    &&& (s.retries_enabled == false ==> s.phase == Phase::Stopped || s.phase == Phase::Retired)
}

/// The transition table of the supervisor: from one state and one event
/// to the next state and the actions due, in order.
pub open spec fn spec_step(cfg: SupConfig, s: SupState, e: SupEvent) -> (SupState, Seq<
    SupAction,
>) {
    match e {
        SupEvent::InboxPid => (s, seq![SupAction::ReplyPid]),
        SupEvent::DepRunning => {
            if s.phase == Phase::Resolving {
                if s.deps_remaining <= 1 {
                    (
                        SupState { phase: Phase::Spawning, deps_remaining: 0, ..s },
                        seq![SupAction::RunPreExec, SupAction::SpawnChild],
                    )
                } else {
                    (SupState { deps_remaining: (s.deps_remaining - 1) as u64, ..s }, seq![])
                }
            } else {
                (s, seq![])
            }
        },
        SupEvent::PidAcquired(p) => {
            if s.phase == Phase::Spawning {
                if cfg.ready_wait {
                    (
                        SupState { phase: Phase::WaitingReady, pid: p, ..s },
                        seq![SupAction::ArmReadyTimer],
                    )
                } else {
                    (SupState { phase: Phase::Running, pid: p, ..s }, seq![SupAction::SetRunning])
                }
            } else {
                (s, seq![])
            }
        },
        SupEvent::SpawnFailed => {
            if s.phase == Phase::Spawning {
                (
                    SupState {
                        phase: Phase::Stopped,
                        retries_enabled: false,
                        die_timer_armed: true,
                        ..s
                    },
                    seq![SupAction::SetStopped, SupAction::ArmDieTimer],
                )
            } else {
                (s, seq![])
            }
        },
        SupEvent::ReadyElapsed => {
            if s.phase == Phase::WaitingReady {
                (SupState { phase: Phase::Running, ..s }, seq![SupAction::SetRunning])
            } else {
                (s, seq![])
            }
        },
        SupEvent::ChildExited(code) => {
            if s.phase == Phase::Running {
                if s.retry_count < cfg.retry_time && s.retries_enabled {
                    (
                        SupState {
                            phase: Phase::Spawning,
                            retry_count: (s.retry_count + 1) as u64,
                            ..s
                        },
                        seq![SupAction::SetReadying, SupAction::RunPreExec, SupAction::SpawnChild],
                    )
                } else {
                    (
                        SupState {
                            phase: Phase::Stopped,
                            retries_enabled: false,
                            die_timer_armed: true,
                            ..s
                        },
                        seq![
                            SupAction::LogRetryExhausted,
                            SupAction::SetStopped,
                            SupAction::ArmDieTimer,
                        ],
                    )
                }
            } else {
                (s, seq![])
            }
        },
        SupEvent::InboxDown => {
            if s.phase == Phase::Running || s.phase == Phase::WaitingReady {
                (
                    SupState { phase: Phase::Stopped, kill_timer_armed: true, ..s },
                    seq![
                        SupAction::RunPreStop,
                        SupAction::IssueStopWay,
                        SupAction::ArmKillTimer,
                        SupAction::SetStopped,
                    ],
                )
            } else {
                (s, seq![])
            }
        },
        SupEvent::InboxUp => {
            if s.phase == Phase::Stopped {
                (
                    SupState {
                        phase: Phase::Spawning,
                        retry_count: 0,
                        retries_enabled: true,
                        kill_timer_armed: false,
                        die_timer_armed: false,
                        ..s
                    },
                    seq![SupAction::SetReadying, SupAction::RunPreExec, SupAction::SpawnChild],
                )
            } else {
                (s, seq![])
            }
        },
        SupEvent::KillTimerFired(alive) => {
            if s.phase == Phase::Stopped && s.kill_timer_armed {
                if alive {
                    (
                        SupState { kill_timer_armed: false, die_timer_armed: true, ..s },
                        seq![SupAction::SendSigkill, SupAction::ArmDieTimer],
                    )
                } else {
                    (
                        SupState { kill_timer_armed: false, die_timer_armed: true, ..s },
                        seq![SupAction::ArmDieTimer],
                    )
                }
            } else {
                (s, seq![])
            }
        },
        SupEvent::DieTimerFired => {
            if s.phase == Phase::Stopped && s.die_timer_armed {
                (
                    SupState {
                        phase: Phase::Retired,
                        kill_timer_armed: false,
                        die_timer_armed: false,
                        ..s
                    },
                    seq![SupAction::Deregister],
                )
            } else {
                (s, seq![])
            }
        },
    }
}

/// The supervisor state in which a service starts, together with the
/// actions due at registration.
pub fn start(cfg: &SupConfig, ndeps: u64) -> (r: (SupState, Vec<SupAction>))
    ensures
        r.0 == spec_start_state(ndeps),
        r.1@ == spec_start_actions(ndeps),
        wf_state(*cfg, r.0),
{
    let phase = if ndeps == 0 {
        Phase::Spawning
    } else {
        Phase::Resolving
    };
    let state = SupState {
        phase,
        deps_remaining: ndeps,
        pid: 0,
        retry_count: 0,
        retries_enabled: true,
        kill_timer_armed: false,
        die_timer_armed: false,
    };
    let mut actions: Vec<SupAction> = Vec::new();
    actions.push(SupAction::SetReadying);
    if ndeps == 0 {
        actions.push(SupAction::RunPreExec);
        actions.push(SupAction::SpawnChild);
        proof {
            assert(actions@ =~= spec_start_actions(ndeps));
        }
    } else {
        proof {
            assert(actions@ =~= spec_start_actions(ndeps));
        }
    }
    (state, actions)
}

/// Performs one transition of the supervisor machine.
pub fn step(cfg: &SupConfig, s: &SupState, e: &SupEvent) -> (r: (SupState, Vec<SupAction>))
    requires
        wf_state(*cfg, *s),
    ensures
        r.0 == spec_step(*cfg, *s, *e).0,
        r.1@ == spec_step(*cfg, *s, *e).1,
        wf_state(*cfg, r.0),
{
    proof {
        lemma_step_preserves_wf(*cfg, *s, *e);
    }
    match e {
        SupEvent::InboxPid => {
            let mut actions: Vec<SupAction> = Vec::new();
            actions.push(SupAction::ReplyPid);
            proof {
                assert(actions@ =~= spec_step(*cfg, *s, *e).1);
            }
            (*s, actions)
        },
        SupEvent::DepRunning => {
            if matches!(s.phase, Phase::Resolving) {
                if s.deps_remaining <= 1 {
                    let mut actions: Vec<SupAction> = Vec::new();
                    actions.push(SupAction::RunPreExec);
                    actions.push(SupAction::SpawnChild);
                    proof {
                        assert(actions@ =~= spec_step(*cfg, *s, *e).1);
                    }
                    (SupState { phase: Phase::Spawning, deps_remaining: 0, ..*s }, actions)
                } else {
                    let actions: Vec<SupAction> = Vec::new();
                    proof {
                        assert(actions@ =~= spec_step(*cfg, *s, *e).1);
                    }
                    (SupState { deps_remaining: s.deps_remaining - 1, ..*s }, actions)
                }
            } else {
                let actions: Vec<SupAction> = Vec::new();
                proof {
                    assert(actions@ =~= spec_step(*cfg, *s, *e).1);
                }
                (*s, actions)
            }
        },
        SupEvent::PidAcquired(p) => {
            if matches!(s.phase, Phase::Spawning) {
                if cfg.ready_wait {
                    let mut actions: Vec<SupAction> = Vec::new();
                    actions.push(SupAction::ArmReadyTimer);
                    proof {
                        assert(actions@ =~= spec_step(*cfg, *s, *e).1);
                    }
                    (SupState { phase: Phase::WaitingReady, pid: *p, ..*s }, actions)
                } else {
                    let mut actions: Vec<SupAction> = Vec::new();
                    actions.push(SupAction::SetRunning);
                    proof {
                        assert(actions@ =~= spec_step(*cfg, *s, *e).1);
                    }
                    (SupState { phase: Phase::Running, pid: *p, ..*s }, actions)
                }
            } else {
                let actions: Vec<SupAction> = Vec::new();
                proof {
                    assert(actions@ =~= spec_step(*cfg, *s, *e).1);
                }
                (*s, actions)
            }
        },
        SupEvent::SpawnFailed => {
            if matches!(s.phase, Phase::Spawning) {
                let mut actions: Vec<SupAction> = Vec::new();
                actions.push(SupAction::SetStopped);
                actions.push(SupAction::ArmDieTimer);
                proof {
                    assert(actions@ =~= spec_step(*cfg, *s, *e).1);
                }
                (
                    SupState {
                        phase: Phase::Stopped,
                        retries_enabled: false,
                        die_timer_armed: true,
                        ..*s
                    },
                    actions,
                )
            } else {
                let actions: Vec<SupAction> = Vec::new();
                proof {
                    assert(actions@ =~= spec_step(*cfg, *s, *e).1);
                }
                (*s, actions)
            }
        },
        SupEvent::ReadyElapsed => {
            if matches!(s.phase, Phase::WaitingReady) {
                let mut actions: Vec<SupAction> = Vec::new();
                actions.push(SupAction::SetRunning);
                proof {
                    assert(actions@ =~= spec_step(*cfg, *s, *e).1);
                }
                (SupState { phase: Phase::Running, ..*s }, actions)
            } else {
                let actions: Vec<SupAction> = Vec::new();
                proof {
                    assert(actions@ =~= spec_step(*cfg, *s, *e).1);
                }
                (*s, actions)
            }
        },
        SupEvent::ChildExited(_code) => {
            if matches!(s.phase, Phase::Running) {
                if s.retry_count < cfg.retry_time && s.retries_enabled {
                    let mut actions: Vec<SupAction> = Vec::new();
                    actions.push(SupAction::SetReadying);
                    actions.push(SupAction::RunPreExec);
                    actions.push(SupAction::SpawnChild);
                    proof {
                        assert(actions@ =~= spec_step(*cfg, *s, *e).1);
                    }
                    (
                        SupState { phase: Phase::Spawning, retry_count: s.retry_count + 1, ..*s },
                        actions,
                    )
                } else {
                    let mut actions: Vec<SupAction> = Vec::new();
                    actions.push(SupAction::LogRetryExhausted);
                    actions.push(SupAction::SetStopped);
                    actions.push(SupAction::ArmDieTimer);
                    proof {
                        assert(actions@ =~= spec_step(*cfg, *s, *e).1);
                    }
                    (
                        SupState {
                            phase: Phase::Stopped,
                            retries_enabled: false,
                            die_timer_armed: true,
                            ..*s
                        },
                        actions,
                    )
                }
            } else {
                let actions: Vec<SupAction> = Vec::new();
                proof {
                    assert(actions@ =~= spec_step(*cfg, *s, *e).1);
                }
                (*s, actions)
            }
        },
        SupEvent::InboxDown => {
            if matches!(s.phase, Phase::Running) || matches!(s.phase, Phase::WaitingReady) {
                let mut actions: Vec<SupAction> = Vec::new();
                actions.push(SupAction::RunPreStop);
                actions.push(SupAction::IssueStopWay);
                actions.push(SupAction::ArmKillTimer);
                actions.push(SupAction::SetStopped);
                proof {
                    assert(actions@ =~= spec_step(*cfg, *s, *e).1);
                }
                (SupState { phase: Phase::Stopped, kill_timer_armed: true, ..*s }, actions)
            } else {
                let actions: Vec<SupAction> = Vec::new();
                proof {
                    assert(actions@ =~= spec_step(*cfg, *s, *e).1);
                }
                (*s, actions)
            }
        },
        SupEvent::InboxUp => {
            if matches!(s.phase, Phase::Stopped) {
                let mut actions: Vec<SupAction> = Vec::new();
                actions.push(SupAction::SetReadying);
                actions.push(SupAction::RunPreExec);
                actions.push(SupAction::SpawnChild);
                proof {
                    assert(actions@ =~= spec_step(*cfg, *s, *e).1);
                }
                (
                    SupState {
                        phase: Phase::Spawning,
                        retry_count: 0,
                        retries_enabled: true,
                        kill_timer_armed: false,
                        die_timer_armed: false,
                        ..*s
                    },
                    actions,
                )
            } else {
                let actions: Vec<SupAction> = Vec::new();
                proof {
                    assert(actions@ =~= spec_step(*cfg, *s, *e).1);
                }
                (*s, actions)
            }
        },
        SupEvent::KillTimerFired(alive) => {
            if matches!(s.phase, Phase::Stopped) && s.kill_timer_armed {
                let mut actions: Vec<SupAction> = Vec::new();
                if *alive {
                    actions.push(SupAction::SendSigkill);
                }
                actions.push(SupAction::ArmDieTimer);
                proof {
                    assert(actions@ =~= spec_step(*cfg, *s, *e).1);
                }
                (SupState { kill_timer_armed: false, die_timer_armed: true, ..*s }, actions)
            } else {
                let actions: Vec<SupAction> = Vec::new();
                proof {
                    assert(actions@ =~= spec_step(*cfg, *s, *e).1);
                }
                (*s, actions)
            }
        },
        SupEvent::DieTimerFired => {
            if matches!(s.phase, Phase::Stopped) && s.die_timer_armed {
                let mut actions: Vec<SupAction> = Vec::new();
                actions.push(SupAction::Deregister);
                proof {
                    assert(actions@ =~= spec_step(*cfg, *s, *e).1);
                }
                (
                    SupState {
                        phase: Phase::Retired,
                        kill_timer_armed: false,
                        die_timer_armed: false,
                        ..*s
                    },
                    actions,
                )
            } else {
                let actions: Vec<SupAction> = Vec::new();
                proof {
                    assert(actions@ =~= spec_step(*cfg, *s, *e).1);
                }
                (*s, actions)
            }
        },
    }
}

/// Every transition leads from a well-formed state to a well-formed
/// state; in particular the retry counter never exceeds the budget.
pub proof fn lemma_step_preserves_wf(cfg: SupConfig, s: SupState, e: SupEvent)
    requires
        wf_state(cfg, s),
    ensures
        wf_state(cfg, spec_step(cfg, s, e).0),
{
}

/// The state after running the machine from `s0` through `events`.
pub open spec fn run_from(cfg: SupConfig, s0: SupState, events: Seq<SupEvent>) -> SupState
    decreases events.len(),
{
    if events.len() == 0 {
        s0
    } else {
        run_from(cfg, spec_step(cfg, s0, events[0]).0, events.skip(1))
    }
}

/// Well-formedness is an invariant of every reachable state, whatever
/// the events: in particular the retry counter never exceeds the
/// budget at any point of a service's life.
pub proof fn lemma_run_preserves_wf(cfg: SupConfig, s0: SupState, events: Seq<SupEvent>)
    requires
        wf_state(cfg, s0),
    ensures
        wf_state(cfg, run_from(cfg, s0, events)),
    decreases events.len(),
{
    if events.len() > 0 {
        lemma_step_preserves_wf(cfg, s0, events[0]);
        lemma_run_preserves_wf(cfg, spec_step(cfg, s0, events[0]).0, events.skip(1));
    }
}

/// How many of the steps from `s0` through `events` order a spawn.
/// No single step orders more than one.
pub open spec fn spawns_from(cfg: SupConfig, s0: SupState, events: Seq<SupEvent>) -> nat
    decreases events.len(),
{
    if events.len() == 0 {
        0
    } else {
        (if spec_step(cfg, s0, events[0]).1.contains(SupAction::SpawnChild) {
            1 as nat
        } else {
            0 as nat
        }) + spawns_from(cfg, spec_step(cfg, s0, events[0]).0, events.skip(1))
    }
}

/// How many spawns a whole lifetime orders: those due at registration
/// plus those ordered by the steps.
pub open spec fn lifetime_spawns(cfg: SupConfig, ndeps: u64, events: Seq<SupEvent>) -> nat {
    (if spec_start_actions(ndeps).contains(SupAction::SpawnChild) {
        1 as nat
    } else {
        0 as nat
    }) + spawns_from(cfg, spec_start_state(ndeps), events)
}

/// How many events in `events` report a dependency Running.
pub open spec fn dep_events(events: Seq<SupEvent>) -> nat
    decreases events.len(),
{
    if events.len() == 0 {
        0
    } else {
        (if events[0] == SupEvent::DepRunning {
            1 as nat
        } else {
            0 as nat
        }) + dep_events(events.skip(1))
    }
}

/// No event in `events` is an external restart order.
pub open spec fn no_external_restart(events: Seq<SupEvent>) -> bool {
    forall|i: int| 0 <= i < events.len() ==> events[i] != SupEvent::InboxUp
}

/// Retry budget, one step: from a state that has already ordered at most
/// `1 + retry_count` spawns, a step that is not an external restart keeps
/// that bound.
proof fn lemma_budget_helper(cfg: SupConfig, s: SupState, c: nat, events: Seq<SupEvent>)
    requires
        wf_state(cfg, s),
        c <= 1 + s.retry_count,
        s.phase == Phase::Resolving ==> c == 0,
        no_external_restart(events),
    ensures
        c + spawns_from(cfg, s, events) <= 1 + cfg.retry_time,
    decreases events.len(),
{
    if events.len() > 0 {
        let e = events[0];
        let s1 = spec_step(cfg, s, e).0;
        let acts = spec_step(cfg, s, e).1;
        lemma_step_preserves_wf(cfg, s, e);
        let c1: nat = if acts.contains(SupAction::SpawnChild) {
            c + 1
        } else {
            c
        };
        assert(events[0] != SupEvent::InboxUp);
        assert(forall|i: int| 0 <= i < events.skip(1).len() ==> events.skip(1)[i] != SupEvent::InboxUp);
        match e {
            SupEvent::DepRunning => {
                if s.phase == Phase::Resolving && s.deps_remaining <= 1 {
                    assert(acts[1] == SupAction::SpawnChild);
                    assert(c1 == 1);
                } else {
                    assert(!acts.contains(SupAction::SpawnChild));
                }
            },
            SupEvent::ChildExited(code) => {
                if s.phase == Phase::Running && s.retry_count < cfg.retry_time
                    && s.retries_enabled {
                    assert(acts[2] == SupAction::SpawnChild);
                    assert(c1 <= 1 + s1.retry_count);
                } else {
                    assert(!acts.contains(SupAction::SpawnChild));
                }
            },
            _ => {
                assert(!acts.contains(SupAction::SpawnChild));
            },
        }
        lemma_budget_helper(cfg, s1, c1, events.skip(1));
    }
}

/// Retry budget: over a whole lifetime without an external restart
/// order, the supervisor orders at most `1 + retry_time` spawns.
pub proof fn lemma_retry_budget(cfg: SupConfig, ndeps: u64, events: Seq<SupEvent>)
    requires
        no_external_restart(events),
    ensures
        lifetime_spawns(cfg, ndeps, events) <= 1 + cfg.retry_time,
{
    let s0 = spec_start_state(ndeps);
    if ndeps == 0 {
        assert(spec_start_actions(ndeps)[2] == SupAction::SpawnChild);
        lemma_budget_helper(cfg, s0, 1, events);
    } else {
        assert(!spec_start_actions(ndeps).contains(SupAction::SpawnChild)) by {
            assert(spec_start_actions(ndeps).len() == 1);
        }
        lemma_budget_helper(cfg, s0, 0, events);
    }
}

/// Dependencies first, one step at a time.
proof fn lemma_deps_helper(cfg: SupConfig, s: SupState, c: nat, d: nat, n: u64, events: Seq<
    SupEvent,
>)
    requires
        wf_state(cfg, s),
        s.phase == Phase::Resolving ==> c == 0 && s.deps_remaining <= n && d == n
            - s.deps_remaining,
        s.phase != Phase::Resolving ==> d >= n,
    ensures
        c + spawns_from(cfg, s, events) >= 1 ==> d + dep_events(events) >= n,
    decreases events.len(),
{
    if events.len() == 0 {
        if c >= 1 {
            assert(s.phase != Phase::Resolving);
        }
    } else {
        let e = events[0];
        let s1 = spec_step(cfg, s, e).0;
        let acts = spec_step(cfg, s, e).1;
        lemma_step_preserves_wf(cfg, s, e);
        let c1: nat = if acts.contains(SupAction::SpawnChild) {
            c + 1
        } else {
            c
        };
        let d1: nat = if e == SupEvent::DepRunning {
            d + 1
        } else {
            d
        };
        match e {
            SupEvent::DepRunning => {
                if s.phase == Phase::Resolving {
                    if s.deps_remaining <= 1 {
                        assert(s1.phase == Phase::Spawning);
                        assert(d1 >= n);
                    }
                }
            },
            _ => {
                if s.phase == Phase::Resolving {
                    assert(s1 == s || !(acts.contains(SupAction::SpawnChild)));
                }
            },
        }
        lemma_deps_helper(cfg, s1, c1, d1, n, events.skip(1));
        assert(spawns_from(cfg, s, events) == (if acts.contains(SupAction::SpawnChild) {
            1 as nat
        } else {
            0 as nat
        }) + spawns_from(cfg, s1, events.skip(1)));
        assert(dep_events(events) == (if e == SupEvent::DepRunning {
            1 as nat
        } else {
            0 as nat
        }) + dep_events(events.skip(1)));
    }
}

/// Dependencies first: once a lifetime has ordered any spawn, every one
/// of the `ndeps` dependencies had been observed Running.  Applied to a
/// prefix of the event sequence, this orders the first exec strictly
/// after the last dependency's Running observation.
pub proof fn lemma_deps_before_exec(cfg: SupConfig, ndeps: u64, events: Seq<SupEvent>)
    ensures
        lifetime_spawns(cfg, ndeps, events) >= 1 ==> dep_events(events) >= ndeps,
{
    let s0 = spec_start_state(ndeps);
    if ndeps == 0 {
        assert(dep_events(events) >= 0);
    } else {
        assert(!spec_start_actions(ndeps).contains(SupAction::SpawnChild)) by {
            assert(spec_start_actions(ndeps).len() == 1);
        }
        lemma_deps_helper(cfg, s0, 0, 0, ndeps, events);
    }
}

/// A supervisor reaches Running only on the heels of its own child:
/// either the spawn just handed it a fresh pid, or the ready timeout on
/// that fresh pid just elapsed.  At that moment the child had not been
/// seen to exit, which is what a non-blocking wait right after the
/// transition reports.
pub proof fn lemma_running_entered_fresh(cfg: SupConfig, s: SupState, e: SupEvent)
    requires
        wf_state(cfg, s),
        s.phase != Phase::Running,
        spec_step(cfg, s, e).0.phase == Phase::Running,
    ensures
        (s.phase == Phase::Spawning && exists|p: u64|
            e == SupEvent::PidAcquired(p) && spec_step(cfg, s, e).0.pid == p) || (s.phase
            == Phase::WaitingReady && e == SupEvent::ReadyElapsed),
{
    match e {
        SupEvent::PidAcquired(p) => {
            assert(e == SupEvent::PidAcquired(p));
        },
        _ => {},
    }
}

/// A stop order acts at once: from a live phase, "down" moves the
/// service to Stopped in the same step, issues the configured stop way,
/// and arms the kill timer, whether or not the child obeys the stop
/// signal.
pub proof fn lemma_stop_immediate(cfg: SupConfig, s: SupState)
    requires
        wf_state(cfg, s),
        s.phase == Phase::Running || s.phase == Phase::WaitingReady,
    ensures
        spec_step(cfg, s, SupEvent::InboxDown).0.phase == Phase::Stopped,
        spec_step(cfg, s, SupEvent::InboxDown).0.kill_timer_armed,
        spec_step(cfg, s, SupEvent::InboxDown).1.contains(SupAction::IssueStopWay),
        spec_step(cfg, s, SupEvent::InboxDown).1.contains(SupAction::ArmKillTimer),
        spec_step(cfg, s, SupEvent::InboxDown).1.contains(SupAction::SetStopped),
{
    let acts = spec_step(cfg, s, SupEvent::InboxDown).1;
    assert(acts[1] == SupAction::IssueStopWay);
    assert(acts[2] == SupAction::ArmKillTimer);
    assert(acts[3] == SupAction::SetStopped);
}

/// A stubborn child is killed: when the kill timer fires and the child
/// still lives, the step orders SIGKILL.
pub proof fn lemma_stubborn_child_killed(cfg: SupConfig, s: SupState)
    requires
        wf_state(cfg, s),
        s.phase == Phase::Stopped,
        s.kill_timer_armed,
    ensures
        spec_step(cfg, s, SupEvent::KillTimerFired(true)).1.contains(SupAction::SendSigkill),
{
    let acts = spec_step(cfg, s, SupEvent::KillTimerFired(true)).1;
    assert(acts[0] == SupAction::SendSigkill);
}

} // verus!
