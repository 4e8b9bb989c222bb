//! The supervisor state machine driven through whole service lifetimes,
//! and the registry that tracks the statuses.

use airupd::registry::{Registry, SvcStatus};
use airupd::supervisor::{start, step, Phase, SupAction, SupConfig, SupEvent};

fn cfg(retry_time: u64) -> SupConfig {
    SupConfig { retry_time, ready_wait: false }
}

/// Counts the spawn orders in a list of actions.
fn spawns(actions: &[SupAction]) -> usize {
    actions.iter().filter(|a| **a == SupAction::SpawnChild).count()
}

#[test]
fn start_without_deps_spawns_at_once() {
    let (state, actions) = start(&cfg(3), 0);
    assert_eq!(state.phase, Phase::Spawning);
    assert_eq!(
        actions,
        vec![SupAction::SetReadying, SupAction::RunPreExec, SupAction::SpawnChild]
    );
}

#[test]
fn start_with_deps_resolves_first() {
    // A dependency chain: the dependent registers, resolves its one
    // dependency, and only then spawns.
    let (state, actions) = start(&cfg(3), 1);
    assert_eq!(state.phase, Phase::Resolving);
    assert_eq!(actions, vec![SupAction::SetReadying]);
    // No spawn may happen before the dependency is observed Running.
    assert_eq!(spawns(&actions), 0);
    let (state, actions) = step(&cfg(3), &state, &SupEvent::DepRunning);
    assert_eq!(state.phase, Phase::Spawning);
    assert_eq!(actions, vec![SupAction::RunPreExec, SupAction::SpawnChild]);
}

#[test]
fn fresh_pid_brings_running() {
    // The transition into Running carries the pid of the child just
    // spawned: the child cannot have been reaped before the transition.
    let (state, _) = start(&cfg(3), 0);
    let (state, actions) = step(&cfg(3), &state, &SupEvent::PidAcquired(4242));
    assert_eq!(state.phase, Phase::Running);
    assert_eq!(state.pid, 4242);
    assert_eq!(actions, vec![SupAction::SetRunning]);
}

#[test]
fn ready_timeout_defers_running() {
    let c = SupConfig { retry_time: 3, ready_wait: true };
    let (state, _) = start(&c, 0);
    let (state, actions) = step(&c, &state, &SupEvent::PidAcquired(7));
    assert_eq!(state.phase, Phase::WaitingReady);
    assert_eq!(actions, vec![SupAction::ArmReadyTimer]);
    let (state, actions) = step(&c, &state, &SupEvent::ReadyElapsed);
    assert_eq!(state.phase, Phase::Running);
    assert_eq!(actions, vec![SupAction::SetRunning]);
}

#[test]
fn retry_budget_spawns_exactly_three_times() {
    // exec="false", retry_time=2: exactly three spawns, final status
    // Stopped, and a single "restarted too many times" log.
    let c = cfg(2);
    let (mut state, actions) = start(&c, 0);
    let mut total_spawns = spawns(&actions);
    let mut exhausted_logs = 0;
    let mut pid = 100;
    while total_spawns < 10 {
        let (s, acts) = step(&c, &state, &SupEvent::PidAcquired(pid));
        pid += 1;
        assert_eq!(s.phase, Phase::Running);
        let (s, acts2) = step(&c, &s, &SupEvent::ChildExited(1));
        total_spawns += spawns(&acts) + spawns(&acts2);
        exhausted_logs += acts2
            .iter()
            .filter(|a| **a == SupAction::LogRetryExhausted)
            .count();
        state = s;
        if state.phase == Phase::Stopped {
            break;
        }
    }
    assert_eq!(total_spawns, 3);
    assert_eq!(exhausted_logs, 1);
    assert_eq!(state.phase, Phase::Stopped);
    // Once terminal, a further exit report changes nothing.
    let (s, acts) = step(&c, &state, &SupEvent::ChildExited(1));
    assert_eq!(s, state);
    assert!(acts.is_empty());
}

#[test]
fn spawn_failure_is_terminal() {
    let c = cfg(3);
    let (state, _) = start(&c, 0);
    let (state, actions) = step(&c, &state, &SupEvent::SpawnFailed);
    assert_eq!(state.phase, Phase::Stopped);
    assert!(!state.retries_enabled);
    assert_eq!(actions, vec![SupAction::SetStopped, SupAction::ArmDieTimer]);
}

#[test]
fn polite_stop_without_sigkill() {
    // stop_way=15, kill_timeout elapses after the child already exited:
    // no SIGKILL is sent.
    let c = cfg(3);
    let (state, _) = start(&c, 0);
    let (state, _) = step(&c, &state, &SupEvent::PidAcquired(5));
    let (state, actions) = step(&c, &state, &SupEvent::InboxDown);
    assert_eq!(state.phase, Phase::Stopped);
    assert_eq!(
        actions,
        vec![
            SupAction::RunPreStop,
            SupAction::IssueStopWay,
            SupAction::ArmKillTimer,
            SupAction::SetStopped,
        ]
    );
    let (state, actions) = step(&c, &state, &SupEvent::KillTimerFired(false));
    assert_eq!(actions, vec![SupAction::ArmDieTimer]);
    assert!(!actions.contains(&SupAction::SendSigkill));
    assert_eq!(state.phase, Phase::Stopped);
}

#[test]
fn stubborn_stop_gets_sigkill() {
    // A child that traps its stop signal is killed when the kill timer
    // fires.
    let c = cfg(3);
    let (state, _) = start(&c, 0);
    let (state, _) = step(&c, &state, &SupEvent::PidAcquired(5));
    let (state, _) = step(&c, &state, &SupEvent::InboxDown);
    let (state, actions) = step(&c, &state, &SupEvent::KillTimerFired(true));
    assert_eq!(actions, vec![SupAction::SendSigkill, SupAction::ArmDieTimer]);
    let (state, actions) = step(&c, &state, &SupEvent::DieTimerFired);
    assert_eq!(state.phase, Phase::Retired);
    assert_eq!(actions, vec![SupAction::Deregister]);
}

#[test]
fn external_restart_resets_the_retry_budget() {
    let c = cfg(1);
    let (state, _) = start(&c, 0);
    let (state, _) = step(&c, &state, &SupEvent::PidAcquired(5));
    let (state, _) = step(&c, &state, &SupEvent::ChildExited(1));
    assert_eq!(state.retry_count, 1);
    let (state, _) = step(&c, &state, &SupEvent::PidAcquired(6));
    let (state, _) = step(&c, &state, &SupEvent::InboxDown);
    let (state, actions) = step(&c, &state, &SupEvent::InboxUp);
    assert_eq!(state.phase, Phase::Spawning);
    assert_eq!(state.retry_count, 0);
    assert!(state.retries_enabled);
    assert_eq!(
        actions,
        vec![SupAction::SetReadying, SupAction::RunPreExec, SupAction::SpawnChild]
    );
}

#[test]
fn pid_query_is_answered_in_any_phase() {
    let c = cfg(3);
    let (state, _) = start(&c, 0);
    let (same, actions) = step(&c, &state, &SupEvent::InboxPid);
    assert_eq!(same, state);
    assert_eq!(actions, vec![SupAction::ReplyPid]);
}

#[test]
fn up_while_running_is_idempotent() {
    let c = cfg(3);
    let (state, _) = start(&c, 0);
    let (state, _) = step(&c, &state, &SupEvent::PidAcquired(5));
    let (same, actions) = step(&c, &state, &SupEvent::InboxUp);
    assert_eq!(same, state);
    assert!(actions.is_empty());
}

/// Applies a supervisor action to the registry, as the surrounding task
/// does.
fn apply(reg: &mut Registry, id: &str, action: &SupAction) {
    match action {
        SupAction::SetReadying => reg.set(id, SvcStatus::Readying),
        SupAction::SetRunning => reg.set(id, SvcStatus::Running),
        SupAction::SetStopped => reg.set(id, SvcStatus::Stopped),
        SupAction::Deregister => reg.remove(id),
        _ => {}
    }
}

#[test]
fn lifecycle_round_trip() {
    // Launching a descriptor, asking for status, stopping: the statuses
    // pass Readying, then Running, then Stopped.
    let c = cfg(3);
    let mut reg = Registry::new();
    let mut seen = Vec::new();
    let (state, actions) = start(&c, 0);
    for a in &actions {
        apply(&mut reg, "web", a);
    }
    seen.push(reg.status_of("web"));
    let (state, actions) = step(&c, &state, &SupEvent::PidAcquired(9));
    for a in &actions {
        apply(&mut reg, "web", a);
    }
    seen.push(reg.status_of("web"));
    let (_state, actions) = step(&c, &state, &SupEvent::InboxDown);
    for a in &actions {
        apply(&mut reg, "web", a);
    }
    seen.push(reg.status_of("web"));
    assert_eq!(
        seen,
        vec![SvcStatus::Readying, SvcStatus::Running, SvcStatus::Stopped]
    );
}

#[test]
fn dependency_chain_starts_in_order() {
    // a depends on b: b reaches Running first, then a spawns, and a's
    // status eventually reaches Running.
    let c = cfg(0);
    let mut reg = Registry::new();

    // Start a; it has one dependency and must not spawn yet.
    let (a_state, a_actions) = start(&c, 1);
    for act in &a_actions {
        apply(&mut reg, "a", act);
    }
    assert_eq!(spawns(&a_actions), 0);
    assert_eq!(reg.status_of("a"), SvcStatus::Readying);

    // The resolver finds b unmentioned and brings it up.
    let (b_state, b_actions) = start(&c, 0);
    for act in &b_actions {
        apply(&mut reg, "b", act);
    }
    let (b_state, b_actions) = step(&c, &b_state, &SupEvent::PidAcquired(21));
    for act in &b_actions {
        apply(&mut reg, "b", act);
    }
    assert_eq!(b_state.phase, Phase::Running);
    assert_eq!(reg.status_of("b"), SvcStatus::Running);

    // Only now is a's dependency reported, and a spawns.
    let (a_state, a_actions) = step(&c, &a_state, &SupEvent::DepRunning);
    assert_eq!(spawns(&a_actions), 1);
    let (a_state, a_actions) = step(&c, &a_state, &SupEvent::PidAcquired(22));
    for act in &a_actions {
        apply(&mut reg, "a", act);
    }
    assert_eq!(a_state.phase, Phase::Running);
    assert_eq!(reg.status_of("a"), SvcStatus::Running);
}

#[test]
fn stop_during_ready_wait() {
    let c = SupConfig { retry_time: 3, ready_wait: true };
    let (state, _) = start(&c, 0);
    let (state, _) = step(&c, &state, &SupEvent::PidAcquired(7));
    assert_eq!(state.phase, Phase::WaitingReady);
    let (state, actions) = step(&c, &state, &SupEvent::InboxDown);
    assert_eq!(state.phase, Phase::Stopped);
    assert!(actions.contains(&SupAction::IssueStopWay));
}

#[test]
fn registry_tracks_statuses() {
    let mut reg = Registry::new();
    assert_eq!(reg.status_of("a"), SvcStatus::Unmentioned);
    reg.set("a", SvcStatus::Readying);
    reg.set("b", SvcStatus::Running);
    assert_eq!(reg.status_of("a"), SvcStatus::Readying);
    assert_eq!(reg.status_of("b"), SvcStatus::Running);
    reg.set("a", SvcStatus::Running);
    assert_eq!(reg.status_of("a"), SvcStatus::Running);
    assert_eq!(reg.status_of("b"), SvcStatus::Running);
    reg.remove("a");
    assert_eq!(reg.status_of("a"), SvcStatus::Unmentioned);
    assert_eq!(reg.status_of("b"), SvcStatus::Running);
    reg.remove("never");
    assert_eq!(reg.status_of("b"), SvcStatus::Running);
}
