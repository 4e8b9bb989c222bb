//! The control-plane wire protocol: requests, advertisements, inbox
//! messages, status replies, and the per-request decisions.

use airupd::control::{
    failed_reply, format_inbox_msg, format_reg_msg, format_request, parse_inbox_msg,
    parse_reg_msg, parse_request, route_reply, route_to_supervisor, start_decision, start_reply,
    status_needs_pid, status_reply, InboxMsg, RegMsg, Request, StartDecision,
};
use airupd::registry::SvcStatus;

#[test]
fn parse_svc_start() {
    assert_eq!(
        parse_request("svc start sshd"),
        Some(Request::SvcStart("sshd".to_string()))
    );
}

#[test]
fn parse_svc_stop() {
    assert_eq!(
        parse_request("svc stop sshd"),
        Some(Request::SvcStop("sshd".to_string()))
    );
}

#[test]
fn parse_svc_restart() {
    assert_eq!(
        parse_request("svc restart crond"),
        Some(Request::SvcRestart("crond".to_string()))
    );
}

#[test]
fn parse_svc_status() {
    assert_eq!(
        parse_request("svc status ghost"),
        Some(Request::SvcStatus("ghost".to_string()))
    );
}

#[test]
fn parse_system_commands() {
    assert_eq!(parse_request("system poweroff"), Some(Request::SystemPoweroff));
    assert_eq!(parse_request("system restart"), Some(Request::SystemRestart));
    assert_eq!(parse_request("system ctrlaltdel"), Some(Request::SystemCtrlAltDel));
}

#[test]
fn parse_malformed_requests() {
    assert_eq!(parse_request(""), None);
    assert_eq!(parse_request("svc"), None);
    assert_eq!(parse_request("svc start"), None);
    assert_eq!(parse_request("svc reload x"), None);
    assert_eq!(parse_request("system halt"), None);
    assert_eq!(parse_request("hello world"), None);
}

#[test]
fn request_round_trip() {
    let reqs = vec![
        Request::SvcStart("a b".to_string()),
        Request::SvcStop("x".to_string()),
        Request::SvcRestart("web".to_string()),
        Request::SvcStatus("".to_string()),
        Request::SystemPoweroff,
        Request::SystemRestart,
        Request::SystemCtrlAltDel,
    ];
    for q in reqs {
        let text = format_request(&q);
        assert_eq!(parse_request(text.as_str()), Some(q));
    }
}

#[test]
fn reg_msg_round_trip() {
    let up = RegMsg::Up("nginx".to_string());
    assert_eq!(format_reg_msg(&up), "up nginx");
    assert_eq!(parse_reg_msg("up nginx"), Some(up));
    let down = RegMsg::Down("nginx".to_string());
    assert_eq!(format_reg_msg(&down), "down nginx");
    assert_eq!(parse_reg_msg("down nginx"), Some(down));
    assert_eq!(parse_reg_msg("hello"), None);
}

#[test]
fn inbox_round_trip() {
    for m in [InboxMsg::Down, InboxMsg::Up, InboxMsg::Pid] {
        let text = format_inbox_msg(m);
        assert_eq!(parse_inbox_msg(text.as_str()), Some(m));
    }
    assert_eq!(parse_inbox_msg("kill"), None);
}

#[test]
fn status_of_unknown_service() {
    // `svc status ghost` on a service nobody registered replies
    // "SvcNotRunning 0".
    let reply = status_reply(SvcStatus::Unmentioned, 0);
    assert_eq!(reply, "SvcNotRunning 0");
}

#[test]
fn status_replies() {
    assert_eq!(status_reply(SvcStatus::Running, 4321), "Running 4321");
    assert_eq!(status_reply(SvcStatus::Readying, 0), "Readying 0");
    assert_eq!(status_reply(SvcStatus::Working, 7), "Working 7");
    assert_eq!(status_reply(SvcStatus::Stopped, 0), "Stopped 0");
}

#[test]
fn stop_routes_only_to_known_services() {
    assert!(route_to_supervisor(SvcStatus::Running));
    assert!(route_to_supervisor(SvcStatus::Readying));
    assert!(route_to_supervisor(SvcStatus::Stopped));
    assert!(!route_to_supervisor(SvcStatus::Unmentioned));
}

#[test]
fn pid_asked_only_when_running() {
    assert!(status_needs_pid(SvcStatus::Running));
    assert!(!status_needs_pid(SvcStatus::Readying));
    assert!(!status_needs_pid(SvcStatus::Stopped));
    assert!(!status_needs_pid(SvcStatus::Unmentioned));
}

#[test]
fn replies_follow_the_protocol() {
    assert_eq!(failed_reply(), "Failed");
    assert_eq!(route_reply(true), "Ok");
    assert_eq!(route_reply(false), "SvcNotRunning");
    assert_eq!(start_reply(StartDecision::NotExist, false), "SvcNotExist");
    assert_eq!(start_reply(StartDecision::AlreadyActive, false), "Ok");
    assert_eq!(start_reply(StartDecision::Launch, true), "Ok");
    assert_eq!(start_reply(StartDecision::Launch, false), "Failed");
}

#[test]
fn start_decisions() {
    assert_eq!(
        start_decision(SvcStatus::Unmentioned, true),
        StartDecision::Launch
    );
    assert_eq!(
        start_decision(SvcStatus::Running, true),
        StartDecision::AlreadyActive
    );
    assert_eq!(
        start_decision(SvcStatus::Unmentioned, false),
        StartDecision::NotExist
    );
}
