//! Shell-line composition, pid substitution, ids, paths, and the small
//! boot-time computations.

use airupd::command::{
    boot_env_pairs, compose_command, env_literal, file_name_of, milestone_dir_path,
    milestone_from_args, milestone_toml_path, milestones_dir, path_env_value, pid_from_file,
    prestart_dir, replace_all, signal_number, stop_action, su_user_args, svc_descriptor_path,
    svc_id_of_name, StopAction,
};
use airupd::config::{StopWay, UserRef};
use airupd::strutil::{parse_i64, parse_u64, str_eq, u64_to_string};

#[test]
fn numbers_in_decimal() {
    assert_eq!(u64_to_string(0), "0");
    assert_eq!(u64_to_string(7), "7");
    assert_eq!(u64_to_string(65535), "65535");
    assert_eq!(parse_u64("0"), Some(0));
    assert_eq!(parse_u64("98765"), Some(98765));
    assert_eq!(parse_u64(""), None);
    assert_eq!(parse_u64("12x"), None);
    assert_eq!(parse_u64("-3"), None);
    assert_eq!(parse_i64("-3"), Some(-3));
    assert_eq!(parse_i64("250"), Some(250));
    assert_eq!(parse_i64("- 3"), None);
}

#[test]
fn string_equality() {
    assert!(str_eq("abc", "abc"));
    assert!(!str_eq("abc", "abd"));
    assert!(!str_eq("abc", "ab"));
}

#[test]
fn environment_literal() {
    let pairs = vec![
        ("LANG".to_string(), "C".to_string()),
        ("HOME".to_string(), "/root".to_string()),
    ];
    assert_eq!(env_literal(&pairs), "LANG=\"C\" HOME=\"/root\"");
    assert_eq!(env_literal(&Vec::new()), "");
}

#[test]
fn composed_shell_line() {
    assert_eq!(
        compose_command("LANG=\"C\"", "httpd -f"),
        "LANG=\"C\" exec httpd -f"
    );
    assert_eq!(compose_command("", "true"), " exec true");
}

#[test]
fn user_switch_arguments() {
    assert_eq!(
        su_user_args(&UserRef::Id(33)),
        ("--uid".to_string(), "33".to_string())
    );
    assert_eq!(
        su_user_args(&UserRef::Name("postgres".to_string())),
        ("-u".to_string(), "postgres".to_string())
    );
}

#[test]
fn pid_substitution_in_stop_commands() {
    let way = StopWay::Command("kill -TERM ${PID}; echo ${PID}".to_string());
    assert_eq!(
        stop_action(&way, 4242),
        StopAction::RunCommand("kill -TERM 4242; echo 4242".to_string())
    );
    assert_eq!(stop_action(&StopWay::Signal(9), 4242), StopAction::SendSignal(9));
}

#[test]
fn replacement_walks_left_to_right() {
    assert_eq!(replace_all("aaa", "aa", "b"), "ba");
    assert_eq!(replace_all("none here", "x", "y"), "none here");
}

#[test]
fn signal_numbers_fall_back() {
    assert_eq!(signal_number(15), 15);
    assert_eq!(signal_number(9), 9);
    assert_eq!(signal_number(1_000_000_000_000), 15);
}

#[test]
fn service_ids_from_file_names() {
    assert_eq!(svc_id_of_name("nginx.svc"), "nginx");
    assert_eq!(svc_id_of_name("plain"), "plain");
    assert_eq!(svc_id_of_name("a.svc.svc"), "a");
    assert_eq!(file_name_of("/etc/airup.d/svc/web.svc"), "web.svc");
    assert_eq!(file_name_of("web.svc"), "web.svc");
    assert_eq!(file_name_of("/a/b/"), "");
}

#[test]
fn paths_under_the_home_directory() {
    assert_eq!(
        svc_descriptor_path("/etc/airup.d", "net"),
        "/etc/airup.d/svc/net.svc"
    );
    assert_eq!(milestones_dir("/etc/airup.d"), "/etc/airup.d/milestones");
    assert_eq!(prestart_dir("/etc/airup.d"), "/etc/airup.d/prestart");
    assert_eq!(
        milestone_dir_path("/etc/airup.d/milestones", "default"),
        "/etc/airup.d/milestones/default"
    );
    assert_eq!(
        milestone_toml_path("/etc/airup.d/milestones/default"),
        "/etc/airup.d/milestones/default/milestone.toml"
    );
}

#[test]
fn boot_milestone_from_kernel_args() {
    let args = vec!["init".to_string(), "quiet".to_string()];
    assert_eq!(milestone_from_args(&args), "default");
    let args = vec!["init".to_string(), "milestone=multi-user".to_string()];
    assert_eq!(milestone_from_args(&args), "multi-user");
    // The last one wins.
    let args = vec![
        "milestone=a".to_string(),
        "milestone=b".to_string(),
    ];
    assert_eq!(milestone_from_args(&args), "b");
}

#[test]
fn boot_environment() {
    let pairs = boot_env_pairs("default", "/etc/airup.d", false);
    assert_eq!(
        pairs,
        vec![
            ("AIRUP_TARGET_MILESTONE".to_string(), "default".to_string()),
            ("AIRUP_HOME_DIR".to_string(), "/etc/airup.d".to_string()),
            ("AIRUP_PARAL_PRESTART".to_string(), "false".to_string()),
        ]
    );
}

#[test]
fn path_sentinel() {
    assert_eq!(path_env_value("DONT_SETUP"), None);
    assert_eq!(path_env_value("/bin:/sbin"), Some("/bin:/sbin".to_string()));
}

#[test]
fn pid_files() {
    assert_eq!(pid_from_file("1234"), Some(1234));
    assert_eq!(pid_from_file("-1"), Some(-1));
    assert_eq!(pid_from_file("1234\n"), None);
    assert_eq!(pid_from_file("pid 12"), None);
    assert_eq!(pid_from_file("99999999999999"), None);
}
