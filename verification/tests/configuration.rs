//! The defaulted configuration accessors against hand-built documents.

use airupd::config::{
    airup_env_path, airup_home, airup_osname, airup_prestart_paral, milestone_description,
    milestone_paral, svc_cleanup_on_restart, svc_dependencies, svc_description, svc_env_pairs,
    svc_exec, svc_hook, svc_kill_timeout, svc_prompt, svc_ready_timeout, svc_restart_way,
    svc_retry_time, svc_stop_way, svc_take_io, user_at, StopWay, UserRef,
};
use airupd::value::{Document, Item};

fn empty_doc() -> Document {
    Document { sections: Vec::new() }
}

fn svc_doc(entries: Vec<(&str, Item)>) -> Document {
    Document {
        sections: vec![(
            "svc".to_string(),
            entries
                .into_iter()
                .map(|(k, v)| (k.to_string(), v))
                .collect(),
        )],
    }
}

#[test]
fn airup_defaults() {
    let doc = empty_doc();
    assert_eq!(airup_osname(&doc), "Unknown OS");
    assert_eq!(airup_home(&doc), "/etc/airup.d");
    assert_eq!(airup_env_path(&doc), "DONT_SETUP");
    assert!(!airup_prestart_paral(&doc));
}

#[test]
fn airup_overrides() {
    let doc = Document {
        sections: vec![(
            "airup".to_string(),
            vec![
                ("osname".to_string(), Item::Str("Test OS".to_string())),
                ("airup_home".to_string(), Item::Str("/tmp/airup.d".to_string())),
                ("prestart_paral".to_string(), Item::Bool(true)),
            ],
        )],
    };
    assert_eq!(airup_osname(&doc), "Test OS");
    assert_eq!(airup_home(&doc), "/tmp/airup.d");
    assert!(airup_prestart_paral(&doc));
}

#[test]
fn wrong_type_falls_back_to_default() {
    let doc = svc_doc(vec![
        ("description", Item::Int(5)),
        ("take_io", Item::Str("yes".to_string())),
        ("retry_time", Item::Str("many".to_string())),
        ("exec", Item::Bool(true)),
    ]);
    assert_eq!(svc_description(&doc), "An airup service");
    assert!(svc_take_io(&doc));
    assert_eq!(svc_retry_time(&doc), 3);
    // exec is required and has no default: a wrong type means absent.
    assert_eq!(svc_exec(&doc), None);
}

#[test]
fn svc_defaults() {
    let doc = empty_doc();
    assert_eq!(svc_prompt(&doc), None);
    assert_eq!(svc_description(&doc), "An airup service");
    assert_eq!(svc_exec(&doc), None);
    assert!(svc_take_io(&doc));
    assert!(svc_cleanup_on_restart(&doc));
    assert_eq!(svc_retry_time(&doc), 3);
    assert_eq!(svc_kill_timeout(&doc), 5000);
    assert_eq!(svc_ready_timeout(&doc), None);
    assert_eq!(svc_stop_way(&doc), StopWay::Signal(15));
    assert_eq!(svc_restart_way(&doc), StopWay::Signal(15));
    assert!(svc_dependencies(&doc).is_empty());
    assert!(svc_env_pairs(&doc).is_empty());
}

#[test]
fn svc_fields_read_back() {
    let doc = svc_doc(vec![
        ("prompt", Item::Str("Web Server".to_string())),
        ("exec", Item::Str("httpd -f".to_string())),
        ("pre_exec", Item::Str("mkdir -p /run/httpd".to_string())),
        ("retry_time", Item::Int(7)),
        ("kill_timeout", Item::Int(500)),
        ("ready_timeout", Item::Int(50)),
        ("stop_way", Item::Str("httpd -k stop".to_string())),
        (
            "dependencies",
            Item::Arr(vec![
                Item::Str("net".to_string()),
                Item::Int(9),
                Item::Str("fs".to_string()),
            ]),
        ),
        (
            "env_list",
            Item::Table(vec![
                ("LANG".to_string(), Item::Str("C".to_string())),
                ("N".to_string(), Item::Int(1)),
                ("HOME".to_string(), Item::Str("/root".to_string())),
            ]),
        ),
    ]);
    assert_eq!(svc_prompt(&doc), Some("Web Server".to_string()));
    assert_eq!(svc_exec(&doc), Some("httpd -f".to_string()));
    assert_eq!(svc_hook(&doc, "pre_exec"), Some("mkdir -p /run/httpd".to_string()));
    assert_eq!(svc_hook(&doc, "pre_stop"), None);
    assert_eq!(svc_retry_time(&doc), 7);
    assert_eq!(svc_kill_timeout(&doc), 500);
    assert_eq!(svc_ready_timeout(&doc), Some(50));
    assert_eq!(svc_stop_way(&doc), StopWay::Command("httpd -k stop".to_string()));
    // restart_way defaults to the stop way.
    assert_eq!(svc_restart_way(&doc), StopWay::Command("httpd -k stop".to_string()));
    // Non-string entries are passed over.
    assert_eq!(svc_dependencies(&doc), vec!["net".to_string(), "fs".to_string()]);
    assert_eq!(
        svc_env_pairs(&doc),
        vec![
            ("LANG".to_string(), "C".to_string()),
            ("HOME".to_string(), "/root".to_string()),
        ]
    );
}

#[test]
fn duplicate_keys_first_wins() {
    let doc = svc_doc(vec![
        ("exec", Item::Str("first".to_string())),
        ("exec", Item::Str("second".to_string())),
    ]);
    assert_eq!(svc_exec(&doc), Some("first".to_string()));
}

#[test]
fn users_are_read_as_uid_or_name() {
    let doc = svc_doc(vec![
        ("user", Item::Int(33)),
        ("action_user", Item::Str("postgres".to_string())),
    ]);
    assert_eq!(user_at(&doc, "svc", "user"), UserRef::Id(33));
    assert_eq!(
        user_at(&doc, "svc", "action_user"),
        UserRef::Name("postgres".to_string())
    );
    // Absent, or out of uid range: root.
    assert_eq!(user_at(&doc, "svc", "nobody_here"), UserRef::Id(0));
    let doc = svc_doc(vec![("user", Item::Int(-5))]);
    assert_eq!(user_at(&doc, "svc", "user"), UserRef::Id(0));
}

#[test]
fn milestone_defaults() {
    let doc = empty_doc();
    assert_eq!(milestone_description(&doc), "An airup milestone");
    assert!(milestone_paral(&doc));
}
