//! The descriptor file parser on whole texts.

use airupd::config::{
    svc_dependencies, svc_env_pairs, svc_exec, svc_kill_timeout, svc_retry_time, svc_stop_way,
    StopWay,
};
use airupd::supervisor::{start, step, Phase, SupConfig, SupEvent};
use airupd::toml_lite::parse_document;
use airupd::value::Item;

#[test]
fn parse_service_descriptor() {
    let text = "# web service\n\
                [svc]\n\
                prompt = \"Web Server\"\n\
                exec = \"httpd -f\"\n\
                retry_time = 2\n\
                kill_timeout = 500\n\
                take_io = true\n\
                stop_way = 15\n\
                dependencies = [ \"net\", \"fs\" ]\n\
                env_list = { LANG = \"C\", HOME = \"/root\" }\n";
    let doc = parse_document(text).expect("descriptor parses");
    assert_eq!(svc_exec(&doc), Some("httpd -f".to_string()));
    assert_eq!(svc_retry_time(&doc), 2);
    assert_eq!(svc_kill_timeout(&doc), 500);
    assert_eq!(svc_stop_way(&doc), StopWay::Signal(15));
    assert_eq!(svc_dependencies(&doc), vec!["net".to_string(), "fs".to_string()]);
    assert_eq!(
        svc_env_pairs(&doc),
        vec![
            ("LANG".to_string(), "C".to_string()),
            ("HOME".to_string(), "/root".to_string()),
        ]
    );
}

#[test]
fn parse_values_of_every_kind() {
    let text = "[a]\ns = \"x\"\nn = -42\nb = false\nempty_arr = []\nempty_tab = {}\n";
    let doc = parse_document(text).expect("parses");
    let section = &doc.sections[0];
    assert_eq!(section.0, "a");
    assert_eq!(section.1[0], ("s".to_string(), Item::Str("x".to_string())));
    assert_eq!(section.1[1], ("n".to_string(), Item::Int(-42)));
    assert_eq!(section.1[2], ("b".to_string(), Item::Bool(false)));
    assert_eq!(section.1[3], ("empty_arr".to_string(), Item::Arr(vec![])));
    assert_eq!(section.1[4], ("empty_tab".to_string(), Item::Table(vec![])));
}

#[test]
fn parse_mixed_array() {
    let text = "[a]\nxs = [ 1, \"two\", true ]\n";
    let doc = parse_document(text).expect("parses");
    assert_eq!(
        doc.sections[0].1[0].1,
        Item::Arr(vec![
            Item::Int(1),
            Item::Str("two".to_string()),
            Item::Bool(true),
        ])
    );
}

#[test]
fn blank_lines_and_comments_are_skipped() {
    let text = "\n# note\n   \n[airup]\nosname = \"Test\"\n\n# end\n";
    let doc = parse_document(text).expect("parses");
    assert_eq!(doc.sections.len(), 1);
    assert_eq!(doc.sections[0].1.len(), 1);
}

#[test]
fn empty_text_is_an_empty_document() {
    let doc = parse_document("").expect("parses");
    assert!(doc.sections.is_empty());
}

#[test]
fn rejected_texts() {
    // A binding before any section header.
    assert!(parse_document("exec = \"x\"\n[svc]\n").is_none());
    // A line that is no header and no binding.
    assert!(parse_document("[svc]\nnonsense\n").is_none());
    // An unterminated string.
    assert!(parse_document("[svc]\nexec = \"oops\n").is_none());
    // An unterminated array.
    assert!(parse_document("[svc]\ndeps = [ \"a\"\n").is_none());
    // An empty key.
    assert!(parse_document("[svc]\n = 3\n").is_none());
    // A numeral too long to be a configuration integer.
    assert!(parse_document("[svc]\nn = 1234567890123456789012\n").is_none());
}

#[test]
fn section_names_are_trimmed() {
    let doc = parse_document("[ svc ]\nexec = \"x\"\n").expect("parses");
    assert_eq!(doc.sections[0].0, "svc");
    assert_eq!(svc_exec(&doc), Some("x".to_string()));
}

#[test]
fn descriptor_drives_a_supervisor() {
    // From the descriptor text to a running service: parse, read the
    // settings, and walk the machine through its launch.
    let text = "[svc]\nexec = \"sleep 3600\"\nretry_time = 0\nstop_way = 15\n";
    let doc = parse_document(text).expect("descriptor parses");
    let cfg = SupConfig::from_descriptor(
        svc_retry_time(&doc),
        airupd::config::svc_ready_timeout(&doc),
    );
    assert_eq!(cfg.retry_time, 0);
    assert!(!cfg.ready_wait);
    let deps = svc_dependencies(&doc);
    let (state, _) = start(&cfg, deps.len() as u64);
    assert_eq!(state.phase, Phase::Spawning);
    let (state, _) = step(&cfg, &state, &SupEvent::PidAcquired(77));
    assert_eq!(state.phase, Phase::Running);
    // retry_time = 0: the first unexpected exit is terminal.
    let (state, _) = step(&cfg, &state, &SupEvent::ChildExited(0));
    assert_eq!(state.phase, Phase::Stopped);
}

#[test]
fn crlf_lines_are_accepted() {
    let doc = parse_document("[svc]\r\nexec = \"x\"\r\n").expect("parses");
    assert_eq!(svc_exec(&doc), Some("x".to_string()));
}
