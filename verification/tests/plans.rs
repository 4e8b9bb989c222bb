//! Milestone and prestart plans: ordering of environment, hook,
//! dependencies, and member launches; dependency and stage decisions.

use airupd::milestone::{milestone_plan, MilestoneStep};
use airupd::registry::SvcStatus;
use airupd::resolver::{dep_action, is_alias_dep, DepAction};
use airupd::stage::{enter_milestone, prestart_plan, request_ctrlaltdel, request_shutdown, Stage};
use airupd::value::{Document, Item};

fn milestone_doc(entries: Vec<(&str, Item)>) -> Document {
    Document {
        sections: vec![(
            "milestone".to_string(),
            entries
                .into_iter()
                .map(|(k, v)| (k.to_string(), v))
                .collect(),
        )],
    }
}

#[test]
fn plan_orders_env_stage_hook_deps_members() {
    let doc = milestone_doc(vec![
        ("prompt", Item::Str("Default".to_string())),
        ("pre_exec", Item::Str("echo hi".to_string())),
        (
            "env_list",
            Item::Table(vec![("A".to_string(), Item::Str("1".to_string()))]),
        ),
        (
            "dependencies",
            Item::Arr(vec![Item::Str("base".to_string())]),
        ),
    ]);
    let files = vec![
        "web.svc".to_string(),
        "milestone.toml".to_string(),
        "db.svc".to_string(),
    ];
    let plan = milestone_plan(&doc, "default", &files);
    assert_eq!(plan.prompt, "Default");
    assert!(plan.paral);
    assert_eq!(
        plan.steps,
        vec![
            MilestoneStep::ExportEnv("A".to_string(), "1".to_string()),
            MilestoneStep::EnterStage("Default".to_string()),
            MilestoneStep::RunPreExec("echo hi".to_string()),
            MilestoneStep::ReachDependency("base".to_string()),
            MilestoneStep::LaunchService("web.svc".to_string()),
            MilestoneStep::LaunchService("db.svc".to_string()),
        ]
    );
    // Every env export precedes the hook and every launch.
    let env_at = plan
        .steps
        .iter()
        .position(|s| matches!(s, MilestoneStep::ExportEnv(_, _)))
        .unwrap();
    let hook_at = plan
        .steps
        .iter()
        .position(|s| matches!(s, MilestoneStep::RunPreExec(_)))
        .unwrap();
    let launch_at = plan
        .steps
        .iter()
        .position(|s| matches!(s, MilestoneStep::LaunchService(_)))
        .unwrap();
    assert!(env_at < hook_at && hook_at < launch_at);
}

#[test]
fn serial_milestone_waits_between_members() {
    // paral=false and two member services: the second's exec cannot run
    // until the first reached Running, because the plan interposes a
    // wait.
    let doc = milestone_doc(vec![("paral", Item::Bool(false))]);
    let files = vec!["one.svc".to_string(), "two.svc".to_string()];
    let plan = milestone_plan(&doc, "single", &files);
    assert!(!plan.paral);
    assert_eq!(
        plan.steps,
        vec![
            MilestoneStep::EnterStage("single".to_string()),
            MilestoneStep::LaunchService("one.svc".to_string()),
            MilestoneStep::WaitRunning("one.svc".to_string()),
            MilestoneStep::LaunchService("two.svc".to_string()),
            MilestoneStep::WaitRunning("two.svc".to_string()),
        ]
    );
}

#[test]
fn missing_descriptor_uses_directory_name() {
    let doc = Document { sections: Vec::new() };
    let plan = milestone_plan(&doc, "rescue", &Vec::new());
    assert_eq!(plan.prompt, "rescue");
    assert_eq!(plan.description, "An airup milestone");
    assert_eq!(plan.steps, vec![MilestoneStep::EnterStage("rescue".to_string())]);
}

#[test]
fn prestart_plans() {
    let files = vec!["a.sh".to_string(), "b.sh".to_string()];
    let serial = prestart_plan(&files, false);
    assert_eq!(
        serial,
        vec![("a.sh".to_string(), true), ("b.sh".to_string(), true)]
    );
    let parallel = prestart_plan(&files, true);
    assert_eq!(
        parallel,
        vec![("a.sh".to_string(), false), ("b.sh".to_string(), false)]
    );
}

#[test]
fn dependency_decisions() {
    assert_eq!(dep_action(SvcStatus::Running), DepAction::Satisfied);
    assert_eq!(dep_action(SvcStatus::Stopped), DepAction::Satisfied);
    assert_eq!(dep_action(SvcStatus::Readying), DepAction::WaitRunning);
    assert_eq!(dep_action(SvcStatus::Working), DepAction::WaitRunning);
    assert_eq!(dep_action(SvcStatus::Unmentioned), DepAction::SpawnAndWait);
    assert!(is_alias_dep("alias::x"));
    assert!(!is_alias_dep("net"));
}

#[test]
fn stages_move_one_way() {
    let s = Stage::PreStart;
    let s = enter_milestone(s, "default");
    assert_eq!(s, Stage::Milestones("default".to_string()));
    let s = enter_milestone(s, "multi-user");
    assert_eq!(s, Stage::Milestones("multi-user".to_string()));
    let s = request_shutdown(s);
    assert_eq!(s, Stage::Shutdown);
    // Terminal: no way back into a milestone, and no crossover.
    assert_eq!(enter_milestone(s, "default"), Stage::Shutdown);
    assert_eq!(request_ctrlaltdel(Stage::Shutdown), Stage::Shutdown);
    assert_eq!(
        request_ctrlaltdel(Stage::Milestones("x".to_string())),
        Stage::CtrlAltDel
    );
    assert_eq!(request_shutdown(Stage::CtrlAltDel), Stage::CtrlAltDel);
}
