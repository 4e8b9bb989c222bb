//! The milestone engine's planning step: from a parsed milestone
//! descriptor and the directory listing, the ordered list of actions
//! that reaches the milestone.  The task elsewhere walks the plan in
//! order, recursing for dependency milestones.

use vstd::prelude::*;
use crate::config::{
    milestone_dependencies,
    milestone_description,
    milestone_env_pairs,
    milestone_paral,
    milestone_pre_exec,
    milestone_prompt,
    pair_views,
    spec_bool_or,
    spec_dep_list,
    spec_env_pairs,
    spec_str_at,
    spec_str_or,
    views_of,
};
use crate::strutil::ends_with;
use crate::value::Document;

verus! {

/// One action of a milestone plan, to perform in plan order.
#[derive(Debug, PartialEq)]
pub enum MilestoneStep {
    /// Export this variable into the process environment.
    ExportEnv(String, String),
    /// Move the current stage to this milestone.
    EnterStage(String),
    /// Run this hook line, synchronously.
    RunPreExec(String),
    /// Reach this dependency milestone first (a recursive plan).
    ReachDependency(String),
    /// Spawn a supervisor for this member descriptor file.
    LaunchService(String),
    /// Block until the member launched just before reached Running.
    WaitRunning(String),
}

/// The shape of a milestone step.
pub enum StepV {
    ExportEnv(Seq<char>, Seq<char>),
    EnterStage(Seq<char>),
    RunPreExec(Seq<char>),
    ReachDependency(Seq<char>),
    LaunchService(Seq<char>),
    WaitRunning(Seq<char>),
}

impl View for MilestoneStep {
    type V = StepV;

    open spec fn view(&self) -> StepV {
        match self {
            MilestoneStep::ExportEnv(k, v) => StepV::ExportEnv(k@, v@),
            MilestoneStep::EnterStage(p) => StepV::EnterStage(p@),
            MilestoneStep::RunPreExec(c) => StepV::RunPreExec(c@),
            MilestoneStep::ReachDependency(d) => StepV::ReachDependency(d@),
            MilestoneStep::LaunchService(f) => StepV::LaunchService(f@),
            MilestoneStep::WaitRunning(f) => StepV::WaitRunning(f@),
        }
    }
}

/// The environment segment of a plan.
pub open spec fn spec_env_steps(pairs: Seq<(Seq<char>, Seq<char>)>) -> Seq<StepV> {
    pairs.map_values(|p: (Seq<char>, Seq<char>)| StepV::ExportEnv(p.0, p.1))
}

/// The dependency segment of a plan.
pub open spec fn spec_dep_steps(deps: Seq<Seq<char>>) -> Seq<StepV> {
    deps.map_values(|d: Seq<char>| StepV::ReachDependency(d))
}

/// The hook segment of a plan: one step when a hook is configured.
pub open spec fn spec_hook_steps(hook: Option<Seq<char>>) -> Seq<StepV> {
    match hook {
        Option::Some(c) => seq![StepV::RunPreExec(c)],
        Option::None => Seq::empty(),
    }
}

/// The member segment of a plan: every directory entry that names a
/// service descriptor is launched, in listing order; a serial milestone
/// waits for each before the next.
pub open spec fn spec_member_steps(files: Seq<Seq<char>>, paral: bool) -> Seq<StepV>
    decreases files.len(),
{
    if files.len() == 0 {
        Seq::empty()
    } else {
        (if ".svc"@.is_suffix_of(files[0]) {
            if paral {
                seq![StepV::LaunchService(files[0])]
            } else {
                seq![StepV::LaunchService(files[0]), StepV::WaitRunning(files[0])]
            }
        } else {
            Seq::<StepV>::empty()
        }) + spec_member_steps(files.skip(1), paral)
    }
}

/// The whole plan of a milestone: environment first, then the stage
/// change, then the hook, then the dependencies, then the members.
pub open spec fn spec_plan_steps(
    doc: Document,
    prompt: Seq<char>,
    files: Seq<Seq<char>>,
) -> Seq<StepV> {
    spec_env_steps(spec_env_pairs(doc, "milestone"@)) + seq![StepV::EnterStage(prompt)]
        + spec_hook_steps(spec_str_at(doc, "milestone"@, "pre_exec"@)) + spec_dep_steps(
        spec_dep_list(doc, "milestone"@, "dependencies"@),
    ) + spec_member_steps(files, spec_bool_or(doc, "milestone"@, "paral"@, true))
}

/// The label a milestone plan runs under.
pub open spec fn spec_plan_prompt(doc: Document, dir_name: Seq<char>) -> Seq<char> {
    match spec_str_at(doc, "milestone"@, "prompt"@) {
        Option::Some(p) => p,
        Option::None => dir_name,
    }
}

/// A computed milestone plan.
pub struct MilestonePlan {
    pub prompt: String,
    pub description: String,
    pub paral: bool,
    pub steps: Vec<MilestoneStep>,
}

/// Computes the plan of a milestone from its parsed descriptor (an
/// empty document when the descriptor file is missing), the name of its
/// directory, and the directory listing.
pub fn milestone_plan(doc: &Document, dir_name: &str, files: &Vec<String>) -> (r: MilestonePlan)
    ensures
        r.prompt@ == spec_plan_prompt(*doc, dir_name@),
        r.description@ == spec_str_or(*doc, "milestone"@, "description"@, "An airup milestone"@),
        r.paral == spec_bool_or(*doc, "milestone"@, "paral"@, true),
        r.steps@.map_values(|s: MilestoneStep| s@) == spec_plan_steps(
            *doc,
            spec_plan_prompt(*doc, dir_name@),
            views_of(files@),
        ),
{
    let prompt = match milestone_prompt(doc) {
        Some(p) => p,
        None => dir_name.to_owned(),
    };
    let description = milestone_description(doc);
    let paral = milestone_paral(doc);
    let mut steps: Vec<MilestoneStep> = Vec::new();

    let env = milestone_env_pairs(doc);
    let mut i: usize = 0;
    let n = env.len();
    while i < n
        invariant
            i <= n,
            n == env@.len(),
            steps@.map_values(|s: MilestoneStep| s@) =~= spec_env_steps(
                pair_views(env@).take(i as int),
            ),
        decreases n - i,
    {
        let k = env[i].0.clone();
        let v = env[i].1.clone();
        let ghost pre = steps@;
        steps.push(MilestoneStep::ExportEnv(k, v));
        proof {
            assert(steps@.map_values(|s: MilestoneStep| s@) =~= pre.map_values(
                |s: MilestoneStep| s@,
            ).push(StepV::ExportEnv(env@[i as int].0@, env@[i as int].1@)));
            assert(pair_views(env@).take(i as int + 1) =~= pair_views(env@).take(i as int).push(
                (env@[i as int].0@, env@[i as int].1@),
            ));
            assert(spec_env_steps(pair_views(env@).take(i as int + 1)) =~= spec_env_steps(
                pair_views(env@).take(i as int),
            ).push(StepV::ExportEnv(env@[i as int].0@, env@[i as int].1@)));
        }
        i += 1;
    }
    proof {
        assert(pair_views(env@).take(n as int) =~= pair_views(env@));
    }

    steps.push(MilestoneStep::EnterStage(prompt.clone()));
    match milestone_pre_exec(doc) {
        Some(c) => {
            steps.push(MilestoneStep::RunPreExec(c));
        },
        None => {},
    }
    let ghost before_deps = steps@.map_values(|s: MilestoneStep| s@);
    proof {
        assert(before_deps =~= spec_env_steps(spec_env_pairs(*doc, "milestone"@)) + seq![
            StepV::EnterStage(spec_plan_prompt(*doc, dir_name@)),
        ] + spec_hook_steps(spec_str_at(*doc, "milestone"@, "pre_exec"@)));
    }

    let deps = milestone_dependencies(doc);
    let mut i: usize = 0;
    let n = deps.len();
    while i < n
        invariant
            i <= n,
            n == deps@.len(),
            steps@.map_values(|s: MilestoneStep| s@) =~= before_deps + spec_dep_steps(
                views_of(deps@).take(i as int),
            ),
        decreases n - i,
    {
        let d = deps[i].clone();
        let ghost pre = steps@;
        steps.push(MilestoneStep::ReachDependency(d));
        proof {
            assert(steps@.map_values(|s: MilestoneStep| s@) =~= pre.map_values(
                |s: MilestoneStep| s@,
            ).push(StepV::ReachDependency(deps@[i as int]@)));
            assert(views_of(deps@).take(i as int + 1) =~= views_of(deps@).take(i as int).push(
                deps@[i as int]@,
            ));
            assert(spec_dep_steps(views_of(deps@).take(i as int + 1)) =~= spec_dep_steps(
                views_of(deps@).take(i as int),
            ).push(StepV::ReachDependency(deps@[i as int]@)));
        }
        i += 1;
    }
    proof {
        assert(views_of(deps@).take(n as int) =~= views_of(deps@));
    }
    let ghost before_members = steps@.map_values(|s: MilestoneStep| s@);
    proof {
        assert(before_members =~= before_deps + spec_dep_steps(
            spec_dep_list(*doc, "milestone"@, "dependencies"@),
        ));
    }

    let mut i: usize = 0;
    let n = files.len();
    proof {
        assert(views_of(files@).skip(0) =~= views_of(files@));
    }
    while i < n
        invariant
            i <= n,
            n == files@.len(),
            steps@.map_values(|s: MilestoneStep| s@) + spec_member_steps(
                views_of(files@).skip(i as int),
                paral,
            ) =~= before_members + spec_member_steps(views_of(files@), paral),
        decreases n - i,
    {
        let ghost fv = views_of(files@);
        let ghost pre = steps@;
        proof {
            assert(fv.skip(i as int)[0] == fv[i as int]);
            assert(fv.skip(i as int).skip(1) =~= fv.skip(i as int + 1));
        }
        if ends_with(files[i].as_str(), ".svc") {
            let f = files[i].clone();
            steps.push(MilestoneStep::LaunchService(f));
            proof {
                assert(steps@.map_values(|s: MilestoneStep| s@) =~= pre.map_values(
                    |s: MilestoneStep| s@,
                ).push(StepV::LaunchService(fv[i as int])));
            }
            if !paral {
                let f2 = files[i].clone();
                let ghost pre2 = steps@;
                steps.push(MilestoneStep::WaitRunning(f2));
                proof {
                    assert(steps@.map_values(|s: MilestoneStep| s@) =~= pre2.map_values(
                        |s: MilestoneStep| s@,
                    ).push(StepV::WaitRunning(fv[i as int])));
                }
            }
        }
        proof {
            assert(steps@.map_values(|s: MilestoneStep| s@) + spec_member_steps(
                fv.skip(i as int + 1),
                paral,
            ) =~= before_members + spec_member_steps(fv, paral));
        }
        i += 1;
    }
    proof {
        assert(views_of(files@).skip(n as int).len() == 0);
        assert(spec_member_steps(views_of(files@).skip(n as int), paral) =~= Seq::<StepV>::empty());
        assert(steps@.map_values(|s: MilestoneStep| s@) =~= before_members + spec_member_steps(
            views_of(files@),
            paral,
        ));
        assert(before_members + spec_member_steps(views_of(files@), paral) =~= spec_plan_steps(
            *doc,
            spec_plan_prompt(*doc, dir_name@),
            views_of(files@),
        ));
    }
    MilestonePlan { prompt, description, paral, steps }
}

/// Every step of a member segment launches or waits.
proof fn lemma_member_steps_shape(files: Seq<Seq<char>>, paral: bool)
    ensures
        forall|k: int|
            0 <= k < spec_member_steps(files, paral).len() ==> (#[trigger] spec_member_steps(
                files,
                paral,
            )[k] is LaunchService || spec_member_steps(files, paral)[k] is WaitRunning),
    decreases files.len(),
{
    if files.len() > 0 {
        lemma_member_steps_shape(files.skip(1), paral);
    }
}

/// In a serial member segment, a wait on the same member follows each
/// launch at once.
proof fn lemma_member_steps_serial(files: Seq<Seq<char>>)
    ensures
        forall|k: int|
            0 <= k < spec_member_steps(files, false).len() && (#[trigger] spec_member_steps(
                files,
                false,
            )[k]) is LaunchService ==> k + 1 < spec_member_steps(files, false).len()
                && spec_member_steps(files, false)[k + 1] == StepV::WaitRunning(
                spec_member_steps(files, false)[k]->LaunchService_0,
            ),
    decreases files.len(),
{
    if files.len() > 0 {
        lemma_member_steps_serial(files.skip(1));
        let ms = spec_member_steps(files, false);
        let rest = spec_member_steps(files.skip(1), false);
        if ".svc"@.is_suffix_of(files[0]) {
            assert(ms[0] == StepV::LaunchService(files[0]));
            assert(ms[1] == StepV::WaitRunning(files[0]));
            assert(forall|k: int| 2 <= k < ms.len() ==> ms[k] == rest[k - 2]);
        } else {
            assert(forall|k: int| 0 <= k < ms.len() ==> ms[k] == rest[k]);
        }
    }
}

/// Environment first: in every milestone plan, each environment export
/// stands before the hook and before every member launch, so by the
/// time the hook returns or a member spawns, every variable of the
/// milestone's env_list has been exported.
pub proof fn lemma_env_exported_first(doc: Document, prompt: Seq<char>, files: Seq<Seq<char>>)
    ensures
        forall|i: int, j: int|
            0 <= i < spec_plan_steps(doc, prompt, files).len() && 0 <= j < spec_plan_steps(
                doc,
                prompt,
                files,
            ).len() && (#[trigger] spec_plan_steps(doc, prompt, files)[i]) is ExportEnv
                && ((#[trigger] spec_plan_steps(doc, prompt, files)[j]) is RunPreExec
                || spec_plan_steps(doc, prompt, files)[j] is LaunchService) ==> i < j,
{
    let steps = spec_plan_steps(doc, prompt, files);
    let env = spec_env_steps(spec_env_pairs(doc, "milestone"@));
    let stage = seq![StepV::EnterStage(prompt)];
    let hook = spec_hook_steps(spec_str_at(doc, "milestone"@, "pre_exec"@));
    let deps = spec_dep_steps(spec_dep_list(doc, "milestone"@, "dependencies"@));
    let members = spec_member_steps(files, spec_bool_or(doc, "milestone"@, "paral"@, true));
    lemma_member_steps_shape(files, spec_bool_or(doc, "milestone"@, "paral"@, true));
    assert forall|i: int, j: int|
        0 <= i < steps.len() && 0 <= j < steps.len() && (#[trigger] steps[i]) is ExportEnv && ((
        #[trigger] steps[j]) is RunPreExec || steps[j] is LaunchService) implies i < j by {
        if i >= env.len() {
            assert(!(steps[i] is ExportEnv));
        }
        if j < env.len() {
            assert(steps[j] == env[j]);
            assert(steps[j] is ExportEnv);
        }
    }
}

/// Serial milestones wait: when `paral` is false, the plan waits for
/// each launched member to reach Running before anything further, so a
/// later member's exec cannot run until the earlier member is Running.
pub proof fn lemma_serial_members_wait(doc: Document, prompt: Seq<char>, files: Seq<Seq<char>>)
    requires
        !spec_bool_or(doc, "milestone"@, "paral"@, true),
    ensures
        forall|k: int|
            0 <= k < spec_plan_steps(doc, prompt, files).len() && (#[trigger] spec_plan_steps(
                doc,
                prompt,
                files,
            )[k]) is LaunchService ==> k + 1 < spec_plan_steps(doc, prompt, files).len()
                && spec_plan_steps(doc, prompt, files)[k + 1] == StepV::WaitRunning(
                spec_plan_steps(doc, prompt, files)[k]->LaunchService_0,
            ),
{
    let steps = spec_plan_steps(doc, prompt, files);
    let env = spec_env_steps(spec_env_pairs(doc, "milestone"@));
    let stage = seq![StepV::EnterStage(prompt)];
    let hook = spec_hook_steps(spec_str_at(doc, "milestone"@, "pre_exec"@));
    let deps = spec_dep_steps(spec_dep_list(doc, "milestone"@, "dependencies"@));
    let members = spec_member_steps(files, false);
    let base = env.len() + stage.len() + hook.len() + deps.len();
    lemma_member_steps_serial(files);
    assert forall|k: int|
        0 <= k < steps.len() && (#[trigger] steps[k]) is LaunchService implies k + 1 < steps.len()
        && steps[k + 1] == StepV::WaitRunning(steps[k]->LaunchService_0) by {
        assert(steps.len() == base + members.len());
        if k < env.len() {
            assert(steps[k] == env[k]);
        } else if k < base {
            assert(!(steps[k] is LaunchService));
        }
        assert(k >= base);
        assert(steps[k] == members[k - base]);
        assert(members[k - base] is LaunchService);
        assert(members[k - base + 1] == StepV::WaitRunning(members[k - base]->LaunchService_0));
        assert(steps[k + 1] == members[k + 1 - base]);
    }
}

} // verus!
