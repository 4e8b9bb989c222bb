//! The global stage of the init process and its one-way transitions:
//! boot moves from PreStart into milestones, and the shutdown stages
//! are terminal.

use vstd::prelude::*;

verus! {

/// The coarse phase of the whole init process.
#[derive(Debug, PartialEq)]
pub enum Stage {
    PreStart,
    Milestones(String),
    Shutdown,
    CtrlAltDel,
}

/// The shape of a stage.
pub enum StageV {
    PreStart,
    Milestones(Seq<char>),
    Shutdown,
    CtrlAltDel,
}

impl View for Stage {
    type V = StageV;

    open spec fn view(&self) -> StageV {
        match self {
            Stage::PreStart => StageV::PreStart,
            Stage::Milestones(name) => StageV::Milestones(name@),
            Stage::Shutdown => StageV::Shutdown,
            Stage::CtrlAltDel => StageV::CtrlAltDel,
        }
    }
}

/// How far along the boot a stage is.  The two shutdown stages share
/// the top rank: neither ever yields to the other.
pub open spec fn stage_rank(v: StageV) -> int {
    match v {
        StageV::PreStart => 0,
        StageV::Milestones(name) => 1,
        StageV::Shutdown => 2,
        StageV::CtrlAltDel => 2,
    }
}

/// Moves the stage into a milestone.  The shutdown stages are terminal
/// and stay; otherwise the stage becomes this milestone.
pub fn enter_milestone(stage: Stage, name: &str) -> (r: Stage)
    ensures
        stage_rank(stage@) >= 2 ==> r@ == stage@,
        stage_rank(stage@) < 2 ==> r@ == StageV::Milestones(name@),
        stage_rank(r@) >= stage_rank(stage@),
{
    match stage {
        Stage::Shutdown => Stage::Shutdown,
        Stage::CtrlAltDel => Stage::CtrlAltDel,
        _ => Stage::Milestones(name.to_owned()),
    }
}

/// Moves the stage to Shutdown, except out of CtrlAltDel, which is
/// terminal.
pub fn request_shutdown(stage: Stage) -> (r: Stage)
    ensures
        stage@ is CtrlAltDel ==> r@ == stage@,
        !(stage@ is CtrlAltDel) ==> r@ == StageV::Shutdown,
        stage_rank(r@) >= stage_rank(stage@),
{
    match stage {
        Stage::CtrlAltDel => Stage::CtrlAltDel,
        _ => Stage::Shutdown,
    }
}

/// Moves the stage to CtrlAltDel, except out of Shutdown, which is
/// terminal.
pub fn request_ctrlaltdel(stage: Stage) -> (r: Stage)
    ensures
        stage@ is Shutdown ==> r@ == stage@,
        !(stage@ is Shutdown) ==> r@ == StageV::CtrlAltDel,
        stage_rank(r@) >= stage_rank(stage@),
{
    match stage {
        Stage::Shutdown => Stage::Shutdown,
        _ => Stage::CtrlAltDel,
    }
}

/// The prestart plan: each listed object is spawned through the shell
/// in listing order, and a serial prestart waits for each child before
/// the next spawn.  The flag on each entry says whether to wait.
pub fn prestart_plan(files: &Vec<String>, paral: bool) -> (r: Vec<(String, bool)>)
    ensures
        r@.len() == files@.len(),
        forall|i: int|
            0 <= i < files@.len() ==> (#[trigger] r@[i]).0@ == files@[i]@ && r@[i].1 == !paral,
{
    let mut r: Vec<(String, bool)> = Vec::new();
    let mut i: usize = 0;
    let n = files.len();
    while i < n
        invariant
            i <= n,
            n == files@.len(),
            r@.len() == i,
            forall|k: int| 0 <= k < i ==> (#[trigger] r@[k]).0@ == files@[k]@ && r@[k].1 == !paral,
        decreases n - i,
    {
        r.push((files[i].clone(), !paral));
        i += 1;
    }
    r
}

} // verus!
