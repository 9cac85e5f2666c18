//! The actions an operator can invoke on a target, and the command plan
//! each of them stands for.

use vstd::prelude::*;

use crate::list_box::ListItemProvider;
use crate::project::{Project, TargetEntry};
use crate::runner::{
    banners_of, exit_success, fresh_state, is_exited, is_spawn_failed,
    lemma_nonfinal_failure_stops, lemma_single_exit_single_banner, run_trace, trace_spawns,
    CommandModel, CommandSpec, EventModel,
};

verus! {

/// An action on a target: build it, build and run it, or build and debug
/// it.
#[derive(Clone, Copy, PartialEq, Eq, Structural, Debug)]
pub enum Action {
    Run,
    Build,
    Debug,
}

/// The build step of a plan: the build tool, told to build the target, in
/// the project directory, with nothing forwarded to its input.
pub open spec fn build_command_model(target: Seq<char>) -> CommandModel {
    CommandModel {
        program: "cmake"@,
        args: seq!["--build"@, "build"@, "-t"@, target],
        label: "Build"@,
        interactive: false,
    }
}

/// The run step of a plan: the built binary itself, by its relative path,
/// with no arguments and with the operator's input forwarded to it.
pub open spec fn run_command_model(file_name: Seq<char>) -> CommandModel {
    CommandModel {
        program: "build/"@ + file_name,
        args: Seq::empty(),
        label: "Run"@,
        interactive: true,
    }
}

/// The debug step of a plan: the debugger, handed the built binary's
/// relative path as its sole argument, with input forwarded.
pub open spec fn debug_command_model(file_name: Seq<char>) -> CommandModel {
    CommandModel {
        program: "lldb"@,
        args: seq!["build/"@ + file_name],
        label: "Run"@,
        interactive: true,
    }
}

/// The full plan of an action on a target: Build is its build step alone;
/// Run and Debug are the build step followed by their interactive step.
pub open spec fn plan_models(a: Action, p: TargetEntry) -> Seq<CommandModel> {
    match a {
        Action::Build => seq![build_command_model(p.target)],
        Action::Run => seq![build_command_model(p.target), run_command_model(p.file_name)],
        Action::Debug => seq![build_command_model(p.target), debug_command_model(p.file_name)],
    }
}

/// The name of an action in specifications.
pub open spec fn action_name(a: Action) -> Seq<char> {
    match a {
        Action::Run => "Run"@,
        Action::Build => "Build"@,
        Action::Debug => "Debug"@,
    }
}

impl Action {
    /// The action's name, as shown in its list pane.
    pub fn to_str(&self) -> (r: &'static str)
        ensures
            r@ == action_name(*self),
    {
        match self {
            Action::Run => "Run",
            Action::Build => "Build",
            Action::Debug => "Debug",
        }
    }

    /// The commands this action runs against the given target, in order,
    /// exactly as `plan_models` describes them.
    pub fn plan(&self, project: &Project) -> (r: Vec<CommandSpec>)
        ensures
            r@.map_values(|c: CommandSpec| c@) == plan_models(*self, project@),
            r@.len() >= 1,
    {
        let mut steps: Vec<CommandSpec> = Vec::new();
        steps.push(build_command(&project.target));
        match self {
            Action::Build => {},
            Action::Run => {
                steps.push(run_command(&project.file_name));
            },
            Action::Debug => {
                steps.push(debug_command(&project.file_name));
            },
        }
        proof {
            assert(steps@.map_values(|c: CommandSpec| c@) =~= plan_models(*self, project@));
        }
        steps
    }
}

/// The run step against the given output file name.
fn run_command(file_name: &String) -> (r: CommandSpec)
    ensures
        r@ == run_command_model(file_name@),
{
    let binary = "build/".to_owned().concat(file_name.as_str());
    let r = CommandSpec { program: binary, args: Vec::new(), label: "Run", interactive: true };
    proof {
        assert(r@.args =~= run_command_model(file_name@).args);
        assert(r@ =~= run_command_model(file_name@));
    }
    r
}

/// The debug step against the given output file name.
fn debug_command(file_name: &String) -> (r: CommandSpec)
    ensures
        r@ == debug_command_model(file_name@),
{
    let binary = "build/".to_owned().concat(file_name.as_str());
    let mut args: Vec<String> = Vec::new();
    args.push(binary);
    let r = CommandSpec { program: "lldb".to_owned(), args, label: "Run", interactive: true };
    proof {
        assert(r@.args =~= debug_command_model(file_name@).args);
        assert(r@ =~= debug_command_model(file_name@));
    }
    r
}

/// The build step against the given target identifier.
fn build_command(target: &String) -> (r: CommandSpec)
    ensures
        r@ == build_command_model(target@),
{
    let mut args: Vec<String> = Vec::new();
    args.push("--build".to_owned());
    args.push("build".to_owned());
    args.push("-t".to_owned());
    args.push(target.clone());
    let r = CommandSpec { program: "cmake".to_owned(), args, label: "Build", interactive: false };
    proof {
        assert(r@.args =~= build_command_model(target@).args);
        assert(r@ =~= build_command_model(target@));
    }
    r
}

/// A Build invocation that exits with status zero announces exactly one
/// success banner and no failure banner; one that exits non-zero announces
/// exactly one failure banner and no success banner.
pub proof fn lemma_build_banner(p: TargetEntry, evs: Seq<EventModel>, k: int)
    requires
        0 <= k < evs.len(),
        is_exited(evs[k]),
        forall|j: int| 0 <= j < evs.len() && j != k ==> !is_exited(evs[j]),
        forall|j: int| 0 <= j < evs.len() ==> !is_spawn_failed(evs[j]),
    ensures
        banners_of(run_trace(fresh_state(plan_models(Action::Build, p)), evs)) == seq![
            ("Build"@, exit_success(evs[k])),
        ],
{
    let s = fresh_state(plan_models(Action::Build, p));
    assert(s.labels =~= seq!["Build"@]);
    lemma_single_exit_single_banner(s, evs, k);
}

/// A Run invocation whose build step fails announces only the build
/// failure — no success banner, no second banner — and never spawns the
/// target binary, whatever events still arrive.
pub proof fn lemma_run_build_failure(p: TargetEntry, evs: Seq<EventModel>, k: int)
    requires
        0 <= k < evs.len(),
        evs[k] == (EventModel::Exited { success: false }),
        forall|j: int| 0 <= j < k ==> !is_exited(evs[j]) && !is_spawn_failed(evs[j]),
    ensures
        banners_of(run_trace(fresh_state(plan_models(Action::Run, p)), evs)) == seq![
            ("Build"@, false),
        ],
        trace_spawns(fresh_state(plan_models(Action::Run, p)), evs) == Seq::<int>::empty(),
{
    let s = fresh_state(plan_models(Action::Run, p));
    assert(s.labels =~= seq!["Build"@, "Run"@]);
    lemma_nonfinal_failure_stops(s, evs, k);
}

impl ListItemProvider for Action {
    open spec fn label_spec(&self) -> Seq<char> {
        action_name(*self)
    }

    fn as_str(&self) -> (r: &str) {
        self.to_str()
    }
}

} // verus!
