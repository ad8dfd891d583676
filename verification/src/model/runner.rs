//! The task runners found in a directory: make, a JavaScript package manager, just and task.
use super::command::{command_line, command_views, CommandForExec, CommandWithPreview, CommandWithPreviewView};
use super::js_package_manager::{pm_runner_type, JsRunner};
use super::just::Just;
use super::make::{make_commands, Make};
use super::runner_type::{runner_name, RunnerType};
use super::task::Task;
use vstd::prelude::*;

verus! {

/// A task runner with the commands it defines.
#[derive(Debug, PartialEq)]
pub enum Runner {
    MakeCommand(Make),
    JsPackageManager(JsRunner),
    Just(Just),
    Task(Task),
}

/// The runner type of a runner.
pub open spec fn type_of_runner(r: Runner) -> RunnerType {
    match r {
        Runner::MakeCommand(_) => RunnerType::Make,
        Runner::JsPackageManager(js) => pm_runner_type(js.pm),
        Runner::Just(_) => RunnerType::Just,
        Runner::Task(_) => RunnerType::Task,
    }
}

/// The commands that a runner lists.
pub open spec fn runner_commands(r: Runner) -> Seq<CommandWithPreviewView> {
    match r {
        Runner::MakeCommand(m) => make_commands(m),
        Runner::JsPackageManager(js) => command_views(js.commands@),
        Runner::Just(j) => super::just::all_just_commands(j),
        Runner::Task(t) => command_views(t.commands@),
    }
}

/// The commands of a sequence of runners, one runner after the other.
pub open spec fn all_commands(rs: Seq<Runner>) -> Seq<CommandWithPreviewView>
    decreases rs.len(),
{
    if rs.len() == 0 {
        seq![]
    } else {
        all_commands(rs.drop_last()) + runner_commands(rs.last())
    }
}

/// The path of the file, or directory, that defines a runner's commands.
pub open spec fn runner_path(r: Runner) -> Seq<char> {
    match r {
        Runner::MakeCommand(m) => m.path@,
        Runner::JsPackageManager(js) => js.path@,
        Runner::Just(j) => j.path@,
        Runner::Task(t) => t.path@,
    }
}

impl Runner {
    pub fn runner_type(&self) -> (r: RunnerType)
        ensures
            r == type_of_runner(*self),
    {
        match self {
            Runner::MakeCommand(_) => RunnerType::Make,
            Runner::JsPackageManager(js) => js.runner_type(),
            Runner::Just(_) => RunnerType::Just,
            Runner::Task(_) => RunnerType::Task,
        }
    }

    /// The name of the executable that runs the commands.
    pub fn program(&self) -> (r: String)
        ensures
            r@ == runner_name(type_of_runner(*self)),
    {
        self.runner_type().to_string()
    }

    /// The path of the file, or directory, that defines the commands.
    pub fn path(&self) -> (r: String)
        ensures
            r@ == runner_path(*self),
    {
        match self {
            Runner::MakeCommand(m) => m.path.clone(),
            Runner::JsPackageManager(js) => js.path(),
            Runner::Just(j) => j.path(),
            Runner::Task(t) => t.path(),
        }
    }

    /// The commands the runner defines.
    pub fn list_commands(&self) -> (r: Vec<CommandWithPreview>)
        ensures
            command_views(r@) == runner_commands(*self),
    {
        match self {
            Runner::MakeCommand(m) => m.to_commands(),
            Runner::JsPackageManager(js) => js.to_commands(),
            Runner::Just(j) => j.to_commands(),
            Runner::Task(t) => t.to_commands(),
        }
    }

    /// `{program} {args}`: the command line that runs `command`.
    pub fn command_to_run(&self, command: &CommandForExec) -> (r: String)
        ensures
            r@ == command_line(type_of_runner(*self), command.args@),
    {
        crate::model::command::format_command(self.runner_type(), &command.args)
    }
}

} // verus!
