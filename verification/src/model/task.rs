//! go-task, whose commands are the tasks of a Taskfile, as `task --list-all --json` lists them.
use super::command::{command_line, command_views, CommandForExec, CommandWithPreview, CommandWithPreviewView};
use super::runner_type::RunnerType;
use vstd::prelude::*;

verus! {

/// A task as `task --list-all --json` lists it: its name, and the Taskfile and the line that
/// define it.
#[derive(Debug, PartialEq)]
pub struct TaskEntry {
    pub name: String,
    pub taskfile: String,
    pub line: u32,
}

/// What `task --list-all --json` lists: every task of the Taskfile found from a directory.
#[derive(Debug, PartialEq)]
pub struct TaskListing {
    pub tasks: Vec<TaskEntry>,
}

/// The commands for the listed tasks, in the order of the listing: `task {name}`, pointing at
/// the line of the Taskfile that defines the task.
pub open spec fn task_commands(tasks: Seq<TaskEntry>) -> Seq<CommandWithPreviewView> {
    Seq::new(
        tasks.len(),
        |i: int|
            CommandWithPreviewView {
                runner_type: RunnerType::Task,
                args: tasks[i].name@,
                file_path: tasks[i].taskfile@,
                line_number: tasks[i].line,
            },
    )
}

/// Task represents the Taskfile runner in a directory.
#[derive(Debug, PartialEq)]
pub struct Task {
    pub path: String,
    pub commands: Vec<CommandWithPreview>,
}

impl Task {
    /// The task runner for `target_dir`, from what `task --list-all --json` listed there:
    /// `listing` is `None` when task could not list the tasks (no Taskfile, or no `task`
    /// program). An error when there is no listing or it holds no task.
    pub fn new(target_dir: String, listing: Option<TaskListing>) -> (r: Result<Task, String>)
        ensures
            match listing {
                None => r matches Err(e) && e@ == "failed to list tasks"@,
                Some(l) => if l.tasks@.len() == 0 {
                    r matches Err(e) && e@ == "no task found"@
                } else {
                    r matches Ok(t) && t.path@ == target_dir@ && command_views(t.commands@)
                        == task_commands(l.tasks@)
                },
            },
    {
        let listing = match listing {
            Some(l) => l,
            None => return Err("failed to list tasks".to_string()),
        };
        if listing.tasks.len() == 0 {
            return Err("no task found".to_string());
        }
        let mut commands: Vec<CommandWithPreview> = Vec::new();
        let mut i: usize = 0;
        while i < listing.tasks.len()
            invariant
                i <= listing.tasks@.len(),
                command_views(commands@) == task_commands(listing.tasks@).take(i as int),
            decreases listing.tasks@.len() - i,
        {
            let entry = &listing.tasks[i];
            let c = CommandWithPreview::new(RunnerType::Task, entry.name.clone(), entry.taskfile.clone(), entry.line);
            let ghost prev = command_views(commands@);
            commands.push(c);
            assert(command_views(commands@) =~= prev.push(c@));
            assert(task_commands(listing.tasks@).take(i + 1) =~= task_commands(listing.tasks@).take(
                i as int,
            ).push(task_commands(listing.tasks@)[i as int]));
            i += 1;
        }
        assert(task_commands(listing.tasks@).take(i as int) =~= task_commands(listing.tasks@));
        Ok(Task { path: target_dir, commands })
    }

    /// The commands.
    pub fn to_commands(&self) -> (r: Vec<CommandWithPreview>)
        ensures
            command_views(r@) == command_views(self.commands@),
    {
        crate::model::command::duplicate_commands(&self.commands)
    }

    /// The directory of the Taskfile.
    pub fn path(&self) -> (r: String)
        ensures
            r@ == self.path@,
    {
        self.path.clone()
    }

    /// `task {args}`.
    pub fn command_to_run(&self, command: &CommandForExec) -> (r: String)
        ensures
            r@ == command_line(RunnerType::Task, command.args@),
    {
        crate::model::command::format_command(RunnerType::Task, &command.args)
    }
}

} // verus!
