//! A command that a task runner defines.
use super::histories::{HistoryCommand, HistoryCommandView};
use super::runner_type::{runner_name, RunnerType};
use crate::text::string_of;
use vstd::prelude::*;

verus! {

/// A command listed in the main pane, with the place that defines it for the preview.
#[derive(PartialEq, Clone, Debug)]
pub struct CommandWithPreview {
    pub runner_type: RunnerType,
    pub args: String,
    pub file_path: String,
    pub line_number: u32,
}

/// The value of a [`CommandWithPreview`].
pub struct CommandWithPreviewView {
    pub runner_type: RunnerType,
    pub args: Seq<char>,
    pub file_path: Seq<char>,
    pub line_number: u32,
}

impl View for CommandWithPreview {
    type V = CommandWithPreviewView;

    open spec fn view(&self) -> CommandWithPreviewView {
        CommandWithPreviewView {
            runner_type: self.runner_type,
            args: self.args@,
            file_path: self.file_path@,
            line_number: self.line_number,
        }
    }
}

/// The values of a sequence of commands.
pub open spec fn command_views(s: Seq<CommandWithPreview>) -> Seq<CommandWithPreviewView> {
    Seq::new(s.len(), |i: int| s[i]@)
}

/// `{runner} {args}`: how a command is shown and executed.
pub open spec fn command_line(runner_type: RunnerType, args: Seq<char>) -> Seq<char> {
    runner_name(runner_type) + seq![' '] + args
}

/// `{runner} {args}` as a string.
pub fn format_command(runner_type: RunnerType, args: &String) -> (r: String)
    ensures
        r@ == command_line(runner_type, args@),
{
    let mut s = runner_type.to_string();
    s.append(" ");
    s.append(args.as_str());
    proof {
        reveal_strlit(" ");
    }
    s
}

impl CommandWithPreview {
    pub fn new(runner_type: RunnerType, args: String, file_path: String, line_number: u32) -> (r:
        Self)
        ensures
            r@ == (CommandWithPreviewView {
                runner_type,
                args: args@,
                file_path: file_path@,
                line_number,
            }),
    {
        Self { runner_type, args, file_path, line_number }
    }

    /// A copy with the same value.
    pub fn duplicate(&self) -> (r: Self)
        ensures
            r@ == self@,
    {
        Self {
            runner_type: self.runner_type,
            args: self.args.clone(),
            file_path: self.file_path.clone(),
            line_number: self.line_number,
        }
    }

    /// `{runner} {args}`, as `Display` writes it.
    pub fn to_string(&self) -> (r: String)
        ensures
            r@ == command_line(self.runner_type, self.args@),
    {
        format_command(self.runner_type, &self.args)
    }
}

/// Copies every command of `v`.
pub fn duplicate_commands(v: &Vec<CommandWithPreview>) -> (r: Vec<CommandWithPreview>)
    ensures
        command_views(r@) == command_views(v@),
{
    let mut r: Vec<CommandWithPreview> = Vec::new();
    let mut i: usize = 0;
    while i < v.len()
        invariant
            i <= v@.len(),
            command_views(r@) == command_views(v@.take(i as int)),
        decreases v@.len() - i,
    {
        let ghost prev = r@;
        let c = v[i].duplicate();
        r.push(c);
        assert(command_views(r@) =~= command_views(prev).push(v@[i as int]@));
        assert(command_views(v@.take(i + 1)) =~= command_views(v@.take(i as int)).push(
            v@[i as int]@,
        ));
        i += 1;
    }
    assert(v@.take(v@.len() as int) =~= v@);
    r
}

/// A command to execute: what the history stores of a command.
#[derive(PartialEq, Clone, Debug)]
pub struct CommandForExec {
    pub runner_type: RunnerType,
    pub args: String,
}

/// The value of a [`CommandForExec`]; it is the same as that of a history entry.
pub type CommandForExecView = HistoryCommandView;

impl View for CommandForExec {
    type V = HistoryCommandView;

    open spec fn view(&self) -> HistoryCommandView {
        HistoryCommandView { runner_type: self.runner_type, args: self.args@ }
    }
}

impl CommandForExec {
    /// A copy with the same value.
    pub fn duplicate(&self) -> (r: Self)
        ensures
            r@ == self@,
    {
        Self { runner_type: self.runner_type, args: self.args.clone() }
    }

    /// `{runner} {args}`, as `Display` writes it.
    pub fn to_string(&self) -> (r: String)
        ensures
            r@ == command_line(self.runner_type, self.args@),
    {
        format_command(self.runner_type, &self.args)
    }
}

impl vstd::std_specs::convert::FromSpecImpl<CommandWithPreview> for CommandForExec {
    open spec fn obeys_from_spec() -> bool {
        true
    }

    open spec fn from_spec(c: CommandWithPreview) -> CommandForExec {
        CommandForExec { runner_type: c.runner_type, args: c.args }
    }
}

impl From<CommandWithPreview> for CommandForExec {
    fn from(c: CommandWithPreview) -> (r: CommandForExec) {
        CommandForExec { runner_type: c.runner_type, args: c.args }
    }
}

impl vstd::std_specs::convert::FromSpecImpl<HistoryCommand> for CommandForExec {
    open spec fn obeys_from_spec() -> bool {
        true
    }

    open spec fn from_spec(c: HistoryCommand) -> CommandForExec {
        CommandForExec { runner_type: c.runner_type, args: c.args }
    }
}

impl From<HistoryCommand> for CommandForExec {
    fn from(c: HistoryCommand) -> (r: CommandForExec) {
        CommandForExec { runner_type: c.runner_type, args: c.args }
    }
}

} // verus!
