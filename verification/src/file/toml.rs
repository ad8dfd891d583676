//! The layout of the history file: `[[histories]]` tables with a path and `[[histories.commands]]`
//! entries holding a `runner-type` and a `name`. Reading and writing the file happens outside this
//! module; here are the values and how they map to [`crate::model::histories`].
use crate::model::histories as model;
use crate::model::histories::{history_command_views, HistoryCommandView, HistoryView};
use crate::model::runner_type::RunnerType;
use vstd::prelude::*;

verus! {

/// The whole history file.
#[derive(Debug, PartialEq)]
pub struct Histories {
    pub histories: Vec<History>,
}

/// The commands executed in one directory, as the file stores them.
#[derive(Debug, PartialEq)]
pub struct History {
    pub path: String,
    pub commands: Vec<HistoryCommand>,
}

/// A command as the file stores it.
#[derive(Debug, PartialEq)]
pub struct HistoryCommand {
    pub runner_type: RunnerType,
    pub name: String,
}

impl View for HistoryCommand {
    type V = HistoryCommandView;

    open spec fn view(&self) -> HistoryCommandView {
        HistoryCommandView { runner_type: self.runner_type, args: self.name@ }
    }
}

pub open spec fn file_command_views(s: Seq<HistoryCommand>) -> Seq<HistoryCommandView> {
    Seq::new(s.len(), |i: int| s[i]@)
}

impl View for History {
    type V = HistoryView;

    open spec fn view(&self) -> HistoryView {
        HistoryView { path: self.path@, commands: file_command_views(self.commands@) }
    }
}

pub open spec fn file_history_views(s: Seq<History>) -> Seq<HistoryView> {
    Seq::new(s.len(), |i: int| s[i]@)
}

impl View for Histories {
    type V = Seq<HistoryView>;

    open spec fn view(&self) -> Seq<HistoryView> {
        file_history_views(self.histories@)
    }
}

impl HistoryCommand {
    pub fn new(runner_type: RunnerType, name: String) -> (r: Self)
        ensures
            r.runner_type == runner_type,
            r.name == name,
    {
        Self { runner_type, name }
    }

    /// The file's form of a command of the history.
    pub fn from(command: model::HistoryCommand) -> (r: Self)
        ensures
            r@ == command@,
    {
        Self { runner_type: command.runner_type, name: command.args }
    }

    /// The command of the history that the file's entry stands for.
    pub fn into(self) -> (r: model::HistoryCommand)
        ensures
            r@ == self@,
    {
        model::HistoryCommand { runner_type: self.runner_type, args: self.name }
    }
}

impl History {
    pub fn new(path: String, commands: Vec<HistoryCommand>) -> (r: Self)
        ensures
            r.path == path,
            r.commands == commands,
    {
        Self { path, commands }
    }

    /// The file's form of the history of a directory.
    pub fn from(history: model::History) -> (r: Self)
        ensures
            r@ == history@,
    {
        let ghost cv = history_command_views(history.commands@);
        let mut result: Vec<HistoryCommand> = Vec::new();
        let mut i: usize = 0;
        while i < history.commands.len()
            invariant
                cv == history_command_views(history.commands@),
                i <= cv.len(),
                file_command_views(result@) == cv.take(i as int),
            decreases cv.len() - i,
        {
            let c = &history.commands[i];
            let ghost prev = file_command_views(result@);
            let e = HistoryCommand { runner_type: c.runner_type, name: c.args.clone() };
            result.push(e);
            assert(file_command_views(result@) =~= prev.push(e@));
            assert(cv.take(i + 1) =~= cv.take(i as int).push(cv[i as int]));
            assert(file_command_views(result@) =~= cv.take(i + 1));
            i += 1;
        }
        assert(cv.take(cv.len() as int) =~= cv);
        History { path: history.path, commands: result }
    }

    /// The history of a directory that the file's table stands for.
    pub fn into(self) -> (r: model::History)
        ensures
            r@ == self@,
    {
        let ghost cv = file_command_views(self.commands@);
        let mut result: Vec<model::HistoryCommand> = Vec::new();
        let mut i: usize = 0;
        while i < self.commands.len()
            invariant
                cv == file_command_views(self.commands@),
                i <= cv.len(),
                history_command_views(result@) == cv.take(i as int),
            decreases cv.len() - i,
        {
            let c = &self.commands[i];
            let ghost prev = history_command_views(result@);
            let e = model::HistoryCommand { runner_type: c.runner_type, args: c.name.clone() };
            result.push(e);
            assert(history_command_views(result@) =~= prev.push(e@));
            assert(cv.take(i + 1) =~= cv.take(i as int).push(cv[i as int]));
            i += 1;
        }
        assert(cv.take(cv.len() as int) =~= cv);
        model::History { path: self.path, commands: result }
    }
}

impl Histories {
    pub fn new(histories: Vec<History>) -> (r: Self)
        ensures
            r.histories == histories,
    {
        Self { histories }
    }

    /// The file's form of the histories.
    pub fn from(histories: model::Histories) -> (r: Self)
        ensures
            r@ == histories@,
    {
        let ghost hv = histories@;
        let model::Histories { histories: list } = histories;
        let mut result: Vec<History> = Vec::new();
        let mut i: usize = 0;
        while i < list.len()
            invariant
                hv == model::history_views(list@),
                i <= hv.len(),
                file_history_views(result@) == hv.take(i as int),
            decreases hv.len() - i,
        {
            let h = list[i].duplicate();
            let converted = History::from(h);
            let ghost prev = file_history_views(result@);
            result.push(converted);
            assert(file_history_views(result@) =~= prev.push(converted@));
            assert(hv.take(i + 1) =~= hv.take(i as int).push(hv[i as int]));
            i += 1;
        }
        assert(hv.take(hv.len() as int) =~= hv);
        Histories { histories: result }
    }

    /// The histories that the file stands for.
    pub fn into(self) -> (r: model::Histories)
        ensures
            r@ == self@,
    {
        let ghost hv = self@;
        let Histories { histories: list } = self;
        let mut result: Vec<model::History> = Vec::new();
        let mut i: usize = 0;
        while i < list.len()
            invariant
                hv == file_history_views(list@),
                i <= hv.len(),
                model::history_views(result@) == hv.take(i as int),
            decreases hv.len() - i,
        {
            let h = &list[i];
            let ghost hview = h@;
            let mut commands: Vec<HistoryCommand> = Vec::new();
            let mut j: usize = 0;
            while j < h.commands.len()
                invariant
                    j <= h.commands@.len(),
                    file_command_views(commands@) == file_command_views(h.commands@).take(j as int),
                decreases h.commands@.len() - j,
            {
                let c = &h.commands[j];
                let ghost prev = file_command_views(commands@);
                let e = HistoryCommand { runner_type: c.runner_type, name: c.name.clone() };
                commands.push(e);
                assert(file_command_views(commands@) =~= prev.push(e@));
                assert(file_command_views(h.commands@).take(j + 1) =~= file_command_views(h.commands@).take(j as int).push(c@));
                j += 1;
            }
            assert(file_command_views(h.commands@).take(j as int) =~= file_command_views(h.commands@));
            let copy = History { path: h.path.clone(), commands };
            let converted = copy.into();
            let ghost prev = model::history_views(result@);
            result.push(converted);
            assert(model::history_views(result@) =~= prev.push(converted@));
            assert(hv.take(i + 1) =~= hv.take(i as int).push(hv[i as int]));
            i += 1;
        }
        assert(hv.take(hv.len() as int) =~= hv);
        model::Histories { histories: result }
    }

    /// The histories read from the file: in the current layout when `current` is `Some`, that
    /// is when the file parsed in it; otherwise in the layout used before, or none at all.
    pub fn parse_history_in_considering_history_file_format_version(
        current: Option<Histories>,
        previous: Option<Histories>,
    ) -> (r: Histories)
        ensures
            match current {
                Some(h) => r == h,
                None => match previous {
                    Some(h) => r == h,
                    None => r.histories@.len() == 0,
                },
            },
    {
        match current {
            Some(h) => h,
            None => match previous {
                Some(h) => h,
                None => Histories { histories: Vec::new() },
            },
        }
    }
}

/// The name of the history file.
pub open spec fn history_file_name() -> Seq<char> {
    seq!['h', 'i', 's', 't', 'o', 'r', 'y', '.', 't', 'o', 'm', 'l']
}

/// Where the history file is: `test_dir` in the current directory while testing, otherwise
/// `.config/fzf-make` in the home directory; no place when the home directory is unknown.
pub open spec fn history_file_place(is_testing: bool, current_dir: Seq<char>, home_dir: Option<Seq<char>>) -> Option<(Seq<char>, Seq<char>)> {
    if is_testing {
        Some((crate::text::join_path(current_dir, seq!['t', 'e', 's', 't', '_', 'd', 'i', 'r']), history_file_name()))
    } else {
        match home_dir {
            Some(home) => Some((
                crate::text::join_path(home, seq!['.', 'c', 'o', 'n', 'f', 'i', 'g', '/', 'f', 'z', 'f', '-', 'm', 'a', 'k', 'e']),
                history_file_name(),
            )),
            None => None,
        }
    }
}

/// The directory and the name of the history file. `is_testing` tells whether
/// `FZF_MAKE_IS_TESTING` is set, `current_dir` is the current directory and `home_dir` the
/// home directory, if it is known.
pub fn history_file_path(is_testing: bool, current_dir: String, home_dir: Option<String>) -> (r: Option<(String, String)>)
    ensures
        match r {
            Some((dir, name)) => history_file_place(is_testing, current_dir@, crate::model::just::opt_view(home_dir)) == Some((dir@, name@)),
            None => history_file_place(is_testing, current_dir@, crate::model::just::opt_view(home_dir)) is None,
        },
{
    let name = crate::text::string_of(&['h', 'i', 's', 't', 'o', 'r', 'y', '.', 't', 'o', 'm', 'l']);
    if is_testing {
        let sub = crate::text::string_of(&['t', 'e', 's', 't', '_', 'd', 'i', 'r']);
        Some((crate::text::join(current_dir.as_str(), sub.as_str()), name))
    } else {
        match home_dir {
            Some(home) => {
                let sub = crate::text::string_of(
                    &['.', 'c', 'o', 'n', 'f', 'i', 'g', '/', 'f', 'z', 'f', '-', 'm', 'a', 'k', 'e'],
                );
                Some((crate::text::join(home.as_str(), sub.as_str()), name))
            },
            None => None,
        }
    }
}

} // verus!
