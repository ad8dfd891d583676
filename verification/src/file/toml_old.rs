//! The layout of the history file before commands had a runner: `[[history]]` tables with a path
//! and the `executed-targets` of make.
use super::toml as current;
use crate::model::make::string_views;
use crate::model::runner_type::RunnerType;
use vstd::prelude::*;

verus! {

/// The whole history file in the earlier layout.
#[derive(Debug, PartialEq)]
pub struct Histories {
    pub history: Vec<History>,
}

/// The make targets executed in one directory.
#[derive(Debug, PartialEq)]
pub struct History {
    pub path: String,
    pub executed_targets: Vec<String>,
}

/// The histories in the current layout: each target becomes a make command.
pub open spec fn converted(h: Seq<History>) -> Seq<crate::model::histories::HistoryView> {
    Seq::new(
        h.len(),
        |i: int|
            crate::model::histories::HistoryView {
                path: h[i].path@,
                commands: Seq::new(
                    h[i].executed_targets@.len(),
                    |j: int|
                        crate::model::histories::HistoryCommandView {
                            runner_type: RunnerType::Make,
                            args: h[i].executed_targets@[j]@,
                        },
                ),
            },
    )
}

impl Histories {
    /// The histories in the current layout; every target was run with make.
    pub fn into_histories(self) -> (r: current::Histories)
        ensures
            r@ == converted(self.history@),
    {
        let ghost cv = converted(self.history@);
        let mut result: Vec<current::History> = Vec::new();
        let mut i: usize = 0;
        while i < self.history.len()
            invariant
                cv == converted(self.history@),
                i <= cv.len(),
                current::file_history_views(result@) == cv.take(i as int),
            decreases cv.len() - i,
        {
            let h = &self.history[i];
            let mut commands: Vec<current::HistoryCommand> = Vec::new();
            let mut j: usize = 0;
            while j < h.executed_targets.len()
                invariant
                    j <= h.executed_targets@.len(),
                    current::file_command_views(commands@) == cv[i as int].commands.take(j as int),
                    cv == converted(self.history@),
                    h == self.history@[i as int],
                    i < cv.len(),
                decreases h.executed_targets@.len() - j,
            {
                let ghost prev = current::file_command_views(commands@);
                let e = current::HistoryCommand::new(RunnerType::Make, h.executed_targets[j].clone());
                commands.push(e);
                assert(current::file_command_views(commands@) =~= prev.push(e@));
                assert(cv[i as int].commands.take(j + 1) =~= cv[i as int].commands.take(j as int).push(e@));
                j += 1;
            }
            assert(cv[i as int].commands.take(j as int) =~= cv[i as int].commands);
            let e = current::History::new(h.path.clone(), commands);
            let ghost prev = current::file_history_views(result@);
            result.push(e);
            assert(current::file_history_views(result@) =~= prev.push(e@));
            assert(cv.take(i + 1) =~= cv.take(i as int).push(cv[i as int]));
            i += 1;
        }
        assert(cv.take(cv.len() as int) =~= cv);
        current::Histories::new(result)
    }
}

} // verus!
