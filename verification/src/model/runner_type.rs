//! The kinds of task runner whose commands can be listed and executed.
use vstd::prelude::*;

verus! {

/// A task runner.
#[derive(PartialEq, Eq, Structural, Clone, Copy, Debug, Hash)]
pub enum RunnerType {
    Make,
    JsPackageManager(JsPackageManager),
    Just,
    Task,
}

/// A JavaScript package manager that runs the `scripts` of `package.json`.
#[derive(PartialEq, Eq, Structural, Clone, Copy, Debug, Hash)]
pub enum JsPackageManager {
    Npm,
    Pnpm,
    Yarn,
}

/// The name under which a runner is invoked and stored in the history file.
pub open spec fn runner_name(r: RunnerType) -> Seq<char> {
    match r {
        RunnerType::Make => seq!['m', 'a', 'k', 'e'],
        RunnerType::JsPackageManager(JsPackageManager::Npm) => seq!['n', 'p', 'm'],
        RunnerType::JsPackageManager(JsPackageManager::Pnpm) => seq!['p', 'n', 'p', 'm'],
        RunnerType::JsPackageManager(JsPackageManager::Yarn) => seq!['y', 'a', 'r', 'n'],
        RunnerType::Just => seq!['j', 'u', 's', 't'],
        RunnerType::Task => seq!['t', 'a', 's', 'k'],
    }
}

/// The file extension whose syntax is used to highlight the file defining a command.
pub open spec fn highlighting_extension(r: RunnerType) -> Seq<char> {
    match r {
        RunnerType::Make => seq!['m', 'k'],
        // A justfile highlighted as `just` is shown as plain text, so the similar yaml is used.
        RunnerType::Just => seq!['y', 'a', 'm', 'l'],
        RunnerType::JsPackageManager(_) => seq!['j', 's', 'o', 'n'],
        RunnerType::Task => seq!['y', 'a', 'm', 'l'],
    }
}

impl RunnerType {
    /// The extension passed to the syntax highlighter for the file that defines the commands.
    pub fn get_extension_for_highlighting(&self) -> (r: &'static str)
        ensures
            r@ == highlighting_extension(*self),
    {
        proof {
            reveal_strlit("mk");
            reveal_strlit("yaml");
            reveal_strlit("json");
        }
        match self {
            RunnerType::Make => "mk",
            RunnerType::Just => "yaml",
            RunnerType::JsPackageManager(_) => "json",
            RunnerType::Task => "yaml",
        }
    }

    /// The runner's name, as `Display` writes it: `make`, `npm`, `pnpm`, `yarn`, `just`, `task`.
    pub fn to_string(&self) -> (r: String)
        ensures
            r@ == runner_name(*self),
    {
        let name: &str = match self {
            RunnerType::Make => "make",
            RunnerType::JsPackageManager(JsPackageManager::Npm) => "npm",
            RunnerType::JsPackageManager(JsPackageManager::Pnpm) => "pnpm",
            RunnerType::JsPackageManager(JsPackageManager::Yarn) => "yarn",
            RunnerType::Just => "just",
            RunnerType::Task => "task",
        };
        proof {
            reveal_strlit("make");
            reveal_strlit("npm");
            reveal_strlit("pnpm");
            reveal_strlit("yarn");
            reveal_strlit("just");
            reveal_strlit("task");
        }
        name.to_owned()
    }
}

/// The runner that a name of the history file stands for: the inverse of [`runner_name`].
pub open spec fn runner_named(name: Seq<char>) -> Option<RunnerType> {
    if name == seq!['m', 'a', 'k', 'e'] {
        Some(RunnerType::Make)
    } else if name == seq!['n', 'p', 'm'] {
        Some(RunnerType::JsPackageManager(JsPackageManager::Npm))
    } else if name == seq!['p', 'n', 'p', 'm'] {
        Some(RunnerType::JsPackageManager(JsPackageManager::Pnpm))
    } else if name == seq!['y', 'a', 'r', 'n'] {
        Some(RunnerType::JsPackageManager(JsPackageManager::Yarn))
    } else if name == seq!['j', 'u', 's', 't'] {
        Some(RunnerType::Just)
    } else if name == seq!['t', 'a', 's', 'k'] {
        Some(RunnerType::Task)
    } else {
        None
    }
}

impl RunnerType {
    /// The runner that `name` stands for in the history file, if any.
    pub fn from_name(name: &str) -> (r: Option<RunnerType>)
        ensures
            r == runner_named(name@),
    {
        let chars = crate::text::to_chars(name);
        let n = chars.as_slice();
        if crate::text::chars_equal(n, &['m', 'a', 'k', 'e']) {
            Some(RunnerType::Make)
        } else if crate::text::chars_equal(n, &['n', 'p', 'm']) {
            Some(RunnerType::JsPackageManager(JsPackageManager::Npm))
        } else if crate::text::chars_equal(n, &['p', 'n', 'p', 'm']) {
            Some(RunnerType::JsPackageManager(JsPackageManager::Pnpm))
        } else if crate::text::chars_equal(n, &['y', 'a', 'r', 'n']) {
            Some(RunnerType::JsPackageManager(JsPackageManager::Yarn))
        } else if crate::text::chars_equal(n, &['j', 'u', 's', 't']) {
            Some(RunnerType::Just)
        } else if crate::text::chars_equal(n, &['t', 'a', 's', 'k']) {
            Some(RunnerType::Task)
        } else {
            None
        }
    }
}

/// Reading back the name under which a runner is stored gives the runner.
pub proof fn law_runner_name_round_trip(r: RunnerType)
    ensures
        runner_named(runner_name(r)) == Some(r),
{
    match r {
        RunnerType::JsPackageManager(JsPackageManager::Pnpm) => {
            assert(seq!['p', 'n', 'p', 'm'] != seq!['m', 'a', 'k', 'e']);
            assert(seq!['p', 'n', 'p', 'm'][0] != seq!['n', 'p', 'm'][0]);
        },
        RunnerType::JsPackageManager(JsPackageManager::Npm) => {
            assert(seq!['n', 'p', 'm'].len() != seq!['m', 'a', 'k', 'e'].len());
        },
        RunnerType::JsPackageManager(JsPackageManager::Yarn) => {
            assert(seq!['y', 'a', 'r', 'n'][0] != seq!['m', 'a', 'k', 'e'][0]);
            assert(seq!['y', 'a', 'r', 'n'][0] != seq!['p', 'n', 'p', 'm'][0]);
            assert(seq!['y', 'a', 'r', 'n'].len() != seq!['n', 'p', 'm'].len());
        },
        RunnerType::Just => {
            assert(seq!['j', 'u', 's', 't'][0] != seq!['m', 'a', 'k', 'e'][0]);
            assert(seq!['j', 'u', 's', 't'][0] != seq!['p', 'n', 'p', 'm'][0]);
            assert(seq!['j', 'u', 's', 't'][0] != seq!['y', 'a', 'r', 'n'][0]);
            assert(seq!['j', 'u', 's', 't'].len() != seq!['n', 'p', 'm'].len());
        },
        RunnerType::Task => {
            assert(seq!['t', 'a', 's', 'k'][0] != seq!['m', 'a', 'k', 'e'][0]);
            assert(seq!['t', 'a', 's', 'k'][0] != seq!['p', 'n', 'p', 'm'][0]);
            assert(seq!['t', 'a', 's', 'k'][0] != seq!['y', 'a', 'r', 'n'][0]);
            assert(seq!['t', 'a', 's', 'k'][0] != seq!['j', 'u', 's', 't'][0]);
            assert(seq!['t', 'a', 's', 'k'].len() != seq!['n', 'p', 'm'].len());
        },
        RunnerType::Make => {},
    }
}

} // verus!
