//! The subcommands of fzf-make and how the command line picks one.
use crate::model::command::CommandForExec;
use crate::model::histories::HistoryCommandView;
use crate::model::make::string_views;
use crate::model::runner::{type_of_runner, Runner};
use crate::usecase::tui::app::{runner_index, SelectCommandState};
use vstd::prelude::*;

verus! {

/// The help message.
pub open spec fn help_text() -> Seq<char> {
    "A command line tool that executes commands using fuzzy finder with preview window. Currently supporting make, pnpm, yarn, just, and task.\n\nUSAGE:\n    Run `fzf-make` in the directory where you want to execute make, pnpm, yarn, just, or task command exists or `fzf-make [SUBCOMMAND]`.\n\nSUBCOMMANDS:\n    repeat, --repeat, -r\n        Execute the last executed command.\n    history, --history, -h\n        Launch fzf-make with the history pane focused.\n    help, --help\n        Prints help message.\n    version, --version, -v\n        Prints version information.\n    "@
}

/// The help message that `fzf-make help` prints.
pub fn get_help() -> (r: String)
    ensures
        r@ == help_text(),
{
    String::from_str("A command line tool that executes commands using fuzzy finder with preview window. Currently supporting make, pnpm, yarn, just, and task.\n\nUSAGE:\n    Run `fzf-make` in the directory where you want to execute make, pnpm, yarn, just, or task command exists or `fzf-make [SUBCOMMAND]`.\n\nSUBCOMMANDS:\n    repeat, --repeat, -r\n        Execute the last executed command.\n    history, --history, -h\n        Launch fzf-make with the history pane focused.\n    help, --help\n        Prints help message.\n    version, --version, -v\n        Prints version information.\n    ")
}

/// What fzf-make does for a command line.
#[derive(PartialEq, Eq, Structural, Clone, Copy, Debug)]
pub enum Usecase {
    /// Select a command and execute it.
    FzfMake,
    /// Print the help message.
    Help,
    /// Print that the arguments are invalid, and the help message.
    InvalidArg,
    /// Print the version.
    Version,
    /// Execute the last command executed in the directory.
    Repeat,
    /// Select a command with the history pane focused.
    History,
}

/// The subcommand that a word names, if any.
pub open spec fn usecase_named(word: Seq<char>) -> Option<Usecase> {
    if word == "--help"@ || word == "help"@ {
        Some(Usecase::Help)
    } else if word == "--version"@ || word == "-v"@ || word == "version"@ {
        Some(Usecase::Version)
    } else if word == "--repeat"@ || word == "-r"@ || word == "repeat"@ {
        Some(Usecase::Repeat)
    } else if word == "--history"@ || word == "-h"@ || word == "history"@ {
        Some(Usecase::History)
    } else {
        None
    }
}

/// The words that name a usecase on the command line.
pub open spec fn command_words(u: Usecase) -> Seq<Seq<char>> {
    match u {
        Usecase::Help => seq!["--help"@, "help"@],
        Usecase::Version => seq!["--version"@, "-v"@, "version"@],
        Usecase::Repeat => seq!["--repeat"@, "-r"@, "repeat"@],
        Usecase::History => seq!["--history"@, "-h"@, "history"@],
        _ => seq![],
    }
}

/// The usecase for the command line `args`, the program name first: the selection without an
/// argument, the subcommand named by a single argument, and the invalid-argument message
/// otherwise.
pub open spec fn usecase_for(args: Seq<Seq<char>>) -> Usecase {
    if 2 < args.len() {
        Usecase::InvalidArg
    } else if args.len() < 2 {
        Usecase::FzfMake
    } else {
        match usecase_named(args[1]) {
            Some(u) => u,
            None => Usecase::InvalidArg,
        }
    }
}

fn is_word(s: &String, word: &str) -> (r: bool)
    ensures
        r == (s@ == word@),
{
    let a = crate::text::to_chars(s.as_str());
    let b = crate::text::to_chars(word);
    crate::text::chars_equal(a.as_slice(), b.as_slice())
}

impl Usecase {
    /// The words that name the usecase on the command line.
    pub fn command_str(&self) -> (r: Vec<&'static str>)
        ensures
            Seq::new(r@.len(), |i: int| r@[i]@) == command_words(*self),
    {
        proof {
            reveal_strlit("--help");
            reveal_strlit("help");
            reveal_strlit("--version");
            reveal_strlit("-v");
            reveal_strlit("version");
            reveal_strlit("--repeat");
            reveal_strlit("-r");
            reveal_strlit("repeat");
            reveal_strlit("--history");
            reveal_strlit("-h");
            reveal_strlit("history");
        }
        let mut words: Vec<&'static str> = Vec::new();
        match self {
            Usecase::Help => {
                words.push("--help");
                words.push("help");
            },
            Usecase::Version => {
                words.push("--version");
                words.push("-v");
                words.push("version");
            },
            Usecase::Repeat => {
                words.push("--repeat");
                words.push("-r");
                words.push("repeat");
            },
            Usecase::History => {
                words.push("--history");
                words.push("-h");
                words.push("history");
            },
            _ => {},
        }
        assert(Seq::new(words@.len(), |i: int| words@[i]@) =~= command_words(*self));
        words
    }
}

/// Each word of a usecase names it on the command line.
pub proof fn law_command_words_name_their_usecase(u: Usecase, i: int)
    requires
        0 <= i < command_words(u).len(),
    ensures
        usecase_named(command_words(u)[i]) == Some(u),
{
    reveal_strlit("--help");
    reveal_strlit("help");
    reveal_strlit("--version");
    reveal_strlit("-v");
    reveal_strlit("version");
    reveal_strlit("--repeat");
    reveal_strlit("-r");
    reveal_strlit("repeat");
    reveal_strlit("--history");
    reveal_strlit("-h");
    reveal_strlit("history");
    let w = command_words(u)[i];
    let words = seq![
        "--help"@, "help"@, "--version"@, "-v"@, "version"@, "--repeat"@, "-r"@, "repeat"@,
        "--history"@, "-h"@, "history"@,
    ];
    assert forall|a: int, b: int| 0 <= a < b < words.len() implies words[a] != words[b] by {
        if words[a] == words[b] {
            assert(words[a].len() == words[b].len());
            assert(words[a][0] == words[b][0]);
            assert(words[a][1] == words[b][1]);
            if words[a].len() > 2 {
                assert(words[a][2] == words[b][2]);
            }
        }
    }
    match u {
        Usecase::Help => {
            assert(w == words[0] || w == words[1]);
        },
        Usecase::Version => {
            assert(w == words[2] || w == words[3] || w == words[4]);
        },
        Usecase::Repeat => {
            assert(w == words[5] || w == words[6] || w == words[7]);
        },
        Usecase::History => {
            assert(w == words[8] || w == words[9] || w == words[10]);
        },
        _ => {},
    }
}

/// The usecase for the command line `args`, the program name first.
pub fn args_to_usecase(args: &Vec<String>) -> (r: Usecase)
    ensures
        r == usecase_for(string_views(args@)),
{
    if 2 < args.len() {
        return Usecase::InvalidArg;
    }
    if args.len() < 2 {
        return Usecase::FzfMake;
    }
    let word = &args[1];
    assert(string_views(args@)[1] == word@);
    if is_word(word, "--help") || is_word(word, "help") {
        Usecase::Help
    } else if is_word(word, "--version") || is_word(word, "-v") || is_word(word, "version") {
        Usecase::Version
    } else if is_word(word, "--repeat") || is_word(word, "-r") || is_word(word, "repeat") {
        Usecase::Repeat
    } else if is_word(word, "--history") || is_word(word, "-h") || is_word(word, "history") {
        Usecase::History
    } else {
        Usecase::InvalidArg
    }
}

/// The message printed, before the help message, for invalid arguments.
pub fn invalid_arg_message() -> (r: String)
    ensures
        r@ == "Invalid argument."@,
{
    String::from_str("Invalid argument.")
}

/// What `fzf-make repeat` executes: the latest command of the directory's history, with the
/// first runner of its type. An error when the history is empty or no such runner was found.
pub fn command_to_repeat(state: &SelectCommandState) -> (r: Result<(usize, CommandForExec), String>)
    ensures
        state.history@.len() == 0 ==> (r matches Err(e) && e@ == "fzf-make has not been executed in this path yet."@),
        state.history@.len() > 0 ==> match runner_index(state.runners@, state.history@[0].runner_type, 0) {
            Some(i) => (r matches Ok((j, c)) && j == i && c@ == state.history@[0]@),
            None => (r matches Err(e) && e@ == "runner not found."@),
        },
{
    match state.get_latest_command() {
        None => Err(String::from_str("fzf-make has not been executed in this path yet.")),
        Some(c) => {
            let mut i: usize = 0;
            while i < state.runners.len()
                invariant
                    i <= state.runners@.len(),
                    state.history@.len() > 0,
                    c == &state.history@[0],
                    runner_index(state.runners@, c.runner_type, 0) == runner_index(state.runners@, c.runner_type, i as int),
                decreases state.runners@.len() - i,
            {
                if state.runners[i].runner_type() == c.runner_type {
                    return Ok((i, CommandForExec::from(c.duplicate())));
                }
                i += 1;
            }
            Err(String::from_str("runner not found."))
        },
    }
}

/// Selecting a command and executing it.
pub struct FzfMake;

/// The help message.
pub struct Help;

/// The invalid-argument message.
pub struct InvalidArg;

/// The version.
pub struct Version;

/// Executing the last command again.
pub struct Repeat;

/// Selecting a command from the history.
pub struct History;

impl FzfMake {
    pub fn new() -> Self {
        FzfMake
    }
}

impl Help {
    pub fn new() -> Self {
        Help
    }
}

impl InvalidArg {
    pub fn new() -> Self {
        InvalidArg
    }
}

impl Version {
    pub fn new() -> Self {
        Version
    }
}

impl Repeat {
    pub fn new() -> Self {
        Repeat
    }
}

impl History {
    pub fn new() -> Self {
        History
    }
}

} // verus!
