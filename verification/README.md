# fzf-make

A command line tool that lists the commands of make, pnpm, npm, yarn, just and task found in the
current directory, narrows them with a fuzzy finder, shows where each is defined, keeps a history
per directory, and executes the one picked.

## Layout

- `src/` is the library, verified with Verus: how makefiles, justfiles and `package.json` are
  read into commands, how the runners are detected, the history and how a command is added to it,
  the narrowing and ranking of the commands, and the interface as a state machine (a key gives a
  message, a message changes the state and names what is left to do outside it). Each public
  function states in its contract what it returns; the `law_*` proof functions state properties
  that hold across calls.
- `app/` is the program around it: the command line, the file system, the history file (TOML),
  the processes of the package managers, the terminal (ratatui, crossterm, tui-textarea), the
  clipboard and the release check.
- `tests/` runs the library on concrete values.

## Commands

| Command                                                   | Description                                   |
| --------                                                  | --------                                      |
| `fzf-make`                                                | Launch fzf-make                               |
| `fzf-make --repeat` / `fzf-make -r` / `fzf-make repeat`   | Execute last executed target                  |
| `fzf-make --history` / `fzf-make -h` / `fzf-make history` | Launch fzf-make with the history pane focused |
| `fzf-make --help` / `fzf-make help`                       | Show help                                     |
| `fzf-make --version` / `fzf-make -v` / `fzf-make version` | Show version                                  |
