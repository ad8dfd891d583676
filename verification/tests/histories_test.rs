use fzf_make::model::command::CommandForExec;
use fzf_make::model::histories::{Histories, History, HistoryCommand, MAX_HISTORY_LENGTH};
use fzf_make::model::runner_type::RunnerType;

fn make(args: &str) -> HistoryCommand {
    HistoryCommand { runner_type: RunnerType::Make, args: args.to_string() }
}

fn exec(args: &str) -> CommandForExec {
    CommandForExec { runner_type: RunnerType::Make, args: args.to_string() }
}

#[test]
fn histories_append_test() {
    let path_to_append = "/Users/user/code/fzf-make".to_string();
    struct Case {
        title: &'static str,
        before: Histories,
        command_to_append: CommandForExec,
        after: Histories,
    }
    let cases = vec![
        Case {
            title: "The command executed is appended to the existing history if there is history for cwd.",
            before: Histories {
                histories: vec![
                    History { path: "/Users/user/code/rustc".to_string(), commands: vec![make("history0")] },
                    History { path: path_to_append.clone(), commands: vec![make("history0")] },
                ],
            },
            command_to_append: exec("append"),
            after: Histories {
                histories: vec![
                    History { path: "/Users/user/code/rustc".to_string(), commands: vec![make("history0")] },
                    History { path: path_to_append.clone(), commands: vec![make("append"), make("history0")] },
                ],
            },
        },
        Case {
            title: "A new history is appended if there is no history for cwd.",
            before: Histories {
                histories: vec![History {
                    path: "/Users/user/code/rustc".to_string(),
                    commands: vec![make("history0")],
                }],
            },
            command_to_append: exec("append"),
            after: Histories {
                histories: vec![
                    History { path: path_to_append.clone(), commands: vec![make("append")] },
                    History { path: "/Users/user/code/rustc".to_string(), commands: vec![make("history0")] },
                ],
            },
        },
    ];
    for case in cases {
        assert_eq!(
            case.after,
            case.before.append(path_to_append.clone(), case.command_to_append),
            "\nFailed: {:?}\n",
            case.title,
        );
    }
}

#[test]
fn history_append_test() {
    let path = "/Users/user/code/fzf-make".to_string();
    struct Case {
        title: &'static str,
        before: History,
        command_to_append: CommandForExec,
        after: History,
    }
    let fifty: Vec<HistoryCommand> = (0..50).map(|i| make(&format!("history{}", i))).collect();
    let mut truncated: Vec<HistoryCommand> = vec![make("history50")];
    truncated.extend((0..49).map(|i| make(&format!("history{}", i))));
    let cases = vec![
        Case {
            title: "Append to head",
            before: History { path: path.clone(), commands: vec![make("history0"), make("history1")] },
            command_to_append: exec("history2"),
            after: History {
                path: path.clone(),
                commands: vec![make("history2"), make("history0"), make("history1")],
            },
        },
        Case {
            title: "Append to head(Append to empty)",
            before: History { path: path.clone(), commands: vec![] },
            command_to_append: exec("history0"),
            after: History { path: path.clone(), commands: vec![make("history0")] },
        },
        Case {
            title: "Append to head(Remove duplicated command)",
            before: History {
                path: path.clone(),
                commands: vec![make("history0"), make("history1"), make("history2")],
            },
            command_to_append: exec("history2"),
            after: History {
                path: path.clone(),
                commands: vec![make("history2"), make("history0"), make("history1")],
            },
        },
        Case {
            title: "Truncate when length exceeds 50",
            before: History { path: path.clone(), commands: fifty },
            command_to_append: exec("history50"),
            after: History { path: path.clone(), commands: truncated },
        },
    ];
    for case in cases {
        assert_eq!(case.after, case.before.append(case.command_to_append), "\nFailed: {:?}\n", case.title);
    }
}

#[test]
fn history_keeps_at_most_fifty_commands_and_no_duplicates() {
    let mut history = History { path: "/p".to_string(), commands: vec![] };
    for i in 0..60 {
        history = history.append(exec(&format!("c{}", i % 55)));
    }
    assert_eq!(MAX_HISTORY_LENGTH, history.commands.len());
    assert_eq!(make("c4"), history.commands[0]);
    for i in 0..history.commands.len() {
        for j in (i + 1)..history.commands.len() {
            assert_ne!(history.commands[i], history.commands[j]);
        }
    }
}

#[test]
fn appending_the_latest_command_again_changes_nothing() {
    let histories = Histories {
        histories: vec![History { path: "/a".to_string(), commands: vec![make("x"), make("y")] }],
    };
    let once = histories.append("/a".to_string(), exec("y"));
    let twice = once.append("/a".to_string(), exec("y"));
    assert_eq!(once, twice);
    assert_eq!(vec![make("y"), make("x")], once.histories[0].commands);
}
