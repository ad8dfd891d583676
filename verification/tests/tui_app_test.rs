use fzf_make::model::command::{CommandForExec, CommandWithPreview};
use fzf_make::model::histories::{Histories, History, HistoryCommand};
use fzf_make::model::make::target::Targets;
use fzf_make::model::make::Make;
use fzf_make::model::runner::Runner;
use fzf_make::model::runner_type::RunnerType;
use fzf_make::usecase::tui::app::{
    narrow_down, update, Action, AdditionalWindowState, AppState, CurrentPane, ExecuteCommandState, KeyCode,
    KeyInput, Message, Model, SelectCommandState,
};
use fzf_make::usecase::tui::config::Config;

const CURRENT_DIR: &str = "/home/user/project";

fn make_for_test() -> Make {
    let target = |name: &str, line: u32| {
        CommandWithPreview::new(RunnerType::Make, name.to_string(), "".to_string(), line)
    };
    Make {
        path: format!("{}/Test.mk", CURRENT_DIR),
        include_files: vec![],
        targets: Targets(vec![target("target0", 1), target("target1", 4), target("target2", 7)]),
    }
}

fn history(args: &str) -> HistoryCommand {
    HistoryCommand { runner_type: RunnerType::Make, args: args.to_string() }
}

fn state_for_test() -> SelectCommandState {
    SelectCommandState {
        current_dir: CURRENT_DIR.to_string(),
        current_pane: CurrentPane::Main,
        runners: vec![Runner::MakeCommand(make_for_test())],
        search_lines: vec![String::new()],
        commands_list_state: Some(0),
        history: vec![history("history0"), history("history1"), history("history2")],
        history_list_state: Some(0),
        additional_arguments_popup_state: None,
        latest_version: None,
        copy_command_state: None,
    }
}

fn select(s: SelectCommandState) -> Model {
    Model { app_state: AppState::SelectCommand(Box::new(s)) }
}

fn key(code: KeyCode) -> KeyInput {
    KeyInput { code, ctrl: false }
}

/// What the search box holds after a key, as the text area edits a single line.
fn edited(lines: &[String], k: KeyInput) -> Vec<String> {
    let mut text = lines.join("");
    match k.code {
        KeyCode::Char(c) => text.push(c),
        KeyCode::Backspace => {
            text.pop();
        }
        _ => {}
    }
    vec![text]
}

/// Runs a message through `update` and performs the edit it asks for.
fn run(model: &mut Model, message: Option<Message>) -> Action {
    let typed = match &message {
        Some(Message::SearchTextAreaKeyInput(k)) => Some(*k),
        _ => None,
    };
    let action = update(model, message);
    if let (Action::EditSearchText, Some(k), AppState::SelectCommand(s)) = (&action, typed, &mut model.app_state) {
        let lines = edited(&s.search_lines, k);
        s.set_search_lines(lines);
    }
    action
}

fn typed(text: &str) -> Vec<String> {
    vec![text.to_string()]
}

#[test]
fn app_update_test() {
    struct Case {
        title: &'static str,
        model: Model,
        message: Option<Message>,
        expect_model: Model,
    }
    let typed_w = || {
        let mut m = select(SelectCommandState { commands_list_state: None, ..state_for_test() });
        run(&mut m, Some(Message::SearchTextAreaKeyInput(key(KeyCode::Char('w')))));
        m
    };
    let cases = vec![
        Case {
            title: "MoveToNextPane(Main -> History)",
            model: select(SelectCommandState { current_pane: CurrentPane::Main, ..state_for_test() }),
            message: Some(Message::MoveToNextPane),
            expect_model: select(SelectCommandState { current_pane: CurrentPane::History, ..state_for_test() }),
        },
        Case {
            title: "MoveToNextPane(History -> Main)",
            model: select(SelectCommandState { current_pane: CurrentPane::History, ..state_for_test() }),
            message: Some(Message::MoveToNextPane),
            expect_model: select(SelectCommandState { current_pane: CurrentPane::Main, ..state_for_test() }),
        },
        Case {
            title: "Quit",
            model: select(state_for_test()),
            message: Some(Message::Quit),
            expect_model: Model { app_state: AppState::ShouldQuit },
        },
        Case {
            title: "SearchTextAreaKeyInput(a)",
            model: select(state_for_test()),
            message: Some(Message::SearchTextAreaKeyInput(key(KeyCode::Char('a')))),
            expect_model: select(SelectCommandState { search_lines: typed("a"), ..state_for_test() }),
        },
        Case {
            title: "when BackSpace is inputted, the selection should be reset",
            model: select(SelectCommandState { commands_list_state: Some(1), ..state_for_test() }),
            message: Some(Message::SearchTextAreaKeyInput(key(KeyCode::Backspace))),
            expect_model: select(SelectCommandState { commands_list_state: Some(0), ..state_for_test() }),
        },
        Case {
            title: "Next(0 -> 1)",
            model: select(state_for_test()),
            message: Some(Message::NextCommand),
            expect_model: select(SelectCommandState { commands_list_state: Some(1), ..state_for_test() }),
        },
        Case {
            title: "Next(2 -> 0)",
            model: select(SelectCommandState { commands_list_state: Some(2), ..state_for_test() }),
            message: Some(Message::NextCommand),
            expect_model: select(SelectCommandState { commands_list_state: Some(0), ..state_for_test() }),
        },
        Case {
            title: "Previous(1 -> 0)",
            model: select(SelectCommandState { commands_list_state: Some(1), ..state_for_test() }),
            message: Some(Message::PreviousCommand),
            expect_model: select(SelectCommandState { commands_list_state: Some(0), ..state_for_test() }),
        },
        Case {
            title: "Previous(0 -> 2)",
            model: select(SelectCommandState { commands_list_state: Some(0), ..state_for_test() }),
            message: Some(Message::PreviousCommand),
            expect_model: select(SelectCommandState { commands_list_state: Some(2), ..state_for_test() }),
        },
        Case {
            title: "ExecuteCommand(Main)",
            model: select(state_for_test()),
            message: Some(Message::ExecuteCommand(CommandForExec {
                runner_type: RunnerType::Make,
                args: "target0".to_string(),
            })),
            expect_model: Model {
                app_state: AppState::ExecuteCommand(ExecuteCommandState::new(
                    Runner::MakeCommand(make_for_test()),
                    CommandForExec { runner_type: RunnerType::Make, args: "target0".to_string() },
                )),
            },
        },
        Case {
            title: "ExecuteCommand(History)",
            model: select(SelectCommandState {
                current_pane: CurrentPane::History,
                history_list_state: Some(1),
                ..state_for_test()
            }),
            message: Some(Message::ExecuteCommand(CommandForExec {
                runner_type: RunnerType::Make,
                args: "history1".to_string(),
            })),
            expect_model: Model {
                app_state: AppState::ExecuteCommand(ExecuteCommandState::new(
                    Runner::MakeCommand(make_for_test()),
                    CommandForExec { runner_type: RunnerType::Make, args: "history1".to_string() },
                )),
            },
        },
        Case {
            title: "Selecting position should be reset if some kind of char was inputted when the command located not in top of the commands",
            model: select(SelectCommandState { commands_list_state: Some(1), ..state_for_test() }),
            message: Some(Message::SearchTextAreaKeyInput(key(KeyCode::Char('a')))),
            expect_model: select(SelectCommandState {
                commands_list_state: Some(0),
                search_lines: typed("a"),
                ..state_for_test()
            }),
        },
        Case {
            title: "NextCommand when there is no commands to select, panic should not occur",
            model: typed_w(),
            message: Some(Message::NextCommand),
            expect_model: select(SelectCommandState {
                commands_list_state: None,
                search_lines: typed("w"),
                ..state_for_test()
            }),
        },
        Case {
            title: "PreviousCommand when there is no commands to select, panic should not occur",
            model: typed_w(),
            message: Some(Message::PreviousCommand),
            expect_model: select(SelectCommandState {
                commands_list_state: None,
                search_lines: typed("w"),
                ..state_for_test()
            }),
        },
        Case {
            title: "NextHistory",
            model: select(SelectCommandState {
                current_pane: CurrentPane::History,
                history_list_state: Some(0),
                ..state_for_test()
            }),
            message: Some(Message::NextHistory),
            expect_model: select(SelectCommandState {
                current_pane: CurrentPane::History,
                history_list_state: Some(1),
                ..state_for_test()
            }),
        },
        Case {
            title: "PreviousHistory",
            model: select(SelectCommandState {
                current_pane: CurrentPane::History,
                history_list_state: Some(0),
                ..state_for_test()
            }),
            message: Some(Message::NextHistory),
            expect_model: select(SelectCommandState {
                current_pane: CurrentPane::History,
                history_list_state: Some(1),
                ..state_for_test()
            }),
        },
        Case {
            title: "When the last history is selected and NextHistory is received, it returns to the beginning.",
            model: select(SelectCommandState {
                current_pane: CurrentPane::History,
                history_list_state: Some(2),
                ..state_for_test()
            }),
            message: Some(Message::NextHistory),
            expect_model: select(SelectCommandState {
                current_pane: CurrentPane::History,
                history_list_state: Some(0),
                ..state_for_test()
            }),
        },
        Case {
            title: "When the first history is selected and PreviousHistory is received, it moves to the last history.",
            model: select(SelectCommandState {
                current_pane: CurrentPane::History,
                history_list_state: Some(0),
                ..state_for_test()
            }),
            message: Some(Message::PreviousHistory),
            expect_model: select(SelectCommandState {
                current_pane: CurrentPane::History,
                history_list_state: Some(2),
                ..state_for_test()
            }),
        },
    ];
    for mut case in cases {
        run(&mut case.model, case.message);
        assert_eq!(case.expect_model, case.model, "\nFailed: {:?}\n", case.title);
    }
}

#[test]
fn executing_a_command_asks_to_store_it_in_the_history() {
    let mut model = select(state_for_test());
    let command = CommandForExec { runner_type: RunnerType::Make, args: "target1".to_string() };
    let action = update(&mut model, Some(Message::ExecuteCommand(command.clone())));
    assert_eq!(Action::StoreHistory { current_dir: CURRENT_DIR.to_string(), command: command.clone() }, action);
    assert!(model.is_command_selected());
    let (runner, chosen) = model.command_to_execute().unwrap();
    assert_eq!(command, chosen);
    assert_eq!("make target1", runner.command_to_run(&chosen));
}

#[test]
fn executing_a_command_without_its_runner_stays_in_the_selection() {
    let mut model = select(state_for_test());
    let command = CommandForExec { runner_type: RunnerType::Just, args: "x".to_string() };
    let action = update(&mut model, Some(Message::ExecuteCommand(command.clone())));
    assert_eq!(Action::StoreHistory { current_dir: CURRENT_DIR.to_string(), command }, action);
    assert_eq!(select(state_for_test()), model);
}

#[test]
fn keys_map_to_messages() {
    let model = select(state_for_test());
    let ctrl = |c: char| KeyInput { code: KeyCode::Char(c), ctrl: true };
    assert_eq!(Some(Message::MoveToNextPane), model.handle_key_input(key(KeyCode::Tab)));
    assert_eq!(Some(Message::Quit), model.handle_key_input(key(KeyCode::Esc)));
    assert_eq!(Some(Message::Quit), model.handle_key_input(ctrl('c')));
    assert_eq!(Some(Message::NextCommand), model.handle_key_input(ctrl('n')));
    assert_eq!(Some(Message::PreviousCommand), model.handle_key_input(key(KeyCode::Up)));
    assert_eq!(Some(Message::OpenAdditionalArgumentsWindow), model.handle_key_input(ctrl('o')));
    assert_eq!(Some(Message::CopyCommandToClipboard), model.handle_key_input(ctrl('y')));
    assert_eq!(
        Some(Message::ExecuteCommand(CommandForExec { runner_type: RunnerType::Make, args: "target0".to_string() })),
        model.handle_key_input(key(KeyCode::Enter))
    );
    assert_eq!(
        Some(Message::SearchTextAreaKeyInput(key(KeyCode::Char('q')))),
        model.handle_key_input(key(KeyCode::Char('q')))
    );
    let history = select(SelectCommandState { current_pane: CurrentPane::History, history_list_state: Some(2), ..state_for_test() });
    assert_eq!(Some(Message::Quit), history.handle_key_input(key(KeyCode::Char('q'))));
    assert_eq!(None, history.handle_key_input(key(KeyCode::Char('x'))));
    assert_eq!(
        Some(Message::ExecuteCommand(CommandForExec { runner_type: RunnerType::Make, args: "history2".to_string() })),
        history.handle_key_input(key(KeyCode::Char(' ')))
    );
    assert_eq!(None, Model { app_state: AppState::ShouldQuit }.handle_key_input(key(KeyCode::Enter)));
}

#[test]
fn enter_without_a_matching_command_quits_with_an_error() {
    let mut model = select(state_for_test());
    run(&mut model, Some(Message::SearchTextAreaKeyInput(key(KeyCode::Char('z')))));
    let message = model.handle_key_input(key(KeyCode::Enter));
    assert_eq!(Some(Message::NoCommandSelected), message);
    update(&mut model, message);
    assert_eq!(Model { app_state: AppState::QuitWithError("No command selected".to_string()) }, model);
}

#[test]
fn additional_arguments_are_appended() {
    let mut model = select(state_for_test());
    run(&mut model, Some(Message::OpenAdditionalArgumentsWindow));
    let AppState::SelectCommand(s) = &mut model.app_state else { panic!("not selecting") };
    assert!(s.is_additional_arguments_popup_opened());
    s.set_arguments_lines(vec!["  ARG1=1 ARG2=2 ".to_string()]);
    assert_eq!(Some(Message::CloseAdditionalArgumentsWindow), model.handle_key_input(key(KeyCode::Esc)));
    assert_eq!(None, model.handle_key_input(key(KeyCode::Tab)));
    assert_eq!(
        Some(Message::ExecuteCommand(CommandForExec {
            runner_type: RunnerType::Make,
            args: "target0 ARG1=1 ARG2=2".to_string(),
        })),
        model.handle_key_input(key(KeyCode::Enter))
    );
    let popup = AdditionalWindowState::new(CommandForExec { runner_type: RunnerType::Make, args: "run".to_string() });
    assert_eq!(CommandForExec { runner_type: RunnerType::Make, args: "run".to_string() }, popup.append_arguments());
    let two_lines = AdditionalWindowState {
        arguments_lines: vec!["A=1".to_string(), "B=2".to_string()],
        command: CommandForExec { runner_type: RunnerType::Make, args: "run".to_string() },
    };
    assert_eq!("run A=1 B=2", two_lines.append_arguments().args);
}

#[test]
fn copying_asks_for_the_clipboard_and_records_the_outcome() {
    let mut model = select(state_for_test());
    let action = update(&mut model, Some(Message::CopyCommandToClipboard));
    assert_eq!(Action::CopyToClipboard("make target0".to_string()), action);
    let AppState::SelectCommand(s) = &mut model.app_state else { panic!("not selecting") };
    s.set_copy_command_state(Ok("make target0".to_string()));
    assert_eq!(Some(Ok("make target0".to_string())), s.copy_command_state);
}

fn preview(args: &str, runner_type: RunnerType) -> CommandWithPreview {
    CommandWithPreview::new(runner_type, args.to_string(), "f".to_string(), 1)
}

#[test]
fn narrowing_keeps_fuzzy_matches_best_first() {
    let commands = vec![
        preview("build", RunnerType::Make),
        preview("test", RunnerType::Make),
        preview("build-release", RunnerType::Make),
    ];
    assert_eq!(commands, narrow_down(&commands, &vec![String::new()]));
    let narrowed = narrow_down(&commands, &vec!["bui ld".to_string()]);
    assert_eq!(2, narrowed.len());
    assert!(narrowed.iter().all(|c| c.args.starts_with("build")));
    assert!(narrow_down(&commands, &vec!["zzz".to_string()]).is_empty());
}

#[test]
fn histories_of_the_directory_are_listed() {
    let histories = Histories {
        histories: vec![
            History { path: "/a".to_string(), commands: vec![history("x")] },
            History { path: CURRENT_DIR.to_string(), commands: vec![history("y"), history("z")] },
        ],
    };
    assert_eq!(vec![history("y"), history("z")], Model::get_histories(&CURRENT_DIR.to_string(), &histories));
    assert_eq!(Vec::<HistoryCommand>::new(), Model::get_histories(&"/b".to_string(), &histories));
}

#[test]
fn model_needs_a_runner() {
    assert!(Model::new(Config::default(), CURRENT_DIR.to_string(), vec![], vec![]).is_err());
    let model = Model::new(Config::new(true), CURRENT_DIR.to_string(), vec![Runner::MakeCommand(make_for_test())], vec![]).unwrap();
    let AppState::SelectCommand(s) = &model.app_state else { panic!("not selecting") };
    assert_eq!(CurrentPane::History, s.current_pane);
    assert!(s.current_pane.is_history() && !s.current_pane.is_main());
    assert!(!model.should_quit());
}
