//! The scenarios of the interface, played on the model: keys go through `handle_key_input` and
//! `update`, and the text boxes are edited the way a single-line text area edits them.
use fzf_make::model::histories::HistoryCommand;
use fzf_make::model::make::Make;
use fzf_make::model::runner::Runner;
use fzf_make::model::runner_type::RunnerType;
use fzf_make::usecase::tui::app::{
    update, Action, AppState, CurrentPane, KeyCode, KeyInput, Model, SelectCommandState,
};
use fzf_make::usecase::tui::config::Config;

const MAKEFILE: &str = "\
.PHONY: run run-with-arg run-with-args

include included.mk

run:
\t@echo run

run-with-arg:
\t@echo $(ARG1)

run-with-args:
\t@echo $(ARG1) $(ARG2)
";

const INCLUDED: &str = "\
target-included:
\t@echo included
";

struct Scenario {
    model: Model,
}

fn fixture_make() -> Make {
    let included = Make::from_content("included.mk".to_string(), INCLUDED.to_string(), None, vec![]);
    Make::from_content("Makefile".to_string(), MAKEFILE.to_string(), None, vec![included])
}

fn edited(lines: &[String], code: KeyCode) -> Vec<String> {
    let mut text = lines.join("");
    match code {
        KeyCode::Char(c) => text.push(c),
        KeyCode::Backspace => {
            text.pop();
        }
        _ => {}
    }
    vec![text]
}

impl Scenario {
    fn new() -> Self {
        Self::with_config(Config::default())
    }

    fn with_config(config: Config) -> Self {
        let model = Model::new(config, "/fixture/make".to_string(), vec![Runner::MakeCommand(fixture_make())], vec![])
            .unwrap();
        Scenario { model }
    }

    fn with_history(mut self, commands: Vec<(RunnerType, &str)>) -> Self {
        let s = self.state_mut();
        s.history = commands
            .into_iter()
            .map(|(runner_type, args)| HistoryCommand { runner_type, args: args.to_string() })
            .collect();
        self
    }

    fn state(&self) -> &SelectCommandState {
        match &self.model.app_state {
            AppState::SelectCommand(s) => s,
            other => panic!("the model is not selecting a command: {:?}", other),
        }
    }

    fn state_mut(&mut self) -> &mut SelectCommandState {
        match &mut self.model.app_state {
            AppState::SelectCommand(s) => s,
            _ => panic!("the model is not selecting a command"),
        }
    }

    fn send(&mut self, key: KeyInput) {
        let message = self.model.handle_key_input(key);
        let action = update(&mut self.model, message);
        if let AppState::SelectCommand(s) = &mut self.model.app_state {
            match action {
                Action::EditSearchText => {
                    let lines = edited(&s.search_lines, key.code);
                    s.set_search_lines(lines);
                }
                Action::EditArguments => {
                    let lines = match &s.additional_arguments_popup_state {
                        Some(p) => edited(&p.arguments_lines, key.code),
                        None => vec![],
                    };
                    s.set_arguments_lines(lines);
                }
                _ => {}
            }
        }
    }

    fn key(&mut self, code: KeyCode) {
        self.send(KeyInput { code, ctrl: false });
    }

    fn ctrl(&mut self, c: char) {
        self.send(KeyInput { code: KeyCode::Char(c), ctrl: true });
    }

    fn type_text(&mut self, text: &str) {
        for c in text.chars() {
            self.key(KeyCode::Char(c));
        }
    }

    fn listed(&self) -> Vec<String> {
        self.state().narrow_down_commands().into_iter().map(|c| c.args).collect()
    }

    fn selected_command(&self) -> Option<String> {
        match &self.model.app_state {
            AppState::ExecuteCommand(e) => Some(e.command.to_string()),
            _ => None,
        }
    }
}

#[test]
fn make_initial_screen() {
    let s = Scenario::new();
    // Every target of the Makefile and of the file it includes is listed, the first one is
    // selected, the main pane has the focus and the search box is empty.
    assert_eq!(vec!["run", "run-with-arg", "run-with-args", "target-included"], s.listed());
    assert_eq!(Some(0), s.state().commands_list_state);
    assert_eq!(CurrentPane::Main, s.state().current_pane);
    assert_eq!(vec![String::new()], s.state().search_lines);
}

#[test]
fn make_narrowing_down_matches() {
    let mut s = Scenario::new();
    s.type_text("with");
    let listed = s.listed();
    assert_eq!(2, listed.len());
    assert!(listed.contains(&"run-with-arg".to_string()) && listed.contains(&"run-with-args".to_string()));
}

#[test]
fn make_narrowing_down_matches_nothing() {
    let mut s = Scenario::new();
    s.type_text("nosuchcommand");
    assert!(s.listed().is_empty());
}

#[test]
fn make_selection_resets_when_a_character_is_typed() {
    let mut s = Scenario::new();
    s.ctrl('n');
    s.ctrl('n');
    assert_eq!(Some(2), s.state().commands_list_state);
    s.type_text("r");
    assert_eq!(Some(0), s.state().commands_list_state);
}

#[test]
fn make_selection_resets_when_backspace_is_pressed() {
    let mut s = Scenario::new();
    s.type_text("run");
    s.ctrl('n');
    assert_eq!(Some(1), s.state().commands_list_state);
    s.key(KeyCode::Backspace);
    assert_eq!(Some(0), s.state().commands_list_state);
    assert_eq!(vec!["ru".to_string()], s.state().search_lines);
}

#[test]
fn make_preview_follows_the_selected_command() {
    let mut s = Scenario::new();
    // `target-included` is defined in another file, so the preview has to switch files.
    s.type_text("included");
    let listed = s.state().narrow_down_commands();
    assert_eq!("target-included", listed[0].args);
    assert_eq!("included.mk", listed[0].file_path);
    assert_eq!(1, listed[0].line_number);
}

#[test]
fn make_moving_to_the_history_pane() {
    let mut s = Scenario::new().with_history(vec![
        (RunnerType::Make, "run"),
        (RunnerType::Make, "run-with-arg ARG1=1"),
    ]);
    assert_eq!(CurrentPane::Main, s.state().current_pane);
    s.key(KeyCode::Tab);
    assert_eq!(CurrentPane::History, s.state().current_pane);
    assert_eq!(2, s.state().get_history().len());
}

#[test]
fn make_launching_with_the_history_pane_focused() {
    let s = Scenario::with_config(Config::new(true)).with_history(vec![(RunnerType::Make, "run")]);
    assert_eq!(CurrentPane::History, s.state().current_pane);
    assert_eq!(Some(0), s.state().history_list_state);
}

#[test]
fn make_executing_the_selected_command() {
    let mut s = Scenario::new();
    s.type_text("with-args");
    s.key(KeyCode::Enter);
    assert_eq!(Some("make run-with-args".to_string()), s.selected_command());
}

#[test]
fn make_executing_a_command_from_the_history_pane() {
    let mut s = Scenario::new().with_history(vec![
        (RunnerType::Make, "run"),
        (RunnerType::Make, "run-with-arg ARG1=1"),
    ]);
    s.key(KeyCode::Tab);
    s.ctrl('n');
    s.key(KeyCode::Enter);
    assert_eq!(Some("make run-with-arg ARG1=1".to_string()), s.selected_command());
}

#[test]
fn make_passing_no_additional_argument() {
    let mut s = Scenario::new();
    s.ctrl('o');
    s.key(KeyCode::Enter);
    // The popup is opened and closed without typing anything, so the command is unchanged.
    assert_eq!(Some("make run".to_string()), s.selected_command());
}

#[test]
fn make_passing_one_additional_argument() {
    let mut s = Scenario::new();
    s.type_text("with-arg");
    s.ctrl('o');
    s.type_text("ARG1=1");
    s.key(KeyCode::Enter);
    assert_eq!(Some("make run-with-args ARG1=1".to_string()), s.selected_command());
}

#[test]
fn make_passing_multiple_additional_arguments() {
    let mut s = Scenario::new();
    s.type_text("with-args");
    s.ctrl('o');
    assert!(s.state().is_additional_arguments_popup_opened());
    s.type_text("ARG1=1 ARG2=2");
    assert_eq!(
        vec!["ARG1=1 ARG2=2".to_string()],
        s.state().additional_arguments_popup_state.as_ref().unwrap().arguments_lines
    );
    s.key(KeyCode::Enter);
    assert_eq!(Some("make run-with-args ARG1=1 ARG2=2".to_string()), s.selected_command());
}

#[test]
fn make_closing_the_additional_arguments_popup() {
    let mut s = Scenario::new();
    s.ctrl('o');
    s.type_text("ARG1=1");
    s.key(KeyCode::Esc);
    // The popup is gone and the command is not executed.
    assert!(!s.state().is_additional_arguments_popup_opened());
    assert_eq!(None, s.selected_command());
}

#[test]
fn make_quitting_with_esc() {
    let mut s = Scenario::new();
    s.key(KeyCode::Esc);
    assert!(matches!(s.model.app_state, AppState::ShouldQuit));
}

#[test]
fn make_pressing_enter_without_any_matching_command() {
    let mut s = Scenario::new();
    s.type_text("nosuchcommand");
    s.key(KeyCode::Enter);
    // Nothing matches, so fzf-make quits with an error instead of executing something.
    assert_eq!(None, s.selected_command());
    match &s.model.app_state {
        AppState::QuitWithError(e) => assert_eq!("No command selected", e),
        other => panic!("unexpected state: {:?}", other),
    }
}
