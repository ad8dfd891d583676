use fzf_make::model::target::Targets;
use fzf_make::models::makefile::Makefile;
use fzf_make::usecase::fzf_make::app::{
    handle_event, update, update_if_in_bounds, Action, CurrentPane, Message, Model,
};
use fzf_make::usecase::tui::app::{KeyCode, KeyInput};
use fzf_make::usecases::fzf_make_ratatui::app::{
    handle_event as plain_handle_event, update as plain_update,
    update_if_in_bounds as plain_update_if_in_bounds, CurrentPain, Message as PlainMessage,
    Model as PlainModel,
};

fn makefile(targets: &[&str]) -> Makefile {
    Makefile {
        path: "Makefile".to_string(),
        include_files: vec![Makefile {
            path: "sub.mk".to_string(),
            include_files: vec![],
            targets: Targets(vec!["lint".to_string()]),
        }],
        targets: Targets(targets.iter().map(|t| t.to_string()).collect()),
    }
}

fn key(code: KeyCode) -> KeyInput {
    KeyInput { code, ctrl: false }
}

#[test]
fn make_only_model_lists_every_target_when_nothing_is_typed() {
    let model = Model::new(makefile(&["build", "test", "run"]));
    assert_eq!(Some(0), model.targets_list_state);
    assert_eq!(
        vec!["build".to_string(), "test".to_string(), "run".to_string(), "lint".to_string()],
        model.narrow_down_targets()
    );
}

#[test]
fn make_only_model_narrows_by_the_typed_text_without_whitespace() {
    let mut model = Model::new(makefile(&["build", "test", "run"]));
    model.set_key_input("t e".to_string());
    assert_eq!(vec!["test".to_string()], model.narrow_down_targets());
    model.set_key_input("zzz".to_string());
    assert_eq!(Vec::<String>::new(), model.narrow_down_targets());
}

#[test]
fn make_only_model_selection_wraps_around() {
    let mut model = Model::new(makefile(&["build", "test"]));
    assert_eq!(Action::Nothing, update(&mut model, Some(Message::Previous)));
    assert_eq!(Some(2), model.targets_list_state);
    update(&mut model, Some(Message::Next));
    assert_eq!(Some(0), model.targets_list_state);
    update(&mut model, Some(Message::Next));
    update(&mut model, Some(Message::Previous));
    assert_eq!(Some(0), model.targets_list_state);
}

#[test]
fn make_only_model_runs_the_selected_target() {
    let mut model = Model::new(makefile(&["build", "test"]));
    update(&mut model, Some(Message::Next));
    update(&mut model, Some(Message::ExecuteTarget));
    assert_eq!(Some("test".to_string()), model.selected_target);
}

#[test]
fn make_only_model_typing_resets_the_selection() {
    let mut model = Model::new(makefile(&["build", "test"]));
    update(&mut model, Some(Message::Next));
    let action = update(&mut model, Some(Message::SearchTextAreaKeyInput(key(KeyCode::Char('b')))));
    assert_eq!(Action::EditSearchText, action);
    assert_eq!("b", model.key_input);
    assert_eq!(Some(0), model.targets_list_state);
    update(&mut model, Some(Message::SearchTextAreaKeyInput(key(KeyCode::Backspace))));
    assert_eq!("b", model.key_input);
}

#[test]
fn make_only_model_panes_and_quit() {
    let mut model = Model::new(makefile(&["build"]));
    assert_eq!(Some(Message::MoveToNextPane), handle_event(&model, key(KeyCode::Tab)));
    assert_eq!(Some(Message::ExecuteTarget), handle_event(&model, key(KeyCode::Enter)));
    assert_eq!(
        Some(Message::SearchTextAreaKeyInput(key(KeyCode::Char('q')))),
        handle_event(&model, key(KeyCode::Char('q')))
    );
    update(&mut model, Some(Message::MoveToNextPane));
    assert_eq!(CurrentPane::History, model.current_pane);
    assert_eq!(Some(Message::Quit), handle_event(&model, key(KeyCode::Char('q'))));
    assert_eq!(None, handle_event(&model, key(KeyCode::Down)));
    update(&mut model, Some(Message::Quit));
    assert!(model.should_quit);
}

#[test]
fn make_only_model_refuses_to_leave_the_list() {
    let mut model = Model::new(makefile(&["build"]));
    model.set_key_input("zzz".to_string());
    assert_eq!(None, update_if_in_bounds(&mut model, Some(Message::Next)));
    assert_eq!(None, update_if_in_bounds(&mut model, Some(Message::ExecuteTarget)));
    assert_eq!(Some(0), model.targets_list_state);
    assert_eq!(Some(Action::Nothing), update_if_in_bounds(&mut model, Some(Message::Quit)));
}

#[test]
fn plain_model_typing_and_deleting() {
    let mut model = PlainModel::new(makefile(&["build", "test"]));
    assert_eq!("ab", model.update_key_input("ab".to_string()));
    let typed = plain_handle_event(&model, key(KeyCode::Char('a')));
    assert_eq!(Some(PlainMessage::KeyInput("a".to_string())), typed);
    plain_update(&mut model, typed);
    plain_update(&mut model, Some(PlainMessage::KeyInput("b".to_string())));
    assert_eq!("ab", model.key_input);
    assert_eq!("a", model.pop());
    plain_update(&mut model, Some(PlainMessage::Backspace));
    assert_eq!("a", model.key_input);
    plain_update(&mut model, Some(PlainMessage::Backspace));
    plain_update(&mut model, Some(PlainMessage::Backspace));
    assert_eq!("", model.key_input);
}

#[test]
fn plain_model_selection_wraps_around() {
    let mut model = PlainModel::new(makefile(&["build", "test"]));
    plain_update(&mut model, Some(PlainMessage::Previous));
    assert_eq!(Some(2), model.state);
    plain_update(&mut model, Some(PlainMessage::Next));
    assert_eq!(Some(0), model.state);
    model.reset();
    assert_eq!(Some(0), model.state);
}

#[test]
fn plain_model_panes_and_keys() {
    let mut model = PlainModel::new(makefile(&[]));
    assert_eq!(Some(PlainMessage::Backspace), plain_handle_event(&model, key(KeyCode::Backspace)));
    assert_eq!(None, plain_handle_event(&model, key(KeyCode::Enter)));
    plain_update(&mut model, Some(PlainMessage::MoveToNextPain));
    assert!(model.current_pain.is_history());
    assert_eq!(Some(PlainMessage::Quit), plain_handle_event(&model, key(KeyCode::Char('q'))));
    assert_eq!(None, plain_handle_event(&model, key(KeyCode::Char('x'))));
    assert_eq!(Some(PlainMessage::Quit), plain_handle_event(&model, key(KeyCode::Esc)));
    assert!(matches!(model.current_pain, CurrentPain::History));
}

#[test]
fn plain_model_refuses_to_move_over_no_row() {
    let mut empty = PlainModel::new(Makefile { path: "Makefile".to_string(), include_files: vec![], targets: Targets(vec![]) });
    assert!(!plain_update_if_in_bounds(&mut empty, Some(PlainMessage::Next)));
    assert_eq!(Some(0), empty.state);
    assert!(plain_update_if_in_bounds(&mut empty, Some(PlainMessage::Quit)));
    assert!(empty.should_quit);
}
