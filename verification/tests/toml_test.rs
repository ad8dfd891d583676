use fzf_make::file::toml::{Histories, History, HistoryCommand};
use fzf_make::file::toml_old;
use fzf_make::model::histories as model;
use fzf_make::model::runner_type::RunnerType;
use fzf_make::file::toml::history_file_path;

fn file_histories() -> Histories {
    Histories::new(vec![History::new(
        "/Users/user/code/fzf-make".to_string(),
        vec![
            HistoryCommand::new(RunnerType::Make, "test".to_string()),
            HistoryCommand::new(RunnerType::Just, "check".to_string()),
        ],
    )])
}

#[test]
fn history_file_round_trip() {
    let model_histories = file_histories().into();
    assert_eq!(
        model::Histories {
            histories: vec![model::History {
                path: "/Users/user/code/fzf-make".to_string(),
                commands: vec![
                    model::HistoryCommand { runner_type: RunnerType::Make, args: "test".to_string() },
                    model::HistoryCommand { runner_type: RunnerType::Just, args: "check".to_string() },
                ],
            }],
        },
        model_histories
    );
    assert_eq!(file_histories(), Histories::from(model_histories));
}

#[test]
fn layout_without_runners_is_read_as_make_commands() {
    let without_runners = toml_old::Histories {
        history: vec![toml_old::History {
            path: "/p".to_string(),
            executed_targets: vec!["run".to_string(), "echo1".to_string()],
        }],
    };
    assert_eq!(
        Histories::new(vec![History::new(
            "/p".to_string(),
            vec![
                HistoryCommand::new(RunnerType::Make, "run".to_string()),
                HistoryCommand::new(RunnerType::Make, "echo1".to_string()),
            ],
        )]),
        without_runners.into_histories()
    );
}

#[test]
fn current_layout_is_preferred() {
    assert_eq!(
        file_histories(),
        Histories::parse_history_in_considering_history_file_format_version(Some(file_histories()), None)
    );
    assert_eq!(
        file_histories(),
        Histories::parse_history_in_considering_history_file_format_version(None, Some(file_histories()))
    );
    assert_eq!(
        Histories::new(vec![]),
        Histories::parse_history_in_considering_history_file_format_version(None, None)
    );
}

#[test]
fn history_file_is_in_the_config_directory() {
    assert_eq!(
        Some(("/home/u/.config/fzf-make".to_string(), "history.toml".to_string())),
        history_file_path(false, "/work".to_string(), Some("/home/u".to_string()))
    );
    assert_eq!(
        Some(("/work/test_dir".to_string(), "history.toml".to_string())),
        history_file_path(true, "/work".to_string(), None)
    );
    assert_eq!(None, history_file_path(false, "/work".to_string(), None));
}
