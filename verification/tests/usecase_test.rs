use fzf_make::model::command::CommandForExec;
use fzf_make::model::histories::HistoryCommand;
use fzf_make::model::make::target::Targets;
use fzf_make::model::make::Make;
use fzf_make::model::runner::Runner;
use fzf_make::model::runner_type::RunnerType;
use fzf_make::model::task::{Task, TaskEntry, TaskListing};
use fzf_make::usecase::tui::app::{CurrentPane, SelectCommandState};
use fzf_make::usecase::usecase_main::{args_to_usecase, command_to_repeat, get_help, invalid_arg_message, Usecase};
use fzf_make::model::runner_type::JsPackageManager;
use fzf_make::usecase::fzf_make::app::CurrentPane as MakeOnlyPane;
use fzf_make::usecase::fzf_make::config::Config as MakeOnlyConfig;
use fzf_make::usecases::fzf_make_ratatui::app::CurrentPain;
use fzf_make::model::file_util::find_file_in_dir;

fn args(v: &[&str]) -> Vec<String> {
    v.iter().map(|s| s.to_string()).collect()
}

#[test]
fn command_line_picks_the_usecase() {
    assert_eq!(Usecase::FzfMake, args_to_usecase(&args(&["fzf-make"])));
    assert_eq!(Usecase::Repeat, args_to_usecase(&args(&["fzf-make", "--repeat"])));
    assert_eq!(Usecase::Repeat, args_to_usecase(&args(&["fzf-make", "-r"])));
    assert_eq!(Usecase::Repeat, args_to_usecase(&args(&["fzf-make", "repeat"])));
    assert_eq!(Usecase::History, args_to_usecase(&args(&["fzf-make", "--history"])));
    assert_eq!(Usecase::History, args_to_usecase(&args(&["fzf-make", "-h"])));
    assert_eq!(Usecase::History, args_to_usecase(&args(&["fzf-make", "history"])));
    assert_eq!(Usecase::Help, args_to_usecase(&args(&["fzf-make", "--help"])));
    assert_eq!(Usecase::Help, args_to_usecase(&args(&["fzf-make", "help"])));
    assert_eq!(Usecase::Version, args_to_usecase(&args(&["fzf-make", "--version"])));
    assert_eq!(Usecase::Version, args_to_usecase(&args(&["fzf-make", "-v"])));
    assert_eq!(Usecase::Version, args_to_usecase(&args(&["fzf-make", "version"])));
    assert_eq!(Usecase::InvalidArg, args_to_usecase(&args(&["fzf-make", "unknown"])));
    assert_eq!(Usecase::InvalidArg, args_to_usecase(&args(&["fzf-make", "help", "extra"])));
    assert_eq!(vec!["--repeat", "-r", "repeat"], Usecase::Repeat.command_str());
    assert!(Usecase::FzfMake.command_str().is_empty());
}

#[test]
fn help_lists_the_subcommands() {
    let help = get_help();
    assert!(help.starts_with("A command line tool that executes commands using fuzzy finder"));
    assert!(help.contains("    repeat, --repeat, -r\n        Execute the last executed command.\n"));
    assert!(help.contains("    version, --version, -v\n        Prints version information.\n"));
    assert_eq!("Invalid argument.", invalid_arg_message());
}

fn state(history: Vec<HistoryCommand>, runners: Vec<Runner>) -> SelectCommandState {
    SelectCommandState {
        current_dir: "/p".to_string(),
        current_pane: CurrentPane::Main,
        runners,
        search_lines: vec![String::new()],
        commands_list_state: Some(0),
        history,
        history_list_state: Some(0),
        additional_arguments_popup_state: None,
        latest_version: None,
        copy_command_state: None,
    }
}

fn listed_task(dir: &str) -> Task {
    let listing = TaskListing {
        tasks: vec![TaskEntry { name: "lint".to_string(), taskfile: format!("{}/Taskfile.yml", dir), line: 4 }],
    };
    Task::new(dir.to_string(), Some(listing)).unwrap()
}

#[test]
fn repeat_runs_the_latest_command() {
    let task = Runner::Task(listed_task("/p"));
    let make = Runner::MakeCommand(Make { path: "/p/Makefile".to_string(), include_files: vec![], targets: Targets(vec![]) });
    let latest = HistoryCommand { runner_type: RunnerType::Make, args: "build".to_string() };
    let s = state(vec![latest.clone()], vec![task, make]);
    assert_eq!(
        Ok((1, CommandForExec { runner_type: RunnerType::Make, args: "build".to_string() })),
        command_to_repeat(&s)
    );
    let s = state(vec![], vec![]);
    assert_eq!(Err("fzf-make has not been executed in this path yet.".to_string()), command_to_repeat(&s));
    let s = state(vec![latest], vec![Runner::Task(listed_task("/p"))]);
    assert_eq!(Err("runner not found.".to_string()), command_to_repeat(&s));
}

#[test]
fn task_lists_the_tasks_of_its_listing() {
    let task = listed_task("/p");
    assert_eq!(1, task.to_commands().len());
    assert_eq!("lint", task.to_commands()[0].args);
    assert_eq!("/p/Taskfile.yml", task.to_commands()[0].file_path);
    assert_eq!(4, task.to_commands()[0].line_number);
    assert_eq!(Err("failed to list tasks".to_string()), Task::new("/p".to_string(), None));
    assert_eq!(Err("no task found".to_string()), Task::new("/p".to_string(), Some(TaskListing { tasks: vec![] })));
    assert_eq!("/p", task.path());
    let c = CommandForExec { runner_type: RunnerType::Task, args: "lint".to_string() };
    assert_eq!("task lint", task.command_to_run(&c));
}

#[test]
fn runner_names_round_trip() {
    for r in [
        RunnerType::Make,
        RunnerType::JsPackageManager(JsPackageManager::Npm),
        RunnerType::JsPackageManager(JsPackageManager::Pnpm),
        RunnerType::JsPackageManager(JsPackageManager::Yarn),
        RunnerType::Just,
        RunnerType::Task,
    ] {
        assert_eq!(Some(r), RunnerType::from_name(&r.to_string()));
    }
    assert_eq!(None, RunnerType::from_name("cargo"));
    assert_eq!("mk", RunnerType::Make.get_extension_for_highlighting());
    assert_eq!("json", RunnerType::JsPackageManager(JsPackageManager::Yarn).get_extension_for_highlighting());
}

#[test]
fn make_only_panes_and_configs() {
    assert!(MakeOnlyPane::Main.is_main() && MakeOnlyPane::History.is_history());
    assert!(CurrentPain::Main.is_main() && !CurrentPain::Main.is_history());
    assert!(MakeOnlyConfig::new(true).get_forcus_history());
    assert!(!MakeOnlyConfig::default().get_forcus_history());
    assert!(!fzf_make::usecase::tui::config::Config::default().get_focus_history());
}

#[test]
fn file_in_directory_is_found_case_insensitively() {
    let entries = args(&["README.md", "Justfile", ".justfile"]);
    let names = args(&["justfile", ".justfile"]);
    assert_eq!(Some(1), find_file_in_dir(&entries, &names));
    assert_eq!(None, find_file_in_dir(&args(&["Makefile"]), &names));
}
