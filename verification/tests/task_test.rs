use fzf_make::model::task::{Task, TaskEntry, TaskListing};

/// What `task --list-all --json` lists for a directory whose Taskfile, or that of one of its
/// ancestors, is `taskfile`.
fn listing(taskfile: &str) -> Option<TaskListing> {
    Some(TaskListing {
        tasks: vec![
            TaskEntry { name: "build".to_string(), taskfile: taskfile.to_string(), line: 4 },
            TaskEntry { name: "test".to_string(), taskfile: taskfile.to_string(), line: 8 },
        ],
    })
}

#[test]
fn new_test() {
    struct Case {
        title: &'static str,
        target_dir: String,
        listing: Option<TaskListing>,
        should_succeed: bool,
    }

    let cases = vec![
        Case {
            title: "Should find Taskfile in main directory",
            target_dir: "test_data/task".to_string(),
            listing: listing("test_data/task/Taskfile.yml"),
            should_succeed: true,
        },
        Case {
            title: "Should find Taskfile in nested directory",
            target_dir: "test_data/task/nested".to_string(),
            listing: listing("test_data/task/Taskfile.yml"),
            should_succeed: true,
        },
    ];

    for case in cases {
        let result = Task::new(case.target_dir.clone(), case.listing);
        if case.should_succeed {
            assert!(result.is_ok(), "Case: {} - Should succeed", case.title);
            if let Ok(task) = result {
                assert!(!task.to_commands().is_empty(), "Case: {} - Should have commands", case.title);
                assert_eq!(case.target_dir, task.path());
            }
        } else {
            assert!(result.is_err(), "Case: {} - Should fail", case.title);
        }
    }
}

#[test]
fn tasks_are_listed_in_order_with_their_lines() {
    let task = Task::new("test_data/task".to_string(), listing("/t/Taskfile.yml")).unwrap();
    let commands = task.to_commands();
    assert_eq!(vec!["build", "test"], commands.iter().map(|c| c.args.as_str()).collect::<Vec<_>>());
    assert_eq!(vec![4, 8], commands.iter().map(|c| c.line_number).collect::<Vec<_>>());
    assert!(commands.iter().all(|c| c.file_path == "/t/Taskfile.yml"));
}
