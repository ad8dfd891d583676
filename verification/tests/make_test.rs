use fzf_make::model::command::{CommandForExec, CommandWithPreview};
use fzf_make::model::make::target::Targets;
use fzf_make::model::make::{content_to_include_file_paths, line_to_including_file_paths, Make};
use fzf_make::model::runner_type::RunnerType;

fn cmd(args: &str, line: u32) -> CommandWithPreview {
    CommandWithPreview::new(RunnerType::Make, args.to_string(), "".to_string(), line)
}

fn mk(path: &str, include_files: Vec<Make>, targets: Vec<CommandWithPreview>) -> Make {
    Make { path: path.to_string(), include_files, targets: Targets(targets) }
}

#[test]
fn makefile_to_commands_test() {
    struct Case {
        title: &'static str,
        makefile: Make,
        expect: Vec<CommandWithPreview>,
    }
    let cases = vec![
        Case { title: "makefile with no target", makefile: mk("path", vec![], vec![]), expect: vec![] },
        Case {
            title: "makefile with no include directive",
            makefile: mk("path", vec![], vec![cmd("test", 4), cmd("run", 4)]),
            expect: vec![cmd("test", 4), cmd("run", 4)],
        },
        Case {
            title: "makefile with nested include directive",
            makefile: mk(
                "path1",
                vec![
                    mk(
                        "path2",
                        vec![mk("path2-1", vec![], vec![cmd("test2-1", 4), cmd("run2-1", 4)])],
                        vec![cmd("test2", 4), cmd("run2", 4)],
                    ),
                    mk("path3", vec![], vec![cmd("test3", 4), cmd("run3", 4)]),
                ],
                vec![cmd("test1", 4), cmd("run1", 4)],
            ),
            expect: vec![
                cmd("test1", 4),
                cmd("run1", 4),
                cmd("test2", 4),
                cmd("run2", 4),
                cmd("test2-1", 4),
                cmd("run2-1", 4),
                cmd("test3", 4),
                cmd("run3", 4),
            ],
        },
    ];
    for case in cases {
        assert_eq!(case.expect, case.makefile.to_commands(), "\nFailed: {:?}\n", case.title);
    }
}

#[test]
fn make_specify_makefile_name_test() {
    struct Case {
        title: &'static str,
        files: Vec<&'static str>,
        expect: Option<&'static str>,
    }
    let cases = vec![
        Case { title: "no makefile", files: vec!["README.md"], expect: None },
        Case {
            title: "GNUmakefile",
            files: vec!["makefile", "GNUmakefile", "README.md", "Makefile"],
            expect: Some("GNUmakefile"),
        },
        Case { title: "makefile", files: vec!["makefile", "Makefile", "README.md"], expect: Some("makefile") },
        Case { title: "Makefile", files: vec!["Makefile", "README.md"], expect: Some("Makefile") },
    ];
    let current_dir = "/home/user/project".to_string();
    for case in cases {
        let files: Vec<String> = case.files.iter().map(|f| f.to_string()).collect();
        let expect = case.expect.map(|e| format!("{}/{}", current_dir, e));
        assert_eq!(expect, Make::specify_makefile_name(current_dir.clone(), files), "\nFailed: {:?}\n", case.title);
    }
}

fn including_file_paths_cases() -> Vec<(&'static str, &'static str, Vec<&'static str>)> {
    vec![
        (
            "has two lines of line includes include directive",
            "\
    include one.mk two.mk
    .PHONY: echo-test
    echo-test:
    	@echo good

    include three.mk four.mk

    .PHONY: test
    test:
    	cargo nextest run",
            vec!["one.mk", "two.mk", "three.mk", "four.mk"],
        ),
        (
            "has no lines includes include directive",
            "\
    .PHONY: echo-test test
    echo-test:
    	@echo good

    test:
    	cargo nextest run",
            vec![],
        ),
    ]
}

fn check_extract_including_file_paths(extract: fn(String) -> Vec<String>) {
    for (title, content, expect) in including_file_paths_cases() {
        let mut expect: Vec<String> = expect.iter().map(|e| e.to_string()).collect();
        expect.sort();
        let mut got = extract(content.to_string());
        got.sort();
        assert_eq!(expect, got, "\nFailed: {:?}\n", title);
    }
}

#[test]
fn make_extract_including_file_paths_test() {
    check_extract_including_file_paths(content_to_include_file_paths);
}

#[test]
fn makefile_extract_including_file_paths_test() {
    check_extract_including_file_paths(fzf_make::models::makefile::content_to_include_file_paths);
}

#[test]
fn include_extract_including_file_paths_test() {
    check_extract_including_file_paths(fzf_make::parser::content_to_include_file_paths);
}

fn check_line_to_including_file_paths() {
    let cases: Vec<(&str, &str, Option<Vec<&str>>)> = vec![
        ("include one.mk two.mk", "include one.mk two.mk", Some(vec!["one.mk", "two.mk"])),
        ("-include", "-include one.mk two.mk", Some(vec!["one.mk", "two.mk"])),
        ("sinclude", "sinclude hoge.mk fuga.mk", Some(vec!["hoge.mk", "fuga.mk"])),
        (" include one.mk two.mk", " include one.mk two.mk", Some(vec!["one.mk", "two.mk"])),
        ("include one.mk two.mk(tab is not allowed)", "\tinclude one.mk two.mk", None),
        ("not include directive", ".PHONY: test", None),
        ("include comment", "include one.mk two.mk # three.mk", Some(vec!["one.mk", "two.mk"])),
        ("# include one.mk two.mk # three.mk", "# include one.mk two.mk # three.mk", None),
        ("included", "included", Some(vec![])),
    ];
    for (title, line, expect) in cases {
        let expect: Option<Vec<String>> = expect.map(|v| v.iter().map(|e| e.to_string()).collect());
        assert_eq!(expect, line_to_including_file_paths(line.to_string()), "\nFailed: {:?}\n", title);
    }
}

#[test]
fn make_line_to_including_file_paths_test() {
    check_line_to_including_file_paths();
}

#[test]
fn makefile_line_to_including_file_paths_test() {
    check_line_to_including_file_paths();
}

#[test]
fn include_line_to_including_file_paths_test() {
    check_line_to_including_file_paths();
}

#[test]
fn make_command_to_run_is_make_and_args() {
    let c = CommandForExec { runner_type: RunnerType::Make, args: "build VERBOSE=1".to_string() };
    assert_eq!("make build VERBOSE=1", Make::command_to_run(&c));
}

#[test]
fn make_from_content_collects_targets_with_their_lines() {
    let m = Make::from_content("Makefile".to_string(), "a:\n\tx\nb: a\n".to_string(), None, vec![]);
    assert_eq!(
        vec![
            CommandWithPreview::new(RunnerType::Make, "a".to_string(), "Makefile".to_string(), 1),
            CommandWithPreview::new(RunnerType::Make, "b".to_string(), "Makefile".to_string(), 3),
        ],
        m.to_commands()
    );
}
