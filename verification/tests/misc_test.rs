use fzf_make::misc::{
    concat_file_contents, contents_to_commands, extract_command_from_contents, get_makefile_file_names,
    line_to_command,
};
use fzf_make::fuzzy_finder::fuzzy_finder::get_preview_command;

#[test]
fn concat_file_contents_test() {
    let file_contents = vec![
        "\
.PHONY: test-1
test-1:
    @cargo run"
            .to_string(),
        "\
.PHONY: test-2
test-2:
    @cargo run"
            .to_string(),
    ];
    let expect = "\
.PHONY: test-1
test-1:
    @cargo run
.PHONY: test-2
test-2:
    @cargo run";
    assert_eq!(expect.to_string(), concat_file_contents(file_contents));
    assert_eq!("b".to_string(), concat_file_contents(vec!["".to_string(), "b".to_string()]));
}

#[test]
fn contents_to_commands_test() {
    let cases: Vec<(&str, Result<Vec<&str>, &str>)> = vec![
        (
            "\
.PHONY: run build check test

run:
		@cargo run

build:
		@cargo build

check:
		@cargo check


test: # run test
        @cargo test

echo:
	@echo good",
            Ok(vec!["run", "build", "check", "test", "echo"]),
        ),
        (
            "\
.PHONY: clone build

# https://example.com
clone:
		@git clone https://example.com

build:
		@cargo build",
            Ok(vec!["clone", "build"]),
        ),
        ("echo hello", Err("make command not found")),
    ];
    for (contents, expect) in cases {
        let expect = expect.map(|x| x.iter().map(|y| y.to_string()).collect::<Vec<String>>());
        assert_eq!(expect, contents_to_commands(contents.to_string()));
    }
}

#[test]
fn extract_command_test() {
    let cases: Vec<(&str, Option<&str>)> = vec![
        ("echo:", Some("echo")),
        ("main.o:", Some("main.o")),
        ("test::", Some("test")),
        ("test ::", Some("test")),
        ("echo", None),
        ("\t\t@git clone https://example.com", None),
        (".PHONY:", None),
        (".DEFAULT:", None),
        ("# run:", None),
        (" # run:", None),
    ];
    for (contents, expect) in cases {
        assert_eq!(expect.map(|e| e.to_string()), line_to_command(contents.to_string()));
    }
}

#[test]
fn commands_are_listed_one_per_line() {
    assert_eq!(Ok("ab\ncd".to_string()), extract_command_from_contents("ab:\ncd:\n".to_string()));
    // A one-letter name is no target: the pattern wants a character between the first one and the colon.
    assert_eq!(Err("make command not found"), extract_command_from_contents("a:\n".to_string()));
    assert_eq!(Err("make command not found"), extract_command_from_contents("".to_string()));
}

#[test]
fn makefile_names_are_makefile_and_mk_files() {
    let entries = vec!["a.mk".to_string(), ".mk".to_string(), "b.txt".to_string(), "c.d.mk".to_string()];
    assert_eq!(
        Ok(vec!["Makefile".to_string(), "a.mk".to_string(), "c.d.mk".to_string()]),
        get_makefile_file_names(true, Some(entries.clone()))
    );
    assert_eq!(Err("Makefile not found"), get_makefile_file_names(false, Some(entries)));
    assert_eq!(Err("fail to read directory"), get_makefile_file_names(true, None));
}

#[test]
fn preview_command_lists_the_makefiles() {
    let tail = "\" \\\n    result=$(grep -rnE '^{}\\s*:' $(echo $files)); \\\n    IFS=':' read -r filename lineno _ <<< $result; \\\n    bat --style=numbers --color=always --line-range $lineno: \\\n    --highlight-line $lineno $filename;";
    assert_eq!(
        format!("\n    files=\"Makefile /dev/null{}", tail),
        get_preview_command(vec!["Makefile".to_string()])
    );
    assert_eq!(
        format!("\n    files=\"Makefile a.mk b.mk{}", tail),
        get_preview_command(vec!["Makefile".to_string(), "a.mk".to_string(), "b.mk".to_string()])
    );
}
