use fzf_make::model::command::CommandWithPreview;
use fzf_make::model::make::target::{get_line_type, LineType, Targets};
use fzf_make::model::runner_type::RunnerType;

fn cmd(args: &str, line: u32) -> CommandWithPreview {
    CommandWithPreview::new(RunnerType::Make, args.to_string(), "".to_string(), line)
}

const COMMENT_IN_SAME_LINE: &str = "\
.PHONY: run build check test

run:
		@cargo run

build:
		@cargo build

check:
		@cargo check


test: # run test
        @cargo test

echo:
	@echo good";

const COMMENT_LINE: &str = "\
.PHONY: clone build

# https://example.com
clone:
		@git clone https://example.com

build:
		@cargo build";

fn strings(v: &[&str]) -> Vec<String> {
    v.iter().map(|s| s.to_string()).collect()
}

#[test]
fn content_to_targets_test() {
    // The targets with their lines, skipping `define` blocks.
    let cases = vec![
        (
            "comment in same line",
            COMMENT_IN_SAME_LINE,
            Targets(vec![cmd("run", 3), cmd("build", 6), cmd("check", 9), cmd("test", 13), cmd("echo", 16)]),
        ),
        ("comment line", COMMENT_LINE, Targets(vec![cmd("clone", 4), cmd("build", 7)])),
        ("invalid format", "echo hello", Targets(vec![])),
        (
            "trap script as a define block",
            "\
.PHONY: all

all: my_script
define script-block
#!/bin/bash

echo \"this is a trap: not good\"
endef
my_script:
	$(file >my_script,$(script-block))\n",
            Targets(vec![cmd("all", 3), cmd("my_script", 9)]),
        ),
        (
            "nested define",
            "\
define lvl-1
a:
    define lvl2
a:

    endef
a:
endef
                ",
            Targets(vec![]),
        ),
        (
            "override define",
            "\
override define foo
not-good:

endef
                ",
            Targets(vec![]),
        ),
    ];
    for (title, contents, expect) in cases {
        assert_eq!(expect, Targets::new(contents.to_string(), "".to_string(), None), "\nFailed: {:?}\n", title);
    }

    // The target names of `model::target`.
    let cases = vec![
        ("comment in same line", COMMENT_IN_SAME_LINE, strings(&["run", "build", "check", "test", "echo"])),
        ("comment line", COMMENT_LINE, strings(&["clone", "build"])),
        ("invalid format", "echo hello", vec![]),
    ];
    for (title, contents, expect) in cases {
        assert_eq!(
            fzf_make::model::target::Targets(expect.clone()),
            fzf_make::model::target::Targets::new(contents.to_string()),
            "\nFailed: {:?}\n",
            title
        );
        assert_eq!(expect, fzf_make::parser::target::content_to_targets(contents.to_string()), "\nFailed: {:?}\n", title);
    }
}

#[test]
fn get_line_type_test() {
    let cases = vec![
        ("empty line", "", LineType::Normal),
        ("override define", "override define", LineType::DefineStart),
        ("define", "define", LineType::DefineStart),
        ("endef", "endef", LineType::DefineEnd),
        ("define whitespace", "  define   foo", LineType::DefineStart),
        ("endef whitespace", "  endef  ", LineType::DefineEnd),
    ];
    for (title, line, expect) in cases {
        assert_eq!(expect, get_line_type(line, None), "\nFailed: {:?}\n", title);
    }
}

#[test]
fn get_line_type_with_recipe_prefix_test() {
    let cases = vec![
        ("recipe line with > prefix", ">echo test", Some('>'), LineType::Recipe),
        ("recipe line with tab (default)", "\techo test", None, LineType::Recipe),
        ("normal line with > prefix set but line doesn't start with >", "target:", Some('>'), LineType::Normal),
        ("target line should not be recipe even with tab", "target:", None, LineType::Normal),
    ];
    for (title, line, prefix, expect) in cases {
        assert_eq!(expect, get_line_type(line, prefix), "\nFailed: {:?}\n", title);
    }
}

#[test]
fn content_to_targets_with_recipe_prefix_test() {
    let contents = "\
.RECIPEPREFIX = >

.PHONY: test

test:
>echo \"This uses > instead of tab\"
>echo \"Another line\"

build:
>cargo build";
    assert_eq!(
        Targets(vec![cmd("test", 5), cmd("build", 9)]),
        Targets::new(contents.to_string(), "".to_string(), Some('>')),
        "\nFailed: makefile with .RECIPEPREFIX = >\n"
    );
}

#[test]
fn target_line_to_target_test() {
    let common: Vec<(&str, Option<&str>)> = vec![
        ("echo:", Some("echo")),
        ("main.o:", Some("main.o")),
        ("test::", Some("test")),
        ("test ::", Some("test")),
        ("echo", None),
        ("\t\t@git clone https://example.com", None),
        (".PHONY:", None),
        (".DEFAULT:", None),
        ("# run:", None),
        (" # run:", None),
    ];
    let assignments: Vec<(&str, Option<&str>)> = vec![
        ("hoge := 1", None),
        ("hoge?=fuga:1", None),
        ("hoge=fuga:1", None),
        (" hoge:", Some("hoge")),
    ];
    let short: Vec<(&str, Option<&str>)> = vec![("%:", Some("%")), ("a:", Some("a"))];
    for (line, expect) in common.iter().chain(assignments.iter()).chain(short.iter()) {
        assert_eq!(
            expect.map(|e| e.to_string()),
            fzf_make::model::make::target::line_to_target(line.to_string()),
            "\nFailed: {:?}\n",
            line
        );
    }
    for (line, expect) in common.iter() {
        assert_eq!(
            expect.map(|e| e.to_string()),
            fzf_make::parser::target::line_to_target(line.to_string()),
            "\nFailed: {:?}\n",
            line
        );
    }
}

#[test]
fn target_line_number_counts_from_one() {
    let content = "a:\n\nb:\nb:\n".to_string();
    assert_eq!(Some(3), fzf_make::model::target::target_line_number(content.clone(), "b".to_string()));
    assert_eq!(None, fzf_make::model::target::target_line_number(content, "c".to_string()));
}

#[test]
fn special_targets_comments_and_recipes_are_not_listed() {
    let contents = ".PHONY: all\n# note: here\n\tcp a b:c\nall: build\nVAR := x\n  spaced : y\n:odd:";
    assert_eq!(
        Targets(vec![cmd("all", 4), cmd("spaced", 6), cmd("", 7)]),
        Targets::new(contents.to_string(), "".to_string(), None)
    );
}
