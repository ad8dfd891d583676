use fzf_make::model::target::Targets;
use fzf_make::parser::target::content_to_targets;

const COMMENT_IN_SAME_LINE: &str = "\
.PHONY: run build check test

run:
		@cargo run

build:
		@cargo build

check:
		@cargo check


test: # run test
        @cargo test

echo:
	@echo good";

const COMMENT_LINE: &str = "\
.PHONY: clone build

# https://example.com
clone:
		@git clone https://example.com

build:
		@cargo build";

fn strings(v: &[&str]) -> Vec<String> {
    v.iter().map(|s| s.to_string()).collect()
}

#[test]
fn target_content_to_targets_test() {
    let cases = vec![
        ("comment in same line", COMMENT_IN_SAME_LINE, Targets(strings(&["run", "build", "check", "test", "echo"]))),
        ("comment line", COMMENT_LINE, Targets(strings(&["clone", "build"]))),
        ("invalid format", "echo hello", Targets(vec![])),
    ];
    for (title, contents, expect) in cases {
        assert_eq!(expect, Targets::new(contents.to_string()), "\nFailed: 🚨{:?}🚨\n", title);
    }
}

#[test]
fn parser_content_to_targets_test() {
    let cases = vec![
        ("comment in same line", COMMENT_IN_SAME_LINE, strings(&["run", "build", "check", "test", "echo"])),
        ("comment line", COMMENT_LINE, strings(&["clone", "build"])),
        ("invalid format", "echo hello", vec![]),
    ];
    for (title, contents, expect) in cases {
        assert_eq!(expect, content_to_targets(contents.to_string()), "\nFailed: 🚨{:?}🚨\n", title);
    }
}
