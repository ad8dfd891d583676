use fzf_make::model::target::Targets;
use fzf_make::models::makefile::Makefile as ModelsMakefile;
use fzf_make::parser::makefile::Makefile;

fn strings(v: &[&str]) -> Vec<String> {
    v.iter().map(|s| s.to_string()).collect()
}

fn parsed(path: &str, include_files: Vec<Makefile>, targets: &[&str]) -> Makefile {
    Makefile { path: path.to_string(), include_files, targets: strings(targets) }
}

fn models_makefile(path: &str, include_files: Vec<ModelsMakefile>, targets: &[&str]) -> ModelsMakefile {
    ModelsMakefile { path: path.to_string(), include_files, targets: Targets(strings(targets)) }
}

#[test]
fn makefile_to_include_path_string_test() {
    let cases = vec![
        ("makefile with no include directive", parsed("path", vec![], &["test", "run"]), vec!["path"]),
        (
            "makefile with nested include directive",
            parsed(
                "path1",
                vec![parsed("path2", vec![parsed("path2-1", vec![], &[])], &[]), parsed("path3", vec![], &[])],
                &[],
            ),
            vec!["path1", "path2", "path2-1", "path3"],
        ),
    ];
    for (title, makefile, expect) in cases {
        let mut expect_string = strings(&expect);
        expect_string.sort();
        assert_eq!(expect_string, makefile.to_include_path_string(), "\nFailed: {:?}\n", title);
    }
}

#[test]
fn makefile_to_target_string_test() {
    let cases = vec![
        ("makefile with no target", parsed("path", vec![], &[]), vec![]),
        ("makefile with no include directive", parsed("path", vec![], &["test", "run"]), vec!["test", "run"]),
        (
            "makefile with nested include directive",
            parsed(
                "path1",
                vec![
                    parsed("path2", vec![parsed("path2-1", vec![], &["test2-1", "run2-1"])], &["test2", "run2"]),
                    parsed("path3", vec![], &["test3", "run3"]),
                ],
                &["test1", "run1"],
            ),
            vec!["test1", "run1", "test2", "run2", "test2-1", "run2-1", "test3", "run3"],
        ),
    ];
    for (title, makefile, expect) in cases {
        assert_eq!(strings(&expect), makefile.to_target_string(), "\nFailed: {:?}\n", title);
    }
}

#[test]
fn makefile_to_include_files_string_test() {
    let cases = vec![
        ("makefile with no include directive", models_makefile("path", vec![], &["test", "run"]), vec!["path"]),
        (
            "makefile with nested include directive",
            models_makefile("path1", vec![models_makefile("path2", vec![models_makefile("path2-1", vec![], &[])], &[]), models_makefile("path3", vec![], &[])], &[]),
            vec!["path1", "path2", "path2-1", "path3"],
        ),
    ];
    for (title, makefile, expect) in cases {
        let mut expect_string = strings(&expect);
        expect_string.sort();
        assert_eq!(expect_string, makefile.to_include_files_string(), "\nFailed: {:?}\n", title);
    }
}

#[test]
fn makefile_to_targets_string_test() {
    let cases = vec![
        ("makefile with no target", models_makefile("path", vec![], &[]), vec![]),
        ("makefile with no include directive", models_makefile("path", vec![], &["test", "run"]), vec!["test", "run"]),
        (
            "makefile with nested include directive",
            models_makefile(
                "path1",
                vec![
                    models_makefile("path2", vec![models_makefile("path2-1", vec![], &["test2-1", "run2-1"])], &["test2", "run2"]),
                    models_makefile("path3", vec![], &["test3", "run3"]),
                ],
                &["test1", "run1"],
            ),
            vec!["test1", "run1", "test2", "run2", "test2-1", "run2-1", "test3", "run3"],
        ),
    ];
    for (title, makefile, expect) in cases {
        assert_eq!(strings(&expect), makefile.to_targets_string(), "\nFailed: {:?}\n", title);
    }
}

#[test]
fn makefile_specify_makefile_name_test() {
    let cases = vec![
        ("no makefile", vec!["README.md"], None),
        ("GNUmakefile", vec!["makefile", "GNUmakefile", "README.md", "Makefile"], Some("GNUmakefile".to_string())),
        ("makefile", vec!["makefile", "Makefile", "README.md"], Some("makefile".to_string())),
    ];
    for (title, files, expect) in cases {
        assert_eq!(expect, Makefile::specify_makefile_name(strings(&files)), "\nFailed: {:?}\n", title);
    }
}

#[test]
fn parsed_makefile_from_content_reads_targets() {
    let m = Makefile::from_content("Makefile".to_string(), ".PHONY: a\nab:\n\techo\n".to_string(), vec![]);
    assert_eq!(strings(&["ab"]), m.targets);
}

#[test]
fn target_to_file_and_line_number_looks_into_included_files() {
    let makefile = ModelsMakefile {
        path: "Makefile".to_string(),
        include_files: vec![models_makefile("sub.mk", vec![], &["sub"])],
        targets: Targets(strings(&["main"])),
    };
    let contents = vec![
        ("Makefile".to_string(), "main:\n\techo\n".to_string()),
        ("sub.mk".to_string(), "\n\nsub:\n".to_string()),
    ];
    let main = "main".to_string();
    let sub = "sub".to_string();
    let none = "none".to_string();
    assert_eq!((Some("Makefile".to_string()), Some(1)), makefile.target_to_file_and_line_number(&Some(&main), &contents));
    assert_eq!((Some("sub.mk".to_string()), Some(3)), makefile.target_to_file_and_line_number(&Some(&sub), &contents));
    assert_eq!((None, None), makefile.target_to_file_and_line_number(&Some(&none), &contents));
    assert_eq!((None, None), makefile.target_to_file_and_line_number(&None, &contents));
}
