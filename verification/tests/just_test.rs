use fzf_make::model::command::{CommandForExec, CommandWithPreview};
use fzf_make::model::just::{CanonicalPaths, Just, Module, ModuleLookup, PossiblePaths, SyntaxItem, SyntaxNode};
use fzf_make::model::runner_type::RunnerType;

fn cmd(args: &str, line: u32) -> CommandWithPreview {
    CommandWithPreview::new(RunnerType::Just, args.to_string(), "justfile".to_string(), line)
}

fn parse_cases() -> Vec<(&'static str, &'static str, Option<Just>)> {
    vec![
        ("empty justfile", "", None),
        (
            "justfile with multiple recipes",
            r#"
#!/usr/bin/env -S just --justfile

test:
  cargo test --all

[group: 'misc']
run:
  echo run

[group: 'misc']
build:
  echo build

[group: 'misc']
fmt : # https://example.com
  echo fmt

[group: 'misc']
[private ]
fmt-private:
  echo fmt

# everyone's favorite animate paper clip
[group: 'check']
clippy:
  echo clippy
        "#,
            Some(Just {
                path: "justfile".to_string(),
                modules: vec![],
                commands: vec![cmd("test", 4), cmd("run", 8), cmd("build", 12), cmd("fmt", 16), cmd("clippy", 26)],
            }),
        ),
        (
            "justfile with recipes including a recipe with argument",
            r#"#!/usr/bin/env -S just --justfile

[group: 'misc']
run arg:
  echo "run {{arg}}"

[group: 'misc']
build:
  echo build
        "#,
            Some(Just { path: "justfile".to_string(), modules: vec![], commands: vec![cmd("run", 4), cmd("build", 8)] }),
        ),
    ]
}

#[test]
fn test_parse_justfile() {
    for (name, source, expected) in parse_cases() {
        assert_eq!(expected, Just::parse_justfile("FIXME_PATH".to_string(), "justfile".to_string(), source.to_string(), vec![]), "{}", name);
    }
}

#[test]
fn test_parse_justfile_retrieve_mod_recursively() {
    for (name, source, expected) in parse_cases() {
        assert_eq!(expected, Just::parse_justfile("FIXME_PATH".to_string(), "justfile".to_string(), source.to_string(), vec![]), "{}", name);
    }
}

#[test]
fn test_parse_justfile_parse_mod_directive() {
    let cases: Vec<(&str, &str, Vec<(String, Option<String>)>)> = vec![
        ("no mod directive", "a:\n  echo a\n", vec![]),
        ("mod with a name", "mod backend\n", vec![("backend".to_string(), None)]),
        (
            "mod with a name and a path",
            "mod api \"./services/api\"\nmod? docs 'docs.just'\n",
            vec![
                ("api".to_string(), Some("./services/api".to_string())),
                ("docs".to_string(), Some("docs.just".to_string())),
            ],
        ),
    ];
    for (name, source, expected) in cases {
        assert_eq!(expected, Just::mod_directives_of(source.to_string()), "{}", name);
    }
}

#[test]
fn test_calc_justfile_path_from_mod_info() {
    let cases = vec![
        (
            "mod_path == None",
            "/tmp/test_dir",
            "backend",
            None,
            PossiblePaths {
                current: "/tmp/test_dir/backend.just".to_string(),
                child: vec![
                    "/tmp/test_dir/backend/mod.just".to_string(),
                    "/tmp/test_dir/backend/justfile".to_string(),
                    "/tmp/test_dir/backend/.justfile".to_string(),
                ],
            },
        ),
        (
            "mod_path == Some(rel_path)",
            "/tmp/test_dir",
            "backend",
            Some("./backend".to_string()),
            PossiblePaths {
                current: "/tmp/test_dir/backend".to_string(),
                child: vec![
                    "/tmp/test_dir/backend/mod.just".to_string(),
                    "/tmp/test_dir/backend/justfile".to_string(),
                    "/tmp/test_dir/backend/.justfile".to_string(),
                ],
            },
        ),
        (
            "mod_path == Some(abs_path)",
            "/tmp/test_dir",
            "backend",
            Some("/Users/user/backend".to_string()),
            PossiblePaths {
                current: "/Users/user/backend".to_string(),
                child: vec![
                    "/Users/user/backend/mod.just".to_string(),
                    "/Users/user/backend/justfile".to_string(),
                    "/Users/user/backend/.justfile".to_string(),
                ],
            },
        ),
    ];
    for (name, current_dir, mod_name, mod_path, expected) in cases {
        assert_eq!(
            expected,
            Just::calc_possible_justfile_path_from_mod_info(current_dir.to_string(), mod_name.to_string(), &mod_path, &unresolved()),
            "{}",
            name
        );
    }
}

fn node(kind: &str, text: &str, row: usize) -> SyntaxNode {
    SyntaxNode { kind: Some(kind.to_string()), text: Some(text.to_string()), row: Some(row) }
}

#[test]
fn commands_come_from_public_recipes_only() {
    let items = vec![
        SyntaxItem {
            kind: Some("recipe".to_string()),
            child_texts: vec![Some("[private]".to_string())],
            members: vec![node("recipe_header", "hidden:", 0)],
        },
        SyntaxItem {
            kind: Some("recipe".to_string()),
            child_texts: vec![Some("deploy env:".to_string())],
            members: vec![node("attribute", "[group: 'x']", 2), node("recipe_header", "deploy env:", 3)],
        },
        SyntaxItem {
            kind: Some("setting".to_string()),
            child_texts: vec![],
            members: vec![node("recipe_header", "not-a-recipe:", 5)],
        },
    ];
    let just = Just::from_items("/proj".to_string(), "justfile".to_string(), &items, vec![]).unwrap();
    assert_eq!(vec![cmd("deploy", 4)], just.to_commands());
    assert_eq!(None, Just::from_items("/proj".to_string(), "justfile".to_string(), &items[..1].iter().map(|i| SyntaxItem {
        kind: i.kind.clone(),
        child_texts: i.child_texts.clone(),
        members: vec![node("recipe_header", "hidden:", 0)],
    }).collect::<Vec<_>>(), vec![]));
}

#[test]
fn recipe_name_is_the_first_word_before_the_colon() {
    assert_eq!("run", fzf_make::model::just::recipe_name_of(&"run arg:".to_string()));
    assert_eq!("fmt", fzf_make::model::just::recipe_name_of(&"fmt : # comment".to_string()));
    assert_eq!("", fzf_make::model::just::recipe_name_of(&":".to_string()));
}

#[test]
fn just_new_reports_missing_and_unparsable_justfiles() {
    assert_eq!(Err("justfile not found".to_string()), Just::new(".".to_string(), None, vec![]));
    assert_eq!(Err("failed to parse justfile".to_string()), Just::new(".".to_string(), Some(("justfile".to_string(), "".to_string())), vec![]));
    let just = Just::new(".".to_string(), Some(("justfile".to_string(), "a:\n  echo\n".to_string())), vec![]).unwrap();
    assert_eq!("justfile", just.path());
    let c = CommandForExec { runner_type: RunnerType::Just, args: "a x".to_string() };
    assert_eq!("just a x", just.command_to_run(&c));
}

fn names(v: &[&str]) -> Vec<String> {
    v.iter().map(|s| s.to_string()).collect()
}

#[test]
fn module_justfile_is_the_module_file_when_it_is_one() {
    assert_eq!(
        Some("/proj/backend.just".to_string()),
        Just::get_mod_file_path("/proj".to_string(), "backend".to_string(), None, unresolved(), true, None)
    );
    assert_eq!(
        Some("/proj/api".to_string()),
        Just::get_mod_file_path("/proj".to_string(), "backend".to_string(), Some("./api".to_string()), unresolved(), true, None)
    );
}

#[test]
fn module_justfile_is_found_in_the_module_directory() {
    assert_eq!(
        Some("/proj/backend/Justfile".to_string()),
        Just::get_mod_file_path(
            "/proj".to_string(),
            "backend".to_string(),
            None,
            unresolved(),
            false,
            Some(names(&["README.md", "Justfile", "mod.just"]))
        )
    );
    assert_eq!(
        Some("/proj/api/mod.just".to_string()),
        Just::get_mod_file_path(
            "/proj".to_string(),
            "backend".to_string(),
            Some("api".to_string()),
            unresolved(),
            false,
            Some(names(&["mod.just"]))
        )
    );
    assert_eq!(
        None,
        Just::get_mod_file_path("/proj".to_string(), "backend".to_string(), None, unresolved(), false, Some(names(&["main.rs"])))
    );
    assert_eq!(None, Just::get_mod_file_path("/proj".to_string(), "backend".to_string(), None, unresolved(), false, None));
    assert_eq!(
        "/proj/backend",
        Just::module_dir(&"/proj".to_string(), &"backend".to_string(), &None)
    );
    assert_eq!("/abs", Just::module_dir(&"/proj".to_string(), &"backend".to_string(), &Some("/abs".to_string())));
}

fn unresolved() -> CanonicalPaths {
    CanonicalPaths { dir: None, current: None, found: None }
}

fn canon(dir: Option<&str>, current: Option<&str>, found: Option<&str>) -> CanonicalPaths {
    CanonicalPaths {
        dir: dir.map(|p| p.to_string()),
        current: current.map(|p| p.to_string()),
        found: found.map(|p| p.to_string()),
    }
}

#[test]
fn test_get_mod_file_path() {
    // The test directory is reached through a symbolic link, as the temporary directory is on
    // some systems: the file system reports the paths under `r` as canonical.
    let t = "/tmp/fzf_make_test_get_mod_file_path";
    let r = "/private/tmp/fzf_make_test_get_mod_file_path";
    let at = |p: &str| format!("{}/{}", r, p);
    let cases: Vec<(Option<&str>, CanonicalPaths, bool, Option<Vec<String>>, Option<String>)> = vec![
        // mod_path is None, and backend.just exists
        (None, canon(None, Some(&at("backend.just")), None), true, None, Some(at("backend.just"))),
        // mod_path is None, backend.just doesn't exist, but backend/mod.just exists
        (
            None,
            canon(Some(&at("backend")), None, Some(&at("backend/mod.just"))),
            false,
            Some(names(&["mod.just"])),
            Some(at("backend/mod.just")),
        ),
        // backend/justfile exists
        (
            None,
            canon(Some(&at("backend")), None, Some(&at("backend/justfile"))),
            false,
            Some(names(&["justfile"])),
            Some(at("backend/justfile")),
        ),
        // backend/.justfile exists
        (
            None,
            canon(Some(&at("backend")), None, Some(&at("backend/.justfile"))),
            false,
            Some(names(&[".justfile"])),
            Some(at("backend/.justfile")),
        ),
        // mod_path is a relative path to a file
        (Some("./api.just"), canon(Some(&at("api.just")), Some(&at("api.just")), None), true, None, Some(at("api.just"))),
        // mod_path is a relative path to a directory with mod.just, justfile or .justfile
        (
            Some("./api"),
            canon(Some(&at("api")), Some(&at("api")), Some(&at("api/mod.just"))),
            false,
            Some(names(&["mod.just"])),
            Some(at("api/mod.just")),
        ),
        (
            Some("./api"),
            canon(Some(&at("api")), Some(&at("api")), Some(&at("api/justfile"))),
            false,
            Some(names(&["justfile"])),
            Some(at("api/justfile")),
        ),
        (
            Some("./api"),
            canon(Some(&at("api")), Some(&at("api")), Some(&at("api/.justfile"))),
            false,
            Some(names(&[".justfile"])),
            Some(at("api/.justfile")),
        ),
        // the name of the justfile is matched without regard to case, and kept as it is
        (
            None,
            canon(Some(&at("backend")), None, Some(&at("backend/Justfile"))),
            false,
            Some(names(&["Justfile"])),
            Some(at("backend/Justfile")),
        ),
        (
            None,
            canon(Some(&at("backend")), None, Some(&at("backend/.Justfile"))),
            false,
            Some(names(&[".Justfile"])),
            Some(at("backend/.Justfile")),
        ),
        // an absolute mod_path to a file is kept as written; a directory is looked into at its
        // canonical path
        (Some("/abs/api.just"), canon(Some("/real/api.just"), Some("/real/api.just"), None), true, None, Some("/abs/api.just".to_string())),
        (
            Some("/abs/api"),
            canon(Some("/real/api"), Some("/real/api"), Some("/real/api/mod.just")),
            false,
            Some(names(&["mod.just"])),
            Some("/real/api/mod.just".to_string()),
        ),
        // paths that cannot be made canonical stay as they are joined
        (None, unresolved(), true, None, Some(format!("{}/backend.just", t))),
        (Some("./api"), unresolved(), false, Some(names(&["justfile"])), Some(format!("{}/api/justfile", t))),
        // no matching file exists
        (None, unresolved(), false, None, None),
    ];
    for (mod_path, canonical, current_is_file, entries, expected) in cases {
        assert_eq!(
            expected,
            Just::get_mod_file_path(
                t.to_string(),
                "backend".to_string(),
                mod_path.map(|p| p.to_string()),
                canonical,
                current_is_file,
                entries
            )
        );
    }
}

#[test]
fn possible_paths_are_taken_from_the_canonical_module_directory() {
    let canonical = canon(Some("/private/tmp/d/backend"), Some("/private/tmp/d/backend.just"), None);
    assert_eq!(
        PossiblePaths {
            current: "/private/tmp/d/backend.just".to_string(),
            child: vec![
                "/private/tmp/d/backend/mod.just".to_string(),
                "/private/tmp/d/backend/justfile".to_string(),
                "/private/tmp/d/backend/.justfile".to_string(),
            ],
        },
        Just::calc_possible_justfile_path_from_mod_info("/tmp/d".to_string(), "backend".to_string(), &None, &canonical)
    );
    // Without a path, the first file is `{base}.just` taken from the canonical directory.
    assert_eq!(
        "/private/tmp/d/backend.just",
        Just::module_file_candidate(
            &"/tmp/d".to_string(),
            &"backend".to_string(),
            &None,
            &Some("/private/tmp/d/backend".to_string())
        )
    );
    assert_eq!("/tmp/d/backend", Just::module_dir(&"/tmp/d".to_string(), &"backend".to_string(), &None));
    assert_eq!(
        "/real/api",
        Just::module_target(&"/tmp/d".to_string(), &"backend".to_string(), &Some("/abs/api".to_string()), &Some("/real/api".to_string()))
    );
    assert_eq!(
        Some("/real/api/Justfile".to_string()),
        Just::module_dir_justfile(&"/real/api".to_string(), &names(&["x", "Justfile"]))
    );
}

#[test]
fn justfile_with_only_modules_lists_the_modules_recipes() {
    let backend = module_just("/proj", "/proj/backend.just", "test:\n  echo\n", vec![]);
    let lookups = vec![ModuleLookup { canonical: unresolved(), current_is_file: true, dir_entries: None, justfile: Some(backend) }];
    let just = Just::new(
        "/proj".to_string(),
        Some(("/proj/justfile".to_string(), "mod backend\n".to_string())),
        lookups,
    )
    .unwrap();
    assert_eq!(vec![listed("backend::test", "/proj/backend.just", 1)], just.to_commands());
    // With no module resolved, nothing is listed.
    let unresolved_lookups = vec![ModuleLookup { canonical: unresolved(), current_is_file: false, dir_entries: None, justfile: None }];
    assert_eq!(
        Err("failed to parse justfile".to_string()),
        Just::new("/proj".to_string(), Some(("/proj/justfile".to_string(), "mod backend\n".to_string())), unresolved_lookups)
    );
}

fn module_just(current_dir: &str, path: &str, source: &str, lookups: Vec<ModuleLookup>) -> Just {
    Just::parse_justfile(current_dir.to_string(), path.to_string(), source.to_string(), lookups).unwrap()
}

fn listed(runner_args: &str, path: &str, line: u32) -> CommandWithPreview {
    CommandWithPreview::new(RunnerType::Just, runner_args.to_string(), path.to_string(), line)
}

#[test]
fn recipes_of_a_module_are_listed_after_the_root_ones() {
    let backend = || module_just("/proj", "/proj/backend.just", "test:\n  echo\n[private]\nhidden:\n  echo\n", vec![]);
    let lookups = vec![ModuleLookup { canonical: unresolved(), current_is_file: true, dir_entries: None, justfile: Some(backend()) }];
    let just = module_just("/proj", "/proj/justfile", "mod backend\nbuild:\n  echo\n", lookups);
    assert_eq!(vec![Module { mod_name: "backend".to_string(), content: backend() }], just.modules);
    assert_eq!(
        vec![listed("build", "/proj/justfile", 2), listed("backend::test", "/proj/backend.just", 1)],
        just.to_commands()
    );
}

#[test]
fn module_in_a_directory_is_found_by_its_entries() {
    let api = module_just("/proj/api", "/proj/api/Justfile", "serve:\n  echo\n", vec![]);
    let lookups = vec![ModuleLookup {
        canonical: unresolved(),
        current_is_file: false,
        dir_entries: Some(names(&["src", "Justfile"])),
        justfile: Some(api),
    }];
    let just = Just::new(
        "/proj".to_string(),
        Some(("/proj/justfile".to_string(), "mod api \"./api\"\nbuild:\n  echo\n".to_string())),
        lookups,
    )
    .unwrap();
    assert_eq!(
        vec![listed("build", "/proj/justfile", 2), listed("api::serve", "/proj/api/Justfile", 1)],
        just.to_commands()
    );
}

#[test]
fn module_whose_justfile_is_not_the_resolved_file_is_left_out() {
    let other = || module_just("/proj", "/proj/other.just", "test:\n  echo\n", vec![]);
    let not_found = vec![ModuleLookup { canonical: unresolved(), current_is_file: false, dir_entries: None, justfile: Some(other()) }];
    let just = module_just("/proj", "/proj/justfile", "mod backend\nbuild:\n  echo\n", not_found);
    assert_eq!(vec![listed("build", "/proj/justfile", 2)], just.to_commands());
    let mismatched = vec![ModuleLookup { canonical: unresolved(), current_is_file: true, dir_entries: None, justfile: Some(other()) }];
    let just = module_just("/proj", "/proj/justfile", "mod backend\nbuild:\n  echo\n", mismatched);
    assert!(just.modules.is_empty());
    let missing = vec![ModuleLookup { canonical: unresolved(), current_is_file: true, dir_entries: None, justfile: None }];
    let just = module_just("/proj", "/proj/justfile", "mod backend\nbuild:\n  echo\n", missing);
    assert_eq!(vec![listed("build", "/proj/justfile", 2)], just.to_commands());
}

#[test]
fn recipes_of_nested_modules_carry_each_module_name() {
    let db = module_just("/proj/backend", "/proj/backend/db.just", "migrate:\n  echo\n", vec![]);
    let backend = module_just(
        "/proj/backend",
        "/proj/backend/mod.just",
        "mod db\ntest:\n  echo\n",
        vec![ModuleLookup { canonical: unresolved(), current_is_file: true, dir_entries: None, justfile: Some(db) }],
    );
    let lookups = vec![ModuleLookup {
        canonical: unresolved(),
        current_is_file: false,
        dir_entries: Some(names(&["mod.just"])),
        justfile: Some(backend),
    }];
    let just = module_just("/proj", "/proj/justfile", "mod backend\nbuild:\n  echo\n", lookups);
    assert_eq!(
        vec![
            listed("build", "/proj/justfile", 2),
            listed("backend::test", "/proj/backend/mod.just", 2),
            listed("backend::db::migrate", "/proj/backend/db.just", 1),
        ],
        just.to_commands()
    );
}

#[test]
fn quotes_around_a_module_path_are_removed() {
    assert_eq!("a/b", fzf_make::model::just::trim_quotes(&"\"'a/b'\"".to_string()));
    assert_eq!("", fzf_make::model::just::trim_quotes(&"''".to_string()));
    assert_eq!("x", fzf_make::model::just::trim_quotes(&"x".to_string()));
}
