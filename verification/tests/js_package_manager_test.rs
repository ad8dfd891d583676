use fzf_make::model::command::CommandWithPreview;
use fzf_make::model::js_package_manager::{
    detect, parse_package_json, Npm, PackageManager, Pnpm, WorkspacePackage, Yarn, YarnVersion,
};
use fzf_make::model::runner_type::{JsPackageManager, RunnerType};
use fzf_make::model::pnpm::Pnpm as LonePnpm;
use fzf_make::model::js_package_manager::{package_json_commands, JsPackageManager as LockfileJsRunner};

#[test]
fn npm_test_script_args() {
    assert_eq!("run build", Npm.root_script_args("build"));
    assert_eq!("run build --workspace=app1", Npm.workspace_script_args("app1", "build"));
}

#[test]
fn pnpm_test_script_args() {
    assert_eq!("build", Pnpm.root_script_args("build"));
    assert_eq!("--filter app1 build", Pnpm.workspace_script_args("app1", "build"));
}

#[test]
fn yarn_test_script_args() {
    assert_eq!("build", Yarn.root_script_args("build"));
    assert_eq!("workspace app1 build", Yarn.workspace_script_args("app1", "build"));
}

#[test]
fn pnpm_test_is_filtering() {
    // The scripts that pnpm hides from the list.
    assert_eq!(true, Pnpm::use_filtering("pnpm -F app1"));
    assert_eq!(true, Pnpm::use_filtering("pnpm -F \"app1\""));
    assert_eq!(true, Pnpm::use_filtering("pnpm --filter app2"));
    assert_eq!(true, Pnpm::use_filtering("pnpm -r --filter app3"));
    assert_eq!(true, Pnpm::use_filtering("pnpm -C packages/app3"));
    assert_eq!(true, Pnpm::use_filtering("pnpm --dir packages/app3"));
    assert_eq!(true, Pnpm::use_filtering("pnpm -F"));
    assert_eq!(true, Pnpm::use_filtering("pnpm --filter"));
    assert_eq!(false, Pnpm::use_filtering("pnpm -C packages/app1 run test"));
    assert_eq!(false, Pnpm::use_filtering("pnpm --filter app1 run test"));
    assert_eq!(false, Pnpm::use_filtering("yarn run"));
    assert_eq!(false, Pnpm::use_filtering("pnpm run"));
    assert_eq!(false, Pnpm::use_filtering("pnpm -r hoge"));
    assert_eq!(false, Pnpm::use_filtering("yarn -r --filter app3"));

    // The lone pnpm runner: a filter option followed by a package.
    assert_eq!(true, LonePnpm::use_filtering("pnpm -F app1".to_string()));
    assert_eq!(true, LonePnpm::use_filtering("pnpm --filter app2".to_string()));
    assert_eq!(true, LonePnpm::use_filtering("pnpm -r --filter app3".to_string()));
    assert_eq!(false, LonePnpm::use_filtering("pnpm --filter".to_string()));
    assert_eq!(false, LonePnpm::use_filtering("pnpm -F".to_string()));
    assert_eq!(false, LonePnpm::use_filtering("yarn run".to_string()));
    assert_eq!(false, LonePnpm::use_filtering("pnpm run".to_string()));
    assert_eq!(false, LonePnpm::use_filtering("pnpm -r hoge".to_string()));
}

#[test]
fn test_is_pnpm_version_11_or_higher() {
    assert_eq!(false, Pnpm::is_pnpm_version_11_or_higher("7.0.0"));
    assert_eq!(false, Pnpm::is_pnpm_version_11_or_higher("10.9.9"));
    assert_eq!(true, Pnpm::is_pnpm_version_11_or_higher("11.0.0"));
    assert_eq!(true, Pnpm::is_pnpm_version_11_or_higher("11.0.1"));
    assert_eq!(true, Pnpm::is_pnpm_version_11_or_higher("12.0.0"));
}

#[test]
fn pnpm_version_edge_cases() {
    assert_eq!(false, Pnpm::is_pnpm_version_11_or_higher("unknown"));
    assert_eq!(true, Pnpm::is_pnpm_version_11_or_higher("+11"));
    assert_eq!(false, Pnpm::is_pnpm_version_11_or_higher("99999999999.0.0"));
    assert_eq!(true, Pnpm::is_hidden_script(".internal", "11.2.0"));
    assert_eq!(false, Pnpm::is_hidden_script(".internal", "10.2.0"));
    assert_eq!(false, Pnpm::is_hidden_script("internal", "11.2.0"));
}

#[test]
fn js_package_manager_main_test_parse_package_json() {
    let cases: Vec<(&str, &str, Option<(String, Vec<(String, String, u32)>)>)> = vec![
        (
            "valid json can be parsed successfully",
            r#"{
      "name": "project",
      "version": "1.0.0",
      "private": true,
      "scripts": {
        "build": "echo build",
        "start": "echo start",
        "test": "echo test"
      },
      "devDependencies": {
        "@babel/cli": "7.12.10"
      },
      "dependencies": {
        "firebase": "^8.6.8"
      }
    }
                        "#,
            Some((
                "project".to_string(),
                vec![
                    ("build".to_string(), "echo build".to_string(), 6),
                    ("start".to_string(), "echo start".to_string(), 7),
                    ("test".to_string(), "echo test".to_string(), 8),
                ],
            )),
        ),
        ("empty vec(empty string)", "", None),
        ("empty vec(invalid json)", "not a json format", None),
    ];
    for (title, content, expected) in cases {
        assert_eq!(expected, parse_package_json(&content.to_string()), "\nfailed: {:?}\n", title);
    }
}

const ROOT_PACKAGE_JSON: &str = r#"{
  "name": "root",
  "scripts": {
    "build": "echo build",
    "app1": "pnpm -F app1",
    ".hidden": "echo hidden"
  }
}"#;

#[test]
fn test_detect() {
    let names = |v: &[&str]| v.iter().map(|s| s.to_string()).collect::<Vec<String>>();
    let cases = vec![
        (
            "npm is detected in the root of a workspace",
            PackageManager::Npm,
            "test_data/npm",
            names(&["package.json", "package-lock.json"]),
            false,
            true,
        ),
        ("npm is not detected without package.json", PackageManager::Npm, "/tmp", names(&["README.md"]), false, false),
        (
            "npm is not detected when the lockfile exists neither in the current dir nor in the ancestors",
            PackageManager::Npm,
            "/tmp",
            names(&["package.json"]),
            false,
            false,
        ),
        (
            "pnpm is detected in the root of a workspace",
            PackageManager::Pnpm,
            "test_data/pnpm",
            names(&["package.json", "pnpm-lock.yaml"]),
            false,
            true,
        ),
        (
            "pnpm is not detected in a directory which npm manages",
            PackageManager::Pnpm,
            "test_data/npm",
            names(&["package.json", "package-lock.json"]),
            false,
            false,
        ),
    ];
    for (title, pm, dir, files, member, expected_is_some) in cases {
        let found = detect(pm, dir.to_string(), &files, member, Some(ROOT_PACKAGE_JSON.to_string()), None, &"10.0.0".to_string());
        assert_eq!(expected_is_some, found.is_some(), "\nfailed: {:?}\n", title);
    }
}

#[test]
fn detect_collects_the_scripts_of_the_workspace() {
    let files = vec!["package.json".to_string(), "pnpm-lock.yaml".to_string()];
    let packages = vec![
        WorkspacePackage { path: "/w/package.json".to_string(), is_current: true, content: Some(ROOT_PACKAGE_JSON.to_string()) },
        WorkspacePackage {
            path: "/w/packages/app1/package.json".to_string(),
            is_current: false,
            content: Some("{\"name\": \"app1\", \"scripts\": {\"dev\": \"vite\"}}".to_string()),
        },
        WorkspacePackage { path: "/w/packages/broken/package.json".to_string(), is_current: false, content: None },
    ];
    let runner = detect(
        PackageManager::Pnpm,
        "/w".to_string(),
        &files,
        false,
        Some(ROOT_PACKAGE_JSON.to_string()),
        Some(packages),
        &"11.1.0".to_string(),
    )
    .unwrap();
    let pnpm = RunnerType::JsPackageManager(JsPackageManager::Pnpm);
    assert_eq!(
        vec![
            CommandWithPreview::new(pnpm, "build".to_string(), "/w/package.json".to_string(), 4),
            CommandWithPreview::new(pnpm, "--filter app1 dev".to_string(), "/w/packages/app1/package.json".to_string(), 1),
        ],
        runner.to_commands()
    );
    // A workspace member lists its own scripts only.
    let member = detect(
        PackageManager::Npm,
        "/w/packages/app1".to_string(),
        &vec!["package.json".to_string()],
        true,
        Some("{\"name\": \"app1\", \"scripts\": {\"dev\": \"vite\"}}".to_string()),
        None,
        &"".to_string(),
    )
    .unwrap();
    assert_eq!(
        vec![CommandWithPreview::new(
            RunnerType::JsPackageManager(JsPackageManager::Npm),
            "run dev".to_string(),
            "/w/packages/app1/package.json".to_string(),
            1
        )],
        member.to_commands()
    );
}

#[test]
fn workspace_outputs_are_read() {
    assert_eq!(
        vec!["/a/app1/package.json".to_string(), "/a/app2/package.json".to_string()],
        Pnpm::workspace_package_json_paths(&"/a/app1\n/a/app2\n".to_string())
    );
    assert_eq!(YarnVersion::V1, Yarn::version_of(&"1.22.22\n".to_string()));
    assert_eq!(YarnVersion::V2OrLater, Yarn::version_of(&"4.1.0\n".to_string()));
    assert_eq!("info", Yarn::workspaces_subcommand(YarnVersion::V1));
    assert_eq!(
        Some("{  \"app1\": {}}".to_string()),
        Yarn::workspaces_json_for_v1(&"yarn workspaces v1.22.22\n{\n  \"app1\": {}\n}\nDone in 0.01s.\n".to_string())
    );
    assert_eq!(None, Yarn::workspaces_json_for_v1(&"x\n".to_string()));
}

#[test]
fn lone_pnpm_runner_lists_root_and_package_scripts() {
    let scripts = vec![
        ("build".to_string(), "tsc".to_string(), 3),
        ("app1".to_string(), "pnpm -F app1".to_string(), 4),
    ];
    let packages = vec![("/r/packages/app1/package.json".to_string(), "{\"name\": \"app1\", \"scripts\": {\"dev\": \"vite\"}}".to_string())];
    let pnpm = RunnerType::JsPackageManager(JsPackageManager::Pnpm);
    let commands = LonePnpm::scripts_to_commands("/r".to_string(), ("root".to_string(), scripts), &packages);
    assert_eq!(
        vec![
            CommandWithPreview::new(pnpm, "build".to_string(), "/r/package.json".to_string(), 3),
            CommandWithPreview::new(pnpm, "--filter app1 dev".to_string(), "/r/packages/app1/package.json".to_string(), 1),
        ],
        commands
    );
    let lone = LonePnpm::new("/r".to_string(), commands.clone());
    assert_eq!(Ok("pnpm build".to_string()), lone.command_to_run(&commands[0]));
    assert_eq!(
        Err("command not found".to_string()),
        lone.command_to_run(&CommandWithPreview::new(pnpm, "x".to_string(), "".to_string(), 1))
    );
    assert_eq!(Some(&commands[1]), lone.get_command(&commands[1]));
    assert_eq!(None, lone.get_command(&CommandWithPreview::new(pnpm, "build".to_string(), "/r/package.json".to_string(), 4)));
    assert!(LonePnpm::use_pnpm("pnpm-lock.yaml".to_string()));
    assert!(!LonePnpm::use_pnpm("yarn.lock".to_string()));
}

#[test]
fn js_package_manager_test_parse_package_json() {
    let pnpm = RunnerType::JsPackageManager(JsPackageManager::Pnpm);
    let cmd = |args: &str, line: u32| CommandWithPreview::new(pnpm, args.to_string(), "package.json".to_string(), line);
    let cases = vec![
        (
            "valid json can be parsed successfully",
            r#"{
  "name": "project",
  "version": "1.0.0",
  "private": true,
  "scripts": {
    "build": "echo build",
    "start": "echo start",
    "test": "echo test"
  },
  "devDependencies": {
    "@babel/cli": "7.12.10"
  },
  "dependencies": {
    "firebase": "^8.6.8"
  }
}
                    "#,
            vec![cmd("build", 6), cmd("start", 7), cmd("test", 8)],
        ),
        ("empty vec(empty string)", "", vec![]),
        ("empty vec(invalid json)", "not a json format", vec![]),
    ];
    for (title, content, expected) in cases {
        assert_eq!(expected, package_json_commands(&content.to_string(), pnpm), "\nfailed: 🚨{:?}🚨\n", title);
    }
}

#[test]
fn lockfile_js_runner_is_pnpm_with_its_lockfile() {
    let content = r#"{ "scripts": { "build": 1, "dev": "vite" } }"#.to_string();
    let names = vec!["package.json".to_string(), "pnpm-lock.yaml".to_string()];
    let runner = LockfileJsRunner::new("/p".to_string(), names.clone(), Some(content)).unwrap();
    assert_eq!("/p/package.json", runner.path());
    let commands = runner.to_commands();
    assert_eq!(vec!["build".to_string(), "dev".to_string()], commands.iter().map(|c| c.args.clone()).collect::<Vec<_>>());
    assert_eq!(Ok("pnpm dev".to_string()), runner.command_to_run(&commands[1]));
    let other = CommandWithPreview::new(RunnerType::Make, "dev".to_string(), "package.json".to_string(), 1);
    assert_eq!(Err("command not found".to_string()), runner.command_to_run(&other));
    assert_eq!("runbuild", runner.command_name_to_args("build"));
    assert_eq!(RunnerType::JsPackageManager(JsPackageManager::Pnpm), runner.to_runner_type());
    assert_eq!(None, LockfileJsRunner::new("/p".to_string(), names, None));
    assert_eq!(None, LockfileJsRunner::new("/p".to_string(), vec!["package.json".to_string()], Some("{}".to_string())));
}

#[test]
fn script_lines_count_newlines_before_the_key_in_bytes() {
    // Multi-byte characters before a key take several bytes but do not start lines; the
    // scripts come in the order of their keys.
    let content = "{\"name\": \"日本語\",\n \"scripts\": {\n  \"build\": \"x\", \"é\": \"y\"\n,\n\"test\": \"z\"}}";
    let expected = Some((
        "日本語".to_string(),
        vec![
            ("build".to_string(), "x".to_string(), 3),
            ("test".to_string(), "z".to_string(), 5),
            ("é".to_string(), "y".to_string(), 3),
        ],
    ));
    assert_eq!(expected, parse_package_json(&content.to_string()));
}
