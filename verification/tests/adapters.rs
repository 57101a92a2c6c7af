use std::path::{Path, PathBuf};

use capsule::adapters::node::{
    entry_file_names, linked_project_entry, linked_project_root, lock_needs_update, node_after_run,
    node_install_targets, node_runtime, package_main, parse_module_not_found,
    preferred_package_script, project_node_modules_path, select_npm_versions,
};
use capsule::adapters::python::{
    canonical, parse_module_not_found as python_missing, python_after_run, python_bin,
    python_command_candidates, python_install_targets, python_runtime, select_frozen,
    unknown_packages, PythonAdapter, PythonCommand,
};
use capsule::adapters::run::{RunAttempt, RunDecision, RunResult};
use capsule::adapters::typescript::{
    lock_needs_update as ts_lock_needs_update, tsx_bin, typescript_install_targets,
    typescript_script_args, workspace_entry, TypeScriptAdapter,
};
use capsule::command::Platform;
use capsule::detector::{Language, Project};
use capsule::error::CapsuleError;
use capsule::lockfile::{CapsuleLock, Package, PackageMap, Runtime};
use capsule::util::json::JsonValue;
use capsule::util::paths::FsPath;

fn fs_path(path: &Path) -> FsPath {
    FsPath {
        components: path
            .components()
            .map(|c| c.as_os_str().to_string_lossy().into_owned())
            .collect(),
    }
}

fn to_path_buf(path: &FsPath) -> PathBuf {
    path.components.iter().collect()
}

fn strings(items: &[&str]) -> Vec<String> {
    items.iter().map(|s| s.to_string()).collect()
}

fn lock_with(language: Language, runtime_version: &str, pins: &[(&str, &str)]) -> CapsuleLock {
    let mut packages = PackageMap::new();
    for (name, version) in pins {
        packages.insert(
            name.to_string(),
            Package {
                version: version.to_string(),
            },
        );
    }
    CapsuleLock {
        version: 1,
        project_hash: "hash".to_string(),
        language,
        runtime: Runtime {
            name: "node".to_string(),
            version: runtime_version.to_string(),
        },
        packages,
    }
}

fn object(members: Vec<(&str, JsonValue)>) -> JsonValue {
    JsonValue::Object(
        members
            .into_iter()
            .map(|(k, v)| (k.to_string(), v))
            .collect(),
    )
}

#[test]
fn parses_node_missing_module() {
    assert_eq!(
        parse_module_not_found("Error: Cannot find module '@scope/pkg/sub'"),
        Some("@scope/pkg".into())
    );
}

#[test]
fn node_missing_module_variants() {
    assert_eq!(
        parse_module_not_found("Error [ERR_MODULE_NOT_FOUND]: Cannot find package 'zod' imported from x"),
        Some("zod".into())
    );
    assert_eq!(parse_module_not_found("Cannot find module './local'"), None);
    assert_eq!(parse_module_not_found("Cannot find module \"../up\""), None);
    assert_eq!(parse_module_not_found("TypeError: x is not a function"), None);
}

#[test]
fn computes_project_node_modules_path() {
    let project_link = Path::new("C:/Users/example/.capsule/node/envs/hash/project");
    assert_eq!(
        to_path_buf(&project_node_modules_path(&fs_path(project_link))),
        project_link.join("node_modules")
    );
}

#[test]
fn node_install_targets_ignore_stale_lock_packages() {
    let lock = lock_with(
        Language::Node,
        "22.0.0",
        &[("express", "5.2.1"), ("body-parser", "2.2.2")],
    );
    assert_eq!(
        node_install_targets(&["express".to_string()], Some(&lock)),
        vec!["express@5.2.1".to_string()]
    );
    assert!(lock_needs_update(Some(&lock), &["express".to_string()]));
}

#[test]
fn node_lock_is_current_when_it_pins_exactly_the_scanned_packages() {
    let lock = lock_with(Language::Node, "22.0.0", &[("express", "5.2.1")]);
    assert!(!lock_needs_update(Some(&lock), &["express".to_string()]));
    assert!(lock_needs_update(None, &["express".to_string()]));
    assert!(lock_needs_update(Some(&lock), &["zod".to_string()]));
}

#[test]
fn linked_paths_live_in_the_environment() {
    let env = fs_path(Path::new("/home/u/.capsule/node/envs/abc"));
    let root = fs_path(Path::new("/work/app"));
    let project = Project {
        input: fs_path(Path::new("/work/app/src/index.js")),
        root: root.duplicate(),
        language: Language::Node,
        entry: None,
        is_file: false,
    };
    assert_eq!(
        to_path_buf(&linked_project_root(&env)),
        PathBuf::from("/home/u/.capsule/node/envs/abc/project")
    );
    let entry = fs_path(Path::new("/work/app/src/index.js"));
    let linked = linked_project_entry(&project, &env, &entry).unwrap();
    assert_eq!(
        to_path_buf(&linked),
        PathBuf::from("/home/u/.capsule/node/envs/abc/project/src/index.js")
    );
    let outside = fs_path(Path::new("/elsewhere/index.js"));
    assert_eq!(
        linked_project_entry(&project, &env, &outside).err(),
        Some(CapsuleError::EntryOutsideRoot)
    );
}

#[test]
fn node_runtime_strips_the_v() {
    let r = node_runtime(Some("v22.1.0".to_string()));
    assert_eq!(r.name, "node");
    assert_eq!(r.version, "22.1.0");
    assert_eq!(node_runtime(None).version, "unknown");
}

#[test]
fn node_run_decisions() {
    let ok = RunResult {
        code: 0,
        stderr: String::new(),
    };
    assert_eq!(node_after_run(RunAttempt::First, &ok), RunDecision::Finish);
    let missing = RunResult {
        code: 1,
        stderr: "Error: Cannot find module 'express'".to_string(),
    };
    assert_eq!(
        node_after_run(RunAttempt::First, &missing),
        RunDecision::InstallAndRetry {
            package: "express".to_string(),
            needs_consent: true
        }
    );
    assert_eq!(
        node_after_run(RunAttempt::Retry, &missing),
        RunDecision::Fail(CapsuleError::NodeScriptFailedAfterRetry)
    );
    let other = RunResult {
        code: 2,
        stderr: "boom".to_string(),
    };
    assert_eq!(
        node_after_run(RunAttempt::First, &other),
        RunDecision::Fail(CapsuleError::NodeScriptFailed)
    );
}

#[test]
fn package_json_scripts_and_main() {
    let manifest = object(vec![
        ("main", JsonValue::Str("lib/app.js".to_string())),
        (
            "scripts",
            object(vec![
                ("start", JsonValue::Str("node .".to_string())),
                ("dev", JsonValue::Str("nodemon".to_string())),
            ]),
        ),
    ]);
    assert_eq!(preferred_package_script(&manifest), Some("dev".to_string()));
    assert_eq!(package_main(&manifest), Some("lib/app.js".to_string()));
    assert_eq!(
        typescript_script_args(&manifest),
        Ok(vec!["run".to_string(), "dev".to_string()])
    );
    let start_only = object(vec![(
        "scripts",
        object(vec![("start", JsonValue::Str("tsx app.ts".to_string()))]),
    )]);
    assert_eq!(preferred_package_script(&start_only), Some("start".to_string()));
    assert_eq!(typescript_script_args(&start_only), Ok(vec!["start".to_string()]));
    let bare = object(vec![("main", JsonValue::Number("3".to_string()))]);
    assert_eq!(preferred_package_script(&bare), None);
    assert_eq!(package_main(&bare), None);
    assert_eq!(
        typescript_script_args(&bare),
        Err(CapsuleError::NoTypeScriptScript)
    );
    assert_eq!(
        entry_file_names(),
        strings(&["index.js", "server.js", "app.js", "main.js"])
    );
}

#[test]
fn npm_versions_are_selected_for_every_package() {
    let listing = object(vec![(
        "dependencies",
        object(vec![
            (
                "express",
                object(vec![("version", JsonValue::Str("5.2.1".to_string()))]),
            ),
            ("zod", object(vec![("version", JsonValue::Bool(true))])),
        ]),
    )]);
    let found = select_npm_versions(&listing, &strings(&["express"])).unwrap();
    assert_eq!(found.get("express").map(|p| p.version.clone()), Some("5.2.1".to_string()));
    assert_eq!(found.len(), 1);
    assert_eq!(
        select_npm_versions(&listing, &strings(&["express", "zod", "left"])).err(),
        Some(CapsuleError::UnresolvedNpmVersions(strings(&["zod", "left"])))
    );
    assert_eq!(
        select_npm_versions(&JsonValue::Null, &strings(&["express"])).err(),
        Some(CapsuleError::UnresolvedNpmVersions(strings(&["express"])))
    );
}

#[test]
fn parses_module_not_found() {
    assert_eq!(
        python_missing("No module named 'requests.sessions'"),
        Some("requests".into())
    );
}

#[test]
fn python_resolution_prefers_py_launcher_on_windows() {
    let expected = PythonCommand {
        program: "py".into(),
        args: vec!["-3".into()],
    };
    assert_eq!(expected.display(), "py -3");
}

#[test]
fn python_resolution_prefers_python3_on_unix() {
    let expected = PythonCommand {
        program: "python3".into(),
        args: Vec::new(),
    };
    assert_eq!(expected.display(), "python3");
}

#[test]
fn python_command_candidates_by_platform() {
    let windows: Vec<String> = python_command_candidates(Platform::Windows)
        .iter()
        .map(|c| c.display())
        .collect();
    assert_eq!(windows, strings(&["py -3", "python3", "python"]));
    let unix: Vec<String> = python_command_candidates(Platform::Unix)
        .iter()
        .map(|c| c.display())
        .collect();
    assert_eq!(unix, strings(&["python3", "python"]));
}

#[test]
fn python_runtime_reads_the_version() {
    let py = PythonCommand {
        program: "py".into(),
        args: vec!["-3".into()],
    };
    let r = python_runtime(Some(&py), Some(("Python 3.14.3\n".to_string(), String::new())));
    assert_eq!(r.name, "py -3");
    assert_eq!(r.version, "3.14.3");
    let r = python_runtime(Some(&py), Some((String::new(), " Python 2.7.18 ".to_string())));
    assert_eq!(r.version, "2.7.18");
    let r = python_runtime(Some(&py), None);
    assert_eq!(r.version, "unknown");
    let r = python_runtime(None, None);
    assert_eq!((r.name.as_str(), r.version.as_str()), ("python", "unknown"));
}

#[test]
fn python_bin_by_platform() {
    let env = fs_path(Path::new("/c/env"));
    assert_eq!(
        to_path_buf(&python_bin(&env, Platform::Unix)),
        PathBuf::from("/c/env/bin/python")
    );
    assert_eq!(
        python_bin(&env, Platform::Windows).components.last().unwrap(),
        "python.exe"
    );
}

#[test]
fn python_install_targets_follow_the_lock() {
    let lock = lock_with(
        Language::Python,
        "3.11.8",
        &[("requests", "2.32.3"), ("flask", "3.0.0")],
    );
    assert_eq!(
        python_install_targets(&strings(&["requests", "numpy"]), Some(&lock)),
        strings(&["requests==2.32.3", "numpy"])
    );
    assert_eq!(
        python_install_targets(&strings(&["requests"]), None),
        strings(&["requests"])
    );
}

#[test]
fn python_packages_and_unknown_imports() {
    let imports = strings(&["PIL", "leftpad", "requests", "zz_top"]);
    assert_eq!(
        PythonAdapter.packages_for(&imports),
        strings(&["Pillow", "leftpad", "requests", "zz_top"])
    );
    assert_eq!(unknown_packages(&imports), strings(&["leftpad", "zz_top"]));
}

#[test]
fn python_run_decisions() {
    let missing = RunResult {
        code: 1,
        stderr: "ModuleNotFoundError: No module named 'yaml'".to_string(),
    };
    assert_eq!(
        python_after_run(RunAttempt::First, &missing),
        RunDecision::InstallAndRetry {
            package: "PyYAML".to_string(),
            needs_consent: false
        }
    );
    let unknown = RunResult {
        code: 1,
        stderr: "No module named \"leftpad.core\"".to_string(),
    };
    assert_eq!(
        python_after_run(RunAttempt::First, &unknown),
        RunDecision::InstallAndRetry {
            package: "leftpad".to_string(),
            needs_consent: true
        }
    );
    assert_eq!(
        python_after_run(RunAttempt::Retry, &unknown),
        RunDecision::Fail(CapsuleError::ScriptFailedAfterRetry)
    );
    let other = RunResult {
        code: 1,
        stderr: "ZeroDivisionError".to_string(),
    };
    assert_eq!(
        python_after_run(RunAttempt::First, &other),
        RunDecision::Fail(CapsuleError::ScriptFailed)
    );
}

#[test]
fn freeze_output_gives_exact_versions() {
    assert_eq!(canonical("Foo_Bar.baz"), "foo-bar-baz");
    let output = "Flask==3.0.0\r\nrequests==2.32.3\npython_dateutil==2.9.0\nsix==1.0\n";
    let found = select_frozen(output, &strings(&["flask", "requests", "python-dateutil"])).unwrap();
    let pins: Vec<(String, String)> = found
        .entries()
        .iter()
        .map(|(k, p)| (k.clone(), p.version.clone()))
        .collect();
    assert_eq!(
        pins,
        vec![
            ("flask".to_string(), "3.0.0".to_string()),
            ("python-dateutil".to_string(), "2.9.0".to_string()),
            ("requests".to_string(), "2.32.3".to_string()),
        ]
    );
    assert_eq!(
        select_frozen(output, &strings(&["flask", "numpy"])).err(),
        Some(CapsuleError::UnfrozenVersions(strings(&["numpy"])))
    );
}

#[test]
fn builds_typescript_install_list_with_tsx() {
    let discovered = vec!["zod".to_string(), "tsx".to_string()];
    assert_eq!(typescript_install_targets(&discovered, None), discovered);
}

#[test]
fn keeps_discovered_packages_when_lock_is_missing_one() {
    let lock = lock_with(Language::TypeScript, "20.0.0", &[("tsx", "4.21.0")]);
    assert_eq!(
        typescript_install_targets(&["zod".to_string(), "tsx".to_string()], Some(&lock)),
        vec!["zod".to_string(), "tsx@4.21.0".to_string()]
    );
    assert!(ts_lock_needs_update(
        Some(&lock),
        &["zod".to_string(), "tsx".to_string()]
    ));
}

#[test]
fn typescript_lock_with_extra_pins_is_current() {
    let lock = lock_with(
        Language::TypeScript,
        "20.0.0",
        &[("tsx", "4.21.0"), ("zod", "3.0.0"), ("old", "1.0.0")],
    );
    assert!(!ts_lock_needs_update(Some(&lock), &strings(&["zod", "tsx"])));
    assert!(ts_lock_needs_update(None, &strings(&["zod"])));
}

#[test]
fn typescript_adds_tsx_once() {
    assert_eq!(
        TypeScriptAdapter.with_runtime_packages(strings(&["zod"])),
        strings(&["zod", "tsx"])
    );
    assert_eq!(
        TypeScriptAdapter.with_runtime_packages(strings(&["tsx", "zod"])),
        strings(&["tsx", "zod"])
    );
}

#[test]
fn typescript_workspace_paths() {
    let env = fs_path(Path::new("/c/env"));
    let source = fs_path(Path::new("/tmp/x/app.ts"));
    assert_eq!(
        to_path_buf(&workspace_entry(&env, &source).unwrap()),
        PathBuf::from("/c/env/workspace/app.ts")
    );
    assert_eq!(
        workspace_entry(&env, &fs_path(Path::new("/"))).err(),
        Some(CapsuleError::MissingFileName)
    );
    assert_eq!(
        to_path_buf(&tsx_bin(&env, Platform::Unix)),
        PathBuf::from("/c/env/node_modules/.bin/tsx")
    );
    assert_eq!(
        tsx_bin(&env, Platform::Windows).components.last().unwrap(),
        "tsx.cmd"
    );
}
