use capsule::adapters::node::{
    main_from_manifest, npm_versions_from_output, preferred_script_from_manifest,
};
use capsule::adapters::plan::{plan_run, RunPlan};
use capsule::adapters::python::python_install_targets;
use capsule::adapters::typescript::typescript_script_from_manifest;
use capsule::detector::Language;
use capsule::error::CapsuleError;
use capsule::lockfile::{CapsuleLock, Package, PackageMap, Runtime};
use capsule::util::json::parse_manifest;

fn strings(items: &[&str]) -> Vec<String> {
    items.iter().map(|s| s.to_string()).collect()
}

fn lock_of(language: Language, pins: &[(&str, &str)]) -> CapsuleLock {
    let mut packages = PackageMap::new();
    for (name, version) in pins {
        packages.insert(
            name.to_string(),
            Package {
                version: version.to_string(),
            },
        );
    }
    CapsuleLock {
        version: 1,
        project_hash: "hash".to_string(),
        language,
        runtime: Runtime {
            name: "x".to_string(),
            version: "1".to_string(),
        },
        packages,
    }
}

#[test]
fn npm_versions_come_from_the_raw_listing() {
    let out = br#"{"name":"capsule-env","dependencies":{"express":{"version":"5.2.1"},"zod":{"version":"3.23.8"}}}"#;
    let found = npm_versions_from_output(out, &strings(&["zod", "express"])).unwrap();
    assert_eq!(found.get("express").map(|p| p.version.clone()), Some("5.2.1".to_string()));
    assert_eq!(found.get("zod").map(|p| p.version.clone()), Some("3.23.8".to_string()));
    assert_eq!(found.len(), 2);
    assert_eq!(
        npm_versions_from_output(out, &strings(&["express", "left-pad"])).err(),
        Some(CapsuleError::UnresolvedNpmVersions(strings(&["left-pad"])))
    );
}

#[test]
fn unparsable_npm_output_lists_nothing() {
    assert_eq!(
        npm_versions_from_output(b"npm ERR! oops", &strings(&["express", "zod"])).err(),
        Some(CapsuleError::UnresolvedNpmVersions(strings(&["express", "zod"])))
    );
    assert_eq!(npm_versions_from_output(b"", &[]).map(|m| m.len()).ok(), Some(0));
}

#[test]
fn package_json_bytes_choose_script_and_main() {
    let both = br#"{"main":"server.js","scripts":{"start":"node server.js","dev":"nodemon"}}"#;
    assert_eq!(preferred_script_from_manifest(both), Ok(Some("dev".to_string())));
    assert_eq!(main_from_manifest(both), Ok(Some("server.js".to_string())));
    let start = br#"{"scripts":{"start":"node ."},"main":3}"#;
    assert_eq!(preferred_script_from_manifest(start), Ok(Some("start".to_string())));
    assert_eq!(main_from_manifest(start), Ok(None));
    assert_eq!(preferred_script_from_manifest(b"{}"), Ok(None));
    assert_eq!(
        typescript_script_from_manifest(both),
        Ok(strings(&["run", "dev"]))
    );
    assert_eq!(typescript_script_from_manifest(start), Ok(strings(&["start"])));
    assert_eq!(
        typescript_script_from_manifest(br#"{"scripts":{}}"#),
        Err(CapsuleError::NoTypeScriptScript)
    );
}

#[test]
fn broken_package_json_is_refused() {
    let broken = br#"{"scripts": {"dev": "x"}"#;
    assert_eq!(
        preferred_script_from_manifest(broken),
        Err(CapsuleError::InvalidPackageJson)
    );
    assert_eq!(main_from_manifest(broken), Err(CapsuleError::InvalidPackageJson));
    assert_eq!(
        typescript_script_from_manifest(broken),
        Err(CapsuleError::InvalidPackageJson)
    );
    assert_eq!(parse_manifest(broken).err(), Some(CapsuleError::InvalidPackageJson));
    assert!(parse_manifest(b" [1, 2.5, null, true] ").is_ok());
}

#[test]
fn python_pins_cover_scanned_packages_only() {
    let lock = lock_of(Language::Python, &[("a", "1")]);
    assert_eq!(python_install_targets(&strings(&["b"]), Some(&lock)), strings(&["b"]));
    let lock = lock_of(Language::Python, &[("requests", "2.32.3"), ("flask", "3.0.0")]);
    assert_eq!(
        python_install_targets(&strings(&["pandas", "requests"]), Some(&lock)),
        strings(&["pandas", "requests==2.32.3"])
    );
}

fn install_plan(plan: RunPlan) -> (Vec<String>, bool) {
    match plan {
        RunPlan::Install { targets, write_lock } => (targets, write_lock),
        RunPlan::Preview { .. } => panic!("expected an install plan"),
    }
}

fn preview_plan(plan: RunPlan) -> Vec<String> {
    match plan {
        RunPlan::Preview { targets } => targets,
        RunPlan::Install { .. } => panic!("expected a preview plan"),
    }
}

#[test]
fn run_plans_by_language() {
    let packages = strings(&["requests", "numpy"]);
    let py_lock = lock_of(Language::Python, &[("requests", "2.32.3"), ("flask", "3.0.0")]);
    assert_eq!(
        install_plan(plan_run(Language::Python, &packages, Some(&py_lock), false)),
        (strings(&["requests==2.32.3", "numpy"]), false)
    );
    assert_eq!(
        install_plan(plan_run(Language::Python, &packages, None, false)),
        (strings(&["requests", "numpy"]), true)
    );
    assert_eq!(
        preview_plan(plan_run(Language::Python, &packages, Some(&py_lock), true)),
        strings(&["requests==2.32.3", "numpy"])
    );

    let js = strings(&["express", "zod"]);
    let full = lock_of(Language::Node, &[("express", "5.2.1"), ("zod", "3.23.8")]);
    assert_eq!(
        install_plan(plan_run(Language::Node, &js, Some(&full), false)),
        (strings(&["express@5.2.1", "zod@3.23.8"]), false)
    );
    let extra = lock_of(
        Language::Node,
        &[("express", "5.2.1"), ("zod", "3.23.8"), ("left-pad", "1.3.0")],
    );
    assert!(install_plan(plan_run(Language::Node, &js, Some(&extra), false)).1);
    assert!(!install_plan(plan_run(Language::TypeScript, &js, Some(&extra), false)).1);
    let partial = lock_of(Language::TypeScript, &[("zod", "3.23.8")]);
    assert_eq!(
        install_plan(plan_run(Language::TypeScript, &js, Some(&partial), false)),
        (strings(&["express", "zod@3.23.8"]), true)
    );
    assert_eq!(
        preview_plan(plan_run(Language::Node, &js, Some(&full), true)),
        strings(&["express", "zod"])
    );
}
