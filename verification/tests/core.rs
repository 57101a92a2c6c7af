use std::path::{Path, PathBuf};

use capsule::cache::{env_path_no_create, language_cache_path};
use capsule::clean::clean_targets;
use capsule::command::{
    command_candidates, command_exists, platform_command_name, resolve_command,
    select_command_output, Platform,
};
use capsule::detector::{detect_dir, detect_file, DirMarkers, Language, Project};
use capsule::error::CapsuleError;
use capsule::inspect::{list_lines, runtime_packages};
use capsule::lockfile::{extend_lock, fresh_lock, lock_path, Package, PackageMap, Runtime};
use capsule::runner::{base_lock, fmt_packages};
use capsule::util::hashing::project_hash;
use capsule::util::paths::{capsule_home_in, FsPath};

fn fs_path(path: &Path) -> FsPath {
    FsPath {
        components: path
            .components()
            .map(|c| c.as_os_str().to_string_lossy().into_owned())
            .collect(),
    }
}

fn to_path_buf(path: &FsPath) -> PathBuf {
    path.components.iter().collect()
}

fn strings(items: &[&str]) -> Vec<String> {
    items.iter().map(|s| s.to_string()).collect()
}

#[test]
fn node_package_managers_use_cmd_shims_on_windows() {
    assert_eq!(platform_command_name("pnpm", Platform::Windows), "pnpm.cmd");
    assert_eq!(platform_command_name("npm", Platform::Windows), "npm.cmd");
    assert_eq!(platform_command_name("npx", Platform::Windows), "npx.cmd");
}

#[test]
fn node_package_managers_use_plain_names_on_unix() {
    assert_eq!(platform_command_name("pnpm", Platform::Unix), "pnpm");
    assert_eq!(platform_command_name("npm", Platform::Unix), "npm");
    assert_eq!(platform_command_name("npx", Platform::Unix), "npx");
}

#[test]
fn command_lookup_candidates() {
    assert_eq!(platform_command_name("node", Platform::Windows), "node");
    assert_eq!(
        command_candidates("npm", Platform::Windows),
        strings(&["npm.cmd", "npm"])
    );
    assert_eq!(command_candidates("uv", Platform::Windows), strings(&["uv"]));
    assert_eq!(command_candidates("npm", Platform::Unix), strings(&["npm"]));
}

#[test]
fn command_resolution_tries_candidates_in_order() {
    let plain_npm = |c: &str| c == "npm";
    assert_eq!(
        resolve_command("npm", Platform::Windows, &plain_npm),
        Some("npm".to_string())
    );
    let shim = |c: &str| c == "npm.cmd" || c == "npm";
    assert_eq!(
        resolve_command("npm", Platform::Windows, &shim),
        Some("npm.cmd".to_string())
    );
    let nothing = |_: &str| false;
    assert_eq!(resolve_command("node", Platform::Unix, &nothing), None);
    assert!(command_exists("npm", Platform::Windows, &plain_npm));
    assert!(!command_exists("npx", Platform::Unix, &plain_npm));
}

#[test]
fn command_output_prefers_stdout() {
    assert_eq!(select_command_output(" v22.1.0\n", "warn"), Some("v22.1.0".to_string()));
    assert_eq!(select_command_output("  ", "Python 2.7\n"), Some("Python 2.7".to_string()));
    assert_eq!(select_command_output("", " \t"), None);
}

#[test]
fn detects_by_file_extension() {
    assert_eq!(detect_file(&fs_path(Path::new("app.py"))).unwrap(), Language::Python);
    assert_eq!(detect_file(&fs_path(Path::new("index.js"))).unwrap(), Language::Node);
    assert_eq!(
        detect_file(&fs_path(Path::new("app.ts"))).unwrap(),
        Language::TypeScript
    );
}

#[test]
fn unsupported_extensions_are_named() {
    assert_eq!(
        detect_file(&fs_path(Path::new("/x/main.rs"))),
        Err(CapsuleError::UnsupportedExtension("rs".to_string()))
    );
    assert_eq!(
        detect_file(&fs_path(Path::new("Makefile"))),
        Err(CapsuleError::UnsupportedExtension(String::new()))
    );
    assert_eq!(
        detect_file(&fs_path(Path::new(".py"))),
        Err(CapsuleError::UnsupportedExtension(String::new()))
    );
    assert_eq!(detect_file(&fs_path(Path::new("a.b.mjs"))), Ok(Language::Node));
    assert_eq!(detect_file(&fs_path(Path::new("x.tsx"))), Ok(Language::TypeScript));
}

#[test]
fn directory_priority_prefers_typescript_package() {
    let markers = DirMarkers {
        package_json: true,
        tsconfig_json: true,
        pyproject_toml: true,
        requirements_txt: false,
    };
    assert_eq!(detect_dir(&markers), Ok(Language::TypeScript));
    let node = DirMarkers {
        package_json: true,
        tsconfig_json: false,
        pyproject_toml: true,
        requirements_txt: true,
    };
    assert_eq!(detect_dir(&node), Ok(Language::Node));
    let python = DirMarkers {
        package_json: false,
        tsconfig_json: true,
        pyproject_toml: false,
        requirements_txt: true,
    };
    assert_eq!(detect_dir(&python), Ok(Language::Python));
    let none = DirMarkers {
        package_json: false,
        tsconfig_json: true,
        pyproject_toml: false,
        requirements_txt: false,
    };
    assert_eq!(detect_dir(&none), Err(CapsuleError::UndetectedLanguage));
}

#[test]
fn language_names() {
    assert_eq!(Language::Python.as_str(), "python");
    assert_eq!(Language::Node.as_str(), "node");
    assert_eq!(Language::TypeScript.as_str(), "typescript");
}

#[test]
fn cache_path_contains_language() {
    let p = language_cache_path(Language::Python).unwrap();
    assert!(to_path_buf(&p).to_string_lossy().contains("python"));
    let e = env_path_no_create(Language::Node, "abc").unwrap();
    let tail: Vec<&str> = e.components.iter().rev().take(4).map(|s| s.as_str()).collect();
    assert_eq!(tail, vec!["abc", "envs", "node", ".capsule"]);
}

#[test]
fn capsule_home_layout() {
    let home = capsule_home_in(&fs_path(Path::new("/home/u")));
    assert_eq!(to_path_buf(&home), PathBuf::from("/home/u/.capsule"));
    let targets: Vec<PathBuf> = clean_targets(&home, true, true, false)
        .iter()
        .map(to_path_buf)
        .collect();
    assert_eq!(
        targets,
        vec![
            PathBuf::from("/home/u/.capsule/python"),
            PathBuf::from("/home/u/.capsule/node"),
            PathBuf::from("/home/u/.capsule/typescript"),
        ]
    );
    let all: Vec<PathBuf> = clean_targets(&home, false, false, false)
        .iter()
        .map(to_path_buf)
        .collect();
    assert_eq!(all, vec![PathBuf::from("/home/u/.capsule")]);
    assert_eq!(clean_targets(&home, true, false, true).len(), 1);
}

#[test]
fn hash_is_stable() {
    let a = project_hash("/tmp/project", Language::Python, "3.11", "");
    let b = project_hash("/tmp/project", Language::Python, "3.11", "");
    assert_eq!(a, b);
}

#[test]
fn hash_is_sixteen_hex_digits_and_depends_on_inputs() {
    let a = project_hash("/tmp/project", Language::Python, "3.11", "");
    assert_eq!(a.len(), 16);
    assert!(a.chars().all(|c| c.is_ascii_digit() || ('a'..='f').contains(&c)));
    let b = project_hash("/tmp/project", Language::Node, "3.11", "");
    assert_ne!(a, b);
    let c = project_hash("/tmp/project", Language::Python, "3.11", "{}");
    assert_ne!(a, c);
}

#[test]
fn hash_matches_the_sha256_prefix() {
    // SHA-256 of "/p\npython\n3\n" starts with these 16 hex digits.
    let digest = <sha2::Sha256 as sha2::Digest>::digest("/p\npython\n3\n".as_bytes());
    let expected: String = digest.iter().map(|b| format!("{b:02x}")).collect::<String>()[..16].to_string();
    assert_eq!(project_hash("/p", Language::Python, "3", ""), expected);
}

#[test]
fn fmt_packages_lists_or_says_none() {
    assert_eq!(fmt_packages(&[]), "none");
    assert_eq!(fmt_packages(&strings(&["a"])), "a");
    assert_eq!(fmt_packages(&strings(&["a", "b", "c"])), "a, b, c");
}

#[test]
fn locks_are_built_and_extended() {
    let project = Project {
        input: fs_path(Path::new("/w/app.py")),
        root: fs_path(Path::new("/w")),
        language: Language::Python,
        entry: Some(fs_path(Path::new("/w/app.py"))),
        is_file: true,
    };
    let mut pins = PackageMap::new();
    pins.insert(
        "requests".to_string(),
        Package {
            version: "2.32.3".to_string(),
        },
    );
    let lock = base_lock(
        &project,
        Runtime {
            name: "python".to_string(),
            version: "3.11.8".to_string(),
        },
        pins,
        "abc".to_string(),
    );
    assert_eq!(lock.version, 1);
    assert_eq!(lock.project_hash, "abc");
    assert_eq!(lock.language, Language::Python);
    let mut more = PackageMap::new();
    more.insert(
        "requests".to_string(),
        Package {
            version: "2.33.0".to_string(),
        },
    );
    more.insert(
        "flask".to_string(),
        Package {
            version: "3.0.0".to_string(),
        },
    );
    let lock = extend_lock(lock, &more);
    let pins: Vec<(String, String)> = lock
        .packages
        .entries()
        .iter()
        .map(|(k, p)| (k.clone(), p.version.clone()))
        .collect();
    assert_eq!(
        pins,
        vec![
            ("flask".to_string(), "3.0.0".to_string()),
            ("requests".to_string(), "2.33.0".to_string()),
        ]
    );
    let fresh = fresh_lock(
        Language::Node,
        Runtime {
            name: "node".to_string(),
            version: "22".to_string(),
        },
    );
    assert_eq!(fresh.project_hash, "");
    assert_eq!(fresh.packages.len(), 0);
    assert_eq!(
        to_path_buf(&lock_path(&fs_path(Path::new("/w")))),
        PathBuf::from("/w/capsule.lock")
    );
}

#[test]
fn inspect_lists() {
    let project = Project {
        input: fs_path(Path::new("/w/app.ts")),
        root: fs_path(Path::new("/w")),
        language: Language::TypeScript,
        entry: None,
        is_file: true,
    };
    assert_eq!(runtime_packages(&project), strings(&["tsx"]));
    assert_eq!(list_lines(&[]), strings(&["  none"]));
    assert_eq!(list_lines(&strings(&["a", "b"])), strings(&["  - a", "  - b"]));
}
