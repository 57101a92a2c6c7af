use capsule::resolver::node_resolver::package_root;
use capsule::resolver::python_resolver::{is_curated, resolve};

#[test]
fn resolves_node_subpaths() {
    assert_eq!(package_root("lodash/debounce"), "lodash");
    assert_eq!(package_root("@scope/pkg/sub/path"), "@scope/pkg");
}

#[test]
fn maps_common_import_names() {
    assert_eq!(resolve("PIL"), "Pillow");
    assert_eq!(resolve("cv2"), "opencv-python");
    assert_eq!(resolve("sklearn"), "scikit-learn");
}

#[test]
fn package_root_edge_cases() {
    assert_eq!(package_root("express"), "express");
    assert_eq!(package_root("@scope"), "@scope/");
    assert_eq!(package_root("@scope/pkg"), "@scope/pkg");
    assert_eq!(package_root(""), "");
    assert_eq!(package_root("node:fs/promises"), "node:fs");
}

#[test]
fn package_root_is_idempotent_on_examples() {
    for spec in ["lodash/debounce", "@scope/pkg/sub/path", "@scope", "a", "", "@/x/y"] {
        let once = package_root(spec);
        assert_eq!(package_root(&once), once);
    }
}

#[test]
fn curated_imports() {
    assert!(is_curated("PIL"));
    assert!(is_curated("requests"));
    assert!(is_curated("typer"));
    assert!(!is_curated("leftpad"));
    assert_eq!(resolve("leftpad"), "leftpad");
    assert_eq!(resolve("requests"), "requests");
    assert_eq!(resolve("jwt"), "PyJWT");
}
