use capsule::scanners::node_scanner;
use capsule::scanners::python_scanner::{is_stdlib, scan_path};

fn strings(items: &[&str]) -> Vec<String> {
    items.iter().map(|s| s.to_string()).collect()
}

#[test]
fn scans_python_imports_and_filters() {
    let source = "import os\nimport requests.sessions, pandas as pd\nfrom fastapi import FastAPI\nimport helpers\nfrom .local import thing\n";
    let locals = strings(&["helpers"]);
    assert_eq!(
        scan_path(&strings(&[source]), &locals),
        vec!["fastapi", "pandas", "requests"]
    );
}

#[test]
fn scans_inline_semicolon_import() {
    let source = "import requests; print(requests.__version__)\n";
    assert_eq!(scan_path(&strings(&[source]), &Vec::new()), vec!["requests"]);
}

#[test]
fn scans_inline_semicolon_import_with_utf8_bom() {
    let source = "\u{feff}import requests; print(requests.__version__)\n";
    assert_eq!(scan_path(&strings(&[source]), &Vec::new()), vec!["requests"]);
}

#[test]
fn python_scan_merges_files_and_skips_comments() {
    let a = "import zlib_ext  # comment\n# import commented\nfrom a.b import c; import d\n";
    let b = "from\t.x import y\nimport 9bad, _ok\r\nfrom collections import deque\n";
    assert_eq!(
        scan_path(&strings(&[a, b]), &Vec::new()),
        vec!["_ok", "a", "zlib_ext"]
    );
}

#[test]
fn stdlib_membership() {
    assert!(is_stdlib("os"));
    assert!(is_stdlib("xml"));
    assert!(!is_stdlib("requests"));
}

#[test]
fn scans_node_imports_and_filters_builtins() {
    let source = r#"import express from "express"; const fs = require("fs"); const x = require("@a/b/c");"#;
    assert_eq!(node_scanner::scan_path(&strings(&[source])), vec!["@a/b", "express"]);
}

#[test]
fn scans_typescript_named_imports() {
    let source = r#"import { z } from "zod"; console.log(z.string().parse("ok"))"#;
    assert_eq!(node_scanner::scan_path(&strings(&[source])), vec!["zod"]);
}

#[test]
fn node_scan_skips_paths_and_node_modules() {
    let source = "import './side.css'\nimport x from '../x'\nconst p = require('node:path')\nimport 'lodash/debounce'\nconst a = require('/abs')\n";
    assert_eq!(node_scanner::scan_path(&strings(&[source])), vec!["lodash"]);
}
