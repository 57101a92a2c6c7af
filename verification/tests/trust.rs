use capsule::error::CapsuleError;
use capsule::security::trust::{confirmation_needed, suspicious_package_name, validate_packages};

#[test]
fn detects_suspicious_names() {
    assert!(suspicious_package_name(""));
    assert!(suspicious_package_name("-bad"));
    assert!(suspicious_package_name("bad;rm"));
    assert!(suspicious_package_name("../bad"));
    assert!(!suspicious_package_name("@scope/pkg"));
    assert!(!suspicious_package_name("requests"));
}

#[test]
fn suspicious_name_rules() {
    assert!(suspicious_package_name("a b"));
    assert!(suspicious_package_name("a\u{3000}b"));
    assert!(suspicious_package_name("a..b"));
    assert!(suspicious_package_name("a\\b"));
    assert!(suspicious_package_name("$(x)"));
    assert!(suspicious_package_name("a/b"));
    assert!(suspicious_package_name("@/b"));
    assert!(suspicious_package_name("@s/"));
    assert!(suspicious_package_name("@s/p/q"));
    assert!(!suspicious_package_name("@s/p"));
    assert!(!suspicious_package_name("python-dateutil"));
    assert!(!suspicious_package_name("a.b"));
}

#[test]
fn validate_packages_names_every_bad_one() {
    let ok = vec!["requests".to_string(), "@scope/pkg".to_string()];
    assert_eq!(validate_packages(&ok), Ok(()));
    let mixed = vec![
        "requests".to_string(),
        "-x".to_string(),
        "flask".to_string(),
        "a;b".to_string(),
    ];
    assert_eq!(
        validate_packages(&mixed),
        Err(CapsuleError::SuspiciousPackages(vec![
            "-x".to_string(),
            "a;b".to_string()
        ]))
    );
}

#[test]
fn confirmation_rules() {
    let pkgs = vec!["requests".to_string()];
    assert_eq!(confirmation_needed(&pkgs, false), Ok(true));
    assert_eq!(confirmation_needed(&pkgs, true), Ok(false));
    assert_eq!(confirmation_needed(&[], false), Ok(false));
    let bad = vec!["bad;rm".to_string()];
    assert!(confirmation_needed(&bad, true).is_err());
}
