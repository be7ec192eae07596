//! Version parsing, ordering, and extraction from release names.

use suiup::version::{extract_version_from_release, version_key_lt, Ver};

#[test]
fn test_ver_from_str_valid_versions() {
    // Test basic version parsing
    let v1 = Ver::from_str("1.2.3").unwrap();
    assert_eq!(v1.major, 1);
    assert_eq!(v1.minor, 2);
    assert_eq!(v1.patch, 3);

    // Test version with 'v' prefix
    let v2 = Ver::from_str("v1.2.3").unwrap();
    assert_eq!(v2.major, 1);
    assert_eq!(v2.minor, 2);
    assert_eq!(v2.patch, 3);

    // Test zero versions
    let v3 = Ver::from_str("0.0.0").unwrap();
    assert_eq!(v3.major, 0);
    assert_eq!(v3.minor, 0);
    assert_eq!(v3.patch, 0);

    // Test larger version numbers
    let v4 = Ver::from_str("v10.20.30").unwrap();
    assert_eq!(v4.major, 10);
    assert_eq!(v4.minor, 20);
    assert_eq!(v4.patch, 30);
}

#[test]
fn test_ver_from_str_invalid_versions() {
    // Test invalid formats
    assert!(Ver::from_str("1.2").is_err());
    assert!(Ver::from_str("1.2.3.4").is_err());
    assert!(Ver::from_str("1").is_err());
    assert!(Ver::from_str("").is_err());
    assert!(Ver::from_str("a.b.c").is_err());
    assert!(Ver::from_str("1.a.3").is_err());
    assert!(Ver::from_str("v1.2.c").is_err());
}

#[test]
fn test_ver_equality() {
    let v1 = Ver::from_str("1.2.3").unwrap();
    let v2 = Ver::from_str("v1.2.3").unwrap();
    let v3 = Ver::from_str("1.2.4").unwrap();

    assert_eq!(v1, v2);
    assert_eq!(v2, v1);
    assert_ne!(v1, v3);
    assert_ne!(v3, v1);
}

#[test]
fn test_ver_ordering() {
    // Test major version differences
    let v1_0_0 = Ver::from_str("1.0.0").unwrap();
    let v2_0_0 = Ver::from_str("2.0.0").unwrap();
    assert!(v1_0_0 < v2_0_0);
    assert!(v2_0_0 > v1_0_0);

    // Test minor version differences
    let v1_1_0 = Ver::from_str("1.1.0").unwrap();
    let v1_2_0 = Ver::from_str("1.2.0").unwrap();
    assert!(v1_1_0 < v1_2_0);
    assert!(v1_2_0 > v1_1_0);

    // Test patch version differences
    let v1_1_1 = Ver::from_str("1.1.1").unwrap();
    let v1_1_2 = Ver::from_str("1.1.2").unwrap();
    assert!(v1_1_1 < v1_1_2);
    assert!(v1_1_2 > v1_1_1);

    // Test same versions
    let v1 = Ver::from_str("1.2.3").unwrap();
    let v2 = Ver::from_str("v1.2.3").unwrap();
    assert!(v1 <= v2);
    assert!(v1 >= v2);
    assert!(!(v1 < v2));
    assert!(!(v1 > v2));

    // Test complex comparisons
    let v0_0_4 = Ver::from_str("0.0.4").unwrap();
    let v0_0_3 = Ver::from_str("0.0.3").unwrap();
    assert!(v0_0_3 < v0_0_4);
    assert!(v0_0_4 > v0_0_3);

    // Test the specific case from the bug report
    let current = Ver::from_str("0.0.4").unwrap();
    let latest = Ver::from_str("0.0.3").unwrap();
    assert!(!(current < latest)); // Current is newer, should not show warning
    assert!(latest < current); // Latest is older than current
}

#[test]
fn test_ver_display() {
    let v1 = Ver::from_str("1.2.3").unwrap();
    assert_eq!(v1.to_display_string(), "1.2.3");

    let v2 = Ver::from_str("v10.20.30").unwrap();
    assert_eq!(v2.to_display_string(), "10.20.30");

    let v3 = Ver::from_str("0.0.0").unwrap();
    assert_eq!(v3.to_display_string(), "0.0.0");
}

#[test]
fn test_version_order_is_numeric_not_string() {
    // Lexicographic-numeric on dot-separated components: 1.40.1 comes
    // after 1.39.3, which comes after 1.9.0 — not string order.
    assert!(version_key_lt("v1.9.0", "v1.39.3"));
    assert!(version_key_lt("v1.39.3", "v1.40.1"));
    assert!(version_key_lt("v1.9.0", "v1.40.1"));
    assert!(!version_key_lt("v1.40.1", "v1.9.0"));
    // Plain string order would put v1.9.0 last; the numeric order
    // must not.
    assert!("v1.9.0".to_string() > "v1.40.1".to_string());
}

#[test]
fn test_extract_version_from_release() {
    assert_eq!(
        extract_version_from_release("sui-testnet-v1.39.3-ubuntu-x86_64.tgz").unwrap(),
        "v1.39.3"
    );
    assert_eq!(
        extract_version_from_release("walrus-mainnet-v1.54.0-macos-arm64.tgz").unwrap(),
        "v1.54.0"
    );
    // The earliest embedded version wins.
    assert_eq!(
        extract_version_from_release("v1.2.3-then-v4.5.6").unwrap(),
        "v1.2.3"
    );
    // No version at all is an error.
    assert!(extract_version_from_release("sui-testnet-latest.tgz").is_err());
    // A bare `v` or incomplete version does not count.
    assert!(extract_version_from_release("v1.2-ubuntu").is_err());
}
