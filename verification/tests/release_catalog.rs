//! Release selection, network suggestions, and the catalog cache.

use suiup::download::{detect_os_arch, generate_network_suggestions_error, select_asset};
use suiup::errors::ErrorKind;
use suiup::json::{releases_from_text, releases_to_text};
use suiup::release::{
    catalog_refresh, ensure_version_prefix, find_last_release_by_network, find_networks_with_version,
    last_release_for_network, FetchOutcome,
};
use suiup::types::{Asset, Release, Repo};

fn create_test_release(asset_names: Vec<&str>) -> Release {
    Release {
        assets: asset_names
            .into_iter()
            .map(|name| Asset {
                name: name.to_string(),
                browser_download_url: format!("https://example.com/{}", name),
            })
            .collect(),
    }
}

#[test]
fn test_find_networks_with_version() {
    let releases = vec![
        create_test_release(vec!["sui-testnet-v1.53.0-linux-x86_64.tgz"]),
        create_test_release(vec!["sui-devnet-v1.53.0-linux-x86_64.tgz"]),
        create_test_release(vec!["sui-testnet-v1.52.0-linux-x86_64.tgz"]),
        create_test_release(vec!["walrus-mainnet-v1.54.0-linux-x86_64.tgz"]),
    ];

    // Test finding version 1.53.0
    let networks = find_networks_with_version(&releases, "1.53.0");
    assert_eq!(networks.len(), 2);
    assert!(networks.contains(&"testnet".to_string()));
    assert!(networks.contains(&"devnet".to_string()));

    // Test finding version with 'v' prefix
    let networks = find_networks_with_version(&releases, "v1.53.0");
    assert_eq!(networks.len(), 2);
    assert!(networks.contains(&"testnet".to_string()));
    assert!(networks.contains(&"devnet".to_string()));

    // Test finding version that doesn't exist
    let networks = find_networks_with_version(&releases, "1.99.0");
    assert!(networks.is_empty());

    // Test finding version that exists only in one network
    let networks = find_networks_with_version(&releases, "1.52.0");
    assert_eq!(networks.len(), 1);
    assert!(networks.contains(&"testnet".to_string()));
}

#[test]
fn test_ensure_version_prefix() {
    assert_eq!(ensure_version_prefix("1.53.0"), "v1.53.0");
    assert_eq!(ensure_version_prefix("v1.53.0"), "v1.53.0");
    assert_eq!(ensure_version_prefix("0.1.2"), "v0.1.2");
    assert_eq!(ensure_version_prefix("v2.0.0"), "v2.0.0");
}

#[test]
fn test_binary_name() {
    assert_eq!(Repo::Sui.binary_name(), "sui");
    assert_eq!(Repo::Walrus.binary_name(), "walrus");
    assert_eq!(Repo::Mvr.binary_name(), "mvr");
}

#[test]
fn test_generate_network_suggestions_error_with_version() {
    let releases = vec![
        create_test_release(vec!["sui-devnet-v1.53.0-linux-x86_64.tgz"]),
        create_test_release(vec!["sui-mainnet-v1.53.0-linux-x86_64.tgz"]),
    ];

    let version = "1.53.0".to_string();
    let error =
        generate_network_suggestions_error(&Repo::Sui, &releases, Some(&version), "testnet");
    let error_msg = error.message();

    assert!(error_msg.contains("Release testnet-1.53.0 not found"));
    assert!(error_msg.contains("version 1.53.0 is available for other networks"));
    assert!(error_msg.contains("suiup install sui@devnet-1.53.0"));
    assert!(error_msg.contains("suiup install sui@mainnet-1.53.0"));
}

#[test]
fn test_generate_network_suggestions_error_without_version() {
    let releases = vec![
        create_test_release(vec!["sui-devnet-v1.53.0-linux-x86_64.tgz"]),
        create_test_release(vec!["walrus-mainnet-v1.54.0-linux-x86_64.tgz"]),
    ];

    let error = generate_network_suggestions_error(&Repo::Sui, &releases, None, "testnet");
    let error_msg = error.message();

    assert!(error_msg.contains("No releases found for testnet network"));
    assert!(error_msg.contains("Available networks"));
    assert!(error_msg.contains("suiup install sui@devnet"));
    assert!(error_msg.contains("suiup install sui@mainnet"));
}

#[test]
fn test_generate_network_suggestions_error_mvr_with_version() {
    let releases = vec![];
    let version = "1.0.0".to_string();
    let error =
        generate_network_suggestions_error(&Repo::Mvr, &releases, Some(&version), "standalone");
    let error_msg = error.message();

    assert!(error_msg.contains("MVR version 1.0.0 not found"));
    assert!(error_msg.contains("MVR is a standalone binary"));
    assert!(error_msg.contains("suiup install mvr 1.0.0"));
}

#[test]
fn test_generate_network_suggestions_error_mvr_without_version() {
    let releases = vec![];
    let error = generate_network_suggestions_error(&Repo::Mvr, &releases, None, "standalone");
    let error_msg = error.message();

    assert!(error_msg.contains("MVR release not found"));
    assert!(error_msg.contains("MVR is a standalone binary"));
    assert!(error_msg.contains("suiup install mvr"));
}

#[test]
fn test_suggestions_error_names_devnet_alternative() {
    // A version present only on devnet, requested for testnet, names
    // devnet as the alternative.
    let releases = vec![create_test_release(vec![
        "sui-devnet-v1.53.0-linux-x86_64.tgz",
    ])];
    let version = "1.53.0".to_string();
    let error =
        generate_network_suggestions_error(&Repo::Sui, &releases, Some(&version), "testnet");
    let msg = error.message();
    assert!(msg.contains("devnet"));
    assert_eq!(error.kind(), ErrorKind::NotFound);
}

#[test]
fn test_find_last_release_by_network() {
    let releases = vec![
        create_test_release(vec!["sui-devnet-v1.54.0-linux-x86_64.tgz"]),
        create_test_release(vec!["sui-testnet-v1.53.0-linux-x86_64.tgz"]),
        create_test_release(vec!["sui-testnet-v1.52.0-linux-x86_64.tgz"]),
    ];
    let found = find_last_release_by_network(&releases, "testnet").unwrap();
    assert_eq!(found.assets[0].name, "sui-testnet-v1.53.0-linux-x86_64.tgz");
    assert!(find_last_release_by_network(&releases, "mainnet").is_none());
}

#[test]
fn test_last_release_for_network_version() {
    let releases = vec![
        create_test_release(vec!["sui-testnet-v1.53.0-linux-x86_64.tgz"]),
        create_test_release(vec!["sui-testnet-v1.52.0-linux-x86_64.tgz"]),
    ];
    let (net, ver) = last_release_for_network(&releases, "testnet").unwrap();
    assert_eq!(net, "testnet");
    assert_eq!(ver, "v1.53.0");
    assert!(last_release_for_network(&releases, "mainnet").is_err());
}

#[test]
fn test_catalog_cache_round_trip() {
    // What is written to the cache reads back as the same catalog, and
    // writing it again yields byte-identical text.
    let releases = vec![
        create_test_release(vec!["sui-testnet-v1.53.0-linux-x86_64.tgz"]),
        create_test_release(vec![
            "sui-devnet-v1.52.0-linux-x86_64.tgz",
            "sui-devnet-v1.52.0-macos-arm64.tgz",
        ]),
    ];
    let text = releases_to_text(&releases);
    let parsed = releases_from_text(&text).unwrap();
    assert_eq!(parsed, releases);
    let text2 = releases_to_text(&parsed);
    assert_eq!(text, text2);
}

#[test]
fn test_catalog_refresh_not_modified_uses_cache() {
    // A second fetch against an unchanged upstream returns the cached
    // release data from disk and writes nothing back.
    let releases = vec![create_test_release(vec![
        "sui-testnet-v1.53.0-linux-x86_64.tgz",
    ])];
    let cache_text = releases_to_text(&releases);
    let etag = "W/\"abc\"".to_string();
    let (got, token, persist) =
        catalog_refresh(FetchOutcome::NotModified, Some(&cache_text), Some(&etag)).unwrap();
    assert_eq!(got, releases);
    assert_eq!(token, Some(etag));
    assert!(persist.is_none());
    // Re-serializing what came out of the cache is byte-identical.
    assert_eq!(releases_to_text(&got), cache_text);
}

#[test]
fn test_catalog_refresh_not_modified_without_cache_fails() {
    let r = catalog_refresh(FetchOutcome::NotModified, None, None);
    assert!(r.is_err());
}

#[test]
fn test_catalog_refresh_fetched_persists_canonical_text() {
    let releases = vec![create_test_release(vec![
        "sui-testnet-v1.53.0-linux-x86_64.tgz",
    ])];
    let outcome = FetchOutcome::Fetched {
        releases: releases.clone(),
        etag: Some("tok".to_string()),
    };
    let (got, token, persist) = catalog_refresh(outcome, None, None).unwrap();
    assert_eq!(got, releases);
    assert_eq!(token, Some("tok".to_string()));
    assert_eq!(persist.unwrap(), releases_to_text(&releases));
}

#[test]
fn test_release_cache_tolerates_json_whitespace() {
    let pretty = "[\n  {\n    \"assets\": [\n      {\n        \"browser_download_url\": \"https://example.com/a\",\n        \"name\": \"sui-testnet-v1.53.0-ubuntu-x86_64.tgz\"\n      }\n    ]\n  }\n]\n";
    let releases = releases_from_text(pretty).unwrap();
    assert_eq!(releases.len(), 1);
    assert_eq!(releases[0].assets[0].name, "sui-testnet-v1.53.0-ubuntu-x86_64.tgz");
    assert!(releases_from_text(" [ ] ").unwrap().is_empty());
}

#[test]
fn test_corrupt_release_cache_is_fatal() {
    let r = releases_from_text("not json at all");
    assert!(r.is_err());
    assert_eq!(r.unwrap_err().kind(), ErrorKind::Integrity);
}

#[test]
fn test_detect_os_arch_tokens() {
    assert_eq!(
        detect_os_arch("linux", "x86_64").unwrap(),
        ("ubuntu".to_string(), "x86_64".to_string())
    );
    assert_eq!(
        detect_os_arch("macos", "aarch64").unwrap(),
        ("macos".to_string(), "arm64".to_string())
    );
    assert_eq!(
        detect_os_arch("windows", "x86_64").unwrap(),
        ("windows".to_string(), "x86_64".to_string())
    );
    assert!(detect_os_arch("plan9", "x86_64").is_err());
    assert!(detect_os_arch("linux", "riscv").is_err());
}

#[test]
fn test_select_asset() {
    let release = create_test_release(vec![
        "sui-testnet-v1.53.0-ubuntu-x86_64.tgz",
        "sui-testnet-v1.53.0-macos-arm64.tgz",
    ]);
    let asset = select_asset(&release, "ubuntu", "x86_64").unwrap();
    assert_eq!(asset.name, "sui-testnet-v1.53.0-ubuntu-x86_64.tgz");

    let missing = select_asset(&release, "windows", "x86_64");
    assert!(missing
        .unwrap_err()
        .message()
        .contains("Asset not found for windows-x86_64"));

    // Two assets fitting the same platform are ambiguous, not a pick.
    let ambiguous = create_test_release(vec![
        "sui-testnet-v1.53.0-ubuntu-x86_64.tgz",
        "sui-testnet-v1.53.0-ubuntu-x86_64-extra.tgz",
    ]);
    assert!(select_asset(&ambiguous, "ubuntu", "x86_64").is_err());
}
