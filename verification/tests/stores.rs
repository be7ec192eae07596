//! The two JSON-backed stores, idempotent installation, promotion,
//! switching, updating and grouping.

use suiup::download::{check_downloaded, download_cache_decision, verify_checksum, DownloadAction};
use suiup::errors::ErrorKind;
use suiup::install::{
    check_if_binaries_exist, install_binary, is_installed, nightly_build_args, select_strategy,
    versioned_name, InstallStrategy,
};
use suiup::commands::BinaryName;
use suiup::json::{default_from_text, default_to_text, installed_from_text, installed_to_text};
use suiup::promote::{plan_set_default, resolve_highest_version, update_default_version_file};
use suiup::show::{handle_show, installed_binaries_grouped_by_network, load_installed_binaries};
use suiup::standalone::{detect_arch, MvrInstaller, WalrusArch, WalrusInstaller};
use suiup::switch::{find_matching_binary, plan_switch};
use suiup::types::{BinaryVersion, DefaultBinaries, InstalledBinaries, Network};
use suiup::update::{local_latest_versions, update_needed, validate_update_request};

fn record(name: &str, net: &str, ver: &str) -> BinaryVersion {
    BinaryVersion {
        binary_name: name.to_string(),
        network_release: net.to_string(),
        version: ver.to_string(),
        debug: false,
        path: Some(format!("/store/{}/{}-{}", net, name, ver)),
    }
}

#[test]
fn test_install_is_idempotent() {
    // Installing the same combination twice yields exactly one record.
    let mut store = InstalledBinaries::new();
    install_binary(&mut store, "sui", "testnet", "v1.39.3", false, "/p/sui-v1.39.3");
    install_binary(&mut store, "sui", "testnet", "v1.39.3", false, "/p/sui-v1.39.3");
    assert_eq!(store.binaries().len(), 1);
    assert!(is_installed(&store, "sui", "testnet", "v1.39.3", false));
    assert!(!is_installed(&store, "sui", "testnet", "v1.40.1", false));
}

#[test]
fn test_installed_store_round_trip() {
    let mut store = InstalledBinaries::new();
    install_binary(&mut store, "sui", "testnet", "v1.39.3", false, "/p/sui-v1.39.3");
    install_binary(&mut store, "mvr", "standalone", "v0.0.5", false, "/p/mvr-v0.0.5");
    let text = installed_to_text(&store);
    let read_back = installed_from_text(&text).unwrap();
    assert_eq!(read_back.binaries(), store.binaries());
    assert_eq!(installed_to_text(&read_back), text);
}

#[test]
fn test_installed_store_escaping_round_trip() {
    let mut store = InstalledBinaries::new();
    install_binary(
        &mut store,
        "sui",
        "test\"net\\odd",
        "v1.0.0\n",
        true,
        "/tmp/with\ttab",
    );
    let text = installed_to_text(&store);
    let read_back = installed_from_text(&text).unwrap();
    assert_eq!(read_back.binaries(), store.binaries());
}

#[test]
fn test_malformed_installed_store_is_fatal() {
    // A corrupt ledger must fail loudly, never read as an empty store.
    for bad in [
        "",
        "{}",
        "garbage",
        "{\"binaries\":}",
        "{\"binaries\":[}",
        "{\"binaries\":[]",
        "{\"binaries\":[]}trailing",
    ] {
        let r = installed_from_text(bad);
        assert!(r.is_err(), "{:?} should be rejected", bad);
        let e = r.unwrap_err();
        assert_eq!(e.kind(), ErrorKind::Integrity);
        assert_eq!(e.message(), "Cannot deserialize from installed binaries file");
    }
}

#[test]
fn test_empty_installed_store_round_trip() {
    let store = InstalledBinaries::new();
    let text = installed_to_text(&store);
    assert_eq!(text, "{\"binaries\":[]}");
    let read_back = installed_from_text(&text).unwrap();
    assert_eq!(read_back.binaries().len(), 0);
}

#[test]
fn test_empty_default_store_round_trip() {
    let map = DefaultBinaries::new();
    let text = default_to_text(&map);
    assert_eq!(text, "{}");
    let read_back = default_from_text(&text).unwrap();
    assert_eq!(read_back.lookup("sui"), None);
}

#[test]
fn test_installed_store_three_records() {
    let mut store = InstalledBinaries::new();
    install_binary(&mut store, "sui", "testnet", "v1.39.3", false, "/a");
    install_binary(&mut store, "sui", "testnet", "v1.40.1", true, "/b");
    install_binary(&mut store, "walrus", "mainnet", "v1.54.0", false, "/c");
    let text = installed_to_text(&store);
    let read_back = installed_from_text(&text).unwrap();
    assert_eq!(read_back.binaries().len(), 3);
    assert_eq!(read_back.binaries(), store.binaries());
}

#[test]
fn test_stores_tolerate_json_whitespace() {
    // A pretty-printed but well-formed document reads like the
    // compact one; only genuinely malformed text is corrupt.
    let pretty = "{\n  \"binaries\": [\n    {\n      \"binary_name\": \"sui\",\n      \"network_release\": \"testnet\",\n      \"version\": \"v1.39.3\",\n      \"debug\": false,\n      \"path\": null\n    },\n    {\n      \"binary_name\": \"mvr\",\n      \"network_release\": \"standalone\",\n      \"version\": \"v0.0.5\",\n      \"debug\": true,\n      \"path\": \"/p/mvr\"\n    }\n  ]\n}\n";
    let store = installed_from_text(pretty).unwrap();
    assert_eq!(store.binaries().len(), 2);
    assert_eq!(store.binaries()[0].binary_name, "sui");
    assert_eq!(store.binaries()[1].path, Some("/p/mvr".to_string()));

    let pretty_map = "{\n  \"mvr\" : [ \"standalone\", \"v0.0.5\", false ],\n  \"sui\": [\"testnet\", \"v1.39.3\", false]\n}";
    let map = default_from_text(pretty_map).unwrap();
    assert_eq!(
        map.lookup("sui"),
        Some(("testnet".to_string(), "v1.39.3".to_string(), false))
    );

    // Whitespace inside a string value is data, not separator.
    let spaced = "{ \"binaries\": [ { \"binary_name\": \"a b\", \"network_release\": \"n\", \"version\": \"v\", \"debug\": false, \"path\": null } ] }";
    let store = installed_from_text(spaced).unwrap();
    assert_eq!(store.binaries()[0].binary_name, "a b");

    // Whitespace alone is still not a document.
    assert!(installed_from_text("   \n").is_err());
    assert!(default_from_text("  ").is_err());
}

#[test]
fn test_default_store_round_trip() {
    let mut map = DefaultBinaries::new();
    map.set_default("sui", "testnet", "v1.39.3", false);
    map.set_default("mvr", "standalone", "v0.0.5", false);
    let text = default_to_text(&map);
    let read_back = default_from_text(&text).unwrap();
    assert_eq!(default_to_text(&read_back), text);
    assert_eq!(
        read_back.lookup("sui"),
        Some(("testnet".to_string(), "v1.39.3".to_string(), false))
    );
    assert_eq!(
        read_back.lookup("mvr"),
        Some(("standalone".to_string(), "v0.0.5".to_string(), false))
    );
    assert_eq!(read_back.lookup("walrus"), None);
}

#[test]
fn test_malformed_default_store_is_fatal() {
    for bad in ["", "[]", "{\"a\":}", "{\"a\":[\"b\"]}", "{}x"] {
        let r = default_from_text(bad);
        assert!(r.is_err(), "{:?} should be rejected", bad);
        assert_eq!(r.unwrap_err().kind(), ErrorKind::Integrity);
    }
    // Entries out of name order are not the canonical document.
    let unsorted = "{\"b\":[\"x\",\"y\",false],\"a\":[\"x\",\"y\",false]}";
    assert!(default_from_text(unsorted).is_err());
}

#[test]
fn test_promotion_keeps_older_version_when_asked() {
    // Install 1.39.3 then 1.40.1, promote 1.39.3: the default reports
    // 1.39.3 even though 1.40.1 was installed more recently.
    let mut store = InstalledBinaries::new();
    install_binary(&mut store, "sui", "testnet", "v1.39.3", false, "/s/sui-v1.39.3");
    install_binary(&mut store, "sui", "testnet", "v1.40.1", false, "/s/sui-v1.40.1");

    let plan = plan_set_default(
        "sui@testnet-1.39.3",
        false,
        None,
        &store,
        "/data/binaries",
        "/home/bin",
    )
    .unwrap();
    assert_eq!(plan.version, "v1.39.3");
    assert_eq!(plan.network, "testnet");
    assert_eq!(plan.source_path, "/data/binaries/testnet/sui-v1.39.3");
    assert_eq!(plan.dest_path, "/home/bin/sui");

    let mut map = DefaultBinaries::new();
    update_default_version_file(
        &mut map,
        &vec![plan.binary_name.clone()],
        &plan.network,
        &plan.version,
        plan.debug,
    );
    assert_eq!(
        map.lookup("sui"),
        Some(("testnet".to_string(), "v1.39.3".to_string(), false))
    );
}

#[test]
fn test_promotion_resolves_highest_version() {
    // Without an explicit version the numerically highest installed
    // version is promoted: v1.40.1 over v1.9.0 and v1.39.3.
    let mut store = InstalledBinaries::new();
    install_binary(&mut store, "sui", "testnet", "v1.9.0", false, "/s/sui-v1.9.0");
    install_binary(&mut store, "sui", "testnet", "v1.40.1", false, "/s/sui-v1.40.1");
    install_binary(&mut store, "sui", "testnet", "v1.39.3", false, "/s/sui-v1.39.3");

    assert_eq!(
        resolve_highest_version(&store, "sui", "testnet"),
        Some("v1.40.1".to_string())
    );
    let plan = plan_set_default("sui@testnet", false, None, &store, "/d", "/b").unwrap();
    assert_eq!(plan.version, "v1.40.1");
}

#[test]
fn test_promotion_refuses_unrecorded_install() {
    let mut store = InstalledBinaries::new();
    install_binary(&mut store, "sui", "testnet", "v1.39.3", false, "/s/sui-v1.39.3");
    let r = plan_set_default("sui@testnet-1.99.0", false, None, &store, "/d", "/b");
    assert!(r.is_err());
    let msg = r.unwrap_err().message();
    assert!(msg.contains("not found"));
}

#[test]
fn test_switch_selects_numeric_latest() {
    // Switching picks the latest installed version by the numeric
    // component order, so v1.40.1 outranks v1.9.0.
    let mut store = InstalledBinaries::new();
    install_binary(&mut store, "sui", "testnet", "v1.9.0", false, "/s/a");
    install_binary(&mut store, "sui", "testnet", "v1.40.1", false, "/s/b");
    install_binary(&mut store, "sui", "testnet", "v1.39.3", false, "/s/c");
    let found = find_matching_binary(&store, "sui", "testnet").unwrap();
    assert_eq!(found.version, "v1.40.1");

    let (rec, src, dst) = plan_switch(&store, "sui@testnet", "/data", "/bin").unwrap();
    assert_eq!(rec.version, "v1.40.1");
    assert_eq!(src, "/data/testnet/sui-v1.40.1");
    assert_eq!(dst, "/bin/sui");
}

#[test]
fn test_switch_missing_binary() {
    let store = InstalledBinaries::new();
    let r = find_matching_binary(&store, "sui", "testnet");
    assert!(r.unwrap_err().message().contains("No installed binary found for sui@testnet"));
}

#[test]
fn test_grouping_sorts_channels() {
    let mut store = InstalledBinaries::new();
    store.add_binary(record("sui", "testnet", "v1.39.3"));
    store.add_binary(record("sui", "devnet", "v1.40.1"));
    store.add_binary(record("walrus", "testnet", "v1.54.0"));
    let grouped = installed_binaries_grouped_by_network(&store);
    assert_eq!(grouped.len(), 2);
    assert_eq!(grouped[0].0, "devnet");
    assert_eq!(grouped[1].0, "testnet");
    assert_eq!(grouped[0].1.len(), 1);
    assert_eq!(grouped[1].1.len(), 2);

    let flat = load_installed_binaries(&store);
    assert_eq!(flat.len(), 3);
}

#[test]
fn test_handle_show_sections() {
    let mut map = DefaultBinaries::new();
    map.set_default("sui", "testnet", "v1.39.3", false);
    let mut store = InstalledBinaries::new();
    store.add_binary(record("sui", "testnet", "v1.39.3"));

    let (defaults, installed) = handle_show(false, &map, &store);
    assert_eq!(defaults.binaries.len(), 1);
    assert_eq!(defaults.binaries[0].binary_name, "sui");
    assert_eq!(installed.unwrap().len(), 1);

    let (_, installed) = handle_show(true, &map, &store);
    assert!(installed.is_none());
}

#[test]
fn test_select_strategy_dispatch() {
    // A named branch wins over everything.
    let s = select_strategy(&BinaryName::Sui, "testnet", None, Some("main".to_string()), false)
        .unwrap();
    assert!(matches!(s, InstallStrategy::Nightly { .. }));

    // The standalone binary is fetched as a single file.
    let s = select_strategy(&BinaryName::Mvr, "testnet", None, None, false).unwrap();
    assert!(matches!(s, InstallStrategy::Standalone { .. }));

    // Everything else goes through its release catalog.
    let s = select_strategy(&BinaryName::Walrus, "testnet", None, None, false).unwrap();
    assert!(matches!(s, InstallStrategy::ReleaseArchive { .. }));

    // Conflicting flags are user errors.
    let e = select_strategy(&BinaryName::Walrus, "testnet", None, None, true).unwrap_err();
    assert_eq!(e.message(), "Debug flag is only available for the `sui` binary");
    let e = select_strategy(
        &BinaryName::Sui,
        "testnet",
        Some("1.0.0".to_string()),
        Some("main".to_string()),
        false,
    )
    .unwrap_err();
    assert!(e.message().contains("Cannot install from nightly and a release"));
}

#[test]
fn test_nightly_build_args() {
    let args = nightly_build_args(&BinaryName::Walrus, "main", "/root/bins/main");
    assert_eq!(
        args,
        vec![
            "install",
            "--locked",
            "--force",
            "--git",
            "https://github.com/MystenLabs/walrus",
            "--branch",
            "main",
            "walrus-service",
            "--bin",
            "walrus",
            "--root",
            "/root/bins/main",
        ]
    );
    let args = nightly_build_args(&BinaryName::Sui, "devel", "/r");
    assert_eq!(args[7], "sui");
}

#[test]
fn test_versioned_names() {
    assert_eq!(versioned_name("sui", "v1.39.3", false), "sui-v1.39.3");
    assert_eq!(versioned_name("sui", "v1.39.3", true), "sui-debug-v1.39.3");
    assert_eq!(versioned_name("sui", "", true), "sui-debug");
    assert!(check_if_binaries_exist(
        "sui",
        "testnet",
        "v1.39.3",
        &vec!["sui-v1.39.3".to_string()]
    ));
    assert!(!check_if_binaries_exist("sui", "testnet", "v1.40.1", &vec![]));
}

#[test]
fn test_update_flow() {
    let mut store = InstalledBinaries::new();
    install_binary(&mut store, "sui", "testnet", "v1.39.3", false, "/a");
    install_binary(&mut store, "sui", "testnet", "v1.40.1", false, "/b");
    install_binary(&mut store, "sui", "devnet", "v1.41.0", false, "/c");

    let b = validate_update_request("sui", &store).unwrap();
    assert_eq!(b, BinaryName::Sui);
    assert!(validate_update_request("sui@testnet-1.0.0", &store).is_err());
    assert!(validate_update_request("walrus", &store).is_err());

    let latest = local_latest_versions(&store, "sui");
    assert_eq!(latest.len(), 2);
    assert_eq!(latest[0], ("devnet".to_string(), "v1.41.0".to_string()));
    assert_eq!(latest[1], ("testnet".to_string(), "v1.40.1".to_string()));

    assert!(update_needed("v1.40.1", "v1.41.0"));
    assert!(!update_needed("v1.41.0", "v1.41.0"));
}

#[test]
fn test_checksum_decisions() {
    // The digest of "hello", published with trailing whitespace, still
    // verifies; a wrong digest is a fatal integrity error.
    let good = "5d41402abc4b2a76b9719d911017c592\n".to_string();
    assert!(verify_checksum(b"hello", &good));
    assert!(!verify_checksum(b"hello!", &good));

    let name = check_downloaded("sui.tgz", b"hello", Some(&good)).unwrap();
    assert_eq!(name, "sui.tgz");
    let bad = "00000000000000000000000000000000".to_string();
    let e = check_downloaded("sui.tgz", b"hello", Some(&bad)).unwrap_err();
    assert_eq!(e.kind(), ErrorKind::Integrity);
    assert!(e.message().contains("MD5 check failed for sui.tgz"));
    assert!(check_downloaded("sui.tgz", b"hello", None).is_ok());
}

#[test]
fn test_download_cache_decision() {
    assert_eq!(
        download_cache_decision(Some(100), 100, None),
        DownloadAction::UseCached
    );
    assert_eq!(
        download_cache_decision(Some(100), 100, Some(true)),
        DownloadAction::UseCached
    );
    assert_eq!(
        download_cache_decision(Some(100), 100, Some(false)),
        DownloadAction::Redownload
    );
    assert_eq!(
        download_cache_decision(Some(50), 100, None),
        DownloadAction::Redownload
    );
    assert_eq!(download_cache_decision(None, 100, None), DownloadAction::Redownload);
}

#[test]
fn test_standalone_installers() {
    let mut mvr = MvrInstaller::new();
    assert!(mvr.get_latest_release().is_err());
    assert_eq!(mvr.resolve_version(Some(&"0.0.5".to_string())).unwrap(), "v0.0.5");
    assert_eq!(mvr.resolve_version(Some(&"v0.0.5".to_string())).unwrap(), "v0.0.5");
    assert!(mvr.resolve_version(None).is_err());
    mvr.set_releases(vec![]);
    assert!(mvr.find_release("v0.0.5").is_err());

    let w = WalrusInstaller::new(WalrusArch::UbuntuX86_64, &"/tmp/walrus".to_string());
    assert_eq!(
        w.get_download_url(),
        "https://storage.googleapis.com/mysten-walrus-binaries/walrus-testnet-latest-ubuntu-x86_64"
    );
    assert!(matches!(
        detect_arch("linux", "x86_64"),
        Some(WalrusArch::UbuntuX86_64)
    ));
    assert!(matches!(detect_arch("macos", "aarch64"), Some(WalrusArch::MacosArm64)));
    assert!(detect_arch("plan9", "mips").is_none());
}

#[test]
fn test_remove_binary_and_default_entry() {
    let mut store = InstalledBinaries::new();
    store.add_binary(record("sui", "testnet", "v1.39.3"));
    store.add_binary(record("sui", "devnet", "v1.40.1"));
    store.add_binary(record("walrus", "testnet", "v1.54.0"));
    store.remove_binary("sui");
    assert_eq!(store.binaries().len(), 1);
    assert_eq!(store.binaries()[0].binary_name, "walrus");

    let mut map = DefaultBinaries::new();
    map.set_default("sui", "testnet", "v1.39.3", false);
    map.set_default("walrus", "testnet", "v1.54.0", false);
    map.remove_entry("sui");
    assert_eq!(map.lookup("sui"), None);
    assert_eq!(
        map.lookup("walrus"),
        Some(("testnet".to_string(), "v1.54.0".to_string(), false))
    );
    // Removing an absent name changes nothing.
    map.remove_entry("mvr");
    assert!(map.lookup("walrus").is_some());
}

#[test]
fn test_network_names() {
    assert_eq!(Network::from_str("testnet").unwrap(), Network::Testnet);
    assert_eq!(Network::from_str("devnet").unwrap(), Network::Devnet);
    assert_eq!(Network::from_str("mainnet").unwrap(), Network::Mainnet);
    assert!(Network::from_str("localnet").is_err());
    assert_eq!(Network::Mainnet.to_str(), "mainnet");
}
