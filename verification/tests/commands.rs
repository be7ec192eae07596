//! The component-spec parser and the binary names.

use suiup::commands::{parse_component_with_version, BinaryName, CommandMetadata};
use suiup::errors::ErrorKind;
use suiup::switch::parse_binary_spec;

#[test]
fn test_parse_component_with_version() {
    let result = parse_component_with_version("sui").unwrap();
    let expected = CommandMetadata {
        name: BinaryName::Sui,
        network: "testnet".to_string(),
        version: None,
    };
    assert_eq!(expected, result);

    let result = parse_component_with_version("sui@testnet-v1.39.3").unwrap();
    let expected = CommandMetadata {
        name: BinaryName::Sui,
        network: "testnet".to_string(),
        version: Some("v1.39.3".to_string()),
    };
    assert_eq!(expected, result);

    let result = parse_component_with_version("walrus").unwrap();
    let expected = CommandMetadata {
        name: BinaryName::Walrus,
        network: "testnet".to_string(),
        version: None,
    };
    assert_eq!(expected, result);

    let result = parse_component_with_version("mvr").unwrap();
    let expected = CommandMetadata {
        name: BinaryName::Mvr,
        network: "testnet".to_string(),
        version: None,
    };
    assert_eq!(expected, result);

    let result = parse_component_with_version("random");
    assert_eq!(
        result.unwrap_err().message(),
        "Invalid binary name: random. Use `suiup list` to find available binaries to install."
            .to_string()
    );
}

#[test]
fn test_sui_component_display() {
    assert_eq!(BinaryName::Sui.to_str(), "sui");
    assert_eq!(BinaryName::Mvr.to_str(), "mvr");
    assert_eq!(BinaryName::Walrus.to_str(), "walrus");
}

#[test]
fn test_parse_binary_spec() {
    // Test valid format
    let result = parse_binary_spec("sui@testnet").unwrap();
    assert_eq!(result, ("sui".to_string(), "testnet".to_string()));

    let result = parse_binary_spec("mvr@main").unwrap();
    assert_eq!(result, ("mvr".to_string(), "main".to_string()));

    let result = parse_binary_spec("walrus@devnet").unwrap();
    assert_eq!(result, ("walrus".to_string(), "devnet".to_string()));

    // Test invalid formats
    let result = parse_binary_spec("sui");
    assert!(result.is_err());
    assert!(result.unwrap_err().message().contains("Invalid format"));

    let result = parse_binary_spec("sui@");
    assert!(result.is_err());
    assert!(result
        .unwrap_err()
        .message()
        .contains("Binary name and network/release cannot be empty"));

    let result = parse_binary_spec("@testnet");
    assert!(result.is_err());
    assert!(result
        .unwrap_err()
        .message()
        .contains("Binary name and network/release cannot be empty"));

    let result = parse_binary_spec("sui@testnet@extra");
    assert!(result.is_err());
    assert!(result.unwrap_err().message().contains("Invalid format"));
}

#[test]
fn test_parse_component_full_spec() {
    let result = parse_component_with_version("sui@testnet-1.39.3").unwrap();
    assert_eq!(result.name, BinaryName::Sui);
    assert_eq!(result.network, "testnet");
    assert_eq!(result.version, Some("1.39.3".to_string()));
}

#[test]
fn test_parse_component_channel_only() {
    let result = parse_component_with_version("sui@devnet").unwrap();
    assert_eq!(result.name, BinaryName::Sui);
    assert_eq!(result.network, "devnet");
    assert_eq!(result.version, None);
}

#[test]
fn test_parse_component_bare_version() {
    // A token that is not a channel name reads as a version on testnet.
    let result = parse_component_with_version("sui@1.40.1").unwrap();
    assert_eq!(result.network, "testnet");
    assert_eq!(result.version, Some("1.40.1".to_string()));
}

#[test]
fn test_parse_component_errors_are_user_input() {
    let e = parse_component_with_version("random").unwrap_err();
    assert_eq!(e.kind(), ErrorKind::UserInput);
    let e = parse_component_with_version("sui@a@b").unwrap_err();
    assert_eq!(e.kind(), ErrorKind::UserInput);
}

#[test]
fn test_parse_is_deterministic() {
    // Repeated calls on the same spec string yield the same metadata.
    for spec in ["sui", "sui@testnet", "sui@testnet-1.39.3", "walrus@1.2.3", "mvr@devnet"] {
        let a = parse_component_with_version(spec).unwrap();
        let b = parse_component_with_version(spec).unwrap();
        assert_eq!(a, b);
    }
    for bad in ["random", "sui@a@b", "nope@testnet"] {
        assert!(parse_component_with_version(bad).is_err());
        assert_eq!(
            parse_component_with_version(bad).unwrap_err().kind(),
            ErrorKind::UserInput
        );
    }
}

#[test]
fn test_repo_urls() {
    assert_eq!(BinaryName::Sui.repo_url(), "https://github.com/MystenLabs/sui");
    assert_eq!(BinaryName::Mvr.repo_url(), "https://github.com/MystenLabs/mvr");
    assert_eq!(
        BinaryName::Walrus.repo_url(),
        "https://github.com/MystenLabs/walrus"
    );
}
