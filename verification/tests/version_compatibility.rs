//! Version negotiation tests.

use html_view::{check_version_compatibility, parse_version, ViewerError, PROTOCOL_VERSION};

fn parse_major(v: &str) -> Option<u32> {
    v.split('.').next()?.parse().ok()
}

#[test]
fn test_protocol_version_is_valid_semver() {
    // Verify PROTOCOL_VERSION follows semver format: major.minor.patch
    let parts: Vec<&str> = PROTOCOL_VERSION.split('.').collect();
    assert!(
        parts.len() >= 2,
        "PROTOCOL_VERSION must have at least major.minor: {}",
        PROTOCOL_VERSION
    );

    // Verify major and minor are numbers
    assert!(
        parts[0].parse::<u32>().is_ok(),
        "Major version must be a number: {}",
        parts[0]
    );
    assert!(
        parts[1].parse::<u32>().is_ok(),
        "Minor version must be a number: {}",
        parts[1]
    );

    // If patch version exists, verify it's a number (ignoring pre-release/build metadata)
    if parts.len() >= 3 {
        let patch_part = parts[2]
            .split('-')
            .next()
            .unwrap()
            .split('+')
            .next()
            .unwrap();
        assert!(
            patch_part.parse::<u32>().is_ok(),
            "Patch version must be a number: {}",
            patch_part
        );
    }
}

#[test]
fn test_protocol_version_not_empty() {
    assert!(!PROTOCOL_VERSION.is_empty());
}

#[test]
fn test_version_comparison_logic() {
    // Valid semver versions
    assert_eq!(parse_version("1.2.3"), Some((1, 2, 3)));
    assert_eq!(parse_version("0.1.0"), Some((0, 1, 0)));
    assert_eq!(parse_version("10.20.30"), Some((10, 20, 30)));

    // Pre-release versions
    assert_eq!(parse_version("1.2.3-alpha"), Some((1, 2, 3)));
    assert_eq!(parse_version("1.2.3-beta.1"), Some((1, 2, 3)));

    // Build metadata
    assert_eq!(parse_version("1.2.3+build.123"), Some((1, 2, 3)));
    assert_eq!(parse_version("1.2.3-rc1+build"), Some((1, 2, 3)));

    // Invalid versions
    assert_eq!(parse_version("1.2"), None);
    assert_eq!(parse_version("1"), None);
    assert_eq!(parse_version("abc"), None);
    assert_eq!(parse_version(""), None);
}

#[test]
fn test_major_version_compatibility() {
    // Same major version = compatible
    assert!(check_version_compatibility("1.0.0", "1.0.0").is_ok());
    assert!(check_version_compatibility("1.0.0", "1.1.0").is_ok());
    assert!(check_version_compatibility("1.0.0", "1.99.99").is_ok());

    // Different major version = incompatible
    assert!(check_version_compatibility("1.0.0", "2.0.0").is_err());
    assert!(check_version_compatibility("2.0.0", "1.0.0").is_err());
    assert!(check_version_compatibility("0.1.0", "1.0.0").is_err());
}

#[test]
fn test_version_parsing_edge_cases() {
    // Valid cases
    assert_eq!(parse_major("1.2.3"), Some(1));
    assert_eq!(parse_major("0.1.0"), Some(0));
    assert_eq!(parse_major("999.0.0"), Some(999));

    // Edge cases
    assert_eq!(parse_major("1"), Some(1)); // Missing minor/patch (still gets major)
    assert_eq!(parse_major(""), None); // Empty string
    assert_eq!(parse_major("abc.def.ghi"), None); // Non-numeric
}

#[test]
fn test_backward_compatibility_with_unversioned_viewer() {
    // Viewers from before version checking was added report "0.0.0";
    // this is detected and rejected with an upgrade suggestion.
    let old_viewer_version = "0.0.0";

    assert_eq!(old_viewer_version, "0.0.0");
    match check_version_compatibility(PROTOCOL_VERSION, old_viewer_version) {
        Err(ViewerError::VersionMismatch { viewer, suggestion, .. }) => {
            assert_eq!(viewer, "0.0.0");
            assert!(suggestion.contains("upgrade"));
        }
        other => panic!("expected a version mismatch, got {:?}", other),
    }
}

#[test]
fn test_protocol_version_matches_package_version() {
    // Verify it looks like a real version number
    assert!(PROTOCOL_VERSION.chars().any(|c| c.is_ascii_digit()));
    assert!(PROTOCOL_VERSION.contains('.'));
}

#[test]
fn test_version_negotiation_table() {
    // same version: compatible
    assert!(check_version_compatibility("1.0.0", "1.0.0").is_ok());
    // protocol-breaking major bump: incompatible
    assert!(matches!(
        check_version_compatibility("1.0.0", "2.0.0"),
        Err(ViewerError::VersionMismatch { .. })
    ));
    // pre-stable minor mismatch: incompatible
    assert!(matches!(
        check_version_compatibility("0.1.0", "0.2.0"),
        Err(ViewerError::VersionMismatch { .. })
    ));
    // legacy, unversioned viewer: rejected regardless of caller version
    assert!(matches!(
        check_version_compatibility("0.1.0", "0.0.0"),
        Err(ViewerError::VersionMismatch { .. })
    ));
    assert!(matches!(
        check_version_compatibility("3.4.5", "0.0.9"),
        Err(ViewerError::VersionMismatch { .. })
    ));
    // malformed version strings are a distinct parse failure
    assert!(matches!(
        check_version_compatibility("1.0.0", "not-a-version"),
        Err(ViewerError::InvalidResponse(_))
    ));
}
