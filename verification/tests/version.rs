use open_ams::entity::version::{Version, VersionParsingError};

#[test]
fn test_parse_latest_version() {
    let version = Version::from_str("latest").unwrap();
    assert_eq!(version, Version::Latest);
}

#[test]
fn test_parse_semver_version() {
    let version = Version::from_str("1.2.3").unwrap();
    match version {
        Version::Semver { major, minor, patch } => {
            assert_eq!(major, 1);
            assert_eq!(minor, 2);
            assert_eq!(patch, 3);
        }
        _ => panic!("Expected Semver variant"),
    }
}

#[test]
fn test_parse_invalid_version_format() {
    let version = Version::from_str("invalid");
    assert!(version.is_err());
    match version {
        Err(VersionParsingError::InvalidVersionFormat { raw }) => {
            assert_eq!(raw, "invalid");
        }
        _ => panic!("Expected InvalidVersionFormat error"),
    }
}

#[test]
fn test_parse_incomplete_semver_version() {
    let version = Version::from_str("1.2");
    assert!(version.is_err());
    match version {
        Err(VersionParsingError::InvalidVersionFormat { raw }) => {
            assert_eq!(raw, "1.2");
        }
        _ => panic!("Expected InvalidVersionFormat error"),
    }
}

#[test]
fn test_parse_non_numeric_semver_version() {
    let version = Version::from_str("1.a.3");
    assert!(version.is_err());
    match version {
        Err(VersionParsingError::InvalidVersionFormat { raw }) => {
            assert_eq!(raw, "1.a.3");
        }
        _ => panic!("Expected InvalidVersionFormat error"),
    }
}

#[test]
fn version_to_string_semver() {
    assert_eq!(Version::new(1, 2, 3).to_string(), "1.2.3");
}

#[test]
fn version_to_string_latest() {
    assert_eq!(Version::Latest.to_string(), "latest");
}

#[test]
fn version_round_trip_latest() {
    let version = Version::Latest;
    assert_eq!(Version::from_str(&version.to_string()).unwrap(), version);
}

#[test]
fn version_round_trip_semver() {
    let version = Version::new(10, 0, 25);
    assert_eq!(Version::from_str(&version.to_string()).unwrap(), version);
}

#[test]
fn version_parse_largest_u64() {
    let version = Version::from_str("18446744073709551615.0.1").unwrap();
    assert_eq!(version, Version::new(u64::MAX, 0, 1));
}

#[test]
fn version_parse_overflowing_component_fails() {
    assert!(Version::from_str("18446744073709551616.0.0").is_err());
}

#[test]
fn version_parse_tolerates_leading_plus() {
    let version = Version::from_str("1.+2.3").unwrap();
    assert_eq!(version, Version::new(1, 2, 3));
}
