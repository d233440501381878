use open_ams::entity::dependency::{DependencyReference, DependencyReferenceParsingError};
use open_ams::entity::version::Version;

#[test]
fn test_valid_dependency_reference() {
    let input = "com.example:library:1.0.0";
    let expected = DependencyReference::Managed {
        group: "com.example".to_string(),
        name: "library".to_string(),
        version: Version::from_str("1.0.0").unwrap(),
    };
    let result = DependencyReference::from_str(input).unwrap();
    assert_eq!(result, expected);
}

#[test]
fn test_invalid_dependency_format() {
    let input = "com.example:library";
    let result = DependencyReference::from_str(input);
    assert!(matches!(
        result,
        Err(DependencyReferenceParsingError::InvalidDependencyFormat)
    ));
}

#[test]
fn test_invalid_version_format() {
    let input = "com.example:library:invalid_version";
    let result = DependencyReference::from_str(input);
    assert!(matches!(
        result,
        Err(DependencyReferenceParsingError::InvalidVersionFormat(_))
    ));
}

#[test]
fn test_is_ams_dependency_true() {
    let dependency = DependencyReference::Managed {
        group: "ams".to_string(),
        name: "library".to_string(),
        version: Version::from_str("1.0.0").unwrap(),
    };
    assert!(dependency.is_ams_dependency());
}

#[test]
fn test_is_ams_dependency_false() {
    let dependency = DependencyReference::Managed {
        group: "com.example".to_string(),
        name: "library".to_string(),
        version: Version::from_str("1.0.0").unwrap(),
    };
    assert!(!dependency.is_ams_dependency());
}

#[test]
fn test_is_ams_dependency_false_with_empty_group() {
    let dependency = DependencyReference::Managed {
        group: "".to_string(),
        name: "library".to_string(),
        version: Version::from_str("1.0.0").unwrap(),
    };
    assert!(!dependency.is_ams_dependency());
}

#[test]
fn dependency_round_trip() {
    let dependency = DependencyReference::Managed {
        group: "com.example".to_string(),
        name: "library".to_string(),
        version: Version::new(2, 1, 0),
    };
    assert_eq!(
        DependencyReference::from_str(&dependency.to_string()).unwrap(),
        dependency
    );
}

#[test]
fn dependency_to_string() {
    let dependency = DependencyReference::Managed {
        group: "com.example".to_string(),
        name: "library".to_string(),
        version: Version::Latest,
    };
    assert_eq!(dependency.to_string(), "com.example:library:latest");
}
