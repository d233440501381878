use open_ams::entity::epath::EPath;
use open_ams::source::declaration_reference_filter::{
    DeclarationReferenceFilter, DeclarationReferenceFilterMode,
    DeclarationReferenceFilterParsingError,
};
use open_ams::source::project_reference::ProjectReference;

#[test]
fn test_to_string_specific() {
    let filter = DeclarationReferenceFilter {
        project: ProjectReference::from_str("group:name").unwrap(),
        path: EPath::from_str("path/to/declaration"),
        mode: DeclarationReferenceFilterMode::Specific {
            name: "declaration".to_string(),
        },
    };
    assert_eq!(
        filter.to_string(),
        "group:name/path/to/declaration/declaration"
    );
}

#[test]
fn test_to_string_everything() {
    let filter = DeclarationReferenceFilter::new(
        ProjectReference::from_str("group:name").unwrap(),
        EPath::from_str("path/to/declaration"),
        DeclarationReferenceFilterMode::Everything,
    );
    assert_eq!(filter.to_string(), "group:name/path/to/declaration/*");
}

#[test]
fn test_to_string_everything_recursive() {
    let filter = DeclarationReferenceFilter::new(
        ProjectReference::from_str("group:name").unwrap(),
        EPath::from_str("path/to/declaration"),
        DeclarationReferenceFilterMode::EverythingRecursive,
    );
    assert_eq!(filter.to_string(), "group:name/path/to/declaration/**");
}

#[test]
fn test_from_str_specific() {
    let filter_str = "group:name/path/to/declaration/declaration";
    let filter = DeclarationReferenceFilter::from_str(filter_str).unwrap();
    assert_eq!(
        filter,
        DeclarationReferenceFilter::new(
            ProjectReference::from_str("group:name").unwrap(),
            EPath::from_str("path/to/declaration"),
            DeclarationReferenceFilterMode::Specific {
                name: "declaration".to_string(),
            },
        )
    );
}

#[test]
fn test_from_str_everything() {
    let filter_str = "group:name/path/to/declaration/*";
    let filter = DeclarationReferenceFilter::from_str(filter_str).unwrap();
    assert_eq!(
        filter,
        DeclarationReferenceFilter::new(
            ProjectReference::from_str("group:name").unwrap(),
            EPath::from_str("path/to/declaration"),
            DeclarationReferenceFilterMode::Everything,
        )
    );
}

#[test]
fn test_from_str_everything_recursive() {
    let filter_str = "group:name/path/to/declaration/**";
    let filter = DeclarationReferenceFilter::from_str(filter_str).unwrap();
    assert_eq!(
        filter,
        DeclarationReferenceFilter::new(
            ProjectReference::from_str("group:name").unwrap(),
            EPath::from_str("path/to/declaration"),
            DeclarationReferenceFilterMode::EverythingRecursive,
        )
    );
}

#[test]
fn test_invalid_filter_format() {
    let filter_str = "invalid/filter";
    let result = DeclarationReferenceFilter::from_str(filter_str);
    assert!(result.is_err());
}

#[test]
fn filter_without_separator_is_format_error() {
    let result = DeclarationReferenceFilter::from_str("plain");
    assert!(matches!(
        result,
        Err(DeclarationReferenceFilterParsingError::InvalidFilterFormat)
    ));
}

#[test]
fn filter_with_bad_project_is_project_error() {
    let result = DeclarationReferenceFilter::from_str("invalid/filter");
    assert!(matches!(
        result,
        Err(DeclarationReferenceFilterParsingError::InvalidProjectReference)
    ));
}

#[test]
fn filter_mode_constructors() {
    assert_eq!(
        DeclarationReferenceFilterMode::specific("name1"),
        DeclarationReferenceFilterMode::Specific {
            name: "name1".to_string()
        }
    );
    assert_eq!(
        DeclarationReferenceFilterMode::everything(),
        DeclarationReferenceFilterMode::Everything
    );
    assert_eq!(
        DeclarationReferenceFilterMode::everything_recursive(),
        DeclarationReferenceFilterMode::EverythingRecursive
    );
}

#[test]
fn filter_round_trip() {
    let filter = DeclarationReferenceFilter::new(
        ProjectReference::currentt(),
        EPath::from_str("ui/colors"),
        DeclarationReferenceFilterMode::specific("Primary"),
    );
    assert_eq!(
        DeclarationReferenceFilter::from_str(&filter.to_string()).unwrap(),
        filter
    );
}
