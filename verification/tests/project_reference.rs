use open_ams::source::project_reference::ProjectReference;

#[test]
fn test_to_string() {
    assert_eq!(ProjectReference::CurrentProject.to_string(), "self");
    assert_eq!(
        ProjectReference::External {
            group: "group1".to_string(),
            name: "name1".to_string()
        }
        .to_string(),
        "group1:name1"
    );
}

#[test]
fn test_from_str() {
    assert_eq!(
        ProjectReference::from_str("self").unwrap(),
        ProjectReference::CurrentProject
    );
    assert_eq!(
        ProjectReference::from_str("group1:name1").unwrap(),
        ProjectReference::External {
            group: "group1".to_string(),
            name: "name1".to_string()
        }
    );
    assert!(ProjectReference::from_str("invalid").is_err());
    assert!(ProjectReference::from_str("group1:name1:extra").is_err());
}

#[test]
fn project_reference_round_trip_current() {
    let reference = ProjectReference::currentt();
    assert_eq!(
        ProjectReference::from_str(&reference.to_string()).unwrap(),
        reference
    );
}

#[test]
fn project_reference_round_trip_external() {
    let reference = ProjectReference::external("com.example", "widgets");
    assert_eq!(
        ProjectReference::from_str(&reference.to_string()).unwrap(),
        reference
    );
}
