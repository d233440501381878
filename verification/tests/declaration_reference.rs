use open_ams::entity::declaration_reference::{
    DeclarationReference, DeclarationReferenceError,
};
use open_ams::entity::epath::EPath;
use open_ams::source::project_reference::ProjectReference;

#[test]
fn test_fully_qualified_to_string() {
    let project_ref = ProjectReference::external("group", "name");
    let module = EPath::new(vec!["module1".to_string()]);
    let name = "name1".to_string();
    let decl_ref = DeclarationReference::fully_qualified(
        project_ref.clone(),
        module.clone(),
        name.clone(),
    );
    assert_eq!(
        decl_ref.to_string(),
        format!("{}/{}/{}", project_ref.to_string(), module.to_string(), name)
    );
}

#[test]
fn test_local_to_string() {
    let name = "name1".to_string();
    let decl_ref = DeclarationReference::local(name.clone());
    assert_eq!(decl_ref.to_string(), name);
}

#[test]
fn test_from_str_fully_qualified() {
    let s = "group:name/module1/name1";
    let decl_ref = DeclarationReference::from_str(s).unwrap();
    let project_ref = ProjectReference::from_str("group:name").unwrap();
    let module = EPath::new(vec!["module1".to_string()]);
    let name = "name1".to_string();
    assert_eq!(
        decl_ref,
        DeclarationReference::fully_qualified(project_ref, module, name)
    );
}

#[test]
fn test_from_str_local() {
    let s = "name1";
    let decl_ref = DeclarationReference::from_str(s).unwrap();
    assert_eq!(decl_ref, DeclarationReference::local(s.to_string()));
}

#[test]
fn test_from_str_invalid_project_reference() {
    let s = "invalid/format/string";
    let result = DeclarationReference::from_str(s);
    assert!(result.is_err());
    assert_eq!(
        result.unwrap_err(),
        DeclarationReferenceError::InvalidProjectReference
    );
}

#[test]
fn from_str_two_segments_has_empty_module() {
    let decl_ref = DeclarationReference::from_str("self/Color").unwrap();
    assert_eq!(
        decl_ref,
        DeclarationReference::fully_qualified(
            ProjectReference::currentt(),
            EPath::empty(),
            "Color".to_string()
        )
    );
}

#[test]
fn from_str_empty_is_local_empty_name() {
    let decl_ref = DeclarationReference::from_str("").unwrap();
    assert_eq!(decl_ref, DeclarationReference::local("".to_string()));
}

#[test]
fn declaration_reference_round_trip_local() {
    let decl_ref = DeclarationReference::local("Color".to_string());
    assert_eq!(
        DeclarationReference::from_str(&decl_ref.to_string()).unwrap(),
        decl_ref
    );
}

#[test]
fn declaration_reference_round_trip_fully_qualified() {
    let decl_ref = DeclarationReference::fully_qualified(
        ProjectReference::external("g", "n"),
        EPath::new(vec!["ui".to_string(), "colors".to_string()]),
        "Primary".to_string(),
    );
    assert_eq!(
        DeclarationReference::from_str(&decl_ref.to_string()).unwrap(),
        decl_ref
    );
}
