use open_ams::entity::project_identifier::ProjectIdentifier;
use open_ams::entity::target_language::{NativeBindings, TargetLanguage};
use open_ams::source::type_definition::TypeDefinitionTypeReference;
use open_ams::entity::declaration_reference::DeclarationReference;

#[test]
fn project_identifier_accessors() {
    let id = ProjectIdentifier::new("com.example", "widgets");
    assert_eq!(id.group(), "com.example");
    assert_eq!(id.name(), "widgets");
    assert_eq!(id.to_string(), "com.example:widgets");
}

#[test]
fn project_identifier_round_trip() {
    let id = ProjectIdentifier::new("com.example", "widgets");
    assert_eq!(ProjectIdentifier::from_str(&id.to_string()).unwrap(), id);
}

#[test]
fn project_identifier_from_str_rejects_extra_parts() {
    assert!(ProjectIdentifier::from_str("a:b:c").is_none());
    assert!(ProjectIdentifier::from_str("plain").is_none());
}

#[test]
fn type_reference_keyword_is_native_binding() {
    assert_eq!(
        TypeDefinitionTypeReference::from_str("NativeBinding").unwrap(),
        TypeDefinitionTypeReference::NativeBinding
    );
}

#[test]
fn type_reference_other_strings_are_aliases() {
    assert_eq!(
        TypeDefinitionTypeReference::from_str("justaname").unwrap(),
        TypeDefinitionTypeReference::Alias(DeclarationReference::local("justaname".to_string()))
    );
}

#[test]
fn type_reference_bad_project_part_is_rejected() {
    assert!(TypeDefinitionTypeReference::from_str("in:va:lid/mod/Name").is_err());
}

#[test]
fn native_bindings_insert_overwrites() {
    let mut nb = NativeBindings::new();
    nb.insert(TargetLanguage::Kotlin, "Int".to_string());
    nb.insert(TargetLanguage::Swift, "Int32".to_string());
    nb.insert(TargetLanguage::Kotlin, "Long".to_string());
    assert_eq!(nb.len(), 2);
    assert_eq!(nb.get(TargetLanguage::Kotlin), Some(&"Long".to_string()));
    assert_eq!(nb.get(TargetLanguage::Swift), Some(&"Int32".to_string()));
    assert_eq!(nb.get(TargetLanguage::Dart), None);
}
