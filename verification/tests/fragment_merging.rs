use open_ams::entity::epath::EPath;
use open_ams::entity::target_language::{NativeBindings, TargetLanguage};
use open_ams::source::manifest::SourceManifest;
use open_ams::source::module_definitions::ModuleDefinitions;
use open_ams::source::module_fragment::SourceModuleFragment;
use open_ams::source::project::SourceProject;
use open_ams::source::type_definition::{SourceTypeDefinition, TypeDefinitionTypeReference};
use open_ams::entity::version::Version;

fn binding_type(code: &str) -> SourceTypeDefinition {
    let mut nb = NativeBindings::new();
    nb.insert(TargetLanguage::Kotlin, code.to_string());
    SourceTypeDefinition::new(TypeDefinitionTypeReference::NativeBinding, None, None, nb)
}

fn fragment_with(path: &str, declared: &str, code: &str) -> SourceModuleFragment {
    let mut defs = ModuleDefinitions::new();
    defs.add_type(declared.to_string(), binding_type(code));
    let path = if path.is_empty() {
        EPath::empty()
    } else {
        EPath::from_str(path)
    };
    SourceModuleFragment::new(path, defs)
}

#[test]
fn merge_bias_later_definition_wins() {
    // Two fragments at the same path declare the same type name with
    // different definitions: after compression the second-applied
    // definition is the one that remains.
    let first = fragment_with("ui", "Color", "Int");
    let second = fragment_with("ui", "Color", "Long");
    let mut project = SourceProject::new(
        SourceManifest::new("g", "n", Version::new(1, 0, 0), vec![]),
        vec![first, second],
    );
    project.compress_module_fragments();

    assert_eq!(project.modules().len(), 1);
    let merged = &project.modules()[0];
    assert_eq!(merged.path(), &EPath::from_str("ui"));
    assert_eq!(merged.definitions().types().len(), 1);
    let kept = merged.definitions().types().get("Color").unwrap();
    assert_eq!(
        kept.native_bindings.get(TargetLanguage::Kotlin),
        Some(&"Long".to_string())
    );
}

#[test]
fn merge_keeps_distinct_names_from_both_fragments() {
    let first = fragment_with("ui", "Color", "Int");
    let second = fragment_with("ui", "Shade", "Long");
    let mut project = SourceProject::new(
        SourceManifest::new("g", "n", Version::new(1, 0, 0), vec![]),
        vec![first, second],
    );
    project.compress_module_fragments();

    assert_eq!(project.modules().len(), 1);
    let merged = &project.modules()[0];
    assert_eq!(merged.definitions().types().len(), 2);
    assert!(merged.definitions().types().get("Color").is_some());
    assert!(merged.definitions().types().get("Shade").is_some());
}

#[test]
fn compress_keeps_first_occurrence_order_of_paths() {
    let fragments = vec![
        fragment_with("b", "T1", "Int"),
        fragment_with("a", "T2", "Int"),
        fragment_with("b", "T3", "Int"),
    ];
    let mut project = SourceProject::new(
        SourceManifest::new("g", "n", Version::new(1, 0, 0), vec![]),
        fragments,
    );
    project.compress_module_fragments();

    assert_eq!(project.modules().len(), 2);
    assert_eq!(project.modules()[0].path(), &EPath::from_str("b"));
    assert_eq!(project.modules()[1].path(), &EPath::from_str("a"));
    assert_eq!(project.modules()[0].definitions().types().len(), 2);
}

#[test]
fn compress_twice_equals_once() {
    let make_project = || {
        SourceProject::new(
            SourceManifest::new("g", "n", Version::new(1, 0, 0), vec![]),
            vec![
                fragment_with("", "Root", "Int"),
                fragment_with("ui", "Color", "Int"),
                fragment_with("ui", "Color", "Long"),
                fragment_with("ui", "Shade", "Float"),
            ],
        )
    };
    let mut once = make_project();
    once.compress_module_fragments();
    let mut twice = make_project();
    twice.compress_module_fragments();
    twice.compress_module_fragments();
    assert_eq!(once.modules(), twice.modules());
}
