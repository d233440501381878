use open_ams::entity::epath::EPath;
use open_ams::entity::project_identifier::ProjectIdentifier;
use open_ams::entity::target_language::{NativeBindings, TargetLanguage};
use open_ams::entity::type_definition::TypeDefinition;
use open_ams::entity::version::Version;
use open_ams::resolver::resolver_impl::{Resolver, ResolverError};
use open_ams::source::environment::{EnvironmentInitializationError, SourceEnvironment};
use open_ams::source::manifest::SourceManifest;
use open_ams::source::module_definitions::ModuleDefinitions;
use open_ams::source::module_fragment::SourceModuleFragment;
use open_ams::source::project::SourceProject;
use open_ams::source::type_definition::{SourceTypeDefinition, TypeDefinitionTypeReference};

fn stdlib_project() -> SourceProject {
    SourceProject::new(
        SourceManifest::new("ams", "stdlib", Version::Latest, vec![]),
        vec![],
    )
}

fn native_binding_type(bindings: Vec<(TargetLanguage, &str)>) -> SourceTypeDefinition {
    let mut nb = NativeBindings::new();
    for (lang, code) in bindings {
        nb.insert(lang, code.to_string());
    }
    SourceTypeDefinition::new(TypeDefinitionTypeReference::NativeBinding, None, None, nb)
}

fn alias_type(reference: &str) -> SourceTypeDefinition {
    SourceTypeDefinition::new(
        TypeDefinitionTypeReference::from_str(reference).unwrap(),
        None,
        None,
        NativeBindings::new(),
    )
}

#[test]
fn resolve_single_native_binding() {
    let manifest = SourceManifest::new("g", "n", Version::new(1, 0, 0), vec![]);
    let mut defs = ModuleDefinitions::new();
    defs.add_type(
        "Color".to_string(),
        native_binding_type(vec![(TargetLanguage::Kotlin, "Int")]),
    );
    let fragment = SourceModuleFragment::new(EPath::empty(), defs);
    let mut project = SourceProject::new(manifest, vec![fragment]);
    project.compress_module_fragments();

    let mut env = SourceEnvironment::new(stdlib_project());
    env.load_project(project).unwrap();
    env.set_target_project(ProjectIdentifier::new("g", "n"));

    let resolver = Resolver::of(&env);
    let resolved = resolver.resolve().unwrap();
    assert_eq!(resolved.identifier(), &ProjectIdentifier::new("g", "n"));
    assert_eq!(resolved.type_definitions().len(), 1);
    match &resolved.type_definitions()[0] {
        TypeDefinition::NativeBinding(nb) => {
            assert_eq!(nb.identifier.project, ProjectIdentifier::new("g", "n"));
            assert_eq!(nb.identifier.path.segments, vec!["Color".to_string()]);
            assert_eq!(nb.bindings.len(), 1);
            assert_eq!(
                nb.bindings.get(TargetLanguage::Kotlin),
                Some(&"Int".to_string())
            );
        }
        other => panic!("expected a native binding, got {:?}", other),
    }
}

#[test]
fn resolve_self_alias_builds_target_address() {
    let manifest = SourceManifest::new("g", "n", Version::new(1, 0, 0), vec![]);

    let mut root_defs = ModuleDefinitions::new();
    root_defs.add_type(
        "Color".to_string(),
        native_binding_type(vec![(TargetLanguage::Kotlin, "Int")]),
    );
    let root_fragment = SourceModuleFragment::new(EPath::empty(), root_defs);

    let mut ui_defs = ModuleDefinitions::new();
    ui_defs.add_type("Primary".to_string(), alias_type("self/Color"));
    let ui_fragment = SourceModuleFragment::new(EPath::new(vec!["ui".to_string()]), ui_defs);

    let mut project = SourceProject::new(manifest, vec![root_fragment, ui_fragment]);
    project.compress_module_fragments();

    let mut env = SourceEnvironment::new(stdlib_project());
    env.load_project(project).unwrap();
    env.set_target_project(ProjectIdentifier::new("g", "n"));

    let resolved = Resolver::of(&env).resolve().unwrap();
    assert_eq!(resolved.type_definitions().len(), 2);
    let alias = resolved
        .type_definitions()
        .iter()
        .find_map(|td| match td {
            TypeDefinition::Alias(a) => Some(a),
            _ => None,
        })
        .expect("expected an alias entry");
    assert_eq!(
        alias.identifier.path.segments,
        vec!["ui".to_string(), "Primary".to_string()]
    );
    assert_eq!(alias.aliases.project, ProjectIdentifier::new("g", "n"));
    assert_eq!(alias.aliases.path.segments, vec!["Color".to_string()]);
}

#[test]
fn resolve_external_alias_is_not_validated() {
    let manifest = SourceManifest::new("g", "n", Version::new(1, 0, 0), vec![]);
    let mut defs = ModuleDefinitions::new();
    defs.add_type("Borrowed".to_string(), alias_type("other:proj/deep/Thing"));
    let fragment = SourceModuleFragment::new(EPath::empty(), defs);
    let mut project = SourceProject::new(manifest, vec![fragment]);
    project.compress_module_fragments();

    let mut env = SourceEnvironment::new(stdlib_project());
    env.load_project(project).unwrap();
    env.set_target_project(ProjectIdentifier::new("g", "n"));

    let resolved = Resolver::of(&env).resolve().unwrap();
    assert_eq!(resolved.type_definitions().len(), 1);
    match &resolved.type_definitions()[0] {
        TypeDefinition::Alias(a) => {
            // The target project is not loaded; the address is built anyway.
            assert_eq!(a.aliases.project, ProjectIdentifier::new("other", "proj"));
            assert_eq!(
                a.aliases.path.segments,
                vec!["deep".to_string(), "Thing".to_string()]
            );
        }
        other => panic!("expected an alias, got {:?}", other),
    }
}

#[test]
fn resolve_local_alias_gets_fresh_placeholder() {
    let manifest = SourceManifest::new("g", "n", Version::new(1, 0, 0), vec![]);
    let mut defs = ModuleDefinitions::new();
    defs.add_type("Mystery".to_string(), alias_type("justaname"));
    let fragment = SourceModuleFragment::new(EPath::empty(), defs);
    let mut project = SourceProject::new(manifest, vec![fragment]);
    project.compress_module_fragments();

    let mut env = SourceEnvironment::new(stdlib_project());
    env.load_project(project).unwrap();
    env.set_target_project(ProjectIdentifier::new("g", "n"));

    let first = Resolver::of(&env).resolve().unwrap();
    let second = Resolver::of(&env).resolve().unwrap();

    let placeholder_of = |resolved: &open_ams::entity::environment::Environment| {
        match &resolved.type_definitions()[0] {
            TypeDefinition::Alias(a) => a.aliases.clone(),
            other => panic!("expected an alias, got {:?}", other),
        }
    };
    let p1 = placeholder_of(&first);
    let p2 = placeholder_of(&second);
    // Only the shape is fixed: the undefined project identity and one
    // random path segment, fresh on every resolution run.
    assert_eq!(p1.project, ProjectIdentifier::new("undefined", "undefined"));
    assert_eq!(p1.path.segments.len(), 1);
    assert_eq!(p2.project, ProjectIdentifier::new("undefined", "undefined"));
    assert_eq!(p2.path.segments.len(), 1);
    assert_ne!(p1.path.segments[0], p2.path.segments[0]);
}

#[test]
fn loading_duplicate_project_fails() {
    let make_project = || {
        SourceProject::new(
            SourceManifest::new("g", "n", Version::new(1, 0, 0), vec![]),
            vec![],
        )
    };
    let mut env = SourceEnvironment::new(stdlib_project());
    env.load_project(make_project()).unwrap();
    let result = env.load_project(make_project());
    match result {
        Err(EnvironmentInitializationError::ProjectDublicated { project_name }) => {
            assert_eq!(project_name, "g:n");
        }
        other => panic!("expected the duplicate-project error, got {:?}", other),
    }
    assert_eq!(env.projects().len(), 2);
}

#[test]
fn resolve_without_target_project_fails() {
    let env = SourceEnvironment::new(stdlib_project());
    let result = Resolver::of(&env).resolve();
    match result {
        Err(ResolverError::EnvironmentResolveError(message)) => {
            assert_eq!(message, "No target project");
        }
        other => panic!("expected a resolve error, got {:?}", other),
    }
}

#[test]
fn resolution_is_deterministic_without_local_aliases() {
    let make_env = || {
        let manifest = SourceManifest::new("g", "n", Version::new(1, 0, 0), vec![]);
        let mut defs = ModuleDefinitions::new();
        defs.add_type(
            "Color".to_string(),
            native_binding_type(vec![
                (TargetLanguage::Kotlin, "Int"),
                (TargetLanguage::Swift, "Int32"),
            ]),
        );
        defs.add_type("Primary".to_string(), alias_type("self/Color"));
        let fragment = SourceModuleFragment::new(EPath::empty(), defs);
        let mut project = SourceProject::new(manifest, vec![fragment]);
        project.compress_module_fragments();
        let mut env = SourceEnvironment::new(stdlib_project());
        env.load_project(project).unwrap();
        env.set_target_project(ProjectIdentifier::new("g", "n"));
        env
    };
    let env = make_env();
    let first = Resolver::of(&env).resolve().unwrap();
    let second = Resolver::of(&env).resolve().unwrap();
    assert_eq!(first, second);
}

#[test]
fn form_target_project_queries_only_target() {
    let mut env = SourceEnvironment::new(stdlib_project());
    env.set_target_project(ProjectIdentifier::new("g", "n"));
    let resolver = Resolver::of(&env);
    let query = resolver.form_target_project().unwrap();
    assert_eq!(query.projects, vec![ProjectIdentifier::new("g", "n")]);
}

#[test]
fn form_all_projects_queries_in_load_order() {
    let mut env = SourceEnvironment::new(stdlib_project());
    env.load_project(SourceProject::new(
        SourceManifest::new("g", "n", Version::new(1, 0, 0), vec![]),
        vec![],
    ))
    .unwrap();
    let resolver = Resolver::of(&env);
    let query = resolver.form_all_projects().unwrap();
    assert_eq!(
        query.projects,
        vec![
            ProjectIdentifier::new("ams", "stdlib"),
            ProjectIdentifier::new("g", "n"),
        ]
    );
}
