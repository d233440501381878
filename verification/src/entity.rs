pub mod component;
pub mod component_definition;
pub mod declaration_reference;
pub mod dependency;
pub mod environment;
pub mod epath;
pub mod event;
pub mod event_definition;
pub mod module_definitions;
pub mod project_identifier;
pub mod target_language;
pub mod type_definition;
pub mod version;
