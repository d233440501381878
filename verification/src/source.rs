pub mod component_definition;
pub mod declaration_reference_filter;
pub mod environment;
pub mod event_definition;
pub mod manifest;
pub mod module_definitions;
pub mod module_fragment;
pub mod parameter_definition;
pub mod project;
pub mod project_reference;
pub mod type_definition;
