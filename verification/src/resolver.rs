pub mod project_query;
pub mod resolver_impl;
