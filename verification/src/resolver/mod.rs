pub mod node_resolver;
pub mod python_resolver;
