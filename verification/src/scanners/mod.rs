pub mod python_scanner;
pub mod node_scanner;
