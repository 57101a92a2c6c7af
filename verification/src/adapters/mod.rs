pub mod node;
pub mod plan;
pub mod python;
pub mod run;
pub mod typescript;
