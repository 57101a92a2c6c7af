pub mod hashing;
pub mod json;
pub mod name_set;
pub mod order;
pub mod paths;
pub mod patterns;
pub mod text;
