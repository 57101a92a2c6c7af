//! Capsule: detection, import scanning, package trust checks and lockfile
//! decisions for a zero-setup runtime of Python, Node.js and TypeScript
//! scripts.
pub mod adapters;
pub mod cache;
pub mod clean;
pub mod command;
pub mod detector;
pub mod error;
pub mod inspect;
pub mod lockfile;
pub mod resolver;
pub mod runner;
pub mod scanners;
pub mod security;
pub mod util;
