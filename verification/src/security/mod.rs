pub mod trust;
